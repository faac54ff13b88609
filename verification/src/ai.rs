//! Turn plans for AI wizards: the fallback plan used when no model answer is
//! available, and reading a model's JSON answer into a legal plan.
use vstd::prelude::*;
use vstd::string::*;

use crate::model::{
    opt_text, ActionV, Card, CardAction, CardTarget, EventAction, GameView, GameViewV, PlanV,
    Position, PublicPlayerV, Tile, TurnPlan, move_cost, move_cost_fits, move_cost_in_range, movement_cost,
    public_views,
};
use crate::messages::default_question;
use crate::text::{take_chars, take_chars_of, text_of};

verus! {

// ----- The fallback plan -----

/// A tile that can still be completed.
pub open spec fn tile_available(t: Tile) -> bool {
    t.completed_by is None && t.sealed_days == 0
}

pub open spec fn is_first_public(ps: Seq<PublicPlayerV>, id: u64, i: int) -> bool {
    &&& 0 <= i < ps.len()
    &&& ps[i].id == id
    &&& forall|j: int| 0 <= j < i ==> ps[j].id != id
}

/// Index of the first listed wizard with this id, or -1.
pub open spec fn public_index(ps: Seq<PublicPlayerV>, id: u64) -> int {
    if exists|i: int| is_first_public(ps, id, i) {
        choose|i: int| is_first_public(ps, id, i)
    } else {
        -1
    }
}

/// The energy the planning wizard would pay to reach a tile (0 when the
/// wizard is not listed).
pub open spec fn reach_cost(view: GameViewV, player_id: u64, t: Tile) -> int {
    let i = public_index(view.players, player_id);
    if i >= 0 {
        move_cost(view.players[i].pos, t.pos, view.caravan_row as int)
    } else {
        0
    }
}

/// Tile `i` is the first available tile of least cost.
pub open spec fn is_cheapest_tile(view: GameViewV, player_id: u64, i: int) -> bool {
    &&& 0 <= i < view.tiles.len()
    &&& tile_available(view.tiles[i])
    &&& forall|j: int|
        0 <= j < view.tiles.len() && tile_available(view.tiles[j]) ==> reach_cost(
            view,
            player_id,
            view.tiles[i],
        ) <= reach_cost(view, player_id, view.tiles[j])
    &&& forall|j: int|
        0 <= j < i && tile_available(view.tiles[j]) ==> reach_cost(view, player_id, view.tiles[i])
            < reach_cost(view, player_id, view.tiles[j])
}

/// Where the fallback plan goes: the cheapest available tile, else the
/// caravan row's first column.
pub open spec fn fallback_target(view: GameViewV, player_id: u64) -> Position {
    if exists|i: int| is_cheapest_tile(view, player_id, i) {
        view.tiles[choose|i: int| is_cheapest_tile(view, player_id, i)].pos
    } else {
        Position { row: view.caravan_row, col: 0 }
    }
}

/// Every reach cost of the fallback plan can be computed in `i32`.
pub open spec fn fallback_fits(view: GameViewV, player_id: u64) -> bool {
    let i = public_index(view.players, player_id);
    i >= 0 ==> forall|j: int|
        0 <= j < view.tiles.len() ==> move_cost_fits(
            view.players[i].pos,
            #[trigger] view.tiles[j].pos,
            view.caravan_row as int,
        )
}

fn find_public(view: &GameView, id: u64) -> (r: Option<usize>)
    ensures
        match r {
            Some(i) => is_first_public(view@.players, id, i as int) && public_index(
                view@.players,
                id,
            ) == i,
            None => public_index(view@.players, id) == -1,
        },
{
    let mut i: usize = 0;
    assert(public_views(view.players@).len() == view.players@.len());
    while i < view.players.len()
        invariant
            i <= view.players.len(),
            view@.players.len() == view.players@.len(),
            forall|j: int| 0 <= j < i ==> view@.players[j].id != id,
        decreases view.players.len() - i,
    {
        assert(public_views(view.players@)[i as int] == view.players@[i as int]@);
        if view.players[i].id == id {
            proof {
                let k = choose|k: int| is_first_public(view@.players, id, k);
                assert(is_first_public(view@.players, id, i as int));
                if k < i {
                    assert(view@.players[k].id != id);
                }
                if k > i {
                    assert(view@.players[i as int].id != id);
                }
            }
            return Some(i);
        }
        i = i + 1;
    }
    proof {
        if exists|k: int| is_first_public(view@.players, id, k) {
            let k = choose|k: int| is_first_public(view@.players, id, k);
            assert(view@.players[k].id == id);
        }
    }
    None
}

/// Whether the fallback plan's costs can all be computed.
pub fn plan_costs_fit(view: &GameView, player_id: u64) -> (r: bool)
    ensures
        r == fallback_fits(view@, player_id),
{
    let pi = match find_public(view, player_id) {
        Some(i) => i,
        None => {
            return true;
        },
    };
    assert(public_views(view.players@)[pi as int] == view.players@[pi as int]@);
    let start = view.players[pi].pos;
    let c = view.caravan_row;
    assert(pi < view@.players.len());
    let mut j: usize = 0;
    while j < view.tiles.len()
        invariant
            j <= view.tiles.len(),
            pi < view@.players.len(),
            public_index(view@.players, player_id) == pi,
            start == view@.players[pi as int].pos,
            c == view.caravan_row,
            forall|k: int|
                0 <= k < j ==> move_cost_fits(start, #[trigger] view@.tiles[k].pos, c as int),
        decreases view.tiles.len() - j,
    {
        let t = view.tiles[j].pos;
        let ok = move_cost_in_range(&start, &t, view.caravan_row);
        if !ok {
            proof {
                assert(view@.tiles[j as int].pos == t);
                assert(!move_cost_fits(start, view@.tiles[j as int].pos, c as int));
            }
            return false;
        }
        j = j + 1;
    }
    true
}

/// A plan that walks to the cheapest open tile and attempts it, with
/// `reason` as table talk.
pub fn fallback_ai_plan(view: &GameView, player_id: u64, reason: String) -> (plan: TurnPlan)
    requires
        fallback_fits(view@, player_id),
    ensures
        plan.target == fallback_target(view@, player_id),
        plan.event_action == EventAction::Attempt,
        plan.card_action@ == ActionV::NoCard,
        plan.chat@ == reason@,
{
    let pi = find_public(view, player_id);
    let mut best: Option<usize> = None;
    let mut best_cost: i32 = 0;
    let mut j: usize = 0;
    let ghost v = view@;
    if let Some(i) = pi {
        assert(public_views(view.players@)[i as int] == view.players@[i as int]@);
    }
    while j < view.tiles.len()
        invariant
            j <= view.tiles.len(),
            v == view@,
            fallback_fits(v, player_id),
            pi matches Some(i) ==> i < v.players.len() && public_index(v.players, player_id) == i
                && view.players@[i as int].pos == v.players[i as int].pos,
            pi is None ==> public_index(v.players, player_id) == -1,
            match best {
                Some(b) => b < j && tile_available(v.tiles[b as int]) && best_cost == reach_cost(
                    v,
                    player_id,
                    v.tiles[b as int],
                ) && (forall|k: int|
                    0 <= k < j && tile_available(v.tiles[k]) ==> best_cost <= reach_cost(
                        v,
                        player_id,
                        #[trigger] v.tiles[k],
                    )) && (forall|k: int|
                    0 <= k < b && tile_available(v.tiles[k]) ==> best_cost < reach_cost(
                        v,
                        player_id,
                        #[trigger] v.tiles[k],
                    )),
                None => forall|k: int| 0 <= k < j ==> !tile_available(#[trigger] v.tiles[k]),
            },
        decreases view.tiles.len() - j,
    {
        let t = view.tiles[j];
        if t.completed_by.is_none() && t.sealed_days == 0 {
            let cost = match pi {
                Some(i) => {
                    assert(move_cost_fits(v.players[i as int].pos, v.tiles[j as int].pos, v.caravan_row as int));
                    movement_cost(&view.players[i].pos, &t.pos, view.caravan_row)
                },
                None => 0,
            };
            match best {
                Some(_) => {
                    if cost < best_cost {
                        best = Some(j);
                        best_cost = cost;
                    }
                },
                None => {
                    best = Some(j);
                    best_cost = cost;
                },
            }
        }
        j = j + 1;
    }
    let target = match best {
        Some(b) => {
            proof {
                assert(is_cheapest_tile(v, player_id, b as int));
                let k = choose|k: int| is_cheapest_tile(v, player_id, k);
                if k < b {
                    assert(reach_cost(v, player_id, v.tiles[b as int]) < reach_cost(v, player_id, v.tiles[k]));
                }
                if k > b {
                    assert(reach_cost(v, player_id, v.tiles[k]) < reach_cost(v, player_id, v.tiles[b as int]));
                }
            }
            view.tiles[b].pos
        },
        None => {
            proof {
                if exists|k: int| is_cheapest_tile(v, player_id, k) {
                    let k = choose|k: int| is_cheapest_tile(v, player_id, k);
                    assert(tile_available(v.tiles[k]));
                }
            }
            Position { row: view.caravan_row, col: 0 }
        },
    };
    TurnPlan { target, event_action: EventAction::Attempt, card_action: CardAction::NoCard, chat: reason }
}

// ----- Reading a model's answer -----

/// What `serde_json::from_str::<serde_json::Value>` reports for a text that is
/// not JSON (`None` when it parses).
pub uninterp spec fn json_error_text(text: Seq<char>) -> Option<Seq<char>>;

/// `Value::as_i64` of the member `key` of the parsed text.
pub uninterp spec fn json_i64_at(text: Seq<char>, key: Seq<char>) -> Option<i64>;

/// `Value::as_u64` of the member `key` of the parsed text.
pub uninterp spec fn json_u64_at(text: Seq<char>, key: Seq<char>) -> Option<u64>;

/// `Value::as_str` of the member `key` of the parsed text.
pub uninterp spec fn json_str_at(text: Seq<char>, key: Seq<char>) -> Option<Seq<char>>;

/// The string at `output[0].content[0].text` of the parsed text.
pub uninterp spec fn json_nested_text(text: Seq<char>) -> Option<Seq<char>>;

/// `serde_json::from_str::<serde_json::Value>`: `None` when the text parses,
/// else the error's `to_string()`. The claim is only that the outcome is a
/// function of the text; what the parser accepts is not stated here.
#[verifier::external_body]
fn json_error(text: &str) -> (r: Option<String>)
    ensures
        opt_text(r) == json_error_text(text@),
{
    match serde_json::from_str::<serde_json::Value>(text) {
        Ok(_) => None,
        Err(e) => Some(e.to_string()),
    }
}

/// `serde_json::from_str` then `Value::get(key)` and `Value::as_i64`: the
/// member as an `i64`, `None` when the text does not parse, the member is
/// missing or is not such an integer. Named, not stated.
#[verifier::external_body]
fn json_i64_field(text: &str, key: &str) -> (r: Option<i64>)
    ensures
        r == json_i64_at(text@, key@),
{
    match serde_json::from_str::<serde_json::Value>(text) {
        Ok(v) => v.get(key).and_then(serde_json::Value::as_i64),
        Err(_) => None,
    }
}

/// `serde_json::from_str` then `Value::get(key)` and `Value::as_u64`, as above.
#[verifier::external_body]
fn json_u64_field(text: &str, key: &str) -> (r: Option<u64>)
    ensures
        r == json_u64_at(text@, key@),
{
    match serde_json::from_str::<serde_json::Value>(text) {
        Ok(v) => v.get(key).and_then(serde_json::Value::as_u64),
        Err(_) => None,
    }
}

/// `serde_json::from_str` then `Value::get(key)` and `Value::as_str`, as above.
#[verifier::external_body]
fn json_str_field(text: &str, key: &str) -> (r: Option<String>)
    ensures
        opt_text(r) == json_str_at(text@, key@),
{
    match serde_json::from_str::<serde_json::Value>(text) {
        Ok(v) => v.get(key).and_then(serde_json::Value::as_str).map(str::to_string),
        Err(_) => None,
    }
}

/// `serde_json::from_str` then the path `output`, first array item,
/// `content`, first array item, `text`, read with `Value::as_str`.
#[verifier::external_body]
fn json_output_text(text: &str) -> (r: Option<String>)
    ensures
        opt_text(r) == json_nested_text(text@),
{
    match serde_json::from_str::<serde_json::Value>(text) {
        Ok(v) => v.get("output").and_then(serde_json::Value::as_array).and_then(|items| items.first())
            .and_then(|item| item.get("content")).and_then(serde_json::Value::as_array)
            .and_then(|items| items.first()).and_then(|item| item.get("text"))
            .and_then(serde_json::Value::as_str).map(str::to_string),
        Err(_) => None,
    }
}

/// The text of a model response body: its `output_text`, else the first
/// output item's first content text.
pub fn ai_response_text(body: &str) -> (r: Option<String>)
    ensures
        opt_text(r) == match json_str_at(body@, "output_text"@) {
            Some(t) => Some(t),
            None => json_nested_text(body@),
        },
{
    match json_str_field(body, "output_text") {
        Some(t) => Some(t),
        None => json_output_text(body),
    }
}

/// The members of a model's answer that a plan is built from.
pub struct AiReply {
    pub target_row: Option<i64>,
    pub target_col: Option<i64>,
    pub event_action: Option<String>,
    pub card_action: Option<String>,
    pub target_player_id: Option<u64>,
    pub question: Option<String>,
    pub chat: Option<String>,
}

pub struct AiReplyV {
    pub target_row: Option<i64>,
    pub target_col: Option<i64>,
    pub event_action: Option<Seq<char>>,
    pub card_action: Option<Seq<char>>,
    pub target_player_id: Option<u64>,
    pub question: Option<Seq<char>>,
    pub chat: Option<Seq<char>>,
}

impl View for AiReply {
    type V = AiReplyV;

    open spec fn view(&self) -> AiReplyV {
        AiReplyV {
            target_row: self.target_row,
            target_col: self.target_col,
            event_action: opt_text(self.event_action),
            card_action: opt_text(self.card_action),
            target_player_id: self.target_player_id,
            question: opt_text(self.question),
            chat: opt_text(self.chat),
        }
    }
}

/// The members of a JSON answer.
pub open spec fn reply_of_text(text: Seq<char>) -> AiReplyV {
    AiReplyV {
        target_row: json_i64_at(text, "target_row"@),
        target_col: json_i64_at(text, "target_col"@),
        event_action: json_str_at(text, "event_action"@),
        card_action: json_str_at(text, "card_action"@),
        target_player_id: json_u64_at(text, "target_player_id"@),
        question: json_str_at(text, "question"@),
        chat: json_str_at(text, "chat"@),
    }
}

pub open spec fn is_first_other(ps: Seq<PublicPlayerV>, own: u64, i: int) -> bool {
    &&& 0 <= i < ps.len()
    &&& ps[i].id != own
    &&& forall|j: int| 0 <= j < i ==> ps[j].id == own
}

/// The first listed wizard other than `own`, else `own` itself.
pub open spec fn default_opponent(view: GameViewV, own: u64) -> u64 {
    if exists|i: int| is_first_other(view.players, own, i) {
        view.players[choose|i: int| is_first_other(view.players, own, i)].id
    } else {
        own
    }
}

pub open spec fn planned_action(name: Option<Seq<char>>) -> EventAction {
    if name == Some("Rest"@) {
        EventAction::Rest
    } else if name == Some("Ignore"@) {
        EventAction::Ignore
    } else {
        EventAction::Attempt
    }
}

/// The plan an answer stands for: missing coordinates fall back to the
/// caravan row and column 0, a missing target wizard to the first other
/// wizard, unknown actions to attempting without a card, and table talk is
/// cut to 240 characters.
pub open spec fn reply_plan(r: AiReplyV, view: GameViewV, own: u64) -> PlanV {
    let row = (match r.target_row {
        Some(x) => x,
        None => view.caravan_row as i64,
    }) as i32;
    let col = (match r.target_col {
        Some(x) => x,
        None => 0i64,
    }) as i32;
    let other = match r.target_player_id {
        Some(x) => x,
        None => default_opponent(view, own),
    };
    let question = match r.question {
        Some(q) => q,
        None => default_question(),
    };
    let card = if r.card_action == Some("PoisonedBreakfast"@) {
        ActionV::PlayCard {
            card: Card::PoisonedBreakfast,
            target: CardTarget::Player(other),
            question: None,
        }
    } else if r.card_action == Some("AlarmWard"@) {
        ActionV::PlayCard { card: Card::AlarmWard, target: CardTarget::Untargeted, question: None }
    } else if r.card_action == Some("EventSeal"@) {
        ActionV::PlayCard {
            card: Card::EventSeal,
            target: CardTarget::Tile(Position { row, col }),
            question: None,
        }
    } else if r.card_action == Some("SpellOfTruth"@) {
        ActionV::PlayCard {
            card: Card::SpellOfTruth,
            target: CardTarget::Player(other),
            question: Some(question),
        }
    } else {
        ActionV::NoCard
    };
    PlanV {
        target: Position { row, col },
        event_action: planned_action(r.event_action),
        card_action: card,
        chat: take_chars(
            match r.chat {
                Some(c) => c,
                None => Seq::empty(),
            },
            240,
        ),
    }
}

/// Reads the members of a JSON answer; a text that is not JSON gives the parser's error.
pub fn read_ai_reply(text: &str) -> (r: Result<AiReply, String>)
    ensures
        match json_error_text(text@) {
            Some(e) => r matches Err(m) && m@ == e,
            None => r matches Ok(reply) && reply@ == reply_of_text(text@),
        },
{
    match json_error(text) {
        Some(e) => Err(e),
        None => Ok(
            AiReply {
                target_row: json_i64_field(text, "target_row"),
                target_col: json_i64_field(text, "target_col"),
                event_action: json_str_field(text, "event_action"),
                card_action: json_str_field(text, "card_action"),
                target_player_id: json_u64_field(text, "target_player_id"),
                question: json_str_field(text, "question"),
                chat: json_str_field(text, "chat"),
            },
        ),
    }
}

fn is_word(s: &Option<String>, word: &str) -> (r: bool)
    ensures
        r == (opt_text(*s) == Some(word@)),
{
    match s {
        Some(t) => *t == text_of(word),
        None => false,
    }
}

fn first_other(view: &GameView, own: u64) -> (r: u64)
    ensures
        r == default_opponent(view@, own),
{
    let mut i: usize = 0;
    assert(public_views(view.players@).len() == view.players@.len());
    while i < view.players.len()
        invariant
            i <= view.players.len(),
            view@.players.len() == view.players@.len(),
            forall|j: int| 0 <= j < i ==> view@.players[j].id == own,
        decreases view.players.len() - i,
    {
        assert(public_views(view.players@)[i as int] == view.players@[i as int]@);
        if view.players[i].id != own {
            proof {
                assert(is_first_other(view@.players, own, i as int));
                let k = choose|k: int| is_first_other(view@.players, own, k);
                if k < i {
                    assert(view@.players[k].id == own);
                }
                if k > i {
                    assert(view@.players[i as int].id == own);
                }
            }
            return view.players[i].id;
        }
        i = i + 1;
    }
    proof {
        if exists|k: int| is_first_other(view@.players, own, k) {
            let k = choose|k: int| is_first_other(view@.players, own, k);
            assert(view@.players[k].id != own);
        }
    }
    own
}

/// The plan a model's answer stands for.
pub fn plan_from_reply(reply: &AiReply, view: &GameView, own_id: u64) -> (plan: TurnPlan)
    ensures
        plan@ == reply_plan(reply@, view@, own_id),
{
    let row = match reply.target_row {
        Some(x) => x,
        None => view.caravan_row as i64,
    } as i32;
    let col = match reply.target_col {
        Some(x) => x,
        None => 0i64,
    } as i32;
    let event_action = if is_word(&reply.event_action, "Rest") {
        EventAction::Rest
    } else if is_word(&reply.event_action, "Ignore") {
        EventAction::Ignore
    } else {
        EventAction::Attempt
    };
    let other = match reply.target_player_id {
        Some(x) => x,
        None => first_other(view, own_id),
    };
    let question = match &reply.question {
        Some(q) => q.clone(),
        None => text_of("What are you planning?"),
    };
    let card_action = if is_word(&reply.card_action, "PoisonedBreakfast") {
        CardAction::PlayCard {
            card: Card::PoisonedBreakfast,
            target: CardTarget::Player(other),
            question: None,
        }
    } else if is_word(&reply.card_action, "AlarmWard") {
        CardAction::PlayCard { card: Card::AlarmWard, target: CardTarget::Untargeted, question: None }
    } else if is_word(&reply.card_action, "EventSeal") {
        CardAction::PlayCard {
            card: Card::EventSeal,
            target: CardTarget::Tile(Position { row, col }),
            question: None,
        }
    } else if is_word(&reply.card_action, "SpellOfTruth") {
        CardAction::PlayCard {
            card: Card::SpellOfTruth,
            target: CardTarget::Player(other),
            question: Some(question),
        }
    } else {
        CardAction::NoCard
    };
    let chat = match &reply.chat {
        Some(c) => take_chars_of(c.as_str(), 240),
        None => {
            let empty = String::new();
            assert(take_chars(empty@, 240) =~= empty@);
            empty
        },
    };
    TurnPlan { target: Position { row, col }, event_action, card_action, chat }
}

/// A legal plan from a model's JSON answer, or the parser's error.
pub fn parse_ai_plan(text: &str, view: &GameView, own_id: u64) -> (r: Result<TurnPlan, String>)
    ensures
        match json_error_text(text@) {
            Some(e) => r matches Err(m) && m@ == e,
            None => r matches Ok(plan) && plan@ == reply_plan(reply_of_text(text@), view@, own_id),
        },
{
    match read_ai_reply(text) {
        Ok(reply) => Ok(plan_from_reply(&reply, view, own_id)),
        Err(e) => Err(e),
    }
}

} // verus!
