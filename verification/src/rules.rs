//! The rules of a quest as functions on a mathematical game state: joining,
//! planning, playing cards, moving, completing events, upkeep and the
//! caravan's advance.
use vstd::prelude::*;

use crate::cards::{card_cost, card_one_use, card_target_kind, card_title, spent, TargetKind};
use crate::messages::{
    bad_target_text, chat_text, consequence_text, day_begins_text, equips_text, event_done_text,
    exhausted_text, hat_text, ill_text, joins_text, map_text, moves_text,
    no_event_text, opening_text, plans_resolve_text, poisoned_text, rest_text, scrap_text,
    sealed_event_text, sealed_tile_text, step_text, truth_text, unknown_name, ward_text, no_energy_text,
    default_question,
};
use crate::model::{
    GameViewV, OwnPlayerV, PublicPlayerV, ActionV, Card, CardTarget, EventAction, EventKind, LogV, PlayerV, Position, Reagents, Status,
    Tile, TurnPlan, BOARD_WIDTH, FORWARD_ROWS, MAX_ENERGY, QUEST_DAYS, move_cost, remove_first,
    step_distance,
};
use crate::text::trim_text;

verus! {

/// A quest in progress.
pub struct GameV {
    pub day: u32,
    pub caravan_row: i32,
    pub next_id: u64,
    /// Consequence events waiting to be placed; the last one is placed first.
    pub queue: Seq<EventKind>,
    pub plans: Map<u64, TurnPlan>,
    pub logs: Seq<LogV>,
    pub players: Seq<PlayerV>,
    pub tiles: Seq<Tile>,
}

/// Identifiers stay below this bound, so `7 * id + day` fits in a `u64`.
pub open spec fn id_cap() -> int {
    0x1000_0000_0000_0000
}

/// Identifiers that one day's resolution may use: two new rows.
pub open spec fn ids_per_day() -> int {
    2 * BOARD_WIDTH
}

// ----- Lookups -----

pub open spec fn is_first_player(ps: Seq<PlayerV>, id: u64, i: int) -> bool {
    &&& 0 <= i < ps.len()
    &&& ps[i].id == id
    &&& forall|j: int| 0 <= j < i ==> ps[j].id != id
}

/// Index of the first wizard with this id, or -1.
pub open spec fn player_index(ps: Seq<PlayerV>, id: u64) -> int {
    if exists|i: int| is_first_player(ps, id, i) {
        choose|i: int| is_first_player(ps, id, i)
    } else {
        -1
    }
}

pub open spec fn is_first_tile(ts: Seq<Tile>, pos: Position, i: int) -> bool {
    &&& 0 <= i < ts.len()
    &&& ts[i].pos == pos
    &&& forall|j: int| 0 <= j < i ==> ts[j].pos != pos
}

/// Index of the first tile at this position, or -1.
pub open spec fn tile_index(ts: Seq<Tile>, pos: Position) -> int {
    if exists|i: int| is_first_tile(ts, pos, i) {
        choose|i: int| is_first_tile(ts, pos, i)
    } else {
        -1
    }
}

pub proof fn lemma_player_index_is(ps: Seq<PlayerV>, id: u64, i: int)
    requires
        is_first_player(ps, id, i),
    ensures
        player_index(ps, id) == i,
{
    let k = choose|k: int| is_first_player(ps, id, k);
    assert(is_first_player(ps, id, k));
    if k < i {
        assert(ps[k].id != id);
    }
    if k > i {
        assert(ps[i].id != id);
    }
}

pub proof fn lemma_player_index_none(ps: Seq<PlayerV>, id: u64)
    requires
        forall|j: int| 0 <= j < ps.len() ==> ps[j].id != id,
    ensures
        player_index(ps, id) == -1,
{
    if exists|i: int| is_first_player(ps, id, i) {
        let k = choose|k: int| is_first_player(ps, id, k);
        assert(ps[k].id == id);
    }
}

pub proof fn lemma_tile_index_is(ts: Seq<Tile>, pos: Position, i: int)
    requires
        is_first_tile(ts, pos, i),
    ensures
        tile_index(ts, pos) == i,
{
    let k = choose|k: int| is_first_tile(ts, pos, k);
    assert(is_first_tile(ts, pos, k));
    if k < i {
        assert(ts[k].pos != pos);
    }
    if k > i {
        assert(ts[i].pos != pos);
    }
}

pub proof fn lemma_tile_index_none(ts: Seq<Tile>, pos: Position)
    requires
        forall|j: int| 0 <= j < ts.len() ==> ts[j].pos != pos,
    ensures
        tile_index(ts, pos) == -1,
{
    if exists|i: int| is_first_tile(ts, pos, i) {
        let k = choose|k: int| is_first_tile(ts, pos, k);
        assert(ts[k].pos == pos);
    }
}

/// The name of the wizard with this id, or `Unknown wizard`.
pub open spec fn name_of(g: GameV, id: u64) -> Seq<char> {
    let i = player_index(g.players, id);
    if i >= 0 {
        g.players[i].name
    } else {
        unknown_name()
    }
}

pub open spec fn with_log(g: GameV, text: Seq<char>, to: Option<u64>) -> GameV {
    GameV { logs: g.logs.push(LogV { day: g.day, text, private_to: to }), ..g }
}

pub open spec fn set_player(g: GameV, i: int, p: PlayerV) -> GameV {
    GameV { players: g.players.update(i, p), ..g }
}

pub open spec fn set_tile(g: GameV, i: int, t: Tile) -> GameV {
    GameV { tiles: g.tiles.update(i, t), ..g }
}

// ----- Dealing and the board -----

/// The card dealt for a seed.
pub open spec fn draw_card(seed: u64) -> Card {
    let k = seed % 7;
    if k == 0 {
        Card::PoisonedBreakfast
    } else if k == 1 {
        Card::SpellOfTruth
    } else if k == 2 {
        Card::StaffOfSparkAmplification
    } else if k == 3 {
        Card::HatOfModestProsperity
    } else if k == 4 {
        Card::SuspiciouslyHelpfulMap
    } else if k == 5 {
        Card::AlarmWard
    } else {
        Card::EventSeal
    }
}

pub open spec fn starting_hand(seed: u64) -> Seq<Card> {
    seq![draw_card(seed), Card::PoisonedBreakfast, Card::AlarmWard, Card::EventSeal]
}

/// The event generated for a square on a given day.
pub open spec fn event_for(day: int, row: int, col: int) -> EventKind {
    let k = (day + row * 3 + col * 5) % 9;
    if k == 0 {
        EventKind::Monster
    } else if k == 1 {
        EventKind::Hunt
    } else if k == 2 {
        EventKind::GuardedTreasure
    } else if k == 3 {
        EventKind::CursedShrine
    } else if k == 4 {
        EventKind::Market
    } else if k == 5 {
        EventKind::Library
    } else if k == 6 {
        EventKind::Camp
    } else if k == 7 {
        EventKind::Trap
    } else {
        EventKind::Shortcut
    }
}

/// Places one tile: a queued consequence when there is one, else a generated event.
pub open spec fn add_tile(g: GameV, row: i32, col: i32) -> GameV {
    let event = if g.queue.len() > 0 {
        g.queue.last()
    } else {
        event_for(g.day as int, row as int, col as int)
    };
    let queue = if g.queue.len() > 0 {
        g.queue.drop_last()
    } else {
        g.queue
    };
    GameV {
        queue,
        next_id: (g.next_id + 1) as u64,
        tiles: g.tiles.push(
            Tile {
                id: g.next_id,
                pos: Position { row, col },
                event,
                sealed_days: 0,
                completed_by: None,
            },
        ),
        ..g
    }
}

/// The first `k` tiles of a row placed, column by column.
pub open spec fn add_tiles(g: GameV, row: i32, k: nat) -> GameV
    decreases k,
{
    if k == 0 {
        g
    } else {
        add_tile(add_tiles(g, row, (k - 1) as nat), row, (k - 1) as i32)
    }
}

/// A whole row placed.
pub open spec fn add_row(g: GameV, row: i32) -> GameV {
    add_tiles(g, row, BOARD_WIDTH as nat)
}

/// Rows `first .. first + n` placed in order.
pub open spec fn add_rows(g: GameV, first: int, n: nat) -> GameV
    decreases n,
{
    if n == 0 {
        g
    } else {
        add_row(add_rows(g, first, (n - 1) as nat), (first + n - 1) as i32)
    }
}

/// The state before the board is laid.
pub open spec fn opening_state() -> GameV {
    GameV {
        day: 1,
        caravan_row: 0,
        next_id: 1,
        queue: Seq::empty(),
        plans: Map::empty(),
        logs: seq![LogV { day: 1, text: opening_text(), private_to: None }],
        players: Seq::empty(),
        tiles: Seq::empty(),
    }
}

/// A new quest: the row behind the caravan, its row and the rows ahead.
pub open spec fn new_game() -> GameV {
    add_rows(opening_state(), -1, (FORWARD_ROWS + 2) as nat)
}

// ----- Joining -----

pub open spec fn new_player(id: u64, name: Seq<char>, is_ai: bool, caravan_row: i32) -> PlayerV {
    PlayerV {
        id,
        name,
        is_ai,
        pos: Position { row: caravan_row, col: (BOARD_WIDTH / 2) as i32 },
        energy: MAX_ENERGY,
        gold: 2,
        food: 3,
        glory: 0,
        reagents: Reagents { ash: 1, mooncap: 1, ichor: 1, quartz: 1 },
        hand: starting_hand(id),
        statuses: Seq::empty(),
        public_gear: Seq::empty(),
    }
}

pub open spec fn after_add_player(g: GameV, name: Seq<char>, is_ai: bool) -> GameV {
    let g1 = GameV {
        next_id: (g.next_id + 1) as u64,
        players: g.players.push(new_player(g.next_id, name, is_ai, g.caravan_row)),
        ..g
    };
    with_log(g1, joins_text(name), None)
}

// ----- Moving between turns -----

pub open spec fn clamp_int(x: int, lo: int, hi: int) -> int {
    if x < lo {
        lo
    } else if x > hi {
        hi
    } else {
        x
    }
}

/// The target forced onto the visible board.
pub open spec fn clamp_target(t: Position, caravan_row: int) -> Position {
    Position {
        row: clamp_int(t.row as int, caravan_row - 1, caravan_row + FORWARD_ROWS) as i32,
        col: clamp_int(t.col as int, 0, BOARD_WIDTH - 1) as i32,
    }
}

/// How `move_step` ends: the error it reports, or `None` and the new state.
pub enum StepOutcome {
    AlreadyPlanned,
    UnknownPlayer,
    NotOneStep,
    NoEnergy { cost: int },
    Moved,
}

pub open spec fn step_outcome(g: GameV, id: u64, target: Position) -> StepOutcome {
    let i = player_index(g.players, id);
    if g.plans.contains_key(id) {
        StepOutcome::AlreadyPlanned
    } else if i < 0 {
        StepOutcome::UnknownPlayer
    } else {
        let start = g.players[i].pos;
        let t = clamp_target(target, g.caravan_row as int);
        let cost = move_cost(start, t, g.caravan_row as int);
        if step_distance(start, t) != 1 {
            StepOutcome::NotOneStep
        } else if g.players[i].energy < cost {
            StepOutcome::NoEnergy { cost }
        } else {
            StepOutcome::Moved
        }
    }
}

pub open spec fn after_step(g: GameV, id: u64, target: Position) -> GameV {
    let i = player_index(g.players, id);
    let p = g.players[i];
    let t = clamp_target(target, g.caravan_row as int);
    let cost = move_cost(p.pos, t, g.caravan_row as int);
    let g1 = set_player(g, i, PlayerV { energy: (p.energy - cost) as i32, pos: t, ..p });
    with_log(g1, step_text(p.name, t.row as int, t.col as int, cost), None)
}

pub open spec fn step_error_text(o: StepOutcome) -> Seq<char> {
    match o {
        StepOutcome::AlreadyPlanned => "You already ended your turn for this day."@,
        StepOutcome::UnknownPlayer => "Unknown player."@,
        StepOutcome::NotOneStep => "Move one step at a time."@,
        StepOutcome::NoEnergy { cost } => no_energy_text(cost),
        StepOutcome::Moved => Seq::empty(),
    }
}

/// Table talk: the trimmed message under the speaker's name, unless it is blank.
pub open spec fn after_chat(g: GameV, id: u64, message: Seq<char>) -> GameV {
    let m = trim_text(message);
    if m.len() == 0 {
        g
    } else {
        with_log(g, chat_text(name_of(g, id), m), None)
    }
}

// ----- Cards -----

pub open spec fn valid_target(card: Card, target: CardTarget) -> bool {
    match (card_target_kind(card), target) {
        (TargetKind::Untargeted, CardTarget::Untargeted) => true,
        (TargetKind::Player, CardTarget::Player(_)) => true,
        (TargetKind::Tile, CardTarget::Tile(_)) => true,
        _ => false,
    }
}

pub open spec fn can_afford(p: PlayerV, card: Card) -> bool {
    let cost = card_cost(card);
    &&& p.hand.contains(card)
    &&& p.energy >= cost.energy
    &&& p.gold >= cost.gold
    &&& p.food >= cost.food
    &&& p.reagents.ash >= cost.reagents.ash
    &&& p.reagents.mooncap >= cost.reagents.mooncap
    &&& p.reagents.ichor >= cost.reagents.ichor
    &&& p.reagents.quartz >= cost.reagents.quartz
}

/// The wizard after paying for `card`; the card leaves the hand when it is
/// one-use or needs no target.
pub open spec fn paid(p: PlayerV, card: Card) -> PlayerV {
    let cost = card_cost(card);
    PlayerV {
        energy: (p.energy - cost.energy) as i32,
        gold: (p.gold - cost.gold) as i32,
        food: (p.food - cost.food) as i32,
        reagents: spent(p.reagents, cost.reagents),
        hand: if card_one_use(card) || card_target_kind(card) == TargetKind::Untargeted {
            remove_first(p.hand, card)
        } else {
            p.hand
        },
        ..p
    }
}

pub open spec fn question_or_default(question: Option<Seq<char>>) -> Seq<char> {
    match question {
        Some(q) => if trim_text(q).len() > 0 {
            q
        } else {
            default_question()
        },
        None => default_question(),
    }
}

/// What a paid card does.
pub open spec fn card_effect(
    g: GameV,
    id: u64,
    card: Card,
    target: CardTarget,
    question: Option<Seq<char>>,
) -> GameV {
    let i = player_index(g.players, id);
    match card {
        Card::PoisonedBreakfast => match target {
            CardTarget::Player(t) => {
                let ti = player_index(g.players, t);
                let g1 = if ti >= 0 {
                    set_player(
                        g,
                        ti,
                        PlayerV {
                            statuses: g.players[ti].statuses.push(Status::FoodSickness { days: 1 }),
                            ..g.players[ti]
                        },
                    )
                } else {
                    g
                };
                let g2 = with_log(g1, poisoned_text(), Some(t));
                if ti >= 0 {
                    with_log(g2, ill_text(g.players[ti].name), None)
                } else {
                    g2
                }
            },
            _ => g,
        },
        Card::SpellOfTruth => match target {
            CardTarget::Player(t) => with_log(
                g,
                truth_text(name_of(g, id), name_of(g, t), question_or_default(question)),
                None,
            ),
            _ => g,
        },
        Card::StaffOfSparkAmplification | Card::HatOfModestProsperity => if i >= 0 {
            let p = g.players[i];
            with_log(
                set_player(g, i, PlayerV { public_gear: p.public_gear.push(card_title(card)), ..p }),
                equips_text(p.name, card),
                None,
            )
        } else {
            g
        },
        Card::SuspiciouslyHelpfulMap => if i >= 0 {
            let p = g.players[i];
            with_log(
                set_player(
                    g,
                    i,
                    PlayerV {
                        reagents: Reagents { quartz: (p.reagents.quartz + 1) as i32, ..p.reagents },
                        ..p
                    },
                ),
                map_text(p.name),
                None,
            )
        } else {
            g
        },
        Card::AlarmWard => if i >= 0 {
            let p = g.players[i];
            with_log(
                set_player(g, i, PlayerV { statuses: p.statuses.push(Status::AlarmWard), ..p }),
                ward_text(p.name),
                None,
            )
        } else {
            g
        },
        Card::EventSeal => match target {
            CardTarget::Tile(pos) => {
                let ti = tile_index(g.tiles, pos);
                if ti >= 0 {
                    with_log(
                        set_tile(g, ti, Tile { sealed_days: 2, ..g.tiles[ti] }),
                        sealed_tile_text(pos.row as int, pos.col as int),
                        None,
                    )
                } else {
                    g
                }
            },
            _ => g,
        },
    }
}

/// Playing a card: a wrong target is reported, an unaffordable card does
/// nothing, and otherwise the cost is paid and the effect happens.
pub open spec fn play_card(
    g: GameV,
    id: u64,
    card: Card,
    target: CardTarget,
    question: Option<Seq<char>>,
) -> GameV {
    let i = player_index(g.players, id);
    if !valid_target(card, target) {
        with_log(g, bad_target_text(name_of(g, id), card), None)
    } else if i < 0 || !can_afford(g.players[i], card) {
        g
    } else {
        card_effect(set_player(g, i, paid(g.players[i], card)), id, card, target, question)
    }
}

/// The wizard after scrapping `card` for one Gold and one Ash.
pub open spec fn scrapped(p: PlayerV, card: Card) -> PlayerV {
    PlayerV {
        hand: remove_first(p.hand, card),
        gold: (p.gold + 1) as i32,
        reagents: Reagents { ash: (p.reagents.ash + 1) as i32, ..p.reagents },
        ..p
    }
}

pub open spec fn resolve_card(g: GameV, id: u64, action: ActionV) -> GameV {
    match action {
        ActionV::NoCard => g,
        ActionV::Scrap { card } => {
            let i = player_index(g.players, id);
            if i >= 0 && g.players[i].hand.contains(card) {
                with_log(
                    set_player(g, i, scrapped(g.players[i], card)),
                    scrap_text(g.players[i].name, card),
                    None,
                )
            } else {
                g
            }
        },
        ActionV::PlayCard { card, target, question } => play_card(g, id, card, target, question),
    }
}

// ----- Events -----

/// The wizard after completing an event on `day`.
pub open spec fn event_outcome(p: PlayerV, event: EventKind, day: u32) -> PlayerV {
    match event {
        EventKind::Monster => PlayerV {
            energy: (p.energy - 2) as i32,
            glory: (p.glory + 3) as i32,
            reagents: Reagents { ichor: (p.reagents.ichor + 1) as i32, ..p.reagents },
            ..p
        },
        EventKind::Hunt => PlayerV {
            energy: (p.energy - 1) as i32,
            food: (p.food + 3) as i32,
            glory: (p.glory + 1) as i32,
            ..p
        },
        EventKind::GuardedTreasure => PlayerV {
            gold: (p.gold + 3) as i32,
            glory: (p.glory + 2) as i32,
            hand: p.hand.push(draw_card((p.id + day) as u64)),
            ..p
        },
        EventKind::CursedShrine => PlayerV {
            glory: (p.glory + 4) as i32,
            statuses: p.statuses.push(Status::MildCurse { days: 3 }),
            ..p
        },
        EventKind::Market => PlayerV {
            gold: (p.gold + 1) as i32,
            hand: p.hand.push(draw_card((p.id * 7 + day) as u64)),
            ..p
        },
        EventKind::Library => PlayerV {
            reagents: Reagents { quartz: (p.reagents.quartz + 1) as i32, ..p.reagents },
            hand: p.hand.push(Card::SpellOfTruth),
            ..p
        },
        EventKind::Camp => PlayerV { energy: MAX_ENERGY, food: (p.food + 1) as i32, ..p },
        EventKind::Trap => PlayerV {
            energy: (p.energy - 3) as i32,
            glory: (p.glory + 1) as i32,
            ..p
        },
        EventKind::Shortcut => PlayerV {
            pos: Position { row: (p.pos.row + 1) as i32, ..p.pos },
            glory: (p.glory + 1) as i32,
            ..p
        },
        EventKind::WitchRevenge => PlayerV {
            statuses: p.statuses.push(Status::MildCurse { days: 4 }),
            glory: (p.glory + 1) as i32,
            ..p
        },
        EventKind::BeggarThanks => PlayerV {
            food: (p.food + 2) as i32,
            gold: (p.gold + 2) as i32,
            glory: (p.glory + 2) as i32,
            ..p
        },
    }
}

/// Whether a tile can be completed: it exists, is not yet completed and is not sealed.
pub open spec fn tile_open(g: GameV, pos: Position) -> bool {
    let ti = tile_index(g.tiles, pos);
    ti >= 0 && g.tiles[ti].completed_by is None && g.tiles[ti].sealed_days == 0
}

/// Attempting the event at `pos`.
pub open spec fn attempt_event(g: GameV, id: u64, pos: Position) -> GameV {
    let ti = tile_index(g.tiles, pos);
    if ti < 0 || g.tiles[ti].completed_by is Some {
        with_log(g, no_event_text(name_of(g, id)), None)
    } else if g.tiles[ti].sealed_days > 0 {
        with_log(g, sealed_event_text(name_of(g, id)), None)
    } else {
        let event = g.tiles[ti].event;
        let g1 = set_tile(g, ti, Tile { completed_by: Some(id), ..g.tiles[ti] });
        let i = player_index(g.players, id);
        if i < 0 {
            g1
        } else {
            let g2 = with_log(
                set_player(g1, i, event_outcome(g.players[i], event, g.day)),
                event_done_text(event, g.players[i].name),
                None,
            );
            let g3 = if event == EventKind::Market && id % 2 == 0 {
                with_log(
                    GameV { queue: g2.queue.push(EventKind::WitchRevenge), ..g2 },
                    consequence_text(),
                    None,
                )
            } else {
                g2
            };
            if event == EventKind::Camp {
                GameV { queue: g3.queue.push(EventKind::BeggarThanks), ..g3 }
            } else {
                g3
            }
        }
    }
}

/// Moving to the planned square and then attempting, resting or ignoring.
pub open spec fn resolve_move(
    g: GameV,
    id: u64,
    target: Position,
    action: EventAction,
    chat: Seq<char>,
) -> GameV {
    let i = player_index(g.players, id);
    if i < 0 {
        g
    } else {
        let p = g.players[i];
        let t = clamp_target(target, g.caravan_row as int);
        let cost = move_cost(p.pos, t, g.caravan_row as int);
        if p.energy < cost {
            with_log(g, exhausted_text(p.name, t.row as int, t.col as int), None)
        } else {
            let g1 = set_player(g, i, PlayerV { energy: (p.energy - cost) as i32, pos: t, ..p });
            let said = trim_text(chat);
            let g2 = if said.len() > 0 {
                with_log(g1, chat_text(p.name, said), None)
            } else {
                g1
            };
            let g3 = if cost > 0 {
                with_log(g2, moves_text(p.name, t.row as int, t.col as int, cost), None)
            } else {
                g2
            };
            match action {
                EventAction::Attempt => attempt_event(g3, id, t),
                EventAction::Rest => {
                    let q = g3.players[i];
                    let rested = if q.energy + 3 < MAX_ENERGY {
                        q.energy + 3
                    } else {
                        MAX_ENERGY as int
                    };
                    with_log(
                        set_player(g3, i, PlayerV { energy: rested as i32, ..q }),
                        rest_text(p.name),
                        None,
                    )
                },
                EventAction::Ignore => g3,
            }
        }
    }
}

/// One wizard's turn: the card action, then the movement and event.
pub open spec fn resolve_turn(g: GameV, id: u64, plan: TurnPlan) -> GameV {
    resolve_move(
        resolve_card(g, id, plan.card_action@),
        id,
        plan.target,
        plan.event_action,
        plan.chat@,
    )
}

/// Turns of the first `k` wizards of `ids` that made plans.
pub open spec fn resolve_turns(g: GameV, plans: Map<u64, TurnPlan>, ids: Seq<u64>, k: nat) -> GameV
    decreases k,
{
    if k == 0 {
        g
    } else {
        let g1 = resolve_turns(g, plans, ids, (k - 1) as nat);
        let id = ids[k - 1];
        if plans.contains_key(id) {
            resolve_turn(g1, id, plans[id])
        } else {
            g1
        }
    }
}

// ----- Upkeep -----

pub open spec fn tick_status(s: Status) -> Status {
    match s {
        Status::FoodSickness { days } => Status::FoodSickness {
            days: if days > 0 {
                (days - 1) as u8
            } else {
                0
            },
        },
        Status::MildCurse { days } => Status::MildCurse {
            days: if days > 0 {
                (days - 1) as u8
            } else {
                0
            },
        },
        Status::AlarmWard => Status::AlarmWard,
    }
}

pub open spec fn status_lasts(s: Status) -> bool {
    match s {
        Status::FoodSickness { days } => days > 0,
        Status::MildCurse { days } => days > 0,
        Status::AlarmWard => true,
    }
}

/// Every status one day older, without the expired ones.
pub open spec fn tick_statuses(s: Seq<Status>) -> Seq<Status>
    decreases s.len(),
{
    if s.len() == 0 {
        s
    } else {
        let t = tick_status(s.last());
        tick_statuses(s.drop_last()) + if status_lasts(t) {
            seq![t]
        } else {
            Seq::empty()
        }
    }
}

pub open spec fn is_sick(s: Seq<Status>) -> bool {
    exists|k: int| 0 <= k < s.len() && s[k] is FoodSickness
}

pub open spec fn has_hat(p: PlayerV) -> bool {
    p.public_gear.contains(card_title(Card::HatOfModestProsperity))
}

/// A wizard after the night: energy recovers (less when sick), statuses age
/// and an equipped hat yields one Gold.
pub open spec fn upkeep_player(p: PlayerV) -> PlayerV {
    let recovery = if is_sick(p.statuses) {
        2int
    } else {
        4int
    };
    let energy = if p.energy + recovery < MAX_ENERGY {
        p.energy + recovery
    } else {
        MAX_ENERGY as int
    };
    PlayerV {
        energy: energy as i32,
        statuses: tick_statuses(p.statuses),
        gold: if has_hat(p) {
            (p.gold + 1) as i32
        } else {
            p.gold
        },
        ..p
    }
}

/// The hat messages of the night, in wizard order.
pub open spec fn hat_logs(ps: Seq<PlayerV>, day: u32) -> Seq<LogV>
    decreases ps.len(),
{
    if ps.len() == 0 {
        Seq::empty()
    } else {
        hat_logs(ps.drop_last(), day) + if has_hat(ps.last()) {
            seq![LogV { day, text: hat_text(ps.last().name), private_to: None }]
        } else {
            Seq::empty()
        }
    }
}

pub open spec fn age_seal(t: Tile) -> Tile {
    Tile { sealed_days: if t.sealed_days > 0 { (t.sealed_days - 1) as u8 } else { 0 }, ..t }
}

pub open spec fn upkeep(g: GameV) -> GameV {
    GameV {
        players: g.players.map_values(|p: PlayerV| upkeep_player(p)),
        logs: g.logs + hat_logs(g.players, g.day),
        tiles: g.tiles.map_values(|t: Tile| age_seal(t)),
        ..g
    }
}

// ----- The caravan moves -----

/// The tiles that stay: not behind the new back row and not completed.
pub open spec fn kept_tiles(ts: Seq<Tile>, min_row: int) -> Seq<Tile>
    decreases ts.len(),
{
    if ts.len() == 0 {
        ts
    } else {
        let t = ts.last();
        kept_tiles(ts.drop_last(), min_row) + if t.pos.row >= min_row && t.completed_by is None {
            seq![t]
        } else {
            Seq::empty()
        }
    }
}

pub open spec fn has_row(ts: Seq<Tile>, row: int) -> bool {
    exists|k: int| 0 <= k < ts.len() && ts[k].pos.row == row
}

/// A wizard left behind is pulled up to the back row and loses one energy (not below zero).
pub open spec fn catch_up(p: PlayerV, min_row: int) -> PlayerV {
    if p.pos.row < min_row {
        PlayerV {
            pos: Position { row: min_row as i32, ..p.pos },
            energy: if p.energy - 1 > 0 {
                (p.energy - 1) as i32
            } else {
                0
            },
            ..p
        }
    } else {
        p
    }
}

pub open spec fn advance(g: GameV) -> GameV {
    let c = g.caravan_row + 2;
    let min_row = c - 1;
    let max_row = c + FORWARD_ROWS;
    let g1 = GameV { caravan_row: c as i32, tiles: kept_tiles(g.tiles, min_row), ..g };
    let g2 = if has_row(g1.tiles, max_row - 1) {
        g1
    } else {
        add_row(g1, (max_row - 1) as i32)
    };
    let g3 = if has_row(g2.tiles, max_row) {
        g2
    } else {
        add_row(g2, max_row as i32)
    };
    GameV { players: g3.players.map_values(|p: PlayerV| catch_up(p, min_row)), ..g3 }
}

pub open spec fn player_ids(ps: Seq<PlayerV>) -> Seq<u64> {
    ps.map_values(|p: PlayerV| p.id)
}

/// A whole day: the plans are taken, every wizard's turn resolves in id
/// order, then upkeep and the caravan's advance. The closing entry is written
/// before the calendar moves on, so it names (and is dated) the day that just
/// ended: after the last day it reads `Day 20 begins.`.
pub open spec fn resolve_day(g: GameV) -> GameV {
    let plans = g.plans;
    let g1 = with_log(GameV { plans: Map::empty(), ..g }, plans_resolve_text(g.day as nat), None);
    let g2 = resolve_turns(g1, plans, player_ids(g1.players), g1.players.len());
    let g3 = advance(upkeep(g2));
    let g4 = with_log(g3, day_begins_text(g3.day as nat), None);
    GameV { day: (g4.day + 1) as u32, ..g4 }
}

/// A plan recorded; once every wizard has a plan the day resolves.
pub open spec fn after_submit(g: GameV, id: u64, plan: TurnPlan) -> GameV {
    let g1 = GameV { plans: g.plans.insert(id, plan), ..g };
    if g1.plans.len() == g1.players.len() && g1.players.len() > 0 {
        resolve_day(g1)
    } else {
        g1
    }
}

// ----- What a client sees -----

pub open spec fn public_of(p: PlayerV, ready: bool) -> PublicPlayerV {
    PublicPlayerV {
        id: p.id,
        name: p.name,
        is_ai: p.is_ai,
        pos: p.pos,
        energy: p.energy,
        gold: p.gold,
        food: p.food,
        glory: p.glory,
        statuses: p.statuses,
        public_gear: p.public_gear,
        ready,
    }
}

/// The public face of every wizard; `ready` tells whether a plan is in.
pub open spec fn public_roster(g: GameV) -> Seq<PublicPlayerV> {
    g.players.map_values(|p: PlayerV| public_of(p, g.plans.contains_key(p.id)))
}

/// The viewer's own hand and reagents, when the viewer is a wizard of this quest.
pub open spec fn own_view(g: GameV, viewer: Option<u64>) -> Option<OwnPlayerV> {
    match viewer {
        Some(id) => {
            let i = player_index(g.players, id);
            if i >= 0 {
                Some(OwnPlayerV { id, hand: g.players[i].hand, reagents: g.players[i].reagents })
            } else {
                None
            }
        },
        None => None,
    }
}

/// Public entries and the viewer's own private entries.
pub open spec fn log_visible(e: LogV, viewer: Option<u64>) -> bool {
    e.private_to is None || e.private_to == viewer
}

/// The visible entries from index `lo` on, newest first.
pub open spec fn newest_visible(logs: Seq<LogV>, viewer: Option<u64>, lo: nat) -> Seq<LogV>
    decreases logs.len() - lo,
{
    if lo >= logs.len() {
        Seq::empty()
    } else {
        newest_visible(logs, viewer, lo + 1) + if log_visible(logs[lo as int], viewer) {
            seq![logs[lo as int]]
        } else {
            Seq::empty()
        }
    }
}

/// At most the 80 newest visible entries, newest first.
pub open spec fn shown_logs(logs: Seq<LogV>, viewer: Option<u64>) -> Seq<LogV> {
    let all = newest_visible(logs, viewer, 0);
    if all.len() <= 80 {
        all
    } else {
        all.take(80)
    }
}

/// The highest Glory among the wizards (0 when there are none).
pub open spec fn best_glory(ps: Seq<PublicPlayerV>) -> i32
    decreases ps.len(),
{
    if ps.len() == 0 {
        0
    } else if ps.len() == 1 {
        ps[0].glory
    } else if best_glory(ps.drop_last()) >= ps.last().glory {
        best_glory(ps.drop_last())
    } else {
        ps.last().glory
    }
}

/// The wizards with exactly this much Glory, in order.
pub open spec fn with_glory(ps: Seq<PublicPlayerV>, glory: i32) -> Seq<PublicPlayerV>
    decreases ps.len(),
{
    if ps.len() == 0 {
        ps
    } else {
        with_glory(ps.drop_last(), glory) + if ps.last().glory == glory {
            seq![ps.last()]
        } else {
            Seq::empty()
        }
    }
}

/// After the last day, the wizards with the most Glory.
pub open spec fn quest_winners(g: GameV) -> Seq<PublicPlayerV> {
    if g.day > QUEST_DAYS && g.players.len() > 0 {
        with_glory(public_roster(g), best_glory(public_roster(g)))
    } else {
        Seq::empty()
    }
}

/// Everything a viewer is shown of the quest.
pub open spec fn game_view(g: GameV, viewer: Option<u64>) -> GameViewV {
    GameViewV {
        viewer_id: viewer,
        day: g.day,
        caravan_row: g.caravan_row,
        width: BOARD_WIDTH,
        players: public_roster(g),
        tiles: g.tiles,
        own: own_view(g, viewer),
        logs: shown_logs(g.logs, viewer),
        winners: quest_winners(g),
    }
}

/// The first AI wizard without a plan.
pub open spec fn is_first_unready_ai(g: GameV, i: int) -> bool {
    &&& 0 <= i < g.players.len()
    &&& g.players[i].is_ai && !g.plans.contains_key(g.players[i].id)
    &&& forall|j: int|
        0 <= j < i ==> !(g.players[j].is_ai && !g.plans.contains_key(g.players[j].id))
}

// ----- Bounds that keep the arithmetic in range -----

/// Every counter of the wizard lies within `-lim ..= lim`.
pub open spec fn counters_within(p: PlayerV, lim: int) -> bool {
    &&& -lim <= p.energy <= lim
    &&& -lim <= p.gold <= lim
    &&& -lim <= p.food <= lim
    &&& -lim <= p.glory <= lim
    &&& -lim <= p.reagents.ash <= lim
    &&& -lim <= p.reagents.mooncap <= lim
    &&& -lim <= p.reagents.ichor <= lim
    &&& -lim <= p.reagents.quartz <= lim
}

/// The wizard stands on the visible board or one row past it.
pub open spec fn pos_within(p: PlayerV, caravan_row: int) -> bool {
    &&& caravan_row - 1 <= p.pos.row <= caravan_row + FORWARD_ROWS + 1
    &&& 0 <= p.pos.col < BOARD_WIDTH
}

/// Counter bound under which every step of a turn stays in range.
pub open spec fn safe_lim() -> int {
    1_000_000
}

/// The shared bounds every step of a day relies on.
pub open spec fn clock_ok(g: GameV) -> bool {
    &&& 1 <= g.day <= 1000
    &&& 0 <= g.caravan_row <= 10_000
    &&& g.next_id + ids_per_day() <= id_cap()
}

/// Counter bound that every state of a day stays within.
pub open spec fn big_lim() -> int {
    3 * safe_lim()
}

/// Counters of every wizard within `lim`, positions on the board, clock in range.
pub open spec fn sound_within(g: GameV, lim: int) -> bool {
    &&& clock_ok(g)
    &&& forall|i: int|
        0 <= i < g.players.len() ==> {
            &&& pos_within(#[trigger] g.players[i], g.caravan_row as int)
            &&& counters_within(g.players[i], lim)
            &&& g.players[i].id < id_cap()
        }
}

/// The bounds that every step of a day relies on.
pub open spec fn sound(g: GameV) -> bool {
    sound_within(g, big_lim())
}

pub proof fn lemma_sound_set_paid(g: GameV, i: int, card: Card)
    requires
        sound(g),
        0 <= i < g.players.len(),
        can_afford(g.players[i], card),
    ensures
        sound(set_player(g, i, paid(g.players[i], card))),
{
    let h = set_player(g, i, paid(g.players[i], card));
    assert forall|j: int| 0 <= j < h.players.len() implies {
        &&& pos_within(#[trigger] h.players[j], h.caravan_row as int)
        &&& counters_within(h.players[j], big_lim())
        &&& h.players[j].id < id_cap()
    } by {
        if j == i {
            assert(pos_within(g.players[i], g.caravan_row as int));
        }
    }
}

/// The first index of an id only depends on the ids at each index.
pub proof fn lemma_index_stable_same(ps: Seq<PlayerV>, qs: Seq<PlayerV>, id: u64)
    requires
        ps.len() == qs.len(),
        forall|j: int| 0 <= j < ps.len() ==> ps[j].id == qs[j].id,
    ensures
        player_index(ps, id) == player_index(qs, id),
{
    if exists|i: int| is_first_player(ps, id, i) {
        let k = choose|i: int| is_first_player(ps, id, i);
        assert(is_first_player(qs, id, k));
        let m = choose|i: int| is_first_player(qs, id, i);
        assert(is_first_player(ps, id, m));
        if m < k {
            assert(ps[m].id != id);
        }
        if k < m {
            assert(qs[k].id != id);
        }
    } else {
        if exists|i: int| is_first_player(qs, id, i) {
            let m = choose|i: int| is_first_player(qs, id, i);
            assert(is_first_player(ps, id, m));
        }
    }
}

/// Replacing one wizard by one on the board with bounded counters and the same id keeps the bounds.
pub proof fn lemma_sound_update(g: GameV, h: GameV, i: int, q: PlayerV, lim: int)
    requires
        sound_within(g, lim),
        0 <= i < g.players.len(),
        h.day == g.day,
        h.caravan_row == g.caravan_row,
        h.next_id == g.next_id,
        h.players == g.players.update(i, q),
        pos_within(q, g.caravan_row as int),
        counters_within(q, lim),
        q.id == g.players[i].id,
    ensures
        sound_within(h, lim),
{
    assert forall|j: int| 0 <= j < h.players.len() implies {
        &&& pos_within(#[trigger] h.players[j], h.caravan_row as int)
        &&& counters_within(h.players[j], lim)
        &&& h.players[j].id < id_cap()
    } by {
        if j != i {
            assert(h.players[j] == g.players[j]);
        }
    }
}

pub proof fn lemma_sound_after_move(g: GameV, h: GameV, i: int, t: Position, cost: int)
    requires
        sound(g),
        0 <= i < g.players.len(),
        counters_within(g.players[i], big_lim() - 3),
        0 <= cost <= g.players[i].energy,
        g.caravan_row - 1 <= t.row <= g.caravan_row + FORWARD_ROWS,
        0 <= t.col < BOARD_WIDTH,
        h.day == g.day,
        h.caravan_row == g.caravan_row,
        h.next_id == g.next_id,
        h.players == g.players.update(
            i,
            PlayerV { energy: (g.players[i].energy - cost) as i32, pos: t, ..g.players[i] },
        ),
    ensures
        sound(h),
        player_index(h.players, h.players[i].id) == player_index(g.players, g.players[i].id),
        counters_within(h.players[i], big_lim() - 3),
{
    let q = PlayerV { energy: (g.players[i].energy - cost) as i32, pos: t, ..g.players[i] };
    lemma_sound_update(g, h, i, q, big_lim());
    lemma_index_stable_same(g.players, h.players, g.players[i].id);
}

/// The night keeps positions and moves counters by at most one.
pub proof fn lemma_upkeep_sound(g: GameV, lim: int)
    requires
        sound_within(g, lim - 1),
        MAX_ENERGY <= lim,
    ensures
        sound_within(upkeep(g), lim),
{
    let h = upkeep(g);
    assert forall|i: int| 0 <= i < h.players.len() implies {
        &&& pos_within(#[trigger] h.players[i], h.caravan_row as int)
        &&& counters_within(h.players[i], lim)
        &&& h.players[i].id < id_cap()
    } by {
        assert(h.players[i] == upkeep_player(g.players[i]));
        assert(pos_within(g.players[i], g.caravan_row as int));
        assert(counters_within(g.players[i], lim - 1));
    }
}

} // verus!
