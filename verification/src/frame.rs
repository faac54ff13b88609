//! What one wizard's turn leaves unchanged: the clock, the roster and every
//! other wizard's place and counters; and how far the acting wizard's
//! counters can move. These facts keep a whole day's arithmetic in range.
use vstd::prelude::*;

use crate::cards::{card_cost, spent};
use crate::model::{
    ActionV, Card, CardTarget, EventAction, EventKind, PlayerV, Position, TurnPlan,
    BOARD_WIDTH, FORWARD_ROWS, MAX_ENERGY,
};
use crate::rules::{
    attempt_event, big_lim, can_afford, card_effect, clamp_target, counters_within,
    event_outcome, id_cap, lemma_index_stable_same, paid, play_card, player_ids, player_index,
    pos_within, resolve_card, resolve_move, resolve_turn, resolve_turns, safe_lim, scrapped,
    set_player, sound, sound_within, GameV,
};

verus! {

/// Same id, square and counters.
pub open spec fn same_spot(a: PlayerV, b: PlayerV) -> bool {
    &&& a.id == b.id
    &&& a.pos == b.pos
    &&& a.energy == b.energy
    &&& a.gold == b.gold
    &&& a.food == b.food
    &&& a.glory == b.glory
    &&& a.reagents == b.reagents
}

/// `h` differs from `g` at most in the wizard at index `i`, apart from
/// statuses, gear and hands, logs, tiles and the queue.
pub open spec fn frame(g: GameV, h: GameV, i: int) -> bool {
    &&& h.day == g.day
    &&& h.caravan_row == g.caravan_row
    &&& h.next_id == g.next_id
    &&& h.players.len() == g.players.len()
    &&& forall|j: int| 0 <= j < g.players.len() ==> #[trigger] h.players[j].id == g.players[j].id
    &&& forall|j: int|
        0 <= j < g.players.len() && j != i ==> same_spot(#[trigger] h.players[j], g.players[j])
}

pub proof fn lemma_frame_trans(a: GameV, b: GameV, c: GameV, i: int)
    requires
        frame(a, b, i),
        frame(b, c, i),
    ensures
        frame(a, c, i),
{
    assert forall|j: int| 0 <= j < a.players.len() implies #[trigger] c.players[j].id
        == a.players[j].id by {
        assert(c.players[j].id == b.players[j].id);
    }
    assert forall|j: int| 0 <= j < a.players.len() && j != i implies same_spot(
        #[trigger] c.players[j],
        a.players[j],
    ) by {
        assert(same_spot(c.players[j], b.players[j]));
        assert(same_spot(b.players[j], a.players[j]));
    }
}

proof fn lemma_frame_set(g: GameV, k: int, q: PlayerV, i: int)
    requires
        0 <= k < g.players.len(),
        q.id == g.players[k].id,
        k == i || same_spot(q, g.players[k]),
    ensures
        frame(g, set_player(g, k, q), i),
{
}

/// A card action moves the acting wizard's counters by at most one and
/// leaves everyone's square alone.
pub proof fn lemma_card_frame(g: GameV, id: u64, action: ActionV, lim: int)
    requires
        sound(g),
        0 <= lim,
        lim + 1 <= big_lim(),
        player_index(g.players, id) >= 0 ==> counters_within(
            g.players[player_index(g.players, id)],
            lim,
        ),
    ensures
        ({
            let h = resolve_card(g, id, action);
            let i = player_index(g.players, id);
            &&& frame(g, h, i)
            &&& sound(h)
            &&& i >= 0 ==> counters_within(h.players[i], lim + 1) && h.players[i].pos
                == g.players[i].pos
        }),
{
    let i = player_index(g.players, id);
    let h = resolve_card(g, id, action);
    if i >= 0 {
        assert(0 <= i < g.players.len()) by {
            let k = choose|k: int| crate::rules::is_first_player(g.players, id, k);
        }
    }
    match action {
        ActionV::NoCard => {},
        ActionV::Scrap { card } => {
            if i >= 0 && g.players[i].hand.contains(card) {
                let q = scrapped(g.players[i], card);
                lemma_frame_set(g, i, q, i);
                crate::rules::lemma_sound_update(g, set_player(g, i, q), i, q, big_lim());
            }
        },
        ActionV::PlayCard { card, target, question } => {
            lemma_play_frame(g, id, card, target, question, lim);
        },
    }
}

proof fn lemma_play_frame(
    g: GameV,
    id: u64,
    card: Card,
    target: CardTarget,
    question: Option<Seq<char>>,
    lim: int,
)
    requires
        sound(g),
        0 <= lim,
        lim + 1 <= big_lim(),
        player_index(g.players, id) >= 0 ==> counters_within(
            g.players[player_index(g.players, id)],
            lim,
        ),
        player_index(g.players, id) < g.players.len(),
    ensures
        ({
            let h = play_card(g, id, card, target, question);
            let i = player_index(g.players, id);
            &&& frame(g, h, i)
            &&& sound(h)
            &&& i >= 0 ==> counters_within(h.players[i], lim + 1) && h.players[i].pos
                == g.players[i].pos
        }),
{
    let i = player_index(g.players, id);
    if crate::rules::valid_target(card, target) && i >= 0 && can_afford(g.players[i], card) {
        let p = g.players[i];
        let q = paid(p, card);
        let cost = card_cost(card);
        assert(counters_within(q, lim));
        let g1 = set_player(g, i, q);
        lemma_frame_set(g, i, q, i);
        crate::rules::lemma_sound_update(g, g1, i, q, big_lim());
        lemma_index_stable_same(g.players, g1.players, id);
        lemma_effect_frame(g1, id, card, target, question, lim);
        lemma_frame_trans(g, g1, play_card(g, id, card, target, question), i);
    }
}

proof fn lemma_effect_frame(
    g: GameV,
    id: u64,
    card: Card,
    target: CardTarget,
    question: Option<Seq<char>>,
    lim: int,
)
    requires
        sound(g),
        0 <= lim,
        lim + 1 <= big_lim(),
        player_index(g.players, id) >= 0 ==> counters_within(
            g.players[player_index(g.players, id)],
            lim,
        ),
        player_index(g.players, id) < g.players.len(),
    ensures
        ({
            let h = card_effect(g, id, card, target, question);
            let i = player_index(g.players, id);
            &&& frame(g, h, i)
            &&& sound(h)
            &&& i >= 0 ==> counters_within(h.players[i], lim + 1) && h.players[i].pos
                == g.players[i].pos
        }),
{
    let i = player_index(g.players, id);
    let h = card_effect(g, id, card, target, question);
    match card {
        Card::PoisonedBreakfast => {
            if let CardTarget::Player(t) = target {
                let ti = player_index(g.players, t);
                if ti >= 0 {
                    assert(0 <= ti < g.players.len()) by {
                        let k = choose|k: int| crate::rules::is_first_player(g.players, t, k);
                    }
                    let q = PlayerV {
                        statuses: g.players[ti].statuses.push(
                            crate::model::Status::FoodSickness { days: 1 },
                        ),
                        ..g.players[ti]
                    };
                    lemma_frame_set(g, ti, q, i);
                    crate::rules::lemma_sound_update(g, set_player(g, ti, q), ti, q, big_lim());
                }
            }
        },
        Card::SpellOfTruth => {},
        Card::StaffOfSparkAmplification | Card::HatOfModestProsperity => {
            if i >= 0 {
                let p = g.players[i];
                let q = PlayerV {
                    public_gear: p.public_gear.push(crate::cards::card_title(card)),
                    ..p
                };
                lemma_frame_set(g, i, q, i);
                crate::rules::lemma_sound_update(g, set_player(g, i, q), i, q, big_lim());
            }
        },
        Card::SuspiciouslyHelpfulMap => {
            if i >= 0 {
                let p = g.players[i];
                let q = PlayerV {
                    reagents: crate::model::Reagents {
                        quartz: (p.reagents.quartz + 1) as i32,
                        ..p.reagents
                    },
                    ..p
                };
                lemma_frame_set(g, i, q, i);
                crate::rules::lemma_sound_update(g, set_player(g, i, q), i, q, big_lim());
            }
        },
        Card::AlarmWard => {
            if i >= 0 {
                let p = g.players[i];
                let q = PlayerV { statuses: p.statuses.push(crate::model::Status::AlarmWard), ..p };
                lemma_frame_set(g, i, q, i);
                crate::rules::lemma_sound_update(g, set_player(g, i, q), i, q, big_lim());
            }
        },
        Card::EventSeal => {},
    }
}

proof fn lemma_attempt_frame(g: GameV, id: u64, pos: Position, lim: int)
    requires
        sound(g),
        10 <= lim,
        lim + 4 <= big_lim(),
        player_index(g.players, id) >= 0 ==> {
            let p = g.players[player_index(g.players, id)];
            counters_within(p, lim) && p.pos.row <= g.caravan_row + FORWARD_ROWS
        },
        player_index(g.players, id) < g.players.len(),
    ensures
        ({
            let h = attempt_event(g, id, pos);
            let i = player_index(g.players, id);
            &&& frame(g, h, i)
            &&& sound(h)
            &&& i >= 0 ==> counters_within(h.players[i], lim + 4)
        }),
{
    let i = player_index(g.players, id);
    let ti = crate::rules::tile_index(g.tiles, pos);
    if ti >= 0 && g.tiles[ti].completed_by is None && g.tiles[ti].sealed_days == 0 && i >= 0 {
        let g1 = crate::rules::set_tile(
            g,
            ti,
            crate::model::Tile { completed_by: Some(id), ..g.tiles[ti] },
        );
        let q = event_outcome(g.players[i], g.tiles[ti].event, g.day);
        assert(g1.players == g.players);
        assert(counters_within(g.players[i], lim));
        assert(counters_within(q, lim + 4)) by {
            match g.tiles[ti].event {
                EventKind::Monster => {
                    assert(q.energy == g.players[i].energy - 2);
                },
                EventKind::Hunt => {},
                EventKind::GuardedTreasure => {},
                EventKind::CursedShrine => {},
                EventKind::Market => {},
                EventKind::Library => {},
                EventKind::Camp => {},
                EventKind::Trap => {},
                EventKind::Shortcut => {},
                EventKind::WitchRevenge => {},
                EventKind::BeggarThanks => {},
            }
        }
        assert(pos_within(q, g.caravan_row as int));
        lemma_frame_set(g1, i, q, i);
        crate::rules::lemma_sound_update(g1, set_player(g1, i, q), i, q, big_lim());
    }
}

/// Moving and then attempting, resting or ignoring moves the acting
/// wizard's counters by at most three and keeps it on the board.
pub proof fn lemma_move_frame(
    g: GameV,
    id: u64,
    target: Position,
    action: EventAction,
    chat: Seq<char>,
    lim: int,
)
    requires
        sound(g),
        10 <= lim,
        lim + 4 <= big_lim(),
        player_index(g.players, id) >= 0 ==> counters_within(
            g.players[player_index(g.players, id)],
            lim,
        ),
        player_index(g.players, id) < g.players.len(),
    ensures
        ({
            let h = resolve_move(g, id, target, action, chat);
            let i = player_index(g.players, id);
            &&& frame(g, h, i)
            &&& sound(h)
            &&& i >= 0 ==> counters_within(h.players[i], lim + 4)
        }),
{
    let i = player_index(g.players, id);
    if i >= 0 {
        let p = g.players[i];
        let t = clamp_target(target, g.caravan_row as int);
        let cost = crate::model::move_cost(p.pos, t, g.caravan_row as int);
        if p.energy >= cost {
            let q = PlayerV { energy: (p.energy - cost) as i32, pos: t, ..p };
            let g1 = set_player(g, i, q);
            lemma_frame_set(g, i, q, i);
            crate::rules::lemma_sound_update(g, g1, i, q, big_lim());
            let said = crate::text::trim_text(chat);
            let g2 = if said.len() > 0 {
                crate::rules::with_log(g1, crate::messages::chat_text(p.name, said), None)
            } else {
                g1
            };
            let g3 = if cost > 0 {
                crate::rules::with_log(
                    g2,
                    crate::messages::moves_text(p.name, t.row as int, t.col as int, cost),
                    None,
                )
            } else {
                g2
            };
            assert(g3.players == g1.players);
            lemma_index_stable_same(g.players, g3.players, id);
            match action {
                EventAction::Attempt => {
                    lemma_attempt_frame(g3, id, t, lim);
                    lemma_frame_trans(g, g3, attempt_event(g3, id, t), i);
                },
                EventAction::Rest => {
                    let r = g3.players[i];
                    let rested = if r.energy + 3 < MAX_ENERGY {
                        r.energy + 3
                    } else {
                        MAX_ENERGY as int
                    };
                    let q2 = PlayerV { energy: rested as i32, ..r };
                    lemma_frame_set(g3, i, q2, i);
                    crate::rules::lemma_sound_update(g3, set_player(g3, i, q2), i, q2, big_lim());
                    lemma_frame_trans(g, g3, set_player(g3, i, q2), i);
                },
                EventAction::Ignore => {},
            }
        }
    }
}

/// A whole turn moves the acting wizard's counters by at most four.
pub proof fn lemma_turn_frame(g: GameV, id: u64, plan: TurnPlan, lim: int)
    requires
        sound(g),
        10 <= lim,
        lim + 5 <= big_lim(),
        player_index(g.players, id) >= 0 ==> counters_within(
            g.players[player_index(g.players, id)],
            lim,
        ),
        player_index(g.players, id) < g.players.len(),
    ensures
        ({
            let h = resolve_turn(g, id, plan);
            let i = player_index(g.players, id);
            &&& frame(g, h, i)
            &&& sound(h)
            &&& i >= 0 ==> counters_within(h.players[i], lim + 5)
        }),
{
    let i = player_index(g.players, id);
    lemma_card_frame(g, id, plan.card_action@, lim);
    let g1 = resolve_card(g, id, plan.card_action@);
    lemma_index_stable_same(g.players, g1.players, id);
    lemma_move_frame(g1, id, plan.target, plan.event_action, plan.chat@, lim + 1);
    lemma_frame_trans(g, g1, resolve_turn(g, id, plan), i);
}

/// Ids strictly increase along the roster.
pub open spec fn ids_sorted(ps: Seq<PlayerV>) -> bool {
    forall|a: int, b: int| 0 <= a < b < ps.len() ==> #[trigger] ps[a].id < #[trigger] ps[b].id
}

pub proof fn lemma_sorted_index(ps: Seq<PlayerV>, k: int)
    requires
        ids_sorted(ps),
        0 <= k < ps.len(),
    ensures
        player_index(ps, ps[k].id) == k,
{
    assert forall|j: int| 0 <= j < k implies ps[j].id != ps[k].id by {
        assert(ps[j].id < ps[k].id);
    }
    crate::rules::lemma_player_index_is(ps, ps[k].id, k);
}

/// After the first `k` turns of a day, the wizards still to play are as they
/// were and those who played moved their counters by at most five.
pub proof fn lemma_turns_frame(g: GameV, plans: Map<u64, TurnPlan>, k: nat, lim: int)
    requires
        sound_within(g, lim),
        10 <= lim <= safe_lim(),
        ids_sorted(g.players),
        k <= g.players.len(),
    ensures
        ({
            let h = resolve_turns(g, plans, player_ids(g.players), k);
            &&& h.day == g.day
            &&& h.caravan_row == g.caravan_row
            &&& h.next_id == g.next_id
            &&& h.players.len() == g.players.len()
            &&& forall|j: int| 0 <= j < g.players.len() ==> #[trigger] h.players[j].id == g.players[j].id
            &&& forall|j: int| k <= j < g.players.len() ==> same_spot(#[trigger] h.players[j], g.players[j])
            &&& forall|j: int| 0 <= j < k ==> counters_within(#[trigger] h.players[j], lim + 5)
            &&& sound(h)
        }),
    decreases k,
{
    let ids = player_ids(g.players);
    if k == 0 {
        assert forall|i: int| 0 <= i < g.players.len() implies counters_within(#[trigger] g.players[i], big_lim()) by {
            assert(counters_within(g.players[i], lim));
        }
    } else {
        lemma_turns_frame(g, plans, (k - 1) as nat, lim);
        let h1 = resolve_turns(g, plans, ids, (k - 1) as nat);
        let id = ids[k - 1];
        assert(id == g.players[k - 1].id);
        lemma_sorted_index(g.players, k - 1);
        lemma_index_stable_same(g.players, h1.players, id);
        assert(same_spot(h1.players[k - 1], g.players[k - 1]));
        if plans.contains_key(id) {
            lemma_turn_frame(h1, id, plans[id], lim);
            let h = resolve_turn(h1, id, plans[id]);
            assert forall|j: int| 0 <= j < k implies counters_within(#[trigger] h.players[j], lim + 5) by {
                if j < k - 1 {
                    assert(same_spot(h.players[j], h1.players[j]));
                }
            }
            assert forall|j: int| k <= j < g.players.len() implies same_spot(#[trigger] h.players[j], g.players[j]) by {
                assert(same_spot(h.players[j], h1.players[j]));
                assert(same_spot(h1.players[j], g.players[j]));
            }
            assert forall|j: int| 0 <= j < g.players.len() implies #[trigger] h.players[j].id == g.players[j].id by {
                assert(h.players[j].id == h1.players[j].id);
            }
        } else {
            assert forall|j: int| 0 <= j < k implies counters_within(#[trigger] h1.players[j], lim + 5) by {
                if j == k - 1 {
                    assert(same_spot(h1.players[j], g.players[j]));
                }
            }
        }
    }
}

} // verus!
