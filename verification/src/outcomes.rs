//! The game's tables, stated on their own and proved of the rules: what each
//! event gives, what each card costs and does, how statuses age at night,
//! which event the road lays on a square and which card a seed deals.
use vstd::prelude::*;

use crate::model::{
    EventAction, remove_first, Card, CardTarget, EventKind, PlayerV, Position, Reagents, Status, MAX_ENERGY,
};
use crate::rules::{
    advance, resolve_move, add_rows, add_tile, add_tiles, new_game, opening_state, attempt_event, can_afford, draw_card, event_for, play_card, player_index, tile_index,
    tile_open, tick_statuses, upkeep_player, valid_target, GameV,
};

verus! {

// ----- Events -----

/// Glory for completing an event.
pub open spec fn glory_reward(e: EventKind) -> int {
    match e {
        EventKind::Monster => 3,
        EventKind::Hunt => 1,
        EventKind::GuardedTreasure => 2,
        EventKind::CursedShrine => 4,
        EventKind::Market => 0,
        EventKind::Library => 0,
        EventKind::Camp => 0,
        EventKind::Trap => 1,
        EventKind::Shortcut => 1,
        EventKind::WitchRevenge => 1,
        EventKind::BeggarThanks => 2,
    }
}

/// Gold for completing an event.
pub open spec fn gold_reward(e: EventKind) -> int {
    match e {
        EventKind::GuardedTreasure => 3,
        EventKind::Market => 1,
        EventKind::BeggarThanks => 2,
        _ => 0,
    }
}

/// Food for completing an event.
pub open spec fn food_reward(e: EventKind) -> int {
    match e {
        EventKind::Hunt => 3,
        EventKind::Camp => 1,
        EventKind::BeggarThanks => 2,
        _ => 0,
    }
}

/// Energy an event takes (a camp instead restores energy to the maximum).
pub open spec fn energy_toll(e: EventKind) -> int {
    match e {
        EventKind::Monster => 2,
        EventKind::Hunt => 1,
        EventKind::Trap => 3,
        _ => 0,
    }
}

/// Cards an event adds to the hand.
pub open spec fn cards_found(e: EventKind) -> int {
    match e {
        EventKind::GuardedTreasure | EventKind::Market | EventKind::Library => 1,
        _ => 0,
    }
}

/// Counters small enough that one reward cannot overflow.
pub open spec fn modest(p: PlayerV) -> bool {
    &&& -1_000_000 <= p.energy <= 1_000_000
    &&& -1_000_000 <= p.gold <= 1_000_000
    &&& -1_000_000 <= p.food <= 1_000_000
    &&& -1_000_000 <= p.glory <= 1_000_000
    &&& -1_000_000 <= p.reagents.ash <= 1_000_000
    &&& -1_000_000 <= p.reagents.mooncap <= 1_000_000
    &&& -1_000_000 <= p.reagents.ichor <= 1_000_000
    &&& -1_000_000 <= p.reagents.quartz <= 1_000_000
    &&& -1_000_000 <= p.pos.row <= 1_000_000
}

/// Completing an open event gives the wizard exactly the event's reward:
/// Glory, Gold and Food by the tables above; a monster, a hunt and a trap
/// take 2, 1 and 3 energy, a camp restores energy to the maximum; a monster
/// gives an Ichor and a library a Quartz; a treasure, a market and a library
/// add one card (a library the Spell of Truth); a cursed shrine brings a
/// three-day curse and a witch's revenge a four-day one; a shortcut moves the
/// wizard one row ahead. No other wizard changes, and the tile is completed
/// by the wizard.
pub proof fn law_event_rewards(g: GameV, id: u64, pos: Position)
    requires
        tile_open(g, pos),
        player_index(g.players, id) >= 0,
        modest(g.players[player_index(g.players, id)]),
    ensures
        ({
            let i = player_index(g.players, id);
            let e = g.tiles[tile_index(g.tiles, pos)].event;
            let p = g.players[i];
            let h = attempt_event(g, id, pos);
            let q = h.players[i];
            &&& h.players.len() == g.players.len()
            &&& q.id == p.id && q.name == p.name && q.is_ai == p.is_ai
            &&& q.glory == p.glory + glory_reward(e)
            &&& q.gold == p.gold + gold_reward(e)
            &&& q.food == p.food + food_reward(e)
            &&& e == EventKind::Camp ==> q.energy == MAX_ENERGY
            &&& e != EventKind::Camp ==> q.energy == p.energy - energy_toll(e)
            &&& q.reagents.ash == p.reagents.ash
            &&& q.reagents.mooncap == p.reagents.mooncap
            &&& q.reagents.ichor == p.reagents.ichor + if e == EventKind::Monster {
                1int
            } else {
                0
            }
            &&& q.reagents.quartz == p.reagents.quartz + if e == EventKind::Library {
                1int
            } else {
                0
            }
            &&& q.hand.len() == p.hand.len() + cards_found(e)
            &&& q.hand.subrange(0, p.hand.len() as int) == p.hand
            &&& e == EventKind::Library ==> q.hand.last() == Card::SpellOfTruth
            &&& e == EventKind::CursedShrine ==> q.statuses == p.statuses.push(
                Status::MildCurse { days: 3 },
            )
            &&& e == EventKind::WitchRevenge ==> q.statuses == p.statuses.push(
                Status::MildCurse { days: 4 },
            )
            &&& e != EventKind::CursedShrine && e != EventKind::WitchRevenge ==> q.statuses
                == p.statuses
            &&& q.pos.row == p.pos.row + if e == EventKind::Shortcut {
                1int
            } else {
                0
            }
            &&& q.pos.col == p.pos.col
            &&& q.public_gear == p.public_gear
            &&& forall|k: int|
                0 <= k < g.players.len() && k != i ==> #[trigger] h.players[k] == g.players[k]
            &&& h.tiles[tile_index(g.tiles, pos)].completed_by == Some(id)
        }),
{
    let i = player_index(g.players, id);
    assert(crate::rules::is_first_player(g.players, id, i)) by {
        let k = choose|k: int| crate::rules::is_first_player(g.players, id, k);
    }
    let ti = tile_index(g.tiles, pos);
    assert(crate::rules::is_first_tile(g.tiles, pos, ti)) by {
        let k = choose|k: int| crate::rules::is_first_tile(g.tiles, pos, k);
    }
    let p = g.players[i];
    let e = g.tiles[ti].event;
    let q = attempt_event(g, id, pos).players[i];
    assert(q == crate::rules::event_outcome(p, e, g.day));
    match e {
        EventKind::GuardedTreasure | EventKind::Market | EventKind::Library => {
            assert(q.hand.subrange(0, p.hand.len() as int) =~= p.hand);
        },
        _ => {
            assert(q.hand.subrange(0, p.hand.len() as int) =~= p.hand);
        },
    }
}

// ----- Cards -----

/// Food a card costs.
pub open spec fn food_price(c: Card) -> int {
    if c == Card::PoisonedBreakfast {
        1
    } else {
        0
    }
}

/// Ash a card costs.
pub open spec fn ash_price(c: Card) -> int {
    if c == Card::EventSeal {
        1
    } else {
        0
    }
}

/// Mooncap a card costs.
pub open spec fn mooncap_price(c: Card) -> int {
    if c == Card::PoisonedBreakfast {
        1
    } else {
        0
    }
}

/// Quartz a card costs.
pub open spec fn quartz_price(c: Card) -> int {
    match c {
        Card::SpellOfTruth | Card::AlarmWard | Card::EventSeal => 1,
        _ => 0,
    }
}

/// A card can be paid for exactly when it is in hand and the wizard has the
/// Food, Ash, Mooncap and Quartz it costs (no card costs Energy, Gold or
/// Ichor, so those need only be non-negative).
pub proof fn law_card_prices(p: PlayerV, c: Card)
    ensures
        can_afford(p, c) == (p.hand.contains(c) && p.energy >= 0 && p.gold >= 0 && p.food
            >= food_price(c) && p.reagents.ash >= ash_price(c) && p.reagents.mooncap
            >= mooncap_price(c) && p.reagents.ichor >= 0 && p.reagents.quartz >= quartz_price(c)),
{
}

/// Playing a card (other than Poisoned Breakfast, see the law on it) with a
/// fitting target that the wizard can pay for: the card leaves the hand, the
/// price comes off the reagents, and the card does its one thing: the map
/// gives a Quartz, the ward puts an Alarm Ward on the wizard, the staff and
/// the hat are worn as public gear, the seal closes the chosen tile for two
/// days, the truth spell only speaks. Nothing else of any wizard changes.
pub proof fn law_card_outcomes(
    g: GameV,
    id: u64,
    card: Card,
    target: CardTarget,
    question: Option<Seq<char>>,
)
    requires
        player_index(g.players, id) >= 0,
        card != Card::PoisonedBreakfast,
        valid_target(card, target),
        can_afford(g.players[player_index(g.players, id)], card),
        modest(g.players[player_index(g.players, id)]),
    ensures
        ({
            let i = player_index(g.players, id);
            let p = g.players[i];
            let h = play_card(g, id, card, target, question);
            let q = h.players[i];
            &&& h.players.len() == g.players.len()
            &&& q == PlayerV { hand: q.hand, reagents: q.reagents, statuses: q.statuses, public_gear: q.public_gear, ..p }
            &&& q.hand == remove_first(p.hand, card)
            &&& q.reagents.ash == p.reagents.ash - ash_price(card)
            &&& q.reagents.mooncap == p.reagents.mooncap
            &&& q.reagents.ichor == p.reagents.ichor
            &&& q.reagents.quartz == p.reagents.quartz - quartz_price(card) + if card
                == Card::SuspiciouslyHelpfulMap {
                1int
            } else {
                0
            }
            &&& card == Card::AlarmWard ==> q.statuses == p.statuses.push(Status::AlarmWard)
            &&& card != Card::AlarmWard ==> q.statuses == p.statuses
            &&& card == Card::StaffOfSparkAmplification ==> q.public_gear == p.public_gear.push(
                "Staff of Spark Amplification"@,
            )
            &&& card == Card::HatOfModestProsperity ==> q.public_gear == p.public_gear.push(
                "Hat of Modest Prosperity"@,
            )
            &&& card != Card::StaffOfSparkAmplification && card != Card::HatOfModestProsperity
                ==> q.public_gear == p.public_gear
            &&& forall|k: int|
                0 <= k < g.players.len() && k != i ==> #[trigger] h.players[k] == g.players[k]
            &&& card != Card::EventSeal ==> h.tiles == g.tiles
            &&& card == Card::EventSeal ==> match target {
                CardTarget::Tile(at) => {
                    let ti = tile_index(g.tiles, at);
                    &&& ti >= 0 ==> h.tiles == g.tiles.update(
                        ti,
                        crate::model::Tile { sealed_days: 2, ..g.tiles[ti] },
                    )
                    &&& ti < 0 ==> h.tiles == g.tiles
                },
                _ => false,
            }
        }),
{
    let i = player_index(g.players, id);
    assert(crate::rules::is_first_player(g.players, id, i)) by {
        let k = choose|k: int| crate::rules::is_first_player(g.players, id, k);
    }
    let p = g.players[i];
    let g1 = crate::rules::set_player(g, i, crate::rules::paid(p, card));
    crate::rules::lemma_index_stable_same(g.players, g1.players, id);
    reveal_strlit("Staff of Spark Amplification");
    reveal_strlit("Hat of Modest Prosperity");
}

/// A card with no fitting target is not paid for and changes no wizard and
/// no tile; a card the wizard cannot pay for changes nothing at all.
pub proof fn law_card_refusals(
    g: GameV,
    id: u64,
    card: Card,
    target: CardTarget,
    question: Option<Seq<char>>,
)
    ensures
        !valid_target(card, target) ==> play_card(g, id, card, target, question).players
            == g.players && play_card(g, id, card, target, question).tiles == g.tiles,
        valid_target(card, target) && (player_index(g.players, id) < 0 || !can_afford(
            g.players[player_index(g.players, id)],
            card,
        )) ==> play_card(g, id, card, target, question) == g,
{
}

// ----- The night -----

/// What one night leaves of a status: a timed status loses a day and is gone
/// when no day is left; a ward stays.
pub open spec fn one_night(s: Status) -> Seq<Status> {
    match s {
        Status::FoodSickness { days } => if days > 1 {
            seq![Status::FoodSickness { days: (days - 1) as u8 }]
        } else {
            Seq::empty()
        },
        Status::MildCurse { days } => if days > 1 {
            seq![Status::MildCurse { days: (days - 1) as u8 }]
        } else {
            Seq::empty()
        },
        Status::AlarmWard => seq![Status::AlarmWard],
    }
}

proof fn lemma_tick_concat(a: Seq<Status>, b: Seq<Status>)
    ensures
        tick_statuses(a + b) == tick_statuses(a) + tick_statuses(b),
    decreases b.len(),
{
    if b.len() == 0 {
        assert(a + b =~= a);
        assert(tick_statuses(a) + tick_statuses(b) =~= tick_statuses(a));
    } else {
        lemma_tick_concat(a, b.drop_last());
        assert((a + b).drop_last() =~= a + b.drop_last());
        assert((a + b).last() == b.last());
        let t = crate::rules::tick_status(b.last());
        let tail = if crate::rules::status_lasts(t) {
            seq![t]
        } else {
            Seq::<Status>::empty()
        };
        assert(tick_statuses(a) + tick_statuses(b.drop_last()) + tail =~= tick_statuses(a) + (
        tick_statuses(b.drop_last()) + tail));
    }
}

/// Each night every status ages on its own, in place: a Food Sickness or a
/// curse of `d` days has `d - 1` days left the next morning and is gone when
/// that is none, and an Alarm Ward stays. (So a three-day curse is gone after
/// the third night.)
pub proof fn law_statuses_age(p: PlayerV, s: Status, a: Seq<Status>, b: Seq<Status>)
    ensures
        upkeep_player(PlayerV { statuses: seq![s], ..p }).statuses == one_night(s),
        upkeep_player(PlayerV { statuses: a + b, ..p }).statuses == upkeep_player(
            PlayerV { statuses: a, ..p },
        ).statuses + upkeep_player(PlayerV { statuses: b, ..p }).statuses,
        upkeep_player(PlayerV { statuses: Seq::empty(), ..p }).statuses == Seq::<Status>::empty(),
{
    lemma_tick_concat(a, b);
    let one = seq![s];
    assert(one.drop_last() =~= Seq::<Status>::empty());
    assert(one.last() == s);
    assert(tick_statuses(Seq::<Status>::empty()) == Seq::<Status>::empty());
    assert(tick_statuses(one.drop_last()) == Seq::<Status>::empty());
    let t = crate::rules::tick_status(s);
    if crate::rules::status_lasts(t) {
        assert(tick_statuses(one) =~= seq![t]);
    } else {
        assert(tick_statuses(one) =~= Seq::<Status>::empty());
    }
    match s {
        Status::FoodSickness { days } => {},
        Status::MildCurse { days } => {},
        Status::AlarmWard => {},
    }
    assert(tick_statuses(one) =~= one_night(s));
}

/// Besides the statuses, the night changes only energy and Gold: energy
/// rises by 4, or by 2 for a wizard with Food Sickness, up to the maximum of
/// 10; a wizard wearing the Hat of Modest Prosperity gains one Gold.
pub proof fn law_night_rewards(p: PlayerV)
    requires
        modest(p),
    ensures
        ({
            let q = upkeep_player(p);
            let sick = exists|k: int| 0 <= k < p.statuses.len() && #[trigger] p.statuses[k] is FoodSickness;
            let rise: int = if sick {
                2
            } else {
                4
            };
            &&& q.energy == if p.energy + rise < 10 {
                p.energy + rise
            } else {
                10
            }
            &&& q.gold == p.gold + if p.public_gear.contains("Hat of Modest Prosperity"@) {
                1int
            } else {
                0
            }
            &&& q == PlayerV { energy: q.energy, gold: q.gold, statuses: q.statuses, ..p }
        }),
{
    reveal_strlit("Hat of Modest Prosperity");
}

// ----- The road -----

/// The events of the road, by the remainder of the road formula.
pub open spec fn road_events() -> Seq<EventKind> {
    seq![
        EventKind::Monster,
        EventKind::Hunt,
        EventKind::GuardedTreasure,
        EventKind::CursedShrine,
        EventKind::Market,
        EventKind::Library,
        EventKind::Camp,
        EventKind::Trap,
        EventKind::Shortcut,
    ]
}

/// The event the road generates on a square: `(day + 3 * row + 5 * col) mod 9`
/// picks it from Monster, Hunt, Guarded Treasure, Cursed Shrine, Market,
/// Library, Camp, Trap and Shortcut, in that order.
pub proof fn law_road_formula(day: int, row: int, col: int)
    ensures
        0 <= (day + 3 * row + 5 * col) % 9 < 9,
        event_for(day, row, col) == road_events()[(day + 3 * row + 5 * col) % 9],
{
    let k = (day + 3 * row + 5 * col) % 9;
    assert(k == (day + row * 3 + col * 5) % 9);
    if k == 0 {
    } else if k == 1 {
    } else if k == 2 {
    } else if k == 3 {
    } else if k == 4 {
    } else if k == 5 {
    } else if k == 6 {
    } else if k == 7 {
    } else {
        assert(k == 8);
    }
}

/// With no consequence waiting, a tile laid on a square carries the road's
/// event for that square on the current day.
pub proof fn law_laid_tile_follows_road(g: GameV, row: i32, col: i32)
    requires
        g.queue.len() == 0,
    ensures
        ({
            let t = add_tile(g, row, col).tiles.last();
            &&& t.pos == Position { row, col }
            &&& t.event == road_events()[(g.day + 3 * row + 5 * col) % 9]
        }),
{
    law_road_formula(g.day as int, row as int, col as int);
}

proof fn lemma_road_tiles(g: GameV, row: i32, k: nat)
    requires
        g.queue.len() == 0,
        k <= 7,
    ensures
        ({
            let h = add_tiles(g, row, k);
            &&& h.queue.len() == 0
            &&& h.day == g.day
            &&& h.tiles.len() == g.tiles.len() + k
            &&& forall|j: int| 0 <= j < g.tiles.len() ==> #[trigger] h.tiles[j] == g.tiles[j]
            &&& forall|j: int|
                #![trigger h.tiles[j]]
                g.tiles.len() <= j < g.tiles.len() + k ==> h.tiles[j].pos.row == row
                    && h.tiles[j].event == event_for(g.day as int, row as int, h.tiles[j].pos.col as int)
        }),
    decreases k,
{
    if k > 0 {
        lemma_road_tiles(g, row, (k - 1) as nat);
        let h1 = add_tiles(g, row, (k - 1) as nat);
        let h = add_tiles(g, row, k);
        let n = g.tiles.len();
        assert(h == add_tile(h1, row, (k - 1) as i32));
        assert(h.tiles == h1.tiles.push(h.tiles[n + k - 1]));
        assert forall|j: int|
            #![trigger h.tiles[j]]
            n <= j < n + k implies h.tiles[j].pos.row == row && h.tiles[j].event == event_for(
                g.day as int,
                row as int,
                h.tiles[j].pos.col as int,
            ) by {
            if j < n + k - 1 {
                assert(h.tiles[j] == h1.tiles[j]);
            }
        }
        assert forall|j: int| 0 <= j < n implies #[trigger] h.tiles[j] == g.tiles[j] by {
            assert(h.tiles[j] == h1.tiles[j]);
        }
    }
}

proof fn lemma_road_rows(g: GameV, first: int, n: nat)
    requires
        g.queue.len() == 0,
        forall|j: int|
            0 <= j < g.tiles.len() ==> #[trigger] g.tiles[j].event == event_for(
                g.day as int,
                g.tiles[j].pos.row as int,
                g.tiles[j].pos.col as int,
            ),
    ensures
        ({
            let h = add_rows(g, first, n);
            &&& h.queue.len() == 0
            &&& h.day == g.day
            &&& forall|j: int|
                0 <= j < h.tiles.len() ==> #[trigger] h.tiles[j].event == event_for(
                    g.day as int,
                    h.tiles[j].pos.row as int,
                    h.tiles[j].pos.col as int,
                )
        }),
    decreases n,
{
    if n > 0 {
        lemma_road_rows(g, first, (n - 1) as nat);
        let h1 = add_rows(g, first, (n - 1) as nat);
        let r = (first + n - 1) as i32;
        lemma_road_tiles(h1, r, 7);
        let h = add_rows(g, first, n);
        assert(h == add_tiles(h1, r, 7));
        assert forall|j: int| 0 <= j < h.tiles.len() implies #[trigger] h.tiles[j].event == event_for(
            g.day as int,
            h.tiles[j].pos.row as int,
            h.tiles[j].pos.col as int,
        ) by {
            if j < h1.tiles.len() {
                assert(h.tiles[j] == h1.tiles[j]);
            }
        }
    }
}

/// Every tile of a new quest carries the road's event for its square on the
/// first day.
pub proof fn law_first_road(k: int)
    requires
        0 <= k < new_game().tiles.len(),
    ensures
        ({
            let t = new_game().tiles[k];
            new_game().tiles[k].event == road_events()[(1 + 3 * t.pos.row + 5 * t.pos.col) % 9]
        }),
{
    lemma_road_rows(opening_state(), -1, 6);
    let t = new_game().tiles[k];
    assert(t.event == event_for(1, t.pos.row as int, t.pos.col as int));
    law_road_formula(1, t.pos.row as int, t.pos.col as int);
}

/// The cards dealt by seed: `seed mod 7` picks from Poisoned Breakfast, Spell
/// of Truth, Staff of Spark Amplification, Hat of Modest Prosperity,
/// Suspiciously Helpful Map, Alarm Ward and Event Seal, in that order.
pub proof fn law_deal_table(seed: u64)
    ensures
        draw_card(seed) == seq![
            Card::PoisonedBreakfast,
            Card::SpellOfTruth,
            Card::StaffOfSparkAmplification,
            Card::HatOfModestProsperity,
            Card::SuspiciouslyHelpfulMap,
            Card::AlarmWard,
            Card::EventSeal,
        ][(seed % 7) as int],
{
    let k = seed % 7;
    if k == 0 {
    } else if k == 1 {
    } else if k == 2 {
    } else if k == 3 {
    } else if k == 4 {
    } else if k == 5 {
    } else {
        assert(k == 6);
    }
}

// ----- Moving on the planned day -----

/// `x` forced into `lo ..= hi`.
pub open spec fn within(x: int, lo: int, hi: int) -> int {
    if x < lo {
        lo
    } else if x > hi {
        hi
    } else {
        x
    }
}

/// Resolving a wizard's planned move: the target is forced onto the visible
/// board (rows from one behind the caravan to four ahead, columns 0 to 6),
/// the move costs the steps taken plus one for every row beyond the one just
/// ahead of the caravan, and a wizard who cannot pay stays where it is with
/// its energy. Otherwise it moves there paying the cost; ignoring the event
/// ends the turn, resting then restores 3 energy, up to 10. No other wizard
/// changes, and only an attempted event can change a tile.
pub proof fn law_planned_move(g: GameV, id: u64, target: Position, action: EventAction, chat: Seq<char>)
    requires
        player_index(g.players, id) >= 0,
        modest(g.players[player_index(g.players, id)]),
        -1_000_000 <= g.caravan_row <= 1_000_000,
        -1_000_000 <= g.players[player_index(g.players, id)].pos.col <= 1_000_000,
        action != EventAction::Attempt,
    ensures
        ({
            let i = player_index(g.players, id);
            let p = g.players[i];
            let c = g.caravan_row as int;
            let row = within(target.row as int, c - 1, c + 4);
            let col = within(target.col as int, 0, 6);
            let dr = if row >= p.pos.row {
                row - p.pos.row
            } else {
                p.pos.row - row
            };
            let dc = if col >= p.pos.col {
                col - p.pos.col
            } else {
                p.pos.col - col
            };
            let cost = dr + dc + if row - c - 1 > 0 {
                row - c - 1
            } else {
                0
            };
            let h = resolve_move(g, id, target, action, chat);
            let q = h.players[i];
            &&& h.players.len() == g.players.len()
            &&& h.tiles == g.tiles
            &&& forall|k: int|
                0 <= k < g.players.len() && k != i ==> #[trigger] h.players[k] == g.players[k]
            &&& p.energy < cost ==> q == p
            &&& p.energy >= cost ==> q == PlayerV { energy: q.energy, pos: q.pos, ..p }
            &&& p.energy >= cost ==> q.pos.row == row && q.pos.col == col
            &&& p.energy >= cost && action == EventAction::Ignore ==> q.energy == p.energy - cost
            &&& p.energy >= cost && action == EventAction::Rest ==> q.energy == if p.energy - cost
                + 3 < 10 {
                p.energy - cost + 3
            } else {
                10
            }
        }),
{
    let i = player_index(g.players, id);
    assert(crate::rules::is_first_player(g.players, id, i)) by {
        let k = choose|k: int| crate::rules::is_first_player(g.players, id, k);
    }
}

/// When the caravan moves on two rows, a wizard left behind its new back row
/// is pulled up onto it and loses one energy (not below zero); every other
/// wizard stays as it was.
pub proof fn law_left_behind(g: GameV, j: int)
    requires
        0 <= j < g.players.len(),
        -1_000_000 <= g.caravan_row <= 1_000_000,
    ensures
        ({
            let p = g.players[j];
            let q = advance(g).players[j];
            let back = g.caravan_row + 1;
            &&& advance(g).players.len() == g.players.len()
            &&& p.pos.row < back ==> q == PlayerV {
                pos: Position { row: back as i32, col: p.pos.col },
                energy: if p.energy >= 1 {
                    (p.energy - 1) as i32
                } else {
                    0
                },
                ..p
            }
            &&& p.pos.row >= back ==> q == p
        }),
{
    let c = g.caravan_row + 2;
    let min_row = c - 1;
    let max_row = c + crate::model::FORWARD_ROWS;
    let g1 = GameV { caravan_row: c as i32, tiles: crate::rules::kept_tiles(g.tiles, min_row), ..g };
    crate::laws::law_caravan_moves_board(g);
    let g2 = if crate::rules::has_row(g1.tiles, max_row - 1) {
        g1
    } else {
        crate::rules::add_row(g1, (max_row - 1) as i32)
    };
    let g3 = if crate::rules::has_row(g2.tiles, max_row) {
        g2
    } else {
        crate::rules::add_row(g2, max_row as i32)
    };
    lemma_rows_keep_players(g1, (max_row - 1) as i32);
    lemma_rows_keep_players(g2, max_row as i32);
    assert(g3.players == g.players);
}

proof fn lemma_rows_keep_players(g: GameV, row: i32)
    ensures
        crate::rules::add_row(g, row).players == g.players,
{
    lemma_tiles_keep_players(g, row, 7);
}

proof fn lemma_tiles_keep_players(g: GameV, row: i32, k: nat)
    ensures
        add_tiles(g, row, k).players == g.players,
    decreases k,
{
    if k > 0 {
        lemma_tiles_keep_players(g, row, (k - 1) as nat);
    }
}

} // verus!
