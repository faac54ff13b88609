//! Properties the game promises of all inputs, stated over the rules and
//! proved from them.
use vstd::prelude::*;

use crate::board::has_square;
use crate::cards::spent;
use crate::invariants::{lemma_resolve_day_wf, wf};
use crate::model::{
    Card, CardTarget, EventKind, LogV, PlayerV, Position, PublicPlayerV, Reagents, Tile, TurnPlan,
    BOARD_WIDTH, FORWARD_ROWS, MAX_ENERGY, QUEST_DAYS, ahead_tax, move_cost, remove_first,
    step_distance,
};
use crate::rules::{
    add_row, add_tile, add_tiles, card_effect, game_view, player_index, advance, age_seal, attempt_event, best_glory, has_row,
    is_sick, kept_tiles, log_visible, newest_visible, own_view, public_roster, quest_winners,
    resolve_day, shown_logs, step_outcome, tile_index, tile_open, upkeep_player, with_glory,
    after_submit, GameV, StepOutcome,
};

verus! {

// ----- Movement -----

/// Moving never costs less than the number of steps, and never less than zero.
pub proof fn law_cost_covers_steps(start: Position, target: Position, caravan_row: int)
    ensures
        0 <= step_distance(start, target) <= move_cost(start, target, caravan_row),
{
}

/// Up to one row ahead of the caravan, moving costs exactly the steps taken;
/// staying put there is free.
pub proof fn law_no_charge_near_caravan(start: Position, target: Position, caravan_row: int)
    requires
        target.row <= caravan_row + 1,
    ensures
        move_cost(start, target, caravan_row) == step_distance(start, target),
        start.row <= caravan_row + 1 ==> move_cost(start, start, caravan_row) == 0,
{
}

/// Pushing farther forward along a column never gets cheaper.
pub proof fn law_farther_ahead_costs_more(
    start: Position,
    near: Position,
    far: Position,
    caravan_row: int,
)
    requires
        near.col == far.col,
        start.row <= near.row <= far.row,
    ensures
        move_cost(start, near, caravan_row) <= move_cost(start, far, caravan_row),
{
}

// ----- Cards and reagents -----

/// Paying a cost that `can_pay` accepts leaves no reagent count negative, and
/// the cost plus what is left is what there was.
pub proof fn law_payment_covered(have: Reagents, cost: Reagents)
    requires
        have.ash >= cost.ash,
        have.mooncap >= cost.mooncap,
        have.ichor >= cost.ichor,
        have.quartz >= cost.quartz,
        i32::MIN <= have.ash - cost.ash,
        i32::MIN <= have.mooncap - cost.mooncap,
        i32::MIN <= have.ichor - cost.ichor,
        i32::MIN <= have.quartz - cost.quartz,
        have.ash - cost.ash <= i32::MAX,
        have.mooncap - cost.mooncap <= i32::MAX,
        have.ichor - cost.ichor <= i32::MAX,
        have.quartz - cost.quartz <= i32::MAX,
    ensures
        spent(have, cost).ash >= 0 && spent(have, cost).mooncap >= 0 && spent(have, cost).ichor
            >= 0 && spent(have, cost).quartz >= 0,
        spent(have, cost).ash + cost.ash == have.ash,
        spent(have, cost).mooncap + cost.mooncap == have.mooncap,
        spent(have, cost).ichor + cost.ichor == have.ichor,
        spent(have, cost).quartz + cost.quartz == have.quartz,
{
}

/// Removing a card takes out exactly one copy when there is one and nothing otherwise.
pub proof fn law_remove_one_copy(hand: Seq<Card>, card: Card)
    ensures
        hand.contains(card) ==> remove_first(hand, card).len() == hand.len() - 1,
        remove_first(hand, card).to_multiset() =~= if hand.contains(card) {
            hand.to_multiset().remove(card)
        } else {
            hand.to_multiset()
        },
    decreases hand.len(),
{
    broadcast use vstd::seq_lib::group_to_multiset_ensures;

    if hand.len() > 0 {
        let rest = hand.drop_first();
        law_remove_one_copy(rest, card);
        assert(hand =~= rest.insert(0, hand[0]));
        assert(rest.insert(0, hand[0]).to_multiset() =~= rest.to_multiset().insert(hand[0]));
        assert(hand.to_multiset() =~= rest.to_multiset().insert(hand[0]));
        if hand[0] == card {
            assert(hand.contains(card));
        } else {
            assert(hand.contains(card) == rest.contains(card)) by {
                if hand.contains(card) {
                    let k = choose|k: int| 0 <= k < hand.len() && hand[k] == card;
                    assert(rest[k - 1] == card);
                }
                if rest.contains(card) {
                    let k = choose|k: int| 0 <= k < rest.len() && rest[k] == card;
                    assert(hand[k + 1] == card);
                }
            }
            let r = remove_first(rest, card);
            assert((seq![hand[0]] + r).to_multiset() =~= r.to_multiset().insert(hand[0])) by {
                assert(seq![hand[0]] + r =~= r.insert(0, hand[0]));
                assert(r.insert(0, hand[0]).to_multiset() =~= r.to_multiset().insert(hand[0]));
            }
        }
    }
}

// ----- Days and the board -----

pub proof fn lemma_kept_tiles(ts: Seq<Tile>, min_row: int)
    ensures
        forall|k: int|
            0 <= k < kept_tiles(ts, min_row).len() ==> #[trigger] kept_tiles(ts, min_row)[k].pos.row
                >= min_row && kept_tiles(ts, min_row)[k].completed_by is None,
    decreases ts.len(),
{
    if ts.len() > 0 {
        lemma_kept_tiles(ts.drop_last(), min_row);
    }
}

pub proof fn lemma_add_tiles(g: GameV, row: i32, k: nat)
    ensures
        add_tiles(g, row, k).caravan_row == g.caravan_row,
        add_tiles(g, row, k).plans == g.plans,
        add_tiles(g, row, k).tiles.len() == g.tiles.len() + k,
        forall|j: int| 0 <= j < g.tiles.len() ==> #[trigger] add_tiles(g, row, k).tiles[j] == g.tiles[j],
        forall|j: int|
            #![trigger add_tiles(g, row, k).tiles[j]]
            g.tiles.len() <= j < g.tiles.len() + k ==> add_tiles(g, row, k).tiles[j].pos.row == row
                && add_tiles(g, row, k).tiles[j].completed_by is None,
    decreases k,
{
    if k > 0 {
        lemma_add_tiles(g, row, (k - 1) as nat);
        let h1 = add_tiles(g, row, (k - 1) as nat);
        let h = add_tiles(g, row, k);
        assert(h == add_tile(h1, row, (k - 1) as i32));
        let n = g.tiles.len();
        assert(h.tiles == h1.tiles.push(h.tiles[n + k - 1]));
        assert(h.tiles[n + k - 1].pos.row == row && h.tiles[n + k - 1].completed_by is None);
        assert forall|j: int|
            #![trigger h.tiles[j]]
            n <= j < n + k implies h.tiles[j].pos.row == row && h.tiles[j].completed_by is None by {
            if j < n + k - 1 {
                assert(h.tiles[j] == h1.tiles[j]);
            }
        }
    }
}

/// A tile list in which no tile is completed or behind `min_row`.
pub open spec fn board_clear(ts: Seq<Tile>, min_row: int) -> bool {
    forall|k: int| 0 <= k < ts.len() ==> #[trigger] ts[k].pos.row >= min_row && ts[k].completed_by is None
}

proof fn lemma_add_row_clear(g: GameV, row: i32, min_row: int)
    requires
        board_clear(g.tiles, min_row),
        row >= min_row,
    ensures
        board_clear(add_row(g, row).tiles, min_row),
        has_row(add_row(g, row).tiles, row as int),
        add_row(g, row).caravan_row == g.caravan_row,
        add_row(g, row).plans == g.plans,
{
    lemma_add_tiles(g, row, BOARD_WIDTH as nat);
    let h = add_tiles(g, row, BOARD_WIDTH as nat);
    let ts = add_row(g, row).tiles;
    assert(ts == h.tiles);
    assert(ts[g.tiles.len() as int].pos.row == row);
    assert forall|k: int| 0 <= k < ts.len() implies #[trigger] ts[k].pos.row >= min_row
        && ts[k].completed_by is None by {
        if k < g.tiles.len() {
            assert(h.tiles[k] == g.tiles[k]);
        } else {
            assert(g.tiles.len() <= k < g.tiles.len() + BOARD_WIDTH);
            assert(h.tiles[k].pos.row == row);
            assert(h.tiles[k].completed_by is None);
        }
    }
}

proof fn lemma_add_row_keeps(g: GameV, row: i32, other: int)
    requires
        has_row(g.tiles, other),
    ensures
        has_row(add_row(g, row).tiles, other),
        add_row(g, row).caravan_row == g.caravan_row,
        add_row(g, row).plans == g.plans,
{
    lemma_add_tiles(g, row, BOARD_WIDTH as nat);
    let k = choose|k: int| 0 <= k < g.tiles.len() && g.tiles[k].pos.row == other;
    assert(add_row(g, row).tiles[k] == g.tiles[k]);
}

/// When the caravan moves on, completed tiles and tiles behind its new back
/// row are gone, and both front rows hold tiles.
pub proof fn law_caravan_moves_board(g: GameV)
    requires
        g.caravan_row + 2 + FORWARD_ROWS <= i32::MAX,
    ensures
        ({
            let h = advance(g);
            &&& h.caravan_row == g.caravan_row + 2
            &&& h.plans == g.plans
            &&& board_clear(h.tiles, h.caravan_row - 1)
            &&& has_row(h.tiles, h.caravan_row + FORWARD_ROWS - 1)
            &&& has_row(h.tiles, h.caravan_row + FORWARD_ROWS)
        }),
{
    let c = g.caravan_row + 2;
    let min_row = c - 1;
    let max_row = c + FORWARD_ROWS;
    let g1 = GameV { caravan_row: c as i32, tiles: kept_tiles(g.tiles, min_row), ..g };
    lemma_kept_tiles(g.tiles, min_row);
    let g2 = if has_row(g1.tiles, max_row - 1) {
        g1
    } else {
        add_row(g1, (max_row - 1) as i32)
    };
    if !has_row(g1.tiles, max_row - 1) {
        lemma_add_row_clear(g1, (max_row - 1) as i32, min_row);
    }
    let g3 = if has_row(g2.tiles, max_row) {
        g2
    } else {
        add_row(g2, max_row as i32)
    };
    if !has_row(g2.tiles, max_row) {
        lemma_add_row_clear(g2, max_row as i32, min_row);
        lemma_add_row_keeps(g2, max_row as i32, max_row - 1);
    }
    assert(board_clear(g1.tiles, min_row));
    assert(advance(g).tiles == g3.tiles);
}

/// A day moves the calendar one day and the caravan two rows, consumes every
/// plan, keeps every wizard (in place, with the same id), and leaves no
/// completed tile and none behind the caravan's back row.
pub proof fn law_day_passes(g: GameV)
    requires
        wf(g),
        g.day <= QUEST_DAYS,
    ensures
        ({
            let h = resolve_day(g);
            &&& h.day == g.day + 1
            &&& h.caravan_row == g.caravan_row + 2
            &&& h.plans.len() == 0
            &&& h.players.len() == g.players.len()
            &&& forall|j: int| 0 <= j < g.players.len() ==> #[trigger] h.players[j].id == g.players[j].id
            &&& board_clear(h.tiles, h.caravan_row - 1)
            &&& crate::board::board_ok(h)
            &&& wf(h)
        }),
{
    lemma_resolve_day_wf(g);
    crate::invariants::lemma_wf_sound(g);
    let lim = 10 * g.day;
    let plans = g.plans;
    let g1 = crate::rules::with_log(
        GameV { plans: Map::empty(), ..g },
        crate::messages::plans_resolve_text(g.day as nat),
        None,
    );
    crate::invariants::lemma_wf_sound(g);
    assert(crate::rules::sound_within(g1, lim));
    let n = g1.players.len();
    crate::frame::lemma_turns_frame(g1, plans, n, lim);
    let ids = crate::rules::player_ids(g1.players);
    crate::board::lemma_turns_keep_plans(g1, plans, ids, n);
    let g2 = crate::rules::resolve_turns(g1, plans, ids, n);
    let g3 = crate::rules::upkeep(g2);
    law_caravan_moves_board(g3);
}


// ----- What a viewer is shown -----

proof fn lemma_newest_visible(logs: Seq<LogV>, viewer: Option<u64>, lo: nat)
    ensures
        forall|k: int|
            0 <= k < newest_visible(logs, viewer, lo).len() ==> log_visible(
                #[trigger] newest_visible(logs, viewer, lo)[k],
                viewer,
            ),
    decreases logs.len() - lo,
{
    if lo < logs.len() {
        lemma_newest_visible(logs, viewer, lo + 1);
        let r = newest_visible(logs, viewer, lo + 1);
        let all = newest_visible(logs, viewer, lo);
        assert forall|k: int| 0 <= k < all.len() implies log_visible(#[trigger] all[k], viewer) by {
            if k < r.len() {
                assert(all[k] == r[k]);
            }
        }
    }
}

/// A viewer is never shown another wizard's private log entries, nor another
/// wizard's hand and reagents.
pub proof fn law_private_stays_private(g: GameV, viewer: Option<u64>)
    ensures
        forall|k: int|
            0 <= k < shown_logs(g.logs, viewer).len() ==> {
                let e = #[trigger] shown_logs(g.logs, viewer)[k];
                e.private_to is None || e.private_to == viewer
            },
        shown_logs(g.logs, viewer).len() <= 80,
        own_view(g, viewer) matches Some(o) ==> viewer == Some(o.id),
{
    lemma_newest_visible(g.logs, viewer, 0);
    let all = newest_visible(g.logs, viewer, 0);
    assert forall|k: int| 0 <= k < shown_logs(g.logs, viewer).len() implies log_visible(
        #[trigger] shown_logs(g.logs, viewer)[k],
        viewer,
    ) by {
        assert(shown_logs(g.logs, viewer)[k] == all[k]);
    }
}

proof fn lemma_best_glory(ps: Seq<PublicPlayerV>)
    requires
        ps.len() > 0,
    ensures
        forall|j: int| 0 <= j < ps.len() ==> #[trigger] ps[j].glory <= best_glory(ps),
        exists|j: int| 0 <= j < ps.len() && #[trigger] ps[j].glory == best_glory(ps),
    decreases ps.len(),
{
    if ps.len() > 1 {
        lemma_best_glory(ps.drop_last());
        let j0 = choose|j: int|
            0 <= j < ps.drop_last().len() && #[trigger] ps.drop_last()[j].glory == best_glory(
                ps.drop_last(),
            );
        assert(ps[j0] == ps.drop_last()[j0]);
        assert forall|j: int| 0 <= j < ps.len() implies #[trigger] ps[j].glory <= best_glory(ps) by {
            if j < ps.len() - 1 {
                assert(ps[j] == ps.drop_last()[j]);
            }
        }
        if best_glory(ps.drop_last()) >= ps.last().glory {
            assert(ps[j0].glory == best_glory(ps));
        } else {
            assert(ps[ps.len() - 1].glory == best_glory(ps));
        }
    } else {
        assert(ps[0].glory == best_glory(ps));
    }
}

proof fn lemma_with_glory(ps: Seq<PublicPlayerV>, glory: i32)
    ensures
        forall|k: int|
            0 <= k < with_glory(ps, glory).len() ==> (#[trigger] with_glory(ps, glory)[k]).glory
                == glory && ps.contains(with_glory(ps, glory)[k]),
        forall|j: int|
            0 <= j < ps.len() && #[trigger] ps[j].glory == glory ==> with_glory(ps, glory).contains(
                ps[j],
            ),
    decreases ps.len(),
{
    if ps.len() > 0 {
        let rest = ps.drop_last();
        lemma_with_glory(rest, glory);
        let w = with_glory(ps, glory);
        let wr = with_glory(rest, glory);
        assert forall|k: int| 0 <= k < w.len() implies (#[trigger] w[k]).glory == glory
            && ps.contains(w[k]) by {
            if k < wr.len() {
                assert(w[k] == wr[k]);
                let m = choose|m: int| 0 <= m < rest.len() && rest[m] == wr[k];
                assert(ps[m] == rest[m]);
            } else {
                assert(w[k] == ps.last());
                assert(ps[ps.len() - 1] == ps.last());
            }
        }
        assert forall|j: int| 0 <= j < ps.len() && #[trigger] ps[j].glory == glory implies w.contains(
            ps[j],
        ) by {
            if j < ps.len() - 1 {
                assert(rest[j] == ps[j]);
                assert(wr.contains(ps[j]));
                let m = choose|m: int| 0 <= m < wr.len() && wr[m] == ps[j];
                assert(w[m] == wr[m]);
            } else {
                assert(w[wr.len() as int] == ps.last());
            }
        }
    }
}

/// After the last day the winners are exactly the wizards with the most
/// Glory, and there is at least one; before that nobody has won.
pub proof fn law_most_glory_wins(g: GameV)
    ensures
        ({
            let roster = public_roster(g);
            let winners = quest_winners(g);
            &&& (winners.len() > 0 <==> g.day > QUEST_DAYS && g.players.len() > 0)
            &&& forall|k: int|
                0 <= k < winners.len() ==> roster.contains(#[trigger] winners[k]) && forall|j: int|
                    0 <= j < roster.len() ==> #[trigger] roster[j].glory <= winners[k].glory
            &&& g.day > QUEST_DAYS ==> forall|j: int|
                0 <= j < roster.len() && (forall|m: int|
                    0 <= m < roster.len() ==> #[trigger] roster[m].glory <= roster[j].glory)
                    ==> winners.contains(#[trigger] roster[j])
        }),
{
    let roster = public_roster(g);
    let winners = quest_winners(g);
    if g.day > QUEST_DAYS && g.players.len() > 0 {
        let best = best_glory(roster);
        lemma_best_glory(roster);
        lemma_with_glory(roster, best);
        let j0 = choose|j: int| 0 <= j < roster.len() && #[trigger] roster[j].glory == best;
        assert(winners.contains(roster[j0]));
        assert forall|j: int|
            0 <= j < roster.len() && (forall|m: int|
                0 <= m < roster.len() ==> #[trigger] roster[m].glory <= roster[j].glory)
                implies winners.contains(#[trigger] roster[j]) by {
            assert(roster[j0].glory <= roster[j].glory);
            assert(roster[j].glory <= best);
        }
    }
}

// ----- Events -----

/// An event can be completed once: attempting a missing, completed or
/// sealed tile only adds a log entry, and a successful attempt leaves the
/// tile completed by the wizard.
pub proof fn law_event_completed_once(g: GameV, id: u64, pos: Position)
    ensures
        !tile_open(g, pos) ==> ({
            let h = attempt_event(g, id, pos);
            &&& h.players == g.players
            &&& h.tiles == g.tiles
            &&& h.queue == g.queue
            &&& h.logs.len() == g.logs.len() + 1
        }),
        tile_open(g, pos) ==> ({
            let h = attempt_event(g, id, pos);
            let ti = tile_index(g.tiles, pos);
            &&& h.tiles[ti].completed_by == Some(id)
            &&& !tile_open(h, pos)
        }),
{
    if tile_open(g, pos) {
        let ti = tile_index(g.tiles, pos);
        let h = attempt_event(g, id, pos);
        assert(0 <= ti < g.tiles.len()) by {
            let k = choose|k: int| crate::rules::is_first_tile(g.tiles, pos, k);
        }
        assert(crate::rules::is_first_tile(g.tiles, pos, ti)) by {
            let k = choose|k: int| crate::rules::is_first_tile(g.tiles, pos, k);
        }
        assert(h.tiles == g.tiles.update(ti, Tile { completed_by: Some(id), ..g.tiles[ti] }));
        assert(crate::rules::is_first_tile(h.tiles, pos, ti));
        crate::rules::lemma_tile_index_is(h.tiles, pos, ti);
    }
}

/// A tile sealed for two days stays sealed through the first night and
/// opens after the second.
pub proof fn law_seal_lasts_two_nights(t: Tile)
    requires
        t.sealed_days == 2,
    ensures
        age_seal(t).sealed_days == 1,
        age_seal(age_seal(t)).sealed_days == 0,
{
}

/// The night never lowers energy that is within the maximum, never raises it
/// above the maximum, and restores less to a wizard with Food Sickness.
pub proof fn law_night_recovery(p: PlayerV)
    requires
        p.energy <= MAX_ENERGY,
    ensures
        p.energy <= upkeep_player(p).energy <= MAX_ENERGY,
        is_sick(p.statuses) ==> upkeep_player(p).energy <= p.energy + 2,
        !is_sick(p.statuses) && p.energy + 4 <= MAX_ENERGY ==> upkeep_player(p).energy == p.energy + 4,
{
}

/// A wizard whose plan is in cannot take single steps any more that day.
pub proof fn law_planned_wizards_stay(g: GameV, id: u64, target: Position)
    requires
        g.plans.contains_key(id),
    ensures
        step_outcome(g, id, target) == StepOutcome::AlreadyPlanned,
{
}

/// Poisoned Breakfast is anonymous: what it does, log entries included, is
/// the same whichever wizard cast it.
pub proof fn law_poison_is_anonymous(
    g: GameV,
    caster: u64,
    other_caster: u64,
    target: u64,
    question: Option<Seq<char>>,
    other_question: Option<Seq<char>>,
)
    ensures
        card_effect(g, caster, Card::PoisonedBreakfast, CardTarget::Player(target), question)
            == card_effect(
            g,
            other_caster,
            Card::PoisonedBreakfast,
            CardTarget::Player(target),
            other_question,
        ),
{
}

/// Kindness at a camp, and a market visited by a wizard with an even id, put
/// a consequence at the back of the queue (no other event does); the next
/// tile laid takes the newest queued consequence before any generated event.
pub proof fn law_consequences_reach_the_road(g: GameV, id: u64, pos: Position, row: i32, col: i32)
    requires
        tile_open(g, pos),
        player_index(g.players, id) >= 0,
    ensures
        ({
            let event = g.tiles[tile_index(g.tiles, pos)].event;
            let h = attempt_event(g, id, pos);
            &&& event == EventKind::Camp ==> h.queue == g.queue.push(EventKind::BeggarThanks)
            &&& event == EventKind::Market && id % 2 == 0 ==> h.queue == g.queue.push(
                EventKind::WitchRevenge,
            )
            &&& event != EventKind::Camp && !(event == EventKind::Market && id % 2 == 0)
                ==> h.queue == g.queue
        }),
        g.queue.len() > 0 ==> add_tile(g, row, col).tiles.last().event == g.queue.last()
            && add_tile(g, row, col).queue == g.queue.drop_last(),
{
}

// ----- What a viewer cannot learn -----

/// Two records of a wizard that agree on everything but hand and reagents.
pub open spec fn same_in_public(a: PlayerV, b: PlayerV) -> bool {
    a == PlayerV { hand: a.hand, reagents: a.reagents, ..b }
}

/// `g` and `h` differ at most in what `viewer` may not see: other wizards'
/// hands and reagents, what the pending plans say (not who has one), and log
/// entries addressed privately to someone else, which may be added, removed
/// or changed as long as the entries `viewer` may read stay the same.
pub open spec fn alike_to(g: GameV, h: GameV, viewer: Option<u64>) -> bool {
    &&& g.day == h.day
    &&& g.caravan_row == h.caravan_row
    &&& g.tiles == h.tiles
    &&& g.plans.dom() == h.plans.dom()
    &&& g.players.len() == h.players.len()
    &&& forall|j: int|
        0 <= j < g.players.len() ==> same_in_public(#[trigger] g.players[j], h.players[j]) && (
        viewer == Some(g.players[j].id) ==> g.players[j] == h.players[j])
    &&& visible_entries(g.logs, viewer) == visible_entries(h.logs, viewer)
}

/// The entries `viewer` may read, oldest first.
pub open spec fn visible_entries(logs: Seq<LogV>, viewer: Option<u64>) -> Seq<LogV> {
    logs.filter(|e: LogV| log_visible(e, viewer))
}

proof fn lemma_newest_push(d: Seq<LogV>, x: LogV, viewer: Option<u64>, lo: nat)
    requires
        lo <= d.len(),
    ensures
        newest_visible(d.push(x), viewer, lo) == (if log_visible(x, viewer) {
            seq![x]
        } else {
            Seq::<LogV>::empty()
        }) + newest_visible(d, viewer, lo),
    decreases d.len() - lo,
{
    let opt = if log_visible(x, viewer) {
        seq![x]
    } else {
        Seq::<LogV>::empty()
    };
    if lo == d.len() {
        assert(newest_visible(d.push(x), viewer, lo + 1) == Seq::<LogV>::empty());
        assert(d.push(x)[lo as int] == x);
        assert(newest_visible(d.push(x), viewer, lo) =~= opt + newest_visible(d, viewer, lo));
    } else {
        lemma_newest_push(d, x, viewer, lo + 1);
        assert(d.push(x)[lo as int] == d[lo as int]);
        let tail = if log_visible(d[lo as int], viewer) {
            seq![d[lo as int]]
        } else {
            Seq::<LogV>::empty()
        };
        assert(newest_visible(d.push(x), viewer, lo) == newest_visible(d.push(x), viewer, lo + 1)
            + tail);
        assert(newest_visible(d, viewer, lo) == newest_visible(d, viewer, lo + 1) + tail);
        assert((opt + newest_visible(d, viewer, lo + 1)) + tail =~= opt + (newest_visible(
            d,
            viewer,
            lo + 1,
        ) + tail));
    }
}

/// The entries shown, newest first, are the readable entries in reverse.
proof fn lemma_newest_is_visible_reversed(logs: Seq<LogV>, viewer: Option<u64>)
    ensures
        newest_visible(logs, viewer, 0) == visible_entries(logs, viewer).reverse(),
    decreases logs.len(),
{
    if logs.len() == 0 {
        reveal(Seq::filter);
        assert(visible_entries(logs, viewer).reverse() =~= Seq::<LogV>::empty());
    } else {
        let d = logs.drop_last();
        let x = logs.last();
        assert(logs =~= d.push(x));
        lemma_newest_push(d, x, viewer, 0);
        lemma_newest_is_visible_reversed(d, viewer);
        let f = visible_entries(d, viewer);
        let pred = |e: LogV| log_visible(e, viewer);
        assert(visible_entries(logs, viewer) == logs.filter(pred));
        assert(f == d.filter(pred));
        assert(logs.drop_last() == d);
        assert(pred(x) == log_visible(x, viewer));
        d.lemma_filter_push(x, pred);
        if log_visible(x, viewer) {
            assert(visible_entries(logs, viewer) == f.push(x));
            assert(f.push(x).reverse() =~= seq![x] + f.reverse());
        } else {
            assert(visible_entries(logs, viewer) == f);
            assert(Seq::<LogV>::empty() + f.reverse() =~= f.reverse());
        }
    }
}

/// What a wizard, or an onlooker, is shown does not depend on what it may
/// not see: quests that differ only in other wizards' hands and reagents,
/// in what the pending plans say, and in entries addressed privately to
/// others (however many there are, and wherever they stand) look exactly
/// alike.
pub proof fn law_private_data_does_not_leak(g: GameV, h: GameV, viewer: Option<u64>)
    requires
        alike_to(g, h, viewer),
    ensures
        game_view(g, viewer) == game_view(h, viewer),
{
    assert forall|j: int| 0 <= j < g.players.len() implies #[trigger] g.players[j].id
        == h.players[j].id by {
        assert(same_in_public(g.players[j], h.players[j]));
    }
    let rg = public_roster(g);
    let rh = public_roster(h);
    assert forall|j: int| 0 <= j < rg.len() implies #[trigger] rg[j] == rh[j] by {
        assert(same_in_public(g.players[j], h.players[j]));
        assert(g.plans.contains_key(g.players[j].id) == h.plans.contains_key(h.players[j].id));
    }
    assert(rg =~= rh);
    lemma_newest_is_visible_reversed(g.logs, viewer);
    lemma_newest_is_visible_reversed(h.logs, viewer);
    match viewer {
        Some(id) => {
            crate::rules::lemma_index_stable_same(g.players, h.players, id);
            let i = player_index(g.players, id);
            if i >= 0 {
                assert(crate::rules::is_first_player(g.players, id, i)) by {
                    let k = choose|k: int| crate::rules::is_first_player(g.players, id, k);
                }
                assert(g.players[i] == h.players[i]);
            }
        },
        None => {},
    }
}

// ----- Simultaneous planning -----

/// With the invariant, fewer wizards have plans than there are wizards by at
/// least the number of wizards still planning.
proof fn lemma_plans_room(g: GameV, a: u64, b: u64)
    requires
        wf(g),
        a != b,
        player_index(g.players, a) >= 0,
        player_index(g.players, b) >= 0,
        !g.plans.contains_key(a),
        !g.plans.contains_key(b),
    ensures
        g.plans.len() + 2 <= g.players.len(),
{
    broadcast use vstd::set::group_set_axioms;
    broadcast use vstd::seq_lib::seq_to_set_is_finite;

    let ids = crate::rules::player_ids(g.players);
    assert(ids.no_duplicates()) by {
        assert forall|i: int, j: int| 0 <= i < ids.len() && 0 <= j < ids.len() && i != j implies ids[i]
            != ids[j] by {
            if i < j {
                assert(g.players[i].id < g.players[j].id);
            } else {
                assert(g.players[j].id < g.players[i].id);
            }
        }
    }
    ids.unique_seq_to_set();
    let all = ids.to_set();
    assert forall|id: u64| #[trigger] g.plans.dom().insert(a).insert(b).contains(id) implies all.contains(
        id,
    ) by {
        assert(player_index(g.players, id) >= 0);
        let i = player_index(g.players, id);
        assert(crate::rules::is_first_player(g.players, id, i)) by {
            let k = choose|k: int| crate::rules::is_first_player(g.players, id, k);
        }
        assert(ids[i] == id);
    }
    let d = g.plans.dom();
    vstd::set_lib::lemma_len_subset(d.insert(a).insert(b), all);
    assert(d.subset_of(d.insert(a).insert(b)));
    vstd::set_lib::lemma_len_subset(d, d.insert(a).insert(b));
}

/// Plans are simultaneous: when two wizards who have not planned yet hand in
/// their plans, the quest ends up the same whichever comes first (the first
/// never completes the day, so the day resolves, if at all, on the second).
pub proof fn law_plan_order_irrelevant(g: GameV, a: u64, plan_a: TurnPlan, b: u64, plan_b: TurnPlan)
    requires
        wf(g),
        g.day <= QUEST_DAYS,
        a != b,
        player_index(g.players, a) >= 0,
        player_index(g.players, b) >= 0,
        !g.plans.contains_key(a),
        !g.plans.contains_key(b),
    ensures
        after_submit(g, a, plan_a).day == g.day,
        after_submit(g, b, plan_b).day == g.day,
        after_submit(after_submit(g, a, plan_a), b, plan_b) == after_submit(
            after_submit(g, b, plan_b),
            a,
            plan_a,
        ),
{
    lemma_plans_room(g, a, b);
    let ga = GameV { plans: g.plans.insert(a, plan_a), ..g };
    let gb = GameV { plans: g.plans.insert(b, plan_b), ..g };
    assert(g.plans.dom().finite()) by {
        assert(g.plans.len() + 2 <= g.players.len());
        broadcast use vstd::set::group_set_axioms;
        broadcast use vstd::seq_lib::seq_to_set_is_finite;
        let ids = crate::rules::player_ids(g.players);
        assert forall|id: u64| #[trigger] g.plans.dom().contains(id) implies ids.to_set().contains(id) by {
            let i = player_index(g.players, id);
            assert(crate::rules::is_first_player(g.players, id, i)) by {
                let k = choose|k: int| crate::rules::is_first_player(g.players, id, k);
            }
            assert(ids[i] == id);
        }
        vstd::set_lib::lemma_len_subset(g.plans.dom(), ids.to_set());
    }
    assert(ga.plans.len() == g.plans.len() + 1);
    assert(gb.plans.len() == g.plans.len() + 1);
    assert(after_submit(g, a, plan_a) == ga);
    assert(after_submit(g, b, plan_b) == gb);
    assert(ga.plans.insert(b, plan_b) =~= gb.plans.insert(a, plan_a));
}

// ----- The board -----

/// In every quest the board has its shape: tiles lie only on the row behind
/// the caravan, its row and the rows ahead, on the board's columns; no two
/// tiles share a square, so each square of the two front rows holds exactly
/// one tile; tile ids are distinct and below the next id; and no wizard is
/// behind the caravan's back row.
pub proof fn law_board_shape(g: GameV)
    requires
        wf(g),
    ensures
        ({
            let c = g.caravan_row as int;
            &&& forall|k: int|
                0 <= k < g.tiles.len() ==> c - 1 <= #[trigger] g.tiles[k].pos.row <= c + FORWARD_ROWS
                    && 0 <= g.tiles[k].pos.col < BOARD_WIDTH
            &&& forall|i: int, j: int|
                0 <= i < g.tiles.len() && 0 <= j < g.tiles.len() && i != j ==> #[trigger] g.tiles[i].pos
                    != #[trigger] g.tiles[j].pos && g.tiles[i].id != g.tiles[j].id
            &&& forall|k: int| 0 <= k < g.tiles.len() ==> #[trigger] g.tiles[k].id < g.next_id
            &&& forall|col: int|
                0 <= col < BOARD_WIDTH ==> #[trigger] has_square(g.tiles, c + FORWARD_ROWS - 1, col)
                    && has_square(g.tiles, c + FORWARD_ROWS, col)
            &&& forall|j: int| 0 <= j < g.players.len() ==> c - 1 <= #[trigger] g.players[j].pos.row
        }),
{
    let c = g.caravan_row as int;
    crate::invariants::lemma_wf_sound(g);
    assert forall|i: int, j: int|
        0 <= i < g.tiles.len() && 0 <= j < g.tiles.len() && i != j implies #[trigger] g.tiles[i].pos
        != #[trigger] g.tiles[j].pos && g.tiles[i].id != g.tiles[j].id by {
        if i < j {
            assert(g.tiles[i].id < g.tiles[j].id);
        } else {
            assert(g.tiles[j].id < g.tiles[i].id);
        }
    }
    assert forall|col: int| 0 <= col < BOARD_WIDTH implies #[trigger] has_square(
        g.tiles,
        c + FORWARD_ROWS - 1,
        col,
    ) && has_square(g.tiles, c + FORWARD_ROWS, col) by {
        assert(crate::board::row_full(g.tiles, c + FORWARD_ROWS - 1));
        assert(crate::board::row_full(g.tiles, c + FORWARD_ROWS));
    }
    assert forall|j: int| 0 <= j < g.players.len() implies c - 1 <= #[trigger] g.players[j].pos.row by {
        assert(crate::rules::pos_within(g.players[j], c));
    }
}

/// Playing Poisoned Breakfast: the caster pays a Food and a Mooncap and
/// gives up the card, the target (the caster too, when it poisons itself)
/// wakes with Food Sickness for a day, nobody else changes, and exactly two
/// entries are written, neither naming the caster: a private one to the
/// target and a public one.
pub proof fn law_poisoned_breakfast(g: GameV, caster: u64, target: u64, question: Option<Seq<char>>)
    requires
        player_index(g.players, caster) >= 0,
        player_index(g.players, target) >= 0,
        crate::rules::can_afford(g.players[player_index(g.players, caster)], Card::PoisonedBreakfast),
    ensures
        ({
            let i = player_index(g.players, caster);
            let j = player_index(g.players, target);
            let p = g.players[i];
            let t = g.players[j];
            let h = crate::rules::play_card(
                g,
                caster,
                Card::PoisonedBreakfast,
                CardTarget::Player(target),
                question,
            );
            let sick = crate::model::Status::FoodSickness { days: 1 };
            &&& h.players.len() == g.players.len()
            &&& caster != target ==> h.players[i] == PlayerV {
                food: (p.food - 1) as i32,
                reagents: Reagents { mooncap: (p.reagents.mooncap - 1) as i32, ..p.reagents },
                hand: remove_first(p.hand, Card::PoisonedBreakfast),
                ..p
            }
            &&& caster != target ==> h.players[j] == PlayerV { statuses: t.statuses.push(sick), ..t }
            &&& caster == target ==> h.players[i] == PlayerV {
                food: (p.food - 1) as i32,
                reagents: Reagents { mooncap: (p.reagents.mooncap - 1) as i32, ..p.reagents },
                hand: remove_first(p.hand, Card::PoisonedBreakfast),
                statuses: p.statuses.push(sick),
                ..p
            }
            &&& forall|k: int|
                0 <= k < g.players.len() && k != i && k != j ==> #[trigger] h.players[k]
                    == g.players[k]
            &&& h.logs == g.logs + seq![
                LogV {
                    day: g.day,
                    text: crate::messages::poisoned_text(),
                    private_to: Some(target),
                },
                LogV { day: g.day, text: crate::messages::ill_text(t.name), private_to: None },
            ]
            &&& h.tiles == g.tiles
        }),
{
    let i = player_index(g.players, caster);
    let j = player_index(g.players, target);
    assert(crate::rules::is_first_player(g.players, caster, i)) by {
        let k = choose|k: int| crate::rules::is_first_player(g.players, caster, k);
    }
    assert(crate::rules::is_first_player(g.players, target, j)) by {
        let k = choose|k: int| crate::rules::is_first_player(g.players, target, k);
    }
    let p = g.players[i];
    let g1 = crate::rules::set_player(g, i, crate::rules::paid(p, Card::PoisonedBreakfast));
    crate::rules::lemma_index_stable_same(g.players, g1.players, target);
    let h = crate::rules::play_card(
        g,
        caster,
        Card::PoisonedBreakfast,
        CardTarget::Player(target),
        question,
    );
    assert(h.logs =~= g.logs + seq![
        LogV { day: g.day, text: crate::messages::poisoned_text(), private_to: Some(target) },
        LogV { day: g.day, text: crate::messages::ill_text(g.players[j].name), private_to: None },
    ]);
}

/// Handing in the plans of `subs`, in order.
pub open spec fn submit_all(g: GameV, subs: Seq<(u64, TurnPlan)>) -> GameV
    decreases subs.len(),
{
    if subs.len() == 0 {
        g
    } else {
        submit_all(after_submit(g, subs[0].0, subs[0].1), subs.drop_first())
    }
}

/// The plans of `subs` by wizard.
pub open spec fn plans_of(subs: Seq<(u64, TurnPlan)>) -> Map<u64, TurnPlan>
    decreases subs.len(),
{
    if subs.len() == 0 {
        Map::empty()
    } else {
        plans_of(subs.drop_first()).insert(subs[0].0, subs[0].1)
    }
}

/// No wizard hands in twice.
pub open spec fn distinct_wizards(subs: Seq<(u64, TurnPlan)>) -> bool {
    forall|a: int, b: int| 0 <= a < b < subs.len() ==> #[trigger] subs[a].0 != #[trigger] subs[b].0
}

/// `subs` hands in exactly one plan for each wizard still planning today.
pub open spec fn completes_day(g: GameV, subs: Seq<(u64, TurnPlan)>) -> bool {
    &&& subs.len() > 0
    &&& distinct_wizards(subs)
    &&& forall|k: int|
        0 <= k < subs.len() ==> player_index(g.players, #[trigger] subs[k].0) >= 0
            && !g.plans.contains_key(subs[k].0)
    &&& forall|j: int|
        0 <= j < g.players.len() ==> g.plans.contains_key(#[trigger] g.players[j].id) || exists|k: int|
            0 <= k < subs.len() && #[trigger] subs[k].0 == g.players[j].id
}

proof fn lemma_plans_of(subs: Seq<(u64, TurnPlan)>)
    requires
        forall|a: int, b: int| 0 <= a < b < subs.len() ==> #[trigger] subs[a].0 != #[trigger] subs[b].0,
    ensures
        forall|id: u64|
            #[trigger] plans_of(subs).dom().contains(id) <==> exists|k: int|
                0 <= k < subs.len() && #[trigger] subs[k].0 == id,
        forall|k: int| 0 <= k < subs.len() ==> plans_of(subs)[#[trigger] subs[k].0] == subs[k].1,
    decreases subs.len(),
{
    if subs.len() > 0 {
        let rest = subs.drop_first();
        assert forall|a: int, b: int| 0 <= a < b < rest.len() implies #[trigger] rest[a].0
            != #[trigger] rest[b].0 by {
            assert(subs[a + 1].0 != subs[b + 1].0);
        }
        lemma_plans_of(rest);
        assert forall|id: u64| #[trigger] plans_of(subs).dom().contains(id) <==> exists|k: int|
            0 <= k < subs.len() && #[trigger] subs[k].0 == id by {
            if plans_of(subs).dom().contains(id) && id != subs[0].0 {
                assert(plans_of(rest).dom().contains(id));
                let m = choose|m: int| 0 <= m < rest.len() && #[trigger] rest[m].0 == id;
                assert(rest[m] == subs[m + 1]);
                assert(subs[m + 1].0 == id);
            }
            if exists|k: int| 0 <= k < subs.len() && #[trigger] subs[k].0 == id {
                let k = choose|k: int| 0 <= k < subs.len() && #[trigger] subs[k].0 == id;
                if k > 0 {
                    assert(rest[k - 1].0 == id);
                }
            }
        }
        assert forall|k: int| 0 <= k < subs.len() implies plans_of(subs)[#[trigger] subs[k].0]
            == subs[k].1 by {
            if k > 0 {
                assert(rest[k - 1] == subs[k]);
                assert(subs[0].0 != subs[k].0);
            }
        }
    }
}

proof fn lemma_plans_finite(g: GameV)
    requires
        wf(g),
    ensures
        g.plans.dom().finite(),
{
    broadcast use vstd::set::group_set_axioms;
    broadcast use vstd::seq_lib::seq_to_set_is_finite;

    let ids = crate::rules::player_ids(g.players);
    assert forall|id: u64| #[trigger] g.plans.dom().contains(id) implies ids.to_set().contains(id) by {
        let i = player_index(g.players, id);
        assert(crate::rules::is_first_player(g.players, id, i)) by {
            let k = choose|k: int| crate::rules::is_first_player(g.players, id, k);
        }
        assert(ids[i] == id);
    }
    vstd::set_lib::lemma_len_subset(g.plans.dom(), ids.to_set());
}

/// Once the last wizard still planning hands in, every wizard has a plan.
proof fn lemma_last_plan(g: GameV, a: u64, plan: TurnPlan)
    requires
        wf(g),
        player_index(g.players, a) >= 0,
        !g.plans.contains_key(a),
        forall|j: int|
            0 <= j < g.players.len() ==> g.plans.contains_key(#[trigger] g.players[j].id)
                || g.players[j].id == a,
    ensures
        g.plans.insert(a, plan).len() == g.players.len(),
{
    broadcast use vstd::set::group_set_axioms;
    broadcast use vstd::seq_lib::seq_to_set_is_finite;

    let ids = crate::rules::player_ids(g.players);
    assert(ids.no_duplicates()) by {
        assert forall|i: int, j: int| 0 <= i < ids.len() && 0 <= j < ids.len() && i != j implies ids[i]
            != ids[j] by {
            if i < j {
                assert(g.players[i].id < g.players[j].id);
            } else {
                assert(g.players[j].id < g.players[i].id);
            }
        }
    }
    ids.unique_seq_to_set();
    let all = ids.to_set();
    assert forall|id: u64| #[trigger] g.plans.dom().insert(a).contains(id) <==> all.contains(id) by {
        if g.plans.dom().insert(a).contains(id) {
            let i = player_index(g.players, id);
            assert(crate::rules::is_first_player(g.players, id, i)) by {
                let k = choose|k: int| crate::rules::is_first_player(g.players, id, k);
            }
            assert(ids[i] == id);
        }
        if all.contains(id) {
            let i = choose|i: int| 0 <= i < ids.len() && ids[i] == id;
            assert(g.players[i].id == id);
        }
    }
    assert(g.plans.insert(a, plan).dom() =~= all);
}

/// Handing in every remaining plan, in any order, resolves the day exactly
/// once, on the last plan, with all the plans.
proof fn lemma_submit_all(g: GameV, subs: Seq<(u64, TurnPlan)>)
    requires
        wf(g),
        g.day <= QUEST_DAYS,
        completes_day(g, subs),
    ensures
        submit_all(g, subs) == resolve_day(
            GameV { plans: g.plans.union_prefer_right(plans_of(subs)), ..g },
        ),
    decreases subs.len(),
{
    let x = subs[0];
    let rest = subs.drop_first();
    lemma_plans_finite(g);
    assert(player_index(g.players, subs[0].0) >= 0);
    lemma_plans_of(subs);
    if subs.len() == 1 {
        assert forall|j: int| 0 <= j < g.players.len() implies g.plans.contains_key(
            #[trigger] g.players[j].id,
        ) || g.players[j].id == x.0 by {
            if !g.plans.contains_key(g.players[j].id) {
                let k = choose|k: int| 0 <= k < subs.len() && #[trigger] subs[k].0 == g.players[j].id;
            }
        }
        lemma_last_plan(g, x.0, x.1);
        assert(g.players.len() > 0) by {
            let i = player_index(g.players, x.0);
            assert(crate::rules::is_first_player(g.players, x.0, i)) by {
                let k = choose|k: int| crate::rules::is_first_player(g.players, x.0, k);
            }
        }
        assert(g.plans.union_prefer_right(plans_of(subs)) =~= g.plans.insert(x.0, x.1));
        let h = after_submit(g, x.0, x.1);
        assert(rest.len() == 0);
        assert(submit_all(h, rest) == h);
        assert(submit_all(g, subs) == submit_all(h, rest));
    } else {
        assert(subs[0].0 != subs[1].0);
        assert(player_index(g.players, subs[1].0) >= 0);
        lemma_plans_room(g, subs[0].0, subs[1].0);
        let g1 = GameV { plans: g.plans.insert(x.0, x.1), ..g };
        assert(g1.plans.len() == g.plans.len() + 1);
        assert(after_submit(g, x.0, x.1) == g1);
        crate::invariants::lemma_submit_wf(g, x.0, x.1);
        assert(completes_day(g1, rest)) by {
            assert forall|a: int, b: int| 0 <= a < b < rest.len() implies #[trigger] rest[a].0
                != #[trigger] rest[b].0 by {
                assert(subs[a + 1].0 != subs[b + 1].0);
            }
            assert forall|k: int| 0 <= k < rest.len() implies player_index(
                g1.players,
                #[trigger] rest[k].0,
            ) >= 0 && !g1.plans.contains_key(rest[k].0) by {
                assert(rest[k] == subs[k + 1]);
                assert(subs[0].0 != subs[k + 1].0);
            }
            assert forall|j: int| 0 <= j < g1.players.len() implies g1.plans.contains_key(
                #[trigger] g1.players[j].id,
            ) || exists|k: int| 0 <= k < rest.len() && #[trigger] rest[k].0 == g1.players[j].id by {
                if !g.plans.contains_key(g.players[j].id) {
                    let k = choose|k: int|
                        0 <= k < subs.len() && #[trigger] subs[k].0 == g.players[j].id;
                    if k > 0 {
                        assert(rest[k - 1].0 == g.players[j].id);
                    }
                }
            }
        }
        lemma_submit_all(g1, rest);
        lemma_plans_of(rest);
        assert(!plans_of(rest).dom().contains(x.0)) by {
            if plans_of(rest).dom().contains(x.0) {
                let k = choose|k: int| 0 <= k < rest.len() && #[trigger] rest[k].0 == x.0;
                assert(subs[0].0 != subs[k + 1].0);
            }
        }
        assert(g1.plans.union_prefer_right(plans_of(rest)) =~= g.plans.union_prefer_right(
            plans_of(subs),
        ));
    }
}

/// Two orders of the same plans hold the same entries, each once.
proof fn lemma_same_entries(s: Seq<(u64, TurnPlan)>, t: Seq<(u64, TurnPlan)>, x: (u64, TurnPlan))
    requires
        s.to_multiset() == t.to_multiset(),
        s.contains(x),
    ensures
        t.contains(x),
{
    vstd::seq_lib::to_multiset_contains(s, x);
    vstd::seq_lib::to_multiset_contains(t, x);
}

proof fn lemma_reordered_members(subs: Seq<(u64, TurnPlan)>, other_order: Seq<(u64, TurnPlan)>)
    requires
        other_order.to_multiset() == subs.to_multiset(),
    ensures
        forall|k: int| 0 <= k < other_order.len() ==> subs.contains(#[trigger] other_order[k]),
        forall|m: int| 0 <= m < subs.len() ==> other_order.contains(#[trigger] subs[m]),
{
    assert forall|k: int| 0 <= k < other_order.len() implies subs.contains(
        #[trigger] other_order[k],
    ) by {
        assert(other_order.contains(other_order[k]));
        lemma_same_entries(other_order, subs, other_order[k]);
    }
    assert forall|m: int| 0 <= m < subs.len() implies other_order.contains(#[trigger] subs[m]) by {
        assert(subs.contains(subs[m]));
        lemma_same_entries(subs, other_order, subs[m]);
    }
}

proof fn lemma_reordered_unique(subs: Seq<(u64, TurnPlan)>, other_order: Seq<(u64, TurnPlan)>)
    requires
        distinct_wizards(subs),
        other_order.to_multiset() == subs.to_multiset(),
    ensures
        other_order.len() == subs.len(),
        other_order.no_duplicates(),
{
    vstd::seq_lib::to_multiset_len(subs);
    vstd::seq_lib::to_multiset_len(other_order);
    assert(subs.no_duplicates()) by {
        assert forall|i: int, j: int| 0 <= i < subs.len() && 0 <= j < subs.len() && i != j implies subs[i]
            != subs[j] by {
            if i < j {
                assert(subs[i].0 != subs[j].0);
            } else {
                assert(subs[j].0 != subs[i].0);
            }
        }
    }
    subs.lemma_multiset_has_no_duplicates();
    other_order.lemma_multiset_has_no_duplicates_conv();
}

proof fn lemma_reordered(subs: Seq<(u64, TurnPlan)>, other_order: Seq<(u64, TurnPlan)>)
    requires
        distinct_wizards(subs),
        other_order.to_multiset() == subs.to_multiset(),
    ensures
        other_order.len() == subs.len(),
        other_order.no_duplicates(),
        forall|k: int| 0 <= k < other_order.len() ==> subs.contains(#[trigger] other_order[k]),
        forall|m: int| 0 <= m < subs.len() ==> other_order.contains(#[trigger] subs[m]),
{
    lemma_reordered_members(subs, other_order);
    lemma_reordered_unique(subs, other_order);
}

proof fn lemma_reordered_completes(
    g: GameV,
    subs: Seq<(u64, TurnPlan)>,
    other_order: Seq<(u64, TurnPlan)>,
)
    requires
        completes_day(g, subs),
        other_order.to_multiset() == subs.to_multiset(),
    ensures
        completes_day(g, other_order),
{
    lemma_reordered(subs, other_order);
    assert forall|a: int, b: int| 0 <= a < b < other_order.len() implies #[trigger] other_order[a].0
        != #[trigger] other_order[b].0 by {
        if other_order[a].0 == other_order[b].0 {
            let ma = choose|m: int| 0 <= m < subs.len() && subs[m] == other_order[a];
            let mb = choose|m: int| 0 <= m < subs.len() && subs[m] == other_order[b];
            if ma < mb {
                assert(subs[ma].0 != subs[mb].0);
            } else if mb < ma {
                assert(subs[mb].0 != subs[ma].0);
            } else {
                assert(other_order[a] == other_order[b]);
            }
        }
    }
    assert forall|k: int| 0 <= k < other_order.len() implies player_index(
        g.players,
        #[trigger] other_order[k].0,
    ) >= 0 && !g.plans.contains_key(other_order[k].0) by {
        let m = choose|m: int| 0 <= m < subs.len() && subs[m] == other_order[k];
        assert(subs[m].0 == other_order[k].0);
    }
    assert forall|j: int| 0 <= j < g.players.len() implies g.plans.contains_key(
        #[trigger] g.players[j].id,
    ) || exists|k: int| 0 <= k < other_order.len() && #[trigger] other_order[k].0
        == g.players[j].id by {
        if !g.plans.contains_key(g.players[j].id) {
            let m = choose|m: int| 0 <= m < subs.len() && #[trigger] subs[m].0 == g.players[j].id;
            let k = choose|k: int| 0 <= k < other_order.len() && other_order[k] == subs[m];
            assert(other_order[k].0 == g.players[j].id);
        }
    }
}

proof fn lemma_reordered_plans(g: GameV, subs: Seq<(u64, TurnPlan)>, other_order: Seq<(u64, TurnPlan)>)
    requires
        completes_day(g, subs),
        completes_day(g, other_order),
        other_order.to_multiset() == subs.to_multiset(),
    ensures
        plans_of(other_order) == plans_of(subs),
{
    lemma_reordered(subs, other_order);
    lemma_plans_of(subs);
    lemma_plans_of(other_order);
    assert forall|id: u64| #[trigger] plans_of(other_order).dom().contains(id)
        == plans_of(subs).dom().contains(id) by {
        if plans_of(other_order).dom().contains(id) {
            let k = choose|k: int| 0 <= k < other_order.len() && #[trigger] other_order[k].0 == id;
            let m = choose|m: int| 0 <= m < subs.len() && subs[m] == other_order[k];
            assert(subs[m].0 == id);
        }
        if plans_of(subs).dom().contains(id) {
            let m = choose|m: int| 0 <= m < subs.len() && #[trigger] subs[m].0 == id;
            let k = choose|k: int| 0 <= k < other_order.len() && other_order[k] == subs[m];
            assert(other_order[k].0 == id);
        }
    }
    assert forall|id: u64| #[trigger] plans_of(other_order).dom().contains(id) implies plans_of(
        other_order,
    )[id] == plans_of(subs)[id] by {
        let k = choose|k: int| 0 <= k < other_order.len() && #[trigger] other_order[k].0 == id;
        let m = choose|m: int| 0 <= m < subs.len() && subs[m] == other_order[k];
        assert(plans_of(other_order)[other_order[k].0] == other_order[k].1);
        assert(plans_of(subs)[subs[m].0] == subs[m].1);
    }
    assert(plans_of(other_order) =~= plans_of(subs));
}

/// Plans are simultaneous: handing in the remaining plans of a day in any
/// order gives the same quest. The day resolves once, on the last plan, with
/// every plan of the day.
pub proof fn law_submission_order_irrelevant(
    g: GameV,
    subs: Seq<(u64, TurnPlan)>,
    other_order: Seq<(u64, TurnPlan)>,
)
    requires
        wf(g),
        g.day <= QUEST_DAYS,
        completes_day(g, subs),
        other_order.to_multiset() == subs.to_multiset(),
    ensures
        submit_all(g, subs) == resolve_day(
            GameV { plans: g.plans.union_prefer_right(plans_of(subs)), ..g },
        ),
        submit_all(g, other_order) == submit_all(g, subs),
{
    lemma_submit_all(g, subs);
    lemma_reordered_completes(g, subs, other_order);
    lemma_submit_all(g, other_order);
    lemma_reordered_plans(g, subs, other_order);
}

} // verus!
