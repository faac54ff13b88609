//! The invariant of a quest between operations, and its preservation by
//! every rule.
use vstd::prelude::*;

use crate::board::{
    board_ok, lemma_add_rows_board, lemma_advance_board, lemma_board_transfer, lemma_turns_board,
    lemma_upkeep_board, same_board,
};
use crate::frame::{ids_sorted, lemma_turns_frame, same_spot};
use crate::model::{
    PlayerV, Position, TurnPlan, BOARD_WIDTH, FORWARD_ROWS, MAX_ENERGY, QUEST_DAYS,
};
use crate::rules::{
    add_row, add_rows, add_tile, add_tiles, advance, after_add_player, after_chat, after_step,
    after_submit, big_lim, catch_up, clamp_target, clock_ok, counters_within, has_row, id_cap,
    ids_per_day, kept_tiles, lemma_upkeep_sound, new_game, new_player, opening_state,
    player_ids, player_index, pos_within, resolve_day, resolve_turns, safe_lim, set_player,
    sound, sound_within, step_outcome, upkeep, with_log, GameV, StepOutcome,
};

verus! {

/// Room for identifiers: each day up to the day after the last can still lay
/// two rows of seven tiles.
pub open spec fn id_room(g: GameV) -> bool {
    g.next_id + 14 * (22 - g.day) <= id_cap()
}

/// The invariant of a quest between operations.
pub open spec fn wf(g: GameV) -> bool {
    &&& 1 <= g.day <= QUEST_DAYS + 1
    &&& g.caravan_row == 2 * (g.day - 1)
    &&& 1 <= g.next_id
    &&& id_room(g)
    &&& ids_sorted(g.players)
    &&& forall|i: int| 0 <= i < g.players.len() ==> #[trigger] g.players[i].id < g.next_id
    &&& sound_within(g, 10 * g.day)
    &&& board_ok(g)
    &&& plans_of_wizards(g)
}

/// Every pending plan belongs to a wizard of the quest.
pub open spec fn plans_of_wizards(g: GameV) -> bool {
    forall|id: u64| #[trigger] g.plans.contains_key(id) ==> player_index(g.players, id) >= 0
}

/// Another wizard can join without running out of identifiers.
pub open spec fn can_join(g: GameV) -> bool {
    g.next_id + 1 + 14 * (22 - g.day) <= id_cap()
}

pub proof fn lemma_wf_sound(g: GameV)
    requires
        wf(g),
    ensures
        sound(g),
        sound_within(g, safe_lim()),
        clock_ok(g),
        g.caravan_row <= 9_000,
{
    assert forall|i: int| 0 <= i < g.players.len() implies {
        &&& pos_within(#[trigger] g.players[i], g.caravan_row as int)
        &&& counters_within(g.players[i], big_lim())
        &&& g.players[i].id < id_cap()
    } by {
        assert(counters_within(g.players[i], 10 * g.day));
    }
    assert forall|i: int| 0 <= i < g.players.len() implies {
        &&& pos_within(#[trigger] g.players[i], g.caravan_row as int)
        &&& counters_within(g.players[i], safe_lim())
        &&& g.players[i].id < id_cap()
    } by {
        assert(counters_within(g.players[i], 10 * g.day));
    }
}

/// Laying tiles keeps everything but the tiles, the queue and the id counter.
pub proof fn lemma_add_tiles_facts(g: GameV, row: i32, k: nat)
    requires
        g.next_id + k <= u64::MAX,
    ensures
        ({
            let h = add_tiles(g, row, k);
            &&& h.day == g.day
            &&& h.caravan_row == g.caravan_row
            &&& h.players == g.players
            &&& h.plans == g.plans
            &&& h.logs == g.logs
            &&& h.next_id == g.next_id + k
        }),
    decreases k,
{
    if k > 0 {
        lemma_add_tiles_facts(g, row, (k - 1) as nat);
    }
}

pub proof fn lemma_add_row_facts(g: GameV, row: i32)
    requires
        g.next_id + BOARD_WIDTH <= u64::MAX,
    ensures
        ({
            let h = add_row(g, row);
            &&& h.day == g.day
            &&& h.caravan_row == g.caravan_row
            &&& h.players == g.players
            &&& h.plans == g.plans
            &&& h.logs == g.logs
            &&& h.next_id == g.next_id + BOARD_WIDTH
        }),
{
    lemma_add_tiles_facts(g, row, BOARD_WIDTH as nat);
}

pub proof fn lemma_add_rows_facts(g: GameV, first: int, n: nat)
    requires
        g.next_id + BOARD_WIDTH * n <= u64::MAX,
    ensures
        ({
            let h = add_rows(g, first, n);
            &&& h.day == g.day
            &&& h.caravan_row == g.caravan_row
            &&& h.players == g.players
            &&& h.plans == g.plans
            &&& h.logs == g.logs
            &&& h.next_id == g.next_id + BOARD_WIDTH * n
        }),
    decreases n,
{
    if n > 0 {
        lemma_add_rows_facts(g, first, (n - 1) as nat);
        let h1 = add_rows(g, first, (n - 1) as nat);
        lemma_add_row_facts(h1, (first + n - 1) as i32);
    }
}

/// A new quest satisfies the invariant.
pub proof fn lemma_new_game_wf()
    ensures
        wf(new_game()),
        new_game().players.len() == 0,
        new_game().day == 1,
{
    lemma_add_rows_facts(opening_state(), -1, (FORWARD_ROWS + 2) as nat);
    lemma_add_rows_board(opening_state(), -1, (FORWARD_ROWS + 2) as nat);
    let g = new_game();
    assert(crate::board::row_full(g.tiles, 3));
    assert(crate::board::row_full(g.tiles, 4));
    assert(g.players.len() == 0);
    assert(g.day == 1);
    assert(g.caravan_row == 0);
    assert(g.next_id == 43);
    assert(ids_per_day() == 14);
    assert(id_room(g));
    assert(ids_sorted(g.players));
    assert(clock_ok(g));
    assert(sound_within(g, 10));
}

/// Joining keeps the invariant.
pub proof fn lemma_add_player_wf(g: GameV, name: Seq<char>, is_ai: bool)
    requires
        wf(g),
        can_join(g),
    ensures
        wf(after_add_player(g, name, is_ai)),
{
    let h = after_add_player(g, name, is_ai);
    let q = new_player(g.next_id, name, is_ai, g.caravan_row);
    assert(h.players == g.players.push(q));
    assert forall|a: int, b: int| 0 <= a < b < h.players.len() implies #[trigger] h.players[a].id
        < #[trigger] h.players[b].id by {
        if b == g.players.len() {
            assert(g.players[a].id < g.next_id);
        }
    }
    assert forall|i: int| 0 <= i < h.players.len() implies {
        &&& pos_within(#[trigger] h.players[i], h.caravan_row as int)
        &&& counters_within(h.players[i], 10 * h.day)
        &&& h.players[i].id < id_cap()
    } by {
        if i < g.players.len() {
            assert(h.players[i] == g.players[i]);
        }
    }
    assert forall|i: int| 0 <= i < h.players.len() implies #[trigger] h.players[i].id < h.next_id by {
        if i < g.players.len() {
            assert(h.players[i] == g.players[i]);
        }
    }
    assert(ids_per_day() == 14);
    assert(id_room(h));
    assert(clock_ok(h));
    assert(sound_within(h, 10 * h.day));
    lemma_board_transfer(g, h);
    assert forall|id: u64| #[trigger] h.plans.contains_key(id) implies player_index(h.players, id)
        >= 0 by {
        let i = player_index(g.players, id);
        assert(crate::rules::is_first_player(g.players, id, i)) by {
            let k = choose|k: int| crate::rules::is_first_player(g.players, id, k);
        }
        assert(h.players[i] == g.players[i]);
        assert(crate::rules::is_first_player(h.players, id, i));
        crate::rules::lemma_player_index_is(h.players, id, i);
    }
}

/// Table talk keeps the invariant.
pub proof fn lemma_chat_wf(g: GameV, id: u64, message: Seq<char>)
    requires
        wf(g),
    ensures
        wf(after_chat(g, id, message)),
{
}

/// A single step keeps the invariant.
pub proof fn lemma_step_wf(g: GameV, id: u64, target: Position)
    requires
        wf(g),
        step_outcome(g, id, target) is Moved,
    ensures
        wf(after_step(g, id, target)),
{
    let i = player_index(g.players, id);
    assert(0 <= i < g.players.len()) by {
        let k = choose|k: int| crate::rules::is_first_player(g.players, id, k);
    }
    let p = g.players[i];
    let t = clamp_target(target, g.caravan_row as int);
    let cost = crate::model::move_cost(p.pos, t, g.caravan_row as int);
    let q = PlayerV { energy: (p.energy - cost) as i32, pos: t, ..p };
    let h1 = set_player(g, i, q);
    crate::rules::lemma_sound_update(g, h1, i, q, 10 * g.day);
    assert forall|a: int, b: int| 0 <= a < b < h1.players.len() implies #[trigger] h1.players[a].id
        < #[trigger] h1.players[b].id by {
        assert(g.players[a].id < g.players[b].id);
    }
    assert forall|j: int| 0 <= j < h1.players.len() implies #[trigger] h1.players[j].id
        < h1.next_id by {
        assert(g.players[j].id < g.next_id);
    }
    let h = after_step(g, id, target);
    lemma_board_transfer(g, h);
    assert forall|pid: u64| #[trigger] h.plans.contains_key(pid) implies player_index(h.players, pid)
        >= 0 by {
        crate::rules::lemma_index_stable_same(g.players, h.players, pid);
    }
}

/// The caravan's advance: the clock moves, identifiers grow by at most two
/// rows, every wizard keeps its id and ends on the new board.
pub proof fn lemma_advance_facts(g: GameV, lim: int)
    requires
        sound_within(g, lim),
        MAX_ENERGY <= lim,
        g.caravan_row <= 9_000,
    ensures
        ({
            let h = advance(g);
            &&& h.day == g.day
            &&& h.caravan_row == g.caravan_row + 2
            &&& g.next_id <= h.next_id <= g.next_id + ids_per_day()
            &&& h.players.len() == g.players.len()
            &&& forall|j: int| 0 <= j < g.players.len() ==> #[trigger] h.players[j].id == g.players[j].id
            &&& forall|j: int|
                0 <= j < g.players.len() ==> pos_within(#[trigger] h.players[j], h.caravan_row as int)
                    && counters_within(h.players[j], lim)
        }),
{
    let c = g.caravan_row + 2;
    let min_row = c - 1;
    let max_row = c + FORWARD_ROWS;
    let g1 = GameV { caravan_row: c as i32, tiles: kept_tiles(g.tiles, min_row), ..g };
    let g2 = if has_row(g1.tiles, max_row - 1) {
        g1
    } else {
        add_row(g1, (max_row - 1) as i32)
    };
    if !has_row(g1.tiles, max_row - 1) {
        lemma_add_row_facts(g1, (max_row - 1) as i32);
    }
    let g3 = if has_row(g2.tiles, max_row) {
        g2
    } else {
        add_row(g2, max_row as i32)
    };
    if !has_row(g2.tiles, max_row) {
        lemma_add_row_facts(g2, max_row as i32);
    }
    let h = advance(g);
    assert(g3.players == g.players);
    assert forall|j: int|
        0 <= j < g.players.len() implies pos_within(#[trigger] h.players[j], h.caravan_row as int)
        && counters_within(h.players[j], lim) by {
        assert(h.players[j] == catch_up(g.players[j], min_row));
        assert(pos_within(g.players[j], g.caravan_row as int));
        assert(counters_within(g.players[j], lim));
    }
}

/// A whole day keeps the invariant.
pub proof fn lemma_resolve_day_wf(g: GameV)
    requires
        wf(g),
        g.day <= QUEST_DAYS,
    ensures
        wf(resolve_day(g)),
        resolve_day(g).day == g.day + 1,
        resolve_day(g).caravan_row == g.caravan_row + 2,
        resolve_day(g).players.len() == g.players.len(),
        forall|j: int|
            0 <= j < g.players.len() ==> #[trigger] resolve_day(g).players[j].id == g.players[j].id,
{
    let lim = 10 * g.day;
    let plans = g.plans;
    let g1 = with_log(
        GameV { plans: Map::empty(), ..g },
        crate::messages::plans_resolve_text(g.day as nat),
        None,
    );
    assert(sound_within(g1, lim));
    let n = g1.players.len();
    lemma_turns_frame(g1, plans, n, lim);
    let g2 = resolve_turns(g1, plans, player_ids(g1.players), n);
    assert(sound_within(g2, lim + 5)) by {
        assert forall|i: int| 0 <= i < g2.players.len() implies {
            &&& pos_within(#[trigger] g2.players[i], g2.caravan_row as int)
            &&& counters_within(g2.players[i], lim + 5)
            &&& g2.players[i].id < id_cap()
        } by {
            assert(counters_within(g2.players[i], lim + 5));
        }
    }
    lemma_upkeep_sound(g2, lim + 6);
    let g3 = upkeep(g2);
    lemma_advance_facts(g3, lim + 6);
    let g4 = advance(g3);
    let g5 = GameV { day: (g4.day + 1) as u32, ..g4 };
    let h = resolve_day(g);
    assert(h.players == g5.players);
    assert(h.day == g.day + 1);
    assert(h.caravan_row == g.caravan_row + 2);
    assert forall|a: int, b: int| 0 <= a < b < h.players.len() implies #[trigger] h.players[a].id
        < #[trigger] h.players[b].id by {
        assert(h.players[a].id == g.players[a].id);
        assert(h.players[b].id == g.players[b].id);
    }
    assert forall|j: int| 0 <= j < h.players.len() implies #[trigger] h.players[j].id
        < h.next_id by {
        assert(h.players[j].id == g.players[j].id);
        assert(g.players[j].id < g.next_id);
    }
    assert forall|i: int| 0 <= i < h.players.len() implies {
        &&& pos_within(#[trigger] h.players[i], h.caravan_row as int)
        &&& counters_within(h.players[i], 10 * h.day)
        &&& h.players[i].id < id_cap()
    } by {
        assert(h.players[i].id == g.players[i].id);
        assert(g.players[i].id < g.next_id);
    }
    assert(h.next_id <= g.next_id + ids_per_day());
    assert(ids_per_day() == 14);
    assert(id_room(h));
    assert(clock_ok(h));
    assert(sound_within(h, 10 * h.day));
    lemma_turns_board(g1, plans, player_ids(g1.players), n);
    crate::board::lemma_turns_keep_plans(g1, plans, player_ids(g1.players), n);
    lemma_upkeep_board(g2);
    lemma_board_transfer(g, g1);
    lemma_board_transfer(g1, g2);
    lemma_board_transfer(g2, g3);
    lemma_advance_board(g3);
    lemma_board_transfer(g4, h);
    assert(h.plans == g4.plans);
    assert(plans_of_wizards(h));
}

/// Submitting a plan keeps the invariant.
pub proof fn lemma_submit_wf(g: GameV, id: u64, plan: TurnPlan)
    requires
        wf(g),
        g.day <= QUEST_DAYS,
        player_index(g.players, id) >= 0,
    ensures
        wf(after_submit(g, id, plan)),
{
    let g1 = GameV { plans: g.plans.insert(id, plan), ..g };
    assert(wf(g1));
    if g1.plans.len() == g1.players.len() && g1.players.len() > 0 {
        lemma_resolve_day_wf(g1);
    }
}

} // verus!
