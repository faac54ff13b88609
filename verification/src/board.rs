//! The shape of the travelling board: every tile on a visible square, no two
//! tiles on one square, tile ids increasing and below the next id, and both
//! front rows full; and how each rule keeps that shape.
use vstd::prelude::*;

use crate::model::{Tile, BOARD_WIDTH, FORWARD_ROWS};
use crate::rules::{
    add_row, add_rows, add_tile, add_tiles, advance, age_seal, has_row, kept_tiles, player_ids,
    resolve_card, resolve_move, resolve_turn, resolve_turns, upkeep, GameV,
};
use crate::model::TurnPlan;

verus! {

/// Some tile lies on this square.
pub open spec fn has_square(ts: Seq<Tile>, row: int, col: int) -> bool {
    exists|k: int| 0 <= k < ts.len() && ts[k].pos.row == row && ts[k].pos.col == col
}

/// Every tile lies in rows `lo ..= hi` and on a column of the board.
pub open spec fn tiles_within(ts: Seq<Tile>, lo: int, hi: int) -> bool {
    forall|k: int|
        0 <= k < ts.len() ==> lo <= #[trigger] ts[k].pos.row <= hi && 0 <= ts[k].pos.col
            < BOARD_WIDTH
}

/// Tile ids increase along the list and stay below `next_id`.
pub open spec fn ids_below(ts: Seq<Tile>, next_id: int) -> bool {
    &&& forall|a: int, b: int| 0 <= a < b < ts.len() ==> #[trigger] ts[a].id < #[trigger] ts[b].id
    &&& forall|k: int| 0 <= k < ts.len() ==> #[trigger] ts[k].id < next_id
}

/// No two tiles share a square.
pub open spec fn squares_unique(ts: Seq<Tile>) -> bool {
    forall|a: int, b: int|
        0 <= a < ts.len() && 0 <= b < ts.len() && a != b ==> #[trigger] ts[a].pos != #[trigger] ts[b].pos
}

/// Every square of this row holds a tile.
pub open spec fn row_full(ts: Seq<Tile>, row: int) -> bool {
    forall|col: int| 0 <= col < BOARD_WIDTH ==> #[trigger] has_square(ts, row, col)
}

/// The board of a quest: the row behind the caravan, its row and the rows
/// ahead are the only rows with tiles, no two tiles share a square, tile ids
/// increase and stay below the next id, and the two front rows are full.
pub open spec fn board_ok(g: GameV) -> bool {
    let c = g.caravan_row as int;
    &&& tiles_within(g.tiles, c - 1, c + FORWARD_ROWS)
    &&& ids_below(g.tiles, g.next_id as int)
    &&& squares_unique(g.tiles)
    &&& row_full(g.tiles, c + FORWARD_ROWS - 1)
    &&& row_full(g.tiles, c + FORWARD_ROWS)
}

/// The same tiles, by id and square, in the same order.
pub open spec fn same_board(a: Seq<Tile>, b: Seq<Tile>) -> bool {
    &&& a.len() == b.len()
    &&& forall|k: int| #![trigger b[k]] 0 <= k < a.len() ==> b[k].id == a[k].id && b[k].pos == a[k].pos
}

proof fn lemma_card_board(g: GameV, id: u64, action: crate::model::ActionV)
    ensures
        same_board(g.tiles, resolve_card(g, id, action).tiles),
{
}

proof fn lemma_move_board(
    g: GameV,
    id: u64,
    target: crate::model::Position,
    action: crate::model::EventAction,
    chat: Seq<char>,
)
    ensures
        same_board(g.tiles, resolve_move(g, id, target, action, chat).tiles),
{
}

/// One wizard's turn changes no tile's id or square.
pub proof fn lemma_turn_board(g: GameV, id: u64, plan: TurnPlan)
    ensures
        same_board(g.tiles, resolve_turn(g, id, plan).tiles),
{
    let g1 = resolve_card(g, id, plan.card_action@);
    lemma_card_board(g, id, plan.card_action@);
    lemma_move_board(g1, id, plan.target, plan.event_action, plan.chat@);
    let h = resolve_turn(g, id, plan);
    assert forall|k: int| 0 <= k < g.tiles.len() implies #[trigger] h.tiles[k].id == g.tiles[k].id
        && h.tiles[k].pos == g.tiles[k].pos by {
        assert(g1.tiles[k].id == g.tiles[k].id && g1.tiles[k].pos == g.tiles[k].pos);
    }
}

/// Every wizard's turn of a day, in turn, changes no tile's id or square.
pub proof fn lemma_turns_board(g: GameV, plans: Map<u64, TurnPlan>, ids: Seq<u64>, k: nat)
    ensures
        same_board(g.tiles, resolve_turns(g, plans, ids, k).tiles),
    decreases k,
{
    if k > 0 {
        lemma_turns_board(g, plans, ids, (k - 1) as nat);
        let g1 = resolve_turns(g, plans, ids, (k - 1) as nat);
        let id = ids[k - 1];
        if plans.contains_key(id) {
            lemma_turn_board(g1, id, plans[id]);
        }
    }
}

/// The night changes no tile's id or square.
pub proof fn lemma_upkeep_board(g: GameV)
    ensures
        same_board(g.tiles, upkeep(g).tiles),
{
}

/// The board's shape depends only on the tiles' ids and squares, the
/// caravan's row and the next id.
pub proof fn lemma_board_transfer(g: GameV, h: GameV)
    requires
        board_ok(g),
        same_board(g.tiles, h.tiles),
        h.caravan_row == g.caravan_row,
        g.next_id <= h.next_id,
    ensures
        board_ok(h),
{
    let c = g.caravan_row as int;
    assert forall|a: int, b: int| 0 <= a < b < h.tiles.len() implies #[trigger] h.tiles[a].id
        < #[trigger] h.tiles[b].id by {
        assert(g.tiles[a].id < g.tiles[b].id);
    }
    assert forall|k: int| 0 <= k < h.tiles.len() implies #[trigger] h.tiles[k].id < h.next_id by {
        assert(g.tiles[k].id < g.next_id);
    }
    assert forall|a: int, b: int|
        0 <= a < h.tiles.len() && 0 <= b < h.tiles.len() && a != b implies #[trigger] h.tiles[a].pos
        != #[trigger] h.tiles[b].pos by {
        assert(g.tiles[a].pos != g.tiles[b].pos);
    }
    assert forall|k: int| 0 <= k < h.tiles.len() implies c - 1 <= #[trigger] h.tiles[k].pos.row <= c
        + FORWARD_ROWS && 0 <= h.tiles[k].pos.col < BOARD_WIDTH by {
        assert(g.tiles[k].pos == h.tiles[k].pos);
    }
    assert forall|row: int, col: int| #[trigger] has_square(g.tiles, row, col) implies has_square(
        h.tiles,
        row,
        col,
    ) by {
        let k = choose|k: int|
            0 <= k < g.tiles.len() && g.tiles[k].pos.row == row && g.tiles[k].pos.col == col;
        assert(h.tiles[k].pos == g.tiles[k].pos);
    }
    assert forall|col: int| 0 <= col < BOARD_WIDTH implies #[trigger] has_square(
        h.tiles,
        c + FORWARD_ROWS - 1,
        col,
    ) by {
        assert(has_square(g.tiles, c + FORWARD_ROWS - 1, col));
    }
    assert forall|col: int| 0 <= col < BOARD_WIDTH implies #[trigger] has_square(
        h.tiles,
        c + FORWARD_ROWS,
        col,
    ) by {
        assert(has_square(g.tiles, c + FORWARD_ROWS, col));
    }
}

/// Laying the first `k` tiles of row `row`: the old tiles stay in front, the
/// new ones take consecutive ids from `next_id` and columns from 0.
pub proof fn lemma_add_tiles_shape(g: GameV, row: i32, k: nat)
    requires
        g.next_id + k <= u64::MAX,
        k <= BOARD_WIDTH,
    ensures
        ({
            let h = add_tiles(g, row, k);
            &&& h.tiles.len() == g.tiles.len() + k
            &&& h.next_id == g.next_id + k
            &&& h.caravan_row == g.caravan_row
            &&& h.plans == g.plans
            &&& forall|j: int| 0 <= j < g.tiles.len() ==> #[trigger] h.tiles[j] == g.tiles[j]
            &&& forall|j: int|
                #![trigger h.tiles[j]]
                g.tiles.len() <= j < g.tiles.len() + k ==> h.tiles[j].id == g.next_id + (j
                    - g.tiles.len()) && h.tiles[j].pos.row == row && h.tiles[j].pos.col == j
                    - g.tiles.len()
        }),
    decreases k,
{
    if k > 0 {
        lemma_add_tiles_shape(g, row, (k - 1) as nat);
        let h1 = add_tiles(g, row, (k - 1) as nat);
        let h = add_tiles(g, row, k);
        assert(h == add_tile(h1, row, (k - 1) as i32));
        let n = g.tiles.len();
        assert(h.tiles == h1.tiles.push(h.tiles[n + k - 1]));
        assert forall|j: int|
            #![trigger h.tiles[j]]
            n <= j < n + k implies h.tiles[j].id == g.next_id + (j - n) && h.tiles[j].pos.row == row
            && h.tiles[j].pos.col == j - n by {
            if j < n + k - 1 {
                assert(h.tiles[j] == h1.tiles[j]);
            }
        }
        assert forall|j: int| 0 <= j < g.tiles.len() implies #[trigger] h.tiles[j] == g.tiles[j] by {
            assert(h.tiles[j] == h1.tiles[j]);
        }
    }
}

/// Laying a whole row where there was none keeps the board's shape and
/// fills the row.
pub proof fn lemma_add_row_board(g: GameV, row: i32, lo: int, hi: int)
    requires
        g.next_id + BOARD_WIDTH <= u64::MAX,
        tiles_within(g.tiles, lo, hi),
        ids_below(g.tiles, g.next_id as int),
        squares_unique(g.tiles),
        !has_row(g.tiles, row as int),
    ensures
        ({
            let h = add_row(g, row);
            &&& h.next_id == g.next_id + BOARD_WIDTH
            &&& h.caravan_row == g.caravan_row
            &&& h.plans == g.plans
            &&& tiles_within(
                h.tiles,
                if row < lo {
                    row as int
                } else {
                    lo
                },
                if row > hi {
                    row as int
                } else {
                    hi
                },
            )
            &&& ids_below(h.tiles, h.next_id as int)
            &&& squares_unique(h.tiles)
            &&& row_full(h.tiles, row as int)
            &&& forall|r: int, col: int| #[trigger] has_square(g.tiles, r, col) ==> has_square(
                h.tiles,
                r,
                col,
            )
        }),
{
    lemma_add_tiles_shape(g, row, BOARD_WIDTH as nat);
    let h = add_row(g, row);
    let n = g.tiles.len();
    assert(h == add_tiles(g, row, BOARD_WIDTH as nat));
    assert forall|a: int, b: int| 0 <= a < b < h.tiles.len() implies #[trigger] h.tiles[a].id
        < #[trigger] h.tiles[b].id by {
        if b < n {
            assert(h.tiles[a] == g.tiles[a] && h.tiles[b] == g.tiles[b]);
        } else if a < n {
            assert(h.tiles[a] == g.tiles[a]);
        }
    }
    assert forall|a: int, b: int|
        0 <= a < h.tiles.len() && 0 <= b < h.tiles.len() && a != b implies #[trigger] h.tiles[a].pos
        != #[trigger] h.tiles[b].pos by {
        if a < n && b < n {
            assert(h.tiles[a] == g.tiles[a] && h.tiles[b] == g.tiles[b]);
        } else if a < n {
            assert(h.tiles[a] == g.tiles[a]);
            assert(g.tiles[a].pos.row != row);
            assert(h.tiles[b].pos.row == row);
        } else if b < n {
            assert(h.tiles[b] == g.tiles[b]);
            assert(g.tiles[b].pos.row != row);
            assert(h.tiles[a].pos.row == row);
        } else {
            assert(h.tiles[a].pos.col != h.tiles[b].pos.col);
        }
    }
    assert forall|k: int| 0 <= k < h.tiles.len() implies #[trigger] h.tiles[k].id < h.next_id by {
        if k < n {
            assert(h.tiles[k] == g.tiles[k]);
        }
    }
    assert forall|col: int| 0 <= col < BOARD_WIDTH implies #[trigger] has_square(
        h.tiles,
        row as int,
        col,
    ) by {
        let k = n + col;
        assert(h.tiles[k].pos.row == row && h.tiles[k].pos.col == col);
    }
    assert forall|r: int, col: int| #[trigger] has_square(g.tiles, r, col) implies has_square(
        h.tiles,
        r,
        col,
    ) by {
        let k = choose|k: int|
            0 <= k < g.tiles.len() && g.tiles[k].pos.row == r && g.tiles[k].pos.col == col;
        assert(h.tiles[k] == g.tiles[k]);
    }
    let lo2 = if row < lo {
        row as int
    } else {
        lo
    };
    let hi2 = if row > hi {
        row as int
    } else {
        hi
    };
    assert forall|k: int| 0 <= k < h.tiles.len() implies lo2 <= #[trigger] h.tiles[k].pos.row <= hi2
        && 0 <= h.tiles[k].pos.col < BOARD_WIDTH by {
        if k < n {
            assert(h.tiles[k] == g.tiles[k]);
        } else {
            assert(h.tiles[k].pos.row == row);
        }
    }
}

/// Each tile the caravan keeps is one of the tiles that were there.
pub open spec fn drawn_from(ks: Seq<Tile>, ts: Seq<Tile>) -> bool {
    forall|k: int| 0 <= k < ks.len() ==> exists|j: int| 0 <= j < ts.len() && #[trigger] ks[k] == ts[j]
}

/// The tiles the caravan keeps are some of the tiles that were there, in
/// the same order, all at least on row `min_row`.
pub proof fn lemma_kept_board(ts: Seq<Tile>, min_row: int, lo: int, hi: int, next_id: int)
    requires
        tiles_within(ts, lo, hi),
        ids_below(ts, next_id),
        squares_unique(ts),
        lo <= min_row,
    ensures
        ({
            let ks = kept_tiles(ts, min_row);
            &&& drawn_from(ks, ts)
            &&& tiles_within(ks, min_row, hi)
            &&& ids_below(ks, next_id)
            &&& squares_unique(ks)
        }),
    decreases ts.len(),
{
    if ts.len() > 0 {
        let d = ts.drop_last();
        let t = ts.last();
        let last = ts.len() - 1;
        assert forall|k: int| 0 <= k < d.len() implies #[trigger] d[k] == ts[k] by {}
        assert(tiles_within(d, lo, hi)) by {
            assert forall|k: int| 0 <= k < d.len() implies lo <= #[trigger] d[k].pos.row <= hi && 0
                <= d[k].pos.col < BOARD_WIDTH by {
                assert(d[k] == ts[k]);
            }
        }
        assert(ids_below(d, next_id)) by {
            assert forall|a: int, b: int| 0 <= a < b < d.len() implies #[trigger] d[a].id
                < #[trigger] d[b].id by {
                assert(d[a] == ts[a] && d[b] == ts[b]);
            }
            assert forall|k: int| 0 <= k < d.len() implies #[trigger] d[k].id < next_id by {
                assert(d[k] == ts[k]);
            }
        }
        assert(squares_unique(d)) by {
            assert forall|a: int, b: int|
                0 <= a < d.len() && 0 <= b < d.len() && a != b implies #[trigger] d[a].pos
                != #[trigger] d[b].pos by {
                assert(d[a] == ts[a] && d[b] == ts[b]);
            }
        }
        lemma_kept_board(d, min_row, lo, hi, next_id);
        let kd = kept_tiles(d, min_row);
        let ks = kept_tiles(ts, min_row);
        assert(ts[last] == t);
        assert forall|k: int| 0 <= k < kd.len() implies exists|j: int|
            0 <= j < last && #[trigger] kd[k] == ts[j] by {
            let j = choose|j: int| 0 <= j < d.len() && kd[k] == d[j];
            assert(d[j] == ts[j]);
        }
        if t.pos.row >= min_row && t.completed_by is None {
            assert(ks == kd.push(t));
            assert forall|k: int| 0 <= k < ks.len() implies exists|j: int|
                0 <= j < ts.len() && #[trigger] ks[k] == ts[j] by {
                if k < kd.len() {
                    assert(ks[k] == kd[k]);
                    let j = choose|j: int| 0 <= j < last && kd[k] == ts[j];
                    assert(ks[k] == ts[j]);
                } else {
                    assert(ks[k] == ts[last]);
                }
            }
            assert forall|k: int| 0 <= k < ks.len() implies min_row <= #[trigger] ks[k].pos.row
                <= hi && 0 <= ks[k].pos.col < BOARD_WIDTH by {
                if k < kd.len() {
                    assert(ks[k] == kd[k]);
                } else {
                    assert(ks[k] == ts[last]);
                }
            }
            assert forall|a: int, b: int| 0 <= a < b < ks.len() implies #[trigger] ks[a].id
                < #[trigger] ks[b].id by {
                assert(ks[a] == kd[a]);
                if b < kd.len() {
                    assert(ks[b] == kd[b]);
                } else {
                    let j = choose|j: int| 0 <= j < last && kd[a] == ts[j];
                    assert(ts[j].id < ts[last].id);
                }
            }
            assert forall|k: int| 0 <= k < ks.len() implies #[trigger] ks[k].id < next_id by {
                if k < kd.len() {
                    assert(ks[k] == kd[k]);
                } else {
                    assert(ks[k] == ts[last]);
                }
            }
            assert forall|a: int, b: int|
                0 <= a < ks.len() && 0 <= b < ks.len() && a != b implies #[trigger] ks[a].pos
                != #[trigger] ks[b].pos by {
                if a < kd.len() && b < kd.len() {
                    assert(ks[a] == kd[a] && ks[b] == kd[b]);
                } else if a < kd.len() {
                    let j = choose|j: int| 0 <= j < last && kd[a] == ts[j];
                    assert(ks[a] == ts[j] && ks[b] == ts[last]);
                } else if b < kd.len() {
                    let j = choose|j: int| 0 <= j < last && kd[b] == ts[j];
                    assert(ks[b] == ts[j] && ks[a] == ts[last]);
                }
            }
        } else {
            assert(ks =~= kd);
            assert forall|k: int| 0 <= k < ks.len() implies exists|j: int|
                0 <= j < ts.len() && #[trigger] ks[k] == ts[j] by {
                let j = choose|j: int| 0 <= j < last && kd[k] == ts[j];
                assert(ks[k] == ts[j]);
            }
        }
    }
}

/// The caravan's advance keeps the board's shape: the rows behind fall off
/// and the two new front rows are laid whole.
pub proof fn lemma_advance_board(g: GameV)
    requires
        board_ok(g),
        g.next_id + 2 * BOARD_WIDTH <= u64::MAX,
        i32::MIN + 1 <= g.caravan_row,
        g.caravan_row + 2 + FORWARD_ROWS <= i32::MAX,
    ensures
        board_ok(advance(g)),
        advance(g).plans == g.plans,
        g.next_id <= advance(g).next_id <= g.next_id + 2 * BOARD_WIDTH,
{
    let c = g.caravan_row + 2;
    let min_row = c - 1;
    let max_row = c + FORWARD_ROWS;
    let g1 = GameV { caravan_row: c as i32, tiles: kept_tiles(g.tiles, min_row), ..g };
    lemma_kept_board(g.tiles, min_row, g.caravan_row - 1, g.caravan_row + FORWARD_ROWS, g.next_id as int);
    assert(!has_row(g1.tiles, max_row - 1)) by {
        if has_row(g1.tiles, max_row - 1) {
            let k = choose|k: int| 0 <= k < g1.tiles.len() && g1.tiles[k].pos.row == max_row - 1;
            assert(g1.tiles[k].pos.row <= g.caravan_row + FORWARD_ROWS);
        }
    }
    let g2 = add_row(g1, (max_row - 1) as i32);
    lemma_add_row_board(g1, (max_row - 1) as i32, min_row, g.caravan_row + FORWARD_ROWS);
    assert(!has_row(g2.tiles, max_row)) by {
        if has_row(g2.tiles, max_row) {
            let k = choose|k: int| 0 <= k < g2.tiles.len() && g2.tiles[k].pos.row == max_row;
            assert(g2.tiles[k].pos.row <= max_row - 1);
        }
    }
    let g3 = add_row(g2, max_row as i32);
    lemma_add_row_board(g2, max_row as i32, min_row, max_row - 1);
    assert forall|col: int| 0 <= col < BOARD_WIDTH implies #[trigger] has_square(
        g3.tiles,
        max_row - 1,
        col,
    ) by {
        assert(has_square(g2.tiles, max_row - 1, col));
    }
    assert(advance(g).tiles == g3.tiles);
    assert(advance(g).caravan_row == c);
    assert(advance(g).next_id == g3.next_id);
    assert(advance(g).plans == g3.plans);
}

/// Laying rows `first .. first + n` on an empty board gives exactly those
/// rows, each full, with increasing ids.
pub proof fn lemma_add_rows_board(g: GameV, first: int, n: nat)
    requires
        g.tiles.len() == 0,
        g.next_id + BOARD_WIDTH * n <= u64::MAX,
        i32::MIN <= first,
        first + n <= i32::MAX,
    ensures
        ({
            let h = add_rows(g, first, n);
            &&& h.next_id == g.next_id + BOARD_WIDTH * n
            &&& h.caravan_row == g.caravan_row
            &&& tiles_within(h.tiles, first, first + n - 1)
            &&& ids_below(h.tiles, h.next_id as int)
            &&& squares_unique(h.tiles)
            &&& forall|r: int| first <= r < first + n ==> #[trigger] row_full(h.tiles, r)
        }),
    decreases n,
{
    if n > 0 {
        lemma_add_rows_board(g, first, (n - 1) as nat);
        let h1 = add_rows(g, first, (n - 1) as nat);
        let r = first + n - 1;
        assert(!has_row(h1.tiles, r)) by {
            if has_row(h1.tiles, r) {
                let k = choose|k: int| 0 <= k < h1.tiles.len() && h1.tiles[k].pos.row == r;
                assert(h1.tiles[k].pos.row <= first + n - 2);
            }
        }
        lemma_add_row_board(h1, r as i32, first, first + n - 2);
        let h = add_rows(g, first, n);
        assert(h == add_row(h1, r as i32));
        assert forall|q: int| first <= q < first + n implies #[trigger] row_full(h.tiles, q) by {
            if q < r {
                assert(row_full(h1.tiles, q));
                assert forall|col: int| 0 <= col < BOARD_WIDTH implies #[trigger] has_square(
                    h.tiles,
                    q,
                    col,
                ) by {
                    assert(has_square(h1.tiles, q, col));
                }
            }
        }
    }
}

/// Every wizard's turn of a day leaves the pending plans alone.
pub proof fn lemma_turns_keep_plans(g: GameV, plans: Map<u64, TurnPlan>, ids: Seq<u64>, k: nat)
    ensures
        resolve_turns(g, plans, ids, k).plans == g.plans,
    decreases k,
{
    if k > 0 {
        lemma_turns_keep_plans(g, plans, ids, (k - 1) as nat);
    }
}

} // verus!
