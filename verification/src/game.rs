//! The authoritative quest state and the operations the server performs on it.
use vstd::prelude::*;
use std::collections::HashMap;

use crate::cards::{card_def, card_title, TargetKind};
use crate::messages::{
    bad_target_msg, chat_msg, consequence_msg, day_begins_msg, hat_msg,
    plans_resolve_msg, equips_msg, event_done_msg, exhausted_msg,
    ill_msg, joins_msg, map_msg, moves_msg, no_energy_msg, no_event_msg, rest_msg,
    sealed_event_msg,
    opening_msg, opening_text, poisoned_msg, scrap_msg, sealed_tile_msg, step_msg, truth_msg,
    unknown_name_msg, ward_msg,
};
use crate::text::{text_of, trim_str};
use crate::invariants::{
    can_join, lemma_add_player_wf, lemma_chat_wf, lemma_new_game_wf, lemma_step_wf,
    lemma_submit_wf, lemma_wf_sound, wf,
};
use crate::frame::{ids_sorted, lemma_card_frame, lemma_sorted_index, lemma_turns_frame, same_spot};
use crate::model::{
    card_name, copy_cards, copy_statuses, copy_strings, copy_tiles, public_views, GameView,
    OwnPlayer, PublicPlayer, PublicPlayerV, movement_cost, opt_text, remove_card, lemma_remove_first_absent,
    ActionV, Card, CardAction, CardTarget, EventAction, EventKind, LogEntry, LogV, Player, PlayerV, Position,
    Reagents, Status, Tile, TurnPlan, log_views, player_views, BOARD_WIDTH, FORWARD_ROWS,
    MAX_ENERGY, QUEST_DAYS,
};
use crate::rules::{
    add_row, add_rows, add_tile, add_tiles, after_add_player, after_chat, after_step, can_afford,
    card_effect, clamp_target, counters_within, big_lim, attempt_event, event_outcome,
    resolve_move, lemma_index_stable_same, lemma_sound_after_move, resolve_turn, resolve_day,
    resolve_turns, after_submit, upkeep, upkeep_player, has_hat, hat_logs, age_seal, advance,
    kept_tiles, catch_up, has_row, tick_status, tick_statuses, status_lasts, sound_within,
    player_ids, lemma_upkeep_sound, is_first_unready_ai, public_of, public_roster, game_view,
    best_glory, with_glory, newest_visible, log_visible, paid, play_card, resolve_card, safe_lim, scrapped,
    sound, step_error_text, step_outcome, lemma_sound_set_paid, clock_ok, draw_card, event_for,
    id_cap, ids_per_day, is_first_player, is_first_tile, name_of, new_game, new_player,
    lemma_player_index_is, lemma_player_index_none, lemma_tile_index_is, lemma_tile_index_none,
    opening_state, player_index, set_player, set_tile, starting_hand, tile_index, with_log, GameV,
};

verus! {

broadcast use vstd::std_specs::hash::group_hash_axioms;

/// The state of one quest.
pub struct Game {
    day: u32,
    caravan_row: i32,
    next_id: u64,
    consequence_queue: Vec<EventKind>,
    plans: HashMap<u64, TurnPlan>,
    logs: Vec<LogEntry>,
    players: Vec<Player>,
    tiles: Vec<Tile>,
}

impl View for Game {
    type V = GameV;

    closed spec fn view(&self) -> GameV {
        GameV {
            day: self.day,
            caravan_row: self.caravan_row,
            next_id: self.next_id,
            queue: self.consequence_queue@,
            plans: self.plans@,
            logs: log_views(self.logs@),
            players: player_views(self.players@),
            tiles: self.tiles@,
        }
    }
}

proof fn lemma_views_update(ps: Seq<Player>, i: int, p: Player)
    requires
        0 <= i < ps.len(),
    ensures
        player_views(ps.update(i, p)) == player_views(ps).update(i, p@),
{
    assert(player_views(ps.update(i, p)) =~= player_views(ps).update(i, p@));
}

proof fn lemma_views_push(ps: Seq<Player>, p: Player)
    ensures
        player_views(ps.push(p)) == player_views(ps).push(p@),
{
    assert(player_views(ps.push(p)) =~= player_views(ps).push(p@));
}

proof fn lemma_logs_push(ls: Seq<LogEntry>, e: LogEntry)
    ensures
        log_views(ls.push(e)) == log_views(ls).push(e@),
{
    assert(log_views(ls.push(e)) =~= log_views(ls).push(e@));
}

fn tick_one(s: Status) -> (r: Status)
    ensures
        r == tick_status(s),
{
    match s {
        Status::FoodSickness { days } => Status::FoodSickness { days: days.saturating_sub(1) },
        Status::MildCurse { days } => Status::MildCurse { days: days.saturating_sub(1) },
        Status::AlarmWard => Status::AlarmWard,
    }
}

fn lasts(s: Status) -> (r: bool)
    ensures
        r == status_lasts(s),
{
    match s {
        Status::FoodSickness { days } => days > 0,
        Status::MildCurse { days } => days > 0,
        Status::AlarmWard => true,
    }
}

/// The night for one wizard; returns whether an equipped hat paid out.
fn upkeep_one(p: &mut Player) -> (hat: bool)
    requires
        counters_within(old(p)@, big_lim()),
    ensures
        final(p)@ == upkeep_player(old(p)@),
        hat == has_hat(old(p)@),
{
    let mut sick = false;
    let mut i: usize = 0;
    while i < p.statuses.len()
        invariant
            i <= p.statuses.len(),
            sick == (exists|k: int| 0 <= k < i && p.statuses@[k] is FoodSickness),
        decreases p.statuses.len() - i,
    {
        match p.statuses[i] {
            Status::FoodSickness { .. } => {
                sick = true;
            },
            _ => {},
        }
        i = i + 1;
    }
    let recovery = if sick {
        2
    } else {
        4
    };
    let e = p.energy + recovery;
    let mut next: Vec<Status> = Vec::new();
    let mut k: usize = 0;
    while k < p.statuses.len()
        invariant
            k <= p.statuses.len(),
            next@ == tick_statuses(p.statuses@.take(k as int)),
        decreases p.statuses.len() - k,
    {
        let t = tick_one(p.statuses[k]);
        if lasts(t) {
            next.push(t);
        }
        proof {
            let s = p.statuses@.take(k + 1);
            assert(s.drop_last() =~= p.statuses@.take(k as int));
        }
        k = k + 1;
    }
    assert(p.statuses@.take(p.statuses@.len() as int) =~= p.statuses@);
    let hat_name = text_of("Hat of Modest Prosperity");
    let mut hat = false;
    let mut j: usize = 0;
    while j < p.public_gear.len()
        invariant
            j <= p.public_gear.len(),
            hat_name@ == card_title(Card::HatOfModestProsperity),
            hat == (exists|m: int| 0 <= m < j && p.public_gear@[m]@ == hat_name@),
        decreases p.public_gear.len() - j,
    {
        if p.public_gear[j] == hat_name {
            hat = true;
        }
        j = j + 1;
    }
    proof {
        let gear = p.public_gear.deep_view();
        assert(hat == gear.contains(card_title(Card::HatOfModestProsperity))) by {
            if hat {
                let m = choose|m: int| 0 <= m < j && p.public_gear@[m]@ == hat_name@;
                assert(gear[m] == card_title(Card::HatOfModestProsperity));
            }
            if gear.contains(card_title(Card::HatOfModestProsperity)) {
                let m = choose|m: int| 0 <= m < gear.len() && gear[m] == card_title(Card::HatOfModestProsperity);
                assert(p.public_gear@[m]@ == hat_name@);
            }
        }
    }
    p.energy = if e < MAX_ENERGY {
        e
    } else {
        MAX_ENERGY
    };
    p.statuses = next;
    if hat {
        p.gold = p.gold + 1;
    }
    hat
}

/// Applies the reward of an event to a wizard.
fn apply_event(p: &mut Player, event: EventKind, day: u32)
    requires
        counters_within(old(p)@, big_lim() - 3),
        -10_000 <= old(p).pos.row <= 100_000,
        old(p).id < id_cap(),
        day <= 1000,
    ensures
        final(p)@ == event_outcome(old(p)@, event, day),
{
    match event {
        EventKind::Monster => {
            p.energy = p.energy - 2;
            p.glory = p.glory + 3;
            p.reagents.ichor = p.reagents.ichor + 1;
        },
        EventKind::Hunt => {
            p.energy = p.energy - 1;
            p.food = p.food + 3;
            p.glory = p.glory + 1;
        },
        EventKind::GuardedTreasure => {
            p.gold = p.gold + 3;
            p.glory = p.glory + 2;
            p.hand.push(deal_card(p.id + day as u64));
        },
        EventKind::CursedShrine => {
            p.glory = p.glory + 4;
            p.statuses.push(Status::MildCurse { days: 3 });
        },
        EventKind::Market => {
            p.gold = p.gold + 1;
            p.hand.push(deal_card(p.id * 7 + day as u64));
        },
        EventKind::Library => {
            p.reagents.quartz = p.reagents.quartz + 1;
            p.hand.push(Card::SpellOfTruth);
        },
        EventKind::Camp => {
            p.energy = MAX_ENERGY;
            p.food = p.food + 1;
        },
        EventKind::Trap => {
            p.energy = p.energy - 3;
            p.glory = p.glory + 1;
        },
        EventKind::Shortcut => {
            p.pos.row = p.pos.row + 1;
            p.glory = p.glory + 1;
        },
        EventKind::WitchRevenge => {
            p.statuses.push(Status::MildCurse { days: 4 });
            p.glory = p.glory + 1;
        },
        EventKind::BeggarThanks => {
            p.food = p.food + 2;
            p.gold = p.gold + 2;
            p.glory = p.glory + 2;
        },
    }
}

/// The square `t` forced onto the visible board.
pub(crate) fn clamp_position(t: Position, caravan_row: i32) -> (r: Position)
    requires
        0 <= caravan_row <= 10_000,
    ensures
        r == clamp_target(t, caravan_row as int),
{
    let lo = caravan_row - 1;
    let hi = caravan_row + FORWARD_ROWS;
    let row = if t.row < lo {
        lo
    } else if t.row > hi {
        hi
    } else {
        t.row
    };
    let col = if t.col < 0 {
        0
    } else if t.col > BOARD_WIDTH - 1 {
        BOARD_WIDTH - 1
    } else {
        t.col
    };
    Position { row, col }
}

/// The card dealt for a seed.
pub fn deal_card(seed: u64) -> (c: Card)
    ensures
        c == draw_card(seed),
{
    let k = seed % 7;
    if k == 0 {
        Card::PoisonedBreakfast
    } else if k == 1 {
        Card::SpellOfTruth
    } else if k == 2 {
        Card::StaffOfSparkAmplification
    } else if k == 3 {
        Card::HatOfModestProsperity
    } else if k == 4 {
        Card::SuspiciouslyHelpfulMap
    } else if k == 5 {
        Card::AlarmWard
    } else {
        Card::EventSeal
    }
}

fn deal_starting_hand(seed: u64) -> (h: Vec<Card>)
    ensures
        h@ == starting_hand(seed),
{
    let mut h: Vec<Card> = Vec::new();
    h.push(deal_card(seed));
    h.push(Card::PoisonedBreakfast);
    h.push(Card::AlarmWard);
    h.push(Card::EventSeal);
    assert(h@ =~= starting_hand(seed));
    h
}

/// The event generated for a square on a given day.
pub(crate) fn generate_event(day: u32, row: i32, col: i32) -> (e: EventKind)
    requires
        day <= 100_000,
        -100_000 <= row <= 100_000,
        0 <= col < BOARD_WIDTH,
    ensures
        e == event_for(day as int, row as int, col as int),
{
    let x: i32 = day as i32 + row * 3 + col * 5;
    let k = match x.checked_rem_euclid(9) {
        Some(k) => k,
        None => 0,
    };
    assert(k == (day as int + row * 3 + col * 5) % 9);
    if k == 0 {
        EventKind::Monster
    } else if k == 1 {
        EventKind::Hunt
    } else if k == 2 {
        EventKind::GuardedTreasure
    } else if k == 3 {
        EventKind::CursedShrine
    } else if k == 4 {
        EventKind::Market
    } else if k == 5 {
        EventKind::Library
    } else if k == 6 {
        EventKind::Camp
    } else if k == 7 {
        EventKind::Trap
    } else {
        EventKind::Shortcut
    }
}

impl Game {
    /// Whether another wizard can join without running out of identifiers.
    pub fn can_add_player(&self) -> (r: bool)
        requires
            wf(self@),
        ensures
            r == can_join(self@),
    {
        self.next_id <= 0x1000_0000_0000_0000 - 1 - 14 * (22 - self.day as u64)
    }

    /// Index of the first wizard with this id.
    fn find_player(&self, id: u64) -> (r: Option<usize>)
        ensures
            match r {
                Some(i) => is_first_player(self@.players, id, i as int) && player_index(
                    self@.players,
                    id,
                ) == i,
                None => player_index(self@.players, id) == -1,
            },
    {
        let mut i: usize = 0;
        while i < self.players.len()
            invariant
                i <= self.players.len(),
                forall|j: int| 0 <= j < i ==> self@.players[j].id != id,
            decreases self.players.len() - i,
        {
            if self.players[i].id == id {
                proof {
                    lemma_player_index_is(self@.players, id, i as int);
                }
                return Some(i);
            }
            i = i + 1;
        }
        proof {
            lemma_player_index_none(self@.players, id);
        }
        None
    }

    /// Index of the first tile at this position.
    fn find_tile(&self, pos: Position) -> (r: Option<usize>)
        ensures
            match r {
                Some(i) => is_first_tile(self@.tiles, pos, i as int) && tile_index(
                    self@.tiles,
                    pos,
                ) == i,
                None => tile_index(self@.tiles, pos) == -1,
            },
    {
        let mut i: usize = 0;
        while i < self.tiles.len()
            invariant
                i <= self.tiles.len(),
                forall|j: int| 0 <= j < i ==> self@.tiles[j].pos != pos,
            decreases self.tiles.len() - i,
        {
            if self.tiles[i].pos == pos {
                proof {
                    lemma_tile_index_is(self@.tiles, pos, i as int);
                }
                return Some(i);
            }
            i = i + 1;
        }
        proof {
            lemma_tile_index_none(self@.tiles, pos);
        }
        None
    }

    /// The name of the wizard with this id, or `Unknown wizard`.
    fn player_name(&self, id: u64) -> (r: String)
        ensures
            r@ == name_of(self@, id),
    {
        match self.find_player(id) {
            Some(i) => self.players[i].name.clone(),
            None => unknown_name_msg(),
        }
    }

    fn push_log(&mut self, text: String, to: Option<u64>)
        ensures
            final(self)@ == with_log(old(self)@, text@, to),
            final(self).players == old(self).players,
            final(self).tiles == old(self).tiles,
    {
        let entry = LogEntry { day: self.day, text, private_to: to };
        proof {
            lemma_logs_push(self.logs@, entry);
        }
        self.logs.push(entry);
    }

    fn public_log(&mut self, text: String)
        ensures
            final(self)@ == with_log(old(self)@, text@, None),
            final(self).players == old(self).players,
            final(self).tiles == old(self).tiles,
    {
        self.push_log(text, None);
    }

    /// Adds a log entry that only `player_id` can see.
    pub fn private_log(&mut self, player_id: u64, text: String)
        requires
            wf(old(self)@),
        ensures
            final(self)@ == with_log(old(self)@, text@, Some(player_id)),
            wf(final(self)@),
    {
        self.push_log(text, Some(player_id));
    }

    fn add_tile(&mut self, row: i32, col: i32)
        requires
            old(self)@.next_id < u64::MAX,
            old(self)@.day <= 100_000,
            -100_000 <= row <= 100_000,
            0 <= col < BOARD_WIDTH,
        ensures
            final(self)@ == add_tile(old(self)@, row, col),
    {
        let event = match self.consequence_queue.pop() {
            Some(e) => e,
            None => generate_event(self.day, row, col),
        };
        let id = self.next_id;
        self.next_id = self.next_id + 1;
        let tile = Tile {
            id,
            pos: Position { row, col },
            event,
            sealed_days: 0,
            completed_by: None,
        };
        self.tiles.push(tile);
        assert(self@ == add_tile(old(self)@, row, col));
    }

    fn add_row(&mut self, row: i32)
        requires
            old(self)@.next_id + BOARD_WIDTH <= u64::MAX,
            old(self)@.day <= 100_000,
            -100_000 <= row <= 100_000,
        ensures
            final(self)@ == add_row(old(self)@, row),
            final(self)@.next_id == old(self)@.next_id + BOARD_WIDTH,
            final(self)@.day == old(self)@.day,
            final(self)@.caravan_row == old(self)@.caravan_row,
            final(self)@.players == old(self)@.players,
            final(self)@.logs == old(self)@.logs,
            final(self)@.plans == old(self)@.plans,
    {
        let mut col: i32 = 0;
        while col < BOARD_WIDTH
            invariant
                0 <= col <= BOARD_WIDTH,
                self@ == add_tiles(old(self)@, row, col as nat),
                self@.next_id == old(self)@.next_id + col,
                self@.day == old(self)@.day,
                self@.caravan_row == old(self)@.caravan_row,
                self@.players == old(self)@.players,
                self@.logs == old(self)@.logs,
                self@.plans == old(self)@.plans,
                old(self)@.next_id + BOARD_WIDTH <= u64::MAX,
                old(self)@.day <= 100_000,
                -100_000 <= row <= 100_000,
            decreases BOARD_WIDTH - col,
        {
            self.add_tile(row, col);
            col = col + 1;
            assert(self@ == add_tiles(old(self)@, row, col as nat));
        }
    }

    /// A new quest on day 1 with the caravan at row 0 and the board laid out.
    pub fn new() -> (g: Game)
        ensures
            g@ == new_game(),
            wf(g@),
    {
        proof {
            lemma_new_game_wf();
        }
        let mut logs: Vec<LogEntry> = Vec::new();
        let first = LogEntry { day: 1, text: opening_msg(), private_to: None };
        logs.push(first);
        let mut game = Game {
            day: 1,
            caravan_row: 0,
            next_id: 1,
            consequence_queue: Vec::new(),
            plans: HashMap::new(),
            logs,
            players: Vec::new(),
            tiles: Vec::new(),
        };
        assert(game@.logs =~= seq![LogV { day: 1, text: opening_text(), private_to: None }]);
        assert(game@.players =~= Seq::<PlayerV>::empty());
        assert(game@ == opening_state());
        let mut row: i32 = -1;
        while row <= FORWARD_ROWS
            invariant
                -1 <= row <= FORWARD_ROWS + 1,
                game@ == add_rows(opening_state(), -1, (row + 1) as nat),
                game@.next_id == 1 + BOARD_WIDTH * (row + 1),
                game@.day == 1,
            decreases FORWARD_ROWS + 1 - row,
        {
            game.add_row(row);
            row = row + 1;
            assert(game@ == add_rows(opening_state(), -1, (row + 1) as nat));
        }
        game
    }

    /// The current day.
    pub fn day(&self) -> (r: u32)
        ensures
            r == self@.day,
    {
        self.day
    }

    /// The caravan's row.
    pub fn caravan_row(&self) -> (r: i32)
        ensures
            r == self@.caravan_row,
    {
        self.caravan_row
    }

    /// The number of wizards.
    pub fn player_count(&self) -> (r: usize)
        ensures
            r == self@.players.len(),
    {
        self.players.len()
    }

    /// Whether the wizard with this id exists and is played by the AI.
    pub fn is_ai_player(&self, player_id: u64) -> (r: bool)
        ensures
            r == (player_index(self@.players, player_id) >= 0 && self@.players[player_index(
                self@.players,
                player_id,
            )].is_ai),
    {
        match self.find_player(player_id) {
            Some(i) => self.players[i].is_ai,
            None => false,
        }
    }

    /// Adds a wizard at the caravan's row, column 3, with the starting
    /// resources and hand; returns its id.
    pub fn add_player(&mut self, name: String, is_ai: bool) -> (id: u64)
        requires
            wf(old(self)@),
            can_join(old(self)@),
        ensures
            id == old(self)@.next_id,
            final(self)@ == after_add_player(old(self)@, name@, is_ai),
            wf(final(self)@),
    {
        proof {
            lemma_add_player_wf(self@, name@, is_ai);
        }
        let id = self.next_id;
        self.next_id = self.next_id + 1;
        let log = joins_msg(name.as_str());
        let player = Player {
            id,
            name,
            is_ai,
            pos: Position { row: self.caravan_row, col: BOARD_WIDTH / 2 },
            energy: MAX_ENERGY,
            gold: 2,
            food: 3,
            glory: 0,
            reagents: Reagents { ash: 1, mooncap: 1, ichor: 1, quartz: 1 },
            hand: deal_starting_hand(id),
            statuses: Vec::new(),
            public_gear: Vec::new(),
        };
        proof {
            lemma_views_push(self.players@, player);
            assert(player@.public_gear =~= Seq::<Seq<char>>::empty());
            assert(player@ == new_player(id, player@.name, is_ai, old(self)@.caravan_row));
        }
        self.players.push(player);
        self.public_log(log);
        id
    }

    /// Table talk: the trimmed message goes to the public log under the
    /// speaker's name; a blank message is ignored.
    pub fn send_chat(&mut self, player_id: u64, message: String) -> (r: Result<(), String>)
        requires
            wf(old(self)@),
        ensures
            r is Ok,
            final(self)@ == after_chat(old(self)@, player_id, message@),
            wf(final(self)@),
    {
        proof {
            lemma_chat_wf(self@, player_id, message@);
        }
        let trimmed = trim_str(message.as_str());
        if trimmed.is_empty() {
            return Ok(());
        }
        let name = self.player_name(player_id);
        let text = chat_msg(name.as_str(), trimmed);
        self.public_log(text);
        Ok(())
    }

    /// Moves a wizard one square before the plan is submitted, paying its energy cost.
    pub fn move_step(&mut self, player_id: u64, target: Position) -> (r: Result<(), String>)
        requires
            wf(old(self)@),
        ensures
            wf(final(self)@),
            r is Ok <==> step_outcome(old(self)@, player_id, target) is Moved,
            r is Ok ==> final(self)@ == after_step(old(self)@, player_id, target),
            r matches Err(e) ==> e@ == step_error_text(step_outcome(old(self)@, player_id, target))
                && final(self)@ == old(self)@,
    {
        proof {
            lemma_wf_sound(self@);
            if step_outcome(self@, player_id, target) is Moved {
                lemma_step_wf(self@, player_id, target);
            }
        }
        if self.plans.contains_key(&player_id) {
            return Err(text_of("You already ended your turn for this day."));
        }
        let i = match self.find_player(player_id) {
            Some(i) => i,
            None => {
                return Err(text_of("Unknown player."));
            },
        };
        let start = self.players[i].pos;
        let target = clamp_position(target, self.caravan_row);
        let dr = if target.row >= start.row {
            target.row - start.row
        } else {
            start.row - target.row
        };
        let dc = if target.col >= start.col {
            target.col - start.col
        } else {
            start.col - target.col
        };
        if dr + dc != 1 {
            return Err(text_of("Move one step at a time."));
        }
        let cost = movement_cost(&start, &target, self.caravan_row);
        if self.players[i].energy < cost {
            return Err(no_energy_msg(cost));
        }
        let ghost ps0 = self.players@;
        let ghost g0 = self@;
        {
            let p = &mut self.players[i];
            p.energy = p.energy - cost;
            p.pos = target;
        }
        proof {
            lemma_views_update(ps0, i as int, self.players@[i as int]);
            assert(self@ == set_player(
                g0,
                i as int,
                PlayerV { energy: (g0.players[i as int].energy - cost) as i32, pos: target, ..g0.players[i as int] },
            ));
        }
        let text = step_msg(self.players[i].name.as_str(), target.row, target.col, cost);
        self.public_log(text);
        Ok(())
    }

    /// Scrapping a card from the hand for one Gold and one Ash.
    fn scrap_card(&mut self, player_id: u64, card: Card)
        requires
            sound(old(self)@),
        ensures
            final(self)@ == resolve_card(old(self)@, player_id, ActionV::Scrap { card }),
    {
        let i = match self.find_player(player_id) {
            Some(i) => i,
            None => {
                return;
            },
        };
        let ghost ps0 = self.players@;
        let ghost g0 = self@;
        let had = {
            let p = &mut self.players[i];
            let had = remove_card(&mut p.hand, &card);
            if had {
                p.gold = p.gold + 1;
                p.reagents.ash = p.reagents.ash + 1;
            }
            had
        };
        if !had {
            proof {
                lemma_remove_first_absent(ps0[i as int].hand@, card);
                lemma_views_update(ps0, i as int, self.players@[i as int]);
                assert(self.players@[i as int]@ == ps0[i as int]@);
                assert(player_views(self.players@) =~= player_views(ps0));
            }
            return;
        }
        proof {
            lemma_views_update(ps0, i as int, self.players@[i as int]);
            assert(self@ == set_player(g0, i as int, scrapped(g0.players[i as int], card)));
        }
        let text = scrap_msg(self.players[i].name.as_str(), card);
        self.public_log(text);
    }

    /// Whether the wizard at index `i` holds `card` and can pay for it.
    fn can_afford_at(&self, i: usize, card: Card) -> (r: bool)
        requires
            i < self@.players.len(),
        ensures
            r == can_afford(self@.players[i as int], card),
    {
        let def = card_def(card);
        let p = &self.players[i];
        let mut holds = false;
        let mut k: usize = 0;
        while k < p.hand.len()
            invariant
                k <= p.hand.len(),
                holds == (exists|j: int| 0 <= j < k && p.hand@[j] == card),
            decreases p.hand.len() - k,
        {
            if p.hand[k] == card {
                holds = true;
            }
            k = k + 1;
        }
        assert(holds == p.hand@.contains(card));
        holds && p.energy >= def.cost.energy && p.gold >= def.cost.gold && p.food >= def.cost.food
            && p.reagents.can_pay(&def.cost.reagents)
    }

    /// Pays for `card` out of the resources of the wizard at index `i`.
    fn pay_at(&mut self, i: usize, card: Card)
        requires
            i < old(self)@.players.len(),
            can_afford(old(self)@.players[i as int], card),
            counters_within(old(self)@.players[i as int], big_lim()),
        ensures
            final(self)@ == set_player(old(self)@, i as int, paid(old(self)@.players[i as int], card)),
    {
        let def = card_def(card);
        let ghost ps0 = self.players@;
        {
            let p = &mut self.players[i];
            p.energy = p.energy - def.cost.energy;
            p.gold = p.gold - def.cost.gold;
            p.food = p.food - def.cost.food;
            p.reagents.spend(&def.cost.reagents);
            if def.one_use || def.target == TargetKind::Untargeted {
                remove_card(&mut p.hand, &card);
            }
        }
        proof {
            lemma_views_update(ps0, i as int, self.players@[i as int]);
        }
        assert(self@ == set_player(old(self)@, i as int, paid(old(self)@.players[i as int], card)));
    }

    /// What a paid card does.
    fn card_effect(&mut self, player_id: u64, card: Card, target: CardTarget, question: Option<String>)
        requires
            sound(old(self)@),
        ensures
            final(self)@ == card_effect(old(self)@, player_id, card, target, opt_text(question)),
    {
        let ghost g0 = self@;
        match card {
            Card::PoisonedBreakfast => {
                if let CardTarget::Player(t) = target {
                    let found = self.find_player(t);
                    let mut ill: Option<String> = None;
                    if let Some(ti) = found {
                        let ghost ps0 = self.players@;
                        {
                            let p = &mut self.players[ti];
                            p.statuses.push(Status::FoodSickness { days: 1 });
                        }
                        proof {
                            lemma_views_update(ps0, ti as int, self.players@[ti as int]);
                        }
                        ill = Some(ill_msg(self.players[ti].name.as_str()));
                    }
                    self.push_log(poisoned_msg(), Some(t));
                    if let Some(text) = ill {
                        self.public_log(text);
                    }
                }
            },
            Card::SpellOfTruth => {
                if let CardTarget::Player(t) = target {
                    let caster = self.player_name(player_id);
                    let target_name = self.player_name(t);
                    let asked = match question {
                        Some(q) => {
                            if trim_str(q.as_str()).is_empty() {
                                text_of("What are you planning?")
                            } else {
                                q
                            }
                        },
                        None => text_of("What are you planning?"),
                    };
                    let text = truth_msg(caster.as_str(), target_name.as_str(), asked.as_str());
                    self.public_log(text);
                }
            },
            Card::StaffOfSparkAmplification | Card::HatOfModestProsperity => {
                if let Some(i) = self.find_player(player_id) {
                    let ghost ps0 = self.players@;
                    {
                        let p = &mut self.players[i];
                        p.public_gear.push(text_of(card_name(&card)));
                    }
                    proof {
                        lemma_views_update(ps0, i as int, self.players@[i as int]);
                        assert(self.players@[i as int].public_gear.deep_view() =~= ps0[i as int].public_gear.deep_view().push(card_title(card)));
                    }
                    let text = equips_msg(self.players[i].name.as_str(), card);
                    self.public_log(text);
                }
            },
            Card::SuspiciouslyHelpfulMap => {
                if let Some(i) = self.find_player(player_id) {
                    let ghost ps0 = self.players@;
                    {
                        let p = &mut self.players[i];
                        p.reagents.quartz = p.reagents.quartz + 1;
                    }
                    proof {
                        lemma_views_update(ps0, i as int, self.players@[i as int]);
                    }
                    let text = map_msg(self.players[i].name.as_str());
                    self.public_log(text);
                }
            },
            Card::AlarmWard => {
                if let Some(i) = self.find_player(player_id) {
                    let ghost ps0 = self.players@;
                    {
                        let p = &mut self.players[i];
                        p.statuses.push(Status::AlarmWard);
                    }
                    proof {
                        lemma_views_update(ps0, i as int, self.players@[i as int]);
                    }
                    let text = ward_msg(self.players[i].name.as_str());
                    self.public_log(text);
                }
            },
            Card::EventSeal => {
                if let CardTarget::Tile(pos) = target {
                    if let Some(ti) = self.find_tile(pos) {
                        let t = self.tiles[ti];
                        self.tiles.set(ti, Tile { sealed_days: 2, ..t });
                        let text = sealed_tile_msg(pos.row, pos.col);
                        self.public_log(text);
                    }
                }
            },
        }
    }

    /// Playing a card: a wrong target is reported, an unaffordable card does
    /// nothing, otherwise the cost is paid and the effect happens.
    fn play_card(&mut self, player_id: u64, card: Card, target: CardTarget, question: Option<String>)
        requires
            sound(old(self)@),
        ensures
            final(self)@ == play_card(old(self)@, player_id, card, target, opt_text(question)),
    {
        let def = card_def(card);
        let valid = match (def.target, target) {
            (TargetKind::Untargeted, CardTarget::Untargeted) => true,
            (TargetKind::Player, CardTarget::Player(_)) => true,
            (TargetKind::Tile, CardTarget::Tile(_)) => true,
            _ => false,
        };
        if !valid {
            let name = self.player_name(player_id);
            let text = bad_target_msg(name.as_str(), card);
            self.public_log(text);
            return;
        }
        let i = match self.find_player(player_id) {
            Some(i) => i,
            None => {
                return;
            },
        };
        if !self.can_afford_at(i, card) {
            return;
        }
        self.pay_at(i, card);
        proof {
            lemma_sound_set_paid(old(self)@, i as int, card);
        }
        self.card_effect(player_id, card, target, question);
    }

    /// The card part of a plan.
    fn resolve_card(&mut self, player_id: u64, action: CardAction)
        requires
            sound(old(self)@),
        ensures
            final(self)@ == resolve_card(old(self)@, player_id, action@),
    {
        match action {
            CardAction::NoCard => {},
            CardAction::Scrap { card } => self.scrap_card(player_id, card),
            CardAction::PlayCard { card, target, question } => {
                self.play_card(player_id, card, target, question)
            },
        }
    }

    /// Attempting the event at `pos`: missing, completed and sealed tiles are
    /// reported; otherwise the tile is completed and its reward applied.
    fn attempt_event(&mut self, player_id: u64, pos: Position)
        requires
            sound(old(self)@),
            player_index(old(self)@.players, player_id) >= 0 ==> counters_within(
                old(self)@.players[player_index(old(self)@.players, player_id)],
                big_lim() - 3,
            ),
        ensures
            final(self)@ == attempt_event(old(self)@, player_id, pos),
    {
        let name = self.player_name(player_id);
        let ti = match self.find_tile(pos) {
            Some(ti) => ti,
            None => {
                self.public_log(no_event_msg(name.as_str()));
                return;
            },
        };
        let t = self.tiles[ti];
        if t.completed_by.is_some() {
            self.public_log(no_event_msg(name.as_str()));
            return;
        }
        if t.sealed_days > 0 {
            self.public_log(sealed_event_msg(name.as_str()));
            return;
        }
        let event = t.event;
        let day = self.day;
        self.tiles.set(ti, Tile { completed_by: Some(player_id), ..t });
        let i = match self.find_player(player_id) {
            Some(i) => i,
            None => {
                return;
            },
        };
        let ghost ps0 = self.players@;
        let ghost g1 = self@;
        assert(g1.players[i as int] == old(self)@.players[i as int]);
        {
            let p = &mut self.players[i];
            apply_event(p, event, day);
        }
        proof {
            lemma_views_update(ps0, i as int, self.players@[i as int]);
        }
        self.public_log(event_done_msg(event, name.as_str()));
        if event == EventKind::Market && player_id % 2 == 0 {
            self.consequence_queue.push(EventKind::WitchRevenge);
            self.public_log(consequence_msg());
        }
        if event == EventKind::Camp {
            self.consequence_queue.push(EventKind::BeggarThanks);
        }
    }

    /// Moving to the planned square, then attempting, resting or ignoring.
    fn resolve_move(&mut self, player_id: u64, target: Position, action: EventAction, chat: String)
        requires
            sound(old(self)@),
            player_index(old(self)@.players, player_id) >= 0 ==> counters_within(
                old(self)@.players[player_index(old(self)@.players, player_id)],
                big_lim() - 3,
            ),
        ensures
            final(self)@ == resolve_move(old(self)@, player_id, target, action, chat@),
    {
        let i = match self.find_player(player_id) {
            Some(i) => i,
            None => {
                return;
            },
        };
        let start = self.players[i].pos;
        let t = clamp_position(target, self.caravan_row);
        let cost = movement_cost(&start, &t, self.caravan_row);
        let name = self.players[i].name.clone();
        if self.players[i].energy < cost {
            self.public_log(exhausted_msg(name.as_str(), t.row, t.col));
            return;
        }
        let ghost ps0 = self.players@;
        let ghost g0 = self@;
        {
            let p = &mut self.players[i];
            p.energy = p.energy - cost;
            p.pos = t;
        }
        proof {
            lemma_views_update(ps0, i as int, self.players@[i as int]);
            assert(self@ == set_player(
                g0,
                i as int,
                PlayerV { energy: (g0.players[i as int].energy - cost) as i32, pos: t, ..g0.players[i as int] },
            ));
        }
        let said = trim_str(chat.as_str());
        if !said.is_empty() {
            self.public_log(chat_msg(name.as_str(), said));
        }
        if cost > 0 {
            self.public_log(moves_msg(name.as_str(), t.row, t.col, cost));
        }
        match action {
            EventAction::Attempt => {
                proof {
                    lemma_index_stable_same(g0.players, self@.players, player_id);
                    lemma_sound_after_move(g0, self@, i as int, t, cost as int);
                }
                self.attempt_event(player_id, t);
            },
            EventAction::Rest => {
                let ghost ps1 = self.players@;
                let ghost g1 = self@;
                assert(player_views(ps1).len() == ps1.len());
                assert(player_views(ps1)[i as int] == ps1[i as int]@);
                {
                    let p = &mut self.players[i];
                    let e = p.energy + 3;
                    p.energy = if e < MAX_ENERGY {
                        e
                    } else {
                        MAX_ENERGY
                    };
                }
                proof {
                    lemma_views_update(ps1, i as int, self.players@[i as int]);
                }
                self.public_log(rest_msg(name.as_str()));
            },
            EventAction::Ignore => {},
        }
    }

    /// One wizard's turn: the card action, then the movement and event.
    fn resolve_turn(&mut self, player_id: u64, plan: TurnPlan)
        requires
            sound(old(self)@),
            player_index(old(self)@.players, player_id) >= 0 ==> counters_within(
                old(self)@.players[player_index(old(self)@.players, player_id)],
                2 * safe_lim(),
            ),
            player_index(old(self)@.players, player_id) < old(self)@.players.len(),
        ensures
            final(self)@ == resolve_turn(old(self)@, player_id, plan),
    {
        let ghost g0 = self@;
        let ghost whole = plan;
        let TurnPlan { target, event_action, card_action, chat } = plan;
        proof {
            lemma_card_frame(g0, player_id, card_action@, 2 * safe_lim());
            lemma_index_stable_same(
                g0.players,
                resolve_card(g0, player_id, card_action@).players,
                player_id,
            );
        }
        self.resolve_card(player_id, card_action);
        self.resolve_move(player_id, target, event_action, chat);
    }

    fn has_row(&self, row: i32) -> (r: bool)
        ensures
            r == has_row(self@.tiles, row as int),
    {
        let mut i: usize = 0;
        while i < self.tiles.len()
            invariant
                i <= self.tiles.len(),
                forall|j: int| 0 <= j < i ==> self@.tiles[j].pos.row != row,
            decreases self.tiles.len() - i,
        {
            if self.tiles[i].pos.row == row {
                return true;
            }
            i = i + 1;
        }
        false
    }

    /// The night: every wizard recovers, statuses age, hats pay out, seals weaken.
    fn upkeep(&mut self)
        requires
            sound(old(self)@),
        ensures
            final(self)@ == upkeep(old(self)@),
    {
        let ghost g0 = self@;
        let n = self.players.len();
        let mut i: usize = 0;
        while i < n
            invariant
                0 <= i <= n,
                n == g0.players.len(),
                sound(g0),
                self@.day == g0.day,
                self@.caravan_row == g0.caravan_row,
                self@.next_id == g0.next_id,
                self@.queue == g0.queue,
                self@.plans == g0.plans,
                self@.tiles == g0.tiles,
                self@.players.len() == n,
                self.players@.len() == n,
                forall|j: int| 0 <= j < i ==> #[trigger] self@.players[j] == upkeep_player(g0.players[j]),
                forall|j: int| i <= j < n ==> #[trigger] self@.players[j] == g0.players[j],
                self@.logs == g0.logs + hat_logs(g0.players.take(i as int), g0.day),
            decreases n - i,
        {
            let ghost ps0 = self.players@;
            assert(player_views(ps0)[i as int] == ps0[i as int]@);
            let hat = {
                let p = &mut self.players[i];
                upkeep_one(p)
            };
            proof {
                lemma_views_update(ps0, i as int, self.players@[i as int]);
            }
            let ghost before_logs = self@.logs;
            if hat {
                let text = hat_msg(self.players[i].name.as_str());
                self.public_log(text);
            }
            proof {
                let t = g0.players.take(i + 1);
                assert(t.drop_last() =~= g0.players.take(i as int));
                assert(t.last() == g0.players[i as int]);
                assert(self@.logs =~= g0.logs + hat_logs(t, g0.day));
            }
            i = i + 1;
        }
        assert(g0.players.take(n as int) =~= g0.players);
        let m = self.tiles.len();
        let mut k: usize = 0;
        while k < m
            invariant
                0 <= k <= m,
                m == g0.tiles.len(),
                self.tiles@.len() == m,
                forall|j: int| 0 <= j < k ==> #[trigger] self.tiles@[j] == age_seal(g0.tiles[j]),
                forall|j: int| k <= j < m ==> #[trigger] self.tiles@[j] == g0.tiles[j],
                self@.day == g0.day,
                self@.caravan_row == g0.caravan_row,
                self@.next_id == g0.next_id,
                self@.queue == g0.queue,
                self@.plans == g0.plans,
                self@.players == g0.players.map_values(|p: PlayerV| upkeep_player(p)),
                self@.logs == g0.logs + hat_logs(g0.players, g0.day),
            decreases m - k,
        {
            let t = self.tiles[k];
            self.tiles.set(k, Tile { sealed_days: t.sealed_days.saturating_sub(1), ..t });
            k = k + 1;
        }
        assert(self@.tiles =~= g0.tiles.map_values(|t: Tile| age_seal(t)));
    }

    /// The caravan moves two rows: tiles behind the new back row and completed
    /// tiles go, missing front rows are laid, stragglers are pulled forward.
    fn advance(&mut self)
        requires
            sound(old(self)@),
            old(self)@.caravan_row <= 9_000,
        ensures
            final(self)@ == advance(old(self)@),
            final(self)@.day == old(self)@.day,
    {
        let ghost g0 = self@;
        self.caravan_row = self.caravan_row + 2;
        let min_row = self.caravan_row - 1;
        let max_row = self.caravan_row + FORWARD_ROWS;
        let mut kept: Vec<Tile> = Vec::new();
        let mut i: usize = 0;
        while i < self.tiles.len()
            invariant
                i <= self.tiles.len(),
                self.tiles@ == g0.tiles,
                kept@ == kept_tiles(g0.tiles.take(i as int), min_row as int),
            decreases self.tiles.len() - i,
        {
            let t = self.tiles[i];
            if t.pos.row >= min_row && t.completed_by.is_none() {
                kept.push(t);
            }
            proof {
                let s = g0.tiles.take(i + 1);
                assert(s.drop_last() =~= g0.tiles.take(i as int));
            }
            i = i + 1;
        }
        assert(g0.tiles.take(g0.tiles.len() as int) =~= g0.tiles);
        self.tiles = kept;
        if !self.has_row(max_row - 1) {
            self.add_row(max_row - 1);
        }
        if !self.has_row(max_row) {
            self.add_row(max_row);
        }
        let ghost g3 = self@;
        let n = self.players.len();
        let mut k: usize = 0;
        while k < n
            invariant
                0 <= k <= n,
                n == g3.players.len(),
                g3.players == g0.players,
                sound(g0),
                min_row == g0.caravan_row + 1,
                self.players@.len() == n,
                self@.day == g3.day,
                self@.caravan_row == g3.caravan_row,
                self@.next_id == g3.next_id,
                self@.queue == g3.queue,
                self@.plans == g3.plans,
                self@.tiles == g3.tiles,
                self@.logs == g3.logs,
                forall|j: int| 0 <= j < k ==> #[trigger] self@.players[j] == catch_up(g3.players[j], min_row as int),
                forall|j: int| k <= j < n ==> #[trigger] self@.players[j] == g3.players[j],
            decreases n - k,
        {
            let ghost ps0 = self.players@;
            assert(player_views(ps0)[k as int] == ps0[k as int]@);
            assert(counters_within(g0.players[k as int], big_lim()));
            assert(self@.players[k as int] == g0.players[k as int]);
            assert(ps0[k as int].energy == g0.players[k as int].energy);
            {
                let p = &mut self.players[k];
                if p.pos.row < min_row {
                    p.pos.row = min_row;
                    let e = p.energy - 1;
                    p.energy = if e > 0 {
                        e
                    } else {
                        0
                    };
                }
            }
            proof {
                lemma_views_update(ps0, k as int, self.players@[k as int]);
            }
            k = k + 1;
        }
        assert(self@.players =~= g3.players.map_values(|p: PlayerV| catch_up(p, min_row as int)));
    }

    /// Resolves the day once every wizard has a plan.
    fn resolve_day(&mut self)
        requires
            sound_within(old(self)@, safe_lim()),
            ids_sorted(old(self)@.players),
            old(self)@.caravan_row <= 9_000,
        ensures
            final(self)@ == resolve_day(old(self)@),
    {
        let ghost g0 = self@;
        let mut plans: HashMap<u64, TurnPlan> = HashMap::new();
        std::mem::swap(&mut plans, &mut self.plans);
        let ghost plans0 = plans@;
        assert(plans0 == g0.plans);
        let text = plans_resolve_msg(self.day);
        self.public_log(text);
        let ghost g1 = self@;
        assert(g1.players == g0.players);
        let n = self.players.len();
        let mut k: usize = 0;
        while k < n
            invariant
                0 <= k <= n,
                n == g1.players.len(),
                sound_within(g1, safe_lim()),
                ids_sorted(g1.players),
                self@ == resolve_turns(g1, plans0, player_ids(g1.players), k as nat),
                forall|j: int|
                    k <= j < n ==> (#[trigger] plans@.contains_key(g1.players[j].id)
                        == plans0.contains_key(g1.players[j].id)) && (plans0.contains_key(
                        g1.players[j].id,
                    ) ==> plans@[g1.players[j].id] == plans0[g1.players[j].id]),
            decreases n - k,
        {
            proof {
                lemma_turns_frame(g1, plans0, k as nat, safe_lim());
                assert(player_views(self.players@).len() == self.players@.len());
                assert(player_views(self.players@)[k as int] == self.players@[k as int]@);
            }
            let id = self.players[k].id;
            assert(id == g1.players[k as int].id);
            assert(player_ids(g1.players)[k as int] == id);
            let removed = plans.remove(&id);
            match removed {
                Some(plan) => {
                    proof {
                        lemma_sorted_index(g1.players, k as int);
                        lemma_index_stable_same(g1.players, self@.players, id);
                        assert(same_spot(self@.players[k as int], g1.players[k as int]));
                    }
                    self.resolve_turn(id, plan);
                },
                None => {},
            }
            proof {
                assert forall|j: int| k + 1 <= j < n implies (#[trigger] plans@.contains_key(
                    g1.players[j].id,
                ) == plans0.contains_key(g1.players[j].id)) && (plans0.contains_key(
                    g1.players[j].id,
                ) ==> plans@[g1.players[j].id] == plans0[g1.players[j].id]) by {
                    assert(g1.players[k as int].id < g1.players[j].id);
                }
            }
            k = k + 1;
        }
        proof {
            lemma_turns_frame(g1, plans0, n as nat, safe_lim());
            lemma_upkeep_sound(self@, big_lim());
        }
        let ghost g2 = self@;
        assert(g2.day == g1.day);
        self.upkeep();
        self.advance();
        assert(self@.day == g0.day);
        let text = day_begins_msg(self.day);
        self.public_log(text);
        self.day = self.day + 1;
    }

    /// Records a wizard's plan for the day; when every wizard has a plan the
    /// day resolves. Refused after the last day and for unknown wizards.
    pub fn submit_plan(&mut self, player_id: u64, plan: TurnPlan) -> (r: Result<(), String>)
        requires
            wf(old(self)@),
        ensures
            wf(final(self)@),
            old(self)@.day > QUEST_DAYS ==> (r matches Err(e) && e@ == "The quest is over."@)
                && final(self)@ == old(self)@,
            old(self)@.day <= QUEST_DAYS && player_index(old(self)@.players, player_id) < 0 ==> (r matches Err(
                e,
            ) && e@ == "Unknown player."@) && final(self)@ == old(self)@,
            old(self)@.day <= QUEST_DAYS && player_index(old(self)@.players, player_id) >= 0 ==> r is Ok
                && final(self)@ == after_submit(old(self)@, player_id, plan),
    {
        proof {
            lemma_wf_sound(self@);
        }
        if self.day > QUEST_DAYS {
            return Err(text_of("The quest is over."));
        }
        if self.find_player(player_id).is_none() {
            return Err(text_of("Unknown player."));
        }
        proof {
            lemma_submit_wf(self@, player_id, plan);
        }
        self.plans.insert(player_id, plan);
        if self.plans.len() == self.players.len() && self.players.len() > 0 {
            self.resolve_day();
        }
        Ok(())
    }

    /// The first AI wizard (in id order) that has not submitted a plan.
    pub fn next_unready_ai(&self) -> (r: Option<u64>)
        ensures
            match r {
                Some(id) => exists|i: int| is_first_unready_ai(self@, i) && self@.players[i].id == id,
                None => forall|i: int|
                    0 <= i < self@.players.len() ==> !(self@.players[i].is_ai
                        && !self@.plans.contains_key(self@.players[i].id)),
            },
    {
        let mut i: usize = 0;
        assert(player_views(self.players@).len() == self.players@.len());
        while i < self.players.len()
            invariant
                i <= self.players.len(),
                self@.players.len() == self.players@.len(),
                forall|j: int|
                    0 <= j < i ==> !(self@.players[j].is_ai && !self@.plans.contains_key(
                        self@.players[j].id,
                    )),
            decreases self.players.len() - i,
        {
            assert(player_views(self.players@)[i as int] == self.players@[i as int]@);
            if self.players[i].is_ai && !self.plans.contains_key(&self.players[i].id) {
                assert(is_first_unready_ai(self@, i as int));
                return Some(self.players[i].id);
            }
            i = i + 1;
        }
        None
    }

    fn public_player(&self, i: usize) -> (r: PublicPlayer)
        requires
            i < self@.players.len(),
        ensures
            r@ == public_of(self@.players[i as int], self@.plans.contains_key(self@.players[i as int].id)),
    {
        assert(player_views(self.players@).len() == self.players@.len());
        assert(player_views(self.players@)[i as int] == self.players@[i as int]@);
        let p = &self.players[i];
        PublicPlayer {
            id: p.id,
            name: p.name.clone(),
            is_ai: p.is_ai,
            pos: p.pos,
            energy: p.energy,
            gold: p.gold,
            food: p.food,
            glory: p.glory,
            statuses: copy_statuses(&p.statuses),
            public_gear: copy_strings(&p.public_gear),
            ready: self.plans.contains_key(&p.id),
        }
    }

    /// What `viewer_id` is shown: the public roster, the board, the viewer's
    /// own hand and reagents, the newest visible log entries and, after the
    /// last day, the winners.
    pub fn view_for(&self, viewer_id: Option<u64>) -> (v: GameView)
        ensures
            v@ == game_view(self@, viewer_id),
    {
        let ghost g = self@;
        let n = self.players.len();
        assert(player_views(self.players@).len() == self.players@.len());
        let mut players: Vec<PublicPlayer> = Vec::new();
        let mut i: usize = 0;
        while i < n
            invariant
                i <= n,
                n == g.players.len(),
                g == self@,
                players@.len() == i,
                forall|j: int| 0 <= j < i ==> #[trigger] players@[j]@ == public_roster(g)[j],
            decreases n - i,
        {
            let pp = self.public_player(i);
            players.push(pp);
            i = i + 1;
        }
        assert(public_views(players@) =~= public_roster(g));
        let own = match viewer_id {
            Some(id) => match self.find_player(id) {
                Some(k) => {
                    assert(player_views(self.players@)[k as int] == self.players@[k as int]@);
                    Some(
                        OwnPlayer {
                            id,
                            hand: copy_cards(&self.players[k].hand),
                            reagents: self.players[k].reagents,
                        },
                    )
                },
                None => None,
            },
            None => None,
        };
        let mut winners: Vec<PublicPlayer> = Vec::new();
        if self.day > QUEST_DAYS && n > 0 {
            let ghost ps = public_roster(g);
            let mut best = players[0].glory;
            let mut k: usize = 1;
            assert(ps.take(1).drop_last() =~= Seq::<PublicPlayerV>::empty());
            while k < n
                invariant
                    1 <= k <= n,
                    players@.len() == n,
                    ps.len() == n,
                    forall|j: int| 0 <= j < n ==> #[trigger] players@[j]@ == ps[j],
                    best == best_glory(ps.take(k as int)),
                decreases n - k,
            {
                assert(players@[k as int]@ == ps[k as int]);
                if players[k].glory > best {
                    best = players[k].glory;
                }
                proof {
                    let t = ps.take(k + 1);
                    assert(t.drop_last() =~= ps.take(k as int));
                    assert(t.last() == ps[k as int]);
                    assert(t.len() >= 2);
                    assert(best_glory(t) == if best_glory(t.drop_last()) >= t.last().glory {
                        best_glory(t.drop_last())
                    } else {
                        t.last().glory
                    });
                }
                k = k + 1;
            }
            assert(ps.take(n as int) =~= ps);
            let mut m: usize = 0;
            while m < n
                invariant
                    m <= n,
                    players@.len() == n,
                    ps.len() == n,
                    forall|j: int| 0 <= j < n ==> #[trigger] players@[j]@ == ps[j],
                    public_views(winners@) == with_glory(ps.take(m as int), best),
                decreases n - m,
            {
                let ghost before = winners@;
                assert(players@[m as int]@ == ps[m as int]);
                if players[m].glory == best {
                    winners.push(players[m].duplicate());
                    assert(public_views(winners@) =~= public_views(before).push(ps[m as int]));
                } else {
                    assert(winners@ == before);
                }
                proof {
                    let t = ps.take(m + 1);
                    assert(t.drop_last() =~= ps.take(m as int));
                    assert(t.last() == ps[m as int]);
                    assert(with_glory(t, best) == with_glory(t.drop_last(), best) + if t.last().glory
                        == best {
                        seq![t.last()]
                    } else {
                        Seq::empty()
                    });
                }
                m = m + 1;
            }
            assert(ps.take(n as int) =~= ps);
        } else {
            assert(public_views(winners@) =~= Seq::<PublicPlayerV>::empty());
        }
        let mut logs: Vec<LogEntry> = Vec::new();
        let mut j: usize = self.logs.len();
        assert(log_views(self.logs@).len() == self.logs@.len());
        while j > 0
            invariant
                j <= self.logs@.len(),
                g == self@,
                log_views(logs@) == newest_visible(g.logs, viewer_id, j as nat),
            decreases j,
        {
            j = j - 1;
            let ghost before = logs@;
            assert(log_views(self.logs@)[j as int] == self.logs@[j as int]@);
            let e = &self.logs[j];
            let visible = match e.private_to {
                None => true,
                Some(to) => match viewer_id {
                    Some(v) => to == v,
                    None => false,
                },
            };
            if visible {
                logs.push(e.duplicate());
                proof {
                    lemma_logs_push(before, logs@.last());
                    assert(logs@ == before.push(logs@.last()));
                }
            }
        }
        let ghost all = log_views(logs@);
        if logs.len() > 80 {
            logs.truncate(80);
            assert(log_views(logs@) =~= all.take(80));
        }
        GameView {
            viewer_id,
            day: self.day,
            caravan_row: self.caravan_row,
            width: BOARD_WIDTH,
            players,
            tiles: copy_tiles(&self.tiles),
            own,
            logs,
            winners,
        }
    }
}

} // verus!
