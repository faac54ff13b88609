//! What the server does with a client's command: the game operation it
//! performs, the reply it sends, and when AI wizards must be asked to plan.
use vstd::prelude::*;

use crate::frame::ids_sorted;
use crate::game::Game;
use crate::invariants::{can_join, wf};
use crate::messages::{ai_intro_msg, ai_intro_text, ai_name_msg, ai_name_text};
use crate::model::{ClientCommand, GameView, TurnPlan, QUEST_DAYS};
use crate::rules::{
    after_add_player, after_chat, after_step, after_submit, game_view, is_first_unready_ai,
    player_index, step_error_text, step_outcome, with_log, GameV, StepOutcome,
};
use crate::text::{take_chars, take_chars_of, text_of, trim_str, trim_text};

verus! {

/// The name a joining wizard goes by: trimmed and cut to 32 characters, or
/// `Unnamed Wizard` when blank.
pub open spec fn clean_name_text(name: Seq<char>) -> Seq<char> {
    let t = trim_text(name);
    if t.len() == 0 {
        "Unnamed Wizard"@
    } else {
        take_chars(t, 32)
    }
}

/// The name a joining wizard goes by.
pub fn clean_name(name: &str) -> (r: String)
    ensures
        r@ == clean_name_text(name@),
{
    let clean = trim_str(name);
    if clean.is_empty() {
        text_of("Unnamed Wizard")
    } else {
        take_chars_of(clean, 32)
    }
}

/// With strictly increasing ids below `next_id`, there are at most `next_id` wizards.
pub proof fn lemma_roster_size(g: GameV)
    requires
        wf(g),
    ensures
        g.players.len() <= g.next_id,
{
    if g.players.len() > 0 {
        lemma_ids_at_least_index(g.players, g.players.len() - 1);
        assert(g.players[g.players.len() - 1].id < g.next_id);
    }
}

proof fn lemma_ids_at_least_index(ps: Seq<crate::model::PlayerV>, k: int)
    requires
        ids_sorted(ps),
        0 <= k < ps.len(),
    ensures
        ps[k].id >= k,
    decreases k,
{
    if k > 0 {
        lemma_ids_at_least_index(ps, k - 1);
        assert(ps[k - 1].id < ps[k].id);
    }
}

/// The state after an AI wizard joins as `AI Wizard <n>`, with its private welcome.
pub open spec fn after_add_ai(g: GameV) -> GameV {
    let g1 = after_add_player(g, ai_name_text((g.players.len() + 1) as nat), true);
    with_log(g1, ai_intro_text(), Some(g.next_id))
}

impl Game {
    /// A human wizard joins under a cleaned name; returns its id.
    pub fn join_human(&mut self, name: &str) -> (id: u64)
        requires
            wf(old(self)@),
            can_join(old(self)@),
        ensures
            id == old(self)@.next_id,
            final(self)@ == after_add_player(old(self)@, clean_name_text(name@), false),
            wf(final(self)@),
    {
        self.add_player(clean_name(name), false)
    }

    /// An AI wizard joins as `AI Wizard <n>`, `n` one more than the number of
    /// wizards, and is told privately that it is an AI; returns its id.
    pub fn add_ai_player(&mut self) -> (id: u64)
        requires
            wf(old(self)@),
            can_join(old(self)@),
        ensures
            id == old(self)@.next_id,
            final(self)@ == after_add_ai(old(self)@),
            wf(final(self)@),
    {
        proof {
            lemma_roster_size(self@);
        }
        let number = self.player_count() as u64 + 1;
        let id = self.add_player(ai_name_msg(number), true);
        self.private_log(id, ai_intro_msg());
        id
    }
}

/// The next AI wizard to ask for a plan while the day `start_day` lasts.
pub fn next_auto_ai(game: &Game, start_day: u32) -> (r: Option<u64>)
    ensures
        game@.day != start_day ==> r is None,
        game@.day == start_day ==> match r {
            Some(id) => exists|i: int|
                is_first_unready_ai(game@, i) && game@.players[i].id == id,
            None => forall|i: int|
                0 <= i < game@.players.len() ==> !(game@.players[i].is_ai
                    && !game@.plans.contains_key(game@.players[i].id)),
        },
{
    if game.day() != start_day {
        None
    } else {
        game.next_unready_ai()
    }
}

/// Records a plan and answers with the requester's view, or the refusal.
pub fn submit_and_view(game: &mut Game, viewer_id: Option<u64>, player_id: u64, plan: TurnPlan) -> (r:
    Result<GameView, String>)
    requires
        wf(old(game)@),
    ensures
        wf(final(game)@),
        old(game)@.day > QUEST_DAYS ==> (r matches Err(e) && e@ == "The quest is over."@)
            && final(game)@ == old(game)@,
        old(game)@.day <= QUEST_DAYS && player_index(old(game)@.players, player_id) < 0 ==> (r matches Err(
            e,
        ) && e@ == "Unknown player."@) && final(game)@ == old(game)@,
        old(game)@.day <= QUEST_DAYS && player_index(old(game)@.players, player_id) >= 0 ==> (r matches Ok(
            v,
        ) && v@ == game_view(final(game)@, viewer_id)) && final(game)@ == after_submit(
            old(game)@,
            player_id,
            plan,
        ),
{
    match game.submit_plan(player_id, plan) {
        Ok(()) => Ok(game.view_for(viewer_id)),
        Err(e) => Err(e),
    }
}

/// What the server does next with a command.
pub enum CommandStep {
    /// Send this reply; when `changed`, watchers are told the quest changed.
    Reply { result: Result<GameView, String>, changed: bool },
    /// A plan was accepted: watchers are told, AI wizards plan for `start_day`
    /// (see `next_auto_ai`), then the requester gets a fresh view.
    PlanAccepted { start_day: u32 },
    /// Ask the AI wizard `player_id` for a plan from `view`, then submit it
    /// with `submit_and_view`.
    AskAi { player_id: u64, view: GameView },
}

/// The reply is `Ok` with the viewer's view of `g` and watchers are told.
pub open spec fn replies_view(step: CommandStep, g: GameV, viewer: Option<u64>) -> bool {
    step matches CommandStep::Reply { result: Ok(v), changed: true } && v@ == game_view(g, viewer)
}

/// The reply is this refusal and nothing changed.
pub open spec fn replies_error(step: CommandStep, text: Seq<char>) -> bool {
    step matches CommandStep::Reply { result: Err(e), changed: false } && e@ == text
}

/// Performs the part of a command that needs no AI: joining, adding an AI
/// wizard, table talk, single steps and plans; asking an AI for its plan is
/// handed back to the caller.
pub fn apply_command(game: &mut Game, viewer_id: Option<u64>, command: ClientCommand) -> (step:
    CommandStep)
    requires
        wf(old(game)@),
        (command is JoinHuman || command is AddAi) ==> can_join(old(game)@),
    ensures
        wf(final(game)@),
        match command {
            ClientCommand::JoinHuman { name } => final(game)@ == after_add_player(
                old(game)@,
                clean_name_text(name@),
                false,
            ) && replies_view(step, final(game)@, Some(old(game)@.next_id)),
            ClientCommand::AddAi => final(game)@ == after_add_ai(old(game)@) && replies_view(
                step,
                final(game)@,
                viewer_id,
            ),
            ClientCommand::SendChat { player_id, message } => final(game)@ == after_chat(
                old(game)@,
                player_id,
                message@,
            ) && replies_view(step, final(game)@, viewer_id),
            ClientCommand::MoveStep { player_id, target } => if step_outcome(
                old(game)@,
                player_id,
                target,
            ) is Moved {
                final(game)@ == after_step(old(game)@, player_id, target) && replies_view(
                    step,
                    final(game)@,
                    viewer_id,
                )
            } else {
                final(game)@ == old(game)@ && replies_error(
                    step,
                    step_error_text(step_outcome(old(game)@, player_id, target)),
                )
            },
            ClientCommand::SubmitPlan { player_id, plan } => if old(game)@.day > QUEST_DAYS {
                final(game)@ == old(game)@ && replies_error(step, "The quest is over."@)
            } else if player_index(old(game)@.players, player_id) < 0 {
                final(game)@ == old(game)@ && replies_error(step, "Unknown player."@)
            } else {
                final(game)@ == after_submit(old(game)@, player_id, plan)
                    && step == CommandStep::PlanAccepted { start_day: final(game)@.day }
            },
            ClientCommand::AskAiTurn { player_id } => final(game)@ == old(game)@ && if player_index(
                old(game)@.players,
                player_id,
            ) >= 0 && old(game)@.players[player_index(old(game)@.players, player_id)].is_ai {
                step matches CommandStep::AskAi { player_id: p, view } && p == player_id && view@
                    == game_view(old(game)@, Some(player_id))
            } else {
                replies_error(step, "That player is not an AI."@)
            },
        },
{
    match command {
        ClientCommand::JoinHuman { name } => {
            let id = game.join_human(name.as_str());
            CommandStep::Reply { result: Ok(game.view_for(Some(id))), changed: true }
        },
        ClientCommand::AddAi => {
            game.add_ai_player();
            CommandStep::Reply { result: Ok(game.view_for(viewer_id)), changed: true }
        },
        ClientCommand::SendChat { player_id, message } => {
            let _ = game.send_chat(player_id, message);
            CommandStep::Reply { result: Ok(game.view_for(viewer_id)), changed: true }
        },
        ClientCommand::MoveStep { player_id, target } => match game.move_step(player_id, target) {
            Ok(()) => CommandStep::Reply { result: Ok(game.view_for(viewer_id)), changed: true },
            Err(e) => CommandStep::Reply { result: Err(e), changed: false },
        },
        ClientCommand::SubmitPlan { player_id, plan } => match game.submit_plan(player_id, plan) {
            Ok(()) => CommandStep::PlanAccepted { start_day: game.day() },
            Err(e) => CommandStep::Reply { result: Err(e), changed: false },
        },
        ClientCommand::AskAiTurn { player_id } => {
            if game.is_ai_player(player_id) {
                CommandStep::AskAi { player_id, view: game.view_for(Some(player_id)) }
            } else {
                CommandStep::Reply {
                    result: Err(text_of("That player is not an AI.")),
                    changed: false,
                }
            }
        },
    }
}

} // verus!
