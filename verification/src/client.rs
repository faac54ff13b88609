//! Decisions the client makes while a wizard plans: which target a card
//! takes, what a square costs to reach, and whether a single step is allowed.
use vstd::prelude::*;

use crate::cards::{card_def, card_target_kind, TargetKind};
use crate::model::{
    ActionV, CardAction, CardTarget, Card, EventAction, PlanV, Position, PublicPlayer, TurnPlan,
    move_cost, move_cost_fits, movement_cost, step_distance,
};

verus! {

/// The target a card takes from the current selections.
pub open spec fn chosen_target(card: Card, target_player: Option<u64>, selected: Position) -> CardTarget {
    match card_target_kind(card) {
        TargetKind::Untargeted => CardTarget::Untargeted,
        TargetKind::Player => match target_player {
            Some(id) => CardTarget::Player(id),
            None => CardTarget::Untargeted,
        },
        TargetKind::Tile => CardTarget::Tile(selected),
    }
}

/// The target a card takes: nothing, the chosen wizard (nothing while none
/// is chosen) or the selected square.
pub fn card_target(card: Card, target_player: Option<u64>, selected_position: Position) -> (r:
    CardTarget)
    ensures
        r == chosen_target(card, target_player, selected_position),
{
    match card_def(card).target {
        TargetKind::Untargeted => CardTarget::Untargeted,
        TargetKind::Player => match target_player {
            Some(id) => CardTarget::Player(id),
            None => CardTarget::Untargeted,
        },
        TargetKind::Tile => CardTarget::Tile(selected_position),
    }
}

/// What reaching a square costs the current wizard, if there is one.
pub fn tile_move_cost(current_player: Option<&PublicPlayer>, row: i32, col: i32, caravan_row: i32) -> (r:
    Option<i32>)
    requires
        current_player matches Some(p) ==> move_cost_fits(
            p.pos,
            Position { row, col },
            caravan_row as int,
        ),
    ensures
        match current_player {
            Some(p) => r == Some(move_cost(p.pos, Position { row, col }, caravan_row as int) as i32),
            None => r is None,
        },
{
    match current_player {
        Some(p) => Some(movement_cost(&p.pos, &Position { row, col }, caravan_row)),
        None => None,
    }
}

/// Whether the current wizard may take a single step to a square: it has
/// not submitted its plan, the square is one step away and it can pay.
pub fn can_step_to(current_player: Option<&PublicPlayer>, row: i32, col: i32, caravan_row: i32) -> (r:
    bool)
    requires
        current_player matches Some(p) ==> move_cost_fits(
            p.pos,
            Position { row, col },
            caravan_row as int,
        ),
    ensures
        r == match current_player {
            Some(p) => !p.ready && step_distance(p.pos, Position { row, col }) == 1 && p.energy
                >= move_cost(p.pos, Position { row, col }, caravan_row as int),
            None => false,
        },
{
    match current_player {
        Some(p) => {
            let dr = if p.pos.row >= row {
                p.pos.row - row
            } else {
                row - p.pos.row
            };
            let dc = if p.pos.col >= col {
                p.pos.col - col
            } else {
                col - p.pos.col
            };
            let distance = dr + dc;
            let cost = movement_cost(&p.pos, &Position { row, col }, caravan_row);
            !p.ready && distance == 1 && p.energy >= cost
        },
        None => false,
    }
}

/// A card is selected that needs a target wizard, and none is chosen yet.
pub open spec fn target_missing(card: Option<Card>, target_player: Option<u64>) -> bool {
    card matches Some(c) && card_target_kind(c) == TargetKind::Player && target_player is None
}

/// Whether the end-turn button must wait for a target wizard.
pub fn missing_target(selected_card: Option<Card>, target_player: Option<u64>) -> (r: bool)
    ensures
        r == target_missing(selected_card, target_player),
{
    match selected_card {
        Some(card) => match card_def(card).target {
            TargetKind::Player => target_player.is_none(),
            _ => false,
        },
        None => false,
    }
}

/// The end-turn button's label.
pub open spec fn end_turn_text(card: Option<Card>, target_player: Option<u64>) -> Seq<char> {
    if target_missing(card, target_player) {
        "Pick Target First"@
    } else if card matches Some(c) && card_target_kind(c) == TargetKind::Tile {
        "Play Card And End Turn"@
    } else {
        "End Turn"@
    }
}

/// The end-turn button's label for the current selection.
pub fn end_turn_label(selected_card: Option<Card>, target_player: Option<u64>) -> (r: &'static str)
    ensures
        r@ == end_turn_text(selected_card, target_player),
{
    if missing_target(selected_card, target_player) {
        "Pick Target First"
    } else {
        match selected_card {
            Some(card) => match card_def(card).target {
                TargetKind::Tile => "Play Card And End Turn",
                _ => "End Turn",
            },
            None => "End Turn",
        }
    }
}

/// The plan the turn panel submits: stay on the current square, attempt its
/// event and play the selected card, if any, at the chosen target; a Spell
/// of Truth carries the question.
pub open spec fn panel_plan(
    current: Position,
    card: Option<Card>,
    target_player: Option<u64>,
    selected: Position,
    question: Seq<char>,
) -> PlanV {
    PlanV {
        target: current,
        event_action: EventAction::Attempt,
        card_action: match card {
            Some(c) => ActionV::PlayCard {
                card: c,
                target: chosen_target(c, target_player, selected),
                question: if c == Card::SpellOfTruth {
                    Some(question)
                } else {
                    None
                },
            },
            None => ActionV::NoCard,
        },
        chat: Seq::empty(),
    }
}

/// The plan submitted from the turn panel.
pub fn turn_plan(
    current_pos: Position,
    selected_card: Option<Card>,
    target_player: Option<u64>,
    selected_position: Position,
    truth_question: String,
) -> (plan: TurnPlan)
    ensures
        plan@ == panel_plan(
            current_pos,
            selected_card,
            target_player,
            selected_position,
            truth_question@,
        ),
{
    let card_action = match selected_card {
        Some(card) => {
            let target = card_target(card, target_player, selected_position);
            let question = match card {
                Card::SpellOfTruth => Some(truth_question),
                _ => None,
            };
            CardAction::PlayCard { card, target, question }
        },
        None => CardAction::NoCard,
    };
    let chat = String::new();
    TurnPlan { target: current_pos, event_action: EventAction::Attempt, card_action, chat }
}

/// The label of a board row: behind, at or ahead of the caravan.
pub open spec fn row_text(row: int, caravan_row: int) -> Seq<char> {
    if row > caravan_row {
        "Future"@
    } else if row == caravan_row {
        "Caravan"@
    } else {
        "Behind"@
    }
}

/// The label shown beside a board row.
pub fn row_label(row: i32, caravan_row: i32) -> (r: &'static str)
    ensures
        r@ == row_text(row as int, caravan_row as int),
{
    if row > caravan_row {
        "Future"
    } else if row == caravan_row {
        "Caravan"
    } else {
        "Behind"
    }
}

} // verus!
