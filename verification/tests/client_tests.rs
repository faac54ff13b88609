use fellowship::client::{
    can_step_to, card_target, end_turn_label, missing_target, row_label, tile_move_cost, turn_plan,
};
use fellowship::model::{Card, CardAction, CardTarget, EventAction, Position, PublicPlayer};

fn pos(row: i32, col: i32) -> Position {
    Position { row, col }
}

fn me(at: Position, energy: i32, ready: bool) -> PublicPlayer {
    PublicPlayer {
        id: 43,
        name: "Mirthwick".to_string(),
        is_ai: false,
        pos: at,
        energy,
        gold: 2,
        food: 3,
        glory: 0,
        statuses: Vec::new(),
        public_gear: Vec::new(),
        ready,
    }
}

#[test]
fn card_targets_follow_the_card() {
    let here = pos(2, 4);
    assert_eq!(card_target(Card::PoisonedBreakfast, Some(44), here), CardTarget::Player(44));
    assert_eq!(card_target(Card::SpellOfTruth, None, here), CardTarget::Untargeted);
    assert_eq!(card_target(Card::EventSeal, Some(44), here), CardTarget::Tile(here));
    assert_eq!(card_target(Card::AlarmWard, Some(44), here), CardTarget::Untargeted);
    assert_eq!(card_target(Card::HatOfModestProsperity, None, here), CardTarget::Untargeted);
}

#[test]
fn tile_cost_for_current_wizard() {
    let p = me(pos(0, 3), 10, false);
    assert_eq!(tile_move_cost(Some(&p), 0, 3, 0), Some(0));
    assert_eq!(tile_move_cost(Some(&p), 2, 3, 0), Some(3));
    assert_eq!(tile_move_cost(Some(&p), -1, 0, 0), Some(4));
    assert_eq!(tile_move_cost(None, 2, 3, 0), None);
}

#[test]
fn single_steps_allowed() {
    let p = me(pos(0, 3), 10, false);
    assert!(can_step_to(Some(&p), 1, 3, 0));
    assert!(can_step_to(Some(&p), 0, 2, 0));
    assert!(!can_step_to(Some(&p), 0, 3, 0));
    assert!(!can_step_to(Some(&p), 1, 4, 0));
    assert!(!can_step_to(None, 1, 3, 0));
}

#[test]
fn single_steps_need_energy_and_an_open_turn() {
    let tired = me(pos(3, 3), 3, false);
    assert!(!can_step_to(Some(&tired), 4, 3, 0));
    assert!(can_step_to(Some(&tired), 3, 2, 0));
    let done = me(pos(0, 3), 10, true);
    assert!(!can_step_to(Some(&done), 1, 3, 0));
}

#[test]
fn a_wizard_target_must_be_picked_first() {
    assert!(missing_target(Some(Card::PoisonedBreakfast), None));
    assert!(!missing_target(Some(Card::PoisonedBreakfast), Some(44)));
    assert!(!missing_target(Some(Card::EventSeal), None));
    assert!(!missing_target(None, None));
}

#[test]
fn end_turn_labels() {
    assert_eq!(end_turn_label(Some(Card::SpellOfTruth), None), "Pick Target First");
    assert_eq!(end_turn_label(Some(Card::SpellOfTruth), Some(2)), "End Turn");
    assert_eq!(end_turn_label(Some(Card::EventSeal), None), "Play Card And End Turn");
    assert_eq!(end_turn_label(Some(Card::AlarmWard), None), "End Turn");
    assert_eq!(end_turn_label(None, Some(2)), "End Turn");
}

#[test]
fn panel_plan_stays_and_attempts() {
    let plan = turn_plan(pos(1, 2), None, Some(44), pos(3, 3), "Why?".to_string());
    assert_eq!(plan.target, pos(1, 2));
    assert_eq!(plan.event_action, EventAction::Attempt);
    assert!(matches!(plan.card_action, CardAction::NoCard));
    assert_eq!(plan.chat, "");
}

#[test]
fn panel_plan_plays_the_selected_card() {
    let plan = turn_plan(pos(1, 2), Some(Card::SpellOfTruth), Some(44), pos(3, 3), "Why?".to_string());
    match plan.card_action {
        CardAction::PlayCard { card, target, question } => {
            assert_eq!(card, Card::SpellOfTruth);
            assert_eq!(target, CardTarget::Player(44));
            assert_eq!(question, Some("Why?".to_string()));
        },
        _ => panic!("expected a played card"),
    }
    let plan = turn_plan(pos(1, 2), Some(Card::EventSeal), None, pos(3, 3), "Why?".to_string());
    match plan.card_action {
        CardAction::PlayCard { card, target, question } => {
            assert_eq!(card, Card::EventSeal);
            assert_eq!(target, CardTarget::Tile(pos(3, 3)));
            assert_eq!(question, None);
        },
        _ => panic!("expected a played card"),
    }
}

#[test]
fn row_labels() {
    assert_eq!(row_label(5, 4), "Future");
    assert_eq!(row_label(4, 4), "Caravan");
    assert_eq!(row_label(3, 4), "Behind");
}
