use fellowship::ai::{ai_response_text, fallback_ai_plan, parse_ai_plan, plan_costs_fit};
use fellowship::game::Game;
use fellowship::model::{
    Card, CardAction, CardTarget, EventAction, EventKind, GameView, Position, PublicPlayer, Tile,
};

fn pos(row: i32, col: i32) -> Position {
    Position { row, col }
}

fn wizard(id: u64, at: Position) -> PublicPlayer {
    PublicPlayer {
        id,
        name: format!("Wizard {id}"),
        is_ai: true,
        pos: at,
        energy: 10,
        gold: 2,
        food: 3,
        glory: 0,
        statuses: Vec::new(),
        public_gear: Vec::new(),
        ready: false,
    }
}

fn tile(id: u64, at: Position, completed_by: Option<u64>, sealed_days: u8) -> Tile {
    Tile { id, pos: at, event: EventKind::Hunt, sealed_days, completed_by }
}

fn view_with(players: Vec<PublicPlayer>, tiles: Vec<Tile>, caravan_row: i32) -> GameView {
    GameView {
        viewer_id: players.first().map(|p| p.id),
        day: 1,
        caravan_row,
        width: 7,
        players,
        tiles,
        own: None,
        logs: Vec::new(),
        winners: Vec::new(),
    }
}

fn two_wizard_view() -> GameView {
    view_with(vec![wizard(43, pos(0, 3)), wizard(44, pos(0, 3))], Vec::new(), 0)
}

// ----- The fallback plan -----

#[test]
fn fallback_attempts_the_cheapest_open_tile() {
    let view = view_with(
        vec![wizard(7, pos(0, 3))],
        vec![
            tile(1, pos(2, 3), None, 0),
            tile(2, pos(0, 5), None, 0),
            tile(3, pos(0, 4), Some(9), 0),
            tile(4, pos(0, 3), None, 2),
        ],
        0,
    );
    let plan = fallback_ai_plan(&view, 7, "no model".to_string());
    assert_eq!(plan.target, pos(0, 5));
    assert_eq!(plan.event_action, EventAction::Attempt);
    assert!(matches!(plan.card_action, CardAction::NoCard));
    assert_eq!(plan.chat, "no model");
}

#[test]
fn fallback_prefers_the_first_of_equal_costs() {
    let view = view_with(
        vec![wizard(7, pos(0, 3))],
        vec![tile(1, pos(0, 2), None, 0), tile(2, pos(0, 4), None, 0)],
        0,
    );
    assert_eq!(fallback_ai_plan(&view, 7, String::new()).target, pos(0, 2));
}

#[test]
fn fallback_without_open_tiles_goes_to_the_caravan() {
    let view = view_with(
        vec![wizard(7, pos(6, 3))],
        vec![tile(1, pos(6, 2), Some(7), 0), tile(2, pos(7, 2), None, 1)],
        6,
    );
    assert_eq!(fallback_ai_plan(&view, 7, String::new()).target, pos(6, 0));
}

#[test]
fn fallback_for_an_unlisted_wizard_takes_the_first_open_tile() {
    let view = view_with(
        vec![wizard(7, pos(0, 3))],
        vec![tile(1, pos(3, 6), Some(7), 0), tile(2, pos(4, 6), None, 0), tile(3, pos(0, 3), None, 0)],
        0,
    );
    assert_eq!(fallback_ai_plan(&view, 99, String::new()).target, pos(4, 6));
}

#[test]
fn fallback_on_a_real_board() {
    let mut game = Game::new();
    let ai = game.add_player("AI Wizard 1".to_string(), true);
    let view = game.view_for(Some(ai));
    assert!(plan_costs_fit(&view, ai));
    let plan = fallback_ai_plan(&view, ai, "OPENROUTER_API_KEY is not set".to_string());
    assert_eq!(plan.target, pos(0, 3));
    assert_eq!(plan.chat, "OPENROUTER_API_KEY is not set");
}

// ----- Reading a model's answer -----

#[test]
fn parse_full_answer() {
    let text = r#"{"target_row": 2, "target_col": 5, "event_action": "Rest",
        "card_action": "SpellOfTruth", "question": "Who poisoned me?", "chat": "Trust me."}"#;
    let plan = parse_ai_plan(text, &two_wizard_view(), 43).unwrap();
    assert_eq!(plan.target, pos(2, 5));
    assert_eq!(plan.event_action, EventAction::Rest);
    match plan.card_action {
        CardAction::PlayCard { card, target, question } => {
            assert_eq!(card, Card::SpellOfTruth);
            assert_eq!(target, CardTarget::Player(44));
            assert_eq!(question, Some("Who poisoned me?".to_string()));
        },
        _ => panic!("expected a played card"),
    }
    assert_eq!(plan.chat, "Trust me.");
}

#[test]
fn parse_fills_in_missing_members() {
    let mut view = two_wizard_view();
    view.caravan_row = 6;
    let plan = parse_ai_plan("{}", &view, 43).unwrap();
    assert_eq!(plan.target, pos(6, 0));
    assert_eq!(plan.event_action, EventAction::Attempt);
    assert!(matches!(plan.card_action, CardAction::NoCard));
    assert_eq!(plan.chat, "");
}

#[test]
fn parse_truth_without_question_uses_the_default() {
    let text = r#"{"card_action": "SpellOfTruth", "target_player_id": 12}"#;
    let plan = parse_ai_plan(text, &two_wizard_view(), 43).unwrap();
    match plan.card_action {
        CardAction::PlayCard { card, target, question } => {
            assert_eq!(card, Card::SpellOfTruth);
            assert_eq!(target, CardTarget::Player(12));
            assert_eq!(question, Some("What are you planning?".to_string()));
        },
        _ => panic!("expected a played card"),
    }
}

#[test]
fn parse_poison_defaults_to_another_wizard() {
    let text = r#"{"card_action": "PoisonedBreakfast", "event_action": "Ignore"}"#;
    let plan = parse_ai_plan(text, &two_wizard_view(), 44).unwrap();
    assert_eq!(plan.event_action, EventAction::Ignore);
    match plan.card_action {
        CardAction::PlayCard { card, target, question } => {
            assert_eq!(card, Card::PoisonedBreakfast);
            assert_eq!(target, CardTarget::Player(43));
            assert_eq!(question, None);
        },
        _ => panic!("expected a played card"),
    }
}

#[test]
fn parse_poison_alone_targets_itself() {
    let view = view_with(vec![wizard(43, pos(0, 3))], Vec::new(), 0);
    let plan = parse_ai_plan(r#"{"card_action": "PoisonedBreakfast"}"#, &view, 43).unwrap();
    match plan.card_action {
        CardAction::PlayCard { target, .. } => assert_eq!(target, CardTarget::Player(43)),
        _ => panic!("expected a played card"),
    }
}

#[test]
fn parse_seal_and_ward() {
    let seal = r#"{"target_row": 3, "target_col": 1, "card_action": "EventSeal"}"#;
    let plan = parse_ai_plan(seal, &two_wizard_view(), 43).unwrap();
    match plan.card_action {
        CardAction::PlayCard { card, target, question } => {
            assert_eq!(card, Card::EventSeal);
            assert_eq!(target, CardTarget::Tile(pos(3, 1)));
            assert_eq!(question, None);
        },
        _ => panic!("expected a played card"),
    }
    let ward = r#"{"card_action": "AlarmWard"}"#;
    let plan = parse_ai_plan(ward, &two_wizard_view(), 43).unwrap();
    match plan.card_action {
        CardAction::PlayCard { card, target, .. } => {
            assert_eq!(card, Card::AlarmWard);
            assert_eq!(target, CardTarget::Untargeted);
        },
        _ => panic!("expected a played card"),
    }
}

#[test]
fn parse_unknown_words_mean_attempt_without_card() {
    let text = r#"{"event_action": "Dance", "card_action": "Fireball"}"#;
    let plan = parse_ai_plan(text, &two_wizard_view(), 43).unwrap();
    assert_eq!(plan.event_action, EventAction::Attempt);
    assert!(matches!(plan.card_action, CardAction::NoCard));
}

#[test]
fn parse_cuts_chat_to_240_characters() {
    let long: String = "é".repeat(300);
    let text = format!(r#"{{"chat": "{long}"}}"#);
    let plan = parse_ai_plan(&text, &two_wizard_view(), 43).unwrap();
    assert_eq!(plan.chat.chars().count(), 240);
    assert_eq!(plan.chat, "é".repeat(240));
}

#[test]
fn parse_wrongly_typed_members_are_ignored() {
    let text = r#"{"target_row": "two", "target_col": 4, "chat": 17}"#;
    let plan = parse_ai_plan(text, &two_wizard_view(), 43).unwrap();
    assert_eq!(plan.target, pos(0, 4));
    assert_eq!(plan.chat, "");
}

#[test]
fn parse_rejects_text_that_is_not_json() {
    let r = parse_ai_plan("I will go left", &two_wizard_view(), 43);
    match r {
        Err(e) => assert!(!e.is_empty()),
        Ok(_) => panic!("expected an error"),
    }
    assert!(parse_ai_plan("{\"target_row\": 1", &two_wizard_view(), 43).is_err());
}

#[test]
fn response_text_prefers_output_text() {
    assert_eq!(
        ai_response_text(r#"{"output_text": "{\"chat\": \"hi\"}"}"#),
        Some("{\"chat\": \"hi\"}".to_string())
    );
}

#[test]
fn response_text_falls_back_to_the_first_output_item() {
    let body = r#"{"output": [{"content": [{"type": "output_text", "text": "abc"}, {"text": "z"}]},
        {"content": [{"text": "later"}]}]}"#;
    assert_eq!(ai_response_text(body), Some("abc".to_string()));
}

#[test]
fn response_text_missing() {
    assert_eq!(ai_response_text("{}"), None);
    assert_eq!(ai_response_text(r#"{"output": []}"#), None);
    assert_eq!(ai_response_text(r#"{"output_text": 5}"#), None);
    assert_eq!(ai_response_text("not json"), None);
}
