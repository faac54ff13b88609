use fellowship::commands::{apply_command, clean_name, next_auto_ai, submit_and_view, CommandStep};
use fellowship::game::Game;
use fellowship::model::{CardAction, ClientCommand, EventAction, GameView, Position, TurnPlan};

fn pos(row: i32, col: i32) -> Position {
    Position { row, col }
}

fn idle_plan() -> TurnPlan {
    TurnPlan {
        target: pos(0, 3),
        event_action: EventAction::Ignore,
        card_action: CardAction::NoCard,
        chat: String::new(),
    }
}

fn reply_view(step: CommandStep) -> GameView {
    match step {
        CommandStep::Reply { result: Ok(view), changed } => {
            assert!(changed);
            view
        },
        CommandStep::Reply { result: Err(e), .. } => panic!("refused: {e}"),
        _ => panic!("expected a reply"),
    }
}

fn reply_error(step: CommandStep) -> String {
    match step {
        CommandStep::Reply { result: Err(e), changed } => {
            assert!(!changed);
            e
        },
        _ => panic!("expected a refusal"),
    }
}

#[test]
fn clean_name_trims_and_cuts() {
    assert_eq!(clean_name("  Mirthwick  "), "Mirthwick");
    assert_eq!(clean_name("   "), "Unnamed Wizard");
    assert_eq!(clean_name(""), "Unnamed Wizard");
    let long = "abcdefghij".repeat(4);
    assert_eq!(clean_name(&long), long[..32].to_string());
    assert_eq!(clean_name(&"ß".repeat(40)).chars().count(), 32);
    assert_eq!(clean_name("\u{3000}\tZed\u{2029} \n"), "Zed");
    assert_eq!(clean_name("\u{a0}\u{85}"), "Unnamed Wizard");
}

#[test]
fn join_human_replies_with_own_view() {
    let mut game = Game::new();
    let view = reply_view(apply_command(
        &mut game,
        None,
        ClientCommand::JoinHuman { name: "  Zed  ".to_string() },
    ));
    assert_eq!(view.viewer_id, Some(43));
    assert_eq!(view.players.len(), 1);
    assert_eq!(view.players[0].name, "Zed");
    assert!(view.own.is_some());
    assert_eq!(view.logs[0].text, "Zed joins the quest.");
}

#[test]
fn join_with_blank_name() {
    let mut game = Game::new();
    let id = game.join_human("   ");
    assert_eq!(id, 43);
    assert_eq!(game.view_for(None).players[0].name, "Unnamed Wizard");
}

#[test]
fn add_ai_numbers_and_briefs_the_wizard() {
    let mut game = Game::new();
    let h = game.join_human("Human");
    let view = reply_view(apply_command(&mut game, Some(h), ClientCommand::AddAi));
    assert_eq!(view.viewer_id, Some(h));
    assert_eq!(view.players.len(), 2);
    assert_eq!(view.players[1].name, "AI Wizard 2");
    assert!(view.players[1].is_ai);
    let ai = view.players[1].id;
    let intro = "You are an AI player. Private hand and reagents are visible only to you.";
    assert!(view.logs.iter().all(|e| e.text != intro));
    let ai_view = game.view_for(Some(ai));
    assert_eq!(ai_view.logs[0].text, intro);
    assert_eq!(ai_view.logs[0].private_to, Some(ai));
    assert_eq!(ai_view.logs[1].text, "AI Wizard 2 joins the quest.");
}

#[test]
fn add_ai_player_directly() {
    let mut game = Game::new();
    let id = game.add_ai_player();
    assert_eq!(id, 43);
    assert!(game.is_ai_player(id));
    assert_eq!(game.view_for(None).players[0].name, "AI Wizard 1");
}

#[test]
fn chat_command_replies_with_view() {
    let mut game = Game::new();
    let h = game.join_human("Human");
    let view = reply_view(apply_command(
        &mut game,
        Some(h),
        ClientCommand::SendChat { player_id: h, message: " hi all ".to_string() },
    ));
    assert_eq!(view.logs[0].text, "Human: hi all");
}

#[test]
fn move_command_success_and_refusal() {
    let mut game = Game::new();
    let h = game.join_human("Human");
    let view = reply_view(apply_command(
        &mut game,
        Some(h),
        ClientCommand::MoveStep { player_id: h, target: pos(0, 4) },
    ));
    assert_eq!(view.players[0].pos, pos(0, 4));
    let e = reply_error(apply_command(
        &mut game,
        Some(h),
        ClientCommand::MoveStep { player_id: h, target: pos(3, 4) },
    ));
    assert_eq!(e, "Move one step at a time.");
    assert_eq!(game.view_for(None).players[0].pos, pos(0, 4));
}

#[test]
fn submit_command_accepts_and_names_the_day() {
    let mut game = Game::new();
    let h = game.join_human("Human");
    let ai = game.add_ai_player();
    match apply_command(&mut game, Some(h), ClientCommand::SubmitPlan { player_id: h, plan: idle_plan() }) {
        CommandStep::PlanAccepted { start_day } => assert_eq!(start_day, 1),
        _ => panic!("expected the plan to be accepted"),
    }
    assert_eq!(next_auto_ai(&game, 1), Some(ai));
    assert_eq!(next_auto_ai(&game, 2), None);
    let view = submit_and_view(&mut game, Some(h), ai, idle_plan()).unwrap();
    assert_eq!(view.day, 2);
    assert_eq!(game.day(), 2);
    assert_eq!(next_auto_ai(&game, 1), None);
}

#[test]
fn submit_command_refusals() {
    let mut game = Game::new();
    game.join_human("Human");
    let e = reply_error(apply_command(
        &mut game,
        None,
        ClientCommand::SubmitPlan { player_id: 9, plan: idle_plan() },
    ));
    assert_eq!(e, "Unknown player.");
    assert!(submit_and_view(&mut game, None, 9, idle_plan()).is_err());
}

#[test]
fn ask_ai_turn_only_for_ai_wizards() {
    let mut game = Game::new();
    let h = game.join_human("Human");
    let ai = game.add_ai_player();
    let e = reply_error(apply_command(&mut game, Some(h), ClientCommand::AskAiTurn { player_id: h }));
    assert_eq!(e, "That player is not an AI.");
    let e = reply_error(apply_command(&mut game, Some(h), ClientCommand::AskAiTurn { player_id: 500 }));
    assert_eq!(e, "That player is not an AI.");
    match apply_command(&mut game, Some(h), ClientCommand::AskAiTurn { player_id: ai }) {
        CommandStep::AskAi { player_id, view } => {
            assert_eq!(player_id, ai);
            assert_eq!(view.viewer_id, Some(ai));
            assert_eq!(view.own.map(|o| o.id), Some(ai));
        },
        _ => panic!("expected the AI to be asked"),
    }
}
