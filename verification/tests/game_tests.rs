use fellowship::game::{deal_card, Game};
use fellowship::model::{
    Card, CardAction, CardTarget, EventAction, EventKind, GameView, Position, PublicPlayer,
    Reagents, TurnPlan,
};

fn pos(row: i32, col: i32) -> Position {
    Position { row, col }
}

fn plan(target: Position, event_action: EventAction, card_action: CardAction) -> TurnPlan {
    TurnPlan { target, event_action, card_action, chat: String::new() }
}

fn player<'a>(view: &'a GameView, id: u64) -> &'a PublicPlayer {
    view.players.iter().find(|p| p.id == id).expect("listed wizard")
}

fn log_texts(view: &GameView) -> Vec<String> {
    view.logs.iter().map(|e| e.text.clone()).collect()
}

fn tile_at(view: &GameView, row: i32, col: i32) -> Option<fellowship::model::Tile> {
    view.tiles.iter().find(|t| t.pos == pos(row, col)).copied()
}

#[test]
fn new_game_lays_out_the_road() {
    let game = Game::new();
    assert_eq!(game.day(), 1);
    assert_eq!(game.caravan_row(), 0);
    assert_eq!(game.player_count(), 0);
    let view = game.view_for(None);
    assert_eq!(view.viewer_id, None);
    assert_eq!(view.day, 1);
    assert_eq!(view.caravan_row, 0);
    assert_eq!(view.width, 7);
    assert!(view.players.is_empty());
    assert!(view.own.is_none());
    assert!(view.winners.is_empty());
    assert_eq!(view.tiles.len(), 42);
    for row in -1..=4 {
        for col in 0..7 {
            let t = tile_at(&view, row, col).expect("tile on every visible square");
            assert_eq!(t.sealed_days, 0);
            assert_eq!(t.completed_by, None);
        }
    }
    let mut ids: Vec<u64> = view.tiles.iter().map(|t| t.id).collect();
    ids.sort();
    assert_eq!(ids, (1..=42).collect::<Vec<u64>>());
    assert_eq!(
        log_texts(&view),
        vec!["The caravan lurches into motion. Nobody fully trusts the map.".to_string()]
    );
    assert_eq!(view.logs[0].day, 1);
}

#[test]
fn new_game_events_follow_the_road_formula() {
    let view = Game::new().view_for(None);
    assert_eq!(tile_at(&view, 0, 3).unwrap().event, EventKind::Trap);
    assert_eq!(tile_at(&view, 0, 0).unwrap().event, EventKind::Hunt);
    assert_eq!(tile_at(&view, -1, 0).unwrap().event, EventKind::Trap);
    assert_eq!(tile_at(&view, 1, 1).unwrap().event, EventKind::Monster);
    assert_eq!(tile_at(&view, 2, 2).unwrap().event, EventKind::Shortcut);
    assert_eq!(tile_at(&view, 1, 3).unwrap().event, EventKind::Hunt);
    assert_eq!(tile_at(&view, 2, 3).unwrap().event, EventKind::Market);
}

#[test]
fn add_player_starts_at_the_caravan() {
    let mut game = Game::new();
    let a = game.add_player("Mirthwick".to_string(), false);
    let b = game.add_player("Bram".to_string(), true);
    assert_eq!(a, 43);
    assert_eq!(b, 44);
    assert_eq!(game.player_count(), 2);
    let view = game.view_for(Some(a));
    let p = player(&view, a);
    assert_eq!(p.name, "Mirthwick");
    assert!(!p.is_ai);
    assert_eq!(p.pos, pos(0, 3));
    assert_eq!(p.energy, 10);
    assert_eq!(p.gold, 2);
    assert_eq!(p.food, 3);
    assert_eq!(p.glory, 0);
    assert!(p.statuses.is_empty());
    assert!(p.public_gear.is_empty());
    assert!(!p.ready);
    let own = view.own.clone().expect("own hand");
    assert_eq!(own.id, a);
    assert_eq!(
        own.hand,
        vec![Card::SpellOfTruth, Card::PoisonedBreakfast, Card::AlarmWard, Card::EventSeal]
    );
    assert_eq!(own.reagents, Reagents { ash: 1, mooncap: 1, ichor: 1, quartz: 1 });
    let own_b = game.view_for(Some(b)).own.expect("own hand");
    assert_eq!(own_b.hand[0], Card::StaffOfSparkAmplification);
    assert_eq!(view.logs[0].text, "Bram joins the quest.");
    assert_eq!(view.logs[1].text, "Mirthwick joins the quest.");
    let ids: Vec<u64> = view.players.iter().map(|p| p.id).collect();
    assert_eq!(ids, vec![43, 44]);
}

#[test]
fn ai_players_are_known() {
    let mut game = Game::new();
    let a = game.add_player("Human".to_string(), false);
    let b = game.add_player("Robot".to_string(), true);
    assert!(!game.is_ai_player(a));
    assert!(game.is_ai_player(b));
    assert!(!game.is_ai_player(999));
}

#[test]
fn next_unready_ai_skips_humans_and_planned() {
    let mut game = Game::new();
    let h = game.add_player("Human".to_string(), false);
    let a1 = game.add_player("AI one".to_string(), true);
    let a2 = game.add_player("AI two".to_string(), true);
    assert_eq!(game.next_unready_ai(), Some(a1));
    game.submit_plan(a1, plan(pos(0, 3), EventAction::Ignore, CardAction::NoCard)).unwrap();
    assert_eq!(game.next_unready_ai(), Some(a2));
    game.submit_plan(a2, plan(pos(0, 3), EventAction::Ignore, CardAction::NoCard)).unwrap();
    assert_eq!(game.next_unready_ai(), None);
    assert_eq!(game.day(), 1);
    let view = game.view_for(Some(h));
    assert!(player(&view, a1).ready);
    assert!(player(&view, a2).ready);
    assert!(!player(&view, h).ready);
}

#[test]
fn chat_is_trimmed_and_blank_chat_ignored() {
    let mut game = Game::new();
    let a = game.add_player("Mirthwick".to_string(), false);
    assert_eq!(game.send_chat(a, "   hello there  ".to_string()), Ok(()));
    assert_eq!(game.send_chat(a, "   ".to_string()), Ok(()));
    assert_eq!(game.send_chat(777, "boo".to_string()), Ok(()));
    let view = game.view_for(None);
    assert_eq!(view.logs[0].text, "Unknown wizard: boo");
    assert_eq!(view.logs[1].text, "Mirthwick: hello there");
    assert_eq!(view.logs[2].text, "Mirthwick joins the quest.");
}

#[test]
fn private_log_only_reaches_its_owner() {
    let mut game = Game::new();
    let a = game.add_player("Alda".to_string(), false);
    let b = game.add_player("Bram".to_string(), false);
    game.private_log(a, "A secret for Alda.".to_string());
    assert_eq!(game.view_for(Some(a)).logs[0].text, "A secret for Alda.");
    assert_eq!(game.view_for(Some(a)).logs[0].private_to, Some(a));
    assert!(game.view_for(Some(b)).logs.iter().all(|e| e.text != "A secret for Alda."));
    assert!(game.view_for(None).logs.iter().all(|e| e.private_to.is_none()));
}

#[test]
fn logs_show_the_newest_eighty() {
    let mut game = Game::new();
    let a = game.add_player("Mirthwick".to_string(), false);
    for i in 0..100 {
        game.send_chat(a, format!("line {i}")).unwrap();
    }
    let view = game.view_for(None);
    assert_eq!(view.logs.len(), 80);
    assert_eq!(view.logs[0].text, "Mirthwick: line 99");
    assert_eq!(view.logs[79].text, "Mirthwick: line 20");
}

#[test]
fn move_step_pays_and_logs() {
    let mut game = Game::new();
    let a = game.add_player("Mirthwick".to_string(), false);
    assert_eq!(game.move_step(a, pos(1, 3)), Ok(()));
    let view = game.view_for(Some(a));
    assert_eq!(player(&view, a).pos, pos(1, 3));
    assert_eq!(player(&view, a).energy, 9);
    assert_eq!(view.logs[0].text, "Mirthwick moves to row 1, column 3 for 1 Energy.");
}

#[test]
fn move_step_one_square_at_a_time() {
    let mut game = Game::new();
    let a = game.add_player("Mirthwick".to_string(), false);
    assert_eq!(game.move_step(a, pos(2, 3)), Err("Move one step at a time.".to_string()));
    assert_eq!(game.move_step(a, pos(0, 3)), Err("Move one step at a time.".to_string()));
    assert_eq!(game.move_step(a, pos(1, 4)), Err("Move one step at a time.".to_string()));
    // Columns are clamped onto the board first: column -5 becomes 0, three steps away.
    assert_eq!(game.move_step(a, pos(0, -5)), Err("Move one step at a time.".to_string()));
    let view = game.view_for(Some(a));
    assert_eq!(player(&view, a).pos, pos(0, 3));
    assert_eq!(player(&view, a).energy, 10);
}

#[test]
fn move_step_clamps_rows_onto_the_board() {
    let mut game = Game::new();
    let a = game.add_player("Mirthwick".to_string(), false);
    // Row -9 is clamped to the back row -1, one step behind.
    assert_eq!(game.move_step(a, pos(-9, 3)), Ok(()));
    let view = game.view_for(Some(a));
    assert_eq!(player(&view, a).pos, pos(-1, 3));
    assert_eq!(player(&view, a).energy, 9);
}

#[test]
fn move_step_unknown_player() {
    let mut game = Game::new();
    game.add_player("Mirthwick".to_string(), false);
    assert_eq!(game.move_step(999, pos(1, 3)), Err("Unknown player.".to_string()));
}

#[test]
fn move_step_needs_energy() {
    let mut game = Game::new();
    let a = game.add_player("Mirthwick".to_string(), false);
    assert_eq!(game.move_step(a, pos(1, 3)), Ok(()));
    assert_eq!(game.move_step(a, pos(2, 3)), Ok(()));
    assert_eq!(game.move_step(a, pos(3, 3)), Ok(()));
    assert_eq!(game.move_step(a, pos(4, 3)), Ok(()));
    let view = game.view_for(Some(a));
    assert_eq!(player(&view, a).energy, 0);
    assert_eq!(view.logs[0].text, "Mirthwick moves to row 4, column 3 for 4 Energy.");
    assert_eq!(
        game.move_step(a, pos(4, 2)),
        Err("Not enough energy. This step costs 4.".to_string())
    );
    assert_eq!(player(&game.view_for(Some(a)), a).pos, pos(4, 3));
}

#[test]
fn move_step_after_plan_is_refused() {
    let mut game = Game::new();
    let a = game.add_player("Alda".to_string(), false);
    game.add_player("Bram".to_string(), false);
    game.submit_plan(a, plan(pos(0, 3), EventAction::Ignore, CardAction::NoCard)).unwrap();
    assert_eq!(
        game.move_step(a, pos(1, 3)),
        Err("You already ended your turn for this day.".to_string())
    );
}

#[test]
fn submit_unknown_player_is_refused() {
    let mut game = Game::new();
    game.add_player("Alda".to_string(), false);
    assert_eq!(
        game.submit_plan(5, plan(pos(0, 3), EventAction::Ignore, CardAction::NoCard)),
        Err("Unknown player.".to_string())
    );
    assert_eq!(game.day(), 1);
}

#[test]
fn a_day_resolves_when_every_wizard_has_planned() {
    let mut game = Game::new();
    let a = game.add_player("Mirthwick".to_string(), false);
    assert_eq!(
        game.submit_plan(a, plan(pos(0, 3), EventAction::Attempt, CardAction::NoCard)),
        Ok(())
    );
    assert_eq!(game.day(), 2);
    assert_eq!(game.caravan_row(), 2);
    let view = game.view_for(Some(a));
    let p = player(&view, a);
    // The trap cost 3 energy; the night restored it to 10; the caravan
    // pulled the wizard up from row 0 to row 1 for one more.
    assert_eq!(p.glory, 1);
    assert_eq!(p.energy, 9);
    assert_eq!(p.pos, pos(1, 3));
    assert!(!p.ready);
    assert_eq!(view.tiles.len(), 42);
    assert!(view.tiles.iter().all(|t| t.pos.row >= 1 && t.pos.row <= 6));
    assert!(view.tiles.iter().all(|t| t.completed_by.is_none()));
    for col in 0..7 {
        assert!(tile_at(&view, 5, col).is_some());
        assert!(tile_at(&view, 6, col).is_some());
    }
    assert_eq!(
        log_texts(&view)[..4].to_vec(),
        vec![
            "Day 1 begins.".to_string(),
            "Mirthwick survives a trap and earns 1 Glory.".to_string(),
            "Day 1 plans resolve.".to_string(),
            "Mirthwick joins the quest.".to_string(),
        ]
    );
    // The closing entry is written before the calendar moves on.
    assert_eq!(view.logs[0].day, 1);
    assert_eq!(view.logs[1].day, 1);
}

#[test]
fn poisoned_breakfast_sickens_the_target() {
    let mut game = Game::new();
    let a = game.add_player("Alda".to_string(), false);
    let b = game.add_player("Bram".to_string(), false);
    let poison = CardAction::PlayCard {
        card: Card::PoisonedBreakfast,
        target: CardTarget::Player(b),
        question: None,
    };
    game.submit_plan(a, plan(pos(0, 3), EventAction::Ignore, poison)).unwrap();
    assert_eq!(game.day(), 1);
    game.submit_plan(b, plan(pos(2, 3), EventAction::Ignore, CardAction::NoCard)).unwrap();
    assert_eq!(game.day(), 2);

    let view_a = game.view_for(Some(a));
    let own = view_a.own.clone().unwrap();
    assert_eq!(own.hand, vec![Card::SpellOfTruth, Card::AlarmWard, Card::EventSeal]);
    assert_eq!(own.reagents, Reagents { ash: 1, mooncap: 0, ichor: 1, quartz: 1 });
    assert_eq!(player(&view_a, a).food, 2);
    assert_eq!(player(&view_a, a).energy, 9);
    // Bram paid 3 to reach row 2 and, being sick, recovered only 2.
    assert_eq!(player(&view_a, b).energy, 9);
    assert_eq!(player(&view_a, b).pos, pos(2, 3));
    assert!(player(&view_a, b).statuses.is_empty());
    let texts_a = log_texts(&view_a);
    assert!(texts_a.contains(&"Bram looks ill after breakfast.".to_string()));
    assert!(texts_a.contains(&"Bram moves to row 2, column 3 for 3 energy.".to_string()));
    assert!(!texts_a.iter().any(|t| t.starts_with("You wake up with Food Sickness")));
    let texts_b = log_texts(&game.view_for(Some(b)));
    assert!(texts_b.contains(
        &"You wake up with Food Sickness. Someone tampered with breakfast.".to_string()
    ));
}

#[test]
fn event_seal_lasts_into_the_next_day() {
    let mut game = Game::new();
    let a = game.add_player("Mirthwick".to_string(), false);
    let seal = CardAction::PlayCard {
        card: Card::EventSeal,
        target: CardTarget::Tile(pos(2, 3)),
        question: None,
    };
    game.submit_plan(a, plan(pos(0, 3), EventAction::Ignore, seal)).unwrap();
    let view = game.view_for(Some(a));
    assert_eq!(tile_at(&view, 2, 3).unwrap().sealed_days, 1);
    assert!(log_texts(&view).contains(&"A tile at row 2, column 3 is sealed.".to_string()));
    assert_eq!(view.own.clone().unwrap().reagents, Reagents { ash: 0, mooncap: 1, ichor: 1, quartz: 0 });

    game.submit_plan(a, plan(pos(2, 3), EventAction::Attempt, CardAction::NoCard)).unwrap();
    let view = game.view_for(Some(a));
    assert!(log_texts(&view).contains(&"Mirthwick reaches a sealed event and cannot enter.".to_string()));
    assert_eq!(player(&view, a).glory, 0);
}

#[test]
fn scrapping_a_card_gives_supplies() {
    let mut game = Game::new();
    let a = game.add_player("Mirthwick".to_string(), false);
    let scrap = CardAction::Scrap { card: Card::AlarmWard };
    game.submit_plan(a, plan(pos(0, 3), EventAction::Ignore, scrap)).unwrap();
    let view = game.view_for(Some(a));
    assert_eq!(player(&view, a).gold, 3);
    let own = view.own.clone().unwrap();
    assert_eq!(own.reagents.ash, 2);
    assert_eq!(own.hand, vec![Card::SpellOfTruth, Card::PoisonedBreakfast, Card::EventSeal]);
    assert!(log_texts(&view).contains(&"Mirthwick scraps Alarm Ward for supplies.".to_string()));
}

#[test]
fn hat_pays_a_gold_every_night() {
    let mut game = Game::new();
    // Wizard 45 draws the Hat of Modest Prosperity (45 % 7 == 3).
    game.add_player("One".to_string(), false);
    game.add_player("Two".to_string(), false);
    let c = game.add_player("Three".to_string(), false);
    assert_eq!(c, 45);
    assert_eq!(game.view_for(Some(c)).own.unwrap().hand[0], Card::HatOfModestProsperity);
    let ids = [43u64, 44, 45];
    for id in ids {
        let action = if id == c {
            CardAction::PlayCard {
                card: Card::HatOfModestProsperity,
                target: CardTarget::Untargeted,
                question: None,
            }
        } else {
            CardAction::NoCard
        };
        game.submit_plan(id, plan(pos(0, 3), EventAction::Ignore, action)).unwrap();
    }
    let view = game.view_for(Some(c));
    let p = player(&view, c);
    assert_eq!(p.public_gear, vec!["Hat of Modest Prosperity".to_string()]);
    assert_eq!(p.gold, 3);
    assert!(log_texts(&view).contains(&"Three's hat produces 1 Gold.".to_string()));
    assert!(log_texts(&view).contains(&"Three equips Hat of Modest Prosperity.".to_string()));
    assert!(view.own.clone().unwrap().hand.iter().all(|c| *c != Card::HatOfModestProsperity));
}

#[test]
fn resting_restores_energy() {
    let mut game = Game::new();
    let a = game.add_player("Mirthwick".to_string(), false);
    game.submit_plan(a, plan(pos(0, 3), EventAction::Rest, CardAction::NoCard)).unwrap();
    let view = game.view_for(Some(a));
    assert!(log_texts(&view).contains(&"Mirthwick rests instead of pushing luck.".to_string()));
}

#[test]
fn an_event_is_completed_only_once() {
    let mut game = Game::new();
    let a = game.add_player("Alda".to_string(), false);
    let b = game.add_player("Bram".to_string(), false);
    game.submit_plan(a, plan(pos(1, 3), EventAction::Attempt, CardAction::NoCard)).unwrap();
    game.submit_plan(b, plan(pos(1, 3), EventAction::Attempt, CardAction::NoCard)).unwrap();
    let view = game.view_for(None);
    // Row 1, column 3 is a hunt: Alda, with the lower id, takes it first.
    assert_eq!(player(&view, a).glory, 1);
    assert_eq!(player(&view, a).food, 6);
    assert_eq!(player(&view, b).glory, 0);
    assert_eq!(player(&view, b).food, 3);
    let texts = log_texts(&view);
    assert!(texts.contains(&"Alda returns from a hunt with Food and 1 Glory.".to_string()));
    assert!(texts.contains(&"Alda moves to row 1, column 3 for 1 energy.".to_string()));
    assert!(texts.contains(&"Bram finds no available event there.".to_string()));
}

#[test]
fn the_quest_ends_after_twenty_days() {
    let mut game = Game::new();
    let a = game.add_player("Alda".to_string(), false);
    let b = game.add_player("Bram".to_string(), false);
    for _ in 0..20 {
        let view = game.view_for(None);
        let pa = player(&view, a).pos;
        let pb = player(&view, b).pos;
        game.submit_plan(a, plan(pa, EventAction::Attempt, CardAction::NoCard)).unwrap();
        game.submit_plan(b, plan(pb, EventAction::Ignore, CardAction::NoCard)).unwrap();
    }
    assert_eq!(game.day(), 21);
    assert_eq!(game.caravan_row(), 40);
    let view = game.view_for(None);
    assert_eq!(view.logs[0].text, "Day 20 begins.");
    assert_eq!(view.logs[0].day, 20);
    let best = view.players.iter().map(|p| p.glory).max().unwrap();
    assert!(!view.winners.is_empty());
    assert!(view.winners.iter().all(|w| w.glory == best));
    for p in &view.players {
        assert_eq!(view.winners.iter().any(|w| w.id == p.id), p.glory == best);
    }
    assert_eq!(
        game.submit_plan(a, plan(pos(40, 3), EventAction::Ignore, CardAction::NoCard)),
        Err("The quest is over.".to_string())
    );
}

#[test]
fn nobody_wins_before_the_end() {
    let mut game = Game::new();
    let a = game.add_player("Alda".to_string(), false);
    game.submit_plan(a, plan(pos(0, 3), EventAction::Attempt, CardAction::NoCard)).unwrap();
    assert!(game.view_for(None).winners.is_empty());
}

#[test]
fn consequences_join_the_road() {
    let mut game = Game::new();
    let a = game.add_player("Alda".to_string(), false);
    let b = game.add_player("Bram".to_string(), false);
    assert_eq!(tile_at(&game.view_for(None), 0, 1).unwrap().event, EventKind::Camp);
    game.submit_plan(a, plan(pos(0, 1), EventAction::Attempt, CardAction::NoCard)).unwrap();
    game.submit_plan(b, plan(pos(2, 3), EventAction::Attempt, CardAction::NoCard)).unwrap();
    let view = game.view_for(Some(b));
    let texts = log_texts(&view);
    assert!(texts.contains(&"Alda recovers at camp.".to_string()));
    assert!(texts.contains(&"Bram trades at a market caravan.".to_string()));
    assert!(texts.contains(&"A future consequence slips into the road ahead.".to_string()));
    // The newest consequence is laid first.
    assert_eq!(tile_at(&view, 5, 0).unwrap().event, EventKind::WitchRevenge);
    assert_eq!(tile_at(&view, 5, 1).unwrap().event, EventKind::BeggarThanks);
    assert_eq!(tile_at(&view, 5, 2).unwrap().event, EventKind::Shortcut);
    let pa = player(&view, a);
    assert_eq!(pa.food, 4);
    assert_eq!(pa.energy, 9);
    let pb = player(&view, b);
    assert_eq!(pb.gold, 3);
    assert_eq!(pb.energy, 10);
    assert_eq!(view.own.clone().unwrap().hand.last(), Some(&Card::SpellOfTruth));
}

#[test]
fn poisoning_does_not_name_the_poisoner() {
    let mut game = Game::new();
    let a = game.add_player("Alda".to_string(), false);
    let b = game.add_player("Bram".to_string(), false);
    let poison = CardAction::PlayCard {
        card: Card::PoisonedBreakfast,
        target: CardTarget::Player(b),
        question: None,
    };
    game.submit_plan(a, plan(pos(0, 3), EventAction::Ignore, poison)).unwrap();
    game.submit_plan(b, plan(pos(0, 3), EventAction::Ignore, CardAction::NoCard)).unwrap();
    let view = game.view_for(Some(b));
    let day_one: Vec<&str> = view
        .logs
        .iter()
        .filter(|e| e.day == 1 && e.text.contains("breakfast"))
        .map(|e| e.text.as_str())
        .collect();
    assert_eq!(day_one.len(), 2);
    assert!(day_one.iter().all(|t| !t.contains("Alda")));
}

#[test]
fn spell_of_truth_is_public() {
    let mut game = Game::new();
    let a = game.add_player("Alda".to_string(), false);
    let b = game.add_player("Bram".to_string(), false);
    let truth = CardAction::PlayCard {
        card: Card::SpellOfTruth,
        target: CardTarget::Player(b),
        question: Some("   ".to_string()),
    };
    game.submit_plan(a, plan(pos(0, 3), EventAction::Ignore, truth)).unwrap();
    game.submit_plan(b, plan(pos(0, 3), EventAction::Ignore, CardAction::NoCard)).unwrap();
    let texts = log_texts(&game.view_for(None));
    assert!(texts.contains(
        &"Alda casts Spell of Truth on Bram: \"What are you planning?\"".to_string()
    ));
    let own = game.view_for(Some(a)).own.unwrap();
    assert_eq!(own.reagents.quartz, 0);
    assert!(!own.hand.contains(&Card::SpellOfTruth));
}

#[test]
fn a_card_without_its_target_is_wasted_only_in_the_log() {
    let mut game = Game::new();
    let a = game.add_player("Alda".to_string(), false);
    let bad = CardAction::PlayCard {
        card: Card::EventSeal,
        target: CardTarget::Untargeted,
        question: None,
    };
    game.submit_plan(a, plan(pos(0, 3), EventAction::Ignore, bad)).unwrap();
    let view = game.view_for(Some(a));
    assert!(log_texts(&view).contains(&"Alda tries to play Event Seal without a valid target.".to_string()));
    let own = view.own.unwrap();
    assert!(own.hand.contains(&Card::EventSeal));
    assert_eq!(own.reagents.ash, 1);
}

#[test]
fn dealt_cards_cycle_by_seed() {
    assert_eq!(deal_card(0), Card::PoisonedBreakfast);
    assert_eq!(deal_card(43), Card::SpellOfTruth);
    assert_eq!(deal_card(44), Card::StaffOfSparkAmplification);
    assert_eq!(deal_card(45), Card::HatOfModestProsperity);
    assert_eq!(deal_card(4), Card::SuspiciouslyHelpfulMap);
    assert_eq!(deal_card(12), Card::AlarmWard);
    assert_eq!(deal_card(13), Card::EventSeal);
}

#[test]
fn others_private_data_does_not_show() {
    let mut g1 = Game::new();
    let mut g2 = Game::new();
    for g in [&mut g1, &mut g2] {
        g.add_player("Alda".to_string(), false);
        g.add_player("Bram".to_string(), false);
    }
    g2.private_log(44, "A secret for Bram.".to_string());
    let seal = CardAction::PlayCard {
        card: Card::EventSeal,
        target: CardTarget::Tile(pos(2, 3)),
        question: None,
    };
    g1.submit_plan(44, plan(pos(0, 3), EventAction::Ignore, CardAction::NoCard)).unwrap();
    g2.submit_plan(44, plan(pos(0, 3), EventAction::Ignore, seal)).unwrap();
    // Alda and onlookers see the same quest: Bram's plan is in, its content is not shown.
    assert_eq!(g1.view_for(Some(43)), g2.view_for(Some(43)));
    assert_eq!(g1.view_for(None), g2.view_for(None));
    assert_ne!(g1.view_for(Some(44)), g2.view_for(Some(44)));
}

#[test]
fn plan_order_does_not_matter() {
    let mut g1 = Game::new();
    let mut g2 = Game::new();
    for g in [&mut g1, &mut g2] {
        g.add_player("Alda".to_string(), false);
        g.add_player("Bram".to_string(), false);
        g.add_player("Cato".to_string(), false);
    }
    let pa = || plan(pos(1, 3), EventAction::Attempt, CardAction::NoCard);
    let pb = || plan(pos(1, 3), EventAction::Attempt, CardAction::Scrap { card: Card::AlarmWard });
    let pc = || plan(pos(0, 4), EventAction::Rest, CardAction::NoCard);
    g1.submit_plan(43, pa()).unwrap();
    g1.submit_plan(44, pb()).unwrap();
    g1.submit_plan(45, pc()).unwrap();
    g2.submit_plan(45, pc()).unwrap();
    g2.submit_plan(44, pb()).unwrap();
    g2.submit_plan(43, pa()).unwrap();
    assert_eq!(g1.day(), 2);
    for viewer in [None, Some(43), Some(44), Some(45)] {
        assert_eq!(g1.view_for(viewer), g2.view_for(viewer));
    }
}

#[test]
fn the_board_keeps_its_shape() {
    let mut game = Game::new();
    let a = game.add_player("Alda".to_string(), false);
    for _ in 0..6 {
        let view = game.view_for(None);
        let p = player(&view, a).pos;
        game.submit_plan(a, plan(pos(p.row + 2, p.col), EventAction::Attempt, CardAction::NoCard)).unwrap();
        let view = game.view_for(None);
        let c = view.caravan_row;
        let next_id = view.tiles.iter().map(|t| t.id).max().unwrap() + 1;
        for (i, t) in view.tiles.iter().enumerate() {
            assert!(t.pos.row >= c - 1 && t.pos.row <= c + 4);
            assert!(t.pos.col >= 0 && t.pos.col < 7);
            for u in &view.tiles[i + 1..] {
                assert!(t.pos != u.pos);
                assert!(t.id < u.id);
            }
            assert!(t.id < next_id);
        }
        for row in [c + 3, c + 4] {
            assert_eq!(view.tiles.iter().filter(|t| t.pos.row == row).count(), 7);
        }
        assert!(player(&view, a).pos.row >= c - 1);
    }
}

#[test]
fn a_wizard_can_poison_itself() {
    let mut game = Game::new();
    let a = game.add_player("Alda".to_string(), false);
    let poison = CardAction::PlayCard {
        card: Card::PoisonedBreakfast,
        target: CardTarget::Player(a),
        question: None,
    };
    game.submit_plan(a, plan(pos(2, 3), EventAction::Ignore, poison)).unwrap();
    let view = game.view_for(Some(a));
    let p = player(&view, a);
    assert_eq!(p.food, 2);
    // Three energy for the move, and only two back at night.
    assert_eq!(p.energy, 9);
    let own = view.own.clone().unwrap();
    assert_eq!(own.reagents.mooncap, 0);
    assert!(!own.hand.contains(&Card::PoisonedBreakfast));
    let texts = log_texts(&view);
    assert!(texts.contains(&"Alda looks ill after breakfast.".to_string()));
    assert!(texts.contains(
        &"You wake up with Food Sickness. Someone tampered with breakfast.".to_string()
    ));
}

#[test]
fn every_order_of_a_days_plans_gives_the_same_quest() {
    let plans = |id: u64| match id {
        43 => plan(pos(1, 3), EventAction::Attempt, CardAction::NoCard),
        44 => plan(pos(1, 3), EventAction::Attempt, CardAction::Scrap { card: Card::EventSeal }),
        _ => plan(pos(0, 1), EventAction::Attempt, CardAction::NoCard),
    };
    let orders: [[u64; 3]; 6] = [
        [43, 44, 45],
        [43, 45, 44],
        [44, 43, 45],
        [44, 45, 43],
        [45, 43, 44],
        [45, 44, 43],
    ];
    let mut views = Vec::new();
    for order in orders {
        let mut game = Game::new();
        game.add_player("Alda".to_string(), false);
        game.add_player("Bram".to_string(), false);
        game.add_player("Cato".to_string(), false);
        for (k, id) in order.iter().enumerate() {
            game.submit_plan(*id, plans(*id)).unwrap();
            assert_eq!(game.day(), if k < 2 { 1 } else { 2 });
        }
        views.push((game.view_for(None), game.view_for(Some(44))));
    }
    for v in &views[1..] {
        assert_eq!(v, &views[0]);
    }
}
