use fellowship::model::{
    event_description, event_name, move_cost_in_range, movement_cost, remove_card, Card, EventKind,
    Position,
};

fn pos(row: i32, col: i32) -> Position {
    Position { row, col }
}

#[test]
fn event_names() {
    assert_eq!(event_name(&EventKind::Monster), "Monster");
    assert_eq!(event_name(&EventKind::Hunt), "Hunt");
    assert_eq!(event_name(&EventKind::GuardedTreasure), "Guarded Treasure");
    assert_eq!(event_name(&EventKind::CursedShrine), "Cursed Shrine");
    assert_eq!(event_name(&EventKind::Market), "Market");
    assert_eq!(event_name(&EventKind::Library), "Library");
    assert_eq!(event_name(&EventKind::Camp), "Camp");
    assert_eq!(event_name(&EventKind::Trap), "Trap");
    assert_eq!(event_name(&EventKind::Shortcut), "Shortcut");
    assert_eq!(event_name(&EventKind::WitchRevenge), "Witch Revenge");
    assert_eq!(event_name(&EventKind::BeggarThanks), "Beggar Thanks");
}

#[test]
fn event_descriptions() {
    assert_eq!(
        event_description(&EventKind::Monster),
        "Fight for Glory and monster reagents. Costs extra energy."
    );
    assert_eq!(
        event_description(&EventKind::Camp),
        "Recover fully and gain Food. Kindness may return later."
    );
    assert_eq!(
        event_description(&EventKind::WitchRevenge),
        "A delayed curse from somebody's earlier mistake."
    );
    assert_eq!(
        event_description(&EventKind::BeggarThanks),
        "A future reward from earlier generosity."
    );
    assert_eq!(
        event_description(&EventKind::Shortcut),
        "Leap ahead and gain Glory, usually at positional risk."
    );
}

#[test]
fn movement_cost_is_distance_near_the_caravan() {
    assert_eq!(movement_cost(&pos(0, 3), &pos(0, 3), 0), 0);
    assert_eq!(movement_cost(&pos(0, 3), &pos(0, 4), 0), 1);
    assert_eq!(movement_cost(&pos(0, 3), &pos(1, 3), 0), 1);
    assert_eq!(movement_cost(&pos(0, 3), &pos(-1, 0), 0), 4);
}

#[test]
fn movement_cost_taxes_rows_ahead() {
    // Two rows ahead of the caravan: one extra energy.
    assert_eq!(movement_cost(&pos(0, 3), &pos(2, 3), 0), 3);
    // Four rows ahead: three extra energy.
    assert_eq!(movement_cost(&pos(0, 3), &pos(4, 3), 0), 7);
    // Relative to a caravan further down the road.
    assert_eq!(movement_cost(&pos(6, 0), &pos(6, 1), 4), 2);
    assert_eq!(movement_cost(&pos(6, 0), &pos(5, 0), 4), 1);
}

#[test]
fn movement_cost_covers_steps_law_on_values() {
    let start = pos(1, 1);
    for row in -1..=5 {
        for col in 0..7 {
            let target = pos(row, col);
            let steps = (row - start.row).abs() + (col - start.col).abs();
            let cost = movement_cost(&start, &target, 0);
            assert!(cost >= steps);
            assert!(cost >= 0);
            if row <= 1 {
                assert_eq!(cost, steps);
            }
        }
    }
}

#[test]
fn remove_card_takes_one_copy() {
    let mut hand = vec![Card::EventSeal, Card::AlarmWard, Card::EventSeal];
    assert!(remove_card(&mut hand, &Card::EventSeal));
    assert_eq!(hand, vec![Card::AlarmWard, Card::EventSeal]);
    assert!(remove_card(&mut hand, &Card::EventSeal));
    assert_eq!(hand, vec![Card::AlarmWard]);
}

#[test]
fn remove_card_missing_leaves_hand() {
    let mut hand = vec![Card::AlarmWard, Card::SpellOfTruth];
    assert!(!remove_card(&mut hand, &Card::PoisonedBreakfast));
    assert_eq!(hand, vec![Card::AlarmWard, Card::SpellOfTruth]);
    let mut empty: Vec<Card> = Vec::new();
    assert!(!remove_card(&mut empty, &Card::AlarmWard));
    assert!(empty.is_empty());
}

#[test]
fn move_cost_range_check() {
    assert!(move_cost_in_range(&pos(0, 3), &pos(2, 3), 0));
    assert!(move_cost_in_range(&pos(-1, 0), &pos(40, 6), 38));
    assert!(!move_cost_in_range(&pos(i32::MIN, 0), &pos(i32::MAX, 0), 0));
    assert!(!move_cost_in_range(&pos(0, 0), &pos(i32::MAX, 0), i32::MIN));
}
