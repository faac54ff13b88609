use fellowship::cards::{card_cost_label, card_def, CardCost, CardKind, TargetKind};
use fellowship::model::{card_name, Card, Reagents};

const ALL_CARDS: [Card; 7] = [
    Card::PoisonedBreakfast,
    Card::SpellOfTruth,
    Card::StaffOfSparkAmplification,
    Card::HatOfModestProsperity,
    Card::SuspiciouslyHelpfulMap,
    Card::AlarmWard,
    Card::EventSeal,
];

fn reagents(ash: i32, mooncap: i32, ichor: i32, quartz: i32) -> Reagents {
    Reagents { ash, mooncap, ichor, quartz }
}

#[test]
fn every_card_has_its_own_definition() {
    for card in ALL_CARDS {
        assert_eq!(card_def(card).id, card);
    }
}

#[test]
fn poisoned_breakfast_definition() {
    let def = card_def(Card::PoisonedBreakfast);
    assert_eq!(def.name, "Poisoned Breakfast");
    assert_eq!(def.kind, CardKind::Scheme);
    assert_eq!(def.target, TargetKind::Player);
    assert!(def.one_use);
    assert!(!def.rare);
    assert_eq!(
        def.cost,
        CardCost { energy: 0, gold: 0, food: 1, reagents: reagents(0, 1, 0, 0) }
    );
    assert_eq!(def.rules, "Target wakes next morning with Food Sickness. Anonymous.");
}

#[test]
fn spell_of_truth_is_rare_and_costs_quartz() {
    let def = card_def(Card::SpellOfTruth);
    assert_eq!(def.name, "Spell of Truth");
    assert_eq!(def.kind, CardKind::Spell);
    assert_eq!(def.target, TargetKind::Player);
    assert!(def.one_use);
    assert!(def.rare);
    assert_eq!(def.cost.reagents, reagents(0, 0, 0, 1));
}

#[test]
fn equipment_is_free_and_lasting() {
    for card in [Card::StaffOfSparkAmplification, Card::HatOfModestProsperity] {
        let def = card_def(card);
        assert_eq!(def.kind, CardKind::Equipment);
        assert_eq!(def.target, TargetKind::Untargeted);
        assert!(!def.one_use);
        assert_eq!(def.cost, CardCost::zero());
    }
    assert_eq!(card_def(Card::HatOfModestProsperity).rules, "Equip. Gain 1 Gold during upkeep.");
}

#[test]
fn event_seal_targets_a_tile() {
    let def = card_def(Card::EventSeal);
    assert_eq!(def.target, TargetKind::Tile);
    assert_eq!(def.kind, CardKind::Spell);
    assert_eq!(def.cost.reagents, reagents(1, 0, 0, 1));
    assert_eq!(def.rules, "Seal an event tile for 2 days so nobody can complete it.");
}

#[test]
fn map_and_ward_kinds() {
    assert_eq!(card_def(Card::SuspiciouslyHelpfulMap).kind, CardKind::Item);
    assert_eq!(card_def(Card::AlarmWard).kind, CardKind::Ward);
    assert_eq!(card_def(Card::AlarmWard).cost.reagents, reagents(0, 0, 0, 1));
}

#[test]
fn cost_labels() {
    assert_eq!(card_cost_label(Card::PoisonedBreakfast), "1 Food, 1 Mooncap");
    assert_eq!(card_cost_label(Card::SpellOfTruth), "1 Quartz");
    assert_eq!(card_cost_label(Card::StaffOfSparkAmplification), "Free");
    assert_eq!(card_cost_label(Card::HatOfModestProsperity), "Free");
    assert_eq!(card_cost_label(Card::SuspiciouslyHelpfulMap), "Free");
    assert_eq!(card_cost_label(Card::AlarmWard), "1 Quartz");
    assert_eq!(card_cost_label(Card::EventSeal), "1 Ash, 1 Quartz");
}

#[test]
fn card_names_come_from_definitions() {
    for card in ALL_CARDS {
        assert_eq!(card_name(&card), card_def(card).name);
    }
    assert_eq!(card_name(&Card::StaffOfSparkAmplification), "Staff of Spark Amplification");
    assert_eq!(card_name(&Card::SuspiciouslyHelpfulMap), "Suspiciously Helpful Map");
}

#[test]
fn can_pay_needs_every_reagent() {
    let have = reagents(1, 1, 1, 1);
    assert!(have.can_pay(&reagents(1, 1, 1, 1)));
    assert!(have.can_pay(&reagents(0, 0, 0, 0)));
    assert!(!have.can_pay(&reagents(0, 0, 0, 2)));
    assert!(!have.can_pay(&reagents(2, 0, 0, 0)));
    assert!(!reagents(0, 5, 5, 5).can_pay(&reagents(1, 0, 0, 0)));
}

#[test]
fn spend_subtracts_each_reagent() {
    let mut have = reagents(3, 2, 1, 4);
    have.spend(&reagents(1, 2, 0, 3));
    assert_eq!(have, reagents(2, 0, 1, 1));
}

#[test]
fn payment_law_on_values() {
    let have = reagents(2, 1, 0, 5);
    let cost = reagents(1, 1, 0, 2);
    assert!(have.can_pay(&cost));
    let mut left = have;
    left.spend(&cost);
    assert!(left.ash >= 0 && left.mooncap >= 0 && left.ichor >= 0 && left.quartz >= 0);
    assert_eq!(left.ash + cost.ash, have.ash);
    assert_eq!(left.quartz + cost.quartz, have.quartz);
}

#[test]
fn zero_reagents_and_cost() {
    assert_eq!(Reagents::zero(), reagents(0, 0, 0, 0));
    let c = CardCost::zero();
    assert_eq!(c.energy, 0);
    assert_eq!(c.gold, 0);
    assert_eq!(c.food, 0);
    assert_eq!(c.reagents, Reagents::zero());
}
