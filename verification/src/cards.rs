//! Card definitions: kind, targeting, cost and rules text of every card, and
//! reagent payments.
use vstd::prelude::*;
use vstd::string::*;

use crate::model::{Card, Reagents};
use crate::text::{int_text, push_int};

verus! {

#[derive(Clone, Copy, Debug, PartialEq, Eq)]
pub enum CardKind {
    Scheme,
    Spell,
    Equipment,
    Item,
    Ward,
}

#[derive(Clone, Copy, Debug, PartialEq, Eq, Structural)]
pub enum TargetKind {
    Untargeted,
    Player,
    Tile,
}

#[derive(Clone, Copy, Debug, Default, PartialEq, Eq)]
pub struct CardCost {
    pub energy: i32,
    pub gold: i32,
    pub food: i32,
    pub reagents: Reagents,
}

#[derive(Clone, Copy, Debug, PartialEq)]
pub struct CardDef {
    pub id: Card,
    pub name: &'static str,
    pub kind: CardKind,
    pub target: TargetKind,
    pub one_use: bool,
    pub rare: bool,
    pub cost: CardCost,
    pub rules: &'static str,
}

pub open spec fn no_reagents() -> Reagents {
    Reagents { ash: 0, mooncap: 0, ichor: 0, quartz: 0 }
}

pub open spec fn free_cost() -> CardCost {
    CardCost { energy: 0, gold: 0, food: 0, reagents: no_reagents() }
}

impl Reagents {
    /// No reagents at all.
    pub fn zero() -> (r: Reagents)
        ensures
            r == no_reagents(),
    {
        Reagents { ash: 0, mooncap: 0, ichor: 0, quartz: 0 }
    }

    /// Whether every reagent count covers the cost.
    pub fn can_pay(&self, cost: &Self) -> (r: bool)
        ensures
            r == (self.ash >= cost.ash && self.mooncap >= cost.mooncap && self.ichor >= cost.ichor
                && self.quartz >= cost.quartz),
    {
        self.ash >= cost.ash && self.mooncap >= cost.mooncap && self.ichor >= cost.ichor
            && self.quartz >= cost.quartz
    }

    /// Subtracts the cost from each reagent count.
    pub fn spend(&mut self, cost: &Self)
        requires
            i32::MIN <= old(self).ash - cost.ash <= i32::MAX,
            i32::MIN <= old(self).mooncap - cost.mooncap <= i32::MAX,
            i32::MIN <= old(self).ichor - cost.ichor <= i32::MAX,
            i32::MIN <= old(self).quartz - cost.quartz <= i32::MAX,
        ensures
            *final(self) == spent(*old(self), *cost),
    {
        self.ash = self.ash - cost.ash;
        self.mooncap = self.mooncap - cost.mooncap;
        self.ichor = self.ichor - cost.ichor;
        self.quartz = self.quartz - cost.quartz;
    }
}

/// The reagents left after paying `cost` out of `have`.
pub open spec fn spent(have: Reagents, cost: Reagents) -> Reagents {
    Reagents {
        ash: (have.ash - cost.ash) as i32,
        mooncap: (have.mooncap - cost.mooncap) as i32,
        ichor: (have.ichor - cost.ichor) as i32,
        quartz: (have.quartz - cost.quartz) as i32,
    }
}

impl CardCost {
    /// A cost of nothing.
    pub fn zero() -> (r: CardCost)
        ensures
            r == free_cost(),
    {
        CardCost { energy: 0, gold: 0, food: 0, reagents: Reagents::zero() }
    }
}

pub open spec fn card_title(card: Card) -> Seq<char> {
    match card {
        Card::PoisonedBreakfast => "Poisoned Breakfast"@,
        Card::SpellOfTruth => "Spell of Truth"@,
        Card::StaffOfSparkAmplification => "Staff of Spark Amplification"@,
        Card::HatOfModestProsperity => "Hat of Modest Prosperity"@,
        Card::SuspiciouslyHelpfulMap => "Suspiciously Helpful Map"@,
        Card::AlarmWard => "Alarm Ward"@,
        Card::EventSeal => "Event Seal"@,
    }
}

pub open spec fn card_kind(card: Card) -> CardKind {
    match card {
        Card::PoisonedBreakfast => CardKind::Scheme,
        Card::SpellOfTruth => CardKind::Spell,
        Card::StaffOfSparkAmplification => CardKind::Equipment,
        Card::HatOfModestProsperity => CardKind::Equipment,
        Card::SuspiciouslyHelpfulMap => CardKind::Item,
        Card::AlarmWard => CardKind::Ward,
        Card::EventSeal => CardKind::Spell,
    }
}

pub open spec fn card_target_kind(card: Card) -> TargetKind {
    match card {
        Card::PoisonedBreakfast => TargetKind::Player,
        Card::SpellOfTruth => TargetKind::Player,
        Card::EventSeal => TargetKind::Tile,
        _ => TargetKind::Untargeted,
    }
}

pub open spec fn card_one_use(card: Card) -> bool {
    match card {
        Card::StaffOfSparkAmplification => false,
        Card::HatOfModestProsperity => false,
        _ => true,
    }
}

pub open spec fn card_rare(card: Card) -> bool {
    card == Card::SpellOfTruth
}

pub open spec fn card_cost(card: Card) -> CardCost {
    match card {
        Card::PoisonedBreakfast => CardCost {
            food: 1,
            reagents: Reagents { mooncap: 1, ..no_reagents() },
            ..free_cost()
        },
        Card::SpellOfTruth => CardCost {
            reagents: Reagents { quartz: 1, ..no_reagents() },
            ..free_cost()
        },
        Card::AlarmWard => CardCost {
            reagents: Reagents { quartz: 1, ..no_reagents() },
            ..free_cost()
        },
        Card::EventSeal => CardCost {
            reagents: Reagents { ash: 1, quartz: 1, ..no_reagents() },
            ..free_cost()
        },
        _ => free_cost(),
    }
}

pub open spec fn card_rules(card: Card) -> Seq<char> {
    match card {
        Card::PoisonedBreakfast => "Target wakes next morning with Food Sickness. Anonymous."@,
        Card::SpellOfTruth => "Ask one public question. Target must answer truthfully over voice."@,
        Card::StaffOfSparkAmplification => "Equip. Lightning or attack spells are stronger in monster encounters."@,
        Card::HatOfModestProsperity => "Equip. Gain 1 Gold during upkeep."@,
        Card::SuspiciouslyHelpfulMap => "Peek at the road ahead. Prototype: gain 1 Quartz."@,
        Card::AlarmWard => "Prepare a camp ward against poison, theft, curses, and tampering."@,
        Card::EventSeal => "Seal an event tile for 2 days so nobody can complete it."@,
    }
}

/// The definition of `card` matches all of the spec functions above.
pub open spec fn is_def_of(def: CardDef, card: Card) -> bool {
    &&& def.id == card
    &&& def.name@ == card_title(card)
    &&& def.kind == card_kind(card)
    &&& def.target == card_target_kind(card)
    &&& def.one_use == card_one_use(card)
    &&& def.rare == card_rare(card)
    &&& def.cost == card_cost(card)
    &&& def.rules@ == card_rules(card)
}

/// The definition of a card.
pub fn card_def(card: Card) -> (r: CardDef)
    ensures
        is_def_of(r, card),
{
    match card {
        Card::PoisonedBreakfast => CardDef {
            id: Card::PoisonedBreakfast,
            name: "Poisoned Breakfast",
            kind: CardKind::Scheme,
            target: TargetKind::Player,
            one_use: true,
            rare: false,
            cost: CardCost {
                food: 1,
                reagents: Reagents { mooncap: 1, ..Reagents::zero() },
                ..CardCost::zero()
            },
            rules: "Target wakes next morning with Food Sickness. Anonymous.",
        },
        Card::SpellOfTruth => CardDef {
            id: Card::SpellOfTruth,
            name: "Spell of Truth",
            kind: CardKind::Spell,
            target: TargetKind::Player,
            one_use: true,
            rare: true,
            cost: CardCost {
                reagents: Reagents { quartz: 1, ..Reagents::zero() },
                ..CardCost::zero()
            },
            rules: "Ask one public question. Target must answer truthfully over voice.",
        },
        Card::StaffOfSparkAmplification => CardDef {
            id: Card::StaffOfSparkAmplification,
            name: "Staff of Spark Amplification",
            kind: CardKind::Equipment,
            target: TargetKind::Untargeted,
            one_use: false,
            rare: false,
            cost: CardCost::zero(),
            rules: "Equip. Lightning or attack spells are stronger in monster encounters.",
        },
        Card::HatOfModestProsperity => CardDef {
            id: Card::HatOfModestProsperity,
            name: "Hat of Modest Prosperity",
            kind: CardKind::Equipment,
            target: TargetKind::Untargeted,
            one_use: false,
            rare: false,
            cost: CardCost::zero(),
            rules: "Equip. Gain 1 Gold during upkeep.",
        },
        Card::SuspiciouslyHelpfulMap => CardDef {
            id: Card::SuspiciouslyHelpfulMap,
            name: "Suspiciously Helpful Map",
            kind: CardKind::Item,
            target: TargetKind::Untargeted,
            one_use: true,
            rare: false,
            cost: CardCost::zero(),
            rules: "Peek at the road ahead. Prototype: gain 1 Quartz.",
        },
        Card::AlarmWard => CardDef {
            id: Card::AlarmWard,
            name: "Alarm Ward",
            kind: CardKind::Ward,
            target: TargetKind::Untargeted,
            one_use: true,
            rare: false,
            cost: CardCost {
                reagents: Reagents { quartz: 1, ..Reagents::zero() },
                ..CardCost::zero()
            },
            rules: "Prepare a camp ward against poison, theft, curses, and tampering.",
        },
        Card::EventSeal => CardDef {
            id: Card::EventSeal,
            name: "Event Seal",
            kind: CardKind::Spell,
            target: TargetKind::Tile,
            one_use: true,
            rare: false,
            cost: CardCost {
                reagents: Reagents { ash: 1, quartz: 1, ..Reagents::zero() },
                ..CardCost::zero()
            },
            rules: "Seal an event tile for 2 days so nobody can complete it.",
        },
    }
}

/// One part of a cost label: the amount and its unit, when the amount is positive.
pub open spec fn cost_part(amount: i32, unit: Seq<char>) -> Seq<Seq<char>> {
    if amount > 0 {
        seq![int_text(amount as int) + unit]
    } else {
        Seq::empty()
    }
}

/// The positive components of a cost, in the order energy, gold, food, ash,
/// mooncap, ichor, quartz.
pub open spec fn cost_parts(cost: CardCost) -> Seq<Seq<char>> {
    cost_part(cost.energy, " Energy"@) + cost_part(cost.gold, " Gold"@) + cost_part(
        cost.food,
        " Food"@,
    ) + cost_part(cost.reagents.ash, " Ash"@) + cost_part(cost.reagents.mooncap, " Mooncap"@)
        + cost_part(cost.reagents.ichor, " Ichor"@) + cost_part(cost.reagents.quartz, " Quartz"@)
}

/// The texts joined with `sep` between neighbours.
pub open spec fn join_texts(parts: Seq<Seq<char>>, sep: Seq<char>) -> Seq<char>
    decreases parts.len(),
{
    if parts.len() == 0 {
        Seq::empty()
    } else if parts.len() == 1 {
        parts[0]
    } else {
        join_texts(parts.drop_last(), sep) + sep + parts.last()
    }
}

/// The label of a cost: its parts separated by commas, or `Free`.
pub open spec fn cost_label(cost: CardCost) -> Seq<char> {
    if cost_parts(cost).len() == 0 {
        "Free"@
    } else {
        join_texts(cost_parts(cost), ", "@)
    }
}

fn add_part(
    label: &mut String,
    any: &mut bool,
    parts: Ghost<Seq<Seq<char>>>,
    amount: i32,
    unit: &str,
)
    requires
        old(label)@ == join_texts(parts@, ", "@),
        *old(any) == (parts@.len() > 0),
    ensures
        final(label)@ == join_texts(parts@ + cost_part(amount, unit@), ", "@),
        *final(any) == ((parts@ + cost_part(amount, unit@)).len() > 0),
{
    if amount > 0 {
        let ghost before = label@;
        if *any {
            label.append(", ");
        }
        *any = true;
        push_int(label, amount);
        label.append(unit);
        proof {
            let next = parts@ + cost_part(amount, unit@);
            assert(next.drop_last() =~= parts@);
            assert(next.last() == int_text(amount as int) + unit@);
            if parts@.len() == 0 {
                assert(next.len() == 1);
                assert(label@ =~= next[0]);
            } else {
                assert(label@ =~= before + ", "@ + next.last());
            }
        }
    } else {
        assert(parts@ + cost_part(amount, unit@) =~= parts@);
    }
}

/// A readable cost such as `1 Food, 1 Mooncap`, or `Free`.
pub fn card_cost_label(card: Card) -> (r: String)
    ensures
        r@ == cost_label(card_cost(card)),
{
    let cost = card_def(card).cost;
    let mut label = String::new();
    let mut any = false;
    let ghost p0: Seq<Seq<char>> = Seq::empty();
    let ghost p1 = p0 + cost_part(cost.energy, " Energy"@);
    let ghost p2 = p1 + cost_part(cost.gold, " Gold"@);
    let ghost p3 = p2 + cost_part(cost.food, " Food"@);
    let ghost p4 = p3 + cost_part(cost.reagents.ash, " Ash"@);
    let ghost p5 = p4 + cost_part(cost.reagents.mooncap, " Mooncap"@);
    let ghost p6 = p5 + cost_part(cost.reagents.ichor, " Ichor"@);
    let ghost p7 = p6 + cost_part(cost.reagents.quartz, " Quartz"@);
    assert(label@ == join_texts(p0, ", "@));
    add_part(&mut label, &mut any, Ghost(p0), cost.energy, " Energy");
    add_part(&mut label, &mut any, Ghost(p1), cost.gold, " Gold");
    add_part(&mut label, &mut any, Ghost(p2), cost.food, " Food");
    add_part(&mut label, &mut any, Ghost(p3), cost.reagents.ash, " Ash");
    add_part(&mut label, &mut any, Ghost(p4), cost.reagents.mooncap, " Mooncap");
    add_part(&mut label, &mut any, Ghost(p5), cost.reagents.ichor, " Ichor");
    add_part(&mut label, &mut any, Ghost(p6), cost.reagents.quartz, " Quartz");
    assert(p7 =~= cost_parts(cost));
    if !any {
        String::from_str("Free")
    } else {
        label
    }
}

} // verus!
