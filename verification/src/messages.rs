//! The texts of the game log, each stated as a spec function and built by an
//! executable function proved to produce it.
use vstd::prelude::*;
use vstd::string::*;

use crate::cards::card_title;
use crate::model::{Card, EventKind};
use crate::text::{int_text, nat_text, push_int, push_nat, text_of};

verus! {

pub open spec fn opening_text() -> Seq<char> {
    "The caravan lurches into motion. Nobody fully trusts the map."@
}

pub open spec fn unknown_name() -> Seq<char> {
    "Unknown wizard"@
}

pub open spec fn default_question() -> Seq<char> {
    "What are you planning?"@
}

pub open spec fn joins_text(name: Seq<char>) -> Seq<char> {
    name + " joins the quest."@
}

pub open spec fn chat_text(name: Seq<char>, message: Seq<char>) -> Seq<char> {
    name + ": "@ + message
}

pub open spec fn row_col_text(row: int, col: int) -> Seq<char> {
    "row "@ + int_text(row) + ", column "@ + int_text(col)
}

pub open spec fn step_text(name: Seq<char>, row: int, col: int, cost: int) -> Seq<char> {
    name + " moves to "@ + row_col_text(row, col) + " for "@ + int_text(cost) + " Energy."@
}

pub open spec fn no_energy_text(cost: int) -> Seq<char> {
    "Not enough energy. This step costs "@ + int_text(cost) + "."@
}

pub open spec fn plans_resolve_text(day: nat) -> Seq<char> {
    "Day "@ + nat_text(day) + " plans resolve."@
}

pub open spec fn day_begins_text(day: nat) -> Seq<char> {
    "Day "@ + nat_text(day) + " begins."@
}

pub open spec fn scrap_text(name: Seq<char>, card: Card) -> Seq<char> {
    name + " scraps "@ + card_title(card) + " for supplies."@
}

pub open spec fn bad_target_text(name: Seq<char>, card: Card) -> Seq<char> {
    name + " tries to play "@ + card_title(card) + " without a valid target."@
}

pub open spec fn poisoned_text() -> Seq<char> {
    "You wake up with Food Sickness. Someone tampered with breakfast."@
}

pub open spec fn ill_text(name: Seq<char>) -> Seq<char> {
    name + " looks ill after breakfast."@
}

pub open spec fn truth_text(caster: Seq<char>, target: Seq<char>, question: Seq<char>) -> Seq<
    char,
> {
    caster + " casts Spell of Truth on "@ + target + ": \""@ + question + "\""@
}

pub open spec fn equips_text(name: Seq<char>, card: Card) -> Seq<char> {
    name + " equips "@ + card_title(card) + "."@
}

pub open spec fn map_text(name: Seq<char>) -> Seq<char> {
    name + " consults a suspiciously helpful map."@
}

pub open spec fn ward_text(name: Seq<char>) -> Seq<char> {
    name + " prepares a faintly humming ward."@
}

pub open spec fn sealed_tile_text(row: int, col: int) -> Seq<char> {
    "A tile at "@ + row_col_text(row, col) + " is sealed."@
}

pub open spec fn exhausted_text(name: Seq<char>, row: int, col: int) -> Seq<char> {
    name + " is too exhausted to reach "@ + row_col_text(row, col) + "."@
}

pub open spec fn moves_text(name: Seq<char>, row: int, col: int, cost: int) -> Seq<char> {
    name + " moves to "@ + row_col_text(row, col) + " for "@ + int_text(cost) + " energy."@
}

pub open spec fn rest_text(name: Seq<char>) -> Seq<char> {
    name + " rests instead of pushing luck."@
}

pub open spec fn no_event_text(name: Seq<char>) -> Seq<char> {
    name + " finds no available event there."@
}

pub open spec fn sealed_event_text(name: Seq<char>) -> Seq<char> {
    name + " reaches a sealed event and cannot enter."@
}

pub open spec fn event_suffix(event: EventKind) -> Seq<char> {
    match event {
        EventKind::Monster => " defeats a monster for 3 Glory."@,
        EventKind::Hunt => " returns from a hunt with Food and 1 Glory."@,
        EventKind::GuardedTreasure => " cracks a guarded treasure."@,
        EventKind::CursedShrine => " takes shrine power and a curse."@,
        EventKind::Market => " trades at a market caravan."@,
        EventKind::Library => " finds a rare spell in a library."@,
        EventKind::Camp => " recovers at camp."@,
        EventKind::Trap => " survives a trap and earns 1 Glory."@,
        EventKind::Shortcut => " takes a reckless shortcut."@,
        EventKind::WitchRevenge => " suffers a witch's delayed revenge."@,
        EventKind::BeggarThanks => " is repaid by old kindness."@,
    }
}

pub open spec fn event_done_text(event: EventKind, name: Seq<char>) -> Seq<char> {
    name + event_suffix(event)
}

pub open spec fn consequence_text() -> Seq<char> {
    "A future consequence slips into the road ahead."@
}

pub open spec fn hat_text(name: Seq<char>) -> Seq<char> {
    name + "'s hat produces 1 Gold."@
}

pub open spec fn ai_intro_text() -> Seq<char> {
    "You are an AI player. Private hand and reagents are visible only to you."@
}

pub open spec fn ai_name_text(number: nat) -> Seq<char> {
    "AI Wizard "@ + nat_text(number)
}

pub fn opening_msg() -> (r: String)
    ensures
        r@ == opening_text(),
{
    text_of("The caravan lurches into motion. Nobody fully trusts the map.")
}

pub fn unknown_name_msg() -> (r: String)
    ensures
        r@ == unknown_name(),
{
    text_of("Unknown wizard")
}

pub fn joins_msg(name: &str) -> (r: String)
    ensures
        r@ == joins_text(name@),
{
    let mut s = text_of(name);
    s.append(" joins the quest.");
    s
}

pub fn chat_msg(name: &str, message: &str) -> (r: String)
    ensures
        r@ == chat_text(name@, message@),
{
    let mut s = text_of(name);
    s.append(": ");
    s.append(message);
    s
}

fn push_row_col(s: &mut String, row: i32, col: i32)
    ensures
        final(s)@ == old(s)@ + row_col_text(row as int, col as int),
{
    s.append("row ");
    push_int(s, row);
    s.append(", column ");
    push_int(s, col);
    assert(final(s)@ =~= old(s)@ + row_col_text(row as int, col as int));
}

pub fn step_msg(name: &str, row: i32, col: i32, cost: i32) -> (r: String)
    ensures
        r@ == step_text(name@, row as int, col as int, cost as int),
{
    let mut s = text_of(name);
    s.append(" moves to ");
    push_row_col(&mut s, row, col);
    s.append(" for ");
    push_int(&mut s, cost);
    s.append(" Energy.");
    assert(s@ =~= step_text(name@, row as int, col as int, cost as int));
    s
}

pub fn no_energy_msg(cost: i32) -> (r: String)
    ensures
        r@ == no_energy_text(cost as int),
{
    let mut s = text_of("Not enough energy. This step costs ");
    push_int(&mut s, cost);
    s.append(".");
    s
}

pub fn plans_resolve_msg(day: u32) -> (r: String)
    ensures
        r@ == plans_resolve_text(day as nat),
{
    let mut s = text_of("Day ");
    push_nat(&mut s, day as u64);
    s.append(" plans resolve.");
    s
}

pub fn day_begins_msg(day: u32) -> (r: String)
    ensures
        r@ == day_begins_text(day as nat),
{
    let mut s = text_of("Day ");
    push_nat(&mut s, day as u64);
    s.append(" begins.");
    s
}

pub fn scrap_msg(name: &str, card: Card) -> (r: String)
    ensures
        r@ == scrap_text(name@, card),
{
    let mut s = text_of(name);
    s.append(" scraps ");
    s.append(crate::model::card_name(&card));
    s.append(" for supplies.");
    s
}

pub fn bad_target_msg(name: &str, card: Card) -> (r: String)
    ensures
        r@ == bad_target_text(name@, card),
{
    let mut s = text_of(name);
    s.append(" tries to play ");
    s.append(crate::model::card_name(&card));
    s.append(" without a valid target.");
    s
}

pub fn poisoned_msg() -> (r: String)
    ensures
        r@ == poisoned_text(),
{
    text_of("You wake up with Food Sickness. Someone tampered with breakfast.")
}

pub fn ill_msg(name: &str) -> (r: String)
    ensures
        r@ == ill_text(name@),
{
    let mut s = text_of(name);
    s.append(" looks ill after breakfast.");
    s
}

pub fn truth_msg(caster: &str, target: &str, question: &str) -> (r: String)
    ensures
        r@ == truth_text(caster@, target@, question@),
{
    let mut s = text_of(caster);
    s.append(" casts Spell of Truth on ");
    s.append(target);
    s.append(": \"");
    s.append(question);
    s.append("\"");
    s
}

pub fn equips_msg(name: &str, card: Card) -> (r: String)
    ensures
        r@ == equips_text(name@, card),
{
    let mut s = text_of(name);
    s.append(" equips ");
    s.append(crate::model::card_name(&card));
    s.append(".");
    s
}

pub fn map_msg(name: &str) -> (r: String)
    ensures
        r@ == map_text(name@),
{
    let mut s = text_of(name);
    s.append(" consults a suspiciously helpful map.");
    s
}

pub fn ward_msg(name: &str) -> (r: String)
    ensures
        r@ == ward_text(name@),
{
    let mut s = text_of(name);
    s.append(" prepares a faintly humming ward.");
    s
}

pub fn sealed_tile_msg(row: i32, col: i32) -> (r: String)
    ensures
        r@ == sealed_tile_text(row as int, col as int),
{
    let mut s = text_of("A tile at ");
    push_row_col(&mut s, row, col);
    s.append(" is sealed.");
    s
}

pub fn exhausted_msg(name: &str, row: i32, col: i32) -> (r: String)
    ensures
        r@ == exhausted_text(name@, row as int, col as int),
{
    let mut s = text_of(name);
    s.append(" is too exhausted to reach ");
    push_row_col(&mut s, row, col);
    s.append(".");
    s
}

pub fn moves_msg(name: &str, row: i32, col: i32, cost: i32) -> (r: String)
    ensures
        r@ == moves_text(name@, row as int, col as int, cost as int),
{
    let mut s = text_of(name);
    s.append(" moves to ");
    push_row_col(&mut s, row, col);
    s.append(" for ");
    push_int(&mut s, cost);
    s.append(" energy.");
    assert(s@ =~= moves_text(name@, row as int, col as int, cost as int));
    s
}

pub fn rest_msg(name: &str) -> (r: String)
    ensures
        r@ == rest_text(name@),
{
    let mut s = text_of(name);
    s.append(" rests instead of pushing luck.");
    s
}

pub fn no_event_msg(name: &str) -> (r: String)
    ensures
        r@ == no_event_text(name@),
{
    let mut s = text_of(name);
    s.append(" finds no available event there.");
    s
}

pub fn sealed_event_msg(name: &str) -> (r: String)
    ensures
        r@ == sealed_event_text(name@),
{
    let mut s = text_of(name);
    s.append(" reaches a sealed event and cannot enter.");
    s
}

pub fn event_done_msg(event: EventKind, name: &str) -> (r: String)
    ensures
        r@ == event_done_text(event, name@),
{
    let mut s = text_of(name);
    let suffix = match event {
        EventKind::Monster => " defeats a monster for 3 Glory.",
        EventKind::Hunt => " returns from a hunt with Food and 1 Glory.",
        EventKind::GuardedTreasure => " cracks a guarded treasure.",
        EventKind::CursedShrine => " takes shrine power and a curse.",
        EventKind::Market => " trades at a market caravan.",
        EventKind::Library => " finds a rare spell in a library.",
        EventKind::Camp => " recovers at camp.",
        EventKind::Trap => " survives a trap and earns 1 Glory.",
        EventKind::Shortcut => " takes a reckless shortcut.",
        EventKind::WitchRevenge => " suffers a witch's delayed revenge.",
        EventKind::BeggarThanks => " is repaid by old kindness.",
    };
    s.append(suffix);
    s
}

pub fn consequence_msg() -> (r: String)
    ensures
        r@ == consequence_text(),
{
    text_of("A future consequence slips into the road ahead.")
}

pub fn hat_msg(name: &str) -> (r: String)
    ensures
        r@ == hat_text(name@),
{
    let mut s = text_of(name);
    s.append("'s hat produces 1 Gold.");
    s
}

pub fn ai_intro_msg() -> (r: String)
    ensures
        r@ == ai_intro_text(),
{
    text_of("You are an AI player. Private hand and reagents are visible only to you.")
}

pub fn ai_name_msg(number: u64) -> (r: String)
    ensures
        r@ == ai_name_text(number as nat),
{
    let mut s = text_of("AI Wizard ");
    push_nat(&mut s, number);
    s
}

} // verus!
