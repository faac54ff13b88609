//! The game's data: board positions, tiles, wizards, cards, plans and the
//! views handed to clients, together with their mathematical views.
use vstd::prelude::*;

use crate::cards::{card_def, card_title};

verus! {

pub const BOARD_WIDTH: i32 = 7;

pub const FORWARD_ROWS: i32 = 4;

pub const QUEST_DAYS: u32 = 20;

pub const MAX_ENERGY: i32 = 10;

#[derive(Clone, Copy, Debug, PartialEq, Eq, Structural)]
pub struct Position {
    pub row: i32,
    pub col: i32,
}

#[derive(Clone, Copy, Debug, PartialEq, Eq, Structural)]
pub enum EventKind {
    Monster,
    Hunt,
    GuardedTreasure,
    CursedShrine,
    Market,
    Library,
    Camp,
    Trap,
    Shortcut,
    WitchRevenge,
    BeggarThanks,
}

#[derive(Clone, Copy, Debug, PartialEq, Eq)]
pub struct Tile {
    pub id: u64,
    pub pos: Position,
    pub event: EventKind,
    pub sealed_days: u8,
    pub completed_by: Option<u64>,
}

#[derive(Clone, Copy, Debug, Default, PartialEq, Eq, Structural)]
pub struct Reagents {
    pub ash: i32,
    pub mooncap: i32,
    pub ichor: i32,
    pub quartz: i32,
}

#[derive(Clone, Copy, Debug, Eq, Hash, PartialEq, Structural)]
pub enum Card {
    PoisonedBreakfast,
    SpellOfTruth,
    StaffOfSparkAmplification,
    HatOfModestProsperity,
    SuspiciouslyHelpfulMap,
    AlarmWard,
    EventSeal,
}

#[derive(Clone, Copy, Debug, PartialEq, Eq)]
pub enum Status {
    FoodSickness { days: u8 },
    AlarmWard,
    MildCurse { days: u8 },
}

#[derive(Clone, Debug, PartialEq)]
pub struct Player {
    pub id: u64,
    pub name: String,
    pub is_ai: bool,
    pub pos: Position,
    pub energy: i32,
    pub gold: i32,
    pub food: i32,
    pub glory: i32,
    pub reagents: Reagents,
    pub hand: Vec<Card>,
    pub statuses: Vec<Status>,
    pub public_gear: Vec<String>,
}

/// A wizard as a mathematical value.
pub struct PlayerV {
    pub id: u64,
    pub name: Seq<char>,
    pub is_ai: bool,
    pub pos: Position,
    pub energy: i32,
    pub gold: i32,
    pub food: i32,
    pub glory: i32,
    pub reagents: Reagents,
    pub hand: Seq<Card>,
    pub statuses: Seq<Status>,
    pub public_gear: Seq<Seq<char>>,
}

impl View for Player {
    type V = PlayerV;

    open spec fn view(&self) -> PlayerV {
        PlayerV {
            id: self.id,
            name: self.name@,
            is_ai: self.is_ai,
            pos: self.pos,
            energy: self.energy,
            gold: self.gold,
            food: self.food,
            glory: self.glory,
            reagents: self.reagents,
            hand: self.hand@,
            statuses: self.statuses@,
            public_gear: self.public_gear.deep_view(),
        }
    }
}

#[derive(Clone, Debug, PartialEq)]
pub struct LogEntry {
    pub day: u32,
    pub text: String,
    pub private_to: Option<u64>,
}

pub struct LogV {
    pub day: u32,
    pub text: Seq<char>,
    pub private_to: Option<u64>,
}

impl View for LogEntry {
    type V = LogV;

    open spec fn view(&self) -> LogV {
        LogV { day: self.day, text: self.text@, private_to: self.private_to }
    }
}

impl LogEntry {
    /// A copy with the same day, text and addressee.
    pub fn duplicate(&self) -> (r: LogEntry)
        ensures
            r@ == self@,
    {
        LogEntry { day: self.day, text: self.text.clone(), private_to: self.private_to }
    }
}

#[derive(Clone, Debug, PartialEq)]
pub struct PublicPlayer {
    pub id: u64,
    pub name: String,
    pub is_ai: bool,
    pub pos: Position,
    pub energy: i32,
    pub gold: i32,
    pub food: i32,
    pub glory: i32,
    pub statuses: Vec<Status>,
    pub public_gear: Vec<String>,
    pub ready: bool,
}

pub struct PublicPlayerV {
    pub id: u64,
    pub name: Seq<char>,
    pub is_ai: bool,
    pub pos: Position,
    pub energy: i32,
    pub gold: i32,
    pub food: i32,
    pub glory: i32,
    pub statuses: Seq<Status>,
    pub public_gear: Seq<Seq<char>>,
    pub ready: bool,
}

impl View for PublicPlayer {
    type V = PublicPlayerV;

    open spec fn view(&self) -> PublicPlayerV {
        PublicPlayerV {
            id: self.id,
            name: self.name@,
            is_ai: self.is_ai,
            pos: self.pos,
            energy: self.energy,
            gold: self.gold,
            food: self.food,
            glory: self.glory,
            statuses: self.statuses@,
            public_gear: self.public_gear.deep_view(),
            ready: self.ready,
        }
    }
}

impl PublicPlayer {
    /// A copy with the same fields.
    pub fn duplicate(&self) -> (r: PublicPlayer)
        ensures
            r@ == self@,
    {
        let gear = copy_strings(&self.public_gear);
        let statuses = copy_statuses(&self.statuses);
        PublicPlayer {
            id: self.id,
            name: self.name.clone(),
            is_ai: self.is_ai,
            pos: self.pos,
            energy: self.energy,
            gold: self.gold,
            food: self.food,
            glory: self.glory,
            statuses,
            public_gear: gear,
            ready: self.ready,
        }
    }
}

/// A copy of a list of strings.
pub fn copy_strings(v: &Vec<String>) -> (r: Vec<String>)
    ensures
        r.deep_view() == v.deep_view(),
{
    let mut r: Vec<String> = Vec::new();
    let mut i: usize = 0;
    while i < v.len()
        invariant
            i <= v.len(),
            r.len() == i,
            forall|j: int| 0 <= j < i ==> #[trigger] r@[j]@ == v@[j]@,
        decreases v.len() - i,
    {
        r.push(v[i].clone());
        i = i + 1;
    }
    assert(r.deep_view() =~= v.deep_view());
    r
}

/// A copy of a list of statuses.
pub fn copy_statuses(v: &Vec<Status>) -> (r: Vec<Status>)
    ensures
        r@ == v@,
{
    let mut r: Vec<Status> = Vec::new();
    let mut i: usize = 0;
    while i < v.len()
        invariant
            i <= v.len(),
            r@ == v@.take(i as int),
        decreases v.len() - i,
    {
        let s = v[i];
        r.push(s);
        i = i + 1;
        assert(r@ =~= v@.take(i as int));
    }
    assert(v@.take(v.len() as int) =~= v@);
    r
}

/// A copy of a list of cards.
pub fn copy_cards(v: &Vec<Card>) -> (r: Vec<Card>)
    ensures
        r@ == v@,
{
    let mut r: Vec<Card> = Vec::new();
    let mut i: usize = 0;
    while i < v.len()
        invariant
            i <= v.len(),
            r@ == v@.take(i as int),
        decreases v.len() - i,
    {
        let c = v[i];
        r.push(c);
        i = i + 1;
        assert(r@ =~= v@.take(i as int));
    }
    assert(v@.take(v.len() as int) =~= v@);
    r
}

/// A copy of a list of tiles.
pub fn copy_tiles(v: &Vec<Tile>) -> (r: Vec<Tile>)
    ensures
        r@ == v@,
{
    let mut r: Vec<Tile> = Vec::new();
    let mut i: usize = 0;
    while i < v.len()
        invariant
            i <= v.len(),
            r@ == v@.take(i as int),
        decreases v.len() - i,
    {
        let t = v[i];
        r.push(t);
        i = i + 1;
        assert(r@ =~= v@.take(i as int));
    }
    assert(v@.take(v.len() as int) =~= v@);
    r
}

#[derive(Clone, Debug, PartialEq)]
pub struct OwnPlayer {
    pub id: u64,
    pub hand: Vec<Card>,
    pub reagents: Reagents,
}

pub struct OwnPlayerV {
    pub id: u64,
    pub hand: Seq<Card>,
    pub reagents: Reagents,
}

impl View for OwnPlayer {
    type V = OwnPlayerV;

    open spec fn view(&self) -> OwnPlayerV {
        OwnPlayerV { id: self.id, hand: self.hand@, reagents: self.reagents }
    }
}

#[derive(Clone, Debug, PartialEq)]
pub struct GameView {
    pub viewer_id: Option<u64>,
    pub day: u32,
    pub caravan_row: i32,
    pub width: i32,
    pub players: Vec<PublicPlayer>,
    pub tiles: Vec<Tile>,
    pub own: Option<OwnPlayer>,
    pub logs: Vec<LogEntry>,
    pub winners: Vec<PublicPlayer>,
}

pub struct GameViewV {
    pub viewer_id: Option<u64>,
    pub day: u32,
    pub caravan_row: i32,
    pub width: i32,
    pub players: Seq<PublicPlayerV>,
    pub tiles: Seq<Tile>,
    pub own: Option<OwnPlayerV>,
    pub logs: Seq<LogV>,
    pub winners: Seq<PublicPlayerV>,
}

pub open spec fn public_views(v: Seq<PublicPlayer>) -> Seq<PublicPlayerV> {
    v.map_values(|p: PublicPlayer| p@)
}

pub open spec fn player_views(v: Seq<Player>) -> Seq<PlayerV> {
    v.map_values(|p: Player| p@)
}

pub open spec fn log_views(v: Seq<LogEntry>) -> Seq<LogV> {
    v.map_values(|e: LogEntry| e@)
}

impl View for GameView {
    type V = GameViewV;

    open spec fn view(&self) -> GameViewV {
        GameViewV {
            viewer_id: self.viewer_id,
            day: self.day,
            caravan_row: self.caravan_row,
            width: self.width,
            players: public_views(self.players@),
            tiles: self.tiles@,
            own: match self.own {
                Some(o) => Some(o@),
                None => None,
            },
            logs: log_views(self.logs@),
            winners: public_views(self.winners@),
        }
    }
}

#[derive(Clone, Debug)]
pub struct TurnPlan {
    pub target: Position,
    pub event_action: EventAction,
    pub card_action: CardAction,
    pub chat: String,
}

#[derive(Clone, Copy, Debug, PartialEq, Eq)]
pub enum EventAction {
    Attempt,
    Rest,
    Ignore,
}

#[derive(Clone, Debug)]
pub enum CardAction {
    NoCard,
    Scrap { card: Card },
    PlayCard { card: Card, target: CardTarget, question: Option<String> },
}

#[derive(Clone, Copy, Debug, PartialEq, Eq)]
pub enum CardTarget {
    Untargeted,
    Player(u64),
    Tile(Position),
}

/// An optional string as an optional text.
pub open spec fn opt_text(o: Option<String>) -> Option<Seq<char>> {
    match o {
        Some(s) => Some(s@),
        None => None,
    }
}

/// A card action as a mathematical value.
pub enum ActionV {
    NoCard,
    Scrap { card: Card },
    PlayCard { card: Card, target: CardTarget, question: Option<Seq<char>> },
}

impl View for CardAction {
    type V = ActionV;

    open spec fn view(&self) -> ActionV {
        match self {
            CardAction::NoCard => ActionV::NoCard,
            CardAction::Scrap { card } => ActionV::Scrap { card: *card },
            CardAction::PlayCard { card, target, question } => ActionV::PlayCard {
                card: *card,
                target: *target,
                question: match question {
                    Some(q) => Some(q@),
                    None => None,
                },
            },
        }
    }
}

/// A turn plan as a mathematical value.
pub struct PlanV {
    pub target: Position,
    pub event_action: EventAction,
    pub card_action: ActionV,
    pub chat: Seq<char>,
}

impl View for TurnPlan {
    type V = PlanV;

    open spec fn view(&self) -> PlanV {
        PlanV {
            target: self.target,
            event_action: self.event_action,
            card_action: self.card_action@,
            chat: self.chat@,
        }
    }
}

#[derive(Clone, Debug)]
pub enum ClientCommand {
    JoinHuman { name: String },
    AddAi,
    SendChat { player_id: u64, message: String },
    MoveStep { player_id: u64, target: Position },
    SubmitPlan { player_id: u64, plan: TurnPlan },
    AskAiTurn { player_id: u64 },
}

#[derive(Clone, Debug)]
pub enum ServerMessage {
    Snapshot(GameView),
    Joined { player_id: u64 },
    Error(String),
}

/// The display name of a card.
pub fn card_name(card: &Card) -> (r: &'static str)
    ensures
        r@ == card_title(*card),
{
    card_def(*card).name
}

pub open spec fn event_title(event: EventKind) -> Seq<char> {
    match event {
        EventKind::Monster => "Monster"@,
        EventKind::Hunt => "Hunt"@,
        EventKind::GuardedTreasure => "Guarded Treasure"@,
        EventKind::CursedShrine => "Cursed Shrine"@,
        EventKind::Market => "Market"@,
        EventKind::Library => "Library"@,
        EventKind::Camp => "Camp"@,
        EventKind::Trap => "Trap"@,
        EventKind::Shortcut => "Shortcut"@,
        EventKind::WitchRevenge => "Witch Revenge"@,
        EventKind::BeggarThanks => "Beggar Thanks"@,
    }
}

/// The display name of an event.
pub fn event_name(event: &EventKind) -> (r: &'static str)
    ensures
        r@ == event_title(*event),
{
    match event {
        EventKind::Monster => "Monster",
        EventKind::Hunt => "Hunt",
        EventKind::GuardedTreasure => "Guarded Treasure",
        EventKind::CursedShrine => "Cursed Shrine",
        EventKind::Market => "Market",
        EventKind::Library => "Library",
        EventKind::Camp => "Camp",
        EventKind::Trap => "Trap",
        EventKind::Shortcut => "Shortcut",
        EventKind::WitchRevenge => "Witch Revenge",
        EventKind::BeggarThanks => "Beggar Thanks",
    }
}

pub open spec fn event_text(event: EventKind) -> Seq<char> {
    match event {
        EventKind::Monster => "Fight for Glory and monster reagents. Costs extra energy."@,
        EventKind::Hunt => "Spend effort to gather Food and a little Glory."@,
        EventKind::GuardedTreasure => "Break into a protected cache for Gold, Glory, and a card."@,
        EventKind::CursedShrine => "Take a strong Glory reward and suffer a short curse."@,
        EventKind::Market => "Trade for Gold and draw a card. Some choices may echo later."@,
        EventKind::Library => "Gain Quartz and a rare truth spell."@,
        EventKind::Camp => "Recover fully and gain Food. Kindness may return later."@,
        EventKind::Trap => "Survive a hazard. Painful, but worth a little Glory."@,
        EventKind::Shortcut => "Leap ahead and gain Glory, usually at positional risk."@,
        EventKind::WitchRevenge => "A delayed curse from somebody's earlier mistake."@,
        EventKind::BeggarThanks => "A future reward from earlier generosity."@,
    }
}

/// The rules text of an event.
pub fn event_description(event: &EventKind) -> (r: &'static str)
    ensures
        r@ == event_text(*event),
{
    match event {
        EventKind::Monster => "Fight for Glory and monster reagents. Costs extra energy.",
        EventKind::Hunt => "Spend effort to gather Food and a little Glory.",
        EventKind::GuardedTreasure => "Break into a protected cache for Gold, Glory, and a card.",
        EventKind::CursedShrine => "Take a strong Glory reward and suffer a short curse.",
        EventKind::Market => "Trade for Gold and draw a card. Some choices may echo later.",
        EventKind::Library => "Gain Quartz and a rare truth spell.",
        EventKind::Camp => "Recover fully and gain Food. Kindness may return later.",
        EventKind::Trap => "Survive a hazard. Painful, but worth a little Glory.",
        EventKind::Shortcut => "Leap ahead and gain Glory, usually at positional risk.",
        EventKind::WitchRevenge => "A delayed curse from somebody's earlier mistake.",
        EventKind::BeggarThanks => "A future reward from earlier generosity.",
    }
}

pub open spec fn abs_int(x: int) -> int {
    if x < 0 {
        -x
    } else {
        x
    }
}

/// Steps between two squares (rows plus columns).
pub open spec fn step_distance(start: Position, target: Position) -> int {
    abs_int(target.row - start.row) + abs_int(target.col - start.col)
}

/// The extra charge for ending more than one row ahead of the caravan.
pub open spec fn ahead_tax(target: Position, caravan_row: int) -> int {
    if target.row - caravan_row - 1 > 0 {
        target.row - caravan_row - 1
    } else {
        0
    }
}

/// Energy charged to move from `start` to `target`.
pub open spec fn move_cost(start: Position, target: Position, caravan_row: int) -> int {
    let total = step_distance(start, target) + ahead_tax(target, caravan_row);
    if total > 0 {
        total
    } else {
        0
    }
}

/// Every intermediate value of the cost computation fits in an `i32`.
pub open spec fn move_cost_fits(start: Position, target: Position, caravan_row: int) -> bool {
    &&& i32::MIN < target.row - start.row <= i32::MAX
    &&& i32::MIN < target.col - start.col <= i32::MAX
    &&& step_distance(start, target) <= i32::MAX
    &&& i32::MIN <= target.row - caravan_row <= i32::MAX
    &&& i32::MIN <= target.row - caravan_row - 1
    &&& step_distance(start, target) + ahead_tax(target, caravan_row) <= i32::MAX
}

/// Whether `movement_cost` can compute this move's cost in `i32`.
pub fn move_cost_in_range(start: &Position, target: &Position, caravan_row: i32) -> (r: bool)
    ensures
        r == move_cost_fits(*start, *target, caravan_row as int),
{
    let dr = target.row as i64 - start.row as i64;
    let dc = target.col as i64 - start.col as i64;
    let ar = if dr < 0 {
        -dr
    } else {
        dr
    };
    let ac = if dc < 0 {
        -dc
    } else {
        dc
    };
    let ahead = target.row as i64 - caravan_row as i64;
    let over = ahead - 1;
    let tax = if over > 0 {
        over
    } else {
        0
    };
    let max = i32::MAX as i64;
    let min = i32::MIN as i64;
    min < dr && dr <= max && min < dc && dc <= max && ar + ac <= max && min <= ahead && ahead
        <= max && min <= over && ar + ac + tax <= max
}

/// Energy to move from `start` to `target` while the caravan is at `caravan_row`.
pub fn movement_cost(start: &Position, target: &Position, caravan_row: i32) -> (r: i32)
    requires
        move_cost_fits(*start, *target, caravan_row as int),
    ensures
        r == move_cost(*start, *target, caravan_row as int),
{
    let dr = target.row - start.row;
    let dc = target.col - start.col;
    let ar = if dr < 0 {
        -dr
    } else {
        dr
    };
    let ac = if dc < 0 {
        -dc
    } else {
        dc
    };
    let distance = ar + ac;
    let over = target.row - caravan_row - 1;
    let tax = if over > 0 {
        over
    } else {
        0
    };
    let total = distance + tax;
    if total > 0 {
        total
    } else {
        0
    }
}

/// `s` with the first copy of `c` taken out (unchanged when there is none).
pub open spec fn remove_first(s: Seq<Card>, c: Card) -> Seq<Card>
    decreases s.len(),
{
    if s.len() == 0 {
        s
    } else if s[0] == c {
        s.drop_first()
    } else {
        seq![s[0]] + remove_first(s.drop_first(), c)
    }
}

pub proof fn lemma_remove_first_at(s: Seq<Card>, c: Card, i: int)
    requires
        0 <= i < s.len(),
        s[i] == c,
        forall|j: int| 0 <= j < i ==> s[j] != c,
    ensures
        remove_first(s, c) == s.remove(i),
    decreases i,
{
    if i == 0 {
        assert(s.drop_first() =~= s.remove(0));
    } else {
        lemma_remove_first_at(s.drop_first(), c, i - 1);
        assert(seq![s[0]] + s.drop_first().remove(i - 1) =~= s.remove(i));
    }
}

pub proof fn lemma_remove_first_absent(s: Seq<Card>, c: Card)
    requires
        !s.contains(c),
    ensures
        remove_first(s, c) == s,
    decreases s.len(),
{
    if s.len() > 0 {
        assert(!s.drop_first().contains(c)) by {
            if s.drop_first().contains(c) {
                let k = choose|k: int| 0 <= k < s.drop_first().len() && s.drop_first()[k] == c;
                assert(s[k + 1] == c);
            }
        }
        assert(s[0] != c) by {
            if s[0] == c {
                assert(s.contains(c));
            }
        }
        lemma_remove_first_absent(s.drop_first(), c);
        assert(seq![s[0]] + s.drop_first() =~= s);
    }
}

/// Takes the first copy of `card` out of `hand`; returns whether there was one.
pub fn remove_card(hand: &mut Vec<Card>, card: &Card) -> (r: bool)
    ensures
        r == old(hand)@.contains(*card),
        final(hand)@ == remove_first(old(hand)@, *card),
{
    let mut i: usize = 0;
    while i < hand.len()
        invariant
            i <= hand.len(),
            hand@ == old(hand)@,
            forall|j: int| 0 <= j < i ==> hand@[j] != *card,
        decreases hand.len() - i,
    {
        if hand[i] == *card {
            proof {
                lemma_remove_first_at(hand@, *card, i as int);
            }
            hand.remove(i);
            return true;
        }
        i = i + 1;
    }
    proof {
        lemma_remove_first_absent(hand@, *card);
    }
    false
}

} // verus!
