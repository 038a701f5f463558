//! The district cards.

use vstd::prelude::*;

use crate::domain::color::Color;

verus! {

/// A district card. Each card has a colour, a building fee and a number
/// of copies in the deck.
#[derive(Clone, Copy, Debug, PartialEq, Eq, Structural)]
pub enum Card {
    // green
    Tavern,
    TradingPost,
    Market,
    Docks,
    Harbor,
    TownHall,
    // yellow
    Manor,
    Castle,
    Palace,
    // blue
    Temple,
    Church,
    Monastery,
    Cathedral,
    // red
    Watchtower,
    Prison,
    Battlefield,
    Fortress,
    // purple
    HauntedCity,
    Keep,
    Observatory,
    Smithy,
    Laboratory,
    Graveyard,
    SchoolOfMagic,
    Library,
    GreatWall,
    DragonGate,
    University,
}

impl Card {
    /// Colour of the card.
    pub open spec fn spec_color(self) -> Color {
        match self {
            Card::Tavern => Color::Green,
            Card::TradingPost => Color::Green,
            Card::Market => Color::Green,
            Card::Docks => Color::Green,
            Card::Harbor => Color::Green,
            Card::TownHall => Color::Green,
            Card::Manor => Color::Yellow,
            Card::Castle => Color::Yellow,
            Card::Palace => Color::Yellow,
            Card::Temple => Color::Blue,
            Card::Church => Color::Blue,
            Card::Monastery => Color::Blue,
            Card::Cathedral => Color::Blue,
            Card::Watchtower => Color::Red,
            Card::Prison => Color::Red,
            Card::Battlefield => Color::Red,
            Card::Fortress => Color::Red,
            Card::HauntedCity => Color::Purple,
            Card::Keep => Color::Purple,
            Card::Observatory => Color::Purple,
            Card::Smithy => Color::Purple,
            Card::Laboratory => Color::Purple,
            Card::Graveyard => Color::Purple,
            Card::SchoolOfMagic => Color::Purple,
            Card::Library => Color::Purple,
            Card::GreatWall => Color::Purple,
            Card::DragonGate => Color::Purple,
            Card::University => Color::Purple,
        }
    }

    /// Gold needed to build the card.
    pub open spec fn spec_fee(self) -> u32 {
        match self {
            Card::Tavern => 1,
            Card::TradingPost => 2,
            Card::Market => 2,
            Card::Docks => 3,
            Card::Harbor => 4,
            Card::TownHall => 5,
            Card::Manor => 3,
            Card::Castle => 4,
            Card::Palace => 5,
            Card::Temple => 1,
            Card::Church => 2,
            Card::Monastery => 3,
            Card::Cathedral => 5,
            Card::Watchtower => 1,
            Card::Prison => 2,
            Card::Battlefield => 3,
            Card::Fortress => 5,
            Card::HauntedCity => 2,
            Card::Keep => 3,
            Card::Observatory => 5,
            Card::Smithy => 5,
            Card::Laboratory => 5,
            Card::Graveyard => 5,
            Card::SchoolOfMagic => 6,
            Card::Library => 6,
            Card::GreatWall => 6,
            Card::DragonGate => 6,
            Card::University => 6,
        }
    }

    /// Copies of the card in a full deck.
    pub open spec fn spec_number(self) -> u32 {
        match self {
            Card::Tavern => 5,
            Card::TradingPost => 3,
            Card::Market => 4,
            Card::Docks => 3,
            Card::Harbor => 3,
            Card::TownHall => 2,
            Card::Manor => 5,
            Card::Castle => 4,
            Card::Palace => 3,
            Card::Temple => 3,
            Card::Church => 3,
            Card::Monastery => 3,
            Card::Cathedral => 2,
            Card::Watchtower => 3,
            Card::Prison => 3,
            Card::Battlefield => 3,
            Card::Fortress => 2,
            Card::HauntedCity => 1,
            Card::Keep => 2,
            Card::Observatory => 1,
            Card::Smithy => 1,
            Card::Laboratory => 1,
            Card::Graveyard => 1,
            Card::SchoolOfMagic => 1,
            Card::Library => 1,
            Card::GreatWall => 1,
            Card::DragonGate => 1,
            Card::University => 1,
        }
    }

    pub open spec fn spec_name(self) -> Seq<char> {
        match self {
            Card::Tavern => "酒馆"@,
            Card::TradingPost => "贸易站"@,
            Card::Market => "市场"@,
            Card::Docks => "码头"@,
            Card::Harbor => "海港"@,
            Card::TownHall => "市政厅"@,
            Card::Manor => "庄园"@,
            Card::Castle => "城堡"@,
            Card::Palace => "皇宫"@,
            Card::Temple => "神殿"@,
            Card::Church => "教堂"@,
            Card::Monastery => "修道院"@,
            Card::Cathedral => "大教堂"@,
            Card::Watchtower => "瞭望台"@,
            Card::Prison => "监狱"@,
            Card::Battlefield => "战场"@,
            Card::Fortress => "堡垒"@,
            Card::HauntedCity => "鬼城"@,
            Card::Keep => "要塞"@,
            Card::Observatory => "天文台"@,
            Card::Smithy => "铁匠铺"@,
            Card::Laboratory => "实验室"@,
            Card::Graveyard => "墓地"@,
            Card::SchoolOfMagic => "魔法学院"@,
            Card::Library => "图书馆"@,
            Card::GreatWall => "城墙"@,
            Card::DragonGate => "龙门"@,
            Card::University => "大学"@,
        }
    }

    /// Points the building scores: its fee, two more for the two
    /// six-gold wonders that reward scoring.
    pub open spec fn spec_score(self) -> u32 {
        match self {
            Card::DragonGate => (2 + self.spec_fee()) as u32,
            Card::University => (2 + self.spec_fee()) as u32,
            _ => self.spec_fee(),
        }
    }

    /// Display name of the card.
    pub fn name(&self) -> (r: &'static str)
        ensures
            r@ == self.spec_name(),
    {
        match self {
            Card::Tavern => "酒馆",
            Card::TradingPost => "贸易站",
            Card::Market => "市场",
            Card::Docks => "码头",
            Card::Harbor => "海港",
            Card::TownHall => "市政厅",
            Card::Manor => "庄园",
            Card::Castle => "城堡",
            Card::Palace => "皇宫",
            Card::Temple => "神殿",
            Card::Church => "教堂",
            Card::Monastery => "修道院",
            Card::Cathedral => "大教堂",
            Card::Watchtower => "瞭望台",
            Card::Prison => "监狱",
            Card::Battlefield => "战场",
            Card::Fortress => "堡垒",
            Card::HauntedCity => "鬼城",
            Card::Keep => "要塞",
            Card::Observatory => "天文台",
            Card::Smithy => "铁匠铺",
            Card::Laboratory => "实验室",
            Card::Graveyard => "墓地",
            Card::SchoolOfMagic => "魔法学院",
            Card::Library => "图书馆",
            Card::GreatWall => "城墙",
            Card::DragonGate => "龙门",
            Card::University => "大学",
        }
    }

    fn color_fee_number(&self) -> (r: (Color, u32, u32))
        ensures
            r == (self.spec_color(), self.spec_fee(), self.spec_number()),
    {
        match self {
            Card::Tavern => (Color::Green, 1, 5),
            Card::TradingPost => (Color::Green, 2, 3),
            Card::Market => (Color::Green, 2, 4),
            Card::Docks => (Color::Green, 3, 3),
            Card::Harbor => (Color::Green, 4, 3),
            Card::TownHall => (Color::Green, 5, 2),
            Card::Manor => (Color::Yellow, 3, 5),
            Card::Castle => (Color::Yellow, 4, 4),
            Card::Palace => (Color::Yellow, 5, 3),
            Card::Temple => (Color::Blue, 1, 3),
            Card::Church => (Color::Blue, 2, 3),
            Card::Monastery => (Color::Blue, 3, 3),
            Card::Cathedral => (Color::Blue, 5, 2),
            Card::Watchtower => (Color::Red, 1, 3),
            Card::Prison => (Color::Red, 2, 3),
            Card::Battlefield => (Color::Red, 3, 3),
            Card::Fortress => (Color::Red, 5, 2),
            Card::HauntedCity => (Color::Purple, 2, 1),
            Card::Keep => (Color::Purple, 3, 2),
            Card::Observatory => (Color::Purple, 5, 1),
            Card::Smithy => (Color::Purple, 5, 1),
            Card::Laboratory => (Color::Purple, 5, 1),
            Card::Graveyard => (Color::Purple, 5, 1),
            Card::SchoolOfMagic => (Color::Purple, 6, 1),
            Card::Library => (Color::Purple, 6, 1),
            Card::GreatWall => (Color::Purple, 6, 1),
            Card::DragonGate => (Color::Purple, 6, 1),
            Card::University => (Color::Purple, 6, 1),
        }
    }

    /// Colour of the card.
    pub fn color(&self) -> (r: Color)
        ensures
            r == self.spec_color(),
    {
        self.color_fee_number().0
    }

    /// Building fee of the card.
    pub fn fee(&self) -> (r: u32)
        ensures
            r == self.spec_fee(),
            1 <= r <= 6,
    {
        self.color_fee_number().1
    }

    /// Copies of the card in a full deck.
    pub fn number(&self) -> (r: u32)
        ensures
            r == self.spec_number(),
            1 <= r <= 5,
    {
        self.color_fee_number().2
    }

    /// Points scored by the card as a building.
    pub fn score(&self) -> (r: u32)
        ensures
            r == self.spec_score(),
            r <= 8,
    {
        match self {
            Card::DragonGate => 2 + self.fee(),
            Card::University => 2 + self.fee(),
            _ => self.fee(),
        }
    }

    /// Every card, in the order of their declaration.
    pub fn all() -> (r: Vec<Card>)
        ensures
            r@ == spec_all_cards(),
    {
        let r = vec![
            Card::Tavern,
            Card::TradingPost,
            Card::Market,
            Card::Docks,
            Card::Harbor,
            Card::TownHall,
            Card::Manor,
            Card::Castle,
            Card::Palace,
            Card::Temple,
            Card::Church,
            Card::Monastery,
            Card::Cathedral,
            Card::Watchtower,
            Card::Prison,
            Card::Battlefield,
            Card::Fortress,
            Card::HauntedCity,
            Card::Keep,
            Card::Observatory,
            Card::Smithy,
            Card::Laboratory,
            Card::Graveyard,
            Card::SchoolOfMagic,
            Card::Library,
            Card::GreatWall,
            Card::DragonGate,
            Card::University,
        ];
        assert(r@ =~= spec_all_cards());
        r
    }
}

/// Every card, in the order of their declaration.
pub open spec fn spec_all_cards() -> Seq<Card> {
    seq![
        Card::Tavern,
        Card::TradingPost,
        Card::Market,
        Card::Docks,
        Card::Harbor,
        Card::TownHall,
        Card::Manor,
        Card::Castle,
        Card::Palace,
        Card::Temple,
        Card::Church,
        Card::Monastery,
        Card::Cathedral,
        Card::Watchtower,
        Card::Prison,
        Card::Battlefield,
        Card::Fortress,
        Card::HauntedCity,
        Card::Keep,
        Card::Observatory,
        Card::Smithy,
        Card::Laboratory,
        Card::Graveyard,
        Card::SchoolOfMagic,
        Card::Library,
        Card::GreatWall,
        Card::DragonGate,
        Card::University,
    ]
}

/// Every card occurs once among all cards.
pub proof fn lemma_all_cards()
    ensures
        spec_all_cards().len() == 28,
        forall|c: Card| #[trigger] spec_all_cards().contains(c),
        spec_all_cards().no_duplicates(),
{
    let s = spec_all_cards();
    assert forall|c: Card| #[trigger] s.contains(c) by {
        match c {
            Card::Tavern => assert(s[0] == c),
            Card::TradingPost => assert(s[1] == c),
            Card::Market => assert(s[2] == c),
            Card::Docks => assert(s[3] == c),
            Card::Harbor => assert(s[4] == c),
            Card::TownHall => assert(s[5] == c),
            Card::Manor => assert(s[6] == c),
            Card::Castle => assert(s[7] == c),
            Card::Palace => assert(s[8] == c),
            Card::Temple => assert(s[9] == c),
            Card::Church => assert(s[10] == c),
            Card::Monastery => assert(s[11] == c),
            Card::Cathedral => assert(s[12] == c),
            Card::Watchtower => assert(s[13] == c),
            Card::Prison => assert(s[14] == c),
            Card::Battlefield => assert(s[15] == c),
            Card::Fortress => assert(s[16] == c),
            Card::HauntedCity => assert(s[17] == c),
            Card::Keep => assert(s[18] == c),
            Card::Observatory => assert(s[19] == c),
            Card::Smithy => assert(s[20] == c),
            Card::Laboratory => assert(s[21] == c),
            Card::Graveyard => assert(s[22] == c),
            Card::SchoolOfMagic => assert(s[23] == c),
            Card::Library => assert(s[24] == c),
            Card::GreatWall => assert(s[25] == c),
            Card::DragonGate => assert(s[26] == c),
            Card::University => assert(s[27] == c),
        }
    }
}

} // verus!
