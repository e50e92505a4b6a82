//! Course identifiers: the fixed list of courses whose physics or music a
//! track can borrow.

use vstd::prelude::*;

verus! {

/// A course of the game. The last one, `GalaxyArena`, lends its music only.
#[derive(Debug, PartialEq, Eq, Structural, Clone, Copy)]
pub enum Id {
    LuigiCircuit,
    MooMooMeadow,
    MushroomGorge,
    ToadsFactory,
    MarioCircuit,
    CoconutMall,
    DKSummit,
    WariosGoldMine,
    DaisyCircuit,
    KoopaCape,
    MapleTreeway,
    GrumbleVolcano,
    DryDryRuins,
    MoonviewHighway,
    BowsersCastle,
    RainbowRoad,
    PeachBeachGCN,
    YoshiFallsDS,
    GhostValleySNES,
    MarioRacewayN64,
    SherbetLandN64,
    ShyGuyBeachGBA,
    DelfinoSquareDS,
    WaluigiStadiumGCN,
    DesertHillsDS,
    BowserCastleGBA,
    JungleParkwayN64,
    MarioCircuitGCN,
    MarioCircuitSNES,
    PeachGardenDS,
    DKMountainGCN,
    BowserCastleN64,
    BlockPlaza,
    DelfinoPier,
    FunkyStadium,
    ChompWheel,
    ThwompDesert,
    BattleCourseSNES,
    BattleCourseGBA,
    SkyscraperN64,
    CookieLandGCN,
    TwilightHouseDS,
    /// Music only: never a track's property.
    GalaxyArena,
}

/// How many course identifiers there are.
pub const ID_COUNT: usize = 43;

impl Id {
    /// The position of the identifier in the list, which is also the byte
    /// that stands for it in a project file.
    pub open spec fn index(self) -> nat {
        match self {
            Id::LuigiCircuit => 0,
            Id::MooMooMeadow => 1,
            Id::MushroomGorge => 2,
            Id::ToadsFactory => 3,
            Id::MarioCircuit => 4,
            Id::CoconutMall => 5,
            Id::DKSummit => 6,
            Id::WariosGoldMine => 7,
            Id::DaisyCircuit => 8,
            Id::KoopaCape => 9,
            Id::MapleTreeway => 10,
            Id::GrumbleVolcano => 11,
            Id::DryDryRuins => 12,
            Id::MoonviewHighway => 13,
            Id::BowsersCastle => 14,
            Id::RainbowRoad => 15,
            Id::PeachBeachGCN => 16,
            Id::YoshiFallsDS => 17,
            Id::GhostValleySNES => 18,
            Id::MarioRacewayN64 => 19,
            Id::SherbetLandN64 => 20,
            Id::ShyGuyBeachGBA => 21,
            Id::DelfinoSquareDS => 22,
            Id::WaluigiStadiumGCN => 23,
            Id::DesertHillsDS => 24,
            Id::BowserCastleGBA => 25,
            Id::JungleParkwayN64 => 26,
            Id::MarioCircuitGCN => 27,
            Id::MarioCircuitSNES => 28,
            Id::PeachGardenDS => 29,
            Id::DKMountainGCN => 30,
            Id::BowserCastleN64 => 31,
            Id::BlockPlaza => 32,
            Id::DelfinoPier => 33,
            Id::FunkyStadium => 34,
            Id::ChompWheel => 35,
            Id::ThwompDesert => 36,
            Id::BattleCourseSNES => 37,
            Id::BattleCourseGBA => 38,
            Id::SkyscraperN64 => 39,
            Id::CookieLandGCN => 40,
            Id::TwilightHouseDS => 41,
            Id::GalaxyArena => 42,
        }
    }

    /// The identifier at position `i`, if there is one.
    pub open spec fn at(i: nat) -> Option<Id> {
        if i == 0 {
            Some(Id::LuigiCircuit)
        } else if i == 1 {
            Some(Id::MooMooMeadow)
        } else if i == 2 {
            Some(Id::MushroomGorge)
        } else if i == 3 {
            Some(Id::ToadsFactory)
        } else if i == 4 {
            Some(Id::MarioCircuit)
        } else if i == 5 {
            Some(Id::CoconutMall)
        } else if i == 6 {
            Some(Id::DKSummit)
        } else if i == 7 {
            Some(Id::WariosGoldMine)
        } else if i == 8 {
            Some(Id::DaisyCircuit)
        } else if i == 9 {
            Some(Id::KoopaCape)
        } else if i == 10 {
            Some(Id::MapleTreeway)
        } else if i == 11 {
            Some(Id::GrumbleVolcano)
        } else if i == 12 {
            Some(Id::DryDryRuins)
        } else if i == 13 {
            Some(Id::MoonviewHighway)
        } else if i == 14 {
            Some(Id::BowsersCastle)
        } else if i == 15 {
            Some(Id::RainbowRoad)
        } else if i == 16 {
            Some(Id::PeachBeachGCN)
        } else if i == 17 {
            Some(Id::YoshiFallsDS)
        } else if i == 18 {
            Some(Id::GhostValleySNES)
        } else if i == 19 {
            Some(Id::MarioRacewayN64)
        } else if i == 20 {
            Some(Id::SherbetLandN64)
        } else if i == 21 {
            Some(Id::ShyGuyBeachGBA)
        } else if i == 22 {
            Some(Id::DelfinoSquareDS)
        } else if i == 23 {
            Some(Id::WaluigiStadiumGCN)
        } else if i == 24 {
            Some(Id::DesertHillsDS)
        } else if i == 25 {
            Some(Id::BowserCastleGBA)
        } else if i == 26 {
            Some(Id::JungleParkwayN64)
        } else if i == 27 {
            Some(Id::MarioCircuitGCN)
        } else if i == 28 {
            Some(Id::MarioCircuitSNES)
        } else if i == 29 {
            Some(Id::PeachGardenDS)
        } else if i == 30 {
            Some(Id::DKMountainGCN)
        } else if i == 31 {
            Some(Id::BowserCastleN64)
        } else if i == 32 {
            Some(Id::BlockPlaza)
        } else if i == 33 {
            Some(Id::DelfinoPier)
        } else if i == 34 {
            Some(Id::FunkyStadium)
        } else if i == 35 {
            Some(Id::ChompWheel)
        } else if i == 36 {
            Some(Id::ThwompDesert)
        } else if i == 37 {
            Some(Id::BattleCourseSNES)
        } else if i == 38 {
            Some(Id::BattleCourseGBA)
        } else if i == 39 {
            Some(Id::SkyscraperN64)
        } else if i == 40 {
            Some(Id::CookieLandGCN)
        } else if i == 41 {
            Some(Id::TwilightHouseDS)
        } else if i == 42 {
            Some(Id::GalaxyArena)
        } else {
            None
        }
    }

    /// The display name of the course.
    pub open spec fn label(self) -> Seq<char> {
        match self {
            Id::LuigiCircuit => "Luigi Circuit"@,
            Id::MooMooMeadow => "Moo Moo Meadow"@,
            Id::MushroomGorge => "Mushroom Gorge"@,
            Id::ToadsFactory => "Toad's Factory"@,
            Id::MarioCircuit => "Mario Circuit"@,
            Id::CoconutMall => "Coconut Mall"@,
            Id::DKSummit => "DK Summit"@,
            Id::WariosGoldMine => "Wario's Gold Mine"@,
            Id::DaisyCircuit => "Daisy Circuit"@,
            Id::KoopaCape => "Koopa Cape"@,
            Id::MapleTreeway => "Maple Treeway"@,
            Id::GrumbleVolcano => "Grumble Volcano"@,
            Id::DryDryRuins => "Dry Dry Ruins"@,
            Id::MoonviewHighway => "Moonview Highway"@,
            Id::BowsersCastle => "Bowser's Castle"@,
            Id::RainbowRoad => "Rainbow Road"@,
            Id::PeachBeachGCN => "GCN Peach Beach"@,
            Id::YoshiFallsDS => "DS Yoshi Falls"@,
            Id::GhostValleySNES => "SNES Ghost Valley 2"@,
            Id::MarioRacewayN64 => "N64 Mario Raceway"@,
            Id::SherbetLandN64 => "N64 Sherbet Land"@,
            Id::ShyGuyBeachGBA => "GBA Shy Guy Beach"@,
            Id::DelfinoSquareDS => "DS Delfino Square"@,
            Id::WaluigiStadiumGCN => "GCN Waluigi Stadium"@,
            Id::DesertHillsDS => "DS Desert Hills"@,
            Id::BowserCastleGBA => "GBA Bowser Castle 3"@,
            Id::JungleParkwayN64 => "N64 DK Jungle Parkway"@,
            Id::MarioCircuitGCN => "GCN Mario Circuit"@,
            Id::MarioCircuitSNES => "SNES Mario Circuit 3"@,
            Id::PeachGardenDS => "DS Peach Garden"@,
            Id::DKMountainGCN => "GCN DK Mountains"@,
            Id::BowserCastleN64 => "N64 Bowser Castle"@,
            Id::BlockPlaza => "Block Plaza"@,
            Id::DelfinoPier => "Delfino Pier"@,
            Id::FunkyStadium => "Funky Stadium"@,
            Id::ChompWheel => "Chain Chomp Wheel"@,
            Id::ThwompDesert => "Thwomp Desert"@,
            Id::BattleCourseSNES => "SNES Battle Course 4"@,
            Id::BattleCourseGBA => "GBA Battle Course 3"@,
            Id::SkyscraperN64 => "N64 Skyscraper"@,
            Id::CookieLandGCN => "GCN Cookie Land"@,
            Id::TwilightHouseDS => "DS Twilight House"@,
            Id::GalaxyArena => "Galaxy Colosseum"@,
        }
    }

    /// Whether the identifier may be a track's property. Every identifier
    /// may be its music.
    pub open spec fn is_property(self) -> bool {
        self != Id::GalaxyArena
    }

    /// Every identifier sits at its own position, below `ID_COUNT`.
    pub proof fn lemma_index_at(self)
        ensures
            self.index() < ID_COUNT,
            Id::at(self.index()) == Some(self),
    {
    }

    /// Positions from `ID_COUNT` on hold no identifier, and the identifier
    /// at a position has that position as its index.
    pub proof fn lemma_at_index(i: nat)
        ensures
            Id::at(i) is Some <==> i < ID_COUNT,
            Id::at(i) matches Some(id) ==> id.index() == i,
    {
    }

    /// The display name of the course.
    pub fn as_str(&self) -> (name: &'static str)
        ensures
            name@ == self.label(),
    {
        match self {
            Id::LuigiCircuit => "Luigi Circuit",
            Id::MooMooMeadow => "Moo Moo Meadow",
            Id::MushroomGorge => "Mushroom Gorge",
            Id::ToadsFactory => "Toad's Factory",
            Id::MarioCircuit => "Mario Circuit",
            Id::CoconutMall => "Coconut Mall",
            Id::DKSummit => "DK Summit",
            Id::WariosGoldMine => "Wario's Gold Mine",
            Id::DaisyCircuit => "Daisy Circuit",
            Id::KoopaCape => "Koopa Cape",
            Id::MapleTreeway => "Maple Treeway",
            Id::GrumbleVolcano => "Grumble Volcano",
            Id::DryDryRuins => "Dry Dry Ruins",
            Id::MoonviewHighway => "Moonview Highway",
            Id::BowsersCastle => "Bowser's Castle",
            Id::RainbowRoad => "Rainbow Road",
            Id::PeachBeachGCN => "GCN Peach Beach",
            Id::YoshiFallsDS => "DS Yoshi Falls",
            Id::GhostValleySNES => "SNES Ghost Valley 2",
            Id::MarioRacewayN64 => "N64 Mario Raceway",
            Id::SherbetLandN64 => "N64 Sherbet Land",
            Id::ShyGuyBeachGBA => "GBA Shy Guy Beach",
            Id::DelfinoSquareDS => "DS Delfino Square",
            Id::WaluigiStadiumGCN => "GCN Waluigi Stadium",
            Id::DesertHillsDS => "DS Desert Hills",
            Id::BowserCastleGBA => "GBA Bowser Castle 3",
            Id::JungleParkwayN64 => "N64 DK Jungle Parkway",
            Id::MarioCircuitGCN => "GCN Mario Circuit",
            Id::MarioCircuitSNES => "SNES Mario Circuit 3",
            Id::PeachGardenDS => "DS Peach Garden",
            Id::DKMountainGCN => "GCN DK Mountains",
            Id::BowserCastleN64 => "N64 Bowser Castle",
            Id::BlockPlaza => "Block Plaza",
            Id::DelfinoPier => "Delfino Pier",
            Id::FunkyStadium => "Funky Stadium",
            Id::ChompWheel => "Chain Chomp Wheel",
            Id::ThwompDesert => "Thwomp Desert",
            Id::BattleCourseSNES => "SNES Battle Course 4",
            Id::BattleCourseGBA => "GBA Battle Course 3",
            Id::SkyscraperN64 => "N64 Skyscraper",
            Id::CookieLandGCN => "GCN Cookie Land",
            Id::TwilightHouseDS => "DS Twilight House",
            Id::GalaxyArena => "Galaxy Colosseum",
        }
    }

    /// The byte that stands for the identifier in a project file.
    pub fn to_u8(self) -> (b: u8)
        ensures
            b == self.index(),
    {
        match self {
            Id::LuigiCircuit => 0,
            Id::MooMooMeadow => 1,
            Id::MushroomGorge => 2,
            Id::ToadsFactory => 3,
            Id::MarioCircuit => 4,
            Id::CoconutMall => 5,
            Id::DKSummit => 6,
            Id::WariosGoldMine => 7,
            Id::DaisyCircuit => 8,
            Id::KoopaCape => 9,
            Id::MapleTreeway => 10,
            Id::GrumbleVolcano => 11,
            Id::DryDryRuins => 12,
            Id::MoonviewHighway => 13,
            Id::BowsersCastle => 14,
            Id::RainbowRoad => 15,
            Id::PeachBeachGCN => 16,
            Id::YoshiFallsDS => 17,
            Id::GhostValleySNES => 18,
            Id::MarioRacewayN64 => 19,
            Id::SherbetLandN64 => 20,
            Id::ShyGuyBeachGBA => 21,
            Id::DelfinoSquareDS => 22,
            Id::WaluigiStadiumGCN => 23,
            Id::DesertHillsDS => 24,
            Id::BowserCastleGBA => 25,
            Id::JungleParkwayN64 => 26,
            Id::MarioCircuitGCN => 27,
            Id::MarioCircuitSNES => 28,
            Id::PeachGardenDS => 29,
            Id::DKMountainGCN => 30,
            Id::BowserCastleN64 => 31,
            Id::BlockPlaza => 32,
            Id::DelfinoPier => 33,
            Id::FunkyStadium => 34,
            Id::ChompWheel => 35,
            Id::ThwompDesert => 36,
            Id::BattleCourseSNES => 37,
            Id::BattleCourseGBA => 38,
            Id::SkyscraperN64 => 39,
            Id::CookieLandGCN => 40,
            Id::TwilightHouseDS => 41,
            Id::GalaxyArena => 42,
        }
    }

    /// The identifier that the byte `b` stands for, or `None` for a byte
    /// that stands for none.
    pub fn from_u8(b: u8) -> (r: Option<Id>)
        ensures
            r == Id::at(b as nat),
    {
        match b {
            0 => Some(Id::LuigiCircuit),
            1 => Some(Id::MooMooMeadow),
            2 => Some(Id::MushroomGorge),
            3 => Some(Id::ToadsFactory),
            4 => Some(Id::MarioCircuit),
            5 => Some(Id::CoconutMall),
            6 => Some(Id::DKSummit),
            7 => Some(Id::WariosGoldMine),
            8 => Some(Id::DaisyCircuit),
            9 => Some(Id::KoopaCape),
            10 => Some(Id::MapleTreeway),
            11 => Some(Id::GrumbleVolcano),
            12 => Some(Id::DryDryRuins),
            13 => Some(Id::MoonviewHighway),
            14 => Some(Id::BowsersCastle),
            15 => Some(Id::RainbowRoad),
            16 => Some(Id::PeachBeachGCN),
            17 => Some(Id::YoshiFallsDS),
            18 => Some(Id::GhostValleySNES),
            19 => Some(Id::MarioRacewayN64),
            20 => Some(Id::SherbetLandN64),
            21 => Some(Id::ShyGuyBeachGBA),
            22 => Some(Id::DelfinoSquareDS),
            23 => Some(Id::WaluigiStadiumGCN),
            24 => Some(Id::DesertHillsDS),
            25 => Some(Id::BowserCastleGBA),
            26 => Some(Id::JungleParkwayN64),
            27 => Some(Id::MarioCircuitGCN),
            28 => Some(Id::MarioCircuitSNES),
            29 => Some(Id::PeachGardenDS),
            30 => Some(Id::DKMountainGCN),
            31 => Some(Id::BowserCastleN64),
            32 => Some(Id::BlockPlaza),
            33 => Some(Id::DelfinoPier),
            34 => Some(Id::FunkyStadium),
            35 => Some(Id::ChompWheel),
            36 => Some(Id::ThwompDesert),
            37 => Some(Id::BattleCourseSNES),
            38 => Some(Id::BattleCourseGBA),
            39 => Some(Id::SkyscraperN64),
            40 => Some(Id::CookieLandGCN),
            41 => Some(Id::TwilightHouseDS),
            42 => Some(Id::GalaxyArena),
            _ => None,
        }
    }

    /// Whether the identifier may be a track's property.
    pub fn allowed_as_property(&self) -> (r: bool)
        ensures
            r == self.is_property(),
    {
        match self {
            Id::GalaxyArena => false,
            _ => true,
        }
    }

    /// All identifiers, in list order.
    pub fn values() -> (all: Vec<Id>)
        ensures
            all@.len() == ID_COUNT,
            forall|i: int| 0 <= i < ID_COUNT ==> Id::at(i as nat) == Some(#[trigger] all@[i]),
    {
        let mut all: Vec<Id> = Vec::new();
        let mut b: u8 = 0;
        while b < 43
            invariant
                b <= 43,
                all@.len() == b,
                forall|i: int| 0 <= i < b ==> Id::at(i as nat) == Some(#[trigger] all@[i]),
            decreases 43 - b,
        {
            match Id::from_u8(b) {
                Some(id) => {
                    all.push(id);
                },
                None => {
                    proof {
                        Id::lemma_at_index(b as nat);
                    }
                },
            }
            b += 1;
        }
        all
    }
}

} // verus!
