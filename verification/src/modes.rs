//! PX4 flight modes: the packed custom-mode word of a heartbeat, the modes an
//! operator can switch to, and the setpoint type masks.

use vstd::prelude::*;
use crate::text::same;

verus! {

/// Setpoint mask: position and yaw are used, all else is ignored.
pub const POSITION_ONLY: u16 = 0x09F8;

/// Setpoint mask: velocity and yaw rate are used, all else is ignored.
pub const VELOCITY_YAWRATE: u16 = 0x05C7;

/// The armed bit of a heartbeat's base mode.
pub const MAV_MODE_FLAG_SAFETY_ARMED: u8 = 0x80;

pub const MODE_WORD_POSCTL: u32 = 0x0003_0000;

pub const MODE_WORD_OFFBOARD: u32 = 0x0006_0000;

pub const MODE_WORD_AUTO_LOITER: u32 = 0x0304_0000;

pub const MODE_WORD_AUTO_MISSION: u32 = 0x0404_0000;

pub const MODE_WORD_AUTO_RTL: u32 = 0x0504_0000;

pub const MODE_WORD_AUTO_LAND: u32 = 0x0604_0000;

pub const MAIN_AUTO: u8 = 4;

pub const MAIN_OFFBOARD: u8 = 6;

/// PX4 main modes.
#[derive(Debug, Clone, Copy, PartialEq, Eq, Structural)]
pub enum MainMode {
    Manual,
    Altctl,
    Posctl,
    Auto,
    Acro,
    Offboard,
    Stabilized,
}

/// Sub modes of the automatic main mode.
#[derive(Debug, Clone, Copy, PartialEq, Eq, Structural)]
pub enum AutoSubMode {
    Loiter,
    Mission,
    Rtl,
    Land,
}

pub open spec fn main_number(m: MainMode) -> u8 {
    match m {
        MainMode::Manual => 1,
        MainMode::Altctl => 2,
        MainMode::Posctl => 3,
        MainMode::Auto => 4,
        MainMode::Acro => 5,
        MainMode::Offboard => 6,
        MainMode::Stabilized => 7,
    }
}

pub open spec fn sub_number(s: Option<AutoSubMode>) -> u8 {
    match s {
        None => 0,
        Some(AutoSubMode::Loiter) => 3,
        Some(AutoSubMode::Mission) => 4,
        Some(AutoSubMode::Rtl) => 5,
        Some(AutoSubMode::Land) => 6,
    }
}

/// The main mode in bits 16 to 23, the sub mode above it.
pub open spec fn word_of(main: u8, sub: u8) -> u32 {
    ((main as u32) << 16) | ((sub as u32) << 24)
}

pub open spec fn main_of(word: u32) -> u8 {
    ((word >> 16) & 0xFF) as u8
}

pub open spec fn sub_of(word: u32) -> u8 {
    ((word >> 24) & 0xFF) as u8
}

/// The packed word of a mode.
pub fn mode_word(main: MainMode, sub: Option<AutoSubMode>) -> (r: u32)
    ensures
        r == word_of(main_number(main), sub_number(sub)),
{
    let m: u8 = match main {
        MainMode::Manual => 1,
        MainMode::Altctl => 2,
        MainMode::Posctl => 3,
        MainMode::Auto => 4,
        MainMode::Acro => 5,
        MainMode::Offboard => 6,
        MainMode::Stabilized => 7,
    };
    let s: u8 = match sub {
        None => 0,
        Some(AutoSubMode::Loiter) => 3,
        Some(AutoSubMode::Mission) => 4,
        Some(AutoSubMode::Rtl) => 5,
        Some(AutoSubMode::Land) => 6,
    };
    ((m as u32) << 16) | ((s as u32) << 24)
}

/// Main and sub mode of a packed word.
pub fn decode_mode_word(word: u32) -> (r: (u8, u8))
    ensures
        r == (main_of(word), sub_of(word)),
{
    (((word >> 16) & 0xFF) as u8, ((word >> 24) & 0xFF) as u8)
}

/// A mode an operator can switch to.
#[derive(Debug, Clone, Copy, PartialEq, Eq, Structural)]
pub enum SwitchableMode {
    Manual,
    Altctl,
    Posctl,
    Stabilized,
    Acro,
    AutoLoiter,
    AutoRtl,
    AutoLand,
    AutoMission,
    Offboard,
}

pub const SWITCHABLE: [SwitchableMode; 10] = [
    SwitchableMode::Manual,
    SwitchableMode::Altctl,
    SwitchableMode::Posctl,
    SwitchableMode::Stabilized,
    SwitchableMode::Acro,
    SwitchableMode::AutoLoiter,
    SwitchableMode::AutoRtl,
    SwitchableMode::AutoLand,
    SwitchableMode::AutoMission,
    SwitchableMode::Offboard,
];

impl SwitchableMode {
    pub open spec fn text(self) -> Seq<char> {
        match self {
            SwitchableMode::Manual => "MANUAL"@,
            SwitchableMode::Altctl => "ALTCTL"@,
            SwitchableMode::Posctl => "POSCTL"@,
            SwitchableMode::Stabilized => "STABILIZED"@,
            SwitchableMode::Acro => "ACRO"@,
            SwitchableMode::AutoLoiter => "AUTO.LOITER"@,
            SwitchableMode::AutoRtl => "AUTO.RTL"@,
            SwitchableMode::AutoLand => "AUTO.LAND"@,
            SwitchableMode::AutoMission => "AUTO.MISSION"@,
            SwitchableMode::Offboard => "OFFBOARD"@,
        }
    }

    pub fn name(&self) -> (r: &'static str)
        ensures
            r@ == self.text(),
    {
        match self {
            SwitchableMode::Manual => "MANUAL",
            SwitchableMode::Altctl => "ALTCTL",
            SwitchableMode::Posctl => "POSCTL",
            SwitchableMode::Stabilized => "STABILIZED",
            SwitchableMode::Acro => "ACRO",
            SwitchableMode::AutoLoiter => "AUTO.LOITER",
            SwitchableMode::AutoRtl => "AUTO.RTL",
            SwitchableMode::AutoLand => "AUTO.LAND",
            SwitchableMode::AutoMission => "AUTO.MISSION",
            SwitchableMode::Offboard => "OFFBOARD",
        }
    }

    pub open spec fn modes(self) -> (MainMode, Option<AutoSubMode>) {
        match self {
            SwitchableMode::Manual => (MainMode::Manual, None),
            SwitchableMode::Altctl => (MainMode::Altctl, None),
            SwitchableMode::Posctl => (MainMode::Posctl, None),
            SwitchableMode::Stabilized => (MainMode::Stabilized, None),
            SwitchableMode::Acro => (MainMode::Acro, None),
            SwitchableMode::AutoLoiter => (MainMode::Auto, Some(AutoSubMode::Loiter)),
            SwitchableMode::AutoRtl => (MainMode::Auto, Some(AutoSubMode::Rtl)),
            SwitchableMode::AutoLand => (MainMode::Auto, Some(AutoSubMode::Land)),
            SwitchableMode::AutoMission => (MainMode::Auto, Some(AutoSubMode::Mission)),
            SwitchableMode::Offboard => (MainMode::Offboard, None),
        }
    }

    pub open spec fn packed(self) -> u32 {
        word_of(main_number(self.modes().0), sub_number(self.modes().1))
    }

    /// The mode's packed word.
    pub fn word(&self) -> (r: u32)
        ensures
            r == self.packed(),
    {
        match self {
            SwitchableMode::Manual => mode_word(MainMode::Manual, None),
            SwitchableMode::Altctl => mode_word(MainMode::Altctl, None),
            SwitchableMode::Posctl => mode_word(MainMode::Posctl, None),
            SwitchableMode::Stabilized => mode_word(MainMode::Stabilized, None),
            SwitchableMode::Acro => mode_word(MainMode::Acro, None),
            SwitchableMode::AutoLoiter => mode_word(MainMode::Auto, Some(AutoSubMode::Loiter)),
            SwitchableMode::AutoRtl => mode_word(MainMode::Auto, Some(AutoSubMode::Rtl)),
            SwitchableMode::AutoLand => mode_word(MainMode::Auto, Some(AutoSubMode::Land)),
            SwitchableMode::AutoMission => mode_word(MainMode::Auto, Some(AutoSubMode::Mission)),
            SwitchableMode::Offboard => mode_word(MainMode::Offboard, None),
        }
    }

    pub open spec fn place(self) -> int {
        match self {
            SwitchableMode::Manual => 0,
            SwitchableMode::Altctl => 1,
            SwitchableMode::Posctl => 2,
            SwitchableMode::Stabilized => 3,
            SwitchableMode::Acro => 4,
            SwitchableMode::AutoLoiter => 5,
            SwitchableMode::AutoRtl => 6,
            SwitchableMode::AutoLand => 7,
            SwitchableMode::AutoMission => 8,
            SwitchableMode::Offboard => 9,
        }
    }
}

/// The switchable modes with their names and words, in order.
pub fn switchable_modes() -> (r: Vec<(String, u32)>)
    ensures
        r@.len() == 10,
        forall|m: SwitchableMode|
            (#[trigger] r@[m.place()]).0@ == m.text() && r@[m.place()].1 == m.packed(),
{
    let table = SWITCHABLE;
    let mut r: Vec<(String, u32)> = Vec::new();
    let mut i: usize = 0;
    while i < 10
        invariant
            i <= 10,
            table@.len() == 10,
            forall|m: SwitchableMode| table@[#[trigger] m.place()] == m,
            r@.len() == i,
            forall|k: int|
                0 <= k < i ==> (#[trigger] r@[k]).0@ == table@[k].text() && r@[k].1
                    == table@[k].packed(),
        decreases 10 - i,
    {
        let m: SwitchableMode = table[i];
        r.push((String::from_str(m.name()), m.word()));
        i = i + 1;
    }
    assert forall|m: SwitchableMode|
        (#[trigger] r@[m.place()]).0@ == m.text() && r@[m.place()].1 == m.packed() by {
        assert(table@[m.place()] == m);
        assert(0 <= m.place() < 10);
    }
    r
}

/// The word a name stands for.
pub open spec fn word_named(name: Seq<char>) -> Option<u32> {
    if exists|m: SwitchableMode| #[trigger] m.text() == name {
        Some((choose|m: SwitchableMode| #[trigger] m.text() == name).packed())
    } else {
        None
    }
}

/// No two switchable modes share a name.
pub proof fn mode_names_are_distinct(a: SwitchableMode, b: SwitchableMode)
    requires
        a.text() == b.text(),
    ensures
        a == b,
{
    reveal_strlit("MANUAL");
    reveal_strlit("ALTCTL");
    reveal_strlit("POSCTL");
    reveal_strlit("STABILIZED");
    reveal_strlit("ACRO");
    reveal_strlit("AUTO.LOITER");
    reveal_strlit("AUTO.RTL");
    reveal_strlit("AUTO.LAND");
    reveal_strlit("AUTO.MISSION");
    reveal_strlit("OFFBOARD");
    assert("MANUAL"@.len() == 6 && "MANUAL"@[0] == 'M');
    assert("ALTCTL"@.len() == 6 && "ALTCTL"@[0] == 'A');
    assert("POSCTL"@.len() == 6 && "POSCTL"@[0] == 'P');
    assert("STABILIZED"@.len() == 10);
    assert("ACRO"@.len() == 4);
    assert("AUTO.LOITER"@.len() == 11);
    assert("AUTO.RTL"@.len() == 8 && "AUTO.RTL"@[0] == 'A');
    assert("AUTO.LAND"@.len() == 9);
    assert("AUTO.MISSION"@.len() == 12);
    assert("OFFBOARD"@.len() == 8 && "OFFBOARD"@[0] == 'O');
}

/// Resolve a mode name to its word; `None` for a name that is not switchable.
pub fn mode_word_by_name(name: &str) -> (r: Option<u32>)
    ensures
        r == word_named(name@),
{
    let table = SWITCHABLE;
    let mut i: usize = 0;
    while i < 10
        invariant
            i <= 10,
            table@.len() == 10,
            forall|m: SwitchableMode| table@[#[trigger] m.place()] == m,
            forall|k: int| 0 <= k < i ==> (#[trigger] table@[k]).text() != name@,
        decreases 10 - i,
    {
        let m: SwitchableMode = table[i];
        if same(m.name(), name) {
            proof {
                let c = choose|c: SwitchableMode| #[trigger] c.text() == name@;
                mode_names_are_distinct(m, c);
            }
            return Some(m.word());
        }
        i = i + 1;
    }
    assert forall|m: SwitchableMode| #[trigger] m.text() != name@ by {
        assert(table@[m.place()] == m);
        assert(0 <= m.place() < 10);
    }
    None
}

/// The name of a word: that of the switchable mode it is, else UNKNOWN.
pub open spec fn word_name(word: u32) -> Seq<char> {
    if exists|m: SwitchableMode| #[trigger] m.packed() == word {
        (choose|m: SwitchableMode| #[trigger] m.packed() == word).text()
    } else {
        "UNKNOWN"@
    }
}

/// The name of a mode word.
pub fn mode_name(word: u32) -> (r: &'static str)
    ensures
        r@ == word_name(word),
{
    let table = SWITCHABLE;
    let mut i: usize = 0;
    while i < 10
        invariant
            i <= 10,
            table@.len() == 10,
            forall|m: SwitchableMode| table@[#[trigger] m.place()] == m,
            forall|k: int| 0 <= k < i ==> (#[trigger] table@[k]).packed() != word,
        decreases 10 - i,
    {
        let m: SwitchableMode = table[i];
        if m.word() == word {
            proof {
                assert forall|c: SwitchableMode| #[trigger] c.packed() == word implies c == m by {
                    mode_words_are_distinct(m, c);
                }
            }
            return m.name();
        }
        i = i + 1;
    }
    assert forall|m: SwitchableMode| #[trigger] m.packed() != word by {
        assert(table@[m.place()] == m);
        assert(0 <= m.place() < 10);
    }
    "UNKNOWN"
}

/// A packed word gives back the main and sub mode it was made of.
pub proof fn word_unpacks(main: u8, sub: u8)
    ensures
        main_of(word_of(main, sub)) == main,
        sub_of(word_of(main, sub)) == sub,
{
    assert(((((main as u32) << 16) | ((sub as u32) << 24)) >> 16) & 0xFF == main as u32)
        by (bit_vector);
    assert(((((main as u32) << 16) | ((sub as u32) << 24)) >> 24) & 0xFF == sub as u32)
        by (bit_vector);
}

/// No two switchable modes share a word.
pub proof fn mode_words_are_distinct(a: SwitchableMode, b: SwitchableMode)
    requires
        a.packed() == b.packed(),
    ensures
        a == b,
{
    word_unpacks(main_number(a.modes().0), sub_number(a.modes().1));
    word_unpacks(main_number(b.modes().0), sub_number(b.modes().1));
}

/// The words the supervisor itself uses are those of the named modes.
pub proof fn named_words()
    ensures
        SwitchableMode::Posctl.packed() == MODE_WORD_POSCTL,
        SwitchableMode::Offboard.packed() == MODE_WORD_OFFBOARD,
        SwitchableMode::AutoLoiter.packed() == MODE_WORD_AUTO_LOITER,
        SwitchableMode::AutoMission.packed() == MODE_WORD_AUTO_MISSION,
        SwitchableMode::AutoRtl.packed() == MODE_WORD_AUTO_RTL,
        SwitchableMode::AutoLand.packed() == MODE_WORD_AUTO_LAND,
{
    assert((3u8 as u32) << 16 | (0u8 as u32) << 24 == 0x0003_0000u32 && (6u8 as u32) << 16 | (
    0u8 as u32) << 24 == 0x0006_0000u32 && (4u8 as u32) << 16 | (3u8 as u32) << 24 == 0x0304_0000u32
        && (4u8 as u32) << 16 | (4u8 as u32) << 24 == 0x0404_0000u32 && (4u8 as u32) << 16 | (
    5u8 as u32) << 24 == 0x0504_0000u32 && (4u8 as u32) << 16 | (6u8 as u32) << 24
        == 0x0604_0000u32) by (bit_vector);
}

} // verus!
