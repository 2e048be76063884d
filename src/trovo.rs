//! Service-specific value types: colors, badges, capabilities, the local
//! user's identity, configuration, errors and handler tokens.
use vstd::prelude::*;

use crate::text::{after, before, index_of, str_eq, to_chars, trim, trimmed};

verus! {

/// A 24-bit color. The default is white.
#[derive(Debug, Clone, Copy, PartialEq, Eq, Structural)]
pub struct RGB(pub u8, pub u8, pub u8);

/// White, the color of users who have not picked one.
pub open spec fn white() -> RGB {
    RGB(255, 255, 255)
}

impl Default for RGB {
    fn default() -> (r: Self)
        ensures
            r == white(),
    {
        RGB(255, 255, 255)
    }
}

/// The value of a hexadecimal digit, in either case.
pub open spec fn hex_value(c: char) -> int {
    if '0' <= c && c <= '9' {
        c as int - '0' as int
    } else if 'a' <= c && c <= 'f' {
        c as int - 'a' as int + 10
    } else {
        c as int - 'A' as int + 10
    }
}

pub open spec fn is_hex(c: char) -> bool {
    ('0' <= c && c <= '9') || ('a' <= c && c <= 'f') || ('A' <= c && c <= 'F')
}

/// The color that six hex digits spell, if `s` is six hex digits.
pub open spec fn hex6(s: Seq<char>) -> Option<RGB> {
    if s.len() == 6 && forall|i: int| 0 <= i < 6 ==> is_hex(#[trigger] s[i]) {
        Some(RGB(
            (hex_value(s[0]) * 16 + hex_value(s[1])) as u8,
            (hex_value(s[2]) * 16 + hex_value(s[3])) as u8,
            (hex_value(s[4]) * 16 + hex_value(s[5])) as u8,
        ))
    } else {
        None
    }
}

/// The color that `#RRGGBB` or `RRGGBB` spells.
pub open spec fn hex_color(s: Seq<char>) -> Option<RGB> {
    if s.len() == 7 && s[0] == '#' {
        hex6(s.drop_first())
    } else {
        hex6(s)
    }
}

fn hex_digit(c: char) -> (r: Option<u8>)
    ensures
        r is Some <==> is_hex(c),
        r matches Some(v) ==> v == hex_value(c) && v < 16,
{
    if '0' <= c && c <= '9' {
        Some((c as u32 - '0' as u32) as u8)
    } else if 'a' <= c && c <= 'f' {
        Some((c as u32 - 'a' as u32 + 10) as u8)
    } else if 'A' <= c && c <= 'F' {
        Some((c as u32 - 'A' as u32 + 10) as u8)
    } else {
        None
    }
}

fn hex_byte(hi: char, lo: char) -> (r: Option<u8>)
    ensures
        r is Some <==> is_hex(hi) && is_hex(lo),
        r matches Some(v) ==> v == hex_value(hi) * 16 + hex_value(lo),
{
    match (hex_digit(hi), hex_digit(lo)) {
        (Some(h), Some(l)) => Some(h * 16 + l),
        _ => None,
    }
}

/// Parses `#RRGGBB` or `RRGGBB` (hex digits in either case).
fn parse_hex(input: &str) -> (r: Option<RGB>)
    ensures
        r == hex_color(input@),
{
    let c = to_chars(input);
    let start: usize = if c.len() == 7 && c[0] == '#' { 1 } else { 0 };
    if c.len() != start + 6 {
        return None;
    }
    let ghost body = if start == 1 { c@.drop_first() } else { c@ };
    assert(body =~= c@.subrange(start as int, c@.len() as int));
    assert(body[0] == c@[start as int] && body[1] == c@[start + 1] && body[2] == c@[start + 2]);
    assert(body[3] == c@[start + 3] && body[4] == c@[start + 4] && body[5] == c@[start + 5]);
    let r = hex_byte(c[start], c[start + 1]);
    let g = hex_byte(c[start + 2], c[start + 3]);
    let b = hex_byte(c[start + 4], c[start + 5]);
    match (r, g, b) {
        (Some(r), Some(g), Some(b)) => {
            assert forall|i: int| 0 <= i < 6 implies is_hex(#[trigger] body[i]) by {
                if i == 0 {} else if i == 1 {} else if i == 2 {} else if i == 3 {} else if i == 4 {} else {}
            }
            Some(RGB(r, g, b))
        },
        _ => {
            assert(!is_hex(body[0]) || !is_hex(body[1]) || !is_hex(body[2]) || !is_hex(body[3]) || !is_hex(body[4]) || !is_hex(body[5]));
            None
        },
    }
}

impl RGB {
    /// Parses `#RRGGBB` or `RRGGBB` (surrounding whitespace is ignored);
    /// anything else gives white.
    pub fn from_hex(input: &str) -> (r: RGB)
        ensures
            r == match hex_color(trim(input@)) {
                Some(c) => c,
                None => white(),
            },
    {
        match parse_hex(trimmed(input)) {
            Some(c) => c,
            None => RGB(255, 255, 255),
        }
    }

    /// The red component.
    pub fn red(self) -> (r: u8)
        ensures
            r == self.0,
    {
        self.0
    }

    /// The green component.
    pub fn green(self) -> (r: u8)
        ensures
            r == self.1,
    {
        self.1
    }

    /// The blue component.
    pub fn blue(self) -> (r: u8)
        ensures
            r == self.2,
    {
        self.2
    }
}

/// The preset colors, and custom ones.
#[derive(Debug, Clone, Copy, PartialEq, Eq, Structural)]
pub enum Trovo {
    /// RGB (hex): #0000FF
    Blue,
    /// RGB (hex): #8A2BE2
    BlueViolet,
    /// RGB (hex): #5F9EA0
    CadetBlue,
    /// RGB (hex): #D2691E
    Chocolate,
    /// RGB (hex): #FF7F50
    Coral,
    /// RGB (hex): #1E90FF
    DodgerBlue,
    /// RGB (hex): #B22222
    Firebrick,
    /// RGB (hex): #DAA520
    GoldenRod,
    /// RGB (hex): #008000
    Green,
    /// RGB (hex): #FF69B4
    HotPink,
    /// RGB (hex): #FF4500
    OrangeRed,
    /// RGB (hex): #FF0000
    Red,
    /// RGB (hex): #2E8B57
    SeaGreen,
    /// RGB (hex): #00FF7F
    SpringGreen,
    /// RGB (hex): #ADFF2F
    YellowGreen,
    /// A custom color.
    Turbo(RGB),
}

/// The RGB value of a color.
pub open spec fn preset_rgb(t: Trovo) -> RGB {
    match t {
        Trovo::Blue => RGB(0x00, 0x00, 0xFF),
        Trovo::BlueViolet => RGB(0x8A, 0x2B, 0xE2),
        Trovo::CadetBlue => RGB(0x5F, 0x9E, 0xA0),
        Trovo::Chocolate => RGB(0xD2, 0x69, 0x1E),
        Trovo::Coral => RGB(0xFF, 0x7F, 0x50),
        Trovo::DodgerBlue => RGB(0x1E, 0x90, 0xFF),
        Trovo::Firebrick => RGB(0xB2, 0x22, 0x22),
        Trovo::GoldenRod => RGB(0xDA, 0xA5, 0x20),
        Trovo::Green => RGB(0x00, 0x80, 0x00),
        Trovo::HotPink => RGB(0xFF, 0x69, 0xB4),
        Trovo::OrangeRed => RGB(0xFF, 0x45, 0x00),
        Trovo::Red => RGB(0xFF, 0x00, 0x00),
        Trovo::SeaGreen => RGB(0x2E, 0x8B, 0x57),
        Trovo::SpringGreen => RGB(0x00, 0xFF, 0x7F),
        Trovo::YellowGreen => RGB(0xAD, 0xFF, 0x2F),
        Trovo::Turbo(c) => c,
    }
}

/// The preset that a name stands for, in any of its spellings.
pub open spec fn named_color(s: Seq<char>) -> Option<Trovo> {
    if s == "Blue"@ || s == "blue"@ {
        Some(Trovo::Blue)
    }     else if s == "BlueViolet"@ || s == "blue_violet"@ || s == "blueviolet"@ || s == "blue violet"@ {
        Some(Trovo::BlueViolet)
    }     else if s == "CadetBlue"@ || s == "cadet_blue"@ || s == "cadetblue"@ || s == "cadet blue"@ {
        Some(Trovo::CadetBlue)
    }     else if s == "Chocolate"@ || s == "chocolate"@ {
        Some(Trovo::Chocolate)
    }     else if s == "Coral"@ || s == "coral"@ {
        Some(Trovo::Coral)
    }     else if s == "DodgerBlue"@ || s == "dodger_blue"@ || s == "dodgerblue"@ || s == "dodger blue"@ {
        Some(Trovo::DodgerBlue)
    }     else if s == "Firebrick"@ || s == "firebrick"@ {
        Some(Trovo::Firebrick)
    }     else if s == "GoldenRod"@ || s == "golden_rod"@ || s == "goldenrod"@ || s == "golden rod"@ {
        Some(Trovo::GoldenRod)
    }     else if s == "Green"@ || s == "green"@ {
        Some(Trovo::Green)
    }     else if s == "HotPink"@ || s == "hot_pink"@ || s == "hotpink"@ || s == "hot pink"@ {
        Some(Trovo::HotPink)
    }     else if s == "OrangeRed"@ || s == "orange_red"@ || s == "orangered"@ || s == "orange red"@ {
        Some(Trovo::OrangeRed)
    }     else if s == "Red"@ || s == "red"@ {
        Some(Trovo::Red)
    }     else if s == "SeaGreen"@ || s == "sea_green"@ || s == "seagreen"@ || s == "sea green"@ {
        Some(Trovo::SeaGreen)
    }     else if s == "SpringGreen"@ || s == "spring_green"@ || s == "springgreen"@ || s == "spring green"@ {
        Some(Trovo::SpringGreen)
    }     else if s == "YellowGreen"@ || s == "yellow_green"@ || s == "yellowgreen"@ || s == "yellow green"@ {
        Some(Trovo::YellowGreen)
    } else {
        None
    }
}

/// The preset that `s` names, if any.
fn lookup_named(s: &str) -> (r: Option<Trovo>)
    ensures
        r == named_color(s@),
{
    if str_eq(s, "Blue") || str_eq(s, "blue") {
        return Some(Trovo::Blue);
    }
    if str_eq(s, "BlueViolet") || str_eq(s, "blue_violet") || str_eq(s, "blueviolet") || str_eq(s, "blue violet") {
        return Some(Trovo::BlueViolet);
    }
    if str_eq(s, "CadetBlue") || str_eq(s, "cadet_blue") || str_eq(s, "cadetblue") || str_eq(s, "cadet blue") {
        return Some(Trovo::CadetBlue);
    }
    if str_eq(s, "Chocolate") || str_eq(s, "chocolate") {
        return Some(Trovo::Chocolate);
    }
    if str_eq(s, "Coral") || str_eq(s, "coral") {
        return Some(Trovo::Coral);
    }
    if str_eq(s, "DodgerBlue") || str_eq(s, "dodger_blue") || str_eq(s, "dodgerblue") || str_eq(s, "dodger blue") {
        return Some(Trovo::DodgerBlue);
    }
    if str_eq(s, "Firebrick") || str_eq(s, "firebrick") {
        return Some(Trovo::Firebrick);
    }
    if str_eq(s, "GoldenRod") || str_eq(s, "golden_rod") || str_eq(s, "goldenrod") || str_eq(s, "golden rod") {
        return Some(Trovo::GoldenRod);
    }
    if str_eq(s, "Green") || str_eq(s, "green") {
        return Some(Trovo::Green);
    }
    if str_eq(s, "HotPink") || str_eq(s, "hot_pink") || str_eq(s, "hotpink") || str_eq(s, "hot pink") {
        return Some(Trovo::HotPink);
    }
    if str_eq(s, "OrangeRed") || str_eq(s, "orange_red") || str_eq(s, "orangered") || str_eq(s, "orange red") {
        return Some(Trovo::OrangeRed);
    }
    if str_eq(s, "Red") || str_eq(s, "red") {
        return Some(Trovo::Red);
    }
    if str_eq(s, "SeaGreen") || str_eq(s, "sea_green") || str_eq(s, "seagreen") || str_eq(s, "sea green") {
        return Some(Trovo::SeaGreen);
    }
    if str_eq(s, "SpringGreen") || str_eq(s, "spring_green") || str_eq(s, "springgreen") || str_eq(s, "spring green") {
        return Some(Trovo::SpringGreen);
    }
    if str_eq(s, "YellowGreen") || str_eq(s, "yellow_green") || str_eq(s, "yellowgreen") || str_eq(s, "yellow green") {
        return Some(Trovo::YellowGreen);
    }
    None
}

impl Trovo {
    /// The color a name stands for: a preset in any of its spellings, or else
    /// a custom color read as hex (white when that fails).
    pub fn from_name(input: &str) -> (r: Trovo)
        ensures
            r == match named_color(input@) {
                Some(t) => t,
                None => Trovo::Turbo(match hex_color(trim(input@)) {
                    Some(c) => c,
                    None => white(),
                }),
            },
    {
        match lookup_named(input) {
            Some(t) => t,
            None => Trovo::Turbo(RGB::from_hex(input)),
        }
    }

    /// The RGB value of this color.
    pub fn rgb(self) -> (r: RGB)
        ensures
            r == preset_rgb(self),
    {
        match self {
            Trovo::Blue => RGB(0x00, 0x00, 0xFF),
            Trovo::BlueViolet => RGB(0x8A, 0x2B, 0xE2),
            Trovo::CadetBlue => RGB(0x5F, 0x9E, 0xA0),
            Trovo::Chocolate => RGB(0xD2, 0x69, 0x1E),
            Trovo::Coral => RGB(0xFF, 0x7F, 0x50),
            Trovo::DodgerBlue => RGB(0x1E, 0x90, 0xFF),
            Trovo::Firebrick => RGB(0xB2, 0x22, 0x22),
            Trovo::GoldenRod => RGB(0xDA, 0xA5, 0x20),
            Trovo::Green => RGB(0x00, 0x80, 0x00),
            Trovo::HotPink => RGB(0xFF, 0x69, 0xB4),
            Trovo::OrangeRed => RGB(0xFF, 0x45, 0x00),
            Trovo::Red => RGB(0xFF, 0x00, 0x00),
            Trovo::SeaGreen => RGB(0x2E, 0x8B, 0x57),
            Trovo::SpringGreen => RGB(0x00, 0xFF, 0x7F),
            Trovo::YellowGreen => RGB(0xAD, 0xFF, 0x2F),
            Trovo::Turbo(c) => c,
        }
    }

    /// The preset with this RGB value, or a custom color.
    pub fn from_rgb(rgb: RGB) -> (r: Trovo)
        ensures
            preset_rgb(r) == rgb,
            (r is Turbo) <==> (forall|i: int| 0 <= i < 15 ==> preset_rgb(#[trigger] preset_table()[i]) != rgb),
    {
        let table = trovo_colors();
        let mut i: usize = 0;
        while i < 15
            invariant
                i <= 15,
                table@ == preset_table().map_values(|t: Trovo| (t, preset_rgb(t))),
                forall|j: int| 0 <= j < i ==> preset_rgb(#[trigger] preset_table()[j]) != rgb,
            decreases 15 - i,
        {
            let (t, c) = table[i];
            if c == rgb {
                return t;
            }
            i = i + 1;
        }
        Trovo::Turbo(rgb)
    }
}

/// The presets, in their documented order.
pub open spec fn preset_table() -> Seq<Trovo> {
    seq![Trovo::Blue, Trovo::BlueViolet, Trovo::CadetBlue, Trovo::Chocolate, Trovo::Coral, Trovo::DodgerBlue, Trovo::Firebrick, Trovo::GoldenRod, Trovo::Green, Trovo::HotPink, Trovo::OrangeRed, Trovo::Red, Trovo::SeaGreen, Trovo::SpringGreen, Trovo::YellowGreen]
}

/// The presets with their RGB values.
pub fn trovo_colors() -> (r: [(Trovo, RGB); 15])
    ensures
        r@ == preset_table().map_values(|t: Trovo| (t, preset_rgb(t))),
{
    let r = [
        (Trovo::Blue, RGB(0x00, 0x00, 0xFF)),
        (Trovo::BlueViolet, RGB(0x8A, 0x2B, 0xE2)),
        (Trovo::CadetBlue, RGB(0x5F, 0x9E, 0xA0)),
        (Trovo::Chocolate, RGB(0xD2, 0x69, 0x1E)),
        (Trovo::Coral, RGB(0xFF, 0x7F, 0x50)),
        (Trovo::DodgerBlue, RGB(0x1E, 0x90, 0xFF)),
        (Trovo::Firebrick, RGB(0xB2, 0x22, 0x22)),
        (Trovo::GoldenRod, RGB(0xDA, 0xA5, 0x20)),
        (Trovo::Green, RGB(0x00, 0x80, 0x00)),
        (Trovo::HotPink, RGB(0xFF, 0x69, 0xB4)),
        (Trovo::OrangeRed, RGB(0xFF, 0x45, 0x00)),
        (Trovo::Red, RGB(0xFF, 0x00, 0x00)),
        (Trovo::SeaGreen, RGB(0x2E, 0x8B, 0x57)),
        (Trovo::SpringGreen, RGB(0x00, 0xFF, 0x7F)),
        (Trovo::YellowGreen, RGB(0xAD, 0xFF, 0x2F)),
    ];
    assert(r@ =~= preset_table().map_values(|t: Trovo| (t, preset_rgb(t))));
    r
}

/// The kind of a badge; unknown kinds keep their name.
#[derive(Debug, Clone, PartialEq, Eq, Hash)]
pub enum BadgeKind {
    /// The `admin` badge.
    Admin,
    /// The `bits` badge.
    Bits,
    /// The `broadcaster` badge.
    Broadcaster,
    /// The `global_mod` badge.
    GlobalMod,
    /// The `moderator` badge.
    Moderator,
    /// The `subscriber` badge.
    Subscriber,
    /// The `staff` badge.
    Staff,
    /// The `turbo` badge.
    Turbo,
    /// The `premium` badge.
    Premium,
    /// The `vip` badge.
    VIP,
    /// The `partner` badge.
    Partner,
    /// Any other badge, by name.
    Unknown(String),
}

/// A badge attached to a message: its kind and its data (a version, a
/// number of months or of bits).
#[derive(Debug, Clone, PartialEq, Eq, Hash)]
pub struct Badge {
    pub kind: BadgeKind,
    pub data: String,
}

/// The known badge kind that `name` names.
pub open spec fn known_badge(name: Seq<char>) -> Option<BadgeKind> {
    if name == "admin"@ {
        Some(BadgeKind::Admin)
    }     else if name == "bits"@ {
        Some(BadgeKind::Bits)
    }     else if name == "broadcaster"@ {
        Some(BadgeKind::Broadcaster)
    }     else if name == "global_mod"@ {
        Some(BadgeKind::GlobalMod)
    }     else if name == "moderator"@ {
        Some(BadgeKind::Moderator)
    }     else if name == "subscriber"@ {
        Some(BadgeKind::Subscriber)
    }     else if name == "staff"@ {
        Some(BadgeKind::Staff)
    }     else if name == "turbo"@ {
        Some(BadgeKind::Turbo)
    }     else if name == "premium"@ {
        Some(BadgeKind::Premium)
    }     else if name == "vip"@ {
        Some(BadgeKind::VIP)
    }     else if name == "partner"@ {
        Some(BadgeKind::Partner)
    } else {
        None
    }
}

/// What a badge `kind/data` says: its kind's name and its data (the part up
/// to a further `/`); `None` without a `/`.
pub open spec fn badge_parts(s: Seq<char>) -> Option<(Seq<char>, Seq<char>)> {
    if index_of(s, '/') < s.len() {
        Some((before(s, '/'), before(after(s, '/'), '/')))
    } else {
        None
    }
}

/// `k` is the badge kind that `name` names.
pub open spec fn kind_is(k: BadgeKind, name: Seq<char>) -> bool {
    match known_badge(name) {
        Some(known) => k == known,
        None => k matches BadgeKind::Unknown(u) && u@ == name,
    }
}

fn badge_kind(name: &str) -> (r: BadgeKind)
    ensures
        kind_is(r, name@),
{
    if str_eq(name, "admin") {
        return BadgeKind::Admin;
    }
    if str_eq(name, "bits") {
        return BadgeKind::Bits;
    }
    if str_eq(name, "broadcaster") {
        return BadgeKind::Broadcaster;
    }
    if str_eq(name, "global_mod") {
        return BadgeKind::GlobalMod;
    }
    if str_eq(name, "moderator") {
        return BadgeKind::Moderator;
    }
    if str_eq(name, "subscriber") {
        return BadgeKind::Subscriber;
    }
    if str_eq(name, "staff") {
        return BadgeKind::Staff;
    }
    if str_eq(name, "turbo") {
        return BadgeKind::Turbo;
    }
    if str_eq(name, "premium") {
        return BadgeKind::Premium;
    }
    if str_eq(name, "vip") {
        return BadgeKind::VIP;
    }
    if str_eq(name, "partner") {
        return BadgeKind::Partner;
    }
    BadgeKind::Unknown(name.to_owned())
}

impl Badge {
    /// Parses a badge from `kind/data`; `None` when there is no `/`.
    pub fn parse(input: &str) -> (r: Option<Badge>)
        ensures
            r is Some <==> badge_parts(input@) is Some,
            r matches Some(b) ==> {
                let (name, data) = badge_parts(input@)->0;
                kind_is(b.kind, name) && b.data@ == data
            },
    {
        let c = to_chars(input);
        let n = c.len();
        let slash = crate::text::find_char(&c, '/', 0, n);
        if slash == n {
            assert(c@.subrange(0, n as int) =~= input@);
            return None;
        }
        let end = crate::text::find_char(&c, '/', slash + 1, n);
        proof {
            assert(c@.subrange(0, n as int) =~= input@);
            crate::text::lemma_index_of_bounds(input@, '/');
            let rest = after(input@, '/');
            assert(rest =~= c@.subrange(slash + 1, n as int));
            crate::text::lemma_index_of_bounds(rest, '/');
            assert(before(rest, '/') =~= c@.subrange(slash + 1, end as int));
            assert(before(input@, '/') =~= c@.subrange(0, slash as int));
        }
        let kind = badge_kind(input.substring_char(0, slash));
        let data = input.substring_char(slash + 1, end).to_owned();
        Some(Badge { kind, data })
    }
}

/// A capability that enables extra protocol features.
#[derive(Debug, Clone, Copy, PartialEq, Eq, Hash, PartialOrd, Ord, Structural)]
pub enum Capability {
    /// Membership events (joins and parts).
    Membership,
    /// Metadata tags on messages.
    Tags,
    /// Service-specific commands.
    Commands,
    /// Chat rooms: tags and commands together.
    ChatRooms,
}

impl Capability {
    /// The request line that asks the server for this capability.
    pub fn encode_as_str(self) -> (r: &'static str)
        ensures
            r@ == match self {
                Capability::Membership => "CAP REQ :trovo.tv/membership"@,
                Capability::Tags => "CAP REQ :trovo.tv/tags"@,
                Capability::Commands => "CAP REQ :trovo.tv/commands"@,
                Capability::ChatRooms => "CAP REQ :trovo.tv/tags trovo.tv/commands"@,
            },
    {
        match self {
            Capability::Membership => "CAP REQ :trovo.tv/membership",
            Capability::Tags => "CAP REQ :trovo.tv/tags",
            Capability::Commands => "CAP REQ :trovo.tv/commands",
            Capability::ChatRooms => "CAP REQ :trovo.tv/tags trovo.tv/commands",
        }
    }
}

/// Identifies a registered handler, so that it can be removed again.
#[derive(Debug, Clone, Copy, PartialEq, Eq, PartialOrd, Ord, Hash, Structural)]
pub struct Token(pub usize);

/// Hands out handler tokens in increasing order.
#[derive(Debug, Default)]
pub struct TokenGen(pub usize);

impl TokenGen {
    /// The next token; the counter wraps around after the largest one.
    pub fn next(&mut self) -> (r: Token)
        ensures
            r == Token(old(self).0),
            final(self).0 == (if old(self).0 == usize::MAX { 0 } else { old(self).0 + 1 }),
    {
        let t = Token(self.0);
        self.0 = if self.0 == usize::MAX { 0 } else { self.0 + 1 };
        t
    }
}

/// The color a `color` tag holds: empty means white; otherwise `#RRGGBB` or
/// the name of a preset.
pub open spec fn color_tag(s: Seq<char>) -> Option<RGB> {
    if s.len() == 0 {
        Some(white())
    } else if s.len() == 7 && s[0] == '#' {
        hex6(s.drop_first())
    } else {
        match named_color(s) {
            Some(t) => Some(preset_rgb(t)),
            None => None,
        }
    }
}

/// Reads a `color` tag; `None` when it is neither empty, `#RRGGBB`, nor a
/// preset's name.
pub fn parse_color(s: &str) -> (r: Option<RGB>)
    ensures
        r == color_tag(s@),
{
    let n = s.unicode_len();
    if n == 0 {
        return Some(RGB(255, 255, 255));
    }
    if n == 7 && s.get_char(0) == '#' {
        return parse_hex(s);
    }
    match lookup_named(s) {
        Some(t) => Some(t.rgb()),
        None => None,
    }
}

/// What the server says about the connected user after registration.
#[derive(Debug, Clone, PartialEq)]
pub struct LocalUser {
    /// The user's id.
    pub user_id: u64,
    /// The display name, if set.
    pub display_name: Option<String>,
    /// The chat color, if set.
    pub color: Option<RGB>,
    /// The user's badges.
    pub badges: Vec<Badge>,
    /// The emote sets the user may use.
    pub emote_sets: Vec<u64>,
    /// The capabilities the server acknowledged.
    pub caps: Vec<Capability>,
}

/// What registering with the server takes.
#[derive(Debug, Clone, PartialEq)]
pub struct UserConfig {
    /// The OAuth token.
    pub token: String,
    /// The nickname that goes with the token.
    pub nick: String,
    /// The capabilities to request.
    pub caps: Vec<Capability>,
}

/// What a session can fail with.
#[derive(Debug, Clone, PartialEq, Eq)]
pub enum Error {
    /// The connection could not be established.
    Connect(String),
    /// Reading failed.
    Read(String),
    /// Writing failed.
    Write(String),
    /// The server sent a frame that could not be decoded.
    InvalidMessage(String),
    /// The server refused the nickname and token.
    InvalidRegistration,
    /// A channel name was empty.
    EmptyChannelName,
    /// Nothing can be read any more.
    CannotRead,
    /// The operation needs the tags capability.
    TagsRequired,
    /// The runner is gone: nothing can be sent any more.
    ClientDisconnected,
    /// Registration ended without these capabilities, which are needed.
    CapabilityRequired(Vec<Capability>),
}

/// The character of a hex digit, upper case.
pub open spec fn hex_char(d: nat) -> char {
    if d < 10 {
        ((d + '0' as nat) as u32) as char
    } else {
        ((d - 10 + 'A' as nat) as u32) as char
    }
}

/// A byte as two upper-case hex digits.
pub open spec fn hex_byte_text(b: u8) -> Seq<char> {
    seq![hex_char((b / 16) as nat), hex_char((b % 16) as nat)]
}

fn hex_digit_str(d: u8) -> (r: &'static str)
    requires
        d < 16,
    ensures
        r@ == seq![hex_char(d as nat)],
{
    proof {
        reveal_strlit("0"); reveal_strlit("1"); reveal_strlit("2"); reveal_strlit("3");
        reveal_strlit("4"); reveal_strlit("5"); reveal_strlit("6"); reveal_strlit("7");
        reveal_strlit("8"); reveal_strlit("9"); reveal_strlit("A"); reveal_strlit("B");
        reveal_strlit("C"); reveal_strlit("D"); reveal_strlit("E"); reveal_strlit("F");
    }
    let r = if d == 0 { "0" } else if d == 1 { "1" } else if d == 2 { "2" } else if d == 3 { "3" }
    else if d == 4 { "4" } else if d == 5 { "5" } else if d == 6 { "6" } else if d == 7 { "7" }
    else if d == 8 { "8" } else if d == 9 { "9" } else if d == 10 { "A" } else if d == 11 { "B" }
    else if d == 12 { "C" } else if d == 13 { "D" } else if d == 14 { "E" } else { "F" };
    assert(r@ =~= seq![hex_char(d as nat)]);
    r
}

impl RGB {
    /// The color as `#RRGGBB`, with upper-case digits.
    pub fn to_hex(self) -> (r: String)
        ensures
            r@ == seq!['#'] + hex_byte_text(self.0) + hex_byte_text(self.1) + hex_byte_text(self.2),
    {
        let mut r = String::new();
        r.append("#");
        r.append(hex_digit_str(self.0 / 16));
        r.append(hex_digit_str(self.0 % 16));
        r.append(hex_digit_str(self.1 / 16));
        r.append(hex_digit_str(self.1 % 16));
        r.append(hex_digit_str(self.2 / 16));
        r.append(hex_digit_str(self.2 % 16));
        proof {
            reveal_strlit("#");
        }
        assert(r@ =~= seq!['#'] + hex_byte_text(self.0) + hex_byte_text(self.1) + hex_byte_text(self.2));
        r
    }
}

/// The name of a preset color.
pub open spec fn preset_name(t: Trovo) -> Option<Seq<char>> {
    match t {
        Trovo::Blue => Some("Blue"@),
        Trovo::BlueViolet => Some("BlueViolet"@),
        Trovo::CadetBlue => Some("CadetBlue"@),
        Trovo::Chocolate => Some("Chocolate"@),
        Trovo::Coral => Some("Coral"@),
        Trovo::DodgerBlue => Some("DodgerBlue"@),
        Trovo::Firebrick => Some("Firebrick"@),
        Trovo::GoldenRod => Some("GoldenRod"@),
        Trovo::Green => Some("Green"@),
        Trovo::HotPink => Some("HotPink"@),
        Trovo::OrangeRed => Some("OrangeRed"@),
        Trovo::Red => Some("Red"@),
        Trovo::SeaGreen => Some("SeaGreen"@),
        Trovo::SpringGreen => Some("SpringGreen"@),
        Trovo::YellowGreen => Some("YellowGreen"@),
        Trovo::Turbo(_) => None,
    }
}

impl Trovo {
    /// The color's name: a preset's own name, or `#RRGGBB` for a custom one.
    pub fn name(self) -> (r: String)
        ensures
            match preset_name(self) {
                Some(n) => r@ == n,
                None => self matches Trovo::Turbo(c) && r@ == seq!['#'] + hex_byte_text(c.0) + hex_byte_text(c.1) + hex_byte_text(c.2),
            },
    {
        let n = match self {
            Trovo::Blue => "Blue",
            Trovo::BlueViolet => "BlueViolet",
            Trovo::CadetBlue => "CadetBlue",
            Trovo::Chocolate => "Chocolate",
            Trovo::Coral => "Coral",
            Trovo::DodgerBlue => "DodgerBlue",
            Trovo::Firebrick => "Firebrick",
            Trovo::GoldenRod => "GoldenRod",
            Trovo::Green => "Green",
            Trovo::HotPink => "HotPink",
            Trovo::OrangeRed => "OrangeRed",
            Trovo::Red => "Red",
            Trovo::SeaGreen => "SeaGreen",
            Trovo::SpringGreen => "SpringGreen",
            Trovo::YellowGreen => "YellowGreen",
            Trovo::Turbo(c) => {
                return c.to_hex();
            },
        };
        n.to_owned()
    }
}

impl Error {
    /// What went wrong, in words.
    pub fn describe(&self) -> (r: String)
        ensures
            *self == Error::InvalidRegistration ==> r@ == "invalid registration. check the `token` and `nick`"@,
            *self == Error::EmptyChannelName ==> r@ == "empty channel name provided"@,
            *self == Error::CannotRead ==> r@ == "cannot read, client should quit now"@,
            *self == Error::TagsRequired ==> r@ == "tags are required to do that"@,
            *self == Error::ClientDisconnected ==> r@ == "the client is disconnected"@,
            self matches Error::Connect(e) ==> r@ == "cannot connect: "@ + e@,
            self matches Error::Read(e) ==> r@ == "cannot read: "@ + e@,
            self matches Error::Write(e) ==> r@ == "cannot write: "@ + e@,
            self matches Error::InvalidMessage(m) ==> r@ == "invalid message, from '"@ + m@ + "'"@,
    {
        let mut s = String::new();
        match self {
            Error::Connect(e) => {
                s.append("cannot connect: ");
                s.append(e.as_str());
            },
            Error::Read(e) => {
                s.append("cannot read: ");
                s.append(e.as_str());
            },
            Error::Write(e) => {
                s.append("cannot write: ");
                s.append(e.as_str());
            },
            Error::InvalidMessage(raw) => {
                s.append("invalid message, from '");
                s.append(raw.as_str());
                s.append("'");
            },
            Error::InvalidRegistration => s.append("invalid registration. check the `token` and `nick`"),
            Error::EmptyChannelName => s.append("empty channel name provided"),
            Error::CannotRead => s.append("cannot read, client should quit now"),
            Error::TagsRequired => s.append("tags are required to do that"),
            Error::ClientDisconnected => s.append("the client is disconnected"),
            Error::CapabilityRequired(_) => s.append("capabilities are required: tags and commands"),
        }
        s
    }
}

/// Builds a [`UserConfig`] without mixing up the nickname and the token.
/// All three capabilities are on at first.
#[derive(Debug, Clone)]
pub struct UserConfigBuilder {
    nick: Option<String>,
    token: Option<String>,
    caps: Vec<Capability>,
}

/// The capabilities a builder starts with.
pub open spec fn default_caps() -> Seq<Capability> {
    seq![Capability::Membership, Capability::Commands, Capability::Tags]
}

/// `caps` without `c`.
pub open spec fn without_cap(caps: Seq<Capability>, c: Capability) -> Seq<Capability>
    decreases caps.len(),
{
    if caps.len() == 0 {
        caps
    } else if caps.last() == c {
        without_cap(caps.drop_last(), c)
    } else {
        without_cap(caps.drop_last(), c).push(caps.last())
    }
}

/// `caps` with `c` removed when present, or added at the end when absent.
pub open spec fn toggled(caps: Seq<Capability>, c: Capability) -> Seq<Capability> {
    if caps.contains(c) {
        without_cap(caps, c)
    } else {
        caps.push(c)
    }
}

impl UserConfig {
    /// A builder with every capability on.
    pub fn builder() -> (r: UserConfigBuilder)
        ensures
            r.nick_set() is None && r.token_set() is None && r.caps_set() == default_caps(),
    {
        UserConfigBuilder::new()
    }
}

impl UserConfigBuilder {
    pub closed spec fn nick_set(&self) -> Option<Seq<char>> {
        match self.nick {
            Some(n) => Some(n@),
            None => None,
        }
    }

    pub closed spec fn token_set(&self) -> Option<Seq<char>> {
        match self.token {
            Some(n) => Some(n@),
            None => None,
        }
    }

    pub closed spec fn caps_set(&self) -> Seq<Capability> {
        self.caps@
    }

    /// A builder with every capability on, and no nickname or token yet.
    pub fn new() -> (r: UserConfigBuilder)
        ensures
            r.nick_set() is None && r.token_set() is None && r.caps_set() == default_caps(),
    {
        let mut caps = Vec::new();
        caps.push(Capability::Membership);
        caps.push(Capability::Commands);
        caps.push(Capability::Tags);
        assert(caps@ =~= default_caps());
        UserConfigBuilder { nick: None, token: None, caps }
    }

    /// Uses `nick` as the nickname.
    pub fn nick(self, nick: &str) -> (r: UserConfigBuilder)
        ensures
            r.nick_set() == Some(nick@) && r.token_set() == self.token_set() && r.caps_set() == self.caps_set(),
    {
        UserConfigBuilder { nick: Some(nick.to_owned()), ..self }
    }

    /// Uses `token` as the OAuth token.
    pub fn token(self, token: &str) -> (r: UserConfigBuilder)
        ensures
            r.token_set() == Some(token@) && r.nick_set() == self.nick_set() && r.caps_set() == self.caps_set(),
    {
        UserConfigBuilder { token: Some(token.to_owned()), ..self }
    }

    fn toggle_cap(&mut self, cap: Capability)
        ensures
            final(self).caps_set() == toggled(old(self).caps_set(), cap),
            final(self).nick_set() == old(self).nick_set(),
            final(self).token_set() == old(self).token_set(),
    {
        let mut kept: Vec<Capability> = Vec::new();
        let mut found = false;
        let mut i: usize = 0;
        while i < self.caps.len()
            invariant
                i <= self.caps@.len(),
                kept@ == without_cap(self.caps@.subrange(0, i as int), cap),
                found <==> exists|j: int| 0 <= j < i && self.caps@[j] == cap,
            decreases self.caps.len() - i,
        {
            proof {
                let pre = self.caps@.subrange(0, i + 1);
                assert(pre.drop_last() =~= self.caps@.subrange(0, i as int));
            }
            if self.caps[i] == cap {
                found = true;
            } else {
                kept.push(self.caps[i]);
            }
            i = i + 1;
        }
        assert(self.caps@.subrange(0, i as int) =~= self.caps@);
        if found {
            self.caps = kept;
        } else {
            self.caps.push(cap);
        }
    }

    /// Turns the membership capability off, or on again.
    pub fn membership(self) -> (r: UserConfigBuilder)
        ensures
            r.caps_set() == toggled(self.caps_set(), Capability::Membership),
            r.nick_set() == self.nick_set() && r.token_set() == self.token_set(),
    {
        let mut b = self;
        b.toggle_cap(Capability::Membership);
        b
    }

    /// Turns the commands capability off, or on again.
    pub fn commands(self) -> (r: UserConfigBuilder)
        ensures
            r.caps_set() == toggled(self.caps_set(), Capability::Commands),
            r.nick_set() == self.nick_set() && r.token_set() == self.token_set(),
    {
        let mut b = self;
        b.toggle_cap(Capability::Commands);
        b
    }

    /// Turns the tags capability off, or on again.
    pub fn tags(self) -> (r: UserConfigBuilder)
        ensures
            r.caps_set() == toggled(self.caps_set(), Capability::Tags),
            r.nick_set() == self.nick_set() && r.token_set() == self.token_set(),
    {
        let mut b = self;
        b.toggle_cap(Capability::Tags);
        b
    }

    /// The configuration; `None` until both the nickname and the token are set.
    pub fn build(self) -> (r: Option<UserConfig>)
        ensures
            r is Some <==> self.nick_set() is Some && self.token_set() is Some,
            r matches Some(c) ==> Some(c.nick@) == self.nick_set() && Some(c.token@) == self.token_set() && c.caps@ == self.caps_set(),
    {
        match (self.nick, self.token) {
            (Some(nick), Some(token)) => Some(UserConfig { token, nick, caps: self.caps }),
            _ => None,
        }
    }
}

} // verus!
