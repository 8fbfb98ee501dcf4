//! The closed set of supported games, with case-insensitive tag parsing and a
//! canonical total order used for stable report columns.

use vstd::prelude::*;

verus! {

/// A supported game title. The variant order is the canonical column order of
/// the reports.
#[derive(Debug, Clone, Copy, PartialEq, Eq, Hash, Structural)]
pub enum Game {
    Ck3,
    Eu4,
    Hoi4,
    Imperator,
    Stellaris,
    Vic3,
}

/// The canonical tag of a game, as a sequence of characters.
pub open spec fn spec_game_tag(g: Game) -> Seq<char> {
    match g {
        Game::Ck3 => "ck3"@,
        Game::Eu4 => "eu4"@,
        Game::Hoi4 => "hoi4"@,
        Game::Imperator => "imperator"@,
        Game::Stellaris => "stellaris"@,
        Game::Vic3 => "vic3"@,
    }
}

/// The canonical tag of a game as bytes. Tags are ASCII, so each character is
/// one byte.
pub open spec fn spec_tag_bytes(g: Game) -> Seq<u8> {
    spec_game_tag(g).map_values(|c: char| c as u8)
}

/// The rank of a game in the canonical order (the variant order).
pub open spec fn spec_game_index(g: Game) -> int {
    match g {
        Game::Ck3 => 0,
        Game::Eu4 => 1,
        Game::Hoi4 => 2,
        Game::Imperator => 3,
        Game::Stellaris => 4,
        Game::Vic3 => 5,
    }
}

/// All games in canonical (column) order.
pub open spec fn spec_games_in_order() -> Seq<Game> {
    seq![Game::Ck3, Game::Eu4, Game::Hoi4, Game::Imperator, Game::Stellaris, Game::Vic3]
}

/// All games in the order the `all` directive alias expands to.
pub open spec fn spec_all_alias_games() -> Seq<Game> {
    seq![Game::Eu4, Game::Ck3, Game::Hoi4, Game::Vic3, Game::Imperator, Game::Stellaris]
}

/// ASCII lowercase of one byte.
pub open spec fn spec_lower_byte(b: u8) -> u8 {
    if 65 <= b && b <= 90 {
        (b + 32) as u8
    } else {
        b
    }
}

/// ASCII lowercase of a byte sequence.
pub open spec fn spec_lower_bytes(s: Seq<u8>) -> Seq<u8> {
    s.map_values(|b: u8| spec_lower_byte(b))
}

/// The game whose tag the byte token names, compared ASCII-case-insensitively.
pub open spec fn spec_game_of_tag_bytes(t: Seq<u8>) -> Option<Game> {
    if spec_lower_bytes(t) == spec_tag_bytes(Game::Eu4) {
        Some(Game::Eu4)
    } else if spec_lower_bytes(t) == spec_tag_bytes(Game::Ck3) {
        Some(Game::Ck3)
    } else if spec_lower_bytes(t) == spec_tag_bytes(Game::Vic3) {
        Some(Game::Vic3)
    } else if spec_lower_bytes(t) == spec_tag_bytes(Game::Hoi4) {
        Some(Game::Hoi4)
    } else if spec_lower_bytes(t) == spec_tag_bytes(Game::Imperator) {
        Some(Game::Imperator)
    } else if spec_lower_bytes(t) == spec_tag_bytes(Game::Stellaris) {
        Some(Game::Stellaris)
    } else {
        None
    }
}

/// Case-insensitive match of one character of input against one (lowercase)
/// tag character.
pub open spec fn spec_char_eq_ci(a: char, b: char) -> bool {
    a == b || (65 <= a as u32 && a as u32 <= 90 && a as u32 + 32 == b as u32)
}

/// Case-insensitive match of an input string against a lowercase tag.
pub open spec fn spec_str_matches_tag(s: Seq<char>, t: Seq<char>) -> bool {
    s.len() == t.len() && (forall|i: int| 0 <= i < s.len() ==> spec_char_eq_ci(s[i], t[i]))
}

/// The game whose tag the string names, compared case-insensitively.
pub open spec fn spec_game_from_str(s: Seq<char>) -> Option<Game> {
    if spec_str_matches_tag(s, spec_game_tag(Game::Eu4)) {
        Some(Game::Eu4)
    } else if spec_str_matches_tag(s, spec_game_tag(Game::Ck3)) {
        Some(Game::Ck3)
    } else if spec_str_matches_tag(s, spec_game_tag(Game::Vic3)) {
        Some(Game::Vic3)
    } else if spec_str_matches_tag(s, spec_game_tag(Game::Hoi4)) {
        Some(Game::Hoi4)
    } else if spec_str_matches_tag(s, spec_game_tag(Game::Imperator)) {
        Some(Game::Imperator)
    } else if spec_str_matches_tag(s, spec_game_tag(Game::Stellaris)) {
        Some(Game::Stellaris)
    } else {
        None
    }
}

/// True when the string, matched case-insensitively, equals the lowercase tag.
fn str_matches_tag(s: &str, tag: &str) -> (r: bool)
    ensures
        r == spec_str_matches_tag(s@, tag@),
{
    let n = s.unicode_len();
    let m = tag.unicode_len();
    if n != m {
        return false;
    }
    let mut i: usize = 0;
    while i < n
        invariant
            n == s@.len(),
            n == tag@.len(),
            0 <= i <= n,
            forall|j: int| 0 <= j < i ==> spec_char_eq_ci(s@[j], tag@[j]),
        decreases n - i,
    {
        let a = s.get_char(i);
        let b = tag.get_char(i);
        let au = a as u32;
        let bu = b as u32;
        if !(a == b || (65 <= au && au <= 90 && au + 32 == bu)) {
            return false;
        }
        i = i + 1;
    }
    true
}

impl Game {
    /// Parses a game tag case-insensitively; `None` for an unrecognized tag.
    pub fn from_str(s: &str) -> (r: Option<Game>)
        ensures
            r == spec_game_from_str(s@),
    {
        if str_matches_tag(s, "eu4") {
            Some(Game::Eu4)
        } else if str_matches_tag(s, "ck3") {
            Some(Game::Ck3)
        } else if str_matches_tag(s, "vic3") {
            Some(Game::Vic3)
        } else if str_matches_tag(s, "hoi4") {
            Some(Game::Hoi4)
        } else if str_matches_tag(s, "imperator") {
            Some(Game::Imperator)
        } else if str_matches_tag(s, "stellaris") {
            Some(Game::Stellaris)
        } else {
            None
        }
    }

    /// The canonical lowercase tag of the game, used in directives, manifests
    /// and on the wire.
    pub fn as_str(&self) -> (r: &'static str)
        ensures
            r@ == spec_game_tag(*self),
    {
        match self {
            Game::Ck3 => "ck3",
            Game::Eu4 => "eu4",
            Game::Hoi4 => "hoi4",
            Game::Imperator => "imperator",
            Game::Stellaris => "stellaris",
            Game::Vic3 => "vic3",
        }
    }

    /// The variant name, as the debug formatting of the original value prints
    /// it.
    pub fn variant_name(&self) -> (r: &'static str)
        ensures
            r@ == spec_variant_name(*self),
    {
        match self {
            Game::Ck3 => "Ck3",
            Game::Eu4 => "Eu4",
            Game::Hoi4 => "Hoi4",
            Game::Imperator => "Imperator",
            Game::Stellaris => "Stellaris",
            Game::Vic3 => "Vic3",
        }
    }

    /// The rank of the game in the canonical order.
    pub fn index(&self) -> (r: u8)
        ensures
            r as int == spec_game_index(*self),
    {
        match self {
            Game::Ck3 => 0,
            Game::Eu4 => 1,
            Game::Hoi4 => 2,
            Game::Imperator => 3,
            Game::Stellaris => 4,
            Game::Vic3 => 5,
        }
    }
}

/// The variant name of a game, as debug formatting prints it.
pub open spec fn spec_variant_name(g: Game) -> Seq<char> {
    match g {
        Game::Ck3 => "Ck3"@,
        Game::Eu4 => "Eu4"@,
        Game::Hoi4 => "Hoi4"@,
        Game::Imperator => "Imperator"@,
        Game::Stellaris => "Stellaris"@,
        Game::Vic3 => "Vic3"@,
    }
}

/// True when `v` holds `g`.
pub fn games_contain(v: &Vec<Game>, g: Game) -> (r: bool)
    ensures
        r == v@.contains(g),
{
    let n = v.len();
    let mut i: usize = 0;
    while i < n
        invariant
            0 <= i <= n,
            n == v@.len(),
            forall|j: int| 0 <= j < i ==> v@[j] != g,
        decreases n - i,
    {
        if v[i] == g {
            return true;
        }
        i = i + 1;
    }
    false
}

/// ASCII-lowercases a byte string.
fn ascii_lower_bytes(t: &[u8]) -> (r: Vec<u8>)
    ensures
        r@ == spec_lower_bytes(t@),
{
    let n = t.len();
    let mut r: Vec<u8> = Vec::new();
    let mut i: usize = 0;
    while i < n
        invariant
            0 <= i <= n,
            n == t@.len(),
            r@.len() == i,
            forall|j: int| 0 <= j < i ==> r@[j] == spec_lower_byte(t@[j]),
        decreases n - i,
    {
        let b = t[i];
        let low: u8 = if 65 <= b && b <= 90 {
            b + 32
        } else {
            b
        };
        r.push(low);
        i = i + 1;
    }
    proof {
        assert(r@ =~= spec_lower_bytes(t@));
    }
    r
}

/// True when the byte string equals the ASCII tag, byte for byte.
fn bytes_match_ascii_tag(low: &[u8], tag: &str) -> (r: bool)
    requires
        tag.is_ascii(),
    ensures
        r == (low@ == tag@.map_values(|c: char| c as u8)),
{
    let tb = crate::text::str_ascii_bytes(tag);
    crate::text::bytes_equal(low, tb.as_slice())
}

/// The game a byte token names, matched ASCII-case-insensitively; `None` for
/// an unrecognized token.
pub fn game_from_tag_bytes(t: &[u8]) -> (r: Option<Game>)
    ensures
        r == spec_game_of_tag_bytes(t@),
{
    proof {
        reveal_strlit("eu4");
        reveal_strlit("ck3");
        reveal_strlit("vic3");
        reveal_strlit("hoi4");
        reveal_strlit("imperator");
        reveal_strlit("stellaris");
    }
    let low = ascii_lower_bytes(t);
    if bytes_match_ascii_tag(low.as_slice(), "eu4") {
        Some(Game::Eu4)
    } else if bytes_match_ascii_tag(low.as_slice(), "ck3") {
        Some(Game::Ck3)
    } else if bytes_match_ascii_tag(low.as_slice(), "vic3") {
        Some(Game::Vic3)
    } else if bytes_match_ascii_tag(low.as_slice(), "hoi4") {
        Some(Game::Hoi4)
    } else if bytes_match_ascii_tag(low.as_slice(), "imperator") {
        Some(Game::Imperator)
    } else if bytes_match_ascii_tag(low.as_slice(), "stellaris") {
        Some(Game::Stellaris)
    } else {
        None
    }
}

/// All games in canonical (column) order.
pub fn games_in_order() -> (r: Vec<Game>)
    ensures
        r@ == spec_games_in_order(),
{
    let mut v: Vec<Game> = Vec::new();
    v.push(Game::Ck3);
    v.push(Game::Eu4);
    v.push(Game::Hoi4);
    v.push(Game::Imperator);
    v.push(Game::Stellaris);
    v.push(Game::Vic3);
    proof {
        assert(v@ =~= spec_games_in_order());
    }
    v
}

} // verus!
