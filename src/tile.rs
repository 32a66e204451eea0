//! Tiles, sides, and the one-character tile token codec.
use vstd::prelude::*;

verus! {

#[derive(Debug, Clone, Copy, PartialEq, Eq, Structural)]
pub enum PassiveTiles {
    Goat,
    Horse,
    Sloth,
}

#[derive(Debug, Clone, Copy, PartialEq, Eq, Structural)]
pub enum AggressiveTiles {
    Tiger,
    Bear,
    Snake,
    MantisShrimp,
}

#[derive(Debug, Clone, Copy, PartialEq, Eq, Structural)]
pub enum TilesTypes {
    P(PassiveTiles),
    A(AggressiveTiles),
    Bird,
}

/// A side of the game; `Nil` before the game starts.
#[derive(Debug, Clone, Copy, PartialEq, Eq, Structural)]
pub enum Turn {
    Nil,
    White,
    Orange,
}

#[derive(Debug, Clone, Copy, PartialEq, Eq, Structural)]
pub struct Tile {
    pub kind: TilesTypes,
    pub color: Turn,
}

/// The lowercase letter of a tile kind.
pub open spec fn kind_letter(k: TilesTypes) -> char {
    match k {
        TilesTypes::P(PassiveTiles::Goat) => 'g',
        TilesTypes::P(PassiveTiles::Horse) => 'h',
        TilesTypes::P(PassiveTiles::Sloth) => 's',
        TilesTypes::Bird => 'r',
        TilesTypes::A(AggressiveTiles::Bear) => 'b',
        TilesTypes::A(AggressiveTiles::Tiger) => 't',
        TilesTypes::A(AggressiveTiles::Snake) => 'l',
        TilesTypes::A(AggressiveTiles::MantisShrimp) => 'm',
    }
}

/// The uppercase form of a kind letter.
pub open spec fn upper_letter(c: char) -> char {
    if c == 'g' {
        'G'
    } else if c == 'h' {
        'H'
    } else if c == 's' {
        'S'
    } else if c == 'r' {
        'R'
    } else if c == 'b' {
        'B'
    } else if c == 't' {
        'T'
    } else if c == 'l' {
        'L'
    } else {
        'M'
    }
}

/// The token of a tile: its kind letter, in upper case for an Orange tile.
pub open spec fn token_of(t: Tile) -> char {
    if t.color == Turn::Orange {
        upper_letter(kind_letter(t.kind))
    } else {
        kind_letter(t.kind)
    }
}

/// The kind that a token names, ignoring case; `None` for an unknown token.
pub open spec fn kind_of_token(s: Seq<char>) -> Option<TilesTypes> {
    if s.len() != 1 {
        None
    } else {
        let c = s[0];
        if c == 'g' || c == 'G' {
            Some(TilesTypes::P(PassiveTiles::Goat))
        } else if c == 'h' || c == 'H' {
            Some(TilesTypes::P(PassiveTiles::Horse))
        } else if c == 's' || c == 'S' {
            Some(TilesTypes::P(PassiveTiles::Sloth))
        } else if c == 'r' || c == 'R' {
            Some(TilesTypes::Bird)
        } else if c == 'b' || c == 'B' {
            Some(TilesTypes::A(AggressiveTiles::Bear))
        } else if c == 't' || c == 'T' {
            Some(TilesTypes::A(AggressiveTiles::Tiger))
        } else if c == 'l' || c == 'L' {
            Some(TilesTypes::A(AggressiveTiles::Snake))
        } else if c == 'm' || c == 'M' {
            Some(TilesTypes::A(AggressiveTiles::MantisShrimp))
        } else {
            None
        }
    }
}

/// Whether a character is an ASCII capital letter.
pub open spec fn ascii_upper(c: char) -> bool {
    'A' <= c && c <= 'Z'
}

/// One of the sixteen tile tokens.
pub open spec fn valid_token(s: Seq<char>) -> bool {
    kind_of_token(s) is Some
}

/// The tile that a valid token stands for.
pub open spec fn tile_of_token(s: Seq<char>) -> Tile {
    Tile {
        kind: kind_of_token(s).unwrap(),
        color: if ascii_upper(s[0]) { Turn::Orange } else { Turn::White },
    }
}

/// Whether `c` has the Unicode uppercase property.
pub uninterp spec fn upper_of(c: char) -> bool;

/// The tile that a non-empty token decodes to: Orange when its first character
/// is upper case, White otherwise; an unknown token gives a Bird.
pub open spec fn decode_token(s: Seq<char>) -> Tile {
    Tile {
        kind: match kind_of_token(s) {
            Some(k) => k,
            None => TilesTypes::Bird,
        },
        color: if upper_of(s[0]) { Turn::Orange } else { Turn::White },
    }
}

/// Relies on char::is_uppercase: the answer depends on the character alone,
/// and is true of `A`..`Z` and false of `a`..`z`.
#[verifier::external_body]
fn is_upper(c: char) -> (r: bool)
    ensures
        r == upper_of(c),
        ascii_upper(c) ==> r,
        'a' <= c <= 'z' ==> !r,
{
    c.is_uppercase()
}

fn kind_text(k: TilesTypes, upper: bool) -> (r: &'static str)
    ensures
        r@ == seq![if upper { upper_letter(kind_letter(k)) } else { kind_letter(k) }],
{
    proof {
        reveal_strlit("g");
        reveal_strlit("h");
        reveal_strlit("s");
        reveal_strlit("r");
        reveal_strlit("b");
        reveal_strlit("t");
        reveal_strlit("l");
        reveal_strlit("m");
        reveal_strlit("G");
        reveal_strlit("H");
        reveal_strlit("S");
        reveal_strlit("R");
        reveal_strlit("B");
        reveal_strlit("T");
        reveal_strlit("L");
        reveal_strlit("M");
    }
    match k {
        TilesTypes::P(PassiveTiles::Goat) => if upper { "G" } else { "g" },
        TilesTypes::P(PassiveTiles::Horse) => if upper { "H" } else { "h" },
        TilesTypes::P(PassiveTiles::Sloth) => if upper { "S" } else { "s" },
        TilesTypes::Bird => if upper { "R" } else { "r" },
        TilesTypes::A(AggressiveTiles::Bear) => if upper { "B" } else { "b" },
        TilesTypes::A(AggressiveTiles::Tiger) => if upper { "T" } else { "t" },
        TilesTypes::A(AggressiveTiles::Snake) => if upper { "L" } else { "l" },
        TilesTypes::A(AggressiveTiles::MantisShrimp) => if upper { "M" } else { "m" },
    }
}

/// The one-character token of a tile.
pub fn gen_tile_id(tile: Tile) -> (r: String)
    ensures
        r@ == seq![token_of(tile)],
{
    String::from_str(kind_text(tile.kind, tile.color == Turn::Orange))
}

/// Decodes a token: the owner is Orange when the first character is upper
/// case and White otherwise; an unknown token gives a Bird.
pub fn expand_tile_id(tile: String) -> (r: Tile)
    requires
        tile@.len() >= 1,
    ensures
        r == decode_token(tile@),
        valid_token(tile@) ==> r == tile_of_token(tile@),
{
    let first = tile.as_str().get_char(0);
    let color = if is_upper(first) {
        Turn::Orange
    } else {
        Turn::White
    };
    let mut kind = TilesTypes::Bird;
    if tile.as_str().unicode_len() == 1 {
        kind = match first {
            'g' | 'G' => TilesTypes::P(PassiveTiles::Goat),
            'h' | 'H' => TilesTypes::P(PassiveTiles::Horse),
            's' | 'S' => TilesTypes::P(PassiveTiles::Sloth),
            'b' | 'B' => TilesTypes::A(AggressiveTiles::Bear),
            't' | 'T' => TilesTypes::A(AggressiveTiles::Tiger),
            'l' | 'L' => TilesTypes::A(AggressiveTiles::Snake),
            'm' | 'M' => TilesTypes::A(AggressiveTiles::MantisShrimp),
            _ => TilesTypes::Bird,
        };
    }
    Tile { kind, color }
}

/// Encoding the tile that a valid token decodes to gives the token back.
pub proof fn lemma_token_round_trip(s: Seq<char>)
    requires
        valid_token(s),
    ensures
        seq![token_of(tile_of_token(s))] == s,
{
    assert(seq![token_of(tile_of_token(s))] =~= s);
}

} // verus!
