//! Coordinate codec: grid indices to two-character location codes and back.
use vstd::prelude::*;

verus! {

/// Row value that a code with an unknown row letter decodes to.
pub const INVALID_ROW: usize = 100;

/// The row letters, `a` for row 0 up to `h` for row 7.
pub open spec fn row_letters() -> Seq<char> {
    seq!['a', 'b', 'c', 'd', 'e', 'f', 'g', 'h']
}

/// The column digits, `1` for column 0 up to `9` for column 8.
pub open spec fn col_digits() -> Seq<char> {
    seq!['1', '2', '3', '4', '5', '6', '7', '8', '9']
}

/// The canonical code of an on-board cell.
pub open spec fn code_of(row: int, col: int) -> Seq<char> {
    seq![row_letters()[row], col_digits()[col]]
}

/// Whether `(row, col)` lies on the 8x8 grid.
pub open spec fn on_board(row: int, col: int) -> bool {
    0 <= row < 8 && 0 <= col < 8
}

/// Row that a row letter stands for; any other character gives `INVALID_ROW`.
pub open spec fn row_of_letter(c: char) -> int {
    if c == 'a' {
        0
    } else if c == 'b' {
        1
    } else if c == 'c' {
        2
    } else if c == 'd' {
        3
    } else if c == 'e' {
        4
    } else if c == 'f' {
        5
    } else if c == 'g' {
        6
    } else if c == 'h' {
        7
    } else {
        INVALID_ROW as int
    }
}

/// Zero-based column that a digit `1`..`9` stands for.
pub open spec fn col_of_digit(c: char) -> int {
    if c == '1' {
        0
    } else if c == '2' {
        1
    } else if c == '3' {
        2
    } else if c == '4' {
        3
    } else if c == '5' {
        4
    } else if c == '6' {
        5
    } else if c == '7' {
        6
    } else if c == '8' {
        7
    } else {
        8
    }
}

/// A code that decodes without failing: two characters, the second a
/// positive digit.
pub open spec fn decodable(s: Seq<char>) -> bool {
    s.len() == 2 && '1' <= s[1] && s[1] <= '9'
}

/// A decodable code that names an on-board cell.
pub open spec fn valid_code(s: Seq<char>) -> bool {
    decodable(s) && on_board(row_of_letter(s[0]), col_of_digit(s[1]))
}

/// A grid location together with its textual code.
#[derive(Debug, Clone, PartialEq, Eq)]
pub struct SquareLoc {
    pub row: usize,
    pub col: usize,
    pub id: String,
}

impl SquareLoc {
    /// The location is what its code decodes to.
    pub open spec fn wf(&self) -> bool {
        &&& decodable(self.id@)
        &&& self.row == row_of_letter(self.id@[0])
        &&& self.col == col_of_digit(self.id@[1])
    }

    pub open spec fn on_board(&self) -> bool {
        on_board(self.row as int, self.col as int)
    }

    /// The cell that the location names.
    pub open spec fn cell(&self) -> (int, int) {
        (self.row as int, self.col as int)
    }

    /// A field-by-field copy.
    pub fn copy(&self) -> (r: SquareLoc)
        ensures
            r == *self,
    {
        SquareLoc { row: self.row, col: self.col, id: self.id.clone() }
    }
}

/// Decoding the code of an on-board cell gives that cell back.
pub proof fn lemma_code_round_trip(row: int, col: int)
    requires
        on_board(row, col),
    ensures
        decodable(code_of(row, col)),
        row_of_letter(code_of(row, col)[0]) == row,
        col_of_digit(code_of(row, col)[1]) == col,
{
}

/// A well-formed on-board location carries the canonical code of its cell.
pub proof fn lemma_loc_code(l: SquareLoc)
    requires
        l.wf(),
        l.on_board(),
    ensures
        l.id@ == code_of(l.row as int, l.col as int),
{
    assert(l.id@ =~= code_of(l.row as int, l.col as int));
}

fn row_text(row: usize) -> (r: &'static str)
    requires
        row < 8,
    ensures
        r@ == seq![row_letters()[row as int]],
{
    proof {
        reveal_strlit("a");
        reveal_strlit("b");
        reveal_strlit("c");
        reveal_strlit("d");
        reveal_strlit("e");
        reveal_strlit("f");
        reveal_strlit("g");
        reveal_strlit("h");
    }
    match row {
        0 => "a",
        1 => "b",
        2 => "c",
        3 => "d",
        4 => "e",
        5 => "f",
        6 => "g",
        _ => "h",
    }
}

/// The decimal text of a count from 1 to 9.
pub(crate) fn digit_text(n: usize) -> (r: &'static str)
    requires
        1 <= n <= 9,
    ensures
        r@ == seq![col_digits()[n - 1]],
{
    proof {
        reveal_strlit("1");
        reveal_strlit("2");
        reveal_strlit("3");
        reveal_strlit("4");
        reveal_strlit("5");
        reveal_strlit("6");
        reveal_strlit("7");
        reveal_strlit("8");
        reveal_strlit("9");
    }
    match n {
        1 => "1",
        2 => "2",
        3 => "3",
        4 => "4",
        5 => "5",
        6 => "6",
        7 => "7",
        8 => "8",
        _ => "9",
    }
}

/// The code of the cell at `(row, col)`: the row letter followed by the
/// one-based column digit, `a1` for `(0, 0)`.
pub fn gen_id(row: usize, col: usize) -> (r: String)
    requires
        row < 8,
        col < 8,
    ensures
        r@ == code_of(row as int, col as int),
{
    let mut s = String::from_str(row_text(row));
    s.append(digit_text(col + 1));
    proof {
        assert(s@ =~= code_of(row as int, col as int));
    }
    s
}

/// Whether `s` decodes without failing: two characters, the second `1`..`9`.
pub fn is_decodable(s: &String) -> (r: bool)
    ensures
        r == decodable(s@),
{
    if s.as_str().unicode_len() != 2 {
        return false;
    }
    let d = s.as_str().get_char(1);
    '1' <= d && d <= '9'
}

/// Whether `s` is the code of an on-board cell: `a`..`h` then `1`..`8`.
pub fn is_valid_code(s: &String) -> (r: bool)
    ensures
        r == valid_code(s@),
{
    if !is_decodable(s) {
        return false;
    }
    let l = s.as_str().get_char(0);
    let d = s.as_str().get_char(1);
    'a' <= l && l <= 'h' && d != '9'
}

/// Decodes a two-character code: the letter gives the row (`INVALID_ROW` when
/// it is not `a`..`h`), the digit the one-based column.
pub fn expand_id(id: String) -> (r: SquareLoc)
    requires
        decodable(id@),
    ensures
        r.wf(),
        r.id@ == id@,
{
    let first = id.as_str().get_char(0);
    let second = id.as_str().get_char(1);
    let row: usize = match first {
        'a' => 0,
        'b' => 1,
        'c' => 2,
        'd' => 3,
        'e' => 4,
        'f' => 5,
        'g' => 6,
        'h' => 7,
        _ => INVALID_ROW,
    };
    let col: usize = match second {
        '1' => 0,
        '2' => 1,
        '3' => 2,
        '4' => 3,
        '5' => 4,
        '6' => 5,
        '7' => 6,
        '8' => 7,
        _ => 8,
    };
    SquareLoc { row, col, id }
}

} // verus!
