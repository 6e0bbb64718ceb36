//! The Base58 alphabet: the fixed mapping between digit values 0..58 and
//! characters. Position in the alphabet is digit value; the ambiguous
//! characters `0`, `O`, `I` and `l` are excluded.

use vstd::prelude::*;

verus! {

/// The character standing for the digit value `d`, for `0 <= d < 58`.
pub open spec fn b58_char(d: int) -> char {
    if d == 0 { '1'
    } else if d == 1 { '2'
    } else if d == 2 { '3'
    } else if d == 3 { '4'
    } else if d == 4 { '5'
    } else if d == 5 { '6'
    } else if d == 6 { '7'
    } else if d == 7 { '8'
    } else if d == 8 { '9'
    } else if d == 9 { 'A'
    } else if d == 10 { 'B'
    } else if d == 11 { 'C'
    } else if d == 12 { 'D'
    } else if d == 13 { 'E'
    } else if d == 14 { 'F'
    } else if d == 15 { 'G'
    } else if d == 16 { 'H'
    } else if d == 17 { 'J'
    } else if d == 18 { 'K'
    } else if d == 19 { 'L'
    } else if d == 20 { 'M'
    } else if d == 21 { 'N'
    } else if d == 22 { 'P'
    } else if d == 23 { 'Q'
    } else if d == 24 { 'R'
    } else if d == 25 { 'S'
    } else if d == 26 { 'T'
    } else if d == 27 { 'U'
    } else if d == 28 { 'V'
    } else if d == 29 { 'W'
    } else if d == 30 { 'X'
    } else if d == 31 { 'Y'
    } else if d == 32 { 'Z'
    } else if d == 33 { 'a'
    } else if d == 34 { 'b'
    } else if d == 35 { 'c'
    } else if d == 36 { 'd'
    } else if d == 37 { 'e'
    } else if d == 38 { 'f'
    } else if d == 39 { 'g'
    } else if d == 40 { 'h'
    } else if d == 41 { 'i'
    } else if d == 42 { 'j'
    } else if d == 43 { 'k'
    } else if d == 44 { 'm'
    } else if d == 45 { 'n'
    } else if d == 46 { 'o'
    } else if d == 47 { 'p'
    } else if d == 48 { 'q'
    } else if d == 49 { 'r'
    } else if d == 50 { 's'
    } else if d == 51 { 't'
    } else if d == 52 { 'u'
    } else if d == 53 { 'v'
    } else if d == 54 { 'w'
    } else if d == 55 { 'x'
    } else if d == 56 { 'y'
    } else if d == 57 { 'z'
    } else { ' '
    }
}

/// The digit value of the character `c`: its position in the alphabet,
/// or `-1` when `c` is not a Base58 character.
pub open spec fn b58_digit(c: char) -> int {
    if c == '1' { 0
    } else if c == '2' { 1
    } else if c == '3' { 2
    } else if c == '4' { 3
    } else if c == '5' { 4
    } else if c == '6' { 5
    } else if c == '7' { 6
    } else if c == '8' { 7
    } else if c == '9' { 8
    } else if c == 'A' { 9
    } else if c == 'B' { 10
    } else if c == 'C' { 11
    } else if c == 'D' { 12
    } else if c == 'E' { 13
    } else if c == 'F' { 14
    } else if c == 'G' { 15
    } else if c == 'H' { 16
    } else if c == 'J' { 17
    } else if c == 'K' { 18
    } else if c == 'L' { 19
    } else if c == 'M' { 20
    } else if c == 'N' { 21
    } else if c == 'P' { 22
    } else if c == 'Q' { 23
    } else if c == 'R' { 24
    } else if c == 'S' { 25
    } else if c == 'T' { 26
    } else if c == 'U' { 27
    } else if c == 'V' { 28
    } else if c == 'W' { 29
    } else if c == 'X' { 30
    } else if c == 'Y' { 31
    } else if c == 'Z' { 32
    } else if c == 'a' { 33
    } else if c == 'b' { 34
    } else if c == 'c' { 35
    } else if c == 'd' { 36
    } else if c == 'e' { 37
    } else if c == 'f' { 38
    } else if c == 'g' { 39
    } else if c == 'h' { 40
    } else if c == 'i' { 41
    } else if c == 'j' { 42
    } else if c == 'k' { 43
    } else if c == 'm' { 44
    } else if c == 'n' { 45
    } else if c == 'o' { 46
    } else if c == 'p' { 47
    } else if c == 'q' { 48
    } else if c == 'r' { 49
    } else if c == 's' { 50
    } else if c == 't' { 51
    } else if c == 'u' { 52
    } else if c == 'v' { 53
    } else if c == 'w' { 54
    } else if c == 'x' { 55
    } else if c == 'y' { 56
    } else if c == 'z' { 57
    } else { -1
    }
}

/// Whether `c` is one of the 58 alphabet characters.
pub open spec fn is_b58_char(c: char) -> bool {
    b58_digit(c) >= 0
}

/// Looking a digit up in the alphabet and taking its position back is the
/// identity on digit values.
pub proof fn lemma_b58_char_digit(d: int)
    requires
        0 <= d < 58,
    ensures
        b58_digit(b58_char(d)) == d,
        is_b58_char(b58_char(d)),
{
}

/// The one-character string holding the alphabet character for the digit
/// value `d`.
pub fn b58_char_str(d: u8) -> (r: &'static str)
    requires
        d < 58,
    ensures
        r@ == seq![b58_char(d as int)],
{
    let r: &'static str = match d {
        0 => "1",
        1 => "2",
        2 => "3",
        3 => "4",
        4 => "5",
        5 => "6",
        6 => "7",
        7 => "8",
        8 => "9",
        9 => "A",
        10 => "B",
        11 => "C",
        12 => "D",
        13 => "E",
        14 => "F",
        15 => "G",
        16 => "H",
        17 => "J",
        18 => "K",
        19 => "L",
        20 => "M",
        21 => "N",
        22 => "P",
        23 => "Q",
        24 => "R",
        25 => "S",
        26 => "T",
        27 => "U",
        28 => "V",
        29 => "W",
        30 => "X",
        31 => "Y",
        32 => "Z",
        33 => "a",
        34 => "b",
        35 => "c",
        36 => "d",
        37 => "e",
        38 => "f",
        39 => "g",
        40 => "h",
        41 => "i",
        42 => "j",
        43 => "k",
        44 => "m",
        45 => "n",
        46 => "o",
        47 => "p",
        48 => "q",
        49 => "r",
        50 => "s",
        51 => "t",
        52 => "u",
        53 => "v",
        54 => "w",
        55 => "x",
        56 => "y",
        57 => "z",
        _ => " ",
    };
    proof {
        reveal_strlit("1");
        reveal_strlit("2");
        reveal_strlit("3");
        reveal_strlit("4");
        reveal_strlit("5");
        reveal_strlit("6");
        reveal_strlit("7");
        reveal_strlit("8");
        reveal_strlit("9");
        reveal_strlit("A");
        reveal_strlit("B");
        reveal_strlit("C");
        reveal_strlit("D");
        reveal_strlit("E");
        reveal_strlit("F");
        reveal_strlit("G");
        reveal_strlit("H");
        reveal_strlit("J");
        reveal_strlit("K");
        reveal_strlit("L");
        reveal_strlit("M");
        reveal_strlit("N");
        reveal_strlit("P");
        reveal_strlit("Q");
        reveal_strlit("R");
        reveal_strlit("S");
        reveal_strlit("T");
        reveal_strlit("U");
        reveal_strlit("V");
        reveal_strlit("W");
        reveal_strlit("X");
        reveal_strlit("Y");
        reveal_strlit("Z");
        reveal_strlit("a");
        reveal_strlit("b");
        reveal_strlit("c");
        reveal_strlit("d");
        reveal_strlit("e");
        reveal_strlit("f");
        reveal_strlit("g");
        reveal_strlit("h");
        reveal_strlit("i");
        reveal_strlit("j");
        reveal_strlit("k");
        reveal_strlit("m");
        reveal_strlit("n");
        reveal_strlit("o");
        reveal_strlit("p");
        reveal_strlit("q");
        reveal_strlit("r");
        reveal_strlit("s");
        reveal_strlit("t");
        reveal_strlit("u");
        reveal_strlit("v");
        reveal_strlit("w");
        reveal_strlit("x");
        reveal_strlit("y");
        reveal_strlit("z");
        assert(r@ =~= seq![b58_char(d as int)]);
    }
    r
}

/// The digit value of `c`, or `None` when `c` is outside the alphabet.
pub fn b58_digit_of(c: char) -> (r: Option<u8>)
    ensures
        r is Some <==> is_b58_char(c),
        r is Some ==> r->0 == b58_digit(c) && r->0 < 58,
{
    match c {
        '1' => Some(0),
        '2' => Some(1),
        '3' => Some(2),
        '4' => Some(3),
        '5' => Some(4),
        '6' => Some(5),
        '7' => Some(6),
        '8' => Some(7),
        '9' => Some(8),
        'A' => Some(9),
        'B' => Some(10),
        'C' => Some(11),
        'D' => Some(12),
        'E' => Some(13),
        'F' => Some(14),
        'G' => Some(15),
        'H' => Some(16),
        'J' => Some(17),
        'K' => Some(18),
        'L' => Some(19),
        'M' => Some(20),
        'N' => Some(21),
        'P' => Some(22),
        'Q' => Some(23),
        'R' => Some(24),
        'S' => Some(25),
        'T' => Some(26),
        'U' => Some(27),
        'V' => Some(28),
        'W' => Some(29),
        'X' => Some(30),
        'Y' => Some(31),
        'Z' => Some(32),
        'a' => Some(33),
        'b' => Some(34),
        'c' => Some(35),
        'd' => Some(36),
        'e' => Some(37),
        'f' => Some(38),
        'g' => Some(39),
        'h' => Some(40),
        'i' => Some(41),
        'j' => Some(42),
        'k' => Some(43),
        'm' => Some(44),
        'n' => Some(45),
        'o' => Some(46),
        'p' => Some(47),
        'q' => Some(48),
        'r' => Some(49),
        's' => Some(50),
        't' => Some(51),
        'u' => Some(52),
        'v' => Some(53),
        'w' => Some(54),
        'x' => Some(55),
        'y' => Some(56),
        'z' => Some(57),
        _ => None,
    }
}

} // verus!
