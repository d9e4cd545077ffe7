//! Resolving General-MIDI program numbers to instrument names.
//!
//! A fixed table maps the program numbers relevant to the target
//! repertoire to readable names; any other program number is rendered
//! as its own decimal string.

use vstd::prelude::*;

verus! {

/// The character for one decimal digit.
pub open spec fn digit_char(d: int) -> char {
    if d == 0 {
        '0'
    } else if d == 1 {
        '1'
    } else if d == 2 {
        '2'
    } else if d == 3 {
        '3'
    } else if d == 4 {
        '4'
    } else if d == 5 {
        '5'
    } else if d == 6 {
        '6'
    } else if d == 7 {
        '7'
    } else if d == 8 {
        '8'
    } else {
        '9'
    }
}

/// The decimal rendering of a non-negative integer, most significant
/// digit first, with no leading zeros.
pub open spec fn spec_decimal(n: int) -> Seq<char>
    decreases n,
{
    if n < 10 {
        seq![digit_char(n)]
    } else {
        spec_decimal(n / 10).push(digit_char(n % 10))
    }
}

/// The instrument name for a program number: the table entry where one
/// exists, else the number's own decimal string.
pub open spec fn spec_instrument(p: int) -> Seq<char> {
    if p == 0 {
        "acoustic grand piano"@
    } else if p == 9 {
        "glockenspiel"@
    } else if p == 11 {
        "vibraphone"@
    } else if p == 12 {
        "marimba"@
    } else if p == 14 {
        "tubular bell"@
    } else if p == 24 {
        "guitar"@
    } else if p == 40 {
        "violin"@
    } else if p == 41 {
        "viola"@
    } else if p == 42 {
        "cello"@
    } else if p == 43 {
        "contrabass"@
    } else if p == 44 {
        "tremolo strings"@
    } else if p == 45 {
        "pizzicato strings"@
    } else if p == 46 {
        "harp"@
    } else if p == 47 {
        "timpani"@
    } else if p == 48 {
        "string ensemble 1"@
    } else if p == 56 {
        "trumpet"@
    } else if p == 57 {
        "trombone"@
    } else if p == 58 {
        "tuba"@
    } else if p == 60 {
        "french horn"@
    } else if p == 68 {
        "oboe"@
    } else if p == 69 {
        "english horn"@
    } else if p == 70 {
        "bassoon"@
    } else if p == 71 {
        "clarinet"@
    } else if p == 72 {
        "piccolo"@
    } else if p == 73 {
        "flute"@
    } else if p == 74 {
        "recorder"@
    } else {
        spec_decimal(p)
    }
}

/// The one-character string for a decimal digit.
fn digit_str(d: u8) -> (r: &'static str)
    requires
        d < 10,
    ensures
        r@ =~= seq![digit_char(d as int)],
{
    proof {
        reveal_strlit("0");
        reveal_strlit("1");
        reveal_strlit("2");
        reveal_strlit("3");
        reveal_strlit("4");
        reveal_strlit("5");
        reveal_strlit("6");
        reveal_strlit("7");
        reveal_strlit("8");
        reveal_strlit("9");
    }
    match d {
        0 => "0",
        1 => "1",
        2 => "2",
        3 => "3",
        4 => "4",
        5 => "5",
        6 => "6",
        7 => "7",
        8 => "8",
        _ => "9",
    }
}

/// Render a byte as its decimal string.
pub fn decimal_string(n: u8) -> (r: String)
    ensures
        r@ == spec_decimal(n as int),
{
    let mut s = String::new();
    if n >= 100 {
        s.append(digit_str(n / 100));
    }
    if n >= 10 {
        s.append(digit_str((n / 10) % 10));
    }
    s.append(digit_str(n % 10));
    proof {
        if n < 10 {
            assert(s@ =~= spec_decimal(n as int));
        } else if n < 100 {
            assert((n / 10) % 10 == n as int / 10);
            assert(s@ =~= spec_decimal(n as int / 10).push(digit_char(n as int % 10)));
        } else {
            assert(n as int / 10 / 10 == n as int / 100) by (nonlinear_arith)
                requires
                    n >= 100,
            ;
            assert(n as int / 10 >= 10);
            assert(spec_decimal(n as int / 10) == spec_decimal(n as int / 100).push(
                digit_char((n as int / 10) % 10),
            ));
            assert(s@ =~= spec_decimal(n as int / 10).push(digit_char(n as int % 10)));
        }
    }
    s
}

/// The name for a program number, per the fixed table with a decimal
/// fallback; a pure function of the number alone.
pub fn resolve_instrument(program: u8) -> (r: String)
    ensures
        r@ == spec_instrument(program as int),
{
    match program {
        0 => String::from_str("acoustic grand piano"),
        9 => String::from_str("glockenspiel"),
        11 => String::from_str("vibraphone"),
        12 => String::from_str("marimba"),
        14 => String::from_str("tubular bell"),
        24 => String::from_str("guitar"),
        40 => String::from_str("violin"),
        41 => String::from_str("viola"),
        42 => String::from_str("cello"),
        43 => String::from_str("contrabass"),
        44 => String::from_str("tremolo strings"),
        45 => String::from_str("pizzicato strings"),
        46 => String::from_str("harp"),
        47 => String::from_str("timpani"),
        48 => String::from_str("string ensemble 1"),
        56 => String::from_str("trumpet"),
        57 => String::from_str("trombone"),
        58 => String::from_str("tuba"),
        60 => String::from_str("french horn"),
        68 => String::from_str("oboe"),
        69 => String::from_str("english horn"),
        70 => String::from_str("bassoon"),
        71 => String::from_str("clarinet"),
        72 => String::from_str("piccolo"),
        73 => String::from_str("flute"),
        74 => String::from_str("recorder"),
        _ => decimal_string(program),
    }
}

} // verus!
