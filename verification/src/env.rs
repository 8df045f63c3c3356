use vstd::prelude::*;
use crate::text::{chars_of, str_eq};

verus! {

/// The words an environment variable may use for "on".
pub open spec fn is_true_word(s: Seq<char>) -> bool {
    s == "true"@ || s == "yes"@ || s == "y"@ || s == "1"@
}

/// The words an environment variable may use for "off".
pub open spec fn is_false_word(s: Seq<char>) -> bool {
    s == "false"@ || s == "no"@ || s == "n"@ || s == "0"@
}

/// Reads a boolean setting: `true`, `yes`, `y` and `1` are on, `false`, `no`, `n`
/// and `0` are off, and anything else is not a boolean.
pub fn var_to_bool(x: &str) -> (res: Option<bool>)
    ensures
        is_true_word(x@) ==> res == Some(true),
        !is_true_word(x@) && is_false_word(x@) ==> res == Some(false),
        !is_true_word(x@) && !is_false_word(x@) ==> res is None,
{
    if str_eq(x, "true") || str_eq(x, "yes") || str_eq(x, "y") || str_eq(x, "1") {
        Some(true)
    } else if str_eq(x, "false") || str_eq(x, "no") || str_eq(x, "n") || str_eq(x, "0") {
        Some(false)
    } else {
        None
    }
}

/// The value of a decimal digit character, if it is one.
pub open spec fn digit_value(c: char) -> Option<nat> {
    if c == '0' { Some(0) }
    else if c == '1' { Some(1) }
    else if c == '2' { Some(2) }
    else if c == '3' { Some(3) }
    else if c == '4' { Some(4) }
    else if c == '5' { Some(5) }
    else if c == '6' { Some(6) }
    else if c == '7' { Some(7) }
    else if c == '8' { Some(8) }
    else if c == '9' { Some(9) }
    else { None }
}

/// The number that decimal digits write, most significant first.
pub open spec fn decimal_number(d: Seq<char>) -> nat
    decreases d.len(),
{
    if d.len() == 0 {
        0
    } else {
        decimal_number(d.drop_last()) * 10 + digit_value(d.last()).unwrap()
    }
}

/// The digits of an unsigned number as `str::parse` reads it: after an optional `+`.
pub open spec fn unsigned_digits(s: Seq<char>) -> Seq<char> {
    if s.len() > 0 && s[0] == '+' {
        s.drop_first()
    } else {
        s
    }
}

/// The port number that `s` writes, as `str::parse::<u16>` reads it: an
/// optional `+` and at least one decimal digit, of value at most 65535.
pub open spec fn port_number(s: Seq<char>) -> Option<u16> {
    let d = unsigned_digits(s);
    if d.len() > 0 && (forall|i: int| 0 <= i < d.len() ==> (#[trigger] digit_value(d[i])) is Some)
        && decimal_number(d) <= 65535 {
        Some(decimal_number(d) as u16)
    } else {
        None
    }
}

fn digit_of(c: char) -> (res: Option<u32>)
    ensures
        res matches Some(v) ==> digit_value(c) == Some(v as nat),
        res is None ==> digit_value(c) is None,
{
    if c == '0' { Some(0) }
    else if c == '1' { Some(1) }
    else if c == '2' { Some(2) }
    else if c == '3' { Some(3) }
    else if c == '4' { Some(4) }
    else if c == '5' { Some(5) }
    else if c == '6' { Some(6) }
    else if c == '7' { Some(7) }
    else if c == '8' { Some(8) }
    else if c == '9' { Some(9) }
    else { None }
}

/// Reads the server's port setting, as `str::parse::<u16>` does.
pub fn parse_port(s: &str) -> (res: Option<u16>)
    ensures
        res == port_number(s@),
{
    let cs = chars_of(s);
    let start: usize = if cs.len() > 0 && cs[0] == '+' { 1 } else { 0 };
    let ghost d = unsigned_digits(s@);
    assert(d == cs@.subrange(start as int, cs@.len() as int));
    if start >= cs.len() {
        return None;
    }
    let mut v: u32 = 0;
    let mut too_big = false;
    let mut i: usize = start;
    while i < cs.len()
        invariant
            start <= i <= cs@.len(),
            cs@ == s@,
            d == unsigned_digits(s@),
            d == cs@.subrange(start as int, cs@.len() as int),
            forall|j: int| start <= j < i ==> (#[trigger] digit_value(cs@[j])) is Some,
            !too_big ==> v == decimal_number(cs@.subrange(start as int, i as int)) && v <= 65535,
            too_big ==> decimal_number(cs@.subrange(start as int, i as int)) > 65535,
        decreases cs@.len() - i,
    {
        let dv = digit_of(cs[i]);
        match dv {
            None => {
                assert(d[i - start] == cs@[i as int]);
                assert(digit_value(d[i - start]) is None);
                return None;
            },
            Some(x) => {
                assert(cs@.subrange(start as int, i + 1).drop_last() == cs@.subrange(start as int, i as int));
                if !too_big {
                    let w: u32 = v * 10 + x;
                    if w > 65535 {
                        too_big = true;
                    } else {
                        v = w;
                    }
                }
            },
        }
        i = i + 1;
    }
    assert forall|j: int| 0 <= j < d.len() implies (#[trigger] digit_value(d[j])) is Some by {
        assert(d[j] == cs@[j + start]);
    }
    if too_big {
        None
    } else {
        Some(v as u16)
    }
}

} // verus!
