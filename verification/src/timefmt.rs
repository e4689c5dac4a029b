use vstd::prelude::*;

verus! {

use vstd::string::StringExecFns;

pub open spec fn digit_char(d: int) -> char {
    if d == 0 {
        '0'
    } else if d == 1 {
        '1'
    } else if d == 2 {
        '2'
    } else if d == 3 {
        '3'
    } else if d == 4 {
        '4'
    } else if d == 5 {
        '5'
    } else if d == 6 {
        '6'
    } else if d == 7 {
        '7'
    } else if d == 8 {
        '8'
    } else {
        '9'
    }
}

/// The decimal digits of a nonnegative number, most significant first.
pub open spec fn spec_dec_chars(n: int) -> Seq<char>
    decreases n,
{
    if n < 10 {
        seq![digit_char(n)]
    } else {
        spec_dec_chars(n / 10).push(digit_char(n % 10))
    }
}

/// Two-digit zero padding, as the clock row uses for every field.
pub open spec fn spec_pad2(n: int) -> Seq<char> {
    if n < 10 {
        seq!['0'] + spec_dec_chars(n)
    } else {
        spec_dec_chars(n)
    }
}

/// The clock row: hours, minutes, and seconds to two decimals, each field
/// zero-padded to two digits, truncated toward zero.
pub open spec fn spec_format_time(ms: int) -> Seq<char> {
    let h = ms / 3600000;
    let m = (ms / 60000) % 60;
    let cs = (ms % 60000) / 10;
    spec_pad2(h) + seq![':'] + spec_pad2(m) + seq![':'] + spec_pad2(cs / 100) + seq!['.']
        + spec_pad2(cs % 100)
}

fn digit_str(d: u8) -> (s: &'static str)
    requires
        d < 10,
    ensures
        s@ == seq![digit_char(d as int)],
{
    proof {
        reveal_strlit("0");
        reveal_strlit("1");
        reveal_strlit("2");
        reveal_strlit("3");
        reveal_strlit("4");
        reveal_strlit("5");
        reveal_strlit("6");
        reveal_strlit("7");
        reveal_strlit("8");
        reveal_strlit("9");
    }
    let s = match d {
        0 => "0",
        1 => "1",
        2 => "2",
        3 => "3",
        4 => "4",
        5 => "5",
        6 => "6",
        7 => "7",
        8 => "8",
        _ => "9",
    };
    proof {
        assert(s@ =~= seq![digit_char(d as int)]);
    }
    s
}

/// A nonnegative number written in decimal.
pub fn u64_string(n: u64) -> (s: String)
    ensures
        s@ == spec_dec_chars(n as int),
    decreases n,
{
    if n < 10 {
        String::from_str(digit_str(n as u8))
    } else {
        let s = u64_string(n / 10);
        let r = s.concat(digit_str((n % 10) as u8));
        proof {
            assert(r@ =~= spec_dec_chars(n as int));
        }
        r
    }
}

/// A byte value written in decimal, as a collected digit is shown.
pub fn u8_string(n: u8) -> (s: String)
    ensures
        s@ == spec_dec_chars(n as int),
{
    u64_string(n as u64)
}

fn pad2(n: u64) -> (s: String)
    ensures
        s@ == spec_pad2(n as int),
{
    if n < 10 {
        proof {
            reveal_strlit("0");
            assert(("0")@ =~= seq!['0']);
        }
        let s = String::from_str("0").concat(digit_str(n as u8));
        proof {
            assert(s@ =~= spec_pad2(n as int));
        }
        s
    } else {
        u64_string(n)
    }
}

/// The play clock for the HUD, `HH:MM:SS.cc` with hours and minutes
/// truncated and centiseconds truncated toward zero.
pub fn format_time(ms: u64) -> (s: String)
    ensures
        s@ == spec_format_time(ms as int),
{
    proof {
        reveal_strlit(":");
        reveal_strlit(".");
        assert((":")@ =~= seq![':']);
        assert((".")@ =~= seq!['.']);
    }
    let h = ms / 3600000;
    let m = (ms / 60000) % 60;
    let cs = (ms % 60000) / 10;
    let mut s = pad2(h);
    s.append(":");
    let sm = pad2(m);
    s.append(sm.as_str());
    s.append(":");
    let ss = pad2(cs / 100);
    s.append(ss.as_str());
    s.append(".");
    let sc = pad2(cs % 100);
    s.append(sc.as_str());
    proof {
        assert(s@ =~= spec_format_time(ms as int));
    }
    s
}

} // verus!
