use vstd::prelude::*;

verus! {

use vstd::string::StringSliceAdditionalSpecFns;

/// One field of a level entity, already reduced to the shapes the game
/// reads: an integer, a string, a cell reference with integer `cx`/`cy`
/// members, or anything else.
pub enum FieldValue {
    Int(i64),
    Str(String),
    Point(i64, i64),
    Other,
}

/// One entity of a level's entity layer, as plain values: its kind name,
/// pixel position, pixel size, and the two fields the game may read.
pub struct EntitySource {
    pub identifier: String,
    pub px: i64,
    pub py: i64,
    pub width: i64,
    pub height: i64,
    pub number: Option<FieldValue>,
    pub target: Option<FieldValue>,
}

/// One level of the content pack: pixel dimensions, the flat tile-code
/// lattice of its map layer, its entities, and its target-number field.
/// A `None` layer means the pack lacks that layer altogether.
pub struct LevelSource {
    pub width_px: i64,
    pub height_px: i64,
    pub tiles: Option<Vec<i64>>,
    pub entities: Option<Vec<EntitySource>>,
    pub target_number: Option<FieldValue>,
}

/// The whole content pack: its levels in order.
pub struct WorldSource {
    pub levels: Vec<LevelSource>,
}

pub open spec fn is_ascii_digit(b: u8) -> bool {
    48 <= b <= 57
}

/// Reads a run of decimal digits starting at `i`, accumulating into `acc`;
/// `None` on a non-digit or when the value leaves the byte range.
pub open spec fn parse_digits(s: Seq<u8>, i: int, acc: int) -> Option<int>
    decreases s.len() - i,
{
    if i < 0 || i >= s.len() {
        Some(acc)
    } else if !is_ascii_digit(s[i]) {
        None
    } else if acc * 10 + (s[i] - 48) > 255 {
        None
    } else {
        parse_digits(s, i + 1, acc * 10 + (s[i] - 48))
    }
}

/// A byte-range integer written as ASCII decimal digits with an optional
/// leading plus sign, exactly the strings the standard byte parse accepts.
pub open spec fn spec_parse_u8(s: Seq<u8>) -> Option<u8> {
    let body = if s.len() > 0 && s[0] == 43 {
        s.skip(1)
    } else {
        s
    };
    if body.len() == 0 {
        None
    } else {
        match parse_digits(body, 0, 0) {
            Some(v) => Some(v as u8),
            None => None,
        }
    }
}

/// Parses the byte-range integer written from byte `start` to the end of
/// the slice.
pub fn parse_u8_from(bytes: &[u8], start: usize) -> (r: Option<u8>)
    requires
        start <= bytes@.len(),
    ensures
        r == spec_parse_u8(bytes@.skip(start as int)),
{
    let ghost whole = bytes@.skip(start as int);
    let n: usize = bytes.len();
    let mut i: usize = start;
    if i < n && bytes[i] == 43 {
        i += 1;
    }
    let ghost body = if whole.len() > 0 && whole[0] == 43 {
        whole.skip(1)
    } else {
        whole
    };
    let ghost boff = i as int;
    proof {
        assert(body =~= bytes@.skip(boff));
    }
    if i >= n {
        return None;
    }
    let mut acc: u16 = 0;
    proof {
        assert(body.len() > 0);
    }
    while i < n
        invariant
            boff <= i <= n,
            n == bytes@.len(),
            whole == bytes@.skip(start as int),
            body == bytes@.skip(boff),
            0 <= boff,
            acc <= 255,
            parse_digits(body, i - boff, acc as int) == parse_digits(body, 0, 0),
            spec_parse_u8(whole) == (match parse_digits(body, 0, 0) {
                Some(v) => Some(v as u8),
                None => None::<u8>,
            }),
        decreases n - i,
    {
        let b = bytes[i];
        proof {
            assert(body[i - boff] == bytes@[i as int]);
        }
        if b < 48 || b > 57 {
            proof {
                assert(parse_digits(body, i - boff, acc as int) is None);
            }
            return None;
        }
        let acc2: u16 = acc * 10 + (b - 48) as u16;
        if acc2 > 255 {
            proof {
                assert(parse_digits(body, i - boff, acc as int) is None);
            }
            return None;
        }
        acc = acc2;
        i += 1;
    }
    Some(acc as u8)
}

/// The bytes a string occupies in memory.
pub open spec fn string_bytes(s: &String) -> Seq<u8> {
    vstd::utf8::encode_utf8(s@)
}

/// The value of an entity's "Number_N" style name suffix: the bytes after
/// the fixed six-byte prefix, read as a byte-range decimal.
pub open spec fn spec_suffix_value(s: &String) -> Option<u8> {
    if string_bytes(s).len() < 6 {
        None
    } else {
        spec_parse_u8(string_bytes(s).skip(6))
    }
}

/// Reads the numeric suffix of a "Number_N" style entity name.
pub fn suffix_value(s: &String) -> (r: Option<u8>)
    ensures
        r == spec_suffix_value(s),
{
    let bytes = s.as_str().as_bytes();
    if bytes.len() < 6 {
        None
    } else {
        parse_u8_from(bytes, 6)
    }
}

} // verus!
