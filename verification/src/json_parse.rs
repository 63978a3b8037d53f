//! JSON parser: mathematical definition.
//!
//! [`p_doc`] is the parser's meaning; the executable parser in
//! [`crate::json_exec`] returns exactly what it says.  The grammar accepted
//! is the canonical form written by [`crate::json_codec::ser_value`], plus
//! surrounding whitespace, the common short escapes, and `\u00XX` escapes.
//! Numbers must be plain integers that fit in a signed 64-bit value, and
//! non-ASCII `\uXXXX` escapes are not accepted: every value this service
//! writes stays inside the accepted grammar.

use vstd::prelude::*;

use crate::json_data::Jv;
use crate::json_codec::is_digit;
use crate::json_codec::is_ws;

verus! {

use vstd::utf8::decode_utf8;
use vstd::utf8::valid_utf8;

/// First index at or after `i` holding a non-whitespace byte.
pub open spec fn skip_ws(b: Seq<u8>, i: int) -> int
    decreases b.len() - i,
{
    if 0 <= i < b.len() && is_ws(b[i]) {
        skip_ws(b, i + 1)
    } else {
        i
    }
}

/// Value of a hex digit byte.
pub open spec fn hex_val(c: u8) -> Option<u8> {
    if 0x30 <= c && c <= 0x39 {
        Some((c - 0x30) as u8)
    } else if 0x61 <= c && c <= 0x66 {
        Some((c - 0x57) as u8)
    } else if 0x41 <= c && c <= 0x46 {
        Some((c - 0x37) as u8)
    } else {
        None
    }
}

/// Byte produced by a single-character escape.
pub open spec fn unesc_map(c: u8) -> Option<u8> {
    if c == 0x22 {
        Some(0x22u8)
    } else if c == 0x5c {
        Some(0x5cu8)
    } else if c == 0x2f {
        Some(0x2fu8)
    } else if c == 0x6e {
        Some(0x0au8)
    } else if c == 0x74 {
        Some(0x09u8)
    } else if c == 0x72 {
        Some(0x0du8)
    } else if c == 0x62 {
        Some(0x08u8)
    } else if c == 0x66 {
        Some(0x0cu8)
    } else {
        None
    }
}

/// Parses a string body starting after the opening quote; yields the
/// unescaped bytes and the index after the closing quote.
pub open spec fn p_string(b: Seq<u8>, i: int) -> Option<(Seq<u8>, int)>
    decreases b.len() - i,
{
    if i < 0 || i >= b.len() {
        None
    } else if b[i] == 0x22 {
        Some((Seq::empty(), i + 1))
    } else if b[i] == 0x5c {
        if i + 1 >= b.len() {
            None
        } else if b[i + 1] == 0x75 {
            if i + 6 > b.len() {
                None
            } else {
                match (hex_val(b[i + 2]), hex_val(b[i + 3]), hex_val(b[i + 4]), hex_val(b[i + 5])) {
                    (Some(h0), Some(h1), Some(h2), Some(h3)) => {
                        let vl = h0 * 4096 + h1 * 256 + h2 * 16 + h3;
                        if vl <= 0xff {
                            match p_string(b, i + 6) {
                                Some((s, j)) => Some((seq![vl as u8] + s, j)),
                                None => None,
                            }
                        } else {
                            None
                        }
                    },
                    _ => None,
                }
            }
        } else {
            match unesc_map(b[i + 1]) {
                Some(u) => match p_string(b, i + 2) {
                    Some((s, j)) => Some((seq![u] + s, j)),
                    None => None,
                },
                None => None,
            }
        }
    } else if b[i] < 0x20 {
        None
    } else {
        match p_string(b, i + 1) {
            Some((s, j)) => Some((seq![b[i]] + s, j)),
            None => None,
        }
    }
}

/// First index at or after `i` holding a non-digit byte.
pub open spec fn digits_end(b: Seq<u8>, i: int) -> int
    decreases b.len() - i,
{
    if 0 <= i < b.len() && is_digit(b[i]) {
        digits_end(b, i + 1)
    } else {
        i
    }
}

/// Value of the digit run `b[i..j]`.
pub open spec fn digits_val(b: Seq<u8>, i: int, j: int) -> int
    decreases j - i,
{
    if j <= i {
        0
    } else {
        digits_val(b, i, j - 1) * 10 + (b[j - 1] - 0x30)
    }
}

/// Parses an integer at `i`: optional minus sign, then digits, bounded to
/// the signed 64-bit range.
pub open spec fn p_int(b: Seq<u8>, i: int) -> Option<(i64, int)> {
    let neg = 0 <= i < b.len() && b[i] == 0x2d;
    let d0 = if neg {
        i + 1
    } else {
        i
    };
    if 0 <= d0 < b.len() && is_digit(b[d0]) {
        let end = digits_end(b, d0);
        let vl = digits_val(b, d0, end);
        if neg {
            if vl <= 0x8000000000000000 {
                Some(((-vl) as i64, end))
            } else {
                None
            }
        } else {
            if vl <= 0x7fffffffffffffff {
                Some((vl as i64, end))
            } else {
                None
            }
        }
    } else {
        None
    }
}

/// Parses one JSON value at `i0`, skipping leading whitespace.
pub open spec fn p_value(b: Seq<u8>, i0: int, fuel: nat) -> Option<(Jv, int)>
    decreases fuel, 1int,
{
    if fuel == 0 {
        None
    } else {
        let i = skip_ws(b, i0);
        if i >= b.len() || i < 0 {
            None
        } else if b[i] == 0x6e {
            if i + 4 <= b.len() && b[i + 1] == 0x75 && b[i + 2] == 0x6c && b[i + 3] == 0x6c {
                Some((Jv::Null, i + 4))
            } else {
                None
            }
        } else if b[i] == 0x74 {
            if i + 4 <= b.len() && b[i + 1] == 0x72 && b[i + 2] == 0x75 && b[i + 3] == 0x65 {
                Some((Jv::Bool(true), i + 4))
            } else {
                None
            }
        } else if b[i] == 0x66 {
            if i + 5 <= b.len() && b[i + 1] == 0x61 && b[i + 2] == 0x6c && b[i + 3] == 0x73 && b[i
                + 4] == 0x65 {
                Some((Jv::Bool(false), i + 5))
            } else {
                None
            }
        } else if b[i] == 0x22 {
            match p_string(b, i + 1) {
                Some((raw, j)) => if valid_utf8(raw) {
                    Some((Jv::Str(decode_utf8(raw)), j))
                } else {
                    None
                },
                None => None,
            }
        } else if b[i] == 0x5b {
            let k = skip_ws(b, i + 1);
            if 0 <= k < b.len() && b[k] == 0x5d {
                Some((Jv::Arr(Seq::empty()), k + 1))
            } else {
                match p_items(b, i + 1, (fuel - 1) as nat) {
                    Some((items, j)) => Some((Jv::Arr(items), j)),
                    None => None,
                }
            }
        } else if b[i] == 0x7b {
            let k = skip_ws(b, i + 1);
            if 0 <= k < b.len() && b[k] == 0x7d {
                Some((Jv::Obj(Seq::empty()), k + 1))
            } else {
                match p_members(b, i + 1, (fuel - 1) as nat) {
                    Some((members, j)) => Some((Jv::Obj(members), j)),
                    None => None,
                }
            }
        } else if b[i] == 0x2d || is_digit(b[i]) {
            match p_int(b, i) {
                Some((n, j)) => Some((Jv::Int(n), j)),
                None => None,
            }
        } else {
            None
        }
    }
}

/// Parses the elements of a non-empty array, up to and including `]`.
pub open spec fn p_items(b: Seq<u8>, i: int, fuel: nat) -> Option<(Seq<Jv>, int)>
    decreases fuel, 0int,
{
    if fuel == 0 {
        None
    } else {
        match p_value(b, i, (fuel - 1) as nat) {
            Some((v, j)) => {
                let k = skip_ws(b, j);
                if k >= b.len() || k < 0 {
                    None
                } else if b[k] == 0x2c {
                    match p_items(b, k + 1, (fuel - 1) as nat) {
                        Some((rest, end)) => Some((seq![v] + rest, end)),
                        None => None,
                    }
                } else if b[k] == 0x5d {
                    Some((seq![v], k + 1))
                } else {
                    None
                }
            },
            None => None,
        }
    }
}

/// Parses the members of a non-empty object, up to and including `}`.
pub open spec fn p_members(b: Seq<u8>, i: int, fuel: nat) -> Option<(Seq<(Seq<char>, Jv)>, int)>
    decreases fuel, 0int,
{
    if fuel == 0 {
        None
    } else {
        let i1 = skip_ws(b, i);
        if i1 >= b.len() || i1 < 0 || b[i1] != 0x22 {
            None
        } else {
            match p_string(b, i1 + 1) {
                Some((raw, j)) => if !valid_utf8(raw) {
                    None
                } else {
                    let key = decode_utf8(raw);
                    let j1 = skip_ws(b, j);
                    if j1 >= b.len() || j1 < 0 || b[j1] != 0x3a {
                        None
                    } else {
                        match p_value(b, j1 + 1, (fuel - 1) as nat) {
                            Some((v, j2)) => {
                                let k = skip_ws(b, j2);
                                if k >= b.len() || k < 0 {
                                    None
                                } else if b[k] == 0x2c {
                                    match p_members(b, k + 1, (fuel - 1) as nat) {
                                        Some((rest, end)) => Some(
                                            (seq![(key, v)] + rest, end),
                                        ),
                                        None => None,
                                    }
                                } else if b[k] == 0x7d {
                                    Some((seq![(key, v)], k + 1))
                                } else {
                                    None
                                }
                            },
                            None => None,
                        }
                    }
                },
                None => None,
            }
        }
    }
}

/// The fuel the parser spends on one value.
pub open spec fn jv_fuel(v: Jv) -> nat
    decreases v, 1int,
{
    match v {
        Jv::Arr(items) => 1 + jv_fuel_items(items, 0),
        Jv::Obj(members) => 1 + jv_fuel_members(members, 0),
        _ => 1,
    }
}

/// The fuel the parser spends on the elements `items[i..]`.
pub open spec fn jv_fuel_items(items: Seq<Jv>, i: int) -> nat
    decreases items, items.len() - i,
{
    if i < 0 || i >= items.len() {
        1
    } else {
        1 + vstd::math::max(jv_fuel(items[i]) as int, jv_fuel_items(items, i + 1) as int) as nat
    }
}

/// The fuel the parser spends on the members `members[i..]`.
pub open spec fn jv_fuel_members(members: Seq<(Seq<char>, Jv)>, i: int) -> nat
    decreases members, members.len() - i,
{
    if i < 0 || i >= members.len() {
        1
    } else {
        1 + vstd::math::max(
            jv_fuel(members[i].1) as int,
            jv_fuel_members(members, i + 1) as int,
        ) as nat
    }
}

/// Meaning of parsing a whole byte stream: one value, with nothing but
/// whitespace around it, under the standard fuel allowance.
pub open spec fn p_doc(b: Seq<u8>) -> Option<Jv> {
    match p_value(b, 0, (b.len() + 1) as nat) {
        Some((v, j)) => if skip_ws(b, j) == b.len() {
            Some(v)
        } else {
            None
        },
        None => None,
    }
}

} // verus!
