//! Canonical JSON byte encoding.
//!
//! [`ser_value`] fixes one byte stream per model value: no whitespace, object
//! members in stored order, strings escaped minimally (`\"`, `\\`, and
//! `\u00XX` for control bytes), integers in decimal without leading zeros.
//! The serializer writes exactly this stream; the parser accepts it back
//! (plus surrounding whitespace and the common escape forms), which yields
//! the round-trip law proved in [`lemma_parse_of_serialized`].

use vstd::prelude::*;

use crate::json_data::Jv;
use crate::json_data::JsonValue;
use crate::json_data::jv_of_items;
use crate::json_data::jv_of_members;
use crate::json_data::lemma_jv_of_items;
use crate::json_data::lemma_jv_of_members;

verus! {

use vstd::string::StringSliceAdditionalSpecFns;
use vstd::utf8::encode_utf8;

pub open spec fn is_digit(b: u8) -> bool {
    0x30 <= b && b <= 0x39
}

pub open spec fn is_ws(b: u8) -> bool {
    b == 0x20 || b == 0x09 || b == 0x0a || b == 0x0d
}

/// Lower-case hex digit for a nibble.
pub open spec fn hex_digit(n: u8) -> u8 {
    if n < 10 {
        (0x30 + n) as u8
    } else {
        (0x57 + n) as u8
    }
}

/// Canonical escape of one byte inside a JSON string.
pub open spec fn esc_byte(b: u8) -> Seq<u8> {
    if b == 0x22 {
        seq![0x5cu8, 0x22u8]
    } else if b == 0x5c {
        seq![0x5cu8, 0x5cu8]
    } else if b < 0x20 {
        seq![0x5cu8, 0x75u8, 0x30u8, 0x30u8, hex_digit(b / 16), hex_digit(b % 16)]
    } else {
        seq![b]
    }
}

/// Escape of a byte sequence, from index `i` on.
pub open spec fn esc_bytes_from(s: Seq<u8>, i: int) -> Seq<u8>
    decreases s.len() - i,
{
    if i < 0 || i >= s.len() {
        Seq::empty()
    } else {
        esc_byte(s[i]) + esc_bytes_from(s, i + 1)
    }
}

/// Canonical bytes of a JSON string: quoted, escaped UTF-8.
pub open spec fn ser_string(s: Seq<char>) -> Seq<u8> {
    seq![0x22u8] + esc_bytes_from(encode_utf8(s), 0) + seq![0x22u8]
}

pub open spec fn digit_byte(n: int) -> u8 {
    (0x30 + n) as u8
}

/// Decimal digits of a non-negative integer, no leading zeros.
pub open spec fn ser_nat(n: int) -> Seq<u8>
    decreases n,
{
    if n < 10 {
        seq![digit_byte(if n >= 0 { n } else { 0 })]
    } else {
        ser_nat(n / 10) + seq![digit_byte(n % 10)]
    }
}

/// Canonical bytes of an integer.
pub open spec fn ser_int(n: int) -> Seq<u8> {
    if n < 0 {
        seq![0x2du8] + ser_nat(-n)
    } else {
        ser_nat(n)
    }
}

/// Canonical bytes of a JSON value.
pub open spec fn ser_value(v: Jv) -> Seq<u8>
    decreases v, 1int,
{
    match v {
        Jv::Null => seq![0x6eu8, 0x75u8, 0x6cu8, 0x6cu8],
        Jv::Bool(b) => if b {
            seq![0x74u8, 0x72u8, 0x75u8, 0x65u8]
        } else {
            seq![0x66u8, 0x61u8, 0x6cu8, 0x73u8, 0x65u8]
        },
        Jv::Int(i) => ser_int(i as int),
        Jv::Str(s) => ser_string(s),
        Jv::Arr(items) => seq![0x5bu8] + ser_items_from(items, 0) + seq![0x5du8],
        Jv::Obj(members) => seq![0x7bu8] + ser_members_from(members, 0) + seq![0x7du8],
    }
}

/// Canonical bytes of array elements `items[i..]`, comma separated.
pub open spec fn ser_items_from(items: Seq<Jv>, i: int) -> Seq<u8>
    decreases items, items.len() - i,
{
    if i < 0 || i >= items.len() {
        Seq::empty()
    } else if i == items.len() - 1 {
        ser_value(items[i])
    } else {
        ser_value(items[i]) + seq![0x2cu8] + ser_items_from(items, i + 1)
    }
}

/// Canonical bytes of object members `members[i..]`, comma separated.
pub open spec fn ser_members_from(members: Seq<(Seq<char>, Jv)>, i: int) -> Seq<u8>
    decreases members, members.len() - i,
{
    if i < 0 || i >= members.len() {
        Seq::empty()
    } else if i == members.len() - 1 {
        ser_string(members[i].0) + seq![0x3au8] + ser_value(members[i].1)
    } else {
        ser_string(members[i].0) + seq![0x3au8] + ser_value(members[i].1) + seq![0x2cu8]
            + ser_members_from(members, i + 1)
    }
}

/// Appends the canonical escape of every byte of `s` to `out`.
fn write_escaped(out: &mut Vec<u8>, s: &str)
    ensures
        final(out)@ == old(out)@ + esc_bytes_from(s.spec_bytes(), 0),
{
    let bytes = s.as_bytes();
    let ghost total = s.spec_bytes();
    let mut i: usize = 0;
    while i < bytes.len()
        invariant
            i <= bytes.len(),
            bytes@ == total,
            out@ + esc_bytes_from(total, i as int) == old(out)@ + esc_bytes_from(total, 0),
        decreases bytes.len() - i,
    {
        let b = bytes[i];
        if b == 0x22 {
            out.push(0x5c);
            out.push(0x22);
        } else if b == 0x5c {
            out.push(0x5c);
            out.push(0x5c);
        } else if b < 0x20 {
            out.push(0x5c);
            out.push(0x75);
            out.push(0x30);
            out.push(0x30);
            let hi = b / 16;
            let lo = b % 16;
            out.push(if hi < 10 { 0x30 + hi } else { 0x57 + hi });
            out.push(if lo < 10 { 0x30 + lo } else { 0x57 + lo });
        } else {
            out.push(b);
        }
        proof {
            assert(esc_bytes_from(total, i as int) == esc_byte(total[i as int]) + esc_bytes_from(
                total,
                i + 1,
            ));
            assert(out@ + esc_bytes_from(total, i + 1 as int) =~= old(out)@ + esc_bytes_from(
                total,
                0,
            ));
        }
        i = i + 1;
    }
    proof {
        assert(final(out)@ =~= old(out)@ + esc_bytes_from(total, 0));
    }
}

/// Appends the quoted, escaped form of `s` to `out`.
fn write_string(out: &mut Vec<u8>, s: &str)
    ensures
        final(out)@ == old(out)@ + ser_string(s@),
{
    out.push(0x22);
    write_escaped(out, s);
    out.push(0x22);
    proof {
        assert(final(out)@ =~= old(out)@ + ser_string(s@));
    }
}

/// Appends the decimal digits of `n` to `out`.
fn write_nat(out: &mut Vec<u8>, n: u64)
    ensures
        final(out)@ == old(out)@ + ser_nat(n as int),
    decreases n,
{
    if n < 10 {
        out.push(0x30 + (n as u8));
    } else {
        write_nat(out, n / 10);
        out.push(0x30 + ((n % 10) as u8));
        proof {
            assert(final(out)@ =~= old(out)@ + ser_nat(n as int));
        }
    }
}

/// Appends the decimal form of `i` to `out`.
fn write_int(out: &mut Vec<u8>, i: i64)
    ensures
        final(out)@ == old(out)@ + ser_int(i as int),
{
    if i >= 0 {
        write_nat(out, i as u64);
    } else {
        out.push(0x2d);
        let mag: u64 = if i == i64::MIN {
            9223372036854775808u64
        } else {
            (-i) as u64
        };
        proof {
            assert(mag as int == -(i as int));
        }
        write_nat(out, mag);
        proof {
            assert(final(out)@ =~= old(out)@ + ser_int(i as int));
        }
    }
}

/// Appends the canonical bytes of `v` to `out`.
pub fn write_value(out: &mut Vec<u8>, v: &JsonValue)
    ensures
        final(out)@ == old(out)@ + ser_value(v@),
    decreases v,
{
    match v {
        JsonValue::Null => {
            out.push(0x6e);
            out.push(0x75);
            out.push(0x6c);
            out.push(0x6c);
            proof {
                assert(final(out)@ =~= old(out)@ + ser_value(v@));
            }
        },
        JsonValue::Bool(b) => {
            if *b {
                out.push(0x74);
                out.push(0x72);
                out.push(0x75);
                out.push(0x65);
            } else {
                out.push(0x66);
                out.push(0x61);
                out.push(0x6c);
                out.push(0x73);
                out.push(0x65);
            }
            proof {
                assert(final(out)@ =~= old(out)@ + ser_value(v@));
            }
        },
        JsonValue::Int(i) => {
            write_int(out, *i);
        },
        JsonValue::Str(s) => {
            write_string(out, s.as_str());
        },
        JsonValue::Arr(items) => {
            out.push(0x5b);
            write_items(out, items, 0);
            out.push(0x5d);
            proof {
                assert(final(out)@ =~= old(out)@ + ser_value(v@));
            }
        },
        JsonValue::Obj(members) => {
            out.push(0x7b);
            write_members(out, members, 0);
            out.push(0x7d);
            proof {
                assert(final(out)@ =~= old(out)@ + ser_value(v@));
            }
        },
    }
}

/// Appends the canonical bytes of `items[i..]` to `out`.
fn write_items(out: &mut Vec<u8>, items: &Vec<JsonValue>, i: usize)
    ensures
        final(out)@ == old(out)@ + ser_items_from(jv_of_items(items@), i as int),
    decreases items, items.len() - i,
{
    proof {
        lemma_jv_of_items(items@);
    }
    if i < items.len() {
        write_value(out, &items[i]);
        if i + 1 < items.len() {
            out.push(0x2c);
            write_items(out, items, i + 1);
        }
        proof {
            assert(final(out)@ =~= old(out)@ + ser_items_from(jv_of_items(items@), i as int));
        }
    }
}

/// Appends the canonical bytes of `members[i..]` to `out`.
fn write_members(out: &mut Vec<u8>, members: &Vec<(String, JsonValue)>, i: usize)
    ensures
        final(out)@ == old(out)@ + ser_members_from(jv_of_members(members@), i as int),
    decreases members, members.len() - i,
{
    proof {
        lemma_jv_of_members(members@);
    }
    if i < members.len() {
        write_string(out, members[i].0.as_str());
        out.push(0x3a);
        write_value(out, &members[i].1);
        if i + 1 < members.len() {
            out.push(0x2c);
            write_members(out, members, i + 1);
        }
        proof {
            assert(final(out)@ =~= old(out)@ + ser_members_from(jv_of_members(members@), i as int));
        }
    }
}

/// The canonical bytes of a value, as a fresh buffer.
pub fn to_bytes(v: &JsonValue) -> (r: Vec<u8>)
    ensures
        r@ == ser_value(v@),
{
    let mut out: Vec<u8> = Vec::new();
    write_value(&mut out, v);
    out
}

} // verus!
