//! The codec round-trip law: parsing a canonical serialization gives the
//! value back.  This is what makes the pagination token loss-free.

use vstd::prelude::*;

use crate::json_data::Jv;
use crate::json_codec::digit_byte;
use crate::json_codec::esc_byte;
use crate::json_codec::esc_bytes_from;
use crate::json_codec::hex_digit;
use crate::json_codec::is_digit;
use crate::json_codec::is_ws;
use crate::json_codec::ser_int;
use crate::json_codec::ser_items_from;
use crate::json_codec::ser_members_from;
use crate::json_codec::ser_nat;
use crate::json_codec::ser_string;
use crate::json_codec::ser_value;
use crate::json_parse::digits_end;
use crate::json_parse::digits_val;
use crate::json_parse::hex_val;
use crate::json_parse::jv_fuel;
use crate::json_parse::jv_fuel_items;
use crate::json_parse::jv_fuel_members;
use crate::json_parse::p_doc;
use crate::json_parse::p_int;
use crate::json_parse::p_items;
use crate::json_parse::p_members;
use crate::json_parse::p_string;
use crate::json_parse::p_value;
use crate::json_parse::skip_ws;
use crate::json_parse::unesc_map;

verus! {

use vstd::arithmetic::div_mod::lemma_fundamental_div_mod;
use vstd::utf8::decode_utf8;
use vstd::utf8::encode_utf8;
use vstd::utf8::encode_utf8_decode_utf8;
use vstd::utf8::encode_utf8_valid_utf8;
use vstd::utf8::valid_utf8;

/// Bytes a JSON value can begin with.
pub open spec fn is_value_start(c: u8) -> bool {
    c == 0x6e || c == 0x74 || c == 0x66 || c == 0x22 || c == 0x5b || c == 0x7b || c == 0x2d
        || is_digit(c)
}

/// Every byte of `ser_nat(n)` is a decimal digit, and there is at least one.
proof fn lemma_ser_nat_digits(n: int)
    requires
        n >= 0,
    ensures
        ser_nat(n).len() >= 1,
        forall|t: int| 0 <= t < ser_nat(n).len() ==> is_digit(#[trigger] ser_nat(n)[t]),
    decreases n,
{
    if n >= 10 {
        lemma_ser_nat_digits(n / 10);
    }
}

/// The serialization of a value is non-empty and begins with a value-start
/// byte.
proof fn lemma_ser_first(v: Jv)
    ensures
        ser_value(v).len() >= 1,
        is_value_start(ser_value(v)[0]),
{
    match v {
        Jv::Int(i) => {
            if i >= 0 {
                lemma_ser_nat_digits(i as int);
            } else {
                lemma_ser_nat_digits(-(i as int));
            }
        },
        _ => {},
    }
}

/// A run of digits delimited on the right parses as ending exactly there.
proof fn lemma_digits_end_of(b: Seq<u8>, d0: int, e: int)
    requires
        0 <= d0 <= e <= b.len(),
        forall|t: int| d0 <= t < e ==> is_digit(#[trigger] b[t]),
        e == b.len() || !is_digit(b[e]),
    ensures
        digits_end(b, d0) == e,
    decreases e - d0,
{
    if d0 < e {
        lemma_digits_end_of(b, d0 + 1, e);
    }
}

/// The digit run written by `ser_nat(n)` evaluates back to `n`.
proof fn lemma_digits_val_ser(b: Seq<u8>, d0: int, n: int)
    requires
        n >= 0,
        0 <= d0,
        d0 + ser_nat(n).len() <= b.len(),
        b.subrange(d0, d0 + ser_nat(n).len() as int) == ser_nat(n),
    ensures
        digits_val(b, d0, d0 + ser_nat(n).len() as int) == n,
    decreases n,
{
    let l = ser_nat(n).len() as int;
    assert forall|t: int| 0 <= t < l implies b[d0 + t] == ser_nat(n)[t] by {
        assert(b.subrange(d0, d0 + l)[t] == b[d0 + t]);
    }
    if n < 10 {
        assert(digits_val(b, d0, d0 + 1) == digits_val(b, d0, d0) * 10 + (b[d0] - 0x30));
        assert(b[d0 + 0] == ser_nat(n)[0]);
        assert(b[d0] == digit_byte(n));
    } else {
        let pre = ser_nat(n / 10);
        assert(ser_nat(n) == pre + seq![digit_byte(n % 10)]);
        assert(pre.len() + 1 == l);
        assert forall|t: int| 0 <= t < pre.len() implies b.subrange(d0, d0 + pre.len() as int)[t]
            == pre[t] by {
            assert(b.subrange(d0, d0 + pre.len() as int)[t] == b[d0 + t]);
            assert(ser_nat(n)[t] == pre[t]);
        }
        assert(b.subrange(d0, d0 + pre.len() as int) =~= pre);
        lemma_digits_val_ser(b, d0, n / 10);
        assert(b[d0 + l - 1] == ser_nat(n)[l - 1]);
        assert(ser_nat(n)[l - 1] == digit_byte(n % 10));
        assert(digits_val(b, d0, d0 + l) == digits_val(b, d0, d0 + l - 1) * 10 + (b[d0 + l - 1]
            - 0x30));
        lemma_fundamental_div_mod(n, 10);
    }
}

/// Parsing the canonical serialization of an integer yields it back, ending
/// right after its digits.
proof fn lemma_p_int_ser(b: Seq<u8>, i: int, n: i64)
    requires
        0 <= i,
        i + ser_int(n as int).len() <= b.len(),
        b.subrange(i, i + ser_int(n as int).len() as int) == ser_int(n as int),
        i + ser_int(n as int).len() == b.len() || !is_digit(b[i + ser_int(n as int).len()]),
    ensures
        p_int(b, i) == Some((n, i + ser_int(n as int).len() as int)),
{
    let l = ser_int(n as int).len() as int;
    assert forall|t: int| 0 <= t < l implies b[i + t] == ser_int(n as int)[t] by {
        assert(b.subrange(i, i + l)[t] == b[i + t]);
    }
    if n >= 0 {
        lemma_ser_nat_digits(n as int);
        assert forall|t: int| i <= t < i + l implies is_digit(#[trigger] b[t]) by {
            assert(b[t] == ser_nat(n as int)[t - i]);
        }
        lemma_digits_end_of(b, i, i + l);
        assert(b.subrange(i, i + l) == ser_nat(n as int));
        lemma_digits_val_ser(b, i, n as int);
        assert(b[i] == ser_nat(n as int)[0]);
        assert(is_digit(b[i]));
        assert(b[i] != 0x2d);
    } else {
        let m = -(n as int);
        lemma_ser_nat_digits(m);
        assert(ser_int(n as int) == seq![0x2du8] + ser_nat(m));
        assert(b[i + 0] == ser_int(n as int)[0]);
        assert(b[i] == 0x2d);
        assert forall|t: int| i + 1 <= t < i + l implies is_digit(#[trigger] b[t]) by {
            assert(b[t] == ser_int(n as int)[t - i]);
            assert(ser_int(n as int)[t - i] == ser_nat(m)[t - i - 1]);
        }
        lemma_digits_end_of(b, i + 1, i + l);
        assert forall|t: int| 0 <= t < ser_nat(m).len() implies b.subrange(
            i + 1,
            i + 1 + ser_nat(m).len() as int,
        )[t] == ser_nat(m)[t] by {
            assert(b.subrange(i + 1, i + 1 + ser_nat(m).len() as int)[t] == b[i + 1 + t]);
            assert(b[i + 1 + t] == ser_int(n as int)[t + 1]);
        }
        assert(b.subrange(i + 1, i + 1 + ser_nat(m).len() as int) =~= ser_nat(m));
        lemma_digits_val_ser(b, i + 1, m);
        assert(digits_val(b, i + 1, i + l) == m);
        assert(m <= 0x8000000000000000);
        assert((-m) as i64 == n);
        assert(is_digit(b[i + 1]));
    }
}

/// Parsing the escaped form of `raw[k..]`, terminated by a quote, yields the
/// raw bytes back, ending after the quote.
proof fn lemma_p_string_esc(b: Seq<u8>, i: int, raw: Seq<u8>, k: int)
    requires
        0 <= k <= raw.len(),
        0 <= i,
        i + esc_bytes_from(raw, k).len() + 1 <= b.len(),
        b.subrange(i, i + esc_bytes_from(raw, k).len() as int) == esc_bytes_from(raw, k),
        b[i + esc_bytes_from(raw, k).len()] == 0x22,
    ensures
        p_string(b, i) == Some(
            (raw.subrange(k, raw.len() as int), i + esc_bytes_from(raw, k).len() + 1),
        ),
    decreases raw.len() - k,
{
    let l = esc_bytes_from(raw, k).len() as int;
    assert forall|t: int| 0 <= t < l implies b[i + t] == esc_bytes_from(raw, k)[t] by {
        assert(b.subrange(i, i + l)[t] == b[i + t]);
    }
    if k == raw.len() {
        assert(b[i] == 0x22);
        assert(raw.subrange(k, raw.len() as int) =~= Seq::<u8>::empty());
    } else {
        let c = raw[k];
        let e = esc_byte(c);
        let restlen = esc_bytes_from(raw, k + 1).len() as int;
        assert(esc_bytes_from(raw, k) == e + esc_bytes_from(raw, k + 1));
        assert forall|t: int| 0 <= t < e.len() implies b[i + t] == e[t] by {
            assert(esc_bytes_from(raw, k)[t] == e[t]);
        }
        let i2 = i + e.len() as int;
        assert forall|t: int| 0 <= t < restlen implies #[trigger] b.subrange(i2, i2 + restlen)[t]
            == esc_bytes_from(raw, k + 1)[t] by {
            assert(b.subrange(i2, i2 + restlen)[t] == b[i2 + t]);
            assert(b[i2 + t] == esc_bytes_from(raw, k)[e.len() + t]);
        }
        assert(b.subrange(i2, i2 + restlen) =~= esc_bytes_from(raw, k + 1));
        assert(b[i2 + restlen] == 0x22) by {
            assert(i2 + restlen == i + l);
        }
        lemma_p_string_esc(b, i2, raw, k + 1);
        assert(raw.subrange(k, raw.len() as int) =~= seq![c] + raw.subrange(
            k + 1,
            raw.len() as int,
        ));
        if c == 0x22 {
            assert(b[i] == 0x5c && b[i + 1] == 0x22);
            assert(unesc_map(b[i + 1]) == Some(0x22u8));
        } else if c == 0x5c {
            assert(b[i] == 0x5c && b[i + 1] == 0x5c);
            assert(unesc_map(b[i + 1]) == Some(0x5cu8));
        } else if c < 0x20 {
            assert(b[i] == 0x5c && b[i + 1] == 0x75 && b[i + 2] == 0x30 && b[i + 3] == 0x30);
            assert(b[i + 4] == hex_digit(c / 16) && b[i + 5] == hex_digit(c % 16));
            assert(hex_val(hex_digit(c / 16)) == Some((c / 16) as u8));
            assert(hex_val(hex_digit(c % 16)) == Some((c % 16) as u8));
            lemma_fundamental_div_mod(c as int, 16);
            assert((c / 16) * 4096 + (c / 16) * 0 == (c / 16) * 4096);
            assert(0x30 <= b[i + 2] && b[i + 2] <= 0x39);
            assert(hex_val(b[i + 2]) == Some(0u8));
            assert(hex_val(b[i + 3]) == Some(0u8));
            let vl = 0 * 4096 + 0 * 256 + (c / 16) * 16 + (c % 16);
            assert(vl == c);
        } else {
            assert(b[i + 0] == esc_bytes_from(raw, k)[0]);
            assert(esc_bytes_from(raw, k)[0] == e[0]);
            assert(b[i] == c);
            assert(c != 0x22 && c != 0x5c && !(c < 0x20));
        }
    }
}

/// Reading one byte out of a matched slice.
proof fn lemma_sub_index(b: Seq<u8>, i: int, s: Seq<u8>, t: int)
    requires
        0 <= i,
        i + s.len() <= b.len(),
        b.subrange(i, i + s.len() as int) == s,
        0 <= t < s.len(),
    ensures
        b[i + t] == s[t],
{
    assert(b.subrange(i, i + s.len() as int)[t] == b[i + t]);
}

/// A slice of a matched slice is matched at its offset.
proof fn lemma_slice_of_slice(b: Seq<u8>, i: int, s: Seq<u8>, off: int, l2: int)
    requires
        0 <= i,
        i + s.len() <= b.len(),
        b.subrange(i, i + s.len() as int) == s,
        0 <= off,
        0 <= l2,
        off + l2 <= s.len(),
    ensures
        b.subrange(i + off, i + off + l2) == s.subrange(off, off + l2),
{
    let lhs = b.subrange(i + off, i + off + l2);
    let rhs = s.subrange(off, off + l2);
    assert(lhs.len() == l2);
    assert(rhs.len() == l2);
    assert forall|t: int| 0 <= t < l2 implies #[trigger] lhs[t] == #[trigger] rhs[t] by {
        assert(lhs[t] == b[i + off + t]);
        assert(b.subrange(i, i + s.len() as int)[off + t] == b[i + off + t]);
        assert(rhs[t] == s[off + t]);
    }
    assert(lhs =~= rhs);
}

/// The parser's fuel need never exceeds the serialized length.
proof fn lemma_fuel_le_ser(v: Jv)
    ensures
        jv_fuel(v) <= ser_value(v).len(),
    decreases v, 1int,
{
    lemma_ser_first(v);
    match v {
        Jv::Arr(items) => {
            lemma_fuel_items_le(items, 0);
        },
        Jv::Obj(members) => {
            lemma_fuel_members_le(members, 0);
        },
        _ => {},
    }
}

/// Fuel bound for array elements.
proof fn lemma_fuel_items_le(items: Seq<Jv>, k: int)
    ensures
        jv_fuel_items(items, k) <= ser_items_from(items, k).len() + 1,
    decreases items, items.len() - k,
{
    if 0 <= k < items.len() {
        lemma_fuel_le_ser(items[k]);
        lemma_ser_first(items[k]);
        if k < items.len() - 1 {
            lemma_fuel_items_le(items, k + 1);
            assert(ser_items_from(items, k) == ser_value(items[k]) + seq![0x2cu8]
                + ser_items_from(items, k + 1));
        } else {
            assert(jv_fuel_items(items, k + 1) == 1);
            assert(ser_items_from(items, k) == ser_value(items[k]));
        }
    }
}

/// Fuel bound for object members.
proof fn lemma_fuel_members_le(members: Seq<(Seq<char>, Jv)>, k: int)
    ensures
        jv_fuel_members(members, k) <= ser_members_from(members, k).len() + 1,
    decreases members, members.len() - k,
{
    if 0 <= k < members.len() {
        lemma_fuel_le_ser(members[k].1);
        lemma_ser_first(members[k].1);
        if k < members.len() - 1 {
            lemma_fuel_members_le(members, k + 1);
            assert(ser_members_from(members, k) == ser_string(members[k].0) + seq![0x3au8]
                + ser_value(members[k].1) + seq![0x2cu8] + ser_members_from(members, k + 1));
        } else {
            assert(jv_fuel_members(members, k + 1) == 1);
            assert(ser_members_from(members, k) == ser_string(members[k].0) + seq![0x3au8]
                + ser_value(members[k].1));
        }
    }
}

/// Parsing the canonical serialization of `v`, embedded in a larger stream
/// and not followed by a digit, yields `v` and stops right after it.
#[verifier::rlimit(60)]
proof fn lemma_p_value_ser(b: Seq<u8>, i: int, v: Jv, fuel: nat)
    requires
        0 <= i,
        i + ser_value(v).len() <= b.len(),
        b.subrange(i, i + ser_value(v).len() as int) == ser_value(v),
        fuel >= jv_fuel(v),
        i + ser_value(v).len() == b.len() || !is_digit(b[i + ser_value(v).len()]),
    ensures
        p_value(b, i, fuel) == Some((v, i + ser_value(v).len() as int)),
    decreases v, 1int,
{
    let s = ser_value(v);
    let l = s.len() as int;
    lemma_ser_first(v);
    lemma_sub_index(b, i, s, 0);
    assert(!is_ws(b[i]));
    assert(skip_ws(b, i) == i);
    match v {
        Jv::Null => {
            lemma_sub_index(b, i, s, 1);
            lemma_sub_index(b, i, s, 2);
            lemma_sub_index(b, i, s, 3);
            assert(b[i] == 0x6e && b[i + 1] == 0x75 && b[i + 2] == 0x6c && b[i + 3] == 0x6c);
        },
        Jv::Bool(t) => {
            lemma_sub_index(b, i, s, 1);
            lemma_sub_index(b, i, s, 2);
            lemma_sub_index(b, i, s, 3);
            if !t {
                lemma_sub_index(b, i, s, 4);
            }
        },
        Jv::Int(n) => {
            if n >= 0 {
                lemma_ser_nat_digits(n as int);
                assert(s == ser_nat(n as int));
                assert(is_digit(s[0]));
            } else {
                lemma_ser_nat_digits(-(n as int));
                assert(s == seq![0x2du8] + ser_nat(-(n as int)));
                assert(s[0] == 0x2d);
            }
            assert(b[i] == 0x2d || is_digit(b[i]));
            assert(b[i] != 0x6e && b[i] != 0x74 && b[i] != 0x66 && b[i] != 0x22 && b[i] != 0x5b
                && b[i] != 0x7b);
            lemma_p_int_ser(b, i, n);
        },
        Jv::Str(str0) => {
            let raw = encode_utf8(str0);
            let esc = esc_bytes_from(raw, 0);
            assert(s == seq![0x22u8] + esc + seq![0x22u8]);
            assert(b[i] == 0x22);
            lemma_slice_of_slice(b, i, s, 1, esc.len() as int);
            assert(s.subrange(1, 1 + esc.len() as int) =~= esc);
            lemma_sub_index(b, i, s, l - 1);
            assert(s[l - 1] == 0x22);
            lemma_p_string_esc(b, i + 1, raw, 0);
            assert(raw.subrange(0, raw.len() as int) =~= raw);
            encode_utf8_valid_utf8(str0);
            encode_utf8_decode_utf8(str0);
        },
        Jv::Arr(items) => {
            assert(b[i] == 0x5b);
            let inner = ser_items_from(items, 0);
            assert(s == seq![0x5bu8] + inner + seq![0x5du8]);
            lemma_sub_index(b, i, s, l - 1);
            assert(s[l - 1] == 0x5d);
            assert(b[i + l - 1] == 0x5d);
            if items.len() == 0 {
                assert(inner.len() == 0);
                assert(l == 2);
                assert(b[i + 1] == 0x5d);
                assert(skip_ws(b, i + 1) == i + 1);
                assert(items =~= Seq::<Jv>::empty());
            } else {
                lemma_ser_first(items[0]);
                lemma_sub_index(b, i, s, 1);
                assert(s[1] == inner[0]);
                assert(inner[0] == ser_value(items[0])[0]) by {
                    assert(inner == ser_value(items[0]) + (
                        if items.len() == 1 { Seq::<u8>::empty() }
                        else { seq![0x2cu8] + ser_items_from(items, 1) }
                    ));
                }
                assert(is_value_start(b[i + 1]));
                assert(!is_ws(b[i + 1]));
                assert(skip_ws(b, i + 1) == i + 1);
                assert(b[i + 1] != 0x5d);
                lemma_slice_of_slice(b, i, s, 1, inner.len() as int);
                assert(s.subrange(1, 1 + inner.len() as int) =~= inner);
                lemma_p_items_ser(b, i + 1, items, 0, (fuel - 1) as nat);
                assert(items.subrange(0, items.len() as int) =~= items);
            }
        },
        Jv::Obj(members) => {
            assert(b[i] == 0x7b);
            let inner = ser_members_from(members, 0);
            assert(s == seq![0x7bu8] + inner + seq![0x7du8]);
            lemma_sub_index(b, i, s, l - 1);
            assert(b[i + l - 1] == 0x7d);
            if members.len() == 0 {
                assert(l == 2);
                assert(b[i + 1] == 0x7d);
                assert(skip_ws(b, i + 1) == i + 1);
                assert(members =~= Seq::<(Seq<char>, Jv)>::empty());
            } else {
                lemma_sub_index(b, i, s, 1);
                assert(s[1] == inner[0]);
                assert(inner[0] == 0x22) by {
                    let entry = ser_string(members[0].0) + seq![0x3au8] + ser_value(members[0].1);
                    assert(inner == entry + (
                        if members.len() == 1 { Seq::<u8>::empty() }
                        else { seq![0x2cu8] + ser_members_from(members, 1) }
                    ));
                    assert(entry[0] == 0x22);
                }
                assert(b[i + 1] == 0x22);
                assert(skip_ws(b, i + 1) == i + 1);
                lemma_slice_of_slice(b, i, s, 1, inner.len() as int);
                assert(s.subrange(1, 1 + inner.len() as int) =~= inner);
                lemma_p_members_ser(b, i + 1, members, 0, (fuel - 1) as nat);
                assert(members.subrange(0, members.len() as int) =~= members);
            }
        },
    }
}

/// Parsing serialized elements `items[k..]` followed by `]` yields them and
/// stops after the bracket.
#[verifier::rlimit(60)]
proof fn lemma_p_items_ser(b: Seq<u8>, i: int, items: Seq<Jv>, k: int, fuel: nat)
    requires
        0 <= k < items.len(),
        0 <= i,
        i + ser_items_from(items, k).len() + 1 <= b.len(),
        b.subrange(i, i + ser_items_from(items, k).len() as int) == ser_items_from(items, k),
        b[i + ser_items_from(items, k).len()] == 0x5d,
        fuel >= jv_fuel_items(items, k),
    ensures
        p_items(b, i, fuel) == Some(
            (items.subrange(k, items.len() as int), i + ser_items_from(items, k).len() + 1),
        ),
    decreases items, items.len() - k,
{
    let s = ser_items_from(items, k);
    let l = s.len() as int;
    let head = ser_value(items[k]);
    let hl = head.len() as int;
    lemma_ser_first(items[k]);
    if k == items.len() - 1 {
        assert(s == head);
        assert(b[i + hl] == 0x5d);
        assert(!is_digit(0x5du8));
        lemma_p_value_ser(b, i, items[k], (fuel - 1) as nat);
        assert(skip_ws(b, i + hl) == i + hl);
        assert(seq![items[k]] =~= items.subrange(k, items.len() as int));
    } else {
        let tail = ser_items_from(items, k + 1);
        assert(s == head + seq![0x2cu8] + tail);
        lemma_sub_index(b, i, s, hl);
        assert(s[hl] == 0x2c);
        assert(b[i + hl] == 0x2c);
        lemma_slice_of_slice(b, i, s, 0, hl);
        assert(s.subrange(0, hl) =~= head);
        lemma_p_value_ser(b, i, items[k], (fuel - 1) as nat);
        assert(skip_ws(b, i + hl) == i + hl);
        lemma_slice_of_slice(b, i, s, hl + 1, tail.len() as int);
        assert(s.subrange(hl + 1, hl + 1 + tail.len() as int) =~= tail);
        assert(b[i + hl + 1 + tail.len()] == 0x5d) by {
            assert(i + hl + 1 + tail.len() == i + l);
        }
        lemma_p_items_ser(b, i + hl + 1, items, k + 1, (fuel - 1) as nat);
        assert(seq![items[k]] + items.subrange(k + 1, items.len() as int) =~= items.subrange(
            k,
            items.len() as int,
        ));
    }
}

/// Parsing serialized members `members[k..]` followed by `}` yields them and
/// stops after the brace.
#[verifier::rlimit(60)]
proof fn lemma_p_members_ser(b: Seq<u8>, i: int, members: Seq<(Seq<char>, Jv)>, k: int, fuel: nat)
    requires
        0 <= k < members.len(),
        0 <= i,
        i + ser_members_from(members, k).len() + 1 <= b.len(),
        b.subrange(i, i + ser_members_from(members, k).len() as int) == ser_members_from(
            members,
            k,
        ),
        b[i + ser_members_from(members, k).len()] == 0x7d,
        fuel >= jv_fuel_members(members, k),
    ensures
        p_members(b, i, fuel) == Some(
            (
                members.subrange(k, members.len() as int),
                i + ser_members_from(members, k).len() + 1,
            ),
        ),
    decreases members, members.len() - k,
{
    let s = ser_members_from(members, k);
    let l = s.len() as int;
    let key = members[k].0;
    let raw = encode_utf8(key);
    let ks = ser_string(key);
    let kl = ks.len() as int;
    let vv = members[k].1;
    let vs = ser_value(vv);
    let vl = vs.len() as int;
    let entry = ks + seq![0x3au8] + vs;
    let el = entry.len() as int;
    lemma_ser_first(vv);
    assert(s == entry + (
        if k == members.len() - 1 { Seq::<u8>::empty() }
        else { seq![0x2cu8] + ser_members_from(members, k + 1) }
    ));
    lemma_sub_index(b, i, s, 0);
    assert(s[0] == 0x22);
    assert(b[i] == 0x22);
    assert(skip_ws(b, i) == i);
    // the key string
    let esc = esc_bytes_from(raw, 0);
    assert(ks == seq![0x22u8] + esc + seq![0x22u8]);
    lemma_slice_of_slice(b, i, s, 1, esc.len() as int);
    assert(s.subrange(1, 1 + esc.len() as int) =~= esc);
    lemma_sub_index(b, i, s, kl - 1);
    assert(s[kl - 1] == 0x22);
    lemma_p_string_esc(b, i + 1, raw, 0);
    assert(raw.subrange(0, raw.len() as int) =~= raw);
    encode_utf8_valid_utf8(key);
    encode_utf8_decode_utf8(key);
    // the colon
    lemma_sub_index(b, i, s, kl);
    assert(s[kl] == 0x3a);
    assert(b[i + kl] == 0x3a);
    assert(skip_ws(b, i + kl) == i + kl);
    // the value
    lemma_slice_of_slice(b, i, s, kl + 1, vl);
    assert(s.subrange(kl + 1, kl + 1 + vl) =~= vs);
    if k == members.len() - 1 {
        assert(b[i + el] == 0x7d) by {
            assert(el == l);
        }
        assert(!is_digit(0x7du8));
        lemma_p_value_ser(b, i + kl + 1, vv, (fuel - 1) as nat);
        assert(skip_ws(b, i + el) == i + el);
        assert(seq![(key, vv)] =~= members.subrange(k, members.len() as int));
    } else {
        let tail = ser_members_from(members, k + 1);
        lemma_sub_index(b, i, s, el);
        assert(s[el] == 0x2c);
        assert(b[i + el] == 0x2c);
        lemma_p_value_ser(b, i + kl + 1, vv, (fuel - 1) as nat);
        assert(skip_ws(b, i + el) == i + el);
        lemma_slice_of_slice(b, i, s, el + 1, tail.len() as int);
        assert(s.subrange(el + 1, el + 1 + tail.len() as int) =~= tail);
        assert(b[i + el + 1 + tail.len()] == 0x7d) by {
            assert(i + el + 1 + tail.len() == i + l);
        }
        lemma_p_members_ser(b, i + el + 1, members, k + 1, (fuel - 1) as nat);
        assert(seq![(key, vv)] + members.subrange(k + 1, members.len() as int) =~= members.subrange(
            k,
            members.len() as int,
        ));
    }
}

/// The round-trip law: the canonical serialization of any value parses back
/// to exactly that value.
pub proof fn lemma_parse_of_serialized(v: Jv)
    ensures
        p_doc(ser_value(v)) == Some(v),
{
    let b = ser_value(v);
    lemma_ser_first(v);
    lemma_fuel_le_ser(v);
    assert(b.subrange(0, b.len() as int) =~= b);
    lemma_p_value_ser(b, 0, v, (b.len() + 1) as nat);
    assert(skip_ws(b, b.len() as int) == b.len());
}

} // verus!
