//! Executable JSON parser, returning exactly what the mathematical parser
//! [`crate::json_parse::p_doc`] says.

use vstd::prelude::*;

use crate::json_data::JsonValue;
use crate::json_data::jv_of;
use crate::json_data::jv_of_items;
use crate::json_data::jv_of_members;
use crate::json_codec::is_digit;
use crate::json_parse::digits_end;
use crate::json_parse::digits_val;
use crate::json_parse::hex_val;
use crate::json_parse::p_doc;
use crate::json_parse::p_int;
use crate::json_parse::p_items;
use crate::json_parse::p_members;
use crate::json_parse::p_string;
use crate::json_parse::p_value;
use crate::json_parse::skip_ws;
use crate::json_parse::unesc_map;
use crate::text::string_from_utf8;

verus! {

use vstd::utf8::encode_utf8_decode_utf8;
use vstd::utf8::encode_utf8_valid_utf8;
use vstd::utf8::valid_utf8;

/// Advances past whitespace.
fn skip_ws_exec(b: &Vec<u8>, i: usize) -> (r: usize)
    requires
        i <= b.len(),
    ensures
        r as int == skip_ws(b@, i as int),
        i <= r <= b.len(),
{
    let mut j: usize = i;
    while j < b.len() && (b[j] == 0x20 || b[j] == 0x09 || b[j] == 0x0a || b[j] == 0x0d)
        invariant
            i <= j <= b.len(),
            skip_ws(b@, i as int) == skip_ws(b@, j as int),
        decreases b.len() - j,
    {
        j = j + 1;
    }
    j
}

/// Hex digit value, mirroring [`hex_val`].
fn hex_val_exec(c: u8) -> (r: Option<u8>)
    ensures
        r == hex_val(c),
{
    if 0x30 <= c && c <= 0x39 {
        Some(c - 0x30)
    } else if 0x61 <= c && c <= 0x66 {
        Some(c - 0x57)
    } else if 0x41 <= c && c <= 0x46 {
        Some(c - 0x37)
    } else {
        None
    }
}

/// Appends the unescaped bytes of the string body starting at `i` (after
/// the opening quote) to `acc`; yields the index after the closing quote.
fn parse_string_into(b: &Vec<u8>, i: usize, acc: &mut Vec<u8>) -> (r: Option<usize>)
    requires
        i <= b.len(),
    ensures
        match p_string(b@, i as int) {
            Some((s, j)) => r matches Some(jj) && jj as int == j && jj <= b.len() && final(acc)@
                == old(acc)@ + s,
            None => r is None,
        },
    decreases b.len() - i,
{
    if i >= b.len() {
        None
    } else {
        let c = b[i];
        if c == 0x22 {
            proof {
                assert(acc@ =~= acc@ + Seq::<u8>::empty());
            }
            Some(i + 1)
        } else if c == 0x5c {
            if b.len() - i < 2 {
                None
            } else if b[i + 1] == 0x75 {
                if b.len() - i < 6 {
                    None
                } else {
                    let h0 = hex_val_exec(b[i + 2]);
                    let h1 = hex_val_exec(b[i + 3]);
                    let h2 = hex_val_exec(b[i + 4]);
                    let h3 = hex_val_exec(b[i + 5]);
                    match (h0, h1, h2, h3) {
                        (Some(h0), Some(h1), Some(h2), Some(h3)) => {
                            let vl: u32 = (h0 as u32) * 4096 + (h1 as u32) * 256 + (h2 as u32)
                                * 16 + (h3 as u32);
                            if vl <= 0xff {
                                acc.push(vl as u8);
                                let r = parse_string_into(b, i + 6, acc);
                                proof {
                                    if let Some((s, _)) = p_string(b@, i + 6 as int) {
                                        assert((old(acc)@ + seq![vl as u8]) + s =~= old(acc)@
                                            + (seq![vl as u8] + s));
                                    }
                                }
                                r
                            } else {
                                None
                            }
                        },
                        _ => None,
                    }
                }
            } else {
                let u = if b[i + 1] == 0x22 {
                    Some(0x22u8)
                } else if b[i + 1] == 0x5c {
                    Some(0x5cu8)
                } else if b[i + 1] == 0x2f {
                    Some(0x2fu8)
                } else if b[i + 1] == 0x6e {
                    Some(0x0au8)
                } else if b[i + 1] == 0x74 {
                    Some(0x09u8)
                } else if b[i + 1] == 0x72 {
                    Some(0x0du8)
                } else if b[i + 1] == 0x62 {
                    Some(0x08u8)
                } else if b[i + 1] == 0x66 {
                    Some(0x0cu8)
                } else {
                    None
                };
                proof {
                    assert(u == unesc_map(b@[i + 1]));
                }
                match u {
                    Some(u) => {
                        acc.push(u);
                        let r = parse_string_into(b, i + 2, acc);
                        proof {
                            if let Some((s, _)) = p_string(b@, i + 2 as int) {
                                assert((old(acc)@ + seq![u]) + s =~= old(acc)@ + (seq![u] + s));
                            }
                        }
                        r
                    },
                    None => None,
                }
            }
        } else if c < 0x20 {
            None
        } else {
            acc.push(c);
            let r = parse_string_into(b, i + 1, acc);
            proof {
                if let Some((s, _)) = p_string(b@, i + 1 as int) {
                    assert((old(acc)@ + seq![c]) + s =~= old(acc)@ + (seq![c] + s));
                }
            }
            r
        }
    }
}

/// A run of digit bytes evaluates to a non-negative value.
proof fn lemma_digits_val_nonneg(b: Seq<u8>, i: int, j: int)
    requires
        forall|t: int| i <= t < j ==> is_digit(#[trigger] b[t]),
    ensures
        digits_val(b, i, j) >= 0,
    decreases j - i,
{
    if j > i {
        lemma_digits_val_nonneg(b, i, j - 1);
        assert(digits_val(b, i, j) == digits_val(b, i, j - 1) * 10 + (b[j - 1] - 0x30));
        assert(digits_val(b, i, j - 1) * 10 >= 0) by (nonlinear_arith)
            requires
                digits_val(b, i, j - 1) >= 0,
        ;
        assert(is_digit(b[j - 1]));
    }
}

/// Parses an integer, mirroring [`p_int`].
fn parse_int(b: &Vec<u8>, i: usize) -> (r: Option<(i64, usize)>)
    requires
        i <= b.len(),
    ensures
        match p_int(b@, i as int) {
            Some((n, j)) => r matches Some((rn, rj)) && rn == n && rj as int == j && rj <= b.len(),
            None => r is None,
        },
{
    let neg = i < b.len() && b[i] == 0x2d;
    let d0: usize = if neg {
        i + 1
    } else {
        i
    };
    if d0 >= b.len() || !(0x30 <= b[d0] && b[d0] <= 0x39) {
        return None;
    }
    let mut j: usize = d0;
    let mut acc: u64 = 0;
    let mut over: bool = false;
    while j < b.len() && 0x30 <= b[j] && b[j] <= 0x39
        invariant
            d0 <= j <= b.len(),
            i <= d0 <= b.len(),
            forall|t: int| d0 <= t < j ==> is_digit(#[trigger] b@[t]),
            digits_end(b@, d0 as int) == digits_end(b@, j as int),
            !over ==> acc as int == digits_val(b@, d0 as int, j as int),
            over ==> digits_val(b@, d0 as int, j as int) > u64::MAX,
        decreases b.len() - j,
    {
        let d: u8 = b[j] - 0x30;
        let ghost prev = digits_val(b@, d0 as int, j as int);
        proof {
            assert(digits_val(b@, d0 as int, j + 1 as int) == prev * 10 + (b@[j as int] - 0x30));
            lemma_digits_val_nonneg(b@, d0 as int, j as int);
        }
        if over {
            proof {
                assert(prev * 10 + d >= prev) by (nonlinear_arith)
                    requires
                        prev >= 0,
                        d >= 0,
                ;
            }
        } else if acc > (u64::MAX - (d as u64)) / 10 {
            over = true;
            proof {
                vstd::arithmetic::div_mod::lemma_fundamental_div_mod(
                    u64::MAX - (d as u64),
                    10,
                );
                assert(acc as int >= ((u64::MAX - (d as u64)) / 10) as int + 1);
                assert(acc as int * 10 >= (((u64::MAX - (d as u64)) / 10) as int + 1) * 10)
                    by (nonlinear_arith)
                    requires
                        acc as int >= ((u64::MAX - (d as u64)) / 10) as int + 1,
                ;
                assert(prev * 10 + d > u64::MAX);
            }
        } else {
            proof {
                vstd::arithmetic::div_mod::lemma_fundamental_div_mod(
                    u64::MAX - (d as u64),
                    10,
                );
                assert(acc as int * 10 <= ((u64::MAX - (d as u64)) / 10) as int * 10)
                    by (nonlinear_arith)
                    requires
                        acc as int <= ((u64::MAX - (d as u64)) / 10) as int,
                ;
                assert(acc as int * 10 + d <= u64::MAX);
            }
            acc = acc * 10 + (d as u64);
        }
        j = j + 1;
    }
    proof {
        assert(digits_end(b@, j as int) == j);
        assert(digits_end(b@, d0 as int) == j);
    }
    let ghost vl = digits_val(b@, d0 as int, digits_end(b@, d0 as int));
    proof {
        lemma_digits_val_nonneg(b@, d0 as int, j as int);
    }
    if neg {
        if over || acc > 0x8000000000000000u64 {
            None
        } else {
            let n: i64 = if acc == 0x8000000000000000u64 {
                i64::MIN
            } else {
                -(acc as i64)
            };
            proof {
                assert(n as int == -(vl as int));
                assert((-vl) as i64 == n);
            }
            Some((n, j))
        }
    } else {
        if over || acc > 0x7fffffffffffffffu64 {
            None
        } else {
            Some((acc as i64, j))
        }
    }
}

/// Parses one value, mirroring [`p_value`].
pub fn parse_value(b: &Vec<u8>, i: usize, fuel: usize) -> (r: Option<(JsonValue, usize)>)
    requires
        i <= b.len(),
    ensures
        match p_value(b@, i as int, fuel as nat) {
            Some((v, j)) => r matches Some((rv, rj)) && jv_of(rv) == v && rj as int == j && rj
                <= b.len(),
            None => r is None,
        },
    decreases fuel, 1int,
{
    if fuel == 0 {
        return None;
    }
    let i = skip_ws_exec(b, i);
    if i >= b.len() {
        return None;
    }
    let c = b[i];
    if c == 0x6e {
        if b.len() - i >= 4 && b[i + 1] == 0x75 && b[i + 2] == 0x6c && b[i + 3] == 0x6c {
            Some((JsonValue::Null, i + 4))
        } else {
            None
        }
    } else if c == 0x74 {
        if b.len() - i >= 4 && b[i + 1] == 0x72 && b[i + 2] == 0x75 && b[i + 3] == 0x65 {
            Some((JsonValue::Bool(true), i + 4))
        } else {
            None
        }
    } else if c == 0x66 {
        if b.len() - i >= 5 && b[i + 1] == 0x61 && b[i + 2] == 0x6c && b[i + 3] == 0x73 && b[i + 4]
            == 0x65 {
            Some((JsonValue::Bool(false), i + 5))
        } else {
            None
        }
    } else if c == 0x22 {
        let mut acc: Vec<u8> = Vec::new();
        match parse_string_into(b, i + 1, &mut acc) {
            Some(j) => {
                let ghost raw = acc@;
                match string_from_utf8(acc) {
                    Some(s) => {
                        proof {
                            encode_utf8_valid_utf8(s@);
                            encode_utf8_decode_utf8(s@);
                        }
                        Some((JsonValue::Str(s), j))
                    },
                    None => {
                        proof {
                            assert(!valid_utf8(raw));
                        }
                        None
                    },
                }
            },
            None => None,
        }
    } else if c == 0x5b {
        let k = skip_ws_exec(b, i + 1);
        if k < b.len() && b[k] == 0x5d {
            let items: Vec<JsonValue> = Vec::new();
            proof {
                assert(jv_of_items(items@) =~= Seq::<crate::json_data::Jv>::empty());
            }
            Some((JsonValue::Arr(items), k + 1))
        } else {
            let mut items: Vec<JsonValue> = Vec::new();
            let ghost items0 = items@;
            match parse_items_into(b, i + 1, fuel - 1, &mut items) {
                Some(j) => {
                    proof {
                        if let Some((s, _)) = p_items(b@, i + 1 as int, (fuel - 1) as nat) {
                            assert(jv_of_items(items0) =~= Seq::<crate::json_data::Jv>::empty());
                            assert(jv_of_items(items@) =~= s);
                        }
                    }
                    Some((JsonValue::Arr(items), j))
                },
                None => None,
            }
        }
    } else if c == 0x7b {
        let k = skip_ws_exec(b, i + 1);
        if k < b.len() && b[k] == 0x7d {
            let members: Vec<(String, JsonValue)> = Vec::new();
            proof {
                assert(jv_of_members(members@) =~= Seq::<(Seq<char>, crate::json_data::Jv)>::empty());
            }
            Some((JsonValue::Obj(members), k + 1))
        } else {
            let mut members: Vec<(String, JsonValue)> = Vec::new();
            let ghost members0 = members@;
            match parse_members_into(b, i + 1, fuel - 1, &mut members) {
                Some(j) => {
                    proof {
                        if let Some((s, _)) = p_members(b@, i + 1 as int, (fuel - 1) as nat) {
                            assert(jv_of_members(members0) =~= Seq::<
                                (Seq<char>, crate::json_data::Jv),
                            >::empty());
                            assert(jv_of_members(members@) =~= s);
                        }
                    }
                    Some((JsonValue::Obj(members), j))
                },
                None => None,
            }
        }
    } else if c == 0x2d || (0x30 <= c && c <= 0x39) {
        match parse_int(b, i) {
            Some((n, j)) => Some((JsonValue::Int(n), j)),
            None => None,
        }
    } else {
        None
    }
}

/// Parses the elements of a non-empty array into `acc`, mirroring
/// [`p_items`]; yields the index after the closing bracket.
fn parse_items_into(b: &Vec<u8>, i: usize, fuel: usize, acc: &mut Vec<JsonValue>) -> (r: Option<
    usize,
>)
    requires
        i <= b.len(),
    ensures
        match p_items(b@, i as int, fuel as nat) {
            Some((s, j)) => r matches Some(jj) && jj as int == j && jj <= b.len() && jv_of_items(
                final(acc)@,
            ) == jv_of_items(old(acc)@) + s,
            None => r is None,
        },
    decreases fuel, 0int,
{
    if fuel == 0 {
        return None;
    }
    match parse_value(b, i, fuel - 1) {
        Some((v, j)) => {
            let ghost vspec = jv_of(v);
            acc.push(v);
            let ghost mid = acc@;
            proof {
                assert(mid.subrange(0, mid.len() - 1) =~= old(acc)@);
                assert(jv_of_items(mid) == jv_of_items(old(acc)@).push(vspec));
            }
            let k = skip_ws_exec(b, j);
            if k >= b.len() {
                None
            } else if b[k] == 0x2c {
                let r = parse_items_into(b, k + 1, fuel - 1, acc);
                proof {
                    if let Some((rest, _)) = p_items(b@, k + 1 as int, (fuel - 1) as nat) {
                        assert((jv_of_items(old(acc)@).push(vspec)) + rest =~= jv_of_items(
                            old(acc)@,
                        ) + (seq![vspec] + rest));
                    }
                }
                r
            } else if b[k] == 0x5d {
                proof {
                    assert(jv_of_items(old(acc)@).push(vspec) =~= jv_of_items(old(acc)@)
                        + seq![vspec]);
                }
                Some(k + 1)
            } else {
                None
            }
        },
        None => None,
    }
}

/// Parses the members of a non-empty object into `acc`, mirroring
/// [`p_members`]; yields the index after the closing brace.
fn parse_members_into(
    b: &Vec<u8>,
    i: usize,
    fuel: usize,
    acc: &mut Vec<(String, JsonValue)>,
) -> (r: Option<usize>)
    requires
        i <= b.len(),
    ensures
        match p_members(b@, i as int, fuel as nat) {
            Some((s, j)) => r matches Some(jj) && jj as int == j && jj <= b.len()
                && jv_of_members(final(acc)@) == jv_of_members(old(acc)@) + s,
            None => r is None,
        },
    decreases fuel, 0int,
{
    if fuel == 0 {
        return None;
    }
    let i1 = skip_ws_exec(b, i);
    if i1 >= b.len() || b[i1] != 0x22 {
        return None;
    }
    let mut raw: Vec<u8> = Vec::new();
    match parse_string_into(b, i1 + 1, &mut raw) {
        Some(j) => {
            let ghost raws = raw@;
            match string_from_utf8(raw) {
                Some(key) => {
                    proof {
                        encode_utf8_valid_utf8(key@);
                        encode_utf8_decode_utf8(key@);
                    }
                    let j1 = skip_ws_exec(b, j);
                    if j1 >= b.len() || b[j1] != 0x3a {
                        None
                    } else {
                        match parse_value(b, j1 + 1, fuel - 1) {
                            Some((v, j2)) => {
                                let ghost vspec = jv_of(v);
                                let ghost keyspec = key@;
                                acc.push((key, v));
                                let ghost mid = acc@;
                                proof {
                                    assert(mid.subrange(0, mid.len() - 1) =~= old(acc)@);
                                    assert(jv_of_members(mid) == jv_of_members(old(acc)@).push(
                                        (keyspec, vspec),
                                    ));
                                }
                                let k = skip_ws_exec(b, j2);
                                if k >= b.len() {
                                    None
                                } else if b[k] == 0x2c {
                                    let r = parse_members_into(b, k + 1, fuel - 1, acc);
                                    proof {
                                        if let Some((rest, _)) = p_members(
                                            b@,
                                            k + 1 as int,
                                            (fuel - 1) as nat,
                                        ) {
                                            assert((jv_of_members(old(acc)@).push(
                                                (keyspec, vspec),
                                            )) + rest =~= jv_of_members(old(acc)@) + (seq![
                                                (keyspec, vspec),
                                            ] + rest));
                                        }
                                    }
                                    r
                                } else if b[k] == 0x7d {
                                    proof {
                                        assert(jv_of_members(old(acc)@).push((keyspec, vspec))
                                            =~= jv_of_members(old(acc)@) + seq![(keyspec, vspec)]);
                                    }
                                    Some(k + 1)
                                } else {
                                    None
                                }
                            },
                            None => None,
                        }
                    }
                },
                None => {
                    proof {
                        assert(!valid_utf8(raws));
                    }
                    None
                },
            }
        },
        None => None,
    }
}

/// Parses a whole byte stream as one JSON value, exactly as
/// [`p_doc`] describes.
pub fn parse_json(b: &Vec<u8>) -> (r: Option<JsonValue>)
    requires
        b@.len() < usize::MAX,
    ensures
        r matches Some(v) ==> p_doc(b@) == Some(jv_of(v)),
        r is None ==> p_doc(b@) is None,
{
    let fuel = b.len() + 1;
    match parse_value(b, 0, fuel) {
        Some((v, j)) => {
            let k = skip_ws_exec(b, j);
            if k == b.len() {
                Some(v)
            } else {
                None
            }
        },
        None => None,
    }
}

} // verus!
