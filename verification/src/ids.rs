//! Blob identifiers and their canonical text form: thirty-two lowercase
//! hexadecimal digits in hyphenated 8-4-4-4-12 grouping, the form in which an
//! identifier is written into and read back from a stored row.

use vstd::prelude::*;
use vstd::string::StrSliceExecFns;
use vstd::string::StringExecFns;

use crate::hexfmt::fixed_hex;
use crate::hexfmt::hex_digit;
use crate::hexfmt::hex_digit_value;
use crate::hexfmt::is_hex_digit;
use crate::hexfmt::lemma_fixed_hex_concat;
use crate::hexfmt::lemma_fixed_hex_digits;
use crate::hexfmt::lemma_fixed_hex_injective;
use crate::hexfmt::lemma_fixed_hex_len;
use crate::hexfmt::lemma_hex_char_val_injective;
use crate::hexfmt::lemma_hex_digit_val;
use crate::hexfmt::lemma_pow16_increases;
use crate::hexfmt::lemma_pow16_pos;
use crate::hexfmt::lemma_pow16_vals;
use crate::hexfmt::pow16;
use crate::hexfmt::push_fixed_hex;

verus! {

/// A 128-bit external identifier that groups related blobs.
#[derive(Clone, Copy, PartialEq, Eq, Structural, Debug)]
pub struct BlobId {
    pub value: u128,
}

/// The canonical hyphenated text form of an identifier: the 32 hexadecimal
/// digits of its value, split 8-4-4-4-12 by hyphens.
pub open spec fn uuid_chars(v: u128) -> Seq<char> {
    let d = fixed_hex(v as int, 32);
    d.take(8) + seq!['-'] + d.subrange(8, 12) + seq!['-'] + d.subrange(12, 16) + seq!['-']
        + d.subrange(16, 20) + seq!['-'] + d.subrange(20, 32)
}

/// The shape of canonical identifier text: 36 characters, hyphens at the four
/// fixed positions, lowercase hexadecimal digits everywhere else.
pub open spec fn is_uuid_text(s: Seq<char>) -> bool {
    &&& s.len() == 36
    &&& s[8] == '-'
    &&& s[13] == '-'
    &&& s[18] == '-'
    &&& s[23] == '-'
    &&& forall|i: int|
        0 <= i < 36 && i != 8 && i != 13 && i != 18 && i != 23 ==> is_hex_digit(#[trigger] s[i])
}

/// Canonical identifier text always has the canonical shape.
pub proof fn lemma_uuid_chars_wellformed(v: u128)
    ensures
        is_uuid_text(uuid_chars(v)),
{
    let d = fixed_hex(v as int, 32);
    let s = uuid_chars(v);
    lemma_fixed_hex_len(v as int, 32);
    lemma_fixed_hex_digits(v as int, 32);
    assert(s.len() == 36);
    assert(s[8] == '-');
    assert(s[13] == '-');
    assert(s[18] == '-');
    assert(s[23] == '-');
    assert forall|i: int|
        0 <= i < 36 && i != 8 && i != 13 && i != 18 && i != 23 implies is_hex_digit(
        #[trigger] s[i],
    ) by {
        if i < 8 {
            assert(s[i] == d[i]);
        } else if i < 13 {
            assert(s[i] == d[i - 1]);
        } else if i < 18 {
            assert(s[i] == d[i - 2]);
        } else if i < 23 {
            assert(s[i] == d[i - 3]);
        } else {
            assert(s[i] == d[i - 4]);
        }
    }
}

/// Distinct identifiers have distinct canonical text: the text determines the
/// value.
pub proof fn lemma_uuid_chars_injective(a: u128, b: u128)
    requires
        uuid_chars(a) == uuid_chars(b),
    ensures
        a == b,
{
    let da = fixed_hex(a as int, 32);
    let db = fixed_hex(b as int, 32);
    let sa = uuid_chars(a);
    let sb = uuid_chars(b);
    lemma_fixed_hex_len(a as int, 32);
    lemma_fixed_hex_len(b as int, 32);
    assert forall|i: int| 0 <= i < 32 implies da[i] == db[i] by {
        if i < 8 {
            assert(sa[i] == da[i] && sb[i] == db[i]);
        } else if i < 12 {
            assert(sa[i + 1] == da[i] && sb[i + 1] == db[i]);
        } else if i < 16 {
            assert(sa[i + 2] == da[i] && sb[i + 2] == db[i]);
        } else if i < 20 {
            assert(sa[i + 3] == da[i] && sb[i + 3] == db[i]);
        } else {
            assert(sa[i + 4] == da[i] && sb[i + 4] == db[i]);
        }
    }
    assert(da =~= db);
    lemma_pow16_vals();
    lemma_fixed_hex_injective(a as int, b as int, 32);
}

/// Renders an identifier in its canonical hyphenated text form.
pub fn format_uuid(id: BlobId) -> (r: String)
    ensures
        r@ == uuid_chars(id.value),
{
    let v = id.value;
    let mut r = String::new();
    push_fixed_hex(&mut r, v / 0x1000000000000000000000000, 8);
    r.append("-");
    let x1 = v % 0x1000000000000000000000000;
    push_fixed_hex(&mut r, x1 / 0x100000000000000000000, 4);
    r.append("-");
    let x2 = x1 % 0x100000000000000000000;
    push_fixed_hex(&mut r, x2 / 0x10000000000000000, 4);
    r.append("-");
    let x3 = x2 % 0x10000000000000000;
    push_fixed_hex(&mut r, x3 / 0x1000000000000, 4);
    r.append("-");
    let x4 = x3 % 0x1000000000000;
    push_fixed_hex(&mut r, x4, 12);
    proof {
        reveal_strlit("-");
        lemma_pow16_vals();
        lemma_pow16_pos(24);
        lemma_pow16_pos(20);
        lemma_pow16_pos(16);
        lemma_pow16_pos(12);
        let a1 = v as int / pow16(24);
        let r1 = v as int % pow16(24);
        let a2 = r1 / pow16(20);
        let r2 = r1 % pow16(20);
        let a3 = r2 / pow16(16);
        let r3 = r2 % pow16(16);
        let a4 = r3 / pow16(12);
        let a5 = r3 % pow16(12);
        lemma_fixed_hex_concat(a1, r1, 8, 24);
        lemma_fixed_hex_concat(a2, r2, 4, 20);
        lemma_fixed_hex_concat(a3, r3, 4, 16);
        lemma_fixed_hex_concat(a4, a5, 4, 12);
        let d = fixed_hex(v as int, 32);
        assert(d == fixed_hex(a1, 8) + fixed_hex(r1, 24));
        assert(fixed_hex(r1, 24) == fixed_hex(a2, 4) + fixed_hex(r2, 20));
        assert(fixed_hex(r2, 20) == fixed_hex(a3, 4) + fixed_hex(r3, 16));
        assert(fixed_hex(r3, 16) == fixed_hex(a4, 4) + fixed_hex(a5, 12));
        lemma_fixed_hex_len(a1, 8);
        lemma_fixed_hex_len(a2, 4);
        lemma_fixed_hex_len(a3, 4);
        lemma_fixed_hex_len(a4, 4);
        lemma_fixed_hex_len(a5, 12);
        lemma_fixed_hex_len(v as int, 32);
        assert(d.take(8) =~= fixed_hex(a1, 8));
        assert(d.subrange(8, 12) =~= fixed_hex(a2, 4));
        assert(d.subrange(12, 16) =~= fixed_hex(a3, 4));
        assert(d.subrange(16, 20) =~= fixed_hex(a4, 4));
        assert(d.subrange(20, 32) =~= fixed_hex(a5, 12));
        assert("-"@ =~= seq!['-']);
        assert(r@ =~= uuid_chars(id.value));
    }
    r
}

/// Reads one run of hexadecimal digits as a value below `16^len`.
fn parse_hex_group(s: &str, start: usize, len: usize) -> (r: Option<u64>)
    requires
        start + len <= s@.len(),
        start + len <= usize::MAX,
        len <= 12,
    ensures
        match r {
            Some(g) => (g as int) < pow16(len as nat) && fixed_hex(g as int, len as nat)
                == s@.subrange(start as int, start as int + len),
            None => !(forall|i: int|
                start <= i < start + len ==> is_hex_digit(#[trigger] s@[i])),
        },
{
    let mut acc: u64 = 0;
    let mut j: usize = 0;
    proof {
        assert(fixed_hex(0, 0) =~= s@.subrange(start as int, start as int));
    }
    while j < len
        invariant
            j <= len <= 12,
            start + len <= s@.len(),
            start + len <= usize::MAX,
            (acc as int) < pow16(j as nat),
            fixed_hex(acc as int, j as nat) == s@.subrange(start as int, start as int + j),
        decreases len - j,
    {
        let c = s.get_char(start + j);
        let d = match hex_digit_value(c) {
            Some(v) => v,
            None => {
                assert(!is_hex_digit(s@[start as int + j]));
                return None;
            },
        };
        proof {
            lemma_pow16_vals();
            lemma_pow16_increases(j as nat, 11);
            assert(pow16(12) == 16 * pow16(11));
            assert(pow16((j + 1) as nat) == 16 * pow16(j as nat));
        }
        let acc2: u64 = acc * 16 + (d as u64);
        proof {
            assert(acc2 as int / 16 == acc as int && acc2 as int % 16 == d as int)
                by (nonlinear_arith)
                requires
                    acc2 as int == 16 * (acc as int) + d as int,
                    0 <= d < 16,
                    acc as int >= 0,
            ;
            assert(fixed_hex(acc2 as int, (j + 1) as nat) == fixed_hex(acc as int, j as nat)
                + seq![hex_digit(acc2 as int % 16)]);
            assert(hex_digit(d as int) == s@[start as int + j]) by {
                lemma_hex_digit_val(d as int);
                lemma_hex_char_val_injective(hex_digit(d as int), s@[start as int + j]);
            }
            assert(fixed_hex(acc2 as int, (j + 1) as nat) =~= s@.subrange(
                start as int,
                start as int + j + 1,
            ));
        }
        acc = acc2;
        j = j + 1;
    }
    Some(acc)
}

/// Reads canonical hyphenated identifier text back into an identifier.
/// Succeeds exactly on text of the canonical shape.
pub fn parse_uuid(s: &str) -> (r: Option<BlobId>)
    ensures
        r is Some <==> is_uuid_text(s@),
        r matches Some(id) ==> uuid_chars(id.value) == s@,
{
    let n = s.unicode_len();
    if n != 36 {
        return None;
    }
    if s.get_char(8) != '-' || s.get_char(13) != '-' || s.get_char(18) != '-' || s.get_char(23)
        != '-' {
        return None;
    }
    let g1 = match parse_hex_group(s, 0, 8) {
        Some(g) => g,
        None => {
            return None;
        },
    };
    let g2 = match parse_hex_group(s, 9, 4) {
        Some(g) => g,
        None => {
            return None;
        },
    };
    let g3 = match parse_hex_group(s, 14, 4) {
        Some(g) => g,
        None => {
            return None;
        },
    };
    let g4 = match parse_hex_group(s, 19, 4) {
        Some(g) => g,
        None => {
            return None;
        },
    };
    let g5 = match parse_hex_group(s, 24, 12) {
        Some(g) => g,
        None => {
            return None;
        },
    };
    proof {
        lemma_pow16_vals();
    }
    let v1: u128 = g1 as u128;
    let v2: u128 = v1 * 0x10000 + g2 as u128;
    let v3: u128 = v2 * 0x10000 + g3 as u128;
    let v4: u128 = v3 * 0x10000 + g4 as u128;
    let v: u128 = v4 * 0x1000000000000 + g5 as u128;
    proof {
        lemma_fixed_hex_concat(v4 as int, g5 as int, 20, 12);
        lemma_fixed_hex_concat(v3 as int, g4 as int, 16, 4);
        lemma_fixed_hex_concat(v2 as int, g3 as int, 12, 4);
        lemma_fixed_hex_concat(v1 as int, g2 as int, 8, 4);
        let d = fixed_hex(v as int, 32);
        assert(d == fixed_hex(v4 as int, 20) + fixed_hex(g5 as int, 12));
        assert(fixed_hex(v4 as int, 20) == fixed_hex(v3 as int, 16) + fixed_hex(g4 as int, 4));
        assert(fixed_hex(v3 as int, 16) == fixed_hex(v2 as int, 12) + fixed_hex(g3 as int, 4));
        assert(fixed_hex(v2 as int, 12) == fixed_hex(v1 as int, 8) + fixed_hex(g2 as int, 4));
        lemma_fixed_hex_len(v as int, 32);
        lemma_fixed_hex_len(v1 as int, 8);
        lemma_fixed_hex_len(v2 as int, 12);
        lemma_fixed_hex_len(v3 as int, 16);
        lemma_fixed_hex_len(v4 as int, 20);
        lemma_fixed_hex_len(g2 as int, 4);
        lemma_fixed_hex_len(g3 as int, 4);
        lemma_fixed_hex_len(g4 as int, 4);
        lemma_fixed_hex_len(g5 as int, 12);
        assert(d.take(8) =~= fixed_hex(g1 as int, 8));
        assert(d.subrange(8, 12) =~= fixed_hex(g2 as int, 4));
        assert(d.subrange(12, 16) =~= fixed_hex(g3 as int, 4));
        assert(d.subrange(16, 20) =~= fixed_hex(g4 as int, 4));
        assert(d.subrange(20, 32) =~= fixed_hex(g5 as int, 12));
        assert(uuid_chars(v) =~= s@);
        lemma_uuid_chars_wellformed(v);
    }
    Some(BlobId { value: v })
}

} // verus!
