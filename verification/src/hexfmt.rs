//! Lowercase hexadecimal text encoding of byte strings, used for the stored
//! form of blob bodies and for digest strings.

use vstd::prelude::*;
use vstd::string::StrSliceExecFns;
use vstd::string::StringExecFns;

verus! {

/// The lowercase hexadecimal digit character for a value below sixteen.
pub open spec fn hex_digit(n: int) -> char
    recommends
        0 <= n < 16,
{
    if n == 0 {
        '0'
    } else if n == 1 {
        '1'
    } else if n == 2 {
        '2'
    } else if n == 3 {
        '3'
    } else if n == 4 {
        '4'
    } else if n == 5 {
        '5'
    } else if n == 6 {
        '6'
    } else if n == 7 {
        '7'
    } else if n == 8 {
        '8'
    } else if n == 9 {
        '9'
    } else if n == 10 {
        'a'
    } else if n == 11 {
        'b'
    } else if n == 12 {
        'c'
    } else if n == 13 {
        'd'
    } else if n == 14 {
        'e'
    } else {
        'f'
    }
}

/// The value of a lowercase hexadecimal digit character, or -1 for any other
/// character.
pub open spec fn hex_char_val(c: char) -> int {
    if c == '0' {
        0
    } else if c == '1' {
        1
    } else if c == '2' {
        2
    } else if c == '3' {
        3
    } else if c == '4' {
        4
    } else if c == '5' {
        5
    } else if c == '6' {
        6
    } else if c == '7' {
        7
    } else if c == '8' {
        8
    } else if c == '9' {
        9
    } else if c == 'a' {
        10
    } else if c == 'b' {
        11
    } else if c == 'c' {
        12
    } else if c == 'd' {
        13
    } else if c == 'e' {
        14
    } else if c == 'f' {
        15
    } else {
        -1
    }
}

pub open spec fn is_hex_digit(c: char) -> bool {
    hex_char_val(c) >= 0
}

pub proof fn lemma_hex_digit_val(n: int)
    requires
        0 <= n < 16,
    ensures
        hex_char_val(hex_digit(n)) == n,
{
}

/// Two characters with the same nonnegative digit value are the same
/// character.
pub proof fn lemma_hex_char_val_injective(c: char, d: char)
    requires
        hex_char_val(c) == hex_char_val(d),
        hex_char_val(c) >= 0,
    ensures
        c == d,
{
}

/// The lowercase hexadecimal rendering of a byte string: two digit characters
/// for each byte, high nibble first.
pub open spec fn hex_of(bytes: Seq<u8>) -> Seq<char>
    decreases bytes.len(),
{
    if bytes.len() == 0 {
        Seq::empty()
    } else {
        hex_of(bytes.drop_last()) + seq![
            hex_digit(bytes.last() as int / 16),
            hex_digit(bytes.last() as int % 16),
        ]
    }
}

/// Text that is a hexadecimal rendering of some byte string: even length,
/// lowercase hexadecimal digits throughout.
pub open spec fn is_hex_text(s: Seq<char>) -> bool {
    s.len() % 2 == 0 && forall|i: int| 0 <= i < s.len() ==> is_hex_digit(#[trigger] s[i])
}

pub proof fn lemma_hex_of_len(bytes: Seq<u8>)
    ensures
        hex_of(bytes).len() == 2 * bytes.len(),
    decreases bytes.len(),
{
    if bytes.len() > 0 {
        lemma_hex_of_len(bytes.drop_last());
    }
}

pub proof fn lemma_hex_of_is_hex_text(bytes: Seq<u8>)
    ensures
        is_hex_text(hex_of(bytes)),
    decreases bytes.len(),
{
    lemma_hex_of_len(bytes);
    if bytes.len() > 0 {
        lemma_hex_of_is_hex_text(bytes.drop_last());
        lemma_hex_of_len(bytes.drop_last());
    }
}

/// Hexadecimal rendering loses no information: equal renderings come only
/// from equal byte strings.
pub proof fn lemma_hex_of_injective(a: Seq<u8>, b: Seq<u8>)
    requires
        hex_of(a) == hex_of(b),
    ensures
        a == b,
    decreases a.len(),
{
    lemma_hex_of_len(a);
    lemma_hex_of_len(b);
    if a.len() == 0 {
        assert(a =~= b);
    } else {
        let la = a.last();
        let lb = b.last();
        lemma_hex_of_len(a.drop_last());
        lemma_hex_of_len(b.drop_last());
        assert(hex_of(a).last() == hex_digit(la as int % 16));
        assert(hex_of(b).last() == hex_digit(lb as int % 16));
        assert(hex_of(a)[hex_of(a).len() - 2] == hex_digit(la as int / 16));
        assert(hex_of(b)[hex_of(b).len() - 2] == hex_digit(lb as int / 16));
        lemma_hex_digit_val(la as int / 16);
        lemma_hex_digit_val(la as int % 16);
        assert(la as int / 16 == lb as int / 16 && la as int % 16 == lb as int % 16);
        assert(la == lb);
        assert(hex_of(a.drop_last()) =~= hex_of(a).take(hex_of(a).len() - 2));
        assert(hex_of(b.drop_last()) =~= hex_of(b).take(hex_of(b).len() - 2));
        lemma_hex_of_injective(a.drop_last(), b.drop_last());
        assert(a =~= a.drop_last().push(la));
        assert(b =~= b.drop_last().push(lb));
    }
}

/// Sixteen to the power `k`.
pub open spec fn pow16(k: nat) -> int
    decreases k,
{
    if k == 0 {
        1
    } else {
        16 * pow16((k - 1) as nat)
    }
}

pub proof fn lemma_pow16_pos(k: nat)
    ensures
        pow16(k) >= 1,
    decreases k,
{
    if k > 0 {
        lemma_pow16_pos((k - 1) as nat);
    }
}

pub proof fn lemma_pow16_increases(a: nat, b: nat)
    requires
        a <= b,
    ensures
        pow16(a) <= pow16(b),
    decreases b,
{
    if a < b {
        lemma_pow16_increases(a, (b - 1) as nat);
        lemma_pow16_pos((b - 1) as nat);
    }
}

pub proof fn lemma_pow16_vals()
    ensures
        pow16(4) == 0x10000,
        pow16(8) == 0x100000000,
        pow16(12) == 0x1000000000000,
        pow16(16) == 0x10000000000000000,
        pow16(20) == 0x100000000000000000000,
        pow16(24) == 0x1000000000000000000000000,
        pow16(32) == 0x100000000000000000000000000000000,
{
    reveal_with_fuel(pow16, 33);
}

/// The lowercase hexadecimal rendering of `x mod 16^k` in exactly `k` digits,
/// most significant digit first.
pub open spec fn fixed_hex(x: int, k: nat) -> Seq<char>
    recommends
        x >= 0,
    decreases k,
{
    if k == 0 {
        Seq::empty()
    } else {
        fixed_hex(x / 16, (k - 1) as nat) + seq![hex_digit(x % 16)]
    }
}

pub proof fn lemma_fixed_hex_len(x: int, k: nat)
    ensures
        fixed_hex(x, k).len() == k,
    decreases k,
{
    if k > 0 {
        lemma_fixed_hex_len(x / 16, (k - 1) as nat);
    }
}

pub proof fn lemma_fixed_hex_digits(x: int, k: nat)
    requires
        x >= 0,
    ensures
        forall|i: int| 0 <= i < fixed_hex(x, k).len() ==> is_hex_digit(#[trigger] fixed_hex(x, k)[i]),
    decreases k,
{
    lemma_fixed_hex_len(x, k);
    if k > 0 {
        lemma_fixed_hex_digits(x / 16, (k - 1) as nat);
        lemma_fixed_hex_len(x / 16, (k - 1) as nat);
        lemma_hex_digit_val(x % 16);
        assert forall|i: int| 0 <= i < fixed_hex(x, k).len() implies is_hex_digit(
            #[trigger] fixed_hex(x, k)[i],
        ) by {
            if i < k - 1 {
                assert(fixed_hex(x, k)[i] == fixed_hex(x / 16, (k - 1) as nat)[i]);
            } else {
                assert(fixed_hex(x, k)[i] == hex_digit(x % 16));
            }
        }
    }
}

/// Splitting a value at a digit boundary splits its rendering.
pub proof fn lemma_fixed_hex_concat(a: int, b: int, k1: nat, k2: nat)
    requires
        a >= 0,
        0 <= b < pow16(k2),
    ensures
        fixed_hex(a * pow16(k2) + b, k1 + k2) == fixed_hex(a, k1) + fixed_hex(b, k2),
    decreases k2,
{
    if k2 == 0 {
        assert(fixed_hex(a * pow16(k2) + b, k1 + k2) =~= fixed_hex(a, k1) + fixed_hex(b, k2));
    } else {
        let p = pow16((k2 - 1) as nat);
        lemma_pow16_pos((k2 - 1) as nat);
        let x = a * pow16(k2) + b;
        assert(x == a * (16 * p) + b);
        assert(b / 16 < p) by (nonlinear_arith)
            requires
                b < 16 * p,
                b >= 0,
                p > 0,
        ;
        assert(x / 16 == a * p + b / 16 && x % 16 == b % 16) by (nonlinear_arith)
            requires
                x == a * (16 * p) + b,
                a >= 0,
                b >= 0,
                p > 0,
        ;
        lemma_fixed_hex_concat(a, b / 16, k1, (k2 - 1) as nat);
        assert(fixed_hex(x, k1 + k2) =~= fixed_hex(a, k1) + fixed_hex(b, k2));
    }
}

/// Within one digit width, equal renderings come only from equal values.
pub proof fn lemma_fixed_hex_injective(x: int, y: int, k: nat)
    requires
        fixed_hex(x, k) == fixed_hex(y, k),
        0 <= x < pow16(k),
        0 <= y < pow16(k),
    ensures
        x == y,
    decreases k,
{
    if k == 0 {
        assert(pow16(k) == 1);
    } else {
        let p = pow16((k - 1) as nat);
        lemma_pow16_pos((k - 1) as nat);
        lemma_fixed_hex_len(x / 16, (k - 1) as nat);
        lemma_fixed_hex_len(y / 16, (k - 1) as nat);
        assert(fixed_hex(x, k).last() == hex_digit(x % 16));
        assert(fixed_hex(y, k).last() == hex_digit(y % 16));
        lemma_hex_digit_val(x % 16);
        lemma_hex_digit_val(y % 16);
        assert(x % 16 == y % 16);
        assert(fixed_hex(x / 16, (k - 1) as nat) =~= fixed_hex(x, k).take(k - 1));
        assert(fixed_hex(y / 16, (k - 1) as nat) =~= fixed_hex(y, k).take(k - 1));
        assert(x / 16 < p) by (nonlinear_arith)
            requires
                x < 16 * p,
                x >= 0,
                p > 0,
        ;
        assert(y / 16 < p) by (nonlinear_arith)
            requires
                y < 16 * p,
                y >= 0,
                p > 0,
        ;
        lemma_fixed_hex_injective(x / 16, y / 16, (k - 1) as nat);
    }
}

/// Appends the `k`-digit rendering of `v mod 16^k`.
pub fn push_fixed_hex(s: &mut String, v: u128, k: usize)
    requires
        k <= 32,
    ensures
        final(s)@ == old(s)@ + fixed_hex(v as int, k as nat),
    decreases k,
{
    if k > 0 {
        push_fixed_hex(s, v / 16, k - 1);
        push_hex_digit(s, (v % 16) as u8);
        proof {
            assert(s@ =~= old(s)@ + fixed_hex(v as int, k as nat));
        }
    } else {
        proof {
            assert(s@ =~= old(s)@ + fixed_hex(v as int, k as nat));
        }
    }
}

proof fn reveal_hex_digit_literals()
    ensures
        "0"@ =~= seq!['0'],
        "1"@ =~= seq!['1'],
        "2"@ =~= seq!['2'],
        "3"@ =~= seq!['3'],
        "4"@ =~= seq!['4'],
        "5"@ =~= seq!['5'],
        "6"@ =~= seq!['6'],
        "7"@ =~= seq!['7'],
        "8"@ =~= seq!['8'],
        "9"@ =~= seq!['9'],
        "a"@ =~= seq!['a'],
        "b"@ =~= seq!['b'],
        "c"@ =~= seq!['c'],
        "d"@ =~= seq!['d'],
        "e"@ =~= seq!['e'],
        "f"@ =~= seq!['f'],
{
    reveal_strlit("0");
    reveal_strlit("1");
    reveal_strlit("2");
    reveal_strlit("3");
    reveal_strlit("4");
    reveal_strlit("5");
    reveal_strlit("6");
    reveal_strlit("7");
    reveal_strlit("8");
    reveal_strlit("9");
    reveal_strlit("a");
    reveal_strlit("b");
    reveal_strlit("c");
    reveal_strlit("d");
    reveal_strlit("e");
    reveal_strlit("f");
}

/// Appends the digit character for one nibble.
fn push_hex_digit(s: &mut String, nib: u8)
    requires
        nib < 16,
    ensures
        final(s)@ == old(s)@.push(hex_digit(nib as int)),
{
    match nib {
        0 => s.append("0"),
        1 => s.append("1"),
        2 => s.append("2"),
        3 => s.append("3"),
        4 => s.append("4"),
        5 => s.append("5"),
        6 => s.append("6"),
        7 => s.append("7"),
        8 => s.append("8"),
        9 => s.append("9"),
        10 => s.append("a"),
        11 => s.append("b"),
        12 => s.append("c"),
        13 => s.append("d"),
        14 => s.append("e"),
        _ => s.append("f"),
    }
    proof {
        reveal_hex_digit_literals();
        assert(s@ =~= old(s)@.push(hex_digit(nib as int)));
    }
}

/// Renders a byte string as lowercase hexadecimal text.
pub fn hex_encode(bytes: &Vec<u8>) -> (r: String)
    ensures
        r@ == hex_of(bytes@),
{
    let mut r = String::new();
    let mut i: usize = 0;
    while i < bytes.len()
        invariant
            i <= bytes.len(),
            r@ == hex_of(bytes@.take(i as int)),
        decreases bytes.len() - i,
    {
        let b = bytes[i];
        push_hex_digit(&mut r, b / 16);
        push_hex_digit(&mut r, b % 16);
        proof {
            let pre = bytes@.take(i as int + 1);
            assert(pre.drop_last() =~= bytes@.take(i as int));
            assert(pre.last() == b);
            assert(r@ =~= hex_of(pre));
        }
        i = i + 1;
    }
    proof {
        assert(bytes@.take(bytes@.len() as int) =~= bytes@);
    }
    r
}

/// The value of one hexadecimal digit character, or `None` for any other
/// character.
pub(crate) fn hex_digit_value(c: char) -> (r: Option<u8>)
    ensures
        match r {
            Some(v) => v < 16 && hex_char_val(c) == v as int,
            None => !is_hex_digit(c),
        },
{
    match c {
        '0' => Some(0),
        '1' => Some(1),
        '2' => Some(2),
        '3' => Some(3),
        '4' => Some(4),
        '5' => Some(5),
        '6' => Some(6),
        '7' => Some(7),
        '8' => Some(8),
        '9' => Some(9),
        'a' => Some(10),
        'b' => Some(11),
        'c' => Some(12),
        'd' => Some(13),
        'e' => Some(14),
        'f' => Some(15),
        _ => None,
    }
}

/// Reads lowercase hexadecimal text back into the byte string it renders.
/// Succeeds exactly on well-formed hexadecimal text.
pub fn hex_decode(s: &str) -> (r: Option<Vec<u8>>)
    ensures
        r is Some <==> is_hex_text(s@),
        r matches Some(b) ==> hex_of(b@) == s@,
{
    let n = s.unicode_len();
    if n % 2 != 0 {
        return None;
    }
    let mut out: Vec<u8> = Vec::new();
    let mut i: usize = 0;
    while i < n
        invariant
            s@.len() == n,
            n % 2 == 0,
            i % 2 == 0,
            i <= n,
            hex_of(out@) == s@.take(i as int),
            out@.len() * 2 == i,
        decreases n - i,
    {
        let hi = match hex_digit_value(s.get_char(i)) {
            Some(v) => v,
            None => {
                assert(!is_hex_digit(s@[i as int]));
                return None;
            },
        };
        let lo = match hex_digit_value(s.get_char(i + 1)) {
            Some(v) => v,
            None => {
                assert(!is_hex_digit(s@[i as int + 1]));
                return None;
            },
        };
        let b = hi * 16 + lo;
        let ghost prev = out@;
        out.push(b);
        proof {
            assert(out@.drop_last() =~= prev);
            assert(b as int / 16 == hi as int && b as int % 16 == lo as int);
            assert(hex_of(out@) == hex_of(prev) + seq![
                hex_digit(b as int / 16),
                hex_digit(b as int % 16),
            ]);
            assert(hex_digit(b as int / 16) == s@[i as int]) by {
                lemma_hex_digit_val(hi as int);
                lemma_hex_char_val_injective(hex_digit(hi as int), s@[i as int]);
            }
            assert(hex_digit(b as int % 16) == s@[i as int + 1]) by {
                lemma_hex_digit_val(lo as int);
                lemma_hex_char_val_injective(hex_digit(lo as int), s@[i as int + 1]);
            }
            assert(hex_of(out@) =~= s@.take(i as int + 2));
        }
        i = i + 2;
    }
    proof {
        assert(s@.take(n as int) =~= s@);
        lemma_hex_of_is_hex_text(out@);
    }
    Some(out)
}

} // verus!
