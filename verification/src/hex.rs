//! Hexadecimal generation suffixes: parsing the suffix of a topic file name
//! and formatting a generation number as 16 lowercase hex digits.
use vstd::prelude::*;

use crate::er::Er;

verus! {

/// The value of a hex digit; 16 stands for "not a hex digit".
pub open spec fn hex_char_value(c: char) -> int {
    if c == '0' {
        0
    } else if c == '1' {
        1
    } else if c == '2' {
        2
    } else if c == '3' {
        3
    } else if c == '4' {
        4
    } else if c == '5' {
        5
    } else if c == '6' {
        6
    } else if c == '7' {
        7
    } else if c == '8' {
        8
    } else if c == '9' {
        9
    } else if c == 'a' || c == 'A' {
        10
    } else if c == 'b' || c == 'B' {
        11
    } else if c == 'c' || c == 'C' {
        12
    } else if c == 'd' || c == 'D' {
        13
    } else if c == 'e' || c == 'E' {
        14
    } else if c == 'f' || c == 'F' {
        15
    } else {
        16
    }
}

/// Whether `c` is a hex digit, upper or lower case.
pub open spec fn is_hex_digit(c: char) -> bool {
    hex_char_value(c) < 16
}

/// The number a sequence of hex digits stands for, most significant first.
pub open spec fn hex_value(s: Seq<char>) -> int
    decreases s.len(),
{
    if s.len() == 0 {
        0
    } else {
        16 * hex_value(s.drop_last()) + hex_char_value(s.last())
    }
}

/// Whether `s` is a non-empty run of hex digits whose value fits in a `u64`.
pub open spec fn valid_hex_u64(s: Seq<char>) -> bool {
    &&& s.len() > 0
    &&& (forall|i: int| 0 <= i < s.len() ==> is_hex_digit(#[trigger] s[i]))
    &&& hex_value(s) <= u64::MAX
}

/// Hex values never go negative.
pub proof fn lemma_hex_value_nonneg(s: Seq<char>)
    ensures
        hex_value(s) >= 0,
    decreases s.len(),
{
    if s.len() > 0 {
        lemma_hex_value_nonneg(s.drop_last());
    }
}

/// Extending a run of hex digits never shrinks its value.
pub proof fn lemma_hex_value_prefix_le(s: Seq<char>, k: int)
    requires
        0 <= k <= s.len(),
    ensures
        hex_value(s.take(k)) <= hex_value(s),
    decreases s.len() - k,
{
    if k == s.len() {
        assert(s.take(k) =~= s);
    } else {
        lemma_hex_value_prefix_le(s.drop_last(), k);
        assert(s.drop_last().take(k) =~= s.take(k));
        lemma_hex_value_nonneg(s.drop_last());
    }
}

/// The value of a hex digit; 16 stands for "not a hex digit".
fn hex_digit(c: char) -> (d: u8)
    ensures
        d == hex_char_value(c),
{
    match c {
        '0' => 0,
        '1' => 1,
        '2' => 2,
        '3' => 3,
        '4' => 4,
        '5' => 5,
        '6' => 6,
        '7' => 7,
        '8' => 8,
        '9' => 9,
        'a' | 'A' => 10,
        'b' | 'B' => 11,
        'c' | 'C' => 12,
        'd' | 'D' => 13,
        'e' | 'E' => 14,
        'f' | 'F' => 15,
        _ => 16,
    }
}

/// Parses the characters of `s` from position `from` to the end as a hex
/// number: the digits' value when they are a non-empty run of hex digits
/// fitting a `u64`, and `BadOffset` otherwise.
pub fn parse_hex_u64(s: &str, from: usize) -> (r: Result<u64, Er>)
    requires
        from <= s@.len(),
        s@.len() <= usize::MAX,
    ensures
        r matches Ok(v) ==> valid_hex_u64(s@.skip(from as int)) && v == hex_value(
            s@.skip(from as int),
        ),
        r is Err ==> !valid_hex_u64(s@.skip(from as int)) && r == Err::<u64, Er>(Er::BadOffset),
{
    let ghost suffix = s@.skip(from as int);
    let n = s.unicode_len();
    if from == n {
        return Err(Er::BadOffset);
    }
    let mut acc: u64 = 0;
    let mut i: usize = from;
    while i < n
        invariant
            from <= i <= n,
            n == s@.len(),
            suffix == s@.skip(from as int),
            acc == hex_value(s@.subrange(from as int, i as int)),
            forall|j: int| from <= j < i ==> is_hex_digit(#[trigger] s@[j]),
        decreases n - i,
    {
        let c = s.get_char(i);
        let d = hex_digit(c);
        if d >= 16 {
            proof {
                assert(suffix[i - from] == s@[i as int]);
            }
            return Err(Er::BadOffset);
        }
        if acc > (u64::MAX - d as u64) / 16 {
            proof {
                let p = s@.subrange(from as int, i + 1);
                assert(p.drop_last() =~= s@.subrange(from as int, i as int));
                assert(hex_value(p) == 16 * acc + d);
                assert(16 * acc + d > u64::MAX) by (nonlinear_arith)
                    requires
                        acc > (u64::MAX - d as u64) / 16,
                        d < 16,
                ;
                assert(suffix.take(i + 1 - from) =~= p);
                lemma_hex_value_prefix_le(suffix, i + 1 - from);
            }
            return Err(Er::BadOffset);
        }
        proof {
            let p = s@.subrange(from as int, i + 1);
            assert(p.drop_last() =~= s@.subrange(from as int, i as int));
            assert(16 * acc + d <= u64::MAX) by (nonlinear_arith)
                requires
                    acc <= (u64::MAX - d as u64) / 16,
                    d < 16,
            ;
        }
        acc = 16 * acc + d as u64;
        i = i + 1;
    }
    proof {
        assert(s@.subrange(from as int, n as int) =~= suffix);
    }
    Ok(acc)
}

/// The spec character for a digit value.
pub open spec fn hex_digit_char(d: int) -> char {
    if d == 0 {
        '0'
    } else if d == 1 {
        '1'
    } else if d == 2 {
        '2'
    } else if d == 3 {
        '3'
    } else if d == 4 {
        '4'
    } else if d == 5 {
        '5'
    } else if d == 6 {
        '6'
    } else if d == 7 {
        '7'
    } else if d == 8 {
        '8'
    } else if d == 9 {
        '9'
    } else if d == 10 {
        'a'
    } else if d == 11 {
        'b'
    } else if d == 12 {
        'c'
    } else if d == 13 {
        'd'
    } else if d == 14 {
        'e'
    } else if d == 15 {
        'f'
    } else {
        '?'
    }
}

/// Sixteen to the power `k`.
pub open spec fn pow16(k: int) -> int
    decreases k,
{
    if k <= 0 {
        1
    } else {
        16 * pow16(k - 1)
    }
}

/// The 16 lowercase hex digits of `v`, most significant first.
pub open spec fn hex16(v: u64) -> Seq<char> {
    Seq::new(16, |i: int| hex_digit_char((v as int / pow16(15 - i)) % 16))
}

/// The value of the first `k` digits of `v`'s hex form: the number with the
/// last `16 - k` digits shifted out.
proof fn lemma_hex16_prefix(v: u64, k: int)
    requires
        0 <= k <= 16,
    ensures
        hex_value(hex16(v).take(k)) == v as int / pow16(16 - k),
    decreases k,
{
    if k == 0 {
        assert(hex16(v).take(0) =~= Seq::<char>::empty());
        assert(pow16(16) == 0x10000000000000000) by {
            reveal_with_fuel(pow16, 17);
        }
        assert(v as int / pow16(16) == 0) by (nonlinear_arith)
            requires
                0 <= v < pow16(16),
        ;
    } else {
        lemma_hex16_prefix(v, k - 1);
        let s = hex16(v);
        assert(s.take(k).drop_last() =~= s.take(k - 1));
        let a = pow16(16 - k);
        let d = (v as int / a) % 16;
        assert(s.take(k).last() == hex_digit_char(d));
        assert(hex_char_value(hex_digit_char(d)) == d);
        assert(pow16(17 - k) == 16 * a);
        assert(a > 0) by {
            lemma_pow16_pos(16 - k);
        }
        vstd::arithmetic::div_mod::lemma_div_denominator(v as int, a, 16);
        assert(16 * ((v as int / a) / 16) + (v as int / a) % 16 == v as int / a)
            by (nonlinear_arith)
            requires
                a > 0,
        ;
    }
}

/// Sixteen to any power is positive.
proof fn lemma_pow16_pos(k: int)
    ensures
        pow16(k) > 0,
    decreases
            (if k <= 0 {
                0int
            } else {
                k
            }),
{
    if k > 0 {
        lemma_pow16_pos(k - 1);
    }
}

/// Formatting a number and parsing the digits back gives the number: the 16
/// hex digits of `v` are a valid hex run whose value is `v`.
pub proof fn lemma_hex16_round_trip(v: u64)
    ensures
        valid_hex_u64(hex16(v)),
        hex_value(hex16(v)) == v,
{
    lemma_hex16_prefix(v, 16);
    assert(hex16(v).take(16) =~= hex16(v));
    assert(pow16(0) == 1);
    assert forall|i: int| 0 <= i < hex16(v).len() implies is_hex_digit(#[trigger] hex16(v)[i]) by {
        let d = (v as int / pow16(15 - i)) % 16;
        lemma_pow16_pos(15 - i);
        assert(0 <= d < 16);
        assert(hex_char_value(hex_digit_char(d)) == d);
    }
}

/// A one-character string for a digit value below 16.
fn hex_digit_str(d: u64) -> (r: &'static str)
    requires
        d < 16,
    ensures
        r@ == seq![hex_digit_char(d as int)],
{
    proof {
        reveal_strlit("0");
        reveal_strlit("1");
        reveal_strlit("2");
        reveal_strlit("3");
        reveal_strlit("4");
        reveal_strlit("5");
        reveal_strlit("6");
        reveal_strlit("7");
        reveal_strlit("8");
        reveal_strlit("9");
        reveal_strlit("a");
        reveal_strlit("b");
        reveal_strlit("c");
        reveal_strlit("d");
        reveal_strlit("e");
        reveal_strlit("f");
    }
    match d {
        0 => "0",
        1 => "1",
        2 => "2",
        3 => "3",
        4 => "4",
        5 => "5",
        6 => "6",
        7 => "7",
        8 => "8",
        9 => "9",
        10 => "a",
        11 => "b",
        12 => "c",
        13 => "d",
        14 => "e",
        _ => "f",
    }
}

/// Formats `v` as its 16 lowercase hex digits, most significant first.
pub fn format_hex16(v: u64) -> (r: String)
    ensures
        r@ == hex16(v),
        r@.len() == 16,
{
    let mut s = String::new();
    let mut p: u64 = 0x1000000000000000;
    let mut i: usize = 0;
    proof {
        assert(p == pow16(15)) by {
            reveal_with_fuel(pow16, 17);
        }
    }
    while i < 16
        invariant
            i <= 16,
            s@ == hex16(v).take(i as int),
            i < 16 ==> p == pow16(15 - i),
            i < 16 ==> p >= 1,
        decreases 16 - i,
    {
        let d = (v / p) % 16;
        s.append(hex_digit_str(d));
        proof {
            assert(s@ =~= hex16(v).take(i + 1));
            if i + 1 < 16 {
                assert(pow16(15 - i) == 16 * pow16(15 - (i + 1)));
                vstd::arithmetic::div_mod::lemma_div_denominator(
                    p as int,
                    16,
                    pow16(15 - (i + 1)),
                );
            }
        }
        p = p / 16;
        i = i + 1;
    }
    proof {
        assert(hex16(v).take(16) =~= hex16(v));
    }
    s
}

} // verus!
