//! Hexadecimal numerals: rendering an unsigned value as a lowercase hex
//! numeral without padding, and reading a numeral back as a `u32`.

use vstd::prelude::*;

use crate::text::push_char;

verus! {

/// The characters accepted as one hexadecimal digit: `0-9`, `a-f`, `A-F`.
pub open spec fn is_hex_digit(c: char) -> bool {
    ('0' as u32 <= c as u32 && c as u32 <= '9' as u32) || ('a' as u32 <= c as u32 && c as u32
        <= 'f' as u32) || ('A' as u32 <= c as u32 && c as u32 <= 'F' as u32)
}

/// The numeric value of one hexadecimal digit character (0 for others).
pub open spec fn hex_digit_val(c: char) -> nat {
    if '0' as u32 <= c as u32 && c as u32 <= '9' as u32 {
        (c as u32 - '0' as u32) as nat
    } else if 'a' as u32 <= c as u32 && c as u32 <= 'f' as u32 {
        (c as u32 - 'a' as u32 + 10) as nat
    } else if 'A' as u32 <= c as u32 && c as u32 <= 'F' as u32 {
        (c as u32 - 'A' as u32 + 10) as nat
    } else {
        0
    }
}

/// The lowercase digit character for a value below sixteen ('0' for others).
pub open spec fn hex_digit(d: nat) -> char {
    if d == 0 {
        '0'
    } else if d == 1 {
        '1'
    } else if d == 2 {
        '2'
    } else if d == 3 {
        '3'
    } else if d == 4 {
        '4'
    } else if d == 5 {
        '5'
    } else if d == 6 {
        '6'
    } else if d == 7 {
        '7'
    } else if d == 8 {
        '8'
    } else if d == 9 {
        '9'
    } else if d == 10 {
        'a'
    } else if d == 11 {
        'b'
    } else if d == 12 {
        'c'
    } else if d == 13 {
        'd'
    } else if d == 14 {
        'e'
    } else if d == 15 {
        'f'
    } else {
        '0'
    }
}

/// The lowercase hexadecimal numeral of `n`, most significant digit first,
/// with no leading zeros (a single `'0'` for zero) and no prefix.
pub open spec fn hex_of(n: nat) -> Seq<char>
    decreases n,
{
    if n < 16 {
        seq![hex_digit(n)]
    } else {
        hex_of(n / 16).push(hex_digit(n % 16))
    }
}

/// The value of a sequence of hexadecimal digit characters, read base 16.
pub open spec fn hex_val(s: Seq<char>) -> nat
    decreases s.len(),
{
    if s.len() == 0 {
        0
    } else {
        hex_val(s.drop_last()) * 16 + hex_digit_val(s.last())
    }
}

/// The lowercase digit character for a value below sixteen.
fn hex_digit_char(d: u32) -> (c: char)
    requires
        d < 16,
    ensures
        c == hex_digit(d as nat),
{
    if d == 0 {
        '0'
    } else if d == 1 {
        '1'
    } else if d == 2 {
        '2'
    } else if d == 3 {
        '3'
    } else if d == 4 {
        '4'
    } else if d == 5 {
        '5'
    } else if d == 6 {
        '6'
    } else if d == 7 {
        '7'
    } else if d == 8 {
        '8'
    } else if d == 9 {
        '9'
    } else if d == 10 {
        'a'
    } else if d == 11 {
        'b'
    } else if d == 12 {
        'c'
    } else if d == 13 {
        'd'
    } else if d == 14 {
        'e'
    } else {
        'f'
    }
}

/// Renders `n` as its lowercase hexadecimal numeral, without padding and
/// without a prefix: `0 -> "0"`, `127 -> "7f"`.
pub fn render_hex(n: u32) -> (r: String)
    ensures
        r@ == hex_of(n as nat),
    decreases n,
{
    if n < 16 {
        let mut s = String::new();
        push_char(&mut s, hex_digit_char(n));
        proof {
            assert(s@ =~= hex_of(n as nat));
        }
        s
    } else {
        let mut s = render_hex(n / 16);
        push_char(&mut s, hex_digit_char(n % 16));
        s
    }
}

/// A longer run of hexadecimal digits never denotes a smaller value.
proof fn lemma_hex_val_prefix_le(s: Seq<char>, i: int, j: int)
    requires
        0 <= i <= j <= s.len(),
    ensures
        hex_val(s.take(i)) <= hex_val(s.take(j)),
    decreases j - i,
{
    if i < j {
        lemma_hex_val_prefix_le(s, i + 1, j);
        assert(s.take(i + 1).drop_last() =~= s.take(i));
        assert(hex_val(s.take(i + 1)) == hex_val(s.take(i)) * 16 + hex_digit_val(s.take(i + 1).last()));
    }
}

/// Reads a hexadecimal numeral as a `u32`. Returns the value exactly when the
/// string is non-empty, every character is a hexadecimal digit (either case),
/// and the value fits in 32 bits; returns nothing otherwise.
pub fn parse_hex(s: &str) -> (r: Option<u32>)
    ensures
        r is Some <==> s@.len() > 0 && (forall|k: int|
            0 <= k < s@.len() ==> is_hex_digit(#[trigger] s@[k])) && hex_val(s@) <= u32::MAX,
        r matches Some(v) ==> v == hex_val(s@),
{
    let n: usize = s.unicode_len();
    if n == 0 {
        return None;
    }
    let mut acc: u32 = 0;
    let mut i: usize = 0;
    while i < n
        invariant
            n == s@.len(),
            0 <= i <= n,
            forall|k: int| 0 <= k < i ==> is_hex_digit(#[trigger] s@[k]),
            acc == hex_val(s@.take(i as int)),
        decreases n - i,
    {
        let c = s.get_char(i);
        let cv = c as u32;
        proof {
            assert(s@.take(i + 1).drop_last() =~= s@.take(i as int));
            assert(s@.take(i + 1).last() == s@[i as int]);
        }
        let d: u32 = if 48 <= cv && cv <= 57 {
            cv - 48
        } else if 97 <= cv && cv <= 102 {
            cv - 97 + 10
        } else if 65 <= cv && cv <= 70 {
            cv - 65 + 10
        } else {
            proof {
                assert(!is_hex_digit(s@[i as int]));
            }
            return None;
        };
        proof {
            assert(d == hex_digit_val(s@[i as int]));
        }
        let wide: u64 = acc as u64 * 16 + d as u64;
        if wide > u32::MAX as u64 {
            proof {
                assert(hex_val(s@.take(i + 1)) > u32::MAX);
                lemma_hex_val_prefix_le(s@, i + 1, n as int);
                assert(s@.take(n as int) =~= s@);
            }
            return None;
        }
        acc = wide as u32;
        i = i + 1;
    }
    proof {
        assert(s@.take(n as int) =~= s@);
    }
    Some(acc)
}

/// Law: hexadecimal rendering is lossless. Re-reading the numeral rendered
/// for any 32-bit value gives back that value, and every character of the
/// numeral is a hexadecimal digit.
pub proof fn lemma_hex_round_trip(n: u32)
    ensures
        forall|k: int| 0 <= k < hex_of(n as nat).len() ==> is_hex_digit(#[trigger] hex_of(n as nat)[k]),
        hex_val(hex_of(n as nat)) == n,
    decreases n,
{
    if n < 16 {
        assert(hex_of(n as nat) == seq![hex_digit(n as nat)]);
        assert(hex_of(n as nat).drop_last() =~= Seq::<char>::empty());
        assert(hex_val(hex_of(n as nat)) == hex_val(Seq::<char>::empty()) * 16 + hex_digit_val(
            hex_digit(n as nat)));
        assert(hex_digit_val(hex_digit(n as nat)) == n);
    } else {
        lemma_hex_round_trip(n / 16);
        assert(hex_of(n as nat) == hex_of((n / 16) as nat).push(hex_digit((n % 16) as nat)));
        assert(hex_of(n as nat).drop_last() =~= hex_of((n / 16) as nat));
        assert(hex_val(hex_of(n as nat)) == hex_val(hex_of((n / 16) as nat)) * 16 + hex_digit_val(
            hex_digit((n % 16) as nat)));
        assert(hex_digit_val(hex_digit((n % 16) as nat)) == n % 16);
        assert((n / 16) * 16 + n % 16 == n) by (nonlinear_arith);
        assert(forall|k: int|
            0 <= k < hex_of(n as nat).len() ==> is_hex_digit(#[trigger] hex_of(n as nat)[k]));
    }
}

} // verus!
