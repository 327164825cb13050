//! Hexadecimal and decimal text helpers used by the wire codec.
use vstd::prelude::*;

verus! {

/// Character for a nibble value: `0`-`9` then `a`-`f`.
pub open spec fn spec_digit(n: u8) -> char
    recommends
        n < 16,
{
    if n < 10 {
        (n + 48) as char
    } else {
        (n + 87) as char
    }
}

/// Hex text of a byte sequence, two lower-case digits per byte.
pub open spec fn spec_hex(b: Seq<u8>) -> Seq<char>
    decreases b.len(),
{
    if b.len() == 0 {
        Seq::empty()
    } else {
        spec_hex(b.drop_last()) + seq![spec_digit(b.last() / 16), spec_digit(b.last() % 16)]
    }
}

/// Nibble value of a hex digit, upper or lower case.
pub open spec fn spec_nibble(c: char) -> Option<u8> {
    if '0' <= c && c <= '9' {
        Some((c as u8 - 48) as u8)
    } else if 'a' <= c && c <= 'f' {
        Some((c as u8 - 87) as u8)
    } else if 'A' <= c && c <= 'F' {
        Some((c as u8 - 55) as u8)
    } else {
        None
    }
}

/// Bytes denoted by a hex text: `None` unless every character is a hex digit
/// and their count is even.
pub open spec fn spec_unhex(s: Seq<char>) -> Option<Seq<u8>>
    decreases s.len(),
{
    if s.len() % 2 != 0 {
        None
    } else if s.len() == 0 {
        Some(Seq::empty())
    } else {
        match (spec_unhex(s.drop_last().drop_last()), spec_nibble(s[s.len() - 2]), spec_nibble(
            s.last(),
        )) {
            (Some(rest), Some(hi), Some(lo)) => Some(rest + seq![(hi * 16 + lo) as u8]),
            _ => None,
        }
    }
}

/// Digit character of a nibble.
pub fn digit(n: u8) -> (c: char)
    requires
        n < 16,
    ensures
        c == spec_digit(n),
{
    if n < 10 {
        (n + 48) as char
    } else {
        (n + 87) as char
    }
}

/// Appends the hex text of `b` to `out`.
pub fn push_hex(b: &Vec<u8>, out: &mut Vec<char>)
    ensures
        final(out)@ == old(out)@ + spec_hex(b@),
{
    let mut i: usize = 0;
    while i < b.len()
        invariant
            i <= b.len(),
            out@ == old(out)@ + spec_hex(b@.take(i as int)),
        decreases b.len() - i,
    {
        let x = b[i];
        out.push(digit(x / 16));
        out.push(digit(x % 16));
        proof {
            let t = b@.take(i + 1 as int);
            assert(t.drop_last() =~= b@.take(i as int));
            assert(t.last() == b@[i as int]);
            assert(out@ =~= old(out)@ + spec_hex(b@.take(i + 1 as int)));
        }
        i = i + 1;
    }
    proof {
        assert(b@.take(b@.len() as int) =~= b@);
    }
}

/// Nibble value of one character.
pub fn nibble(c: char) -> (r: Option<u8>)
    ensures
        r == spec_nibble(c),
{
    let u = c as u32;
    if 48 <= u && u <= 57 {
        Some((u - 48) as u8)
    } else if 97 <= u && u <= 102 {
        Some((u - 87) as u8)
    } else if 65 <= u && u <= 70 {
        Some((u - 55) as u8)
    } else {
        None
    }
}

/// Decodes hex text into bytes; `None` on odd length or a stray character.
pub fn unhex(s: &Vec<char>) -> (r: Option<Vec<u8>>)
    ensures
        match r {
            Some(b) => spec_unhex(s@) == Some(b@),
            None => spec_unhex(s@) is None,
        },
{
    if s.len() % 2 != 0 {
        return None;
    }
    let mut out: Vec<u8> = Vec::new();
    let mut i: usize = 0;
    while i < s.len()
        invariant
            i <= s.len(),
            i % 2 == 0,
            s.len() % 2 == 0,
            spec_unhex(s@.take(i as int)) == Some(out@),
        decreases s.len() - i,
    {
        let hi = nibble(s[i]);
        let lo = nibble(s[i + 1]);
        match (hi, lo) {
            (Some(h), Some(l)) => {
                out.push(h * 16 + l);
            },
            _ => {
                proof {
                    lemma_unhex_prefix_none(s@, i + 2);
                }
                return None;
            },
        }
        proof {
            let t = s@.take(i + 2);
            assert(t.drop_last().drop_last() =~= s@.take(i as int));
            assert(t[t.len() - 2] == s@[i as int]);
            assert(t.last() == s@[i + 1]);
            assert(spec_unhex(s@.take(i + 2)) == Some(out@));
        }
        i = i + 2;
    }
    proof {
        assert(s@.take(s@.len() as int) =~= s@);
    }
    Some(out)
}

/// A failed digit inside the prefix spoils the whole text.
proof fn lemma_unhex_prefix_none(s: Seq<char>, i: int)
    requires
        0 <= i <= s.len(),
        i % 2 == 0,
        s.len() % 2 == 0,
        spec_unhex(s.take(i)) is None,
    ensures
        spec_unhex(s) is None,
    decreases s.len() - i,
{
    if i < s.len() {
        let t = s.take(i + 2);
        assert(t.drop_last().drop_last() =~= s.take(i));
        lemma_unhex_prefix_none(s, i + 2);
    } else {
        assert(s.take(i) =~= s);
    }
}

/// A digit character's code: decimal digits, then lower-case letters.
pub proof fn lemma_digit_code(n: u8)
    requires
        n < 16,
    ensures
        48 <= spec_digit(n) as u32 <= 57 || 97 <= spec_digit(n) as u32 <= 102,
{
    if n < 10 {
        assert(spec_digit(n) == (n + 48) as char);
        assert((n + 48) as char as u32 == n + 48);
    } else {
        assert(spec_digit(n) == (n + 87) as char);
        assert((n + 87) as char as u32 == n + 87);
    }
}

/// Hex text consists of digits and lower-case letters only.
pub proof fn lemma_hex_chars(b: Seq<u8>)
    ensures
        forall|i: int|
            0 <= i < spec_hex(b).len() ==> (48 <= (#[trigger] spec_hex(b)[i]) as u32 <= 57 || 97
                <= spec_hex(b)[i] as u32 <= 102),
    decreases b.len(),
{
    if b.len() > 0 {
        lemma_hex_chars(b.drop_last());
        let t = spec_hex(b);
        let p = spec_hex(b.drop_last());
        assert forall|i: int| 0 <= i < t.len() implies (48 <= (#[trigger] t[i]) as u32 <= 57 || 97
            <= t[i] as u32 <= 102) by {
            if i < p.len() {
                assert(t[i] == p[i]);
            } else if i == p.len() {
                assert(t[i] == spec_digit(b.last() / 16));
                lemma_digit_code(b.last() / 16);
            } else {
                assert(t[i] == spec_digit(b.last() % 16));
                lemma_digit_code(b.last() % 16);
            }
        }
    }
}

/// Decimal text of a natural number, most significant digit first.
pub open spec fn spec_dec(n: nat) -> Seq<char>
    decreases n,
{
    if n < 10 {
        seq![spec_digit(n as u8)]
    } else {
        spec_dec(n / 10) + seq![spec_digit((n % 10) as u8)]
    }
}

/// Decimal text of an integer, `-` sign first when negative.
pub open spec fn spec_dec_int(n: int) -> Seq<char> {
    if n < 0 {
        seq!['-'] + spec_dec((-n) as nat)
    } else {
        spec_dec(n as nat)
    }
}

/// Appends the decimal text of `n` to `out`.
pub fn push_dec(n: u64, out: &mut Vec<char>)
    ensures
        final(out)@ == old(out)@ + spec_dec(n as nat),
{
    let mut digits: Vec<char> = Vec::new();
    let mut rest: u64 = n / 10;
    digits.push(digit((n % 10) as u8));
    proof {
        assert(rest == 0 ==> digits@ =~= spec_dec(n as nat));
        assert(rest > 0 ==> spec_dec(n as nat) =~= spec_dec(rest as nat) + digits@);
    }
    while rest > 0
        invariant
            spec_dec(n as nat) == if rest > 0 {
                spec_dec(rest as nat) + digits@
            } else {
                digits@
            },
        decreases rest,
    {
        let d = digit((rest % 10) as u8);
        let next: u64 = rest / 10;
        digits.insert(0, d);
        proof {
            assert(next > 0 ==> spec_dec(rest as nat) =~= spec_dec(next as nat) + seq![
                spec_digit((rest % 10) as u8),
            ]);
            assert(next > 0 ==> spec_dec(n as nat) =~= spec_dec(next as nat) + digits@);
            assert(next == 0 ==> spec_dec(rest as nat) =~= seq![spec_digit((rest % 10) as u8)]);
            assert(next == 0 ==> spec_dec(n as nat) =~= digits@);
        }
        rest = next;
    }
    let mut j: usize = 0;
    while j < digits.len()
        invariant
            j <= digits.len(),
            out@ == old(out)@ + digits@.take(j as int),
        decreases digits.len() - j,
    {
        out.push(digits[j]);
        proof {
            assert(digits@.take(j + 1 as int) =~= digits@.take(j as int) + seq![digits@[j as int]]);
        }
        j = j + 1;
    }
    proof {
        assert(digits@.take(digits@.len() as int) =~= digits@);
    }
}

/// Appends the decimal text of a signed number to `out`.
pub fn push_dec_i64(n: i64, out: &mut Vec<char>)
    ensures
        final(out)@ == old(out)@ + spec_dec_int(n as int),
{
    if n < 0 {
        out.push('-');
        let mag: u64 = if n == i64::MIN {
            9223372036854775808u64
        } else {
            (-n) as u64
        };
        push_dec(mag, out);
    } else {
        push_dec(n as u64, out);
    }
}

} // verus!
