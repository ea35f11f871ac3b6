use vstd::prelude::*;
use vstd::string::StrSliceExecFns;

verus! {

/// Relies on String::push: appends exactly the one given character.
#[verifier::external_body]
pub fn push_char(s: &mut String, c: char)
    ensures
        final(s)@ == old(s)@.push(c),
{
    s.push(c);
}

/// The character a decimal digit is written as.
pub open spec fn spec_digit_char(d: int) -> char {
    if d == 0 {
        '0'
    } else if d == 1 {
        '1'
    } else if d == 2 {
        '2'
    } else if d == 3 {
        '3'
    } else if d == 4 {
        '4'
    } else if d == 5 {
        '5'
    } else if d == 6 {
        '6'
    } else if d == 7 {
        '7'
    } else if d == 8 {
        '8'
    } else {
        '9'
    }
}

/// Whether a character is a decimal digit.
pub open spec fn spec_is_digit(c: char) -> bool {
    c == '0' || c == '1' || c == '2' || c == '3' || c == '4' || c == '5' || c == '6' || c == '7'
        || c == '8' || c == '9'
}

/// The value of a decimal digit character; zero for any other character.
pub open spec fn spec_digit_val(c: char) -> int {
    if c == '1' {
        1
    } else if c == '2' {
        2
    } else if c == '3' {
        3
    } else if c == '4' {
        4
    } else if c == '5' {
        5
    } else if c == '6' {
        6
    } else if c == '7' {
        7
    } else if c == '8' {
        8
    } else if c == '9' {
        9
    } else {
        0
    }
}

/// The decimal writing of a number, most significant digit first, with no
/// leading zero except for the number zero itself.
pub open spec fn spec_dec_digits(n: nat) -> Seq<char>
    decreases n,
{
    if n < 10 {
        seq![spec_digit_char(n as int)]
    } else {
        spec_dec_digits(n / 10).push(spec_digit_char((n % 10) as int))
    }
}

/// The character a digit below ten is written as.
pub fn digit_char(d: u32) -> (c: char)
    requires
        d < 10,
    ensures
        c == spec_digit_char(d as int),
{
    if d == 0 {
        '0'
    } else if d == 1 {
        '1'
    } else if d == 2 {
        '2'
    } else if d == 3 {
        '3'
    } else if d == 4 {
        '4'
    } else if d == 5 {
        '5'
    } else if d == 6 {
        '6'
    } else if d == 7 {
        '7'
    } else if d == 8 {
        '8'
    } else {
        '9'
    }
}

/// The value of a decimal digit character, or `None` for any other character.
pub fn digit_val(c: char) -> (r: Option<u32>)
    ensures
        (r is Some) <==> spec_is_digit(c),
        (r is Some) ==> r.unwrap() == spec_digit_val(c) && r.unwrap() < 10,
{
    if c == '0' {
        Some(0)
    } else if c == '1' {
        Some(1)
    } else if c == '2' {
        Some(2)
    } else if c == '3' {
        Some(3)
    } else if c == '4' {
        Some(4)
    } else if c == '5' {
        Some(5)
    } else if c == '6' {
        Some(6)
    } else if c == '7' {
        Some(7)
    } else if c == '8' {
        Some(8)
    } else if c == '9' {
        Some(9)
    } else {
        None
    }
}

/// Writes a number in decimal.
pub fn render_u32(n: u32) -> (r: String)
    ensures
        r@ == spec_dec_digits(n as nat),
    decreases n,
{
    if n < 10 {
        let mut s = String::new();
        push_char(&mut s, digit_char(n));
        proof {
            assert(s@ =~= spec_dec_digits(n as nat));
        }
        s
    } else {
        let mut s = render_u32(n / 10);
        push_char(&mut s, digit_char(n % 10));
        s
    }
}

/// Whether a string is digits throughout.
pub open spec fn spec_all_digits(s: Seq<char>) -> bool {
    forall|i: int| 0 <= i < s.len() ==> spec_is_digit(#[trigger] s[i])
}

/// The value of a string read as a decimal number, non-digits counting zero.
pub open spec fn spec_digits_val(s: Seq<char>) -> int
    decreases s.len(),
{
    if s.len() == 0 {
        0
    } else {
        spec_digits_val(s.drop_last()) * 10 + spec_digit_val(s.last())
    }
}

/// A decimal reading is never negative.
pub proof fn lemma_digits_val_nonneg(s: Seq<char>)
    ensures
        0 <= spec_digits_val(s),
    decreases s.len(),
{
    if s.len() > 0 {
        lemma_digits_val_nonneg(s.drop_last());
    }
}

/// A prefix never reads as more than the whole string.
pub proof fn lemma_digits_val_mono(s: Seq<char>, i: int)
    requires
        0 <= i <= s.len(),
    ensures
        spec_digits_val(s.take(i)) <= spec_digits_val(s),
    decreases s.len() - i,
{
    if i == s.len() {
        assert(s.take(i) =~= s);
    } else {
        assert(s.take(i + 1).drop_last() =~= s.take(i));
        lemma_digits_val_nonneg(s.take(i));
        lemma_digits_val_mono(s, i + 1);
    }
}

/// What a string parses to as an unsigned decimal number: a value exactly when
/// the string is nonempty, digits throughout, and within range.
pub open spec fn spec_parse_u32(s: Seq<char>) -> Option<u32> {
    if s.len() > 0 && spec_all_digits(s) && spec_digits_val(s) <= u32::MAX as int {
        Some(spec_digits_val(s) as u32)
    } else {
        None
    }
}

/// Parses a string as an unsigned decimal number; rejects an empty string, any
/// non-digit, and any value out of range.
pub fn parse_u32_digits(s: &str) -> (res: Option<u32>)
    ensures
        res == spec_parse_u32(s@),
{
    let n = s.unicode_len();
    if n == 0 {
        return None;
    }
    let mut val: u32 = 0;
    let mut i: usize = 0;
    while i < n
        invariant
            i <= n,
            n == s@.len(),
            spec_all_digits(s@.take(i as int)),
            val as int == spec_digits_val(s@.take(i as int)),
        decreases n - i,
    {
        let c = s.get_char(i);
        proof {
            assert(s@.take(i + 1).drop_last() =~= s@.take(i as int));
            assert(s@.take(i + 1).last() == s@[i as int]);
        }
        match digit_val(c) {
            None => {
                assert(!spec_is_digit(s@[i as int]));
                return None;
            },
            Some(d) => {
                if val > (u32::MAX - d) / 10 {
                    proof {
                        let x = val as int;
                        let dd = d as int;
                        let m = u32::MAX as int;
                        assert(x * 10 + dd > m) by (nonlinear_arith)
                            requires
                                x > (m - dd) / 10,
                                0 <= dd < 10,
                                0 <= x,
                                m == u32::MAX as int,
                        ;
                        assert(spec_digits_val(s@.take(i + 1)) > u32::MAX as int);
                        lemma_digits_val_mono(s@, i + 1);
                    }
                    return None;
                }
                proof {
                    let x = val as int;
                    let dd = d as int;
                    let m = u32::MAX as int;
                    assert(x * 10 + dd <= m) by (nonlinear_arith)
                        requires
                            x <= (m - dd) / 10,
                            0 <= dd < 10,
                            0 <= x,
                            m == u32::MAX as int,
                    ;
                }
                val = val * 10 + d;
            },
        }
        i = i + 1;
    }
    proof {
        assert(s@.take(n as int) =~= s@);
    }
    Some(val)
}

/// A decimal writing is nonempty, digits throughout, and reads back as the
/// number it was written from.
pub proof fn lemma_dec_digits_props(n: nat)
    ensures
        spec_dec_digits(n).len() >= 1,
        spec_all_digits(spec_dec_digits(n)),
        spec_digits_val(spec_dec_digits(n)) == n,
    decreases n,
{
    if n < 10 {
        let s = spec_dec_digits(n);
        assert(s =~= seq![spec_digit_char(n as int)]);
        assert(s.drop_last() =~= Seq::<char>::empty());
        assert(spec_digits_val(Seq::<char>::empty()) == 0);
        assert(spec_digit_val(spec_digit_char(n as int)) == n);
        assert(spec_is_digit(spec_digit_char(n as int)));
    } else {
        lemma_dec_digits_props(n / 10);
        let s = spec_dec_digits(n / 10);
        let c = spec_digit_char((n % 10) as int);
        assert(s.push(c).drop_last() =~= s);
        assert(s.push(c).last() == c);
        assert(spec_digit_val(c) == n % 10);
        assert(spec_is_digit(c));
        assert(spec_digits_val(s.push(c)) == (n / 10) * 10 + n % 10);
        assert((n / 10) * 10 + n % 10 == n) by (nonlinear_arith);
        assert forall|i: int| 0 <= i < s.push(c).len() implies spec_is_digit(
            #[trigger] s.push(c)[i],
        ) by {
            if i < s.len() {
                assert(s.push(c)[i] == s[i]);
                assert(spec_is_digit(s[i]));
            }
        }
    }
}

/// A number written in decimal parses back as itself.
pub proof fn lemma_dec_round_trip(n: u32)
    ensures
        spec_parse_u32(spec_dec_digits(n as nat)) == Some(n),
{
    lemma_dec_digits_props(n as nat);
}

/// How many characters stand before the first occurrence of `stop`; the whole
/// length when `stop` does not occur.
pub open spec fn spec_scan_len(s: Seq<char>, stop: char) -> nat
    decreases s.len(),
{
    if s.len() == 0 {
        0
    } else if s[0] == stop {
        0
    } else {
        1 + spec_scan_len(s.drop_first(), stop)
    }
}

/// A scan never runs past the end.
pub proof fn lemma_scan_len_le(s: Seq<char>, stop: char)
    ensures
        spec_scan_len(s, stop) <= s.len(),
    decreases s.len(),
{
    if s.len() > 0 && s[0] != stop {
        lemma_scan_len_le(s.drop_first(), stop);
    }
}

/// A position with no `stop` before it and `stop` (or the end) at it is where
/// the scan stops.
pub proof fn lemma_scan_len_at(s: Seq<char>, stop: char, i: int)
    requires
        0 <= i <= s.len(),
        forall|k: int| 0 <= k < i ==> s[k] != stop,
        i < s.len() ==> s[i] == stop,
    ensures
        spec_scan_len(s, stop) == i,
    decreases i,
{
    if i == 0 {
    } else {
        assert(s[0] != stop);
        lemma_scan_len_at(s.drop_first(), stop, i - 1);
    }
}

/// Finds how many characters stand before the first occurrence of `stop`.
pub fn scan_for(s: &str, stop: char) -> (r: usize)
    ensures
        r as nat == spec_scan_len(s@, stop),
        r <= s@.len(),
{
    let n = s.unicode_len();
    let mut i: usize = 0;
    while i < n
        invariant
            i <= n,
            n == s@.len(),
            forall|k: int| 0 <= k < i ==> s@[k] != stop,
        decreases n - i,
    {
        if s.get_char(i) == stop {
            proof {
                lemma_scan_len_at(s@, stop, i as int);
            }
            return i;
        }
        i = i + 1;
    }
    proof {
        lemma_scan_len_at(s@, stop, n as int);
    }
    n
}

} // verus!
