//! Decimal renderings of the integers that name every archive unit: frame
//! indexes, clip timestamps and process ids all travel as base-10 strings.

use vstd::prelude::*;

verus! {

/// The ten decimal digit characters.
pub open spec fn is_digit(c: char) -> bool {
    c == '0' || c == '1' || c == '2' || c == '3' || c == '4' || c == '5' || c == '6' || c == '7'
        || c == '8' || c == '9'
}

/// Numeric value of a digit character (0 for anything else).
pub open spec fn digit_val(c: char) -> int {
    if c == '1' {
        1
    } else if c == '2' {
        2
    } else if c == '3' {
        3
    } else if c == '4' {
        4
    } else if c == '5' {
        5
    } else if c == '6' {
        6
    } else if c == '7' {
        7
    } else if c == '8' {
        8
    } else if c == '9' {
        9
    } else {
        0
    }
}

/// Digit character of a value in 0..=9 ('0' for anything else).
pub open spec fn char_of_digit(d: int) -> char {
    if d == 1 {
        '1'
    } else if d == 2 {
        '2'
    } else if d == 3 {
        '3'
    } else if d == 4 {
        '4'
    } else if d == 5 {
        '5'
    } else if d == 6 {
        '6'
    } else if d == 7 {
        '7'
    } else if d == 8 {
        '8'
    } else if d == 9 {
        '9'
    } else {
        '0'
    }
}

/// The canonical decimal rendering of a natural number, most significant
/// digit first, no sign and no leading zeroes.
pub open spec fn dec_rep(n: nat) -> Seq<char>
    decreases n,
{
    if n < 10 {
        seq![char_of_digit(n as int)]
    } else {
        dec_rep(n / 10).push(char_of_digit((n % 10) as int))
    }
}

/// The decimal rendering of an integer: a '-' sign ahead of the digits when
/// the value is negative.
pub open spec fn int_rep(v: int) -> Seq<char> {
    if v >= 0 {
        dec_rep(v as nat)
    } else {
        seq!['-'] + dec_rep((-v) as nat)
    }
}

pub open spec fn all_digits(s: Seq<char>) -> bool {
    forall|i: int| 0 <= i < s.len() ==> is_digit(s[i])
}

/// Value of a digit string read most significant digit first.
pub open spec fn dec_val(s: Seq<char>) -> int
    decreases s.len(),
{
    if s.len() == 0 {
        0
    } else {
        dec_val(s.drop_last()) * 10 + digit_val(s.last())
    }
}

pub proof fn lemma_dec_val_nonneg(s: Seq<char>)
    ensures
        dec_val(s) >= 0,
    decreases s.len(),
{
    if s.len() > 0 {
        lemma_dec_val_nonneg(s.drop_last());
    }
}

/// Dropping a suffix of a digit string can only lower its value.
pub proof fn lemma_dec_val_take_le(s: Seq<char>, k: int)
    requires
        0 <= k <= s.len(),
    ensures
        dec_val(s.take(k)) <= dec_val(s),
    decreases s.len(),
{
    if k < s.len() {
        assert(s.drop_last().take(k) =~= s.take(k));
        lemma_dec_val_take_le(s.drop_last(), k);
        lemma_dec_val_nonneg(s.drop_last());
    } else {
        assert(s.take(k) =~= s);
    }
}

/// Rendering a natural number yields digits only, and at least one of them.
pub proof fn lemma_dec_rep_digits(n: nat)
    ensures
        dec_rep(n).len() >= 1,
        all_digits(dec_rep(n)),
    decreases n,
{
    if n >= 10 {
        lemma_dec_rep_digits(n / 10);
    }
}

/// Parsing is a left inverse of rendering.
pub proof fn lemma_dec_rep_round_trip(n: nat)
    ensures
        dec_val(dec_rep(n)) == n,
    decreases n,
{
    if n < 10 {
        assert(dec_rep(n).drop_last() =~= Seq::<char>::empty());
        assert(dec_rep(n).last() == char_of_digit(n as int));
        assert(digit_val(char_of_digit(n as int)) == n);
        assert(dec_val(Seq::<char>::empty()) == 0);
        assert(dec_val(dec_rep(n)) == dec_val(Seq::<char>::empty()) * 10 + digit_val(
            char_of_digit(n as int),
        ));
    } else {
        lemma_dec_rep_round_trip(n / 10);
        assert(dec_rep(n).drop_last() =~= dec_rep(n / 10));
        assert(dec_rep(n).last() == char_of_digit((n % 10) as int));
        assert(digit_val(char_of_digit((n % 10) as int)) == n % 10);
    }
}

/// A run of '0' characters.
pub open spec fn zeroes(k: nat) -> Seq<char> {
    Seq::new(k, |i: int| '0')
}

/// The rendering of `n` left-padded with zeroes to at least `width`
/// characters.
pub open spec fn padded(n: nat, width: nat) -> Seq<char> {
    if dec_rep(n).len() >= width {
        dec_rep(n)
    } else {
        zeroes((width - dec_rep(n).len()) as nat) + dec_rep(n)
    }
}

/// The dense frame-name format inside a capture buffer.
pub open spec fn padded5(n: nat) -> Seq<char> {
    padded(n, 5)
}

fn digit_str(d: u64) -> (r: &'static str)
    requires
        d < 10,
    ensures
        r@ =~= seq![char_of_digit(d as int)],
{
    proof {
        reveal_strlit("0");
        reveal_strlit("1");
        reveal_strlit("2");
        reveal_strlit("3");
        reveal_strlit("4");
        reveal_strlit("5");
        reveal_strlit("6");
        reveal_strlit("7");
        reveal_strlit("8");
        reveal_strlit("9");
    }
    if d == 0 {
        "0"
    } else if d == 1 {
        "1"
    } else if d == 2 {
        "2"
    } else if d == 3 {
        "3"
    } else if d == 4 {
        "4"
    } else if d == 5 {
        "5"
    } else if d == 6 {
        "6"
    } else if d == 7 {
        "7"
    } else if d == 8 {
        "8"
    } else {
        "9"
    }
}

/// Render a natural number in decimal.
pub fn u64_to_string(n: u64) -> (r: String)
    ensures
        r@ == dec_rep(n as nat),
    decreases n,
{
    if n < 10 {
        let r = String::from_str(digit_str(n));
        assert(r@ =~= dec_rep(n as nat));
        r
    } else {
        let mut r = u64_to_string(n / 10);
        r.append(digit_str(n % 10));
        assert(r@ =~= dec_rep(n as nat));
        r
    }
}

/// Render a signed integer in decimal.
pub fn i64_to_string(n: i64) -> (r: String)
    ensures
        r@ == int_rep(n as int),
{
    if n >= 0 {
        u64_to_string(n as u64)
    } else {
        let mut r = String::from_str("-");
        let m: u64 = ((-(n + 1)) as u64) + 1;
        assert(m == -(n as int));
        let digits = u64_to_string(m);
        r.append(digits.as_str());
        proof {
            reveal_strlit("-");
        }
        assert(r@ =~= int_rep(n as int));
        r
    }
}

/// Render a natural number zero-padded to at least `width` characters.
pub fn u64_to_padded_string(n: u64, width: usize) -> (r: String)
    ensures
        r@ == padded(n as nat, width as nat),
{
    let digits = u64_to_string(n);
    let len = digits.as_str().unicode_len();
    proof {
        lemma_dec_rep_digits(n as nat);
    }
    let mut r = String::new();
    if len < width {
        let pad: usize = width - len;
        let mut j: usize = 0;
        while j < pad
            invariant
                j <= pad,
                pad == width - len,
                len == dec_rep(n as nat).len(),
                r@ =~= zeroes(j as nat),
            decreases pad - j,
        {
            r.append("0");
            j = j + 1;
            proof {
                reveal_strlit("0");
                assert(r@ =~= zeroes(j as nat));
            }
        }
    }
    r.append(digits.as_str());
    assert(r@ =~= padded(n as nat, width as nat));
    r
}

/// Render a natural number zero-padded to at least five characters.
pub fn u64_to_padded5_string(n: u64) -> (r: String)
    ensures
        r@ == padded5(n as nat),
{
    u64_to_padded_string(n, 5)
}

/// Digit strings may carry one leading sign; these describe how `str::parse`
/// reads signed and unsigned integers.
pub open spec fn has_minus_sign(s: Seq<char>) -> bool {
    s.len() > 0 && s[0] == '-'
}

pub open spec fn has_plus_sign(s: Seq<char>) -> bool {
    s.len() > 0 && s[0] == '+'
}

/// The digits of a numeral after its optional single sign character.
pub open spec fn digits_part(s: Seq<char>) -> Seq<char> {
    if has_minus_sign(s) || has_plus_sign(s) {
        s.skip(1)
    } else {
        s
    }
}

/// The integer value a numeral denotes, ignoring range limits.
pub open spec fn signed_val(s: Seq<char>) -> int {
    if has_minus_sign(s) {
        -dec_val(digits_part(s))
    } else {
        dec_val(digits_part(s))
    }
}

/// Whether a string is accepted by `u64::from_str`: an optional '+', then
/// one or more digits, denoting a value within range.
pub open spec fn u64_str_parses(s: Seq<char>) -> bool {
    &&& !has_minus_sign(s)
    &&& digits_part(s).len() >= 1
    &&& all_digits(digits_part(s))
    &&& dec_val(digits_part(s)) <= u64::MAX
}

/// Whether a string is accepted by `i64::from_str`.
pub open spec fn i64_str_parses(s: Seq<char>) -> bool {
    &&& digits_part(s).len() >= 1
    &&& all_digits(digits_part(s))
    &&& i64::MIN <= signed_val(s) <= i64::MAX
}

/// The decimal rendering of any 64-bit integer parses back to that very
/// integer.
pub proof fn lemma_int_rep_parses(v: int)
    requires
        i64::MIN <= v <= i64::MAX,
    ensures
        i64_str_parses(int_rep(v)),
        signed_val(int_rep(v)) == v,
{
    if v >= 0 {
        lemma_dec_rep_digits(v as nat);
        lemma_dec_rep_round_trip(v as nat);
        let s = int_rep(v);
        assert(is_digit(s[0]));
        assert(!has_minus_sign(s) && !has_plus_sign(s));
        assert(digits_part(s) == s);
    } else {
        let m = (-v) as nat;
        lemma_dec_rep_digits(m);
        lemma_dec_rep_round_trip(m);
        let s = int_rep(v);
        assert(s[0] == '-');
        assert(has_minus_sign(s));
        assert(s.skip(1) =~= dec_rep(m));
        assert(digits_part(s) == dec_rep(m));
    }
}

/// The unsigned decimal rendering of any 64-bit natural parses back to it.
pub proof fn lemma_dec_rep_parses_u64(n: nat)
    requires
        n <= u64::MAX,
    ensures
        u64_str_parses(dec_rep(n)),
        dec_val(digits_part(dec_rep(n))) == n,
{
    lemma_dec_rep_digits(n);
    lemma_dec_rep_round_trip(n);
    let s = dec_rep(n);
    assert(is_digit(s[0]));
    assert(!has_minus_sign(s) && !has_plus_sign(s));
    assert(digits_part(s) == s);
}

fn digit_of_char(c: char) -> (r: Option<u64>)
    ensures
        match r {
            Some(d) => is_digit(c) && d < 10 && d as int == digit_val(c),
            None => !is_digit(c),
        },
{
    if c == '0' {
        Some(0)
    } else if c == '1' {
        Some(1)
    } else if c == '2' {
        Some(2)
    } else if c == '3' {
        Some(3)
    } else if c == '4' {
        Some(4)
    } else if c == '5' {
        Some(5)
    } else if c == '6' {
        Some(6)
    } else if c == '7' {
        Some(7)
    } else if c == '8' {
        Some(8)
    } else if c == '9' {
        Some(9)
    } else {
        None
    }
}

/// Reads the digit run `s@.skip(start as int)` as a magnitude.
fn parse_magnitude(s: &str, start: usize, n: usize) -> (r: Option<u64>)
    requires
        start <= n,
        n == s@.len(),
    ensures
        match r {
            Some(v) => {
                &&& s@.skip(start as int).len() >= 1
                &&& all_digits(s@.skip(start as int))
                &&& dec_val(s@.skip(start as int)) <= u64::MAX
                &&& v as int == dec_val(s@.skip(start as int))
            },
            None => !{
                &&& s@.skip(start as int).len() >= 1
                &&& all_digits(s@.skip(start as int))
                &&& dec_val(s@.skip(start as int)) <= u64::MAX
            },
        },
{
    let ghost d: Seq<char> = s@.skip(start as int);
    if start == n {
        return None;
    }
    let mut acc: u64 = 0;
    let mut i: usize = start;
    while i < n
        invariant
            start <= i <= n,
            n == s@.len(),
            d == s@.skip(start as int),
            all_digits(d.take(i - start)),
            acc as int == dec_val(d.take(i - start)),
        decreases n - i,
    {
        let c = s.get_char(i);
        proof {
            assert(d[i - start] == s@[i as int]);
        }
        match digit_of_char(c) {
            None => {
                proof {
                    assert(!is_digit(d[i - start]));
                }
                return None;
            },
            Some(dv) => {
                proof {
                    assert(d.take(i - start + 1).drop_last() =~= d.take(i - start));
                    assert(d.take(i - start + 1).last() == d[i - start]);
                }
                let next = match acc.checked_mul(10) {
                    Some(t) => t.checked_add(dv),
                    None => None,
                };
                match next {
                    Some(v) => {
                        acc = v;
                    },
                    None => {
                        // The prefix already exceeds u64::MAX, so the whole
                        // digit run does.
                        proof {
                            lemma_dec_val_take_le(d, i - start + 1);
                        }
                        return None;
                    },
                }
                i = i + 1;
            },
        }
    }
    proof {
        assert(d.take(n - start) =~= d);
    }
    Some(acc)
}

/// Parse an unsigned decimal numeral exactly as `u64::from_str` accepts it.
pub fn parse_u64(s: &str) -> (r: Option<u64>)
    ensures
        match r {
            Some(v) => u64_str_parses(s@) && v as int == dec_val(digits_part(s@)),
            None => !u64_str_parses(s@),
        },
{
    let n = s.unicode_len();
    let start: usize = if n > 0 && s.get_char(0) == '+' {
        1
    } else if n > 0 && s.get_char(0) == '-' {
        return None;
    } else {
        0
    };
    proof {
        assert(s@.skip(start as int) == digits_part(s@));
    }
    parse_magnitude(s, start, n)
}

/// Parse a signed decimal numeral exactly as `i64::from_str` accepts it.
pub fn parse_i64(s: &str) -> (r: Option<i64>)
    ensures
        match r {
            Some(v) => i64_str_parses(s@) && v as int == signed_val(s@),
            None => !i64_str_parses(s@),
        },
{
    let n = s.unicode_len();
    let negative = n > 0 && s.get_char(0) == '-';
    let start: usize = if negative || (n > 0 && s.get_char(0) == '+') {
        1
    } else {
        0
    };
    proof {
        assert(s@.skip(start as int) == digits_part(s@));
    }
    let mag = match parse_magnitude(s, start, n) {
        Some(m) => m,
        None => {
            return None;
        },
    };
    if negative {
        if mag <= i64::MAX as u64 {
            Some(-(mag as i64))
        } else if mag == (i64::MAX as u64) + 1 {
            Some(i64::MIN)
        } else {
            None
        }
    } else {
        if mag <= i64::MAX as u64 {
            Some(mag as i64)
        } else {
            None
        }
    }
}

} // verus!
