//! Small string helpers shared by the rest of the library.
use vstd::prelude::*;

verus! {

/// Equality of two string slices, stated over their character views.
///
/// `&str == &str` carries no specification, so the comparison is routed
/// through owned strings, whose equality vstd does specify.
pub fn str_eq(a: &str, b: &str) -> (r: bool)
    ensures
        r == (a@ == b@),
{
    let oa = a.to_owned();
    let ob = b.to_owned();
    oa == ob
}

/// The decimal digit characters of `n`, most significant first.
pub open spec fn dec_digits(n: nat) -> Seq<char>
    decreases n,
{
    if n < 10 {
        seq![digit_char(n)]
    } else {
        dec_digits(n / 10).push(digit_char(n % 10))
    }
}

/// The character for a single decimal digit value.
pub open spec fn digit_char(d: nat) -> char {
    if d == 0 {
        '0'
    } else if d == 1 {
        '1'
    } else if d == 2 {
        '2'
    } else if d == 3 {
        '3'
    } else if d == 4 {
        '4'
    } else if d == 5 {
        '5'
    } else if d == 6 {
        '6'
    } else if d == 7 {
        '7'
    } else if d == 8 {
        '8'
    } else {
        '9'
    }
}

/// A one-character string for a decimal digit value.
fn digit_str(d: u64) -> (r: &'static str)
    requires
        d < 10,
    ensures
        r@ == seq![digit_char(d as nat)],
{
    proof {
        reveal_strlit("0");
        reveal_strlit("1");
        reveal_strlit("2");
        reveal_strlit("3");
        reveal_strlit("4");
        reveal_strlit("5");
        reveal_strlit("6");
        reveal_strlit("7");
        reveal_strlit("8");
        reveal_strlit("9");
    }
    if d == 0 {
        "0"
    } else if d == 1 {
        "1"
    } else if d == 2 {
        "2"
    } else if d == 3 {
        "3"
    } else if d == 4 {
        "4"
    } else if d == 5 {
        "5"
    } else if d == 6 {
        "6"
    } else if d == 7 {
        "7"
    } else if d == 8 {
        "8"
    } else {
        "9"
    }
}

/// Render an unsigned number in decimal.
pub fn u64_to_string(n: u64) -> (r: String)
    ensures
        r@ == dec_digits(n as nat),
    decreases n,
{
    if n < 10 {
        digit_str(n).to_owned()
    } else {
        let prefix = u64_to_string(n / 10);
        prefix.concat(digit_str(n % 10))
    }
}

/// The decimal rendering of a signed number: a minus sign for negative
/// values, then the digits of the magnitude.
pub open spec fn dec_digits_signed(n: int) -> Seq<char> {
    if n < 0 {
        seq!['-'] + dec_digits((-n) as nat)
    } else {
        dec_digits(n as nat)
    }
}

/// Render a signed number in decimal.
pub fn i64_to_string(n: i64) -> (r: String)
    ensures
        r@ == dec_digits_signed(n as int),
{
    proof {
        reveal_strlit("-");
    }
    if n < 0 {
        let mag: u64 = if n == i64::MIN {
            9223372036854775808u64
        } else {
            (-n) as u64
        };
        let digits = u64_to_string(mag);
        let mut out = "-".to_owned();
        out.append(digits.as_str());
        out
    } else {
        u64_to_string(n as u64)
    }
}

/// Whether `c` is an ASCII decimal digit.
pub open spec fn is_digit(c: char) -> bool {
    48 <= c as int <= 57
}

/// The numeric value of a digit character.
pub open spec fn digit_val(c: char) -> nat {
    if is_digit(c) {
        (c as int - 48) as nat
    } else {
        0
    }
}

/// Whether every character of `s` is a decimal digit.
pub open spec fn all_digits(s: Seq<char>) -> bool {
    forall|i: int| 0 <= i < s.len() ==> is_digit(#[trigger] s[i])
}

/// The number denoted by a digit string, most significant first.
pub open spec fn dec_value(s: Seq<char>) -> nat
    decreases s.len(),
{
    if s.len() == 0 {
        0
    } else {
        dec_value(s.drop_last()) * 10 + digit_val(s.last())
    }
}

/// Parse a decimal digit string as a `u64`.
///
/// Succeeds exactly when `s` is non-empty, consists of digits only, and the
/// denoted value fits in a `u64`.
pub fn parse_u64(s: &str) -> (r: Option<u64>)
    ensures
        match r {
            Some(v) => s@.len() > 0 && all_digits(s@) && v as nat == dec_value(s@),
            None => s@.len() == 0 || !all_digits(s@) || dec_value(s@) > u64::MAX,
        },
{
    let n = s.unicode_len();
    if n == 0 {
        return None;
    }
    let mut acc: u64 = 0;
    let mut i: usize = 0;
    while i < n
        invariant
            0 < n == s@.len(),
            0 <= i <= n,
            all_digits(s@.subrange(0, i as int)),
            acc as nat == dec_value(s@.subrange(0, i as int)),
        decreases n - i,
    {
        let c = s.get_char(i);
        let cv: u32 = c as u32;
        if cv < 48 || cv > 57 {
            assert(!is_digit(s@[i as int]));
            return None;
        }
        let d: u64 = (cv - 48) as u64;
        assert(d == digit_val(s@[i as int]));
        proof {
            assert(s@.subrange(0, i as int + 1).drop_last() =~= s@.subrange(0, i as int));
        }
        let next = match acc.checked_mul(10) {
            Some(p) => p.checked_add(d),
            None => None,
        };
        match next {
            Some(v) => {
                acc = v;
            }
            None => {
                proof {
                    lemma_dec_value_monotonic(s@, i as int + 1, s@.len() as int);
                    assert(s@.subrange(0, s@.len() as int) =~= s@);
                }
                return None;
            }
        }
        i = i + 1;
    }
    assert(s@.subrange(0, n as int) =~= s@);
    Some(acc)
}

/// A digit string's value only grows as more digits are appended.
proof fn lemma_dec_value_monotonic(s: Seq<char>, m: int, n: int)
    requires
        0 <= m <= n <= s.len(),
    ensures
        dec_value(s.subrange(0, m)) <= dec_value(s.subrange(0, n)),
    decreases n - m,
{
    if m < n {
        lemma_dec_value_monotonic(s, m, n - 1);
        assert(s.subrange(0, n).drop_last() =~= s.subrange(0, n - 1));
    }
}

/// Parse a decimal digit string as a `usize`.
pub fn parse_usize(s: &str) -> (r: Option<usize>)
    ensures
        match r {
            Some(v) => s@.len() > 0 && all_digits(s@) && v as nat == dec_value(s@),
            None => s@.len() == 0 || !all_digits(s@) || dec_value(s@) > usize::MAX,
        },
{
    match parse_u64(s) {
        Some(v) => {
            if v <= usize::MAX as u64 {
                Some(v as usize)
            } else {
                None
            }
        }
        None => None,
    }
}

/// Whether `pat` occurs in `s` starting at position `i`.
pub open spec fn is_match_at(s: Seq<char>, pat: Seq<char>, i: int) -> bool {
    0 <= i && i + pat.len() <= s.len() && s.subrange(i, i + pat.len() as int) == pat
}

/// Whether the character at position `i` of `s` matches `pat` onward.
pub fn match_at(s: &str, pat: &str, i: usize) -> (r: bool)
    requires
        i + pat@.len() <= s@.len(),
    ensures
        r == is_match_at(s@, pat@, i as int),
{
    let sn = s.unicode_len();
    let m = pat.unicode_len();
    let mut k: usize = 0;
    while k < m
        invariant
            sn == s@.len(),
            m == pat@.len(),
            i + m <= sn,
            0 <= k <= m,
            forall|t: int| 0 <= t < k ==> s@[i + t] == pat@[t],
        decreases m - k,
    {
        if s.get_char(i + k) as u32 != pat.get_char(k) as u32 {
            proof {
                assert(s@.subrange(i as int, i as int + m as int)[k as int] == s@[i + k]);
            }
            return false;
        }
        proof {
            assert(s@[i + k] == pat@[k as int]);
        }
        k = k + 1;
    }
    proof {
        assert(s@.subrange(i as int, i as int + m as int) =~= pat@);
    }
    true
}

/// Find the first occurrence of `pat` in `s` at or after position `from`.
pub fn find_sub(s: &str, pat: &str, from: usize) -> (r: Option<usize>)
    requires
        from <= s@.len(),
    ensures
        match r {
            Some(i) => from <= i && is_match_at(s@, pat@, i as int) && forall|j: int|
                from <= j < i ==> !is_match_at(s@, pat@, j),
            None => forall|j: int| from <= j ==> !is_match_at(s@, pat@, j),
        },
{
    let n = s.unicode_len();
    let m = pat.unicode_len();
    if m == 0 {
        proof {
            assert(s@.subrange(from as int, from as int) =~= pat@);
        }
        return Some(from);
    }
    if m > n {
        return None;
    }
    if from > n - m {
        proof {
            assert forall|j: int| from <= j implies !is_match_at(s@, pat@, j) by {
                assert(j + pat@.len() > s@.len());
            }
        }
        return None;
    }
    let bound = n - m + 1;
    let mut i: usize = from;
    while i < bound
        invariant
            n == s@.len(),
            m == pat@.len(),
            0 < m <= n,
            bound == n - m + 1,
            from <= i <= bound,
            forall|j: int| from <= j < i ==> !is_match_at(s@, pat@, j),
        decreases bound - i,
    {
        if match_at(s, pat, i) {
            return Some(i);
        }
        i = i + 1;
    }
    proof {
        assert forall|j: int| from <= j implies !is_match_at(s@, pat@, j) by {
            if j < bound {
            }
        }
    }
    None
}

/// Whether `pat` occurs anywhere in `s`.
pub fn contains_sub(s: &str, pat: &str) -> (r: bool)
    ensures
        r == exists|j: int| is_match_at(s@, pat@, j),
{
    match find_sub(s, pat, 0) {
        Some(i) => {
            proof {
                assert(is_match_at(s@, pat@, i as int));
            }
            true
        }
        None => {
            proof {
                assert forall|j: int| !is_match_at(s@, pat@, j) by {
                    if j >= 0 {
                    }
                }
            }
            false
        }
    }
}

/// Index of the first character `c` in `s` at or after `from`; the length
/// of `s` when there is none.
pub open spec fn first_pos(s: Seq<char>, c: char, from: int) -> int
    decreases s.len() - from,
{
    if from < 0 || from >= s.len() {
        s.len() as int
    } else if s[from] == c {
        from
    } else {
        first_pos(s, c, from + 1)
    }
}

/// A scan that saw no occurrence of `c` in `[from, j)`, and `c` at `j` if
/// `j` is in range, has found the first occurrence position.
pub proof fn lemma_first_pos_at(s: Seq<char>, c: char, from: int, j: int)
    requires
        0 <= from <= j <= s.len(),
        forall|t: int| from <= t < j ==> s[t] != c,
        j < s.len() ==> s[j] == c,
    ensures
        first_pos(s, c, from) == j,
    decreases j - from,
{
    if from < j {
        lemma_first_pos_at(s, c, from + 1, j);
    }
}

/// Find the first occurrence of the character `c` in `s` at or after
/// `from`.
pub fn find_char(s: &str, c: char, from: usize) -> (r: Option<usize>)
    requires
        from <= s@.len(),
    ensures
        match r {
            Some(i) => from <= i && i < s@.len() && i as int == first_pos(s@, c, from as int),
            None => first_pos(s@, c, from as int) == s@.len(),
        },
{
    let n = s.unicode_len();
    let mut i: usize = from;
    while i < n
        invariant
            n == s@.len(),
            from <= i <= n,
            forall|t: int| from <= t < i ==> s@[t] != c,
        decreases n - i,
    {
        if s.get_char(i) as u32 == c as u32 {
            proof {
                assert(s@[i as int] == c);
                lemma_first_pos_at(s@, c, from as int, i as int);
            }
            return Some(i);
        }
        proof {
            assert(s@[i as int] != c);
        }
        i = i + 1;
    }
    proof {
        lemma_first_pos_at(s@, c, from as int, n as int);
    }
    None
}

/// Index of the first occurrence of `pat` in `s` at or after `from`; the
/// length of `s` when there is none. Meaningful for non-empty patterns.
pub open spec fn first_sub(s: Seq<char>, pat: Seq<char>, from: int) -> int
    decreases s.len() + 1 - from,
{
    if from < 0 || from + pat.len() > s.len() {
        s.len() as int
    } else if is_match_at(s, pat, from) {
        from
    } else {
        first_sub(s, pat, from + 1)
    }
}

/// A scan that found no match of a non-empty pattern before `j`, and a
/// match at `j` if `j` is in range, has found the first occurrence.
pub proof fn lemma_first_sub_at(s: Seq<char>, pat: Seq<char>, from: int, j: int)
    requires
        pat.len() > 0,
        0 <= from <= j <= s.len(),
        forall|t: int| from <= t < j ==> !is_match_at(s, pat, t),
        j < s.len() ==> is_match_at(s, pat, j),
    ensures
        first_sub(s, pat, from) == j,
    decreases j - from,
{
    if from < j {
        lemma_first_sub_at(s, pat, from + 1, j);
    }
}

/// The decimal rendering of a number consists of digit characters alone,
/// is never empty, and denotes the number it was rendered from.
pub proof fn lemma_dec_digits_value(n: nat)
    ensures
        all_digits(dec_digits(n)),
        dec_digits(n).len() >= 1,
        dec_value(dec_digits(n)) == n,
    decreases n,
{
    if n < 10 {
        assert(dec_digits(n) =~= seq![digit_char(n)]);
        assert(dec_digits(n).drop_last() =~= Seq::<char>::empty());
        assert(is_digit(digit_char(n)));
        assert(digit_val(digit_char(n)) == n);
        assert(dec_value(Seq::<char>::empty()) == 0);
        assert(dec_value(dec_digits(n)) == dec_value(dec_digits(n).drop_last()) * 10 + digit_val(
            dec_digits(n).last(),
        ));
    } else {
        lemma_dec_digits_value(n / 10);
        let s = dec_digits(n / 10);
        assert(dec_digits(n) == s.push(digit_char(n % 10)));
        assert(dec_digits(n).drop_last() =~= s);
        assert(dec_digits(n).last() == digit_char(n % 10));
        assert(is_digit(digit_char(n % 10)));
        assert(digit_val(digit_char(n % 10)) == n % 10);
        assert forall|i: int| 0 <= i < dec_digits(n).len() implies is_digit(
            #[trigger] dec_digits(n)[i],
        ) by {
            if i < s.len() {
                assert(dec_digits(n)[i] == s[i]);
            }
        }
        assert(dec_value(dec_digits(n)) == dec_value(s) * 10 + (n % 10));
        assert((n / 10) * 10 + (n % 10) == n) by (nonlinear_arith);
    }
}

} // verus!
