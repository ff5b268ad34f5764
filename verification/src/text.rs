use vstd::prelude::*;
use vstd::std_specs::iter::IteratorSpec;

verus! {

// ---------------------------------------------------------------------------
// Characters
// ---------------------------------------------------------------------------

/// Unicode `White_Space`, the set that `char::is_whitespace` and therefore
/// `str::trim` and `str::split_whitespace` use.
pub open spec fn is_whitespace(c: char) -> bool {
    let u = c as u32;
    ||| u == 0x20
    ||| 0x09 <= u <= 0x0d
    ||| u == 0x85
    ||| u == 0xa0
    ||| u == 0x1680
    ||| 0x2000 <= u <= 0x200a
    ||| u == 0x2028
    ||| u == 0x2029
    ||| u == 0x202f
    ||| u == 0x205f
    ||| u == 0x3000
}

/// Executable membership test for Unicode `White_Space`.
pub fn char_is_whitespace(c: char) -> (b: bool)
    ensures
        b == is_whitespace(c),
{
    let u = c as u32;
    u == 0x20 || (0x09 <= u && u <= 0x0d) || u == 0x85 || u == 0xa0 || u == 0x1680 || (0x2000
        <= u && u <= 0x200a) || u == 0x2028 || u == 0x2029 || u == 0x202f || u == 0x205f || u
        == 0x3000
}

/// The characters of `s`, in order.
pub fn chars_of(s: &str) -> (v: Vec<char>)
    ensures
        v@ == s@,
{
    let mut v: Vec<char> = Vec::new();
    let mut it = s.chars();
    for c in iter: it
        invariant
            v@ == iter.seq().take(iter.index() as int),
    {
        v.push(c);
    }
    v
}

/// The contents of a list of strings.
pub open spec fn views(v: Seq<String>) -> Seq<Seq<char>> {
    v.map_values(|s: String| s@)
}

// ---------------------------------------------------------------------------
// Trimming
// ---------------------------------------------------------------------------

/// `s` without its leading whitespace.
pub open spec fn trim_start(s: Seq<char>) -> Seq<char>
    decreases s.len(),
{
    if s.len() > 0 && is_whitespace(s[0]) {
        trim_start(s.drop_first())
    } else {
        s
    }
}

/// `s` without its trailing whitespace.
pub open spec fn trim_end(s: Seq<char>) -> Seq<char>
    decreases s.len(),
{
    if s.len() > 0 && is_whitespace(s.last()) {
        trim_end(s.drop_last())
    } else {
        s
    }
}

/// `s` without leading and trailing whitespace, as `str::trim` gives it.
pub open spec fn trim(s: Seq<char>) -> Seq<char> {
    trim_end(trim_start(s))
}

/// Bounds `(a, b)` with `v[a..b]` the trimmed form of `v[lo..hi]`.
pub fn trim_range(v: &Vec<char>, lo: usize, hi: usize) -> (r: (usize, usize))
    requires
        lo <= hi <= v.len(),
    ensures
        lo <= r.0 <= r.1 <= hi,
        v@.subrange(r.0 as int, r.1 as int) == trim(v@.subrange(lo as int, hi as int)),
{
    let mut a = lo;
    while a < hi && char_is_whitespace(v[a])
        invariant
            lo <= a <= hi <= v.len(),
            trim_start(v@.subrange(lo as int, hi as int)) == trim_start(
                v@.subrange(a as int, hi as int),
            ),
        decreases hi - a,
    {
        assert(v@.subrange(a as int, hi as int).drop_first() =~= v@.subrange(
            a + 1,
            hi as int,
        ));
        a = a + 1;
    }
    let mut b = hi;
    while b > a && char_is_whitespace(v[b - 1])
        invariant
            lo <= a <= b <= hi <= v.len(),
            trim_end(v@.subrange(a as int, hi as int)) == trim_end(
                v@.subrange(a as int, b as int),
            ),
        decreases b - a,
    {
        assert(v@.subrange(a as int, b as int).drop_last() =~= v@.subrange(
            a as int,
            b - 1,
        ));
        b = b - 1;
    }
    (a, b)
}

/// Every character of `s` is whitespace.
pub open spec fn all_whitespace(s: Seq<char>) -> bool {
    forall|i: int| 0 <= i < s.len() ==> is_whitespace(#[trigger] s[i])
}

/// Leading whitespace does not survive `trim_start`.
pub proof fn lemma_trim_start_skips_whitespace(p: Seq<char>, t: Seq<char>)
    requires
        all_whitespace(p),
    ensures
        trim_start(p + t) == trim_start(t),
    decreases p.len(),
{
    if p.len() > 0 {
        assert((p + t)[0] == p[0]);
        assert((p + t).drop_first() =~= p.drop_first() + t);
        assert forall|i: int| 0 <= i < p.drop_first().len() implies is_whitespace(
            #[trigger] p.drop_first()[i],
        ) by {
            assert(p.drop_first()[i] == p[i + 1]);
        }
        lemma_trim_start_skips_whitespace(p.drop_first(), t);
    } else {
        assert(p + t =~= t);
    }
}

/// Trailing whitespace does not survive `trim_end`.
pub proof fn lemma_trim_end_skips_whitespace(t: Seq<char>, q: Seq<char>)
    requires
        all_whitespace(q),
    ensures
        trim_end(t + q) == trim_end(t),
    decreases q.len(),
{
    if q.len() > 0 {
        assert((t + q).last() == q.last());
        assert((t + q).drop_last() =~= t + q.drop_last());
        assert forall|i: int| 0 <= i < q.drop_last().len() implies is_whitespace(
            #[trigger] q.drop_last()[i],
        ) by {
            assert(q.drop_last()[i] == q[i]);
        }
        lemma_trim_end_skips_whitespace(t, q.drop_last());
    } else {
        assert(t + q =~= t);
    }
}

/// Trailing whitespace does not change the trimmed text.
pub proof fn lemma_trim_ignores_trailing(s: Seq<char>, q: Seq<char>)
    requires
        all_whitespace(q),
    ensures
        trim(s + q) == trim(s),
    decreases s.len(),
{
    if s.len() == 0 {
        assert(s + q =~= q);
        lemma_trim_start_skips_whitespace(q, Seq::<char>::empty());
        assert(q + Seq::<char>::empty() =~= q);
    } else if is_whitespace(s[0]) {
        assert((s + q)[0] == s[0]);
        assert((s + q).drop_first() =~= s.drop_first() + q);
        lemma_trim_ignores_trailing(s.drop_first(), q);
    } else {
        assert((s + q)[0] == s[0]);
        lemma_trim_end_skips_whitespace(s, q);
    }
}

/// Whitespace around a text does not change the trimmed text.
pub proof fn lemma_trim_ignores_padding(p: Seq<char>, s: Seq<char>, q: Seq<char>)
    requires
        all_whitespace(p),
        all_whitespace(q),
    ensures
        trim(p + s + q) == trim(s),
{
    assert(p + s + q =~= p + (s + q));
    lemma_trim_start_skips_whitespace(p, s + q);
    lemma_trim_ignores_trailing(s, q);
}

/// A non-whitespace character survives `trim_start`.
proof fn lemma_trim_start_keeps(t: Seq<char>, m: int)
    requires
        0 <= m < t.len(),
        !is_whitespace(t[m]),
    ensures
        trim_start(t).contains(t[m]),
    decreases t.len(),
{
    if is_whitespace(t[0]) {
        assert(t.drop_first()[m - 1] == t[m]);
        lemma_trim_start_keeps(t.drop_first(), m - 1);
    } else {
        assert(trim_start(t)[m] == t[m]);
    }
}

/// A non-whitespace character survives `trim_end`.
proof fn lemma_trim_end_keeps(t: Seq<char>, m: int)
    requires
        0 <= m < t.len(),
        !is_whitespace(t[m]),
    ensures
        trim_end(t).contains(t[m]),
    decreases t.len(),
{
    if is_whitespace(t.last()) {
        assert(t.drop_last()[m] == t[m]);
        lemma_trim_end_keeps(t.drop_last(), m);
    } else {
        assert(trim_end(t)[m] == t[m]);
    }
}

/// A non-whitespace character survives `trim`.
pub proof fn lemma_trim_keeps(t: Seq<char>, m: int)
    requires
        0 <= m < t.len(),
        !is_whitespace(t[m]),
    ensures
        trim(t).contains(t[m]),
{
    lemma_trim_start_keeps(t, m);
    let k = choose|k: int| 0 <= k < trim_start(t).len() && trim_start(t)[k] == t[m];
    lemma_trim_end_keeps(trim_start(t), k);
}

// ---------------------------------------------------------------------------
// Splitting at a separator
// ---------------------------------------------------------------------------

/// Index of the first occurrence of `c` in `s`.
pub open spec fn position_of(s: Seq<char>, c: char) -> Option<int>
    decreases s.len(),
{
    if s.len() == 0 {
        None
    } else if s[0] == c {
        Some(0)
    } else {
        match position_of(s.drop_first(), c) {
            Some(i) => Some(i + 1),
            None => None,
        }
    }
}

/// `position_of` finds exactly the first occurrence.
pub proof fn lemma_position_of(s: Seq<char>, c: char)
    ensures
        match position_of(s, c) {
            Some(i) => 0 <= i < s.len() && s[i] == c && forall|j: int| 0 <= j < i ==> s[j] != c,
            None => forall|j: int| 0 <= j < s.len() ==> s[j] != c,
        },
    decreases s.len(),
{
    if s.len() > 0 && s[0] != c {
        lemma_position_of(s.drop_first(), c);
        match position_of(s.drop_first(), c) {
            Some(i) => {
                assert forall|j: int| 0 <= j < i + 1 implies s[j] != c by {
                    if j > 0 {
                        assert(s[j] == s.drop_first()[j - 1]);
                    }
                }
            },
            None => {
                assert forall|j: int| 0 <= j < s.len() implies s[j] != c by {
                    if j > 0 {
                        assert(s[j] == s.drop_first()[j - 1]);
                    }
                }
            },
        }
    }
}

/// The pieces of `s` before and after the first `sep`, as `str::split_once`
/// gives them.
pub open spec fn split_once(s: Seq<char>, sep: char) -> Option<(Seq<char>, Seq<char>)> {
    match position_of(s, sep) {
        Some(i) => Some((s.take(i), s.skip(i + 1))),
        None => None,
    }
}

/// Index of the first `c` in `v[lo..hi]`.
pub fn find_char(v: &Vec<char>, lo: usize, hi: usize, c: char) -> (r: Option<usize>)
    requires
        lo <= hi <= v.len(),
    ensures
        r == (match position_of(v@.subrange(lo as int, hi as int), c) {
            Some(i) => Some((lo + i) as usize),
            None => None::<usize>,
        }),
{
    let ghost s = v@.subrange(lo as int, hi as int);
    proof {
        lemma_position_of(s, c);
    }
    let mut i = lo;
    while i < hi
        invariant
            lo <= i <= hi <= v.len(),
            s == v@.subrange(lo as int, hi as int),
            forall|j: int| lo <= j < i ==> v@[j] != c,
        decreases hi - i,
    {
        if v[i] == c {
            proof {
                lemma_position_of(s, c);
                assert(s[i - lo] == c);
                assert forall|j: int| 0 <= j < i - lo implies s[j] != c by {
                    assert(s[j] == v@[lo + j]);
                }
                match position_of(s, c) {
                    Some(k) => {
                        if k < i - lo {
                            assert(s[k] == v@[lo + k]);
                        }
                    },
                    None => {},
                }
            }
            return Some(i);
        }
        i = i + 1;
    }
    proof {
        match position_of(s, c) {
            Some(k) => {
                assert(s[k] == v@[lo + k]);
            },
            None => {},
        }
    }
    None
}

// ---------------------------------------------------------------------------
// Decimal integers
// ---------------------------------------------------------------------------

/// An ASCII decimal digit.
pub open spec fn is_digit(c: char) -> bool {
    48 <= (c as u32) <= 57
}

/// Every character of `s` is an ASCII decimal digit.
pub open spec fn all_digits(s: Seq<char>) -> bool {
    forall|i: int| 0 <= i < s.len() ==> is_digit(#[trigger] s[i])
}

/// The number that the digit string `s` denotes in base ten.
pub open spec fn decimal_value(s: Seq<char>) -> int
    decreases s.len(),
{
    if s.len() == 0 {
        0
    } else {
        10 * decimal_value(s.drop_last()) + ((s.last() as u32) - 48)
    }
}

/// The integer that `s` denotes when it is an optional `+` or `-` followed by
/// at least one ASCII digit, the grammar of `i16::from_str` (no whitespace,
/// no other characters).
pub open spec fn signed_decimal(s: Seq<char>) -> Option<int> {
    let signed = s.len() > 0 && (s[0] == '-' || s[0] == '+');
    let digits = if signed { s.drop_first() } else { s };
    if digits.len() > 0 && all_digits(digits) {
        Some(if s.len() > 0 && s[0] == '-' { -decimal_value(digits) } else { decimal_value(digits) })
    } else {
        None
    }
}

/// What `s.parse::<i16>().ok()` returns: the denoted integer when `s` is a
/// well-formed decimal whose value fits in an `i16`.
pub open spec fn parse_i16(s: Seq<char>) -> Option<i16> {
    match signed_decimal(s) {
        Some(v) => if i16::MIN <= v <= i16::MAX { Some(v as i16) } else { None },
        None => None,
    }
}

/// Parses `v[lo..hi]` as an `i16`.
pub fn parse_i16_range(v: &Vec<char>, lo: usize, hi: usize) -> (r: Option<i16>)
    requires
        lo <= hi <= v.len(),
    ensures
        r == parse_i16(v@.subrange(lo as int, hi as int)),
{
    let ghost s = v@.subrange(lo as int, hi as int);
    if lo == hi {
        return None;
    }
    let negative = v[lo] == '-';
    let start = if negative || v[lo] == '+' { lo + 1 } else { lo };
    let ghost digits = v@.subrange(start as int, hi as int);
    assert(digits =~= (if s.len() > 0 && (s[0] == '-' || s[0] == '+') { s.drop_first() } else { s }));
    if start == hi {
        return None;
    }
    // `acc` is exact while it stays at most 32768; past that only the fact
    // that the value is too large for any `i16` is kept.
    let mut acc: i32 = 0;
    let mut big = false;
    let mut i = start;
    while i < hi
        invariant
            lo <= start <= i <= hi <= v.len(),
            digits == v@.subrange(start as int, hi as int),
            s == v@.subrange(lo as int, hi as int),
            digits == (if s.len() > 0 && (s[0] == '-' || s[0] == '+') { s.drop_first() } else { s }),
            negative == (s[0] == '-'),
            s.len() > 0,
            forall|j: int| start <= j < i ==> is_digit(#[trigger] v@[j]),
            !big ==> 0 <= acc <= 32768 && acc == decimal_value(v@.subrange(start as int, i as int)),
            big ==> decimal_value(v@.subrange(start as int, i as int)) > 32768,
        decreases hi - i,
    {
        let c = v[i];
        let u = c as u32;
        if u < 48 || u > 57 {
            assert(!is_digit(digits[i - start]));
            return None;
        }
        let ghost prefix = v@.subrange(start as int, i + 1);
        assert(prefix.drop_last() =~= v@.subrange(start as int, i as int));
        assert(prefix.last() == c);
        if !big {
            let next: i32 = acc * 10 + (u - 48) as i32;
            if next > 32768 {
                big = true;
            } else {
                acc = next;
            }
        }
        i = i + 1;
    }
    assert(v@.subrange(start as int, i as int) =~= digits);
    assert(all_digits(digits)) by {
        assert forall|k: int| 0 <= k < digits.len() implies is_digit(#[trigger] digits[k]) by {
            assert(digits[k] == v@[start + k]);
        }
    }
    if big {
        None
    } else if negative {
        Some((0 - acc) as i16)
    } else if acc <= 32767 {
        Some(acc as i16)
    } else {
        None
    }
}

/// What `s.trim().parse::<i16>().ok()` returns.
pub fn parse_trimmed_i16(s: &str) -> (r: Option<i16>)
    ensures
        r == parse_i16(trim(s@)),
{
    let v = chars_of(s);
    let (a, b) = trim_range(&v, 0, v.len());
    assert(v@.subrange(0, v.len() as int) =~= s@);
    parse_i16_range(&v, a, b)
}

// ---------------------------------------------------------------------------
// Building strings
// ---------------------------------------------------------------------------

/// `String::push`, which appends one character to the string.
#[verifier::external_body]
pub(crate) fn string_push(s: &mut String, c: char)
    ensures
        final(s)@ == old(s)@.push(c),
{
    s.push(c);
}

/// The string made of `v[lo..hi]`.
pub fn string_from_range(v: &Vec<char>, lo: usize, hi: usize) -> (r: String)
    requires
        lo <= hi <= v.len(),
    ensures
        r@ == v@.subrange(lo as int, hi as int),
{
    let mut r = String::new();
    let mut i = lo;
    while i < hi
        invariant
            lo <= i <= hi <= v.len(),
            r@ == v@.subrange(lo as int, i as int),
        decreases hi - i,
    {
        string_push(&mut r, v[i]);
        assert(v@.subrange(lo as int, i + 1) =~= v@.subrange(lo as int, i as int).push(v@[i as int]));
        i = i + 1;
    }
    r
}

/// What `s.trim().to_string()` returns.
pub fn trimmed(s: &str) -> (r: String)
    ensures
        r@ == trim(s@),
{
    let v = chars_of(s);
    let (a, b) = trim_range(&v, 0, v.len());
    assert(v@.subrange(0, v.len() as int) =~= s@);
    string_from_range(&v, a, b)
}

// ---------------------------------------------------------------------------
// Decimal rendering
// ---------------------------------------------------------------------------

/// The ASCII digit for `d` in `0..10`.
pub open spec fn digit_char(d: int) -> char {
    (48 + d) as char
}

/// The shortest base-ten digit string of `n` (no leading zeros).
pub open spec fn decimal_text(n: nat) -> Seq<char>
    decreases n,
{
    if n < 10 {
        seq![digit_char(n as int)]
    } else {
        decimal_text(n / 10).push(digit_char((n % 10) as int))
    }
}

/// `v` written in base ten as `Display` writes integers: a `-` for negative
/// numbers, then the digits without leading zeros.
pub open spec fn signed_text(v: int) -> Seq<char> {
    if v < 0 {
        seq!['-'] + decimal_text((-v) as nat)
    } else {
        decimal_text(v as nat)
    }
}

proof fn lemma_digit_char(d: int)
    requires
        0 <= d < 10,
    ensures
        is_digit(digit_char(d)),
        (digit_char(d) as u32) - 48 == d,
        !is_whitespace(digit_char(d)),
        digit_char(d) != ',',
        digit_char(d) != '-',
        digit_char(d) != '+',
{
}

/// The digits of `n` are digits, denote `n`, and hold no comma.
pub proof fn lemma_decimal_text(n: nat)
    ensures
        decimal_text(n).len() > 0,
        all_digits(decimal_text(n)),
        decimal_value(decimal_text(n)) == n,
        forall|i: int| 0 <= i < decimal_text(n).len() ==> #[trigger] decimal_text(n)[i] != ',',
        !is_whitespace(decimal_text(n)[0]),
        !is_whitespace(decimal_text(n).last()),
        decimal_text(n)[0] != '-',
        decimal_text(n)[0] != '+',
    decreases n,
{
    if n < 10 {
        lemma_digit_char(n as int);
        assert(decimal_text(n).drop_last() =~= Seq::<char>::empty());
        assert(decimal_value(Seq::<char>::empty()) == 0);
        assert(decimal_value(decimal_text(n)) == 10 * decimal_value(decimal_text(n).drop_last()) + n);
    } else {
        lemma_decimal_text(n / 10);
        lemma_digit_char((n % 10) as int);
        let t = decimal_text(n);
        assert(t.drop_last() =~= decimal_text(n / 10));
        assert(decimal_value(t) == 10 * (n / 10) + n % 10);
        assert forall|i: int| 0 <= i < t.len() implies is_digit(#[trigger] t[i]) by {
            if i < t.len() - 1 {
                assert(t[i] == decimal_text(n / 10)[i]);
            }
        }
        assert forall|i: int| 0 <= i < t.len() implies #[trigger] t[i] != ',' by {
            if i < t.len() - 1 {
                assert(t[i] == decimal_text(n / 10)[i]);
            }
        }
        assert(t[0] == decimal_text(n / 10)[0]);
    }
}

/// A trimmed text is unchanged by `trim` when it starts and ends with
/// non-whitespace.
proof fn lemma_trim_of_tight(s: Seq<char>)
    requires
        s.len() > 0,
        !is_whitespace(s[0]),
        !is_whitespace(s.last()),
    ensures
        trim(s) == s,
{
}

/// Parsing the base-ten text of an `i16` gives it back.
pub proof fn lemma_parse_signed_text(v: i16)
    ensures
        parse_i16(trim(signed_text(v as int))) == Some(v),
        signed_text(v as int).len() > 0,
        trim(signed_text(v as int)) == signed_text(v as int),
        !is_whitespace(signed_text(v as int)[0]),
        !is_whitespace(signed_text(v as int).last()),
        forall|i: int|
            0 <= i < signed_text(v as int).len() ==> #[trigger] signed_text(v as int)[i] != ',',
{
    let t = signed_text(v as int);
    if v < 0 {
        let m = (-(v as int)) as nat;
        lemma_decimal_text(m);
        let d = decimal_text(m);
        assert(t.drop_first() =~= d);
        assert(t.last() == d.last());
        lemma_trim_of_tight(t);
        assert forall|i: int| 0 <= i < t.len() implies #[trigger] t[i] != ',' by {
            if i > 0 {
                assert(t[i] == d[i - 1]);
            }
        }
    } else {
        lemma_decimal_text(v as nat);
        lemma_trim_of_tight(t);
    }
}

/// Text holding a comma is no integer.
pub proof fn lemma_comma_is_no_integer(u: Seq<char>)
    requires
        u.contains(','),
    ensures
        parse_i16(u) is None,
{
    let q = choose|q: int| 0 <= q < u.len() && u[q] == ',';
    let signed = u.len() > 0 && (u[0] == '-' || u[0] == '+');
    if signed {
        assert(u.drop_first()[q - 1] == ',');
        assert(!is_digit(u.drop_first()[q - 1]));
    } else {
        assert(!is_digit(u[q]));
    }
}

} // verus!
