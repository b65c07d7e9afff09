//! Character-level text operations with their specifications: whitespace
//! trimming, prefix and substring search, replacement of every occurrence,
//! and decimal rendering of numbers.

use vstd::prelude::*;

verus! {

// ---------------------------------------------------------------------------
// Specifications
// ---------------------------------------------------------------------------

/// The characters that carry the Unicode `White_Space` property, which is
/// what `char::is_whitespace` (and therefore `str::trim`) tests.
pub open spec fn is_whitespace(c: char) -> bool {
    ||| ('\t' <= c && c <= '\r')
    ||| c == ' '
    ||| c == '\u{85}'
    ||| c == '\u{a0}'
    ||| c == '\u{1680}'
    ||| ('\u{2000}' <= c && c <= '\u{200a}')
    ||| c == '\u{2028}'
    ||| c == '\u{2029}'
    ||| c == '\u{202f}'
    ||| c == '\u{205f}'
    ||| c == '\u{3000}'
}

/// `s` without its leading whitespace.
pub open spec fn trim_start_seq(s: Seq<char>) -> Seq<char>
    decreases s.len(),
{
    if s.len() > 0 && is_whitespace(s[0]) {
        trim_start_seq(s.drop_first())
    } else {
        s
    }
}

/// `s` without its trailing whitespace.
pub open spec fn trim_end_seq(s: Seq<char>) -> Seq<char>
    decreases s.len(),
{
    if s.len() > 0 && is_whitespace(s.last()) {
        trim_end_seq(s.drop_last())
    } else {
        s
    }
}

/// `s` without leading and trailing whitespace.
pub open spec fn trim_seq(s: Seq<char>) -> Seq<char> {
    trim_end_seq(trim_start_seq(s))
}

/// The text held by an optional string.
pub open spec fn opt_text(o: Option<String>) -> Option<Seq<char>> {
    match o {
        Some(s) => Some(s@),
        None => None,
    }
}

/// The text held by an optional string slice.
pub open spec fn opt_str_text(o: Option<&str>) -> Option<Seq<char>> {
    match o {
        Some(s) => Some(s@),
        None => None,
    }
}

/// The text of an optional string, or nothing where there is none.
pub open spec fn text_or_empty(o: Option<String>) -> Seq<char> {
    match o {
        Some(s) => s@,
        None => Seq::empty(),
    }
}

/// `pat` occurs in `s` starting at index `i`.
pub open spec fn matches_at(s: Seq<char>, pat: Seq<char>, i: int) -> bool {
    &&& 0 <= i
    &&& i + pat.len() <= s.len()
    &&& s.subrange(i, i + pat.len()) == pat
}

/// `s` begins with `pat`.
pub open spec fn starts_with(s: Seq<char>, pat: Seq<char>) -> bool {
    matches_at(s, pat, 0)
}

/// `pat` occurs somewhere in `s`.
pub open spec fn contains(s: Seq<char>, pat: Seq<char>) -> bool {
    exists|i: int| matches_at(s, pat, i)
}

/// The largest index below `n` at which `pat` occurs in `s`, if any.
pub open spec fn last_match_below(s: Seq<char>, pat: Seq<char>, n: nat) -> Option<nat>
    decreases n,
{
    if n == 0 {
        None
    } else if matches_at(s, pat, n - 1) {
        Some((n - 1) as nat)
    } else {
        last_match_below(s, pat, (n - 1) as nat)
    }
}

/// The index of the last occurrence of `pat` in `s`, if any.
pub open spec fn rfind(s: Seq<char>, pat: Seq<char>) -> Option<nat> {
    last_match_below(s, pat, s.len() + 1)
}

/// `s` with every occurrence of the non-empty `pat` replaced by `rep`,
/// scanning from the left and never looking into replaced text again.
/// An empty `pat` leaves `s` unchanged.
pub open spec fn replace_all(s: Seq<char>, pat: Seq<char>, rep: Seq<char>) -> Seq<char>
    decreases s.len(),
{
    if s.len() == 0 {
        s
    } else if pat.len() > 0 && starts_with(s, pat) {
        rep + replace_all(s.skip(pat.len() as int), pat, rep)
    } else {
        seq![s[0]] + replace_all(s.drop_first(), pat, rep)
    }
}

/// The decimal digit character for `d < 10`.
pub open spec fn digit_char(d: nat) -> char {
    seq!['0', '1', '2', '3', '4', '5', '6', '7', '8', '9'][d as int]
}

/// The decimal representation of `n`, without leading zeros.
pub open spec fn decimal(n: nat) -> Seq<char>
    decreases n,
{
    if n < 10 {
        seq![digit_char(n)]
    } else {
        decimal(n / 10).push(digit_char(n % 10))
    }
}

/// The number that the digit characters of `s` stand for.
pub open spec fn decimal_value(s: Seq<char>) -> int
    decreases s.len(),
{
    if s.len() == 0 {
        0
    } else {
        decimal_value(s.drop_last()) * 10 + digit_value(s.last())
    }
}

/// The value of a decimal digit character.
pub open spec fn digit_value(c: char) -> int {
    (c as int) - ('0' as int)
}

// ---------------------------------------------------------------------------
// Lemmas
// ---------------------------------------------------------------------------

/// Reading back the decimal representation of `n` gives `n`.
pub proof fn lemma_decimal_value(n: nat)
    ensures
        decimal_value(decimal(n)) == n,
        decimal(n).len() >= 1,
    decreases n,
{
    if n < 10 {
        lemma_digit_char(n);
        assert(decimal(n).drop_last() =~= Seq::<char>::empty());
        assert(decimal_value(Seq::<char>::empty()) == 0);
        assert(decimal_value(decimal(n)) == decimal_value(decimal(n).drop_last()) * 10
            + digit_value(decimal(n).last()));
    } else {
        lemma_decimal_value(n / 10);
        lemma_digit_char(n % 10);
        assert(decimal(n).drop_last() =~= decimal(n / 10));
        assert(decimal_value(decimal(n)) == decimal_value(decimal(n / 10)) * 10
            + digit_value(digit_char(n % 10)));
        assert((n / 10) * 10 + n % 10 == n);
    }
}

/// The digit character for `d` stands for `d` and is a digit.
pub proof fn lemma_digit_char(d: nat)
    requires
        d < 10,
    ensures
        digit_value(digit_char(d)) == d,
        is_digit(digit_char(d)),
{
    let digits = seq!['0', '1', '2', '3', '4', '5', '6', '7', '8', '9'];
    if d == 0 {
        assert(digits[0] == '0');
    } else if d == 1 {
        assert(digits[1] == '1');
    } else if d == 2 {
        assert(digits[2] == '2');
    } else if d == 3 {
        assert(digits[3] == '3');
    } else if d == 4 {
        assert(digits[4] == '4');
    } else if d == 5 {
        assert(digits[5] == '5');
    } else if d == 6 {
        assert(digits[6] == '6');
    } else if d == 7 {
        assert(digits[7] == '7');
    } else if d == 8 {
        assert(digits[8] == '8');
    } else {
        assert(digits[9] == '9');
    }
}

/// Distinct numbers have distinct decimal representations.
pub proof fn lemma_decimal_injective(a: nat, b: nat)
    requires
        decimal(a) == decimal(b),
    ensures
        a == b,
{
    lemma_decimal_value(a);
    lemma_decimal_value(b);
}

/// A larger number never has fewer decimal digits.
pub proof fn lemma_decimal_len_monotone(a: nat, b: nat)
    requires
        a <= b,
    ensures
        decimal(a).len() <= decimal(b).len(),
    decreases b,
{
    if b >= 10 {
        if a >= 10 {
            lemma_decimal_len_monotone(a / 10, b / 10);
        } else {
            lemma_decimal_value(b / 10);
        }
    }
}

/// No character of a decimal representation is `'$'`.
pub proof fn lemma_decimal_has_no_dollar(n: nat)
    ensures
        !decimal(n).contains('$'),
    decreases n,
{
    if n >= 10 {
        lemma_decimal_has_no_dollar(n / 10);
        assert forall|i: int| 0 <= i < decimal(n).len() implies decimal(n)[i] != '$' by {
            if i < decimal(n / 10).len() {
                assert(decimal(n)[i] == decimal(n / 10)[i]);
            }
        }
    }
}

/// A decimal digit character.
pub open spec fn is_digit(c: char) -> bool {
    '0' <= c && c <= '9'
}

/// Every character of a decimal representation is a digit.
pub proof fn lemma_decimal_digits(n: nat)
    ensures
        forall|i: int| 0 <= i < decimal(n).len() ==> is_digit(#[trigger] decimal(n)[i]),
    decreases n,
{
    if n < 10 {
        lemma_digit_char(n);
    } else {
        lemma_decimal_digits(n / 10);
        lemma_digit_char(n % 10);
        assert forall|i: int| 0 <= i < decimal(n).len() implies is_digit(#[trigger] decimal(n)[i]) by {
            if i < decimal(n / 10).len() {
                assert(decimal(n)[i] == decimal(n / 10)[i]);
            }
        }
    }
}

/// Replacing a pattern that begins with a character absent from `a` leaves
/// `a` in front untouched.
pub proof fn lemma_replace_plain_prefix(a: Seq<char>, b: Seq<char>, pat: Seq<char>, rep: Seq<char>)
    requires
        pat.len() > 0,
        !a.contains(pat[0]),
    ensures
        replace_all(a + b, pat, rep) == a + replace_all(b, pat, rep),
    decreases a.len(),
{
    if a.len() == 0 {
        assert(a + b =~= b);
    } else {
        let s = a + b;
        if starts_with(s, pat) {
            assert(s.subrange(0, pat.len() as int)[0] == s[0]);
            assert(a.contains(a[0]));
        }
        assert(s.drop_first() =~= a.drop_first() + b);
        assert forall|i: int| 0 <= i < a.drop_first().len() implies a.drop_first()[i] != pat[0] by {
            assert(a.drop_first()[i] == a[i + 1]);
        }
        lemma_replace_plain_prefix(a.drop_first(), b, pat, rep);
        assert(seq![a[0]] + (a.drop_first() + replace_all(b, pat, rep)) =~= a + replace_all(
            b,
            pat,
            rep,
        ));
    }
}

/// Where `pat` occurs nowhere in `s`, replacing it changes nothing.
pub proof fn lemma_replace_absent(s: Seq<char>, pat: Seq<char>, rep: Seq<char>)
    requires
        !contains(s, pat),
    ensures
        replace_all(s, pat, rep) == s,
    decreases s.len(),
{
    if s.len() > 0 {
        if pat.len() > 0 && starts_with(s, pat) {
            assert(matches_at(s, pat, 0));
        }
        assert forall|i: int| !matches_at(s.drop_first(), pat, i) by {
            if matches_at(s.drop_first(), pat, i) {
                assert(s.subrange(i + 1, i + 1 + pat.len()) =~= s.drop_first().subrange(
                    i,
                    i + pat.len(),
                ));
                assert(matches_at(s, pat, i + 1));
            }
        }
        lemma_replace_absent(s.drop_first(), pat, rep);
        assert(seq![s[0]] + s.drop_first() =~= s);
    }
}

/// A pattern that begins with a character absent from `s` does not occur in `s`.
pub proof fn lemma_absent_by_first_char(s: Seq<char>, pat: Seq<char>)
    requires
        pat.len() > 0,
        !s.contains(pat[0]),
    ensures
        !contains(s, pat),
{
    assert forall|i: int| !matches_at(s, pat, i) by {
        if matches_at(s, pat, i) {
            assert(s.subrange(i, i + pat.len())[0] == s[i]);
        }
    }
}

/// What remains after removing leading whitespace is empty or starts with
/// a character that is not whitespace, and is a suffix of `s`.
pub proof fn lemma_trim_start_shape(s: Seq<char>)
    ensures
        trim_start_seq(s).len() > 0 ==> !is_whitespace(trim_start_seq(s)[0]),
        trim_start_seq(s).len() <= s.len(),
        trim_start_seq(s) == s.skip(s.len() - trim_start_seq(s).len()),
    decreases s.len(),
{
    if s.len() > 0 && is_whitespace(s[0]) {
        lemma_trim_start_shape(s.drop_first());
        assert(s.drop_first().skip(s.drop_first().len() - trim_start_seq(s).len()) =~= s.skip(
            s.len() - trim_start_seq(s).len(),
        ));
    } else {
        assert(s.skip(0) =~= s);
    }
}

/// What remains after removing trailing whitespace is empty or ends with a
/// character that is not whitespace, and is a prefix of `s`.
pub proof fn lemma_trim_end_shape(s: Seq<char>)
    ensures
        trim_end_seq(s).len() > 0 ==> !is_whitespace(trim_end_seq(s).last()),
        trim_end_seq(s).len() <= s.len(),
        trim_end_seq(s) == s.take(trim_end_seq(s).len() as int),
    decreases s.len(),
{
    if s.len() > 0 && is_whitespace(s.last()) {
        lemma_trim_end_shape(s.drop_last());
        assert(s.drop_last().take(trim_end_seq(s).len() as int) =~= s.take(
            trim_end_seq(s).len() as int,
        ));
    } else {
        assert(s.take(s.len() as int) =~= s);
    }
}

/// Trimmed text has nothing more to trim.
pub proof fn lemma_trim_idempotent(s: Seq<char>)
    ensures
        trim_seq(trim_seq(s)) == trim_seq(s),
{
    let a = trim_start_seq(s);
    let t = trim_end_seq(a);
    lemma_trim_start_shape(s);
    lemma_trim_end_shape(a);
    if t.len() > 0 {
        assert(t[0] == a[0]);
    }
    assert(trim_start_seq(t) == t);
    lemma_trim_end_shape(t);
    if t.len() > 0 {
        assert(trim_end_seq(t) == t);
    }
}

// ---------------------------------------------------------------------------
// Conversions between strings and characters
// ---------------------------------------------------------------------------

/// Appends one character to a string.
///
/// Trusted: calls `String::push`, whose documentation says that it appends
/// the given char to the end of the string.
#[verifier::external_body]
fn push_char(s: &mut String, c: char)
    ensures
        final(s)@ == old(s)@.push(c),
{
    s.push(c);
}

/// The characters of a string, in order.
pub fn chars_of(s: &str) -> (v: Vec<char>)
    ensures
        v@ == s@,
{
    let mut v: Vec<char> = Vec::new();
    for c in it: s.chars()
        invariant
            v@ == it.seq().take(it.index() as int),
            it.seq() == s@,
    {
        v.push(c);
    }
    v
}

/// A string holding the given characters.
pub fn string_of(v: &[char]) -> (s: String)
    ensures
        s@ == v@,
{
    let mut s = String::new();
    let mut i: usize = 0;
    while i < v.len()
        invariant
            i <= v.len(),
            s@ == v@.take(i as int),
        decreases v.len() - i,
    {
        push_char(&mut s, v[i]);
        assert(v@.take(i as int).push(v@[i as int]) =~= v@.take(i + 1));
        i += 1;
    }
    assert(v@.take(v@.len() as int) =~= v@);
    s
}

/// Appends the characters of `src` to `dst`.
pub fn extend_chars(dst: &mut Vec<char>, src: &[char])
    ensures
        final(dst)@ == old(dst)@ + src@,
{
    let mut i: usize = 0;
    while i < src.len()
        invariant
            i <= src.len(),
            dst@ == old(dst)@ + src@.take(i as int),
        decreases src.len() - i,
    {
        dst.push(src[i]);
        assert(src@.take(i as int).push(src@[i as int]) =~= src@.take(i + 1));
        i += 1;
    }
    assert(src@.take(src@.len() as int) =~= src@);
}

/// The characters `v[lo..hi]`.
pub fn slice_chars(v: &[char], lo: usize, hi: usize) -> (r: Vec<char>)
    requires
        lo <= hi <= v.len(),
    ensures
        r@ == v@.subrange(lo as int, hi as int),
{
    let mut r: Vec<char> = Vec::new();
    let mut i: usize = lo;
    while i < hi
        invariant
            lo <= i <= hi <= v.len(),
            r@ == v@.subrange(lo as int, i as int),
        decreases hi - i,
    {
        r.push(v[i]);
        assert(v@.subrange(lo as int, i as int).push(v@[i as int]) =~= v@.subrange(
            lo as int,
            i + 1,
        ));
        i += 1;
    }
    r
}

// ---------------------------------------------------------------------------
// Whitespace
// ---------------------------------------------------------------------------

/// Whether `c` is a whitespace character.
pub fn char_is_whitespace(c: char) -> (b: bool)
    ensures
        b == is_whitespace(c),
{
    ('\t' <= c && c <= '\r') || c == ' ' || c == '\u{85}' || c == '\u{a0}' || c == '\u{1680}'
        || ('\u{2000}' <= c && c <= '\u{200a}') || c == '\u{2028}' || c == '\u{2029}' || c
        == '\u{202f}' || c == '\u{205f}' || c == '\u{3000}'
}

/// The number of leading whitespace characters of `v`.
pub fn leading_whitespace(v: &[char]) -> (k: usize)
    ensures
        k <= v.len(),
        trim_start_seq(v@) == v@.skip(k as int),
{
    let mut i: usize = 0;
    assert(v@.skip(0) =~= v@);
    while i < v.len() && char_is_whitespace(v[i])
        invariant
            i <= v.len(),
            trim_start_seq(v@) == trim_start_seq(v@.skip(i as int)),
        decreases v.len() - i,
    {
        assert(v@.skip(i as int).drop_first() =~= v@.skip(i + 1));
        i += 1;
    }
    i
}

/// The end of `v[lo..]` once its trailing whitespace is removed.
pub fn trailing_end(v: &[char], lo: usize) -> (j: usize)
    requires
        lo <= v.len(),
    ensures
        lo <= j <= v.len(),
        trim_end_seq(v@.skip(lo as int)) == v@.subrange(lo as int, j as int),
{
    let mut j: usize = v.len();
    assert(v@.skip(lo as int) =~= v@.subrange(lo as int, v.len() as int));
    while j > lo && char_is_whitespace(v[j - 1])
        invariant
            lo <= j <= v.len(),
            trim_end_seq(v@.skip(lo as int)) == trim_end_seq(v@.subrange(lo as int, j as int)),
        decreases j,
    {
        assert(v@.subrange(lo as int, j as int).drop_last() =~= v@.subrange(
            lo as int,
            j - 1,
        ));
        j -= 1;
    }
    j
}

/// The bounds of `v` once leading and trailing whitespace are removed.
pub fn trim_bounds(v: &[char]) -> (r: (usize, usize))
    ensures
        r.0 <= r.1 <= v.len(),
        trim_seq(v@) == v@.subrange(r.0 as int, r.1 as int),
{
    let lo = leading_whitespace(v);
    let hi = trailing_end(v, lo);
    (lo, hi)
}

/// `v` without leading and trailing whitespace.
pub fn trim_chars(v: &[char]) -> (r: Vec<char>)
    ensures
        r@ == trim_seq(v@),
{
    let (lo, hi) = trim_bounds(v);
    slice_chars(v, lo, hi)
}

/// `v` without leading whitespace.
pub fn trim_start_chars(v: &[char]) -> (r: Vec<char>)
    ensures
        r@ == trim_start_seq(v@),
{
    let lo = leading_whitespace(v);
    slice_chars(v, lo, v.len())
}

/// `s` without leading and trailing whitespace, as `str::trim` gives it.
pub fn trim(s: &str) -> (r: String)
    ensures
        r@ == trim_seq(s@),
{
    let v = chars_of(s);
    let t = trim_chars(v.as_slice());
    string_of(t.as_slice())
}

/// Whether `s` holds nothing but whitespace.
pub fn is_blank(s: &str) -> (b: bool)
    ensures
        b == (trim_seq(s@).len() == 0),
{
    let v = chars_of(s);
    let (lo, hi) = trim_bounds(v.as_slice());
    lo == hi
}

// ---------------------------------------------------------------------------
// Searching
// ---------------------------------------------------------------------------

/// Whether `pat` occurs in `v` at index `i`.
pub fn matches_at_exec(v: &[char], pat: &[char], i: usize) -> (b: bool)
    ensures
        b == matches_at(v@, pat@, i as int),
{
    if i > v.len() || pat.len() > v.len() - i {
        return false;
    }
    let mut k: usize = 0;
    while k < pat.len()
        invariant
            k <= pat.len(),
            i + pat.len() <= v.len(),
            forall|m: int| 0 <= m < k ==> v@[i + m] == pat@[m],
        decreases pat.len() - k,
    {
        if v[i + k] != pat[k] {
            assert(v@.subrange(i as int, i + pat.len())[k as int] != pat@[k as int]);
            return false;
        }
        k += 1;
    }
    assert(v@.subrange(i as int, i + pat.len()) =~= pat@);
    true
}

/// Whether `a` and `b` hold the same characters.
pub fn chars_eq(a: &[char], b: &[char]) -> (r: bool)
    ensures
        r == (a@ == b@),
{
    if a.len() != b.len() {
        return false;
    }
    let mut i: usize = 0;
    while i < a.len()
        invariant
            i <= a.len() == b.len(),
            forall|m: int| 0 <= m < i ==> a@[m] == b@[m],
        decreases a.len() - i,
    {
        if a[i] != b[i] {
            return false;
        }
        i += 1;
    }
    assert(a@ =~= b@);
    true
}

/// Whether `pat` occurs anywhere in `v`.
pub fn contains_chars(v: &[char], pat: &[char]) -> (b: bool)
    ensures
        b == contains(v@, pat@),
{
    let mut i: usize = 0;
    while i < v.len()
        invariant
            i <= v.len(),
            forall|m: int| 0 <= m < i ==> !matches_at(v@, pat@, m),
        decreases v.len() - i,
    {
        if matches_at_exec(v, pat, i) {
            return true;
        }
        i += 1;
    }
    matches_at_exec(v, pat, v.len())
}

/// The index of the last occurrence of `pat` in `v`, as `str::rfind` finds it.
pub fn rfind_chars(v: &[char], pat: &[char]) -> (r: Option<usize>)
    ensures
        match r {
            Some(i) => rfind(v@, pat@) == Some(i as nat),
            None => rfind(v@, pat@) is None,
        },
        r matches Some(i) ==> matches_at(v@, pat@, i as int),
{
    if matches_at_exec(v, pat, v.len()) {
        return Some(v.len());
    }
    let mut n: usize = v.len();
    while n > 0
        invariant
            n <= v.len() + 1,
            rfind(v@, pat@) == last_match_below(v@, pat@, n as nat),
        decreases n,
    {
        if matches_at_exec(v, pat, n - 1) {
            return Some(n - 1);
        }
        n -= 1;
    }
    None
}

// ---------------------------------------------------------------------------
// Replacement and numbers
// ---------------------------------------------------------------------------

/// `s` with every occurrence of `pat` replaced by `rep`, as `str::replace`
/// does for a non-empty pattern.
pub fn replace_all_chars(s: &[char], pat: &[char], rep: &[char]) -> (r: Vec<char>)
    requires
        pat.len() > 0,
    ensures
        r@ == replace_all(s@, pat@, rep@),
{
    let mut out: Vec<char> = Vec::new();
    let mut i: usize = 0;
    assert(s@.skip(0) =~= s@);
    while i < s.len()
        invariant
            i <= s.len(),
            pat.len() > 0,
            out@ + replace_all(s@.skip(i as int), pat@, rep@) == replace_all(s@, pat@, rep@),
        decreases s.len() - i,
    {
        let ghost rest = s@.skip(i as int);
        if matches_at_exec(s, pat, i) {
            assert(rest.subrange(0, pat.len() as int) =~= s@.subrange(
                i as int,
                i + pat.len(),
            ));
            assert(rest.skip(pat.len() as int) =~= s@.skip(i + pat.len()));
            let ghost prev = out@;
            extend_chars(&mut out, rep);
            assert(out@ + replace_all(s@.skip(i + pat.len()), pat@, rep@) =~= prev
                + replace_all(rest, pat@, rep@));
            i = i + pat.len();
        } else {
            proof {
                if starts_with(rest, pat@) {
                    assert(rest.subrange(0, pat.len() as int) =~= s@.subrange(
                        i as int,
                        i + pat.len(),
                    ));
                }
            }
            assert(rest.drop_first() =~= s@.skip(i + 1));
            out.push(s[i]);
            i = i + 1;
        }
    }
    assert(s@.skip(s.len() as int) =~= Seq::<char>::empty());
    assert(out@ + Seq::<char>::empty() =~= out@);
    out
}

/// The decimal representation of `n`, as `n.to_string()` writes it.
pub fn decimal_chars(n: u64) -> (r: Vec<char>)
    ensures
        r@ == decimal(n as nat),
{
    let digits: [char; 10] = ['0', '1', '2', '3', '4', '5', '6', '7', '8', '9'];
    assert(digits@ =~= seq!['0', '1', '2', '3', '4', '5', '6', '7', '8', '9']);
    let mut acc: Vec<char> = Vec::new();
    let mut m: u64 = n;
    loop
        invariant
            decimal(n as nat) == decimal(m as nat) + acc@,
            digits@ == seq!['0', '1', '2', '3', '4', '5', '6', '7', '8', '9'],
        decreases m,
    {
        let d = digits[(m % 10) as usize];
        acc.insert(0, d);
        if m < 10 {
            assert(decimal(m as nat) =~= seq![d]);
            assert(decimal(n as nat) =~= acc@);
            return acc;
        }
        assert(decimal(m as nat) == decimal((m / 10) as nat).push(d));
        assert(decimal(n as nat) =~= decimal((m / 10) as nat) + acc@);
        m = m / 10;
    }
}

} // verus!
