//! Character-level text operations with their mathematical meaning.
//!
//! Strings are modelled as `Seq<char>`; the searching, splitting, trimming and
//! number conversions here follow the behaviour of the corresponding `str`
//! operations of the standard library, stated over that model.
use vstd::prelude::*;

verus! {

// ---------------------------------------------------------------------------
// Specifications
// ---------------------------------------------------------------------------

/// `pat` occurs in `s` starting at position `i`.
pub open spec fn matches_at(s: Seq<char>, pat: Seq<char>, i: int) -> bool {
    &&& 0 <= i
    &&& i + pat.len() <= s.len()
    &&& s.subrange(i, i + pat.len()) == pat
}

/// First occurrence of `pat` in `s` at a position `>= k`.
pub open spec fn find_from(s: Seq<char>, pat: Seq<char>, k: int) -> Option<int>
    decreases s.len() + 1 - k,
{
    if k < 0 || k + pat.len() > s.len() {
        None
    } else if matches_at(s, pat, k) {
        Some(k)
    } else {
        find_from(s, pat, k + 1)
    }
}

/// First occurrence of `pat` in `s` (as `str::find`).
pub open spec fn find(s: Seq<char>, pat: Seq<char>) -> Option<int> {
    find_from(s, pat, 0)
}

/// Last occurrence of `pat` in `s` starting strictly before position `k`.
pub open spec fn rfind_below(s: Seq<char>, pat: Seq<char>, k: int) -> Option<int>
    decreases k,
{
    if k <= 0 {
        None
    } else if matches_at(s, pat, k - 1) {
        Some(k - 1)
    } else {
        rfind_below(s, pat, k - 1)
    }
}

/// Last occurrence of `pat` in `s` (as `str::rfind`).
pub open spec fn rfind(s: Seq<char>, pat: Seq<char>) -> Option<int> {
    rfind_below(s, pat, s.len() - pat.len() + 1)
}

/// `s` contains `pat` (as `str::contains`).
pub open spec fn contains(s: Seq<char>, pat: Seq<char>) -> bool {
    find(s, pat) is Some
}

/// `s` starts with `pat`.
pub open spec fn starts_with(s: Seq<char>, pat: Seq<char>) -> bool {
    pat.len() <= s.len() && s.subrange(0, pat.len() as int) == pat
}

/// `s` ends with `pat`.
pub open spec fn ends_with(s: Seq<char>, pat: Seq<char>) -> bool {
    pat.len() <= s.len() && s.subrange(s.len() - pat.len(), s.len() as int) == pat
}

/// The pieces of `s` between occurrences of the non-empty separator `sep`,
/// searched from the left (as `str::split`).
pub open spec fn split(s: Seq<char>, sep: Seq<char>) -> Seq<Seq<char>>
    decreases s.len(),
{
    if sep.len() == 0 {
        seq![s]
    } else {
        match find(s, sep) {
            None => seq![s],
            Some(m) => {
                if 0 <= m && m + sep.len() <= s.len() {
                    seq![s.subrange(0, m)] + split(s.subrange(m + sep.len(), s.len() as int), sep)
                } else {
                    seq![s]
                }
            },
        }
    }
}

/// At most two pieces: before and after the first occurrence of `sep`
/// (as `str::splitn(2, sep)`).
pub open spec fn split_once(s: Seq<char>, sep: Seq<char>) -> Seq<Seq<char>> {
    match find(s, sep) {
        None => seq![s],
        Some(m) => seq![s.subrange(0, m), s.subrange(m + sep.len(), s.len() as int)],
    }
}

/// The characters that `char::is_whitespace` accepts (Unicode `White_Space`).
pub open spec fn is_whitespace(c: char) -> bool {
    ||| c == '\t'
    ||| c == '\n'
    ||| c == '\u{0B}'
    ||| c == '\u{0C}'
    ||| c == '\r'
    ||| c == ' '
    ||| c == '\u{85}'
    ||| c == '\u{A0}'
    ||| c == '\u{1680}'
    ||| ('\u{2000}' <= c && c <= '\u{200A}')
    ||| c == '\u{2028}'
    ||| c == '\u{2029}'
    ||| c == '\u{202F}'
    ||| c == '\u{205F}'
    ||| c == '\u{3000}'
}

/// `s` without leading whitespace.
pub open spec fn trim_start(s: Seq<char>) -> Seq<char>
    decreases s.len(),
{
    if s.len() > 0 && is_whitespace(s[0]) {
        trim_start(s.drop_first())
    } else {
        s
    }
}

/// `s` without trailing whitespace.
pub open spec fn trim_end(s: Seq<char>) -> Seq<char>
    decreases s.len(),
{
    if s.len() > 0 && is_whitespace(s.last()) {
        trim_end(s.drop_last())
    } else {
        s
    }
}

/// `s` without leading and trailing whitespace (as `str::trim`).
pub open spec fn trim(s: Seq<char>) -> Seq<char> {
    trim_end(trim_start(s))
}

/// Every character of `s` is an ASCII decimal digit.
pub open spec fn all_digits(s: Seq<char>) -> bool {
    forall|i: int| 0 <= i < s.len() ==> '0' <= #[trigger] s[i] && s[i] <= '9'
}

/// The value of a decimal digit.
pub open spec fn digit_value(c: char) -> int {
    (c as int) - ('0' as int)
}

/// The number that a string of decimal digits denotes.
pub open spec fn decimal_value(s: Seq<char>) -> int
    decreases s.len(),
{
    if s.len() == 0 {
        0
    } else {
        decimal_value(s.drop_last()) * 10 + digit_value(s.last())
    }
}

/// What `str::parse::<u32>` yields: an optional `+`, then one or more
/// decimal digits whose value fits in a `u32`.
pub open spec fn parse_u32(s: Seq<char>) -> Option<u32> {
    let body = if s.len() > 0 && s[0] == '+' {
        s.drop_first()
    } else {
        s
    };
    if body.len() == 0 || !all_digits(body) || decimal_value(body) > u32::MAX {
        None
    } else {
        Some(decimal_value(body) as u32)
    }
}

/// What `str::parse::<i32>` yields: an optional sign, then one or more
/// decimal digits whose signed value fits in an `i32`.
pub open spec fn parse_i32(s: Seq<char>) -> Option<i32> {
    let negative = s.len() > 0 && s[0] == '-';
    let body = if s.len() > 0 && (s[0] == '+' || s[0] == '-') {
        s.drop_first()
    } else {
        s
    };
    if body.len() == 0 || !all_digits(body) {
        None
    } else if negative {
        if -decimal_value(body) < i32::MIN {
            None
        } else {
            Some((-decimal_value(body)) as i32)
        }
    } else {
        if decimal_value(body) > i32::MAX {
            None
        } else {
            Some(decimal_value(body) as i32)
        }
    }
}

/// The character of a digit value below ten.
pub open spec fn digit_char(d: int) -> char {
    ((d + ('0' as int)) as u32) as char
}

/// The shortest decimal rendering of a natural number (as `Display`).
pub open spec fn decimal(n: nat) -> Seq<char>
    decreases n,
{
    if n < 10 {
        seq![digit_char(n as int)]
    } else {
        decimal(n / 10).push(digit_char((n % 10) as int))
    }
}

/// The decimal rendering of an integer, with a leading `-` when negative.
pub open spec fn signed_decimal(n: int) -> Seq<char> {
    if n < 0 {
        seq!['-'] + decimal((-n) as nat)
    } else {
        decimal(n as nat)
    }
}

/// The elements of `parts` with `sep` between each two neighbours
/// (as `[String]::join`).
pub open spec fn join(parts: Seq<Seq<char>>, sep: Seq<char>) -> Seq<char>
    decreases parts.len(),
{
    if parts.len() == 0 {
        seq![]
    } else if parts.len() == 1 {
        parts[0]
    } else {
        join(parts.drop_last(), sep) + sep + parts.last()
    }
}

/// `p` without one trailing carriage return.
pub open spec fn strip_cr(p: Seq<char>) -> Seq<char> {
    if p.len() > 0 && p.last() == '\r' {
        p.drop_last()
    } else {
        p
    }
}

/// The lines of `s` (as `str::lines`): pieces between newlines, a carriage
/// return before a newline dropped, and no empty last line after a final newline.
pub open spec fn lines(s: Seq<char>) -> Seq<Seq<char>> {
    let pieces = split(s, seq!['\n']);
    let k = pieces.len() - 1;
    let init = pieces.take(k).map_values(|p: Seq<char>| strip_cr(p));
    if pieces[k].len() == 0 {
        init
    } else {
        init.push(pieces[k])
    }
}

/// Index of the first whitespace character of `t` at or after `k`, or its length.
pub open spec fn whitespace_from(t: Seq<char>, k: int) -> int
    decreases t.len() - k,
{
    if k < 0 || k >= t.len() {
        t.len() as int
    } else if is_whitespace(t[k]) {
        k
    } else {
        whitespace_from(t, k + 1)
    }
}

/// The first whitespace-separated word of `s`, if any (as the first item of
/// `str::split_whitespace`).
pub open spec fn first_word(s: Seq<char>) -> Option<Seq<char>> {
    let t = trim_start(s);
    if t.len() == 0 {
        None
    } else {
        Some(t.subrange(0, whitespace_from(t, 0)))
    }
}

/// The number of bytes in the UTF-8 encoding of one character.
pub open spec fn char_utf8_len(c: char) -> nat {
    if (c as u32) < 0x80 {
        1
    } else if (c as u32) < 0x800 {
        2
    } else if (c as u32) < 0x10000 {
        3
    } else {
        4
    }
}

/// The number of bytes in the UTF-8 encoding of `s` (as `str::len`).
pub open spec fn byte_len(s: Seq<char>) -> nat
    decreases s.len(),
{
    if s.len() == 0 {
        0
    } else {
        byte_len(s.drop_last()) + char_utf8_len(s.last())
    }
}

/// `s` without runs of equal neighbours, each run kept once (as `Vec::dedup`).
pub open spec fn dedup<A>(s: Seq<A>) -> Seq<A>
    decreases s.len(),
{
    if s.len() <= 1 {
        s
    } else if s.last() == s[s.len() - 2] {
        dedup(s.drop_last())
    } else {
        dedup(s.drop_last()).push(s.last())
    }
}

/// The views of a sequence of strings.
pub open spec fn strings_view(v: Seq<String>) -> Seq<Seq<char>> {
    v.map_values(|s: String| s@)
}

/// `s` padded on the left with `0` to at least `width` characters.
pub open spec fn zero_pad(s: Seq<char>, width: nat) -> Seq<char> {
    if s.len() >= width {
        s
    } else {
        Seq::new((width - s.len()) as nat, |i: int| '0') + s
    }
}

// ---------------------------------------------------------------------------
// Lemmas
// ---------------------------------------------------------------------------

/// The search result is a genuine occurrence, and the first one at or after `k`.
pub proof fn lemma_find_from(s: Seq<char>, pat: Seq<char>, k: int)
    requires
        0 <= k,
    ensures
        find_from(s, pat, k) matches Some(i) ==> k <= i && matches_at(s, pat, i) && forall|j: int|
            k <= j < i ==> !matches_at(s, pat, j),
        find_from(s, pat, k) is None ==> forall|j: int| k <= j ==> !matches_at(s, pat, j),
    decreases s.len() + 1 - k,
{
    if k + pat.len() > s.len() {
    } else if matches_at(s, pat, k) {
    } else {
        lemma_find_from(s, pat, k + 1);
    }
}

/// `find` yields the first occurrence, or `None` when there is none.
pub proof fn lemma_find(s: Seq<char>, pat: Seq<char>)
    ensures
        find(s, pat) matches Some(i) ==> matches_at(s, pat, i) && forall|j: int|
            0 <= j < i ==> !matches_at(s, pat, j),
        find(s, pat) is None ==> forall|j: int| !matches_at(s, pat, j),
{
    lemma_find_from(s, pat, 0);
}

/// The search result is a genuine occurrence, and the last one before `k`.
pub proof fn lemma_rfind_below(s: Seq<char>, pat: Seq<char>, k: int)
    ensures
        rfind_below(s, pat, k) matches Some(i) ==> i < k && matches_at(s, pat, i) && forall|j: int|
            i < j < k ==> !matches_at(s, pat, j),
        rfind_below(s, pat, k) is None ==> forall|j: int| j < k ==> !matches_at(s, pat, j),
    decreases k,
{
    if k <= 0 {
    } else if matches_at(s, pat, k - 1) {
    } else {
        lemma_rfind_below(s, pat, k - 1);
    }
}

/// `rfind` yields the last occurrence, or `None` when there is none.
pub proof fn lemma_rfind(s: Seq<char>, pat: Seq<char>)
    ensures
        rfind(s, pat) matches Some(i) ==> matches_at(s, pat, i) && forall|j: int|
            i < j ==> !matches_at(s, pat, j),
        rfind(s, pat) is None ==> forall|j: int| !matches_at(s, pat, j),
{
    lemma_rfind_below(s, pat, s.len() - pat.len() + 1);
}

/// `contains` holds exactly when some occurrence exists.
pub proof fn lemma_contains(s: Seq<char>, pat: Seq<char>)
    ensures
        contains(s, pat) <==> exists|i: int| matches_at(s, pat, i),
{
    lemma_find(s, pat);
    if let Some(i) = find(s, pat) {
        assert(matches_at(s, pat, i));
    }
}

/// Every digit string has a non-negative value.
pub proof fn lemma_decimal_value_nonneg(s: Seq<char>)
    requires
        all_digits(s),
    ensures
        decimal_value(s) >= 0,
    decreases s.len(),
{
    if s.len() > 0 {
        assert(all_digits(s.drop_last()));
        lemma_decimal_value_nonneg(s.drop_last());
        assert('0' <= s[s.len() - 1]);
    }
}

/// `decimal` renders a number as digits whose value is that number.
pub proof fn lemma_decimal_roundtrip(n: nat)
    ensures
        decimal(n).len() > 0,
        all_digits(decimal(n)),
        decimal_value(decimal(n)) == n,
    decreases n,
{
    if n < 10 {
        let d = digit_char(n as int);
        assert(d as int == n + ('0' as int));
        assert(decimal(n) =~= seq![d]);
        assert(decimal(n).drop_last() =~= Seq::<char>::empty());
        assert(decimal_value(Seq::<char>::empty()) == 0);
        assert(decimal_value(seq![d]) == decimal_value(seq![d].drop_last()) * 10 + digit_value(d));
    } else {
        lemma_decimal_roundtrip(n / 10);
        let d = digit_char((n % 10) as int);
        assert(d as int == (n % 10) + ('0' as int));
        let s = decimal(n);
        assert(s.drop_last() =~= decimal(n / 10));
        assert(s.last() == d);
        assert(decimal_value(s) == decimal_value(decimal(n / 10)) * 10 + digit_value(d));
        assert((n / 10) * 10 + n % 10 == n);
        assert forall|i: int| 0 <= i < s.len() implies '0' <= #[trigger] s[i] && s[i] <= '9' by {
            if i < s.len() - 1 {
                assert(s[i] == decimal(n / 10)[i]);
            }
        }
    }
}

/// The decimal rendering of an `i32` parses back to it.
pub proof fn lemma_signed_decimal_parses(n: i32)
    ensures
        parse_i32(signed_decimal(n as int)) == Some(n),
{
    if n < 0 {
        let m = (-(n as int)) as nat;
        lemma_decimal_roundtrip(m);
        let s = signed_decimal(n as int);
        assert(s[0] == '-');
        assert(s.drop_first() =~= decimal(m));
    } else {
        let m = n as nat;
        lemma_decimal_roundtrip(m);
        let s = signed_decimal(n as int);
        assert(s =~= decimal(m));
        assert('0' <= s[0]);
    }
}

/// Splitting always yields at least one piece.
pub proof fn lemma_split_nonempty(s: Seq<char>, sep: Seq<char>)
    ensures
        split(s, sep).len() >= 1,
    decreases s.len(),
{
    if sep.len() > 0 {
        if let Some(m) = find(s, sep) {
            if 0 <= m && m + sep.len() <= s.len() {
                lemma_split_nonempty(s.subrange(m + sep.len(), s.len() as int), sep);
            }
        }
    }
}

/// Every character takes at least one byte.
pub proof fn lemma_byte_len_at_least_len(s: Seq<char>)
    ensures
        byte_len(s) >= s.len(),
    decreases s.len(),
{
    if s.len() > 0 {
        lemma_byte_len_at_least_len(s.drop_last());
    }
}

// ---------------------------------------------------------------------------
// Executable operations
// ---------------------------------------------------------------------------

/// Appends one character to a string.
#[verifier::external_body]
pub(crate) fn push_char(s: &mut String, c: char)
    ensures
        final(s)@ == old(s)@.push(c),
{
    s.push(c);
}

/// The characters of a string slice, in order.
pub fn chars_of(s: &str) -> (v: Vec<char>)
    ensures
        v@ == s@,
{
    let n = s.unicode_len();
    let mut v: Vec<char> = Vec::new();
    let mut i: usize = 0;
    while i < n
        invariant
            n == s@.len(),
            i <= n,
            v@ == s@.subrange(0, i as int),
        decreases n - i,
    {
        v.push(s.get_char(i));
        i = i + 1;
        assert(v@ =~= s@.subrange(0, i as int));
    }
    assert(v@ =~= s@);
    v
}

/// Appends the characters `v[lo..hi]` to `out`.
pub fn push_range(out: &mut String, v: &Vec<char>, lo: usize, hi: usize)
    requires
        lo <= hi <= v@.len(),
    ensures
        final(out)@ == old(out)@ + v@.subrange(lo as int, hi as int),
{
    let ghost start = out@;
    let mut i = lo;
    while i < hi
        invariant
            lo <= i <= hi,
            hi <= v@.len(),
            out@ == start + v@.subrange(lo as int, i as int),
        decreases hi - i,
    {
        push_char(out, v[i]);
        i = i + 1;
        assert(out@ =~= start + v@.subrange(lo as int, i as int));
    }
}

/// The string made of `v[lo..hi]`.
pub fn string_of_range(v: &Vec<char>, lo: usize, hi: usize) -> (s: String)
    requires
        lo <= hi <= v@.len(),
    ensures
        s@ == v@.subrange(lo as int, hi as int),
{
    let mut s = String::new();
    push_range(&mut s, v, lo, hi);
    assert(s@ =~= v@.subrange(lo as int, hi as int));
    s
}

/// The string made of all of `v`.
pub fn string_of(v: &Vec<char>) -> (s: String)
    ensures
        s@ == v@,
{
    let s = string_of_range(v, 0, v.len());
    assert(v@.subrange(0, v@.len() as int) =~= v@);
    s
}

/// Appends a string slice to `out`.
pub fn push_str(out: &mut String, t: &str)
    ensures
        final(out)@ == old(out)@ + t@,
{
    out.append(t);
}

/// A copy of a string slice as an owned string.
pub fn to_string(t: &str) -> (s: String)
    ensures
        s@ == t@,
{
    String::from_str(t)
}

/// Whether `pat` occurs in `v` at position `i`.
pub fn matches_at_exec(v: &Vec<char>, pat: &Vec<char>, i: usize) -> (b: bool)
    ensures
        b == matches_at(v@, pat@, i as int),
{
    if i > v.len() || pat.len() > v.len() - i {
        return false;
    }
    let vlen = v.len();
    let mut j: usize = 0;
    while j < pat.len()
        invariant
            vlen == v@.len(),
            i + pat@.len() <= v@.len(),
            j <= pat@.len(),
            forall|t: int| 0 <= t < j ==> v@[i + t] == pat@[t],
        decreases pat@.len() - j,
    {
        assert(i + j < v@.len());
        if v[i + j] != pat[j] {
            assert(v@.subrange(i as int, i + pat@.len())[j as int] != pat@[j as int]);
            return false;
        }
        j = j + 1;
    }
    assert(v@.subrange(i as int, i + pat@.len()) =~= pat@);
    true
}

/// The first occurrence of `pat` in `v` (as `str::find`).
pub fn find_exec(v: &Vec<char>, pat: &Vec<char>) -> (r: Option<usize>)
    ensures
        v@.len() <= usize::MAX,
        r matches Some(i) ==> find(v@, pat@) == Some(i as int) && matches_at(v@, pat@, i as int),
        r is None ==> find(v@, pat@) is None,
{
    let _vlen = v.len();
    if pat.len() == 0 {
        assert(matches_at(v@, pat@, 0)) by {
            assert(v@.subrange(0, 0) =~= pat@);
        }
        return Some(0);
    }
    if pat.len() > v.len() {
        return None;
    }
    let vlen = v.len();
    let last = vlen - pat.len();
    let mut k: usize = 0;
    while k <= last
        invariant
            vlen == v@.len(),
            pat@.len() >= 1,
            last + pat@.len() == v@.len(),
            k <= last + 1,
            find(v@, pat@) == find_from(v@, pat@, k as int),
        decreases last + 1 - k,
    {
        if matches_at_exec(v, pat, k) {
            return Some(k);
        }
        k = k + 1;
    }
    None
}

/// The last occurrence of `pat` in `v` (as `str::rfind`).
pub fn rfind_exec(v: &Vec<char>, pat: &Vec<char>) -> (r: Option<usize>)
    ensures
        v@.len() <= usize::MAX,
        r matches Some(i) ==> rfind(v@, pat@) == Some(i as int) && matches_at(v@, pat@, i as int),
        r is None ==> rfind(v@, pat@) is None,
{
    let _vlen = v.len();
    if pat.len() == 0 {
        assert(matches_at(v@, pat@, v@.len() as int)) by {
            assert(v@.subrange(v@.len() as int, v@.len() as int) =~= pat@);
        }
        return Some(v.len());
    }
    if pat.len() > v.len() {
        return None;
    }
    let mut k: usize = v.len() - pat.len() + 1;
    while k > 0
        invariant
            _vlen == v@.len(),
            k <= v@.len() - pat@.len() + 1,
            rfind(v@, pat@) == rfind_below(v@, pat@, k as int),
        decreases k,
    {
        if matches_at_exec(v, pat, k - 1) {
            return Some(k - 1);
        }
        k = k - 1;
    }
    None
}

/// Whether `pat` occurs in `v` (as `str::contains`).
pub fn contains_exec(v: &Vec<char>, pat: &Vec<char>) -> (b: bool)
    ensures
        b == contains(v@, pat@),
{
    find_exec(v, pat).is_some()
}

/// Whether `pat` occurs in the string slice `s`.
pub fn str_contains(s: &str, pat: &str) -> (b: bool)
    ensures
        b == contains(s@, pat@),
{
    let v = chars_of(s);
    let p = chars_of(pat);
    contains_exec(&v, &p)
}

/// Whether `v` starts with `pat`.
pub fn starts_with_exec(v: &Vec<char>, pat: &Vec<char>) -> (b: bool)
    ensures
        b == starts_with(v@, pat@),
{
    let b = matches_at_exec(v, pat, 0);
    b
}

/// Whether the string slice `s` starts with `pat`.
pub fn str_starts_with(s: &str, pat: &str) -> (b: bool)
    ensures
        b == starts_with(s@, pat@),
{
    let v = chars_of(s);
    let p = chars_of(pat);
    starts_with_exec(&v, &p)
}

/// Whether `v` ends with `pat`.
pub fn ends_with_exec(v: &Vec<char>, pat: &Vec<char>) -> (b: bool)
    ensures
        b == ends_with(v@, pat@),
{
    if pat.len() > v.len() {
        return false;
    }
    matches_at_exec(v, pat, v.len() - pat.len())
}

/// Whether two strings hold the same characters.
pub fn str_eq(a: &str, b: &str) -> (r: bool)
    ensures
        r == (a@ == b@),
{
    let va = chars_of(a);
    let vb = chars_of(b);
    if va.len() != vb.len() {
        return false;
    }
    let r = matches_at_exec(&va, &vb, 0);
    proof {
        if r {
            assert(va@.subrange(0, vb@.len() as int) =~= va@);
        } else {
            if a@ == b@ {
                assert(va@.subrange(0, vb@.len() as int) =~= va@);
            }
        }
    }
    r
}

/// Whether a character is whitespace (as `char::is_whitespace`).
pub fn is_whitespace_exec(c: char) -> (b: bool)
    ensures
        b == is_whitespace(c),
{
    c == '\t' || c == '\n' || c == '\u{0B}' || c == '\u{0C}' || c == '\r' || c == ' ' || c
        == '\u{85}' || c == '\u{A0}' || c == '\u{1680}' || ('\u{2000}' <= c && c <= '\u{200A}')
        || c == '\u{2028}' || c == '\u{2029}' || c == '\u{202F}' || c == '\u{205F}' || c
        == '\u{3000}'
}

/// Bounds of the trimmed part of `v[lo..hi]`.
fn trim_bounds(v: &Vec<char>) -> (r: (usize, usize))
    ensures
        r.0 <= r.1 <= v@.len(),
        v@.subrange(r.0 as int, r.1 as int) == trim(v@),
{
    let n = v.len();
    let mut a: usize = 0;
    assert(v@.subrange(0, n as int) =~= v@);
    while a < n && is_whitespace_exec(v[a])
        invariant
            n == v@.len(),
            a <= n,
            trim_start(v@) == trim_start(v@.subrange(a as int, n as int)),
        decreases n - a,
    {
        assert(v@.subrange(a as int, n as int).drop_first() =~= v@.subrange(a + 1, n as int));
        a = a + 1;
    }
    assert(trim_start(v@.subrange(a as int, n as int)) == v@.subrange(a as int, n as int));
    let mut b: usize = n;
    while b > a && is_whitespace_exec(v[b - 1])
        invariant
            a <= b <= n,
            n == v@.len(),
            trim(v@) == trim_end(v@.subrange(a as int, b as int)),
        decreases b,
    {
        assert(v@.subrange(a as int, b as int).drop_last() =~= v@.subrange(a as int, b - 1));
        b = b - 1;
    }
    (a, b)
}

/// `v` without leading and trailing whitespace (as `str::trim`).
pub fn trim_exec(v: &Vec<char>) -> (r: Vec<char>)
    ensures
        r@ == trim(v@),
{
    let (a, b) = trim_bounds(v);
    let mut r: Vec<char> = Vec::new();
    let mut i = a;
    while i < b
        invariant
            a <= i <= b,
            b <= v@.len(),
            r@ == v@.subrange(a as int, i as int),
        decreases b - i,
    {
        r.push(v[i]);
        i = i + 1;
        assert(r@ =~= v@.subrange(a as int, i as int));
    }
    r
}

/// The string slice `s` without leading and trailing whitespace.
pub fn str_trim(s: &str) -> (r: String)
    ensures
        r@ == trim(s@),
{
    let v = chars_of(s);
    let t = trim_exec(&v);
    string_of(&t)
}

/// The sub-vector `v[lo..hi]`.
pub fn slice_vec(v: &Vec<char>, lo: usize, hi: usize) -> (r: Vec<char>)
    requires
        lo <= hi <= v@.len(),
    ensures
        r@ == v@.subrange(lo as int, hi as int),
{
    let mut r: Vec<char> = Vec::new();
    let mut i = lo;
    while i < hi
        invariant
            lo <= i <= hi,
            hi <= v@.len(),
            r@ == v@.subrange(lo as int, i as int),
        decreases hi - i,
    {
        r.push(v[i]);
        i = i + 1;
        assert(r@ =~= v@.subrange(lo as int, i as int));
    }
    r
}

/// The pieces of `v` between occurrences of `sep` (as `str::split`).
pub fn split_exec(v: &Vec<char>, sep: &Vec<char>) -> (r: Vec<Vec<char>>)
    requires
        sep@.len() > 0,
    ensures
        r@.len() == split(v@, sep@).len(),
        forall|i: int| 0 <= i < r@.len() ==> #[trigger] r@[i]@ == split(v@, sep@)[i],
{
    let mut pieces: Vec<Vec<char>> = Vec::new();
    let mut rest = slice_vec(v, 0, v.len());
    assert(rest@ =~= v@);
    loop
        invariant
            sep@.len() > 0,
            split(v@, sep@) =~= pieces@.map_values(|p: Vec<char>| p@) + split(rest@, sep@),
        decreases rest@.len(),
    {
        match find_exec(&rest, sep) {
            None => {
                let ghost before = pieces@.map_values(|p: Vec<char>| p@);
                pieces.push(rest);
                assert(pieces@.map_values(|p: Vec<char>| p@) =~= before.push(rest@));
                assert(split(v@, sep@) =~= pieces@.map_values(|p: Vec<char>| p@));
                proof {
                    assert forall|i: int| 0 <= i < pieces@.len() implies #[trigger] pieces@[i]@
                        == split(v@, sep@)[i] by {
                        assert(pieces@.map_values(|p: Vec<char>| p@)[i] == pieces@[i]@);
                    }
                }
                return pieces;
            },
            Some(m) => {
                proof {
                    lemma_find(rest@, sep@);
                    assert(matches_at(rest@, sep@, m as int));
                }
                let rlen = rest.len();
                let head = slice_vec(&rest, 0, m);
                let tail = slice_vec(&rest, m + sep.len(), rest.len());
                let ghost before = pieces@.map_values(|p: Vec<char>| p@);
                pieces.push(head);
                assert(pieces@.map_values(|p: Vec<char>| p@) =~= before.push(head@));
                assert(split(rest@, sep@) =~= seq![head@] + split(tail@, sep@));
                rest = tail;
            },
        }
    }
}

/// Appends the decimal rendering of `n` to `out` (as `Display` for integers).
pub fn push_decimal(out: &mut String, n: u64)
    ensures
        final(out)@ == old(out)@ + decimal(n as nat),
    decreases n,
{
    if n >= 10 {
        push_decimal(out, n / 10);
    }
    let d = (n % 10) as u32;
    let c = char_of_digit(d);
    push_char(out, c);
    proof {
        if n < 10 {
            assert(decimal(n as nat) =~= seq![digit_char(n as int)]);
        }
    }
}

/// The character of a digit.
fn char_of_digit(d: u32) -> (c: char)
    requires
        d < 10,
    ensures
        c == digit_char(d as int),
{
    if d == 0 {
        '0'
    } else if d == 1 {
        '1'
    } else if d == 2 {
        '2'
    } else if d == 3 {
        '3'
    } else if d == 4 {
        '4'
    } else if d == 5 {
        '5'
    } else if d == 6 {
        '6'
    } else if d == 7 {
        '7'
    } else if d == 8 {
        '8'
    } else {
        '9'
    }
}

/// Appends the decimal rendering of a signed number to `out`.
pub fn push_signed_decimal(out: &mut String, n: i64)
    ensures
        final(out)@ == old(out)@ + signed_decimal(n as int),
{
    if n < 0 {
        push_char(out, '-');
        let m: u64 = if n == i64::MIN {
            9223372036854775808u64
        } else {
            (-n) as u64
        };
        let ghost mid = out@;
        push_decimal(out, m);
        assert(out@ =~= old(out)@ + signed_decimal(n as int));
    } else {
        push_decimal(out, n as u64);
    }
}

/// The value of a digit string, if every character is a digit and the value
/// is at most `limit`.
fn digits_value_upto(v: &Vec<char>, lo: usize, limit: u64) -> (r: Option<u64>)
    requires
        lo <= v@.len(),
        10 <= limit <= 4294967296u64,
    ensures
        r matches Some(x) ==> all_digits(v@.subrange(lo as int, v@.len() as int)) && x
            == decimal_value(v@.subrange(lo as int, v@.len() as int)) && x <= limit,
        r is None ==> !all_digits(v@.subrange(lo as int, v@.len() as int)) || decimal_value(
            v@.subrange(lo as int, v@.len() as int),
        ) > limit,
{
    let n = v.len();
    let mut acc: u64 = 0;
    let mut i = lo;
    while i < n
        invariant
            lo <= i <= n,
            n == v@.len(),
            10 <= limit <= 4294967296u64,
            all_digits(v@.subrange(lo as int, i as int)),
            acc == decimal_value(v@.subrange(lo as int, i as int)),
            acc <= limit,
        decreases n - i,
    {
        let c = v[i];
        let ghost pre = v@.subrange(lo as int, i as int);
        let ghost next = v@.subrange(lo as int, i + 1);
        assert(next.drop_last() =~= pre);
        if !('0' <= c && c <= '9') {
            proof {
                assert(v@.subrange(lo as int, n as int)[i - lo] == c);
            }
            return None;
        }
        let d = (c as u32 - '0' as u32) as u64;
        assert(d as int == digit_value(c));
        assert(all_digits(next)) by {
            assert forall|t: int| 0 <= t < next.len() implies '0' <= #[trigger] next[t] && next[t]
                <= '9' by {
                if t < next.len() - 1 {
                    assert(next[t] == pre[t]);
                }
            }
        }
        if acc > (limit - d) / 10 {
            proof {
                assert(acc * 10 + d > limit) by (nonlinear_arith)
                    requires
                        acc > (limit - d) / 10,
                        d <= 9,
                        limit >= 10,
                ;
                assert(decimal_value(next) == acc * 10 + d);
                if all_digits(v@.subrange(lo as int, n as int)) {
                    lemma_prefix_value_monotone(v@.subrange(lo as int, n as int), (i + 1 - lo) as int);
                    assert(v@.subrange(lo as int, n as int).subrange(0, i + 1 - lo) =~= next);
                }
            }
            return None;
        }
        assert(acc * 10 + d <= limit) by (nonlinear_arith)
            requires
                acc <= (limit - d) / 10,
                d <= limit,
        ;
        acc = acc * 10 + d;
        i = i + 1;
    }
    assert(v@.subrange(lo as int, n as int) =~= v@.subrange(lo as int, i as int));
    Some(acc)
}

/// A digit string's value is at least the value of each of its prefixes.
pub proof fn lemma_prefix_value_monotone(s: Seq<char>, k: int)
    requires
        0 <= k <= s.len(),
        all_digits(s),
    ensures
        decimal_value(s) >= decimal_value(s.subrange(0, k)),
    decreases s.len(),
{
    if k < s.len() {
        assert(all_digits(s.drop_last()));
        lemma_prefix_value_monotone(s.drop_last(), k);
        assert(s.drop_last().subrange(0, k) =~= s.subrange(0, k));
        lemma_decimal_value_nonneg(s.drop_last());
        assert('0' <= s.last());
    } else {
        assert(s.subrange(0, k) =~= s);
    }
}

/// `str::parse::<u32>` over a character vector.
pub fn parse_u32_exec(v: &Vec<char>) -> (r: Option<u32>)
    ensures
        r == parse_u32(v@),
{
    let lo: usize = if v.len() > 0 && v[0] == '+' {
        1
    } else {
        0
    };
    let ghost body = if v@.len() > 0 && v@[0] == '+' {
        v@.drop_first()
    } else {
        v@
    };
    assert(body =~= v@.subrange(lo as int, v@.len() as int));
    if lo == v.len() {
        return None;
    }
    match digits_value_upto(v, lo, 4294967295u64) {
        Some(x) => Some(x as u32),
        None => None,
    }
}

/// `str::parse::<u32>` over a string slice.
pub fn str_parse_u32(s: &str) -> (r: Option<u32>)
    ensures
        r == parse_u32(s@),
{
    let v = chars_of(s);
    parse_u32_exec(&v)
}

/// `str::parse::<i32>` over a character vector.
pub fn parse_i32_exec(v: &Vec<char>) -> (r: Option<i32>)
    ensures
        r == parse_i32(v@),
{
    let negative = v.len() > 0 && v[0] == '-';
    let lo: usize = if v.len() > 0 && (v[0] == '+' || v[0] == '-') {
        1
    } else {
        0
    };
    let ghost body = if v@.len() > 0 && (v@[0] == '+' || v@[0] == '-') {
        v@.drop_first()
    } else {
        v@
    };
    assert(body =~= v@.subrange(lo as int, v@.len() as int));
    if lo == v.len() {
        return None;
    }
    let limit: u64 = if negative {
        2147483648u64
    } else {
        2147483647u64
    };
    match digits_value_upto(v, lo, limit) {
        Some(x) => {
            if negative {
                if x == 2147483648u64 {
                    Some(i32::MIN)
                } else {
                    Some(-(x as i32))
                }
            } else {
                Some(x as i32)
            }
        },
        None => {
            proof {
                if all_digits(body) {
                    lemma_decimal_value_nonneg(body);
                }
            }
            None
        },
    }
}

/// `str::parse::<i32>` over a string slice.
pub fn str_parse_i32(s: &str) -> (r: Option<i32>)
    ensures
        r == parse_i32(s@),
{
    let v = chars_of(s);
    parse_i32_exec(&v)
}

/// Index of the first non-whitespace character of `v`, or its length.
pub fn trim_start_index(v: &Vec<char>) -> (a: usize)
    ensures
        a <= v@.len(),
        v@.subrange(a as int, v@.len() as int) == trim_start(v@),
{
    let n = v.len();
    let mut a: usize = 0;
    assert(v@.subrange(0, n as int) =~= v@);
    while a < n && is_whitespace_exec(v[a])
        invariant
            n == v@.len(),
            a <= n,
            trim_start(v@) == trim_start(v@.subrange(a as int, n as int)),
        decreases n - a,
    {
        assert(v@.subrange(a as int, n as int).drop_first() =~= v@.subrange(a + 1, n as int));
        a = a + 1;
    }
    a
}

/// The first whitespace-separated word of `v`, if any.
pub fn first_word_exec(v: &Vec<char>) -> (r: Option<Vec<char>>)
    ensures
        r matches Some(w) ==> first_word(v@) == Some(w@),
        r is None ==> first_word(v@) is None,
{
    let a = trim_start_index(v);
    let n = v.len();
    if a == n {
        return None;
    }
    let ghost t = v@.subrange(a as int, n as int);
    let mut b = a;
    while b < n && !is_whitespace_exec(v[b])
        invariant
            a <= b <= n,
            n == v@.len(),
            t == v@.subrange(a as int, n as int),
            whitespace_from(t, 0) == whitespace_from(t, b - a),
        decreases n - b,
    {
        b = b + 1;
    }
    let w = slice_vec(v, a, b);
    assert(w@ =~= t.subrange(0, whitespace_from(t, 0)));
    Some(w)
}

/// The number of bytes in the UTF-8 encoding of `v`.
pub fn byte_len_exec(v: &Vec<char>) -> (r: usize)
    requires
        4 * v@.len() <= usize::MAX,
    ensures
        r == byte_len(v@),
{
    let mut total: usize = 0;
    let mut i: usize = 0;
    while i < v.len()
        invariant
            i <= v@.len(),
            4 * v@.len() <= usize::MAX,
            total == byte_len(v@.subrange(0, i as int)),
            total <= 4 * i,
        decreases v@.len() - i,
    {
        let c = v[i];
        let k: usize = if (c as u32) < 0x80 {
            1
        } else if (c as u32) < 0x800 {
            2
        } else if (c as u32) < 0x10000 {
            3
        } else {
            4
        };
        assert(v@.subrange(0, i + 1).drop_last() =~= v@.subrange(0, i as int));
        total = total + k;
        i = i + 1;
    }
    assert(v@.subrange(0, v@.len() as int) =~= v@);
    total
}

/// The lines of `v` (as `str::lines`).
pub fn lines_exec(v: &Vec<char>) -> (r: Vec<Vec<char>>)
    ensures
        r@.len() == lines(v@).len(),
        forall|i: int| 0 <= i < r@.len() ==> #[trigger] r@[i]@ == lines(v@)[i],
{
    let nl: Vec<char> = vec!['\n'];
    assert(nl@ =~= seq!['\n']);
    let pieces = split_exec(v, &nl);
    let ghost ps = split(v@, seq!['\n']);
    let k = pieces.len() - 1;
    let mut out: Vec<Vec<char>> = Vec::new();
    let mut i: usize = 0;
    while i < k
        invariant
            k + 1 == pieces@.len(),
            ps == split(v@, seq!['\n']),
            pieces@.len() == ps.len(),
            forall|j: int| 0 <= j < pieces@.len() ==> #[trigger] pieces@[j]@ == ps[j],
            i <= k,
            out@.len() == i,
            forall|j: int| 0 <= j < i ==> #[trigger] out@[j]@ == strip_cr(ps[j]),
        decreases k - i,
    {
        let p = &pieces[i];
        let q = if p.len() > 0 && p[p.len() - 1] == '\r' {
            slice_vec(p, 0, p.len() - 1)
        } else {
            slice_vec(p, 0, p.len())
        };
        assert(p@.subrange(0, p@.len() as int) =~= p@);
        assert(p@.len() > 0 ==> p@.subrange(0, p@.len() - 1) =~= p@.drop_last());
        out.push(q);
        i = i + 1;
    }
    if pieces[k].len() > 0 {
        let last = slice_vec(&pieces[k], 0, pieces[k].len());
        assert(pieces@[k as int]@.subrange(0, pieces@[k as int]@.len() as int) =~= pieces@[k as int]@);
        out.push(last);
    }
    proof {
        let init = ps.take(k as int).map_values(|p: Seq<char>| strip_cr(p));
        assert(init.len() == k);
        assert forall|j: int| 0 <= j < out@.len() implies #[trigger] out@[j]@ == lines(v@)[j] by {
            if j < k {
                assert(init[j] == strip_cr(ps[j]));
            }
        }
    }
    out
}

/// `v` without runs of equal neighbours (as `Vec::dedup`).
pub fn dedup_strings(v: &Vec<String>) -> (r: Vec<String>)
    ensures
        strings_view(r@) == dedup(strings_view(v@)),
{
    let mut out: Vec<String> = Vec::new();
    let mut i: usize = 0;
    while i < v.len()
        invariant
            i <= v@.len(),
            strings_view(out@) == dedup(strings_view(v@.subrange(0, i as int))),
            i > 0 ==> out@.len() > 0 && out@.last()@ == v@[i - 1]@,
        decreases v@.len() - i,
    {
        let ghost pre = strings_view(v@.subrange(0, i as int));
        let ghost nxt = strings_view(v@.subrange(0, i + 1));
        assert(nxt.drop_last() =~= pre);
        assert(nxt.last() == v@[i as int]@);
        if i > 0 && str_eq(out[out.len() - 1].as_str(), v[i].as_str()) {
            assert(nxt[nxt.len() - 2] == v@[i - 1]@);
        } else {
            let ghost before = strings_view(out@);
            out.push(v[i].clone());
            assert(strings_view(out@) =~= before.push(v@[i as int]@));
            proof {
                if i > 0 {
                    assert(nxt[nxt.len() - 2] == v@[i - 1]@);
                } else {
                    assert(nxt.len() == 1);
                    assert(dedup(nxt) == nxt);
                    assert(dedup(pre) =~= Seq::<Seq<char>>::empty());
                    assert(nxt =~= Seq::<Seq<char>>::empty().push(v@[0]@));
                }
            }
        }
        i = i + 1;
    }
    assert(v@.subrange(0, v@.len() as int) =~= v@);
    out
}

/// `v` in reverse order.
pub fn reverse_strings(v: Vec<String>) -> (r: Vec<String>)
    ensures
        strings_view(r@) == strings_view(v@).reverse(),
{
    let mut out: Vec<String> = Vec::new();
    let mut i: usize = v.len();
    let mut v = v;
    let ghost orig = strings_view(v@);
    while i > 0
        invariant
            i == v@.len(),
            i <= orig.len(),
            strings_view(v@) == orig.subrange(0, i as int),
            strings_view(out@) == orig.reverse().subrange(0, orig.len() - i),
        decreases i,
    {
        let ghost vb = v@;
        let x = v.pop().unwrap();
        proof {
            assert(vb.last() == x);
            assert(strings_view(vb)[i - 1] == x@);
            assert(orig[i - 1] == x@);
            assert(orig.len() > 0);
            assert(orig.reverse()[orig.len() - i] == orig[i - 1]);
        }
        let ghost before = strings_view(out@);
        out.push(x);
        assert(strings_view(out@) =~= before.push(orig[i - 1]));
        i = i - 1;
        assert(strings_view(v@) =~= orig.subrange(0, i as int));
        assert(strings_view(out@) =~= orig.reverse().subrange(0, orig.len() - i));
    }
    assert(orig.reverse().subrange(0, orig.len() as int) =~= orig.reverse());
    out
}

/// Whether the UTF-8 encoding of `v` is longer than one byte.
pub fn byte_len_exceeds_one(v: &Vec<char>) -> (b: bool)
    ensures
        b == (byte_len(v@) > 1),
{
    proof {
        lemma_byte_len_at_least_len(v@);
    }
    if v.len() >= 2 {
        true
    } else if v.len() == 1 {
        assert(v@.drop_last() =~= Seq::<char>::empty());
        assert(byte_len(Seq::<char>::empty()) == 0);
        assert(byte_len(v@) == byte_len(v@.drop_last()) + char_utf8_len(v@.last()));
        (v[0] as u32) >= 0x80
    } else {
        false
    }
}

/// Appends `n` rendered in decimal and padded with `0` to `width` digits.
pub fn push_zero_padded(out: &mut String, n: u64, width: usize)
    ensures
        final(out)@ == old(out)@ + zero_pad(decimal(n as nat), width as nat),
{
    let mut digits = String::new();
    push_decimal(&mut digits, n);
    let len = digits.as_str().unicode_len();
    let ghost d = decimal(n as nat);
    assert(digits@ =~= d);
    if len < width {
        let mut k: usize = 0;
        while k < width - len
            invariant
                len < width,
                k <= width - len,
                out@ == old(out)@ + Seq::new(k as nat, |i: int| '0'),
            decreases width - len - k,
        {
            push_char(out, '0');
            k = k + 1;
            assert(out@ =~= old(out)@ + Seq::new(k as nat, |i: int| '0'));
        }
    }
    let ghost mid = out@;
    out.append(digits.as_str());
    assert(out@ =~= old(out)@ + zero_pad(d, width as nat));
}

/// The strings of `parts` joined with `sep` between neighbours.
pub fn join_strings(parts: &Vec<String>, sep: &str) -> (r: String)
    ensures
        r@ == join(strings_view(parts@), sep@),
{
    let mut out = String::new();
    let mut i: usize = 0;
    while i < parts.len()
        invariant
            i <= parts@.len(),
            out@ == join(strings_view(parts@.subrange(0, i as int)), sep@),
        decreases parts@.len() - i,
    {
        let ghost pre = strings_view(parts@.subrange(0, i as int));
        let ghost nxt = strings_view(parts@.subrange(0, i + 1));
        assert(nxt.drop_last() =~= pre);
        assert(nxt.last() == parts@[i as int]@);
        if i > 0 {
            out.append(sep);
        } else {
            assert(nxt =~= seq![parts@[0]@]);
        }
        out.append(parts[i].as_str());
        i = i + 1;
    }
    assert(parts@.subrange(0, parts@.len() as int) =~= parts@);
    out
}

/// One of the strings of `v` holds the characters `s`.
pub open spec fn has_string(v: Seq<String>, s: Seq<char>) -> bool {
    exists|j: int| 0 <= j < v.len() && (#[trigger] v[j])@ == s
}

/// Whether one of the strings of `v` equals `s`.
pub fn vec_has_str(v: &Vec<String>, s: &str) -> (r: bool)
    ensures
        r == has_string(v@, s@),
{
    let mut i: usize = 0;
    while i < v.len()
        invariant
            i <= v@.len(),
            forall|j: int| 0 <= j < i ==> (#[trigger] v@[j])@ != s@,
        decreases v@.len() - i,
    {
        if str_eq(v[i].as_str(), s) {
            return true;
        }
        i = i + 1;
    }
    false
}

/// `s` holds `x` exactly when some string of `v` does, for `s` the views of `v`.
pub proof fn lemma_has_string_contains(v: Seq<String>, x: Seq<char>)
    ensures
        has_string(v, x) <==> strings_view(v).contains(x),
{
    if has_string(v, x) {
        let j = choose|j: int| 0 <= j < v.len() && (#[trigger] v[j])@ == x;
        assert(strings_view(v)[j] == x);
    }
    if strings_view(v).contains(x) {
        let j = choose|j: int| 0 <= j < strings_view(v).len() && strings_view(v)[j] == x;
        assert(v[j]@ == x);
    }
}

/// The view of an optional string.
pub open spec fn opt_string_view(o: Option<String>) -> Option<Seq<char>> {
    match o {
        Some(s) => Some(s@),
        None => None,
    }
}

/// The view of an optional string slice.
pub open spec fn opt_str_view(o: Option<&str>) -> Option<Seq<char>> {
    match o {
        Some(s) => Some(s@),
        None => None,
    }
}

} // verus!
