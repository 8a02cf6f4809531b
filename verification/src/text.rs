//! Character-sequence utilities shared by the command-line parsers and
//! formatters of this crate.
//!
//! Every exec function here is stated over `Seq<char>`, the view of `str`,
//! `String` and `Vec<char>`.
use vstd::prelude::*;

verus! {

// ---------------------------------------------------------------------------
// Specifications
// ---------------------------------------------------------------------------

/// Unicode `White_Space`, the class that `char::is_whitespace` tests.
pub open spec fn is_ws(c: char) -> bool {
    let u = c as u32;
    ||| 9 <= u <= 13
    ||| u == 32
    ||| u == 0x85
    ||| u == 0xa0
    ||| u == 0x1680
    ||| 0x2000 <= u <= 0x200a
    ||| u == 0x2028
    ||| u == 0x2029
    ||| u == 0x202f
    ||| u == 0x205f
    ||| u == 0x3000
}

/// First index at or after `i` that does not hold whitespace (or `s.len()`).
pub open spec fn skip_ws(s: Seq<char>, i: int) -> int
    decreases s.len() - i,
{
    if i < 0 {
        skip_ws(s, 0)
    } else if i < s.len() && is_ws(s[i]) {
        skip_ws(s, i + 1)
    } else {
        i
    }
}

/// First index at or after `i` that holds whitespace (or `s.len()`).
pub open spec fn skip_word(s: Seq<char>, i: int) -> int
    decreases s.len() - i,
{
    if i < 0 {
        skip_word(s, 0)
    } else if i < s.len() && !is_ws(s[i]) {
        skip_word(s, i + 1)
    } else {
        i
    }
}

/// Largest `k <= j` such that `k == 0` or `s[k - 1]` is not whitespace.
pub open spec fn rskip_ws(s: Seq<char>, j: int) -> int
    decreases j,
{
    if j > s.len() {
        rskip_ws(s, s.len() as int)
    } else if j <= 0 {
        0
    } else if is_ws(s[j - 1]) {
        rskip_ws(s, j - 1)
    } else {
        j
    }
}

/// `str::trim_start`.
pub open spec fn trim_start(s: Seq<char>) -> Seq<char> {
    s.skip(skip_ws(s, 0))
}

/// `str::trim_end`.
pub open spec fn trim_end(s: Seq<char>) -> Seq<char> {
    s.take(rskip_ws(s, s.len() as int))
}

/// `str::trim`.
pub open spec fn trim(s: Seq<char>) -> Seq<char> {
    let a = skip_ws(s, 0);
    let b = rskip_ws(s, s.len() as int);
    if a < b {
        s.subrange(a, b)
    } else {
        Seq::empty()
    }
}

/// The words of `s` from index `i` on, as `str::split_whitespace` yields them.
pub open spec fn split_ws_from(s: Seq<char>, i: int) -> Seq<Seq<char>>
    decreases s.len() - i,
{
    if i < 0 {
        seq![]
    } else {
        let a = skip_ws(s, i);
        if a >= s.len() {
            seq![]
        } else {
            let b = skip_word(s, a);
            proof {
                lemma_skip_ws_bounds(s, i);
                lemma_skip_word_bounds(s, a);
            }
            seq![s.subrange(a, b)] + split_ws_from(s, b)
        }
    }
}

/// `str::split_whitespace`.
pub open spec fn split_ws(s: Seq<char>) -> Seq<Seq<char>> {
    split_ws_from(s, 0)
}

/// `parts.join(sep)`.
pub open spec fn join(parts: Seq<Seq<char>>, sep: Seq<char>) -> Seq<char>
    decreases parts.len(),
{
    if parts.len() == 0 {
        Seq::empty()
    } else if parts.len() == 1 {
        parts[0]
    } else {
        join(parts.drop_last(), sep) + sep + parts.last()
    }
}

/// `s.starts_with(p)`.
pub open spec fn starts_with(s: Seq<char>, p: Seq<char>) -> bool {
    p.len() <= s.len() && s.take(p.len() as int) == p
}

/// `s.ends_with(p)`.
pub open spec fn ends_with(s: Seq<char>, p: Seq<char>) -> bool {
    p.len() <= s.len() && s.skip(s.len() - p.len()) == p
}

/// `p` occurs in `s` at index `i`.
pub open spec fn occurs_at(s: Seq<char>, p: Seq<char>, i: int) -> bool {
    0 <= i && i + p.len() <= s.len() && s.subrange(i, i + p.len()) == p
}

/// `s.contains(p)`.
pub open spec fn contains(s: Seq<char>, p: Seq<char>) -> bool {
    exists|i: int| occurs_at(s, p, i)
}

/// `s.replace(p, r)` for a non-empty pattern: every occurrence of `p`, taken
/// left to right and without overlap, is replaced by `r`.
pub open spec fn replace_all(s: Seq<char>, p: Seq<char>, r: Seq<char>) -> Seq<char>
    decreases s.len(),
{
    if s.len() == 0 || p.len() == 0 {
        s
    } else if starts_with(s, p) {
        r + replace_all(s.skip(p.len() as int), p, r)
    } else {
        seq![s[0]] + replace_all(s.drop_first(), p, r)
    }
}

/// First index at or after `i` that holds `c` (or `s.len()`).
pub open spec fn index_of_char(s: Seq<char>, c: char, i: int) -> int
    decreases s.len() - i,
{
    if i < 0 {
        index_of_char(s, c, 0)
    } else if i < s.len() && s[i] != c {
        index_of_char(s, c, i + 1)
    } else {
        i
    }
}

/// The pieces of `s` from index `i` on between occurrences of `c`, as
/// `str::split(c)` yields them.
pub open spec fn split_char_from(s: Seq<char>, c: char, i: int) -> Seq<Seq<char>>
    decreases s.len() + 1 - i,
{
    if i < 0 || i > s.len() {
        seq![]
    } else {
        let k = index_of_char(s, c, i);
        proof {
            lemma_index_of_char_bounds(s, c, i);
        }
        if k >= s.len() {
            seq![s.subrange(i, s.len() as int)]
        } else {
            seq![s.subrange(i, k)] + split_char_from(s, c, k + 1)
        }
    }
}

/// `str::split(c)` for a single character.
pub open spec fn split_char(s: Seq<char>, c: char) -> Seq<Seq<char>> {
    split_char_from(s, c, 0)
}

/// Decimal digits of `n`, as `Display` writes an unsigned integer.
pub open spec fn digits(n: nat) -> Seq<char>
    decreases n,
{
    if n < 10 {
        seq![digit_char(n)]
    } else {
        digits(n / 10) + seq![digit_char(n % 10)]
    }
}

/// The ASCII character of a decimal digit.
pub open spec fn digit_char(d: nat) -> char {
    if d == 0 { '0' }
    else if d == 1 { '1' }
    else if d == 2 { '2' }
    else if d == 3 { '3' }
    else if d == 4 { '4' }
    else if d == 5 { '5' }
    else if d == 6 { '6' }
    else if d == 7 { '7' }
    else if d == 8 { '8' }
    else { '9' }
}

/// `n` written in decimal with at least `w` digits, padded with leading zeros
/// (the `{:0w}` format).
pub open spec fn zero_padded(n: nat, w: nat) -> Seq<char> {
    let d = digits(n);
    if d.len() >= w {
        d
    } else {
        Seq::new((w - d.len()) as nat, |i: int| '0') + d
    }
}

pub open spec fn is_digit(c: char) -> bool {
    '0' <= c && c <= '9'
}

pub open spec fn digit_value(c: char) -> nat {
    ((c as u32) - ('0' as u32)) as nat
}

/// The number that a non-empty run of decimal digits denotes.
pub open spec fn digits_value(s: Seq<char>) -> nat
    decreases s.len(),
{
    if s.len() == 0 {
        0
    } else {
        digits_value(s.drop_last()) * 10 + digit_value(s.last())
    }
}

pub open spec fn all_digits(s: Seq<char>) -> bool {
    forall|i: int| 0 <= i < s.len() ==> is_digit(#[trigger] s[i])
}

/// The digits part of an unsigned number: `s` without one leading `+`.
pub open spec fn unsigned_body(s: Seq<char>) -> Seq<char> {
    if s.len() > 0 && s[0] == '+' {
        s.drop_first()
    } else {
        s
    }
}

/// What `str::parse` reads as an unsigned integer no larger than `max`: an
/// optional `+`, then at least one decimal digit, and nothing else.
pub open spec fn parse_unsigned(s: Seq<char>, max: nat) -> Option<nat> {
    let body = unsigned_body(s);
    if body.len() > 0 && all_digits(body) && digits_value(body) <= max {
        Some(digits_value(body))
    } else {
        None
    }
}

/// ASCII lower-casing of a single character; other characters are kept.
pub open spec fn ascii_lower(c: char) -> char {
    if 'A' <= c && c <= 'Z' {
        ((c as u32) + 32) as char
    } else {
        c
    }
}

/// ASCII upper-casing of a single character; other characters are kept.
pub open spec fn ascii_upper(c: char) -> char {
    if 'a' <= c && c <= 'z' {
        ((c as u32) - 32) as char
    } else {
        c
    }
}

/// `str::eq_ignore_ascii_case`.
pub open spec fn eq_ignore_ascii_case(a: Seq<char>, b: Seq<char>) -> bool {
    a.len() == b.len() && forall|i: int| 0 <= i < a.len() ==> ascii_lower(#[trigger] a[i]) == ascii_lower(b[i])
}

// ---------------------------------------------------------------------------
// Lemmas about the index functions
// ---------------------------------------------------------------------------

pub proof fn lemma_skip_ws_bounds(s: Seq<char>, i: int)
    ensures
        i >= 0 ==> i <= skip_ws(s, i),
        skip_ws(s, i) >= 0,
        i <= s.len() ==> skip_ws(s, i) <= s.len(),
        skip_ws(s, i) < s.len() ==> !is_ws(s[skip_ws(s, i)]),
        forall|k: int| 0 <= k && i <= k < skip_ws(s, i) ==> is_ws(#[trigger] s[k]),
    decreases s.len() - i,
{
    if i < 0 {
        lemma_skip_ws_bounds(s, 0);
    } else if i < s.len() && is_ws(s[i]) {
        lemma_skip_ws_bounds(s, i + 1);
    }
}

pub proof fn lemma_skip_word_bounds(s: Seq<char>, i: int)
    ensures
        i >= 0 ==> i <= skip_word(s, i),
        skip_word(s, i) >= 0,
        i <= s.len() ==> skip_word(s, i) <= s.len(),
        skip_word(s, i) < s.len() ==> is_ws(s[skip_word(s, i)]),
        0 <= i < s.len() && !is_ws(s[i]) ==> skip_word(s, i) > i,
        forall|k: int| 0 <= k && i <= k < skip_word(s, i) ==> !is_ws(#[trigger] s[k]),
    decreases s.len() - i,
{
    if i < 0 {
        lemma_skip_word_bounds(s, 0);
    } else if i < s.len() && !is_ws(s[i]) {
        lemma_skip_word_bounds(s, i + 1);
    }
}

pub proof fn lemma_rskip_ws_bounds(s: Seq<char>, j: int)
    ensures
        0 <= rskip_ws(s, j),
        rskip_ws(s, j) <= s.len(),
        0 <= j <= s.len() ==> rskip_ws(s, j) <= j,
        rskip_ws(s, j) > 0 ==> !is_ws(s[rskip_ws(s, j) - 1]),
        forall|k: int| rskip_ws(s, j) <= k < j && k < s.len() ==> is_ws(#[trigger] s[k]),
    decreases j,
{
    if j > s.len() {
        lemma_rskip_ws_bounds(s, s.len() as int);
    } else if j <= 0 {
    } else if is_ws(s[j - 1]) {
        lemma_rskip_ws_bounds(s, j - 1);
    }
}

pub proof fn lemma_index_of_char_bounds(s: Seq<char>, c: char, i: int)
    ensures
        i >= 0 ==> i <= index_of_char(s, c, i),
        index_of_char(s, c, i) >= 0,
        i <= s.len() ==> index_of_char(s, c, i) <= s.len(),
        index_of_char(s, c, i) < s.len() ==> s[index_of_char(s, c, i)] == c,
        forall|k: int| 0 <= k && i <= k < index_of_char(s, c, i) ==> #[trigger] s[k] != c,
    decreases s.len() - i,
{
    if i < 0 {
        lemma_index_of_char_bounds(s, c, 0);
    } else if i < s.len() && s[i] != c {
        lemma_index_of_char_bounds(s, c, i + 1);
    }
}

/// Scanning a subrange for non-whitespace agrees with scanning the whole
/// sequence, cut off at the end of the subrange.
pub proof fn lemma_skip_ws_sub(s: Seq<char>, a: int, b: int, i: int)
    requires
        0 <= a <= b <= s.len(),
        0 <= i <= b - a,
    ensures
        skip_ws(s.subrange(a, b), i) == (if skip_ws(s, a + i) < b { skip_ws(s, a + i) } else { b })
            - a,
    decreases b - a - i,
{
    let t = s.subrange(a, b);
    if i < t.len() && is_ws(t[i]) {
        lemma_skip_ws_sub(s, a, b, i + 1);
    } else if i < t.len() {
        assert(t[i] == s[a + i]);
    } else {
        lemma_skip_ws_bounds(s, a + i);
    }
}

/// Scanning a subrange backwards for non-whitespace agrees with scanning the
/// whole sequence, cut off at the start of the subrange.
pub proof fn lemma_rskip_ws_sub(s: Seq<char>, a: int, b: int, j: int)
    requires
        0 <= a <= b <= s.len(),
        0 <= j <= b - a,
    ensures
        rskip_ws(s.subrange(a, b), j) == (if rskip_ws(s, a + j) > a { rskip_ws(s, a + j) } else { a })
            - a,
    decreases j,
{
    let t = s.subrange(a, b);
    if j > 0 && is_ws(t[j - 1]) {
        lemma_rskip_ws_sub(s, a, b, j - 1);
    } else if j > 0 {
        assert(t[j - 1] == s[a + j - 1]);
    } else {
        lemma_rskip_ws_bounds(s, a);
    }
}

/// Trimming removes nothing when both ends hold non-whitespace characters.
pub proof fn lemma_trim_of_trimmed(s: Seq<char>)
    ensures
        trim(trim(s)) == trim(s),
{
    let a = skip_ws(s, 0);
    let b = rskip_ws(s, s.len() as int);
    lemma_skip_ws_bounds(s, 0);
    lemma_rskip_ws_bounds(s, s.len() as int);
    if a < b {
        let t = s.subrange(a, b);
        lemma_skip_ws_sub(s, a, b, 0);
        lemma_rskip_ws_sub(s, a, b, t.len() as int);
        assert(skip_ws(s, a) == a);
        assert(t.subrange(0, t.len() as int) == t);
    }
}

// ---------------------------------------------------------------------------
// Conversions
// ---------------------------------------------------------------------------

/// The deep view of a vector of character vectors holds the views of its
/// elements.
pub proof fn lemma_deep_view_chars(v: Vec<Vec<char>>)
    ensures
        v.deep_view().len() == v@.len(),
        forall|i: int| 0 <= i < v@.len() ==> #[trigger] v.deep_view()[i] == v@[i]@,
{
    assert forall|i: int| 0 <= i < v@.len() implies #[trigger] v.deep_view()[i] == v@[i]@ by {
        assert(v@[i].deep_view() =~= v@[i]@);
    }
}

/// The characters of `s`.
pub fn to_chars(s: &str) -> (v: Vec<char>)
    ensures
        v@ == s@,
{
    let mut v: Vec<char> = Vec::new();
    for c in it: s.chars()
        invariant
            v@ == it.seq().take(it.index() as int),
            it.seq() == s@,
    {
        v.push(c);
    }
    v
}

/// Appends one character (`String::push`).
#[verifier::external_body]
fn push_char(s: &mut String, c: char)
    ensures
        final(s)@ == old(s)@.push(c),
{
    s.push(c);
}

/// The string made of the characters of `v`.
pub fn from_chars(v: &[char]) -> (s: String)
    ensures
        s@ == v@,
{
    let mut s = String::new();
    let mut i: usize = 0;
    while i < v.len()
        invariant
            i <= v.len(),
            s@ == v@.take(i as int),
        decreases v.len() - i,
    {
        push_char(&mut s, v[i]);
        i += 1;
        assert(v@.take(i as int) == v@.take(i - 1).push(v@[i - 1]));
    }
    assert(v@.take(v.len() as int) == v@);
    s
}

/// An owned copy of `s`.
pub fn owned(s: &str) -> (r: String)
    ensures
        r@ == s@,
{
    s.to_owned()
}

/// The strings of `v` as character sequences.
pub open spec fn views(v: Seq<String>) -> Seq<Seq<char>> {
    v.map_values(|s: String| s@)
}

/// `v@.subrange(lo, hi)` as a vector.
pub fn slice_chars(v: &[char], lo: usize, hi: usize) -> (r: Vec<char>)
    requires
        lo <= hi <= v.len(),
    ensures
        r@ == v@.subrange(lo as int, hi as int),
{
    let mut r: Vec<char> = Vec::new();
    let mut i = lo;
    while i < hi
        invariant
            lo <= i <= hi <= v.len(),
            r@ == v@.subrange(lo as int, i as int),
        decreases hi - i,
    {
        r.push(v[i]);
        i += 1;
        assert(v@.subrange(lo as int, i as int) == v@.subrange(lo as int, i - 1).push(v@[i - 1]));
    }
    r
}

/// Appends `s` to `out`.
pub fn append_chars(out: &mut Vec<char>, s: &[char])
    ensures
        final(out)@ == old(out)@ + s@,
{
    let ghost start = out@;
    let mut i: usize = 0;
    while i < s.len()
        invariant
            i <= s.len(),
            out@ == start + s@.take(i as int),
        decreases s.len() - i,
    {
        out.push(s[i]);
        i += 1;
        assert(s@.take(i as int) == s@.take(i - 1).push(s@[i - 1]));
    }
    assert(s@.take(s.len() as int) == s@);
}

/// Appends the characters of `s` to `out`.
pub fn append_str(out: &mut Vec<char>, s: &str)
    ensures
        final(out)@ == old(out)@ + s@,
{
    let v = to_chars(s);
    append_chars(out, v.as_slice());
}

/// `a == b` on characters.
pub fn chars_eq(a: &[char], b: &[char]) -> (r: bool)
    ensures
        r == (a@ == b@),
{
    if a.len() != b.len() {
        return false;
    }
    let mut i: usize = 0;
    while i < a.len()
        invariant
            a.len() == b.len(),
            i <= a.len(),
            forall|k: int| 0 <= k < i ==> a@[k] == b@[k],
        decreases a.len() - i,
    {
        if a[i] != b[i] {
            return false;
        }
        i += 1;
    }
    assert(a@ =~= b@);
    true
}

/// Whether the characters of `a` spell `b`.
pub fn chars_eq_str(a: &[char], b: &str) -> (r: bool)
    ensures
        r == (a@ == b@),
{
    let bv = to_chars(b);
    chars_eq(a, bv.as_slice())
}

/// `a == b` on strings.
pub fn str_eq(a: &str, b: &str) -> (r: bool)
    ensures
        r == (a@ == b@),
{
    let av = to_chars(a);
    chars_eq_str(av.as_slice(), b)
}

/// `char::is_whitespace`.
pub fn is_ws_char(c: char) -> (r: bool)
    ensures
        r == is_ws(c),
{
    let u = c as u32;
    (9 <= u && u <= 13) || u == 32 || u == 0x85 || u == 0xa0 || u == 0x1680 || (0x2000 <= u
        && u <= 0x200a) || u == 0x2028 || u == 0x2029 || u == 0x202f || u == 0x205f || u
        == 0x3000
}


// ---------------------------------------------------------------------------
// Scanning
// ---------------------------------------------------------------------------

pub fn skip_ws_exec(v: &[char], i: usize) -> (r: usize)
    requires
        i <= v.len(),
    ensures
        r == skip_ws(v@, i as int),
        i <= r <= v.len(),
{
    let mut j = i;
    while j < v.len() && is_ws_char(v[j])
        invariant
            i <= j <= v.len(),
            skip_ws(v@, i as int) == skip_ws(v@, j as int),
        decreases v.len() - j,
    {
        j += 1;
    }
    j
}

pub fn skip_word_exec(v: &[char], i: usize) -> (r: usize)
    requires
        i <= v.len(),
    ensures
        r == skip_word(v@, i as int),
        i <= r <= v.len(),
{
    let mut j = i;
    while j < v.len() && !is_ws_char(v[j])
        invariant
            i <= j <= v.len(),
            skip_word(v@, i as int) == skip_word(v@, j as int),
        decreases v.len() - j,
    {
        j += 1;
    }
    j
}

pub fn rskip_ws_exec(v: &[char], j: usize) -> (r: usize)
    requires
        j <= v.len(),
    ensures
        r == rskip_ws(v@, j as int),
        r <= j,
{
    let mut k = j;
    while k > 0 && is_ws_char(v[k - 1])
        invariant
            k <= j <= v.len(),
            rskip_ws(v@, j as int) == rskip_ws(v@, k as int),
        decreases k,
    {
        k -= 1;
    }
    k
}

/// `str::trim` on characters.
pub fn trim_chars(v: &[char]) -> (r: Vec<char>)
    ensures
        r@ == trim(v@),
{
    let a = skip_ws_exec(v, 0);
    let b = rskip_ws_exec(v, v.len());
    if a < b {
        slice_chars(v, a, b)
    } else {
        Vec::new()
    }
}

/// `str::trim_start` on characters.
pub fn trim_start_chars(v: &[char]) -> (r: Vec<char>)
    ensures
        r@ == trim_start(v@),
{
    let a = skip_ws_exec(v, 0);
    slice_chars(v, a, v.len())
}

/// `str::trim_end` on characters.
pub fn trim_end_chars(v: &[char]) -> (r: Vec<char>)
    ensures
        r@ == trim_end(v@),
{
    let b = rskip_ws_exec(v, v.len());
    slice_chars(v, 0, b)
}

/// `str::split_whitespace` on characters.
pub fn split_whitespace(v: &[char]) -> (r: Vec<Vec<char>>)
    ensures
        r.deep_view() == split_ws(v@),
{
    let mut out: Vec<Vec<char>> = Vec::new();
    let mut i: usize = 0;
    while i < v.len()
        invariant
            i <= v.len(),
            out.deep_view() + split_ws_from(v@, i as int) == split_ws(v@),
        decreases v.len() - i,
    {
        let a = skip_ws_exec(v, i);
        if a >= v.len() {
            assert(split_ws_from(v@, i as int) == Seq::<Seq<char>>::empty());
            assert(out.deep_view() + Seq::<Seq<char>>::empty() == out.deep_view());
            return out;
        }
        let b = skip_word_exec(v, a);
        proof {
            lemma_skip_word_bounds(v@, a as int);
        }
        let w = slice_chars(v, a, b);
        let ghost before = out.deep_view();
        out.push(w);
        assert(w.deep_view() =~= w@);
        assert(out.deep_view() =~= before.push(w@));
        assert(split_ws_from(v@, i as int) == seq![v@.subrange(a as int, b as int)]
            + split_ws_from(v@, b as int));
        assert(before.push(w@) + split_ws_from(v@, b as int) == before + (seq![w@]
            + split_ws_from(v@, b as int)));
        i = b;
    }
    assert(split_ws_from(v@, i as int) == Seq::<Seq<char>>::empty());
    assert(out.deep_view() + Seq::<Seq<char>>::empty() == out.deep_view());
    out
}

/// `parts.join(sep)` on characters.
pub fn join_chars(parts: &Vec<Vec<char>>, sep: &[char]) -> (r: Vec<char>)
    ensures
        r@ == join(parts.deep_view(), sep@),
{
    let mut out: Vec<char> = Vec::new();
    let mut i: usize = 0;
    while i < parts.len()
        invariant
            i <= parts.len(),
            out@ == join(parts.deep_view().take(i as int), sep@),
        decreases parts.len() - i,
    {
        let ghost prev = parts.deep_view().take(i as int);
        if i > 0 {
            append_chars(&mut out, sep);
        }
        append_chars(&mut out, parts[i].as_slice());
        i += 1;
        assert(parts.deep_view().take(i as int).drop_last() == prev);
        assert(parts.deep_view().take(i as int).last() == parts[i - 1]@);
    }
    assert(parts.deep_view().take(parts.len() as int) == parts.deep_view());
    out
}

/// The strings of `v` as character vectors.
pub fn strings_to_chars(v: &Vec<String>) -> (r: Vec<Vec<char>>)
    ensures
        r.deep_view() == views(v@),
{
    let mut out: Vec<Vec<char>> = Vec::new();
    let mut i: usize = 0;
    while i < v.len()
        invariant
            i <= v.len(),
            out.deep_view() == views(v@).take(i as int),
        decreases v.len() - i,
    {
        let c = to_chars(v[i].as_str());
        let ghost before = out.deep_view();
        out.push(c);
        assert(c.deep_view() =~= c@);
        assert(out.deep_view() =~= before.push(c@));
        i += 1;
        assert(views(v@).take(i as int) =~= views(v@).take(i - 1).push(v@[i - 1]@));
    }
    assert(views(v@).take(v.len() as int) == views(v@));
    out
}

/// `parts.join(sep)` on strings.
pub fn join_strings(parts: &Vec<String>, sep: &str) -> (r: String)
    ensures
        r@ == join(views(parts@), sep@),
{
    let cs = strings_to_chars(parts);
    let sv = to_chars(sep);
    let j = join_chars(&cs, sv.as_slice());
    from_chars(j.as_slice())
}

/// Whether `p` occurs in `s` at index `i`.
pub fn occurs_at_exec(s: &[char], p: &[char], i: usize) -> (r: bool)
    ensures
        r == occurs_at(s@, p@, i as int),
{
    if i > s.len() || p.len() > s.len() - i {
        return false;
    }
    let mut k: usize = 0;
    while k < p.len()
        invariant
            i + p.len() <= s.len(),
            k <= p.len(),
            forall|m: int| 0 <= m < k ==> s@[i + m] == p@[m],
        decreases p.len() - k,
    {
        if s[i + k] != p[k] {
            assert(s@.subrange(i as int, i + p.len())[k as int] != p@[k as int]);
            return false;
        }
        k += 1;
    }
    assert(s@.subrange(i as int, i + p.len()) =~= p@);
    true
}

/// `s.starts_with(p)` on characters.
pub fn starts_with_chars(s: &[char], p: &[char]) -> (r: bool)
    ensures
        r == starts_with(s@, p@),
{
    let r = occurs_at_exec(s, p, 0);
    proof {
        if p.len() <= s.len() {
            assert(s@.subrange(0, p.len() as int) == s@.take(p.len() as int));
        }
    }
    r
}

/// `s.ends_with(p)` on characters.
pub fn ends_with_chars(s: &[char], p: &[char]) -> (r: bool)
    ensures
        r == ends_with(s@, p@),
{
    if p.len() > s.len() {
        return false;
    }
    let r = occurs_at_exec(s, p, s.len() - p.len());
    proof {
        assert(s@.subrange(s.len() - p.len(), s.len() as int) == s@.skip(s.len() - p.len()));
    }
    r
}

/// `s.contains(p)` on characters.
pub fn contains_chars(s: &[char], p: &[char]) -> (r: bool)
    ensures
        r == contains(s@, p@),
{
    if p.len() > s.len() {
        assert forall|i: int| !occurs_at(s@, p@, i) by {}
        return false;
    }
    let last = s.len() - p.len();
    let mut i: usize = 0;
    while i < last
        invariant
            last == s.len() - p.len(),
            i <= last,
            forall|k: int| 0 <= k < i ==> !occurs_at(s@, p@, k),
        decreases last - i,
    {
        if occurs_at_exec(s, p, i) {
            return true;
        }
        i += 1;
    }
    if occurs_at_exec(s, p, last) {
        return true;
    }
    assert forall|k: int| !occurs_at(s@, p@, k) by {
        if 0 <= k < i {
        }
    }
    false
}

/// `s.contains(p)` for a literal pattern.
pub fn contains_str(s: &[char], p: &str) -> (r: bool)
    ensures
        r == contains(s@, p@),
{
    let pv = to_chars(p);
    contains_chars(s, pv.as_slice())
}

/// `s.starts_with(p)` for a literal pattern.
pub fn starts_with_str(s: &[char], p: &str) -> (r: bool)
    ensures
        r == starts_with(s@, p@),
{
    let pv = to_chars(p);
    starts_with_chars(s, pv.as_slice())
}

/// `s.replace(p, r)` for a non-empty pattern.
pub fn replace_chars(s: &[char], p: &[char], rep: &[char]) -> (out: Vec<char>)
    requires
        p.len() > 0,
    ensures
        out@ == replace_all(s@, p@, rep@),
{
    let mut out: Vec<char> = Vec::new();
    let mut i: usize = 0;
    assert(s@.skip(0) =~= s@);
    assert(out@ + s@ =~= s@);
    while i < s.len()
        invariant
            p.len() > 0,
            i <= s.len(),
            replace_all(s@, p@, rep@) == out@ + replace_all(s@.skip(i as int), p@, rep@),
        decreases s.len() - i,
    {
        let ghost rest = s@.skip(i as int);
        let ghost before = out@;
        if occurs_at_exec(s, p, i) {
            assert(rest.take(p.len() as int) == s@.subrange(i as int, i + p.len()));
            assert(starts_with(rest, p@));
            assert(rest.skip(p.len() as int) == s@.skip(i + p.len()));
            assert(i + p.len() <= s.len());
            append_chars(&mut out, rep);
            i += p.len();
            assert(before + (rep@ + replace_all(s@.skip(i as int), p@, rep@)) == (before + rep@)
                + replace_all(s@.skip(i as int), p@, rep@));
        } else {
            proof {
                if starts_with(rest, p@) {
                    assert(rest.take(p.len() as int) == s@.subrange(i as int, i + p.len()));
                }
            }
            assert(rest.drop_first() == s@.skip(i + 1));
            assert(rest[0] == s@[i as int]);
            out.push(s[i]);
            i += 1;
            assert(before + (seq![s@[i - 1]] + replace_all(s@.skip(i as int), p@, rep@)) == before.push(
                s@[i - 1],
            ) + replace_all(s@.skip(i as int), p@, rep@));
        }
    }
    assert(s@.skip(i as int) == Seq::<char>::empty());
    assert(out@ + Seq::<char>::empty() == out@);
    out
}

/// `s.replace(p, r)` for literal pattern and replacement.
pub fn replace_str(s: &[char], p: &str, rep: &[char]) -> (out: Vec<char>)
    requires
        p@.len() > 0,
    ensures
        out@ == replace_all(s@, p@, rep@),
{
    let pv = to_chars(p);
    replace_chars(s, pv.as_slice(), rep)
}

pub fn index_of_char_exec(s: &[char], c: char, i: usize) -> (r: usize)
    requires
        i <= s.len(),
    ensures
        r == index_of_char(s@, c, i as int),
        i <= r <= s.len(),
{
    let mut j = i;
    while j < s.len() && s[j] != c
        invariant
            i <= j <= s.len(),
            index_of_char(s@, c, i as int) == index_of_char(s@, c, j as int),
        decreases s.len() - j,
    {
        j += 1;
    }
    j
}

/// `str::split(c)` on characters.
pub fn split_on_char(s: &[char], c: char) -> (r: Vec<Vec<char>>)
    ensures
        r.deep_view() == split_char(s@, c),
{
    let mut out: Vec<Vec<char>> = Vec::new();
    let mut i: usize = 0;
    loop
        invariant
            i <= s.len(),
            out.deep_view() + split_char_from(s@, c, i as int) == split_char(s@, c),
        decreases s.len() - i,
    {
        let k = index_of_char_exec(s, c, i);
        let w = slice_chars(s, i, k);
        let ghost before = out.deep_view();
        out.push(w);
        assert(w.deep_view() =~= w@);
        assert(out.deep_view() =~= before.push(w@));
        if k >= s.len() {
            assert(split_char_from(s@, c, i as int) == seq![w@]);
            assert(before + seq![w@] == before.push(w@));
            return out;
        }
        assert(split_char_from(s@, c, i as int) == seq![w@] + split_char_from(s@, c, k + 1));
        assert(before.push(w@) + split_char_from(s@, c, k + 1) == before + (seq![w@]
            + split_char_from(s@, c, k + 1)));
        i = k + 1;
    }
}

/// `p` without one trailing carriage return.
pub open spec fn strip_cr(p: Seq<char>) -> Seq<char> {
    if p.len() > 0 && p.last() == '\r' {
        p.drop_last()
    } else {
        p
    }
}

/// The lines of `s` from index `i` on, as `str::lines` yields them: each
/// line runs up to the next newline, without a carriage return just before
/// that newline; a last line without a newline is kept as it is.
pub open spec fn lines_from(s: Seq<char>, i: int) -> Seq<Seq<char>>
    decreases s.len() - i,
{
    if i < 0 || i >= s.len() {
        seq![]
    } else {
        let k = index_of_char(s, '\n', i);
        proof {
            lemma_index_of_char_bounds(s, '\n', i);
        }
        if k >= s.len() {
            seq![s.subrange(i, s.len() as int)]
        } else {
            seq![strip_cr(s.subrange(i, k))] + lines_from(s, k + 1)
        }
    }
}

/// `str::lines`.
pub open spec fn lines(s: Seq<char>) -> Seq<Seq<char>> {
    lines_from(s, 0)
}

/// `str::lines` on characters.
pub fn lines_of(s: &[char]) -> (r: Vec<Vec<char>>)
    ensures
        r.deep_view() == lines(s@),
{
    let mut out: Vec<Vec<char>> = Vec::new();
    let mut i: usize = 0;
    assert(out.deep_view() + lines_from(s@, 0) =~= lines(s@));
    while i < s.len()
        invariant
            i <= s.len(),
            out.deep_view() + lines_from(s@, i as int) == lines(s@),
        decreases s.len() - i,
    {
        let k = index_of_char_exec(s, '\n', i);
        let ghost before = out.deep_view();
        if k >= s.len() {
            let w = slice_chars(s, i, s.len());
            out.push(w);
            assert(w.deep_view() =~= w@);
            assert(out.deep_view() =~= before.push(w@));
            assert(lines_from(s@, i as int) == seq![w@]);
            assert(lines_from(s@, s.len() as int) =~= Seq::<Seq<char>>::empty());
            assert(before + seq![w@] =~= out.deep_view() + lines_from(s@, s.len() as int));
            i = s.len();
        } else {
            let mut w = slice_chars(s, i, k);
            if w.len() > 0 && w[w.len() - 1] == '\r' {
                w.pop();
            }
            assert(w@ == strip_cr(s@.subrange(i as int, k as int)));
            out.push(w);
            assert(w.deep_view() =~= w@);
            assert(out.deep_view() =~= before.push(w@));
            assert(lines_from(s@, i as int) == seq![w@] + lines_from(s@, k + 1));
            assert(before + (seq![w@] + lines_from(s@, k + 1)) =~= before.push(w@) + lines_from(
                s@,
                k + 1,
            ));
            i = k + 1;
        }
    }
    assert(out.deep_view() + Seq::<Seq<char>>::empty() =~= out.deep_view());
    out
}

// ---------------------------------------------------------------------------
// Numbers
// ---------------------------------------------------------------------------

pub fn digit_char_exec(d: u64) -> (c: char)
    requires
        d < 10,
    ensures
        c == digit_char(d as nat),
{
    if d == 0 { '0' }
    else if d == 1 { '1' }
    else if d == 2 { '2' }
    else if d == 3 { '3' }
    else if d == 4 { '4' }
    else if d == 5 { '5' }
    else if d == 6 { '6' }
    else if d == 7 { '7' }
    else if d == 8 { '8' }
    else { '9' }
}

/// The decimal digits of `n`.
pub fn u64_digits(n: u64) -> (r: Vec<char>)
    ensures
        r@ == digits(n as nat),
    decreases n,
{
    if n < 10 {
        let mut v = Vec::new();
        v.push(digit_char_exec(n));
        assert(v@ == seq![digit_char(n as nat)]);
        v
    } else {
        let mut v = u64_digits(n / 10);
        v.push(digit_char_exec(n % 10));
        v
    }
}

/// `n.to_string()`.
pub fn u64_to_string(n: u64) -> (r: String)
    ensures
        r@ == digits(n as nat),
{
    let v = u64_digits(n);
    from_chars(v.as_slice())
}

/// `format!("{:0w$}", n)`.
pub fn zero_padded_exec(n: u64, w: usize) -> (r: Vec<char>)
    ensures
        r@ == zero_padded(n as nat, w as nat),
{
    let d = u64_digits(n);
    if d.len() >= w {
        return d;
    }
    let mut out: Vec<char> = Vec::new();
    let pad = w - d.len();
    let mut i: usize = 0;
    while i < pad
        invariant
            i <= pad,
            out@ == Seq::new(i as nat, |k: int| '0'),
        decreases pad - i,
    {
        out.push('0');
        i += 1;
        assert(out@ =~= Seq::new(i as nat, |k: int| '0'));
    }
    append_chars(&mut out, d.as_slice());
    out
}

pub proof fn lemma_digits_value_prefix(s: Seq<char>, i: int)
    requires
        0 <= i <= s.len(),
    ensures
        digits_value(s.take(i)) <= digits_value(s),
    decreases s.len(),
{
    if i < s.len() {
        assert(s.drop_last().take(i) == s.take(i));
        lemma_digits_value_prefix(s.drop_last(), i);
    } else {
        assert(s.take(i) == s);
    }
}

/// `str::parse::<u64>`.
pub fn parse_u64(s: &[char]) -> (r: Option<u64>)
    ensures
        match r {
            Some(n) => parse_unsigned(s@, u64::MAX as nat) == Some(n as nat),
            None => parse_unsigned(s@, u64::MAX as nat) is None,
        },
{
    let start: usize = if s.len() > 0 && s[0] == '+' { 1 } else { 0 };
    let ghost body = unsigned_body(s@);
    assert(body == s@.skip(start as int));
    if start >= s.len() {
        return None;
    }
    let mut acc: u64 = 0;
    let mut i = start;
    while i < s.len()
        invariant
            start <= i <= s.len(),
            body == s@.skip(start as int),
            body == unsigned_body(s@),
            all_digits(body.take(i - start)),
            acc as nat == digits_value(body.take(i - start)),
        decreases s.len() - i,
    {
        let c = s[i];
        if !('0' <= c && c <= '9') {
            assert(body[i - start] == c);
            assert(!is_digit(body[i - start]));
            assert(!all_digits(body));
            return None;
        }
        let d = (c as u32 - '0' as u32) as u64;
        let ghost prefix = body.take(i + 1 - start);
        assert(prefix.drop_last() == body.take(i - start));
        assert(prefix.last() == c);
        assert(digit_value(c) == d as nat);
        assert(digits_value(prefix) == digits_value(prefix.drop_last()) * 10 + digit_value(
            prefix.last(),
        ));
        assert(digits_value(prefix) == acc as nat * 10 + d as nat);
        match acc.checked_mul(10) {
            Some(m) => {
                match m.checked_add(d) {
                    Some(x) => {
                        acc = x;
                        assert forall|k: int| 0 <= k < prefix.len() implies is_digit(
                            #[trigger] prefix[k],
                        ) by {
                            if k < prefix.len() - 1 {
                                assert(prefix[k] == body.take(i - start)[k]);
                            }
                        }
                    },
                    None => {
                        assert(digits_value(prefix) > u64::MAX);
                        proof {
                            if all_digits(body) {
                                lemma_digits_value_prefix(body, i + 1 - start);
                            }
                        }
                        return None;
                    },
                }
            },
            None => {
                proof {
                    if all_digits(body) {
                        lemma_digits_value_prefix(body, i + 1 - start);
                    }
                }
                return None;
            },
        }
        i += 1;
    }
    assert(body.take(i - start) == body);
    Some(acc)
}

/// `str::parse::<usize>`.
pub fn parse_usize(s: &[char]) -> (r: Option<usize>)
    ensures
        match r {
            Some(n) => parse_unsigned(s@, usize::MAX as nat) == Some(n as nat),
            None => parse_unsigned(s@, usize::MAX as nat) is None,
        },
{
    match parse_u64(s) {
        Some(n) => {
            if n as u128 <= usize::MAX as u128 {
                Some(n as usize)
            } else {
                None
            }
        },
        None => None,
    }
}

/// `str::eq_ignore_ascii_case`.
pub fn eq_ignore_ascii_case_exec(a: &[char], b: &str) -> (r: bool)
    ensures
        r == eq_ignore_ascii_case(a@, b@),
{
    let bv = to_chars(b);
    if a.len() != bv.len() {
        return false;
    }
    let mut i: usize = 0;
    while i < a.len()
        invariant
            a.len() == bv.len(),
            bv@ == b@,
            i <= a.len(),
            forall|k: int| 0 <= k < i ==> ascii_lower(#[trigger] a@[k]) == ascii_lower(bv@[k]),
        decreases a.len() - i,
    {
        if ascii_lower_exec(a[i]) != ascii_lower_exec(bv[i]) {
            return false;
        }
        i += 1;
    }
    true
}

pub fn ascii_lower_exec(c: char) -> (r: char)
    ensures
        r == ascii_lower(c),
{
    if 'A' <= c && c <= 'Z' {
        ((c as u8) + 32) as char
    } else {
        c
    }
}

/// The position of the first text of `s` equal to `x`.
pub open spec fn first_index_of(s: Seq<Seq<char>>, x: Seq<char>) -> Option<int>
    decreases s.len(),
{
    if s.len() == 0 {
        None
    } else {
        match first_index_of(s.drop_last(), x) {
            Some(i) => Some(i),
            None => if s.last() == x {
                Some(s.len() - 1)
            } else {
                None
            },
        }
    }
}

/// `first_index_of` finds the first equal text, and only misses where
/// there is none.
pub proof fn lemma_first_index_of(s: Seq<Seq<char>>, x: Seq<char>)
    ensures
        match first_index_of(s, x) {
            Some(j) => 0 <= j < s.len() && s[j] == x && forall|k: int| 0 <= k < j ==> s[k] != x,
            None => forall|k: int| 0 <= k < s.len() ==> s[k] != x,
        },
    decreases s.len(),
{
    if s.len() > 0 {
        lemma_first_index_of(s.drop_last(), x);
        assert forall|k: int| 0 <= k < s.len() - 1 implies s.drop_last()[k] == s[k] by {}
    }
}

/// The first position of `x` is `i` where `s[i]` is `x` and no text before
/// it is.
pub proof fn lemma_first_index_at(s: Seq<Seq<char>>, x: Seq<char>, i: int)
    requires
        0 <= i < s.len(),
        s[i] == x,
        forall|k: int| 0 <= k < i ==> s[k] != x,
    ensures
        first_index_of(s, x) == Some(i),
{
    lemma_first_index_of(s, x);
}

/// Reading back the decimal digits of `n` gives `n`.
pub proof fn lemma_digits_value_of_digits(n: nat)
    ensures
        digits_value(digits(n)) == n,
    decreases n,
{
    if n < 10 {
        assert(digits(n).drop_last() =~= Seq::<char>::empty());
        assert(digits_value(Seq::<char>::empty()) == 0);
        assert(digit_value(digit_char(n)) == n);
        assert(digits(n).last() == digit_char(n));
        assert(digits_value(digits(n)) == digits_value(digits(n).drop_last()) * 10 + digit_value(digits(n).last()));
    } else {
        lemma_digits_value_of_digits(n / 10);
        assert(digits(n).drop_last() =~= digits(n / 10));
        let d = n % 10;
        assert(digit_value(digit_char(d)) == d);
        assert(digits(n).last() == digit_char(d));
        assert(n == (n / 10) * 10 + d);
        assert(digits_value(digits(n)) == digits_value(digits(n).drop_last()) * 10 + digit_value(digits(n).last()));
    }
}

} // verus!
