//! Character-level text helpers shared by the exporters and the prompt interpreter.

use vstd::prelude::*;

verus! {

broadcast use vstd::string::group_string_axioms;

/// The characters of `s`, in order.
pub fn chars_of(s: &str) -> (v: Vec<char>)
    ensures
        v@ == s@,
{
    let mut v: Vec<char> = Vec::new();
    for c in it: s.chars()
        invariant
            it.seq() == s@,
            v@ == it.seq().take(it.index() as int),
    {
        v.push(c);
    }
    v
}

} // verus!

verus! {

/// `String::from_iter` over characters: the string made of exactly `chars`, in order.
#[verifier::external_body]
pub(crate) fn string_from_chars(chars: &[char]) -> (s: String)
    ensures
        s@ == chars@,
{
    chars.iter().collect()
}

/// Whether `c` is an ASCII letter or digit.
pub open spec fn is_ascii_alnum(c: char) -> bool {
    ('a' <= c <= 'z') || ('A' <= c <= 'Z') || ('0' <= c <= '9')
}

/// `c` with ASCII upper-case letters mapped to lower case.
pub open spec fn ascii_lower(c: char) -> char {
    if 'A' <= c <= 'Z' {
        ((c as int) + 32) as char
    } else {
        c
    }
}

/// Executable form of [`is_ascii_alnum`].
pub fn char_is_ascii_alnum(c: char) -> (b: bool)
    ensures
        b == is_ascii_alnum(c),
{
    ('a' <= c && c <= 'z') || ('A' <= c && c <= 'Z') || ('0' <= c && c <= '9')
}

/// Executable form of [`ascii_lower`].
pub fn char_ascii_lower(c: char) -> (l: char)
    ensures
        l == ascii_lower(c),
{
    if 'A' <= c && c <= 'Z' {
        ((c as u8) + 32) as char
    } else {
        c
    }
}

} // verus!

verus! {

/// Whether `t` occurs in `s` starting at index `i`.
pub open spec fn occurs_at(s: Seq<char>, t: Seq<char>, i: int) -> bool {
    0 <= i && i + t.len() <= s.len() && s.subrange(i, i + t.len()) == t
}

/// Whether `t` occurs in `s` (the empty text occurs everywhere).
pub open spec fn has_text(s: Seq<char>, t: Seq<char>) -> bool {
    exists|i: int| #[trigger] occurs_at(s, t, i)
}

/// Whether some phrase of `phrases` occurs in `s`.
pub open spec fn mentions_any(s: Seq<char>, phrases: Seq<Seq<char>>) -> bool {
    exists|k: int| 0 <= k < phrases.len() && #[trigger] has_text(s, phrases[k])
}

/// Whether `t` occurs in `hay` at `i` (executable form of [`occurs_at`] for an in-range `i`).
fn matches_at(hay: &[char], t: &[char], i: usize) -> (b: bool)
    requires
        i + t@.len() <= hay@.len(),
    ensures
        b == occurs_at(hay@, t@, i as int),
{
    let n = hay.len();
    let mut k: usize = 0;
    while k < t.len()
        invariant
            k <= t@.len(),
            n == hay@.len(),
            i + t@.len() <= hay@.len(),
            forall|j: int| 0 <= j < k ==> hay@[i + j] == t@[j],
        decreases t.len() - k,
    {
        if hay[i + k] != t[k] {
            assert(hay@.subrange(i as int, i + t@.len())[k as int] != t@[k as int]);
            return false;
        }
        k += 1;
    }
    assert(hay@.subrange(i as int, i + t@.len()) =~= t@);
    true
}

/// The first index at which `t` occurs in `hay`, if any.
pub fn find_text(hay: &[char], t: &[char]) -> (r: Option<usize>)
    ensures
        r matches Some(i) ==> occurs_at(hay@, t@, i as int)
            && forall|j: int| 0 <= j < i ==> !#[trigger] occurs_at(hay@, t@, j),
        r is None ==> !has_text(hay@, t@),
{
    if t.len() > hay.len() {
        return None;
    }
    let last = hay.len() - t.len();
    let mut i: usize = 0;
    loop
        invariant
            i <= last,
            last + t@.len() == hay@.len(),
            forall|j: int| 0 <= j < i ==> !#[trigger] occurs_at(hay@, t@, j),
        decreases last - i,
    {
        if matches_at(hay, t, i) {
            return Some(i);
        }
        if i == last {
            assert forall|j: int| !#[trigger] occurs_at(hay@, t@, j) by {
                if 0 <= j < i {
                } else if j == i {
                } else {
                }
            }
            return None;
        }
        i += 1;
    }
}

/// Whether `t` occurs in `hay`.
pub fn contains_text(hay: &[char], t: &[char]) -> (b: bool)
    ensures
        b == has_text(hay@, t@),
{
    match find_text(hay, t) {
        Some(_) => true,
        None => false,
    }
}

/// Whether one of `needles` occurs in `haystack`.
pub fn contains_any(haystack: &[char], needles: &[&str]) -> (b: bool)
    ensures
        b == mentions_any(haystack@, needles@.map_values(|s: &str| s@)),
{
    let ghost ps = needles@.map_values(|s: &str| s@);
    let mut k: usize = 0;
    while k < needles.len()
        invariant
            k <= needles@.len(),
            ps == needles@.map_values(|s: &str| s@),
            forall|j: int| 0 <= j < k ==> !#[trigger] has_text(haystack@, ps[j]),
        decreases needles.len() - k,
    {
        let t = chars_of(needles[k]);
        if contains_text(haystack, t.as_slice()) {
            assert(has_text(haystack@, ps[k as int]));
            return true;
        }
        k += 1;
    }
    false
}

} // verus!

verus! {

/// Whether `c` has the Unicode `White_Space` property (`char::is_whitespace`): the code points
/// U+0009 to U+000D, U+0020, U+0085, U+00A0, U+1680, U+2000 to U+200A, U+2028, U+2029,
/// U+202F, U+205F and U+3000.
pub open spec fn is_ws(c: char) -> bool {
    let u = c as u32;
    (0x09 <= u <= 0x0d) || u == 0x20 || u == 0x85 || u == 0xa0 || u == 0x1680 || (0x2000 <= u <= 0x200a)
        || u == 0x2028 || u == 0x2029 || u == 0x202f || u == 0x205f || u == 0x3000
}

/// Whether `c` has the Unicode `White_Space` property.
pub(crate) fn char_is_whitespace(c: char) -> (b: bool)
    ensures
        b == is_ws(c),
{
    let u = c as u32;
    (0x09 <= u && u <= 0x0d) || u == 0x20 || u == 0x85 || u == 0xa0 || u == 0x1680 || (0x2000 <= u && u <= 0x200a)
        || u == 0x2028 || u == 0x2029 || u == 0x202f || u == 0x205f || u == 0x3000
}

/// `s` without its leading whitespace.
pub open spec fn trim_start_ws(s: Seq<char>) -> Seq<char>
    decreases s.len(),
{
    if s.len() > 0 && is_ws(s[0]) {
        trim_start_ws(s.drop_first())
    } else {
        s
    }
}

/// `s` without its trailing whitespace.
pub open spec fn trim_end_ws(s: Seq<char>) -> Seq<char>
    decreases s.len(),
{
    if s.len() > 0 && is_ws(s.last()) {
        trim_end_ws(s.drop_last())
    } else {
        s
    }
}

/// `s` without leading and trailing whitespace (`str::trim`).
pub open spec fn trimmed(s: Seq<char>) -> Seq<char> {
    trim_end_ws(trim_start_ws(s))
}

/// The characters of `s` without leading and trailing whitespace.
pub fn trim_chars(s: &[char]) -> (r: Vec<char>)
    ensures
        r@ == trimmed(s@),
{
    let mut a: usize = 0;
    assert(s@.skip(0) =~= s@);
    loop
        invariant
            a <= s@.len(),
            trim_start_ws(s@) == trim_start_ws(s@.skip(a as int)),
        ensures
            a <= s@.len(),
            trim_start_ws(s@) == s@.skip(a as int),
        decreases s.len() - a,
    {
        if a == s.len() {
            break;
        }
        if !char_is_whitespace(s[a]) {
            break;
        }
        assert(s@.skip(a as int).drop_first() =~= s@.skip(a + 1));
        a += 1;
    }
    let mut b: usize = s.len();
    assert(s@.skip(a as int) =~= s@.subrange(a as int, b as int));
    loop
        invariant
            a <= b <= s@.len(),
            trim_end_ws(s@.skip(a as int)) == trim_end_ws(s@.subrange(a as int, b as int)),
        ensures
            a <= b <= s@.len(),
            trim_end_ws(s@.skip(a as int)) == s@.subrange(a as int, b as int),
        decreases b,
    {
        if b == a {
            break;
        }
        if !char_is_whitespace(s[b - 1]) {
            break;
        }
        assert(s@.subrange(a as int, b as int).drop_last() =~= s@.subrange(a as int, b - 1));
        b -= 1;
    }
    let mut r: Vec<char> = Vec::new();
    let mut i: usize = a;
    while i < b
        invariant
            a <= i <= b <= s@.len(),
            r@ == s@.subrange(a as int, i as int),
        decreases b - i,
    {
        r.push(s[i]);
        i += 1;
        assert(r@ =~= s@.subrange(a as int, i as int));
    }
    r
}

/// Length of the run of non-whitespace characters that starts `s`.
pub open spec fn word_len(s: Seq<char>) -> nat
    decreases s.len(),
{
    if s.len() == 0 || is_ws(s[0]) {
        0
    } else {
        1 + word_len(s.drop_first())
    }
}

/// A leading word is no longer than the text.
pub proof fn lemma_word_len_le(s: Seq<char>)
    ensures
        word_len(s) <= s.len(),
    decreases s.len(),
{
    if s.len() > 0 && !is_ws(s[0]) {
        lemma_word_len_le(s.drop_first());
    }
}

/// The whitespace-separated words of `s`, in order (`str::split_whitespace`).
pub open spec fn words(s: Seq<char>) -> Seq<Seq<char>>
    decreases s.len(),
{
    if s.len() == 0 {
        Seq::empty()
    } else if is_ws(s[0]) {
        words(s.drop_first())
    } else {
        let w = word_len(s);
        proof {
            lemma_word_len_le(s);
        }
        seq![s.take(w as int)] + words(s.skip(w as int))
    }
}

/// A run of non-whitespace characters from `pos` to `end` that ends at whitespace or at
/// the end of `s` is a whole word.
proof fn lemma_word_len_run(s: Seq<char>, pos: int, end: int)
    requires
        0 <= pos <= end <= s.len(),
        forall|k: int| pos <= k < end ==> !is_ws(#[trigger] s[k]),
        end == s.len() || is_ws(s[end]),
    ensures
        word_len(s.skip(pos)) == end - pos,
    decreases end - pos,
{
    if pos < end {
        lemma_word_len_run(s, pos + 1, end);
        assert(s.skip(pos).drop_first() =~= s.skip(pos + 1));
    }
}

/// The whitespace-separated words of `s`, in order.
pub fn split_words(s: &[char]) -> (ws: Vec<Vec<char>>)
    ensures
        ws@.map_values(|w: Vec<char>| w@) == words(s@),
{
    let mut ws: Vec<Vec<char>> = Vec::new();
    let n = s.len();
    let mut pos: usize = 0;
    assert(s@.skip(0) =~= s@);
    assert(ws@.map_values(|w: Vec<char>| w@) =~= Seq::<Seq<char>>::empty());
    while pos < n
        invariant
            pos <= n,
            n == s@.len(),
            ws@.map_values(|w: Vec<char>| w@) + words(s@.skip(pos as int)) == words(s@),
        decreases n - pos,
    {
        if char_is_whitespace(s[pos]) {
            assert(s@.skip(pos as int).drop_first() =~= s@.skip(pos + 1));
            pos += 1;
        } else {
            let mut end = pos;
            let mut word: Vec<char> = Vec::new();
            while end < n && !char_is_whitespace(s[end])
                invariant
                    pos <= end <= n,
                    n == s@.len(),
                    word@ == s@.subrange(pos as int, end as int),
                    forall|k: int| pos <= k < end ==> !is_ws(#[trigger] s@[k]),
                decreases n - end,
            {
                word.push(s[end]);
                end += 1;
            }
            proof {
                lemma_word_len_run(s@, pos as int, end as int);
                let rest = s@.skip(pos as int);
                assert(rest.take((end - pos) as int) =~= word@);
                assert(rest.skip((end - pos) as int) =~= s@.skip(end as int));
            }
            let ghost before = ws@.map_values(|w: Vec<char>| w@);
            ws.push(word);
            assert(ws@.map_values(|w: Vec<char>| w@) =~= before.push(s@.subrange(pos as int, end as int)));
            pos = end;
        }
    }
    assert(s@.skip(n as int) =~= Seq::<char>::empty());
    ws
}

/// Whether `c` is an ASCII decimal digit.
pub open spec fn is_digit(c: char) -> bool {
    '0' <= c <= '9'
}

/// The decimal value of a digit string.
pub open spec fn decimal_value(s: Seq<char>) -> int
    decreases s.len(),
{
    if s.len() == 0 {
        0
    } else {
        decimal_value(s.drop_last()) * 10 + (s.last() as int - 48)
    }
}

/// Whether every character of `s` is an ASCII decimal digit.
pub open spec fn all_digits(s: Seq<char>) -> bool {
    forall|i: int| 0 <= i < s.len() ==> is_digit(#[trigger] s[i])
}

/// `s` without one leading `+`.
pub open spec fn unsigned_body(s: Seq<char>) -> Seq<char> {
    if s.len() > 0 && s[0] == '+' { s.drop_first() } else { s }
}

/// `str::parse::<u32>`: an optional `+` then at least one digit, with a value that fits.
pub open spec fn parse_u32(s: Seq<char>) -> Option<u32> {
    let body = unsigned_body(s);
    if body.len() > 0 && all_digits(body) && decimal_value(body) <= u32::MAX {
        Some(decimal_value(body) as u32)
    } else {
        None
    }
}

proof fn lemma_decimal_nonneg(s: Seq<char>)
    requires
        forall|i: int| 0 <= i < s.len() ==> is_digit(#[trigger] s[i]),
    ensures
        decimal_value(s) >= 0,
    decreases s.len(),
{
    if s.len() > 0 {
        lemma_decimal_nonneg(s.drop_last());
        assert(is_digit(s[s.len() - 1]));
    }
}

/// Parses `s` as `str::parse::<u32>` does.
pub fn parse_u32_chars(s: &[char]) -> (r: Option<u32>)
    ensures
        r == parse_u32(s@),
{
    let n = s.len();
    let start: usize = if n > 0 && s[0] == '+' { 1 } else { 0 };
    let ghost body = unsigned_body(s@);
    assert(body =~= s@.subrange(start as int, n as int));
    if start == n {
        return None;
    }
    let mut value: u32 = 0;
    let mut i = start;
    while i < n
        invariant
            start <= i <= n,
            n == s@.len(),
            body == s@.subrange(start as int, n as int),
            body == unsigned_body(s@),
            forall|k: int| 0 <= k < i - start ==> is_digit(#[trigger] body[k]),
            value == decimal_value(body.take(i - start)),
        decreases n - i,
    {
        let c = s[i];
        if !('0' <= c && c <= '9') {
            assert(!is_digit(body[i - start]));
            return None;
        }
        let d = (c as u32) - 48;
        proof {
            assert(body.take(i - start + 1).drop_last() =~= body.take(i - start));
            lemma_decimal_nonneg(body.take(i - start));
        }
        if value > 429496729 || (value == 429496729 && d > 5) {
            proof {
                assert(decimal_value(body.take(i - start + 1)) > u32::MAX);
                if all_digits(body) {
                    lemma_decimal_prefix_bound(body, i - start + 1);
                }
            }
            return None;
        }
        value = value * 10 + d;
        i += 1;
    }
    assert(body.take(n - start) =~= body);
    Some(value)
}

/// A digit string is at least as large, in value, as each of its prefixes.
proof fn lemma_decimal_prefix_bound(s: Seq<char>, k: int)
    requires
        0 <= k <= s.len(),
        forall|i: int| 0 <= i < k ==> is_digit(#[trigger] s[i]),
        (forall|i: int| 0 <= i < s.len() ==> is_digit(#[trigger] s[i])),
    ensures
        decimal_value(s.take(k)) <= decimal_value(s),
    decreases s.len() - k,
{
    if k < s.len() {
        lemma_decimal_prefix_bound(s, k + 1);
        assert(s.take(k + 1).drop_last() =~= s.take(k));
        lemma_decimal_nonneg(s.take(k));
        assert(is_digit(s[k]));
    } else {
        assert(s.take(k) =~= s);
    }
}

} // verus!

verus! {

/// Index of the first digit of `s` (or `s.len()`).
pub open spec fn first_digit(s: Seq<char>) -> int
    decreases s.len(),
{
    if s.len() == 0 || is_digit(s[0]) {
        0
    } else {
        1 + first_digit(s.drop_first())
    }
}

/// One past the last digit of `s` (or `0`).
pub open spec fn end_digit(s: Seq<char>) -> int
    decreases s.len(),
{
    if s.len() == 0 || is_digit(s.last()) {
        s.len() as int
    } else {
        end_digit(s.drop_last())
    }
}

/// `s` with leading and trailing non-digits removed (`trim_matches` of non-digits).
pub open spec fn trim_nondigits(s: Seq<char>) -> Seq<char> {
    if first_digit(s) < end_digit(s) {
        s.subrange(first_digit(s), end_digit(s))
    } else {
        Seq::empty()
    }
}

proof fn lemma_digit_bounds(s: Seq<char>)
    ensures
        0 <= first_digit(s) <= s.len(),
        0 <= end_digit(s) <= s.len(),
        forall|k: int| 0 <= k < first_digit(s) ==> !is_digit(#[trigger] s[k]),
        first_digit(s) < s.len() ==> is_digit(s[first_digit(s)]),
        forall|k: int| end_digit(s) <= k < s.len() ==> !is_digit(#[trigger] s[k]),
        end_digit(s) > 0 ==> is_digit(s[end_digit(s) - 1]),
    decreases s.len(),
{
    if s.len() > 0 {
        let t = s.drop_first();
        let u = s.drop_last();
        lemma_digit_bounds(t);
        lemma_digit_bounds(u);
        assert forall|k: int| 0 <= k < first_digit(s) implies !is_digit(#[trigger] s[k]) by {
            if k > 0 {
                assert(s[k] == t[k - 1]);
            }
        }
        assert forall|k: int| end_digit(s) <= k < s.len() implies !is_digit(#[trigger] s[k]) by {
            if k < s.len() - 1 {
                assert(s[k] == u[k]);
            }
        }
    }
}

/// `s` with leading and trailing non-digits removed.
pub fn trim_nondigit_chars(s: &[char]) -> (r: Vec<char>)
    ensures
        r@ == trim_nondigits(s@),
{
    proof {
        lemma_digit_bounds(s@);
    }
    let n = s.len();
    let mut start: usize = 0;
    while start < n && !('0' <= s[start] && s[start] <= '9')
        invariant
            start <= n,
            n == s@.len(),
            forall|k: int| 0 <= k < start ==> !is_digit(#[trigger] s@[k]),
        decreases n - start,
    {
        start += 1;
    }
    let mut end: usize = n;
    while end > 0 && !('0' <= s[end - 1] && s[end - 1] <= '9')
        invariant
            end <= n,
            n == s@.len(),
            forall|k: int| end <= k < n ==> !is_digit(#[trigger] s@[k]),
        decreases end,
    {
        end -= 1;
    }
    proof {
        let f = first_digit(s@);
        let e = end_digit(s@);
        if start < n {
            assert(start == f);
        } else {
            assert(f == n);
        }
        if end > 0 {
            assert(end == e);
        } else {
            assert(e == 0);
        }
    }
    let mut out: Vec<char> = Vec::new();
    if start < end {
        let mut k = start;
        while k < end
            invariant
                start <= k <= end <= n,
                n == s@.len(),
                out@ == s@.subrange(start as int, k as int),
            decreases end - k,
        {
            out.push(s[k]);
            k += 1;
        }
    }
    assert(out@ =~= trim_nondigits(s@));
    out
}

/// Start of the run of digits that ends `s`.
pub open spec fn digit_suffix_start(s: Seq<char>) -> int
    decreases s.len(),
{
    if s.len() == 0 || !is_digit(s.last()) {
        s.len() as int
    } else {
        digit_suffix_start(s.drop_last())
    }
}

/// The part of `s` after its last non-digit (`rsplit` of non-digits, first item).
pub open spec fn digit_suffix(s: Seq<char>) -> Seq<char> {
    s.skip(digit_suffix_start(s))
}

proof fn lemma_digit_suffix_start(s: Seq<char>)
    ensures
        0 <= digit_suffix_start(s) <= s.len(),
        forall|k: int| digit_suffix_start(s) <= k < s.len() ==> is_digit(#[trigger] s[k]),
        digit_suffix_start(s) > 0 ==> !is_digit(s[digit_suffix_start(s) - 1]),
    decreases s.len(),
{
    if s.len() > 0 && is_digit(s.last()) {
        let u = s.drop_last();
        lemma_digit_suffix_start(u);
        assert forall|k: int| digit_suffix_start(s) <= k < s.len() implies is_digit(#[trigger] s[k]) by {
            if k < s.len() - 1 {
                assert(s[k] == u[k]);
            }
        }
    }
}

/// The part of `s` after its last non-digit.
pub fn digit_suffix_chars(s: &[char]) -> (r: Vec<char>)
    ensures
        r@ == digit_suffix(s@),
{
    proof {
        lemma_digit_suffix_start(s@);
    }
    let n = s.len();
    let mut start: usize = n;
    while start > 0 && '0' <= s[start - 1] && s[start - 1] <= '9'
        invariant
            start <= n,
            n == s@.len(),
            forall|k: int| start <= k < n ==> is_digit(#[trigger] s@[k]),
        decreases start,
    {
        start -= 1;
    }
    assert(start == digit_suffix_start(s@)) by {
        let d = digit_suffix_start(s@);
        if start < d {
            assert(is_digit(s@[d - 1]));
        }
        if d < start {
            assert(is_digit(s@[start - 1]));
        }
    }
    let mut out: Vec<char> = Vec::new();
    let mut k = start;
    while k < n
        invariant
            start <= k <= n,
            n == s@.len(),
            out@ == s@.subrange(start as int, k as int),
        decreases n - k,
    {
        out.push(s[k]);
        k += 1;
    }
    assert(out@ =~= digit_suffix(s@));
    out
}

/// `s` with every non-overlapping occurrence of `p` removed, scanning from the left
/// (`str::replace` with an empty replacement).
pub open spec fn remove_all(s: Seq<char>, p: Seq<char>) -> Seq<char>
    decreases s.len(),
{
    if p.len() == 0 || s.len() < p.len() {
        s
    } else if s.take(p.len() as int) == p {
        remove_all(s.skip(p.len() as int), p)
    } else {
        seq![s[0]] + remove_all(s.skip(1), p)
    }
}

/// `s` with every non-overlapping occurrence of `p` removed, from the left.
pub fn remove_all_chars(s: &[char], p: &[char]) -> (r: Vec<char>)
    ensures
        r@ == remove_all(s@, p@),
{
    let n = s.len();
    let m = p.len();
    let mut out: Vec<char> = Vec::new();
    if m == 0 {
        let mut k: usize = 0;
        while k < n
            invariant
                k <= n,
                n == s@.len(),
                out@ == s@.take(k as int),
            decreases n - k,
        {
            out.push(s[k]);
            k += 1;
        }
        assert(out@ =~= s@);
        return out;
    }
    let mut i: usize = 0;
    assert(s@.skip(0) =~= s@);
    while i < n
        invariant
            i <= n,
            n == s@.len(),
            m == p@.len(),
            m > 0,
            out@ + remove_all(s@.skip(i as int), p@) == remove_all(s@, p@),
        decreases n - i,
    {
        let ghost rest = s@.skip(i as int);
        if n - i >= m && matches_at(s, p, i) {
            assert(rest.take(m as int) =~= s@.subrange(i as int, i + m));
            assert(rest.skip(m as int) =~= s@.skip(i + m));
            i += m;
        } else {
            if n - i >= m {
                assert(rest.take(m as int) =~= s@.subrange(i as int, i + m));
            }
            assert(rest.skip(1) =~= s@.skip(i + 1));
            let ghost before = out@;
            out.push(s[i]);
            assert(out@ + remove_all(s@.skip(i + 1), p@) =~= before + (seq![s@[i as int]] + remove_all(s@.skip(i + 1), p@)));
            i += 1;
        }
    }
    assert(s@.skip(n as int) =~= Seq::<char>::empty());
    assert(out@ + Seq::<char>::empty() =~= out@);
    out
}

/// The decimal digits of `n` as ASCII bytes, most significant first, without leading zeros.
pub open spec fn decimal_bytes(n: nat) -> Seq<u8>
    decreases n,
{
    if n < 10 {
        seq![(48 + n) as u8]
    } else {
        decimal_bytes(n / 10).push((48 + n % 10) as u8)
    }
}

/// The decimal digits of `n`, most significant first, without leading zeros.
pub open spec fn decimal_chars(n: nat) -> Seq<char> {
    decimal_bytes(n).map_values(|b: u8| b as char)
}

/// The low byte of every character: the ASCII encoding of ASCII text.
pub open spec fn ascii_bytes(s: Seq<char>) -> Seq<u8> {
    s.map_values(|c: char| (c as u32 % 256) as u8)
}

/// Appends the decimal digits of `n` as ASCII bytes.
pub fn push_decimal(out: &mut Vec<u8>, n: u64)
    ensures
        final(out)@ == old(out)@ + decimal_bytes(n as nat),
    decreases n,
{
    let ghost start = out@;
    if n >= 10 {
        push_decimal(out, n / 10);
    }
    let digit: u8 = (n % 10) as u8;
    out.push(48 + digit);
    assert(out@ =~= start + decimal_bytes(n as nat));
}

/// Appends the decimal digits of `n`.
pub fn push_decimal_chars(out: &mut Vec<char>, n: u64)
    ensures
        final(out)@ == old(out)@ + decimal_chars(n as nat),
    decreases n,
{
    let ghost start = out@;
    if n >= 10 {
        push_decimal_chars(out, n / 10);
    }
    let digit: u8 = (n % 10) as u8;
    out.push((48 + digit) as char);
    assert(decimal_chars(n as nat) =~= if n < 10 {
        seq![((48 + n % 10) as u8) as char]
    } else {
        decimal_chars((n / 10) as nat).push(((48 + n % 10) as u8) as char)
    });
    assert(out@ =~= start + decimal_chars(n as nat));
}

/// Appends the characters of `s`.
pub fn push_chars(out: &mut Vec<char>, s: &str)
    ensures
        final(out)@ == old(out)@ + s@,
{
    let v = chars_of(s);
    let ghost start = out@;
    let mut i: usize = 0;
    while i < v.len()
        invariant
            i <= v@.len(),
            v@ == s@,
            out@ == start + v@.take(i as int),
        decreases v.len() - i,
    {
        out.push(v[i]);
        i += 1;
        assert(out@ =~= start + v@.take(i as int));
    }
    assert(v@.take(v@.len() as int) =~= v@);
}

/// Appends the low byte of every character of `s` (its ASCII encoding, for ASCII text).
pub fn push_ascii(out: &mut Vec<u8>, s: &str)
    ensures
        final(out)@ == old(out)@ + ascii_bytes(s@),
{
    let v = chars_of(s);
    let ghost start = out@;
    let mut i: usize = 0;
    while i < v.len()
        invariant
            i <= v@.len(),
            v@ == s@,
            out@ == start + ascii_bytes(v@.take(i as int)),
        decreases v.len() - i,
    {
        let c = v[i];
        let b: u8 = (c as u32 % 256) as u8;
        out.push(b);
        i += 1;
        assert(out@ =~= start + ascii_bytes(v@.take(i as int)));
    }
    assert(v@.take(v@.len() as int) =~= v@);
}

} // verus!
