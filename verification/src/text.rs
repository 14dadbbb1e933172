//! Character-level text utilities shared by the rest of the library.
//!
//! Strings are handled as sequences of `char`: the contracts speak of
//! `Seq<char>` views, and the executable code works on `Vec<char>`.
use vstd::prelude::*;
use vstd::string::*;

verus! {

// ---------------------------------------------------------------------------
// Conversions between `str`/`String` and vectors of characters (std calls).
// ---------------------------------------------------------------------------

/// The characters of a string slice, in order (std `Iterator::collect` over `str::chars`).
#[verifier::external_body]
pub(crate) fn str_chars(s: &str) -> (v: Vec<char>)
    ensures
        v@ == s@,
{
    s.chars().collect()
}

/// A string made of the given characters, in order (std `String::from_iter`).
#[verifier::external_body]
pub(crate) fn string_from_chars(v: &[char]) -> (s: String)
    ensures
        s@ == v@,
{
    String::from_iter(v.iter())
}

/// Appends one character to a string (std `String::push`).
#[verifier::external_body]
pub(crate) fn push_char(s: &mut String, c: char)
    ensures
        final(s)@ == old(s)@.push(c),
{
    s.push(c)
}

/// `String::from_utf8`: the text of some bytes when they are UTF-8, `None`
/// otherwise.
#[verifier::external_body]
pub(crate) fn utf8_text(bytes: Vec<u8>) -> (r: Option<String>)
    ensures
        r is Some <==> vstd::utf8::valid_utf8(bytes@),
        r matches Some(s) ==> s@ == vstd::utf8::decode_utf8(bytes@),
{
    match String::from_utf8(bytes) {
        Ok(s) => Some(s),
        Err(_) => None,
    }
}

/// Where `std::str::from_utf8` stops on some bytes: `None` for UTF-8, else
/// its error's `valid_up_to` and whether `error_len` is `None` (the bytes
/// end inside a character).
pub uninterp spec fn utf8_error_of(bytes: Seq<u8>) -> Option<(nat, bool)>;

/// `std::str::from_utf8` on some bytes, reporting where it stopped.  Its
/// documentation says that the bytes before `valid_up_to` are UTF-8.
#[verifier::external_body]
pub(crate) fn utf8_error(bytes: &[u8]) -> (r: Option<(usize, bool)>)
    ensures
        match r {
            Some((n, end)) => utf8_error_of(bytes@) == Some((n as nat, end)),
            None => utf8_error_of(bytes@) is None,
        },
        r is None <==> vstd::utf8::valid_utf8(bytes@),
        r matches Some((n, _)) ==> n <= bytes@.len() && vstd::utf8::valid_utf8(bytes@.take(n as int)),
{
    match std::str::from_utf8(bytes) {
        Ok(_) => None,
        Err(e) => Some((e.valid_up_to(), e.error_len().is_none())),
    }
}

/// What `String::from_utf8_lossy` makes of some bytes.
pub uninterp spec fn utf8_lossy(bytes: Seq<u8>) -> Seq<char>;

/// `String::from_utf8_lossy(bytes).into_owned()`: the bytes as text, each
/// invalid sequence replaced.
#[verifier::external_body]
pub(crate) fn utf8_lossy_text(bytes: &[u8]) -> (r: String)
    ensures
        r@ == utf8_lossy(bytes@),
{
    String::from_utf8_lossy(bytes).into_owned()
}

/// Equality of two string slices (std `PartialEq for str`).
#[verifier::external_body]
pub(crate) fn str_eq(a: &str, b: &str) -> (r: bool)
    ensures
        r == (a@ == b@),
{
    a == b
}

/// A fresh ULID rendered as text (outside crate `ulid`: `Ulid::new().to_string()`).
/// The value depends on the clock and on a random source, so only its shape is stated:
/// `ULID_LEN` (26) characters from the Crockford base-32 alphabet.
#[verifier::external_body]
pub(crate) fn new_ulid_text() -> (s: String)
    ensures
        s@.len() == 26,
        forall|i: int| 0 <= i < s@.len() ==> is_ascii_alnum(#[trigger] s@[i]),
{
    ulid::Ulid::new().to_string()
}

// ---------------------------------------------------------------------------
// Character classes.
// ---------------------------------------------------------------------------

/// Unicode `White_Space`, as `char::is_whitespace` documents it.
pub open spec fn is_whitespace(c: char) -> bool {
    let u = c as u32;
    ||| (9 <= u && u <= 13)
    ||| u == 32
    ||| u == 0x85
    ||| u == 0xA0
    ||| u == 0x1680
    ||| (0x2000 <= u && u <= 0x200A)
    ||| u == 0x2028
    ||| u == 0x2029
    ||| u == 0x202F
    ||| u == 0x205F
    ||| u == 0x3000
}

pub fn is_whitespace_exec(c: char) -> (b: bool)
    ensures
        b == is_whitespace(c),
{
    let u = c as u32;
    (9 <= u && u <= 13) || u == 32 || u == 0x85 || u == 0xA0 || u == 0x1680 || (0x2000 <= u && u
        <= 0x200A) || u == 0x2028 || u == 0x2029 || u == 0x202F || u == 0x205F || u == 0x3000
}

pub open spec fn is_ascii_digit(c: char) -> bool {
    '0' <= c && c <= '9'
}

pub open spec fn is_ascii_upper(c: char) -> bool {
    'A' <= c && c <= 'Z'
}

pub open spec fn is_ascii_lower(c: char) -> bool {
    'a' <= c && c <= 'z'
}

pub open spec fn is_ascii_alnum(c: char) -> bool {
    is_ascii_digit(c) || is_ascii_upper(c) || is_ascii_lower(c)
}

pub fn is_ascii_alnum_exec(c: char) -> (b: bool)
    ensures
        b == is_ascii_alnum(c),
{
    ('0' <= c && c <= '9') || ('A' <= c && c <= 'Z') || ('a' <= c && c <= 'z')
}

/// `char::to_ascii_lowercase`.
pub open spec fn ascii_lower_char(c: char) -> char {
    if is_ascii_upper(c) {
        ((c as u32) + 32) as char
    } else {
        c
    }
}

/// `char::to_ascii_uppercase`.
pub open spec fn ascii_upper_char(c: char) -> char {
    if is_ascii_lower(c) {
        ((c as u32) - 32) as char
    } else {
        c
    }
}

pub fn ascii_lower_char_exec(c: char) -> (r: char)
    ensures
        r == ascii_lower_char(c),
{
    if 'A' <= c && c <= 'Z' {
        let u = (c as u32) + 32;
        assert(u < 0xD800);
        char_from_u32(u)
    } else {
        c
    }
}

pub fn ascii_upper_char_exec(c: char) -> (r: char)
    ensures
        r == ascii_upper_char(c),
{
    if 'a' <= c && c <= 'z' {
        let u = (c as u32) - 32;
        char_from_u32(u)
    } else {
        c
    }
}

/// The character with a given code point, for code points below the surrogate range.
#[verifier::external_body]
fn char_from_u32(u: u32) -> (c: char)
    requires
        u < 0xD800,
    ensures
        c == u as char,
        c as u32 == u,
{
    char::from_u32(u).unwrap()
}

pub open spec fn ascii_lower(s: Seq<char>) -> Seq<char> {
    s.map_values(|c: char| ascii_lower_char(c))
}

pub open spec fn ascii_upper(s: Seq<char>) -> Seq<char> {
    s.map_values(|c: char| ascii_upper_char(c))
}

pub fn ascii_lower_vec(v: &[char]) -> (r: Vec<char>)
    ensures
        r@ == ascii_lower(v@),
{
    let mut r: Vec<char> = Vec::new();
    let mut i: usize = 0;
    while i < v.len()
        invariant
            i <= v.len(),
            r@ == ascii_lower(v@.take(i as int)),
        decreases v.len() - i,
    {
        r.push(ascii_lower_char_exec(v[i]));
        i = i + 1;
        assert(ascii_lower(v@.take(i as int)) =~= ascii_lower(v@.take(i - 1)).push(
            ascii_lower_char(v@[i - 1]),
        ));
    }
    assert(v@.take(v.len() as int) =~= v@);
    r
}

pub fn ascii_upper_vec(v: &[char]) -> (r: Vec<char>)
    ensures
        r@ == ascii_upper(v@),
{
    let mut r: Vec<char> = Vec::new();
    let mut i: usize = 0;
    while i < v.len()
        invariant
            i <= v.len(),
            r@ == ascii_upper(v@.take(i as int)),
        decreases v.len() - i,
    {
        r.push(ascii_upper_char_exec(v[i]));
        i = i + 1;
        assert(ascii_upper(v@.take(i as int)) =~= ascii_upper(v@.take(i - 1)).push(
            ascii_upper_char(v@[i - 1]),
        ));
    }
    assert(v@.take(v.len() as int) =~= v@);
    r
}

// ---------------------------------------------------------------------------
// Substrings, prefixes and suffixes.
// ---------------------------------------------------------------------------

pub open spec fn matches_at(s: Seq<char>, t: Seq<char>, i: int) -> bool {
    0 <= i && i + t.len() <= s.len() && s.subrange(i, i + t.len()) == t
}

/// `t` occurs in `s` (`str::contains` with a string pattern).
pub open spec fn contains_sub(s: Seq<char>, t: Seq<char>) -> bool {
    exists|i: int| #[trigger] matches_at(s, t, i)
}

pub open spec fn starts_with(s: Seq<char>, t: Seq<char>) -> bool {
    t.len() <= s.len() && s.subrange(0, t.len() as int) == t
}

pub open spec fn ends_with(s: Seq<char>, t: Seq<char>) -> bool {
    t.len() <= s.len() && s.subrange(s.len() - t.len(), s.len() as int) == t
}

pub fn chars_match_at(s: &[char], t: &[char], i: usize) -> (b: bool)
    requires
        i <= s@.len(),
    ensures
        b == matches_at(s@, t@, i as int),
{
    if t.len() > s.len() - i {
        return false;
    }
    let mut j: usize = 0;
    while j < t.len()
        invariant
            i + t@.len() <= s@.len(),
            s@.len() == s.len(),
            j <= t@.len(),
            forall|k: int| 0 <= k < j ==> s@[i + k] == t@[k],
        decreases t.len() - j,
    {
        if s[i + j] != t[j] {
            assert(s@.subrange(i as int, i + t@.len())[j as int] != t@[j as int]);
            return false;
        }
        j = j + 1;
    }
    assert(s@.subrange(i as int, i + t@.len()) =~= t@);
    true
}

pub fn chars_contains(s: &[char], t: &[char]) -> (b: bool)
    ensures
        b == contains_sub(s@, t@),
{
    if t.len() > s.len() {
        assert forall|i: int| !matches_at(s@, t@, i) by {}
        return false;
    }
    let limit = s.len() - t.len();
    let mut i: usize = 0;
    while i < limit
        invariant
            t@.len() <= s@.len(),
            limit == s@.len() - t@.len(),
            i <= limit,
            forall|k: int| 0 <= k < i ==> !matches_at(s@, t@, k),
        decreases limit - i,
    {
        if chars_match_at(s, t, i) {
            return true;
        }
        i = i + 1;
    }
    if chars_match_at(s, t, limit) {
        return true;
    }
    assert forall|k: int| !matches_at(s@, t@, k) by {}
    false
}

pub fn chars_starts_with(s: &[char], t: &[char]) -> (b: bool)
    ensures
        b == starts_with(s@, t@),
{
    chars_match_at(s, t, 0)
}

pub fn chars_ends_with(s: &[char], t: &[char]) -> (b: bool)
    ensures
        b == ends_with(s@, t@),
{
    if t.len() > s.len() {
        return false;
    }
    chars_match_at(s, t, s.len() - t.len())
}

pub fn chars_contains_char(s: &[char], c: char) -> (b: bool)
    ensures
        b == s@.contains(c),
{
    let mut i: usize = 0;
    while i < s.len()
        invariant
            i <= s@.len(),
            forall|k: int| 0 <= k < i ==> s@[k] != c,
        decreases s.len() - i,
    {
        if s[i] == c {
            assert(s@[i as int] == c);
            return true;
        }
        i = i + 1;
    }
    false
}

pub fn chars_eq(a: &[char], b: &[char]) -> (r: bool)
    ensures
        r == (a@ == b@),
{
    if a.len() != b.len() {
        return false;
    }
    let r = chars_match_at(a, b, 0);
    assert(a@.subrange(0, a@.len() as int) =~= a@);
    r
}

/// The characters of `s` equal those of the literal `lit`.
pub fn chars_eq_str(s: &[char], lit: &str) -> (r: bool)
    ensures
        r == (s@ == lit@),
{
    let l = str_chars(lit);
    chars_eq(s, l.as_slice())
}

pub fn chars_contains_str(s: &[char], lit: &str) -> (r: bool)
    ensures
        r == contains_sub(s@, lit@),
{
    let l = str_chars(lit);
    chars_contains(s, l.as_slice())
}

pub fn chars_starts_with_str(s: &[char], lit: &str) -> (r: bool)
    ensures
        r == starts_with(s@, lit@),
{
    let l = str_chars(lit);
    chars_starts_with(s, l.as_slice())
}

pub fn chars_ends_with_str(s: &[char], lit: &str) -> (r: bool)
    ensures
        r == ends_with(s@, lit@),
{
    let l = str_chars(lit);
    chars_ends_with(s, l.as_slice())
}

// ---------------------------------------------------------------------------
// Trimming.
// ---------------------------------------------------------------------------

/// `str::trim_start`.
pub open spec fn trim_start(s: Seq<char>) -> Seq<char>
    decreases s.len(),
{
    if s.len() > 0 && is_whitespace(s[0]) {
        trim_start(s.drop_first())
    } else {
        s
    }
}

/// `str::trim_end`.
pub open spec fn trim_end(s: Seq<char>) -> Seq<char>
    decreases s.len(),
{
    if s.len() > 0 && is_whitespace(s.last()) {
        trim_end(s.drop_last())
    } else {
        s
    }
}

/// `str::trim`.
pub open spec fn trim(s: Seq<char>) -> Seq<char> {
    trim_end(trim_start(s))
}

proof fn lemma_trim_start_skip(s: Seq<char>, i: int)
    requires
        0 <= i <= s.len(),
        forall|k: int| 0 <= k < i ==> is_whitespace(#[trigger] s[k]),
    ensures
        trim_start(s) == trim_start(s.subrange(i, s.len() as int)),
    decreases i,
{
    if i > 0 {
        assert(s.drop_first() =~= s.subrange(1, s.len() as int));
        lemma_trim_start_skip(s.drop_first(), i - 1);
        assert(s.drop_first().subrange(i - 1, s.drop_first().len() as int) =~= s.subrange(
            i,
            s.len() as int,
        ));
    } else {
        assert(s.subrange(0, s.len() as int) =~= s);
    }
}

proof fn lemma_trim_end_skip(s: Seq<char>, j: int)
    requires
        0 <= j <= s.len(),
        forall|k: int| j <= k < s.len() ==> is_whitespace(#[trigger] s[k]),
    ensures
        trim_end(s) == trim_end(s.subrange(0, j)),
    decreases s.len() - j,
{
    if j < s.len() {
        assert(s.drop_last() =~= s.subrange(0, s.len() - 1));
        lemma_trim_end_skip(s.drop_last(), j);
        assert(s.drop_last().subrange(0, j) =~= s.subrange(0, j));
    } else {
        assert(s.subrange(0, j) =~= s);
    }
}

/// The bounds `[start, end)` of `trim(v)` inside `v`.
pub fn trim_bounds(v: &[char]) -> (r: (usize, usize))
    ensures
        r.0 <= r.1 <= v@.len(),
        v@.subrange(r.0 as int, r.1 as int) == trim(v@),
        trim_start(v@) == v@.subrange(r.0 as int, v@.len() as int),
{
    let mut start: usize = 0;
    while start < v.len() && is_whitespace_exec(v[start])
        invariant
            start <= v@.len(),
            forall|k: int| 0 <= k < start ==> is_whitespace(#[trigger] v@[k]),
        decreases v.len() - start,
    {
        start = start + 1;
    }
    proof {
        lemma_trim_start_skip(v@, start as int);
        let rest = v@.subrange(start as int, v@.len() as int);
        if rest.len() > 0 {
            assert(rest[0] == v@[start as int]);
        }
    }
    let ghost rest = v@.subrange(start as int, v@.len() as int);
    assert(trim_start(rest) == rest);
    let mut end: usize = v.len();
    while end > start && is_whitespace_exec(v[end - 1])
        invariant
            start <= end <= v@.len(),
            rest == v@.subrange(start as int, v@.len() as int),
            forall|k: int| end - start <= k < rest.len() ==> is_whitespace(#[trigger] rest[k]),
        decreases end,
    {
        end = end - 1;
    }
    proof {
        lemma_trim_end_skip(rest, end - start);
        let t = rest.subrange(0, end - start);
        assert(t =~= v@.subrange(start as int, end as int));
        if t.len() > 0 {
            assert(t.last() == v@[end - 1]);
        }
    }
    (start, end)
}

pub fn trim_end_vec(v: &[char]) -> (r: Vec<char>)
    ensures
        r@ == trim_end(v@),
{
    let mut end: usize = v.len();
    while end > 0 && is_whitespace_exec(v[end - 1])
        invariant
            end <= v@.len(),
            forall|k: int| end <= k < v@.len() ==> is_whitespace(#[trigger] v@[k]),
        decreases end,
    {
        end = end - 1;
    }
    proof {
        lemma_trim_end_skip(v@, end as int);
        let t = v@.subrange(0, end as int);
        if t.len() > 0 {
            assert(t.last() == v@[end - 1]);
        }
    }
    slice_vec(v, 0, end)
}

pub fn trim_vec(v: &[char]) -> (r: Vec<char>)
    ensures
        r@ == trim(v@),
{
    let (s, e) = trim_bounds(v);
    slice_vec(v, s, e)
}

/// `v[from..to]` as a new vector.
pub fn slice_vec(v: &[char], from: usize, to: usize) -> (r: Vec<char>)
    requires
        from <= to <= v@.len(),
    ensures
        r@ == v@.subrange(from as int, to as int),
{
    let mut r: Vec<char> = Vec::new();
    let mut i: usize = from;
    while i < to
        invariant
            from <= i <= to <= v@.len(),
            r@ == v@.subrange(from as int, i as int),
        decreases to - i,
    {
        r.push(v[i]);
        i = i + 1;
        assert(r@ =~= v@.subrange(from as int, i as int));
    }
    r
}

pub fn str_trim(s: &str) -> (r: String)
    ensures
        r@ == trim(s@),
{
    let v = str_chars(s);
    let t = trim_vec(v.as_slice());
    string_from_chars(t.as_slice())
}

/// `str::trim().is_empty()`.
pub fn chars_is_blank(v: &[char]) -> (b: bool)
    ensures
        b == (trim(v@).len() == 0),
{
    let (s, e) = trim_bounds(v);
    s == e
}

pub fn str_is_blank(s: &str) -> (b: bool)
    ensures
        b == (trim(s@).len() == 0),
{
    let v = str_chars(s);
    chars_is_blank(v.as_slice())
}

// ---------------------------------------------------------------------------
// Joining and concatenation.
// ---------------------------------------------------------------------------

/// `[T]::join` with a separator.
pub open spec fn join(parts: Seq<Seq<char>>, sep: Seq<char>) -> Seq<char>
    decreases parts.len(),
{
    if parts.len() == 0 {
        Seq::empty()
    } else if parts.len() == 1 {
        parts[0]
    } else {
        join(parts.drop_last(), sep) + sep + parts.last()
    }
}

/// The views of a vector of character vectors.
pub open spec fn views(v: Seq<Vec<char>>) -> Seq<Seq<char>> {
    v.map_values(|x: Vec<char>| x@)
}

/// The views of a vector of strings.
pub open spec fn string_views(v: Seq<String>) -> Seq<Seq<char>> {
    v.map_values(|x: String| x@)
}

pub fn append_chars(dst: &mut Vec<char>, src: &[char])
    ensures
        final(dst)@ == old(dst)@ + src@,
{
    let mut i: usize = 0;
    let ghost start = dst@;
    while i < src.len()
        invariant
            i <= src@.len(),
            dst@ == start + src@.take(i as int),
        decreases src.len() - i,
    {
        dst.push(src[i]);
        i = i + 1;
        assert(dst@ =~= start + src@.take(i as int));
    }
    assert(src@.take(src@.len() as int) =~= src@);
}

pub fn append_str(dst: &mut Vec<char>, s: &str)
    ensures
        final(dst)@ == old(dst)@ + s@,
{
    let v = str_chars(s);
    append_chars(dst, v.as_slice());
}

pub fn join_vecs(parts: &Vec<Vec<char>>, sep: &[char]) -> (r: Vec<char>)
    ensures
        r@ == join(views(parts@), sep@),
{
    let mut r: Vec<char> = Vec::new();
    let mut i: usize = 0;
    while i < parts.len()
        invariant
            i <= parts@.len(),
            r@ == join(views(parts@).take(i as int), sep@),
        decreases parts.len() - i,
    {
        let ghost before = r@;
        if i > 0 {
            append_chars(&mut r, sep);
        }
        append_chars(&mut r, parts[i].as_slice());
        i = i + 1;
        proof {
            let t = views(parts@).take(i as int);
            assert(t.drop_last() =~= views(parts@).take(i - 1));
            assert(t.last() == parts@[i - 1]@);
            if i == 1 {
                assert(before == Seq::<char>::empty());
                assert(r@ =~= t[0]);
            }
        }
    }
    assert(views(parts@).take(parts@.len() as int) =~= views(parts@));
    r
}

pub fn join_strings(parts: &Vec<String>, sep: &str) -> (r: String)
    ensures
        r@ == join(string_views(parts@), sep@),
{
    let mut vs: Vec<Vec<char>> = Vec::new();
    let mut i: usize = 0;
    while i < parts.len()
        invariant
            i <= parts@.len(),
            vs@.len() == i,
            views(vs@) == string_views(parts@).take(i as int),
        decreases parts.len() - i,
    {
        let v = str_chars(parts[i].as_str());
        let ghost before = vs@;
        vs.push(v);
        i = i + 1;
        proof {
            assert forall|k: int| 0 <= k < i implies #[trigger] views(vs@)[k] == string_views(
                parts@,
            ).take(i as int)[k] by {
                if k < i - 1 {
                    assert(vs@[k] == before[k]);
                    assert(views(before)[k] == string_views(parts@).take(i - 1)[k]);
                }
            }
            assert(views(vs@) =~= string_views(parts@).take(i as int));
        }
    }
    assert(string_views(parts@).take(parts@.len() as int) =~= string_views(parts@));
    let sepv = str_chars(sep);
    let r = join_vecs(&vs, sepv.as_slice());
    string_from_chars(r.as_slice())
}

// ---------------------------------------------------------------------------
// Decimal rendering of unsigned integers.
// ---------------------------------------------------------------------------

pub open spec fn digit_char(d: nat) -> char {
    ((d % 10) + 48) as char
}

/// The decimal digits of `n`, as `u64::to_string` renders them.
pub open spec fn decimal(n: nat) -> Seq<char>
    decreases n,
{
    if n < 10 {
        seq![digit_char(n)]
    } else {
        decimal(n / 10).push(digit_char(n % 10))
    }
}

pub proof fn lemma_decimal_len(n: nat)
    ensures
        decimal(n).len() >= 1,
        forall|i: int| 0 <= i < decimal(n).len() ==> is_ascii_digit(#[trigger] decimal(n)[i]),
    decreases n,
{
    if n >= 10 {
        lemma_decimal_len(n / 10);
    }
}

fn digit_char_exec(d: u64) -> (c: char)
    requires
        d < 10,
    ensures
        c == digit_char(d as nat),
{
    char_from_u32((d as u32) + 48)
}

pub fn decimal_chars(n: u64) -> (r: Vec<char>)
    ensures
        r@ == decimal(n as nat),
    decreases n,
{
    if n < 10 {
        let mut r = Vec::new();
        r.push(digit_char_exec(n));
        assert(r@ =~= seq![digit_char(n as nat)]);
        r
    } else {
        let mut r = decimal_chars(n / 10);
        r.push(digit_char_exec(n % 10));
        r
    }
}

pub fn decimal_string(n: u64) -> (r: String)
    ensures
        r@ == decimal(n as nat),
{
    let v = decimal_chars(n);
    string_from_chars(v.as_slice())
}

// ---------------------------------------------------------------------------
// Prefixes by character count.
// ---------------------------------------------------------------------------

/// `s.chars().take(n).collect::<String>()`.
pub open spec fn take_chars(s: Seq<char>, n: nat) -> Seq<char> {
    if n <= s.len() {
        s.take(n as int)
    } else {
        s
    }
}

pub fn take_chars_vec(v: &[char], n: usize) -> (r: Vec<char>)
    ensures
        r@ == take_chars(v@, n as nat),
{
    if n <= v.len() {
        slice_vec(v, 0, n)
    } else {
        let r = slice_vec(v, 0, v.len());
        assert(v@.subrange(0, v@.len() as int) =~= v@);
        r
    }
}

/// Replaces every `from` character with the sequence `to` (`str::replace` with a char pattern).
pub open spec fn replace_char(s: Seq<char>, from: char, to: Seq<char>) -> Seq<char>
    decreases s.len(),
{
    if s.len() == 0 {
        Seq::empty()
    } else {
        replace_char(s.drop_last(), from, to) + (if s.last() == from {
            to
        } else {
            seq![s.last()]
        })
    }
}

pub fn replace_char_vec(v: &[char], from: char, to: &[char]) -> (r: Vec<char>)
    ensures
        r@ == replace_char(v@, from, to@),
{
    let mut r: Vec<char> = Vec::new();
    let mut i: usize = 0;
    while i < v.len()
        invariant
            i <= v@.len(),
            r@ == replace_char(v@.take(i as int), from, to@),
        decreases v.len() - i,
    {
        if v[i] == from {
            append_chars(&mut r, to);
        } else {
            r.push(v[i]);
        }
        i = i + 1;
        proof {
            let t = v@.take(i as int);
            assert(t.drop_last() =~= v@.take(i - 1));
            assert(t.last() == v@[i - 1]);
            if v@[i - 1] != from {
                assert(r@ =~= replace_char(t.drop_last(), from, to@) + seq![t.last()]);
            }
        }
    }
    assert(v@.take(v@.len() as int) =~= v@);
    r
}

} // verus!
