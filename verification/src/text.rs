//! Character-level text primitives shared by the rest of the library.
//!
//! Strings are modelled by their `Seq<char>` views; byte lengths are the
//! lengths of their UTF-8 encodings.

use vstd::prelude::*;
use vstd::utf8::encode_utf8;

verus! {

// ---------------------------------------------------------------------
// Specifications
// ---------------------------------------------------------------------

/// Number of bytes in the UTF-8 encoding of `s` (what `str::len` returns).
pub open spec fn utf8_len(s: Seq<char>) -> nat {
    encode_utf8(s).len()
}

/// What `str::len` returns for a string with these characters: the UTF-8
/// byte count, as a `usize`.
pub open spec fn byte_len(s: Seq<char>) -> usize {
    encode_utf8(s).len() as usize
}

/// Unicode `White_Space`, the property `char::is_whitespace` tests.
pub open spec fn is_whitespace(c: char) -> bool {
    ||| c == ' ' || c == '\t' || c == '\n' || c == '\r'
    ||| c == '\u{000B}' || c == '\u{000C}' || c == '\u{0085}' || c == '\u{00A0}'
    ||| c == '\u{1680}' || ('\u{2000}' <= c && c <= '\u{200A}')
    ||| c == '\u{2028}' || c == '\u{2029}' || c == '\u{202F}' || c == '\u{205F}'
    ||| c == '\u{3000}'
}

/// `s` without leading whitespace.
pub open spec fn trim_start(s: Seq<char>) -> Seq<char>
    decreases s.len(),
{
    if s.len() > 0 && is_whitespace(s[0]) {
        trim_start(s.drop_first())
    } else {
        s
    }
}

/// `s` without trailing whitespace.
pub open spec fn trim_end(s: Seq<char>) -> Seq<char>
    decreases s.len(),
{
    if s.len() > 0 && is_whitespace(s.last()) {
        trim_end(s.drop_last())
    } else {
        s
    }
}

/// `s` without leading and trailing whitespace (`str::trim`).
pub open spec fn trim(s: Seq<char>) -> Seq<char> {
    trim_end(trim_start(s))
}

/// The Unicode lower-case form of a string, as `str::to_lowercase` computes it.
pub uninterp spec fn lowercase(s: Seq<char>) -> Seq<char>;

/// `line` without one trailing carriage return.
pub open spec fn strip_cr(line: Seq<char>) -> Seq<char> {
    if line.len() > 0 && line.last() == '\r' {
        line.drop_last()
    } else {
        line
    }
}

/// Lines of `s` given that `cur` has been read since the last newline.
pub open spec fn lines_from(s: Seq<char>, cur: Seq<char>) -> Seq<Seq<char>>
    decreases s.len(),
{
    if s.len() == 0 {
        if cur.len() == 0 {
            seq![]
        } else {
            seq![cur]
        }
    } else if s[0] == '\n' {
        seq![strip_cr(cur)] + lines_from(s.drop_first(), seq![])
    } else {
        lines_from(s.drop_first(), cur.push(s[0]))
    }
}

/// The lines of `s` as `str::lines` yields them: split at `\n`, one `\r`
/// before each `\n` removed, no final empty line.
pub open spec fn lines(s: Seq<char>) -> Seq<Seq<char>> {
    lines_from(s, seq![])
}

/// Segments of `s` that each end with their `\n` (the last one possibly
/// without), given `cur` read since the last newline.
pub open spec fn segments_from(s: Seq<char>, cur: Seq<char>) -> Seq<Seq<char>>
    decreases s.len(),
{
    if s.len() == 0 {
        if cur.len() == 0 {
            seq![]
        } else {
            seq![cur]
        }
    } else if s[0] == '\n' {
        seq![cur.push('\n')] + segments_from(s.drop_first(), seq![])
    } else {
        segments_from(s.drop_first(), cur.push(s[0]))
    }
}

/// `str::split_inclusive('\n')`.
pub open spec fn line_segments(s: Seq<char>) -> Seq<Seq<char>> {
    segments_from(s, seq![])
}

/// Concatenation of all pieces.
pub open spec fn concat(pieces: Seq<Seq<char>>) -> Seq<char>
    decreases pieces.len(),
{
    if pieces.len() == 0 {
        seq![]
    } else {
        concat(pieces.drop_last()) + pieces.last()
    }
}

/// The pieces joined with `sep` between them (`[T]::join`).
pub open spec fn join(pieces: Seq<Seq<char>>, sep: Seq<char>) -> Seq<char>
    decreases pieces.len(),
{
    if pieces.len() == 0 {
        seq![]
    } else if pieces.len() == 1 {
        pieces[0]
    } else {
        join(pieces.drop_last(), sep) + sep + pieces.last()
    }
}

/// `p` occurs in `s` starting at index `i`.
pub open spec fn occurs_at(s: Seq<char>, p: Seq<char>, i: int) -> bool {
    0 <= i && i + p.len() <= s.len() && s.subrange(i, i + p.len()) == p
}

/// `p` is a substring of `s` (`str::contains`).
pub open spec fn contains(s: Seq<char>, p: Seq<char>) -> bool {
    exists|i: int| occurs_at(s, p, i)
}

/// Whitespace-separated words of `s` given the current word `cur`.
pub open spec fn words_from(s: Seq<char>, cur: Seq<char>) -> Seq<Seq<char>>
    decreases s.len(),
{
    if s.len() == 0 {
        if cur.len() == 0 {
            seq![]
        } else {
            seq![cur]
        }
    } else if is_whitespace(s[0]) {
        if cur.len() == 0 {
            words_from(s.drop_first(), seq![])
        } else {
            seq![cur] + words_from(s.drop_first(), seq![])
        }
    } else {
        words_from(s.drop_first(), cur.push(s[0]))
    }
}

/// `str::split_whitespace`.
pub open spec fn words(s: Seq<char>) -> Seq<Seq<char>> {
    words_from(s, seq![])
}

/// The decimal digit for `d < 10`.
pub open spec fn digit(d: nat) -> char {
    if d == 0 { '0' }
    else if d == 1 { '1' }
    else if d == 2 { '2' }
    else if d == 3 { '3' }
    else if d == 4 { '4' }
    else if d == 5 { '5' }
    else if d == 6 { '6' }
    else if d == 7 { '7' }
    else if d == 8 { '8' }
    else { '9' }
}

/// Decimal representation of `n` (what `Display` writes for an integer).
pub open spec fn decimal(n: nat) -> Seq<char>
    decreases n,
{
    if n < 10 {
        seq![digit(n)]
    } else {
        decimal(n / 10).push(digit(n % 10))
    }
}

/// Lower-case hexadecimal digit for `d < 16`.
pub open spec fn hex_digit(d: nat) -> char {
    if d < 10 {
        digit(d)
    } else if d == 10 { 'a' }
    else if d == 11 { 'b' }
    else if d == 12 { 'c' }
    else if d == 13 { 'd' }
    else if d == 14 { 'e' }
    else { 'f' }
}

/// Lower-case hexadecimal encoding, two digits per byte, high nibble first.
pub open spec fn hex(bytes: Seq<u8>) -> Seq<char>
    decreases bytes.len(),
{
    if bytes.len() == 0 {
        seq![]
    } else {
        hex(bytes.drop_last()) + seq![
            hex_digit((bytes.last() / 16) as nat),
            hex_digit((bytes.last() % 16) as nat),
        ]
    }
}

// ---------------------------------------------------------------------
// Trusted std calls without a vstd specification
// ---------------------------------------------------------------------

/// std `String::push`: the string afterwards is the old one followed by `c`.
#[verifier::external_body]
pub(crate) fn push_char(s: &mut String, c: char)
    ensures
        final(s)@ == old(s)@.push(c),
{
    s.push(c);
}

/// std `str::to_lowercase`: the result is named `lowercase` of the input.
#[verifier::external_body]
pub(crate) fn to_lowercase(s: &str) -> (r: String)
    ensures
        r@ == lowercase(s@),
{
    s.to_lowercase()
}

// ---------------------------------------------------------------------
// Lemmas
// ---------------------------------------------------------------------

pub proof fn lemma_segments_concat(s: Seq<char>, cur: Seq<char>)
    ensures
        concat(segments_from(s, cur)) == cur + s,
    decreases s.len(),
{
    if s.len() == 0 {
        if cur.len() == 0 {
        } else {
            lemma_concat_single(cur);
        }
        assert(cur + s =~= cur);
    } else if s[0] == '\n' {
        lemma_segments_concat(s.drop_first(), seq![]);
        lemma_concat_prepend(cur.push('\n'), segments_from(s.drop_first(), seq![]));
        assert(cur.push('\n') + (Seq::<char>::empty() + s.drop_first()) =~= cur + s);
    } else {
        lemma_segments_concat(s.drop_first(), cur.push(s[0]));
        assert(cur.push(s[0]) + s.drop_first() =~= cur + s);
    }
}

pub proof fn lemma_concat_prepend(x: Seq<char>, rest: Seq<Seq<char>>)
    ensures
        concat(seq![x] + rest) == x + concat(rest),
    decreases rest.len(),
{
    if rest.len() == 0 {
        assert(seq![x] + rest =~= seq![x]);
        lemma_concat_single(x);
        assert(x + concat(rest) =~= x);
    } else {
        lemma_concat_prepend(x, rest.drop_last());
        assert((seq![x] + rest).drop_last() =~= seq![x] + rest.drop_last());
        assert((seq![x] + rest).last() == rest.last());
        assert(x + concat(rest.drop_last()) + rest.last() =~= x + (concat(rest.drop_last()) + rest.last()));
    }
}

pub proof fn lemma_concat_single(x: Seq<char>)
    ensures
        concat(seq![x]) == x,
{
    assert(seq![x].drop_last() =~= Seq::<Seq<char>>::empty());
    assert(concat(Seq::<Seq<char>>::empty()) =~= Seq::<char>::empty());
    assert(Seq::<char>::empty() + x =~= x);
}

pub proof fn lemma_concat_push(pieces: Seq<Seq<char>>, x: Seq<char>)
    ensures
        concat(pieces.push(x)) == concat(pieces) + x,
{
    assert(pieces.push(x).drop_last() =~= pieces);
}

pub proof fn lemma_decimal_nonempty(n: nat)
    ensures
        decimal(n).len() >= 1,
    decreases n,
{
    if n >= 10 {
        lemma_decimal_nonempty(n / 10);
    }
}

pub proof fn lemma_hex_len(bytes: Seq<u8>)
    ensures
        hex(bytes).len() == 2 * bytes.len(),
    decreases bytes.len(),
{
    if bytes.len() > 0 {
        lemma_hex_len(bytes.drop_last());
    }
}

// ---------------------------------------------------------------------
// Executable primitives
// ---------------------------------------------------------------------

/// The characters of `s`, in order.
pub fn to_chars(s: &str) -> (v: Vec<char>)
    ensures
        v@ == s@,
{
    let mut v: Vec<char> = Vec::new();
    for c in it: s.chars()
        invariant
            v@ == it.seq().take(it.index() as int),
            it.seq() == s@,
    {
        v.push(c);
    }
    v
}

/// A `String` holding exactly the characters of `v`.
pub fn from_chars(v: &[char]) -> (s: String)
    ensures
        s@ == v@,
{
    let mut s = String::new();
    let mut i: usize = 0;
    while i < v.len()
        invariant
            i <= v@.len(),
            s@ == v@.take(i as int),
        decreases v@.len() - i,
    {
        push_char(&mut s, v[i]);
        assert(v@.take(i + 1) =~= v@.take(i as int).push(v@[i as int]));
        i += 1;
    }
    assert(v@.take(v@.len() as int) =~= v@);
    s
}

/// Appends all characters of `v` to `s`.
pub fn push_chars(s: &mut String, v: &[char])
    ensures
        final(s)@ == old(s)@ + v@,
{
    let mut i: usize = 0;
    while i < v.len()
        invariant
            i <= v@.len(),
            s@ == old(s)@ + v@.take(i as int),
        decreases v@.len() - i,
    {
        push_char(s, v[i]);
        assert(v@.take(i + 1) =~= v@.take(i as int).push(v@[i as int]));
        i += 1;
    }
    assert(v@.take(v@.len() as int) =~= v@);
}

/// Appends the characters of `t` to `s`.
pub fn push_str(s: &mut String, t: &str)
    ensures
        final(s)@ == old(s)@ + t@,
{
    let v = to_chars(t);
    push_chars(s, v.as_slice());
}

/// `char::is_whitespace`.
pub fn char_is_whitespace(c: char) -> (b: bool)
    ensures
        b == is_whitespace(c),
{
    c == ' ' || c == '\t' || c == '\n' || c == '\r' || c == '\u{000B}' || c == '\u{000C}'
        || c == '\u{0085}' || c == '\u{00A0}' || c == '\u{1680}' || ('\u{2000}' <= c && c
        <= '\u{200A}') || c == '\u{2028}' || c == '\u{2029}' || c == '\u{202F}' || c
        == '\u{205F}' || c == '\u{3000}'
}

proof fn lemma_trim_start_skip(s: Seq<char>, i: int)
    requires
        0 <= i <= s.len(),
        forall|k: int| 0 <= k < i ==> is_whitespace(#[trigger] s[k]),
    ensures
        trim_start(s) == trim_start(s.subrange(i, s.len() as int)),
    decreases i,
{
    if i > 0 {
        assert(s.drop_first().subrange(i - 1, s.drop_first().len() as int) =~= s.subrange(
            i,
            s.len() as int,
        ));
        lemma_trim_start_skip(s.drop_first(), i - 1);
    } else {
        assert(s.subrange(0, s.len() as int) =~= s);
    }
}

proof fn lemma_trim_end_cut(s: Seq<char>, j: int)
    requires
        0 <= j <= s.len(),
        forall|k: int| j <= k < s.len() ==> is_whitespace(#[trigger] s[k]),
    ensures
        trim_end(s) == trim_end(s.subrange(0, j)),
    decreases s.len() - j,
{
    if j < s.len() {
        assert(s.drop_last().subrange(0, j) =~= s.subrange(0, j));
        lemma_trim_end_cut(s.drop_last(), j);
    } else {
        assert(s.subrange(0, j) =~= s);
    }
}

/// Bounds `[a, b)` such that `v[a..b]` is `v` trimmed.
pub fn trim_bounds(v: &[char]) -> (r: (usize, usize))
    ensures
        r.0 <= r.1 <= v@.len(),
        v@.subrange(r.0 as int, r.1 as int) == trim(v@),
{
    let n = v.len();
    let mut a: usize = 0;
    while a < n && char_is_whitespace(v[a])
        invariant
            a <= n == v@.len(),
            forall|k: int| 0 <= k < a ==> is_whitespace(#[trigger] v@[k]),
        decreases n - a,
    {
        a += 1;
    }
    proof {
        lemma_trim_start_skip(v@, a as int);
    }
    let ghost t = v@.subrange(a as int, n as int);
    assert(trim_start(t) == t);
    let mut b: usize = n;
    while b > a && char_is_whitespace(v[b - 1])
        invariant
            a <= b <= n == v@.len(),
            forall|k: int| b <= k < n ==> is_whitespace(#[trigger] v@[k]),
        decreases b,
    {
        b -= 1;
    }
    proof {
        let tb = b - a;
        assert forall|k: int| tb <= k < t.len() implies is_whitespace(#[trigger] t[k]) by {
            assert(t[k] == v@[k + a]);
        }
        lemma_trim_end_cut(t, tb as int);
        assert(t.subrange(0, tb as int) =~= v@.subrange(a as int, b as int));
        if b > a {
            assert(!is_whitespace(v@[b - 1]));
        } else {
            assert(v@.subrange(a as int, b as int).len() == 0);
        }
    }
    (a, b)
}

/// `str::trim`, as an owned string.
pub fn trim_string(s: &str) -> (r: String)
    ensures
        r@ == trim(s@),
{
    let v = to_chars(s);
    let (a, b) = trim_bounds(v.as_slice());
    let t = slice_chars(&v, a, b);
    from_chars(t.as_slice())
}

/// `v[a..b]` as a fresh vector.
pub fn slice_chars(v: &Vec<char>, a: usize, b: usize) -> (r: Vec<char>)
    requires
        a <= b <= v@.len(),
    ensures
        r@ == v@.subrange(a as int, b as int),
{
    let mut r: Vec<char> = Vec::new();
    let mut i = a;
    while i < b
        invariant
            a <= i <= b <= v@.len(),
            r@ == v@.subrange(a as int, i as int),
        decreases b - i,
    {
        r.push(v[i]);
        assert(v@.subrange(a as int, i + 1) =~= v@.subrange(a as int, i as int).push(v@[i as int]));
        i += 1;
    }
    r
}

/// Whether `p` occurs in `s` at index `i` (executable check).
pub fn occurs_at_exec(s: &[char], p: &[char], i: usize) -> (b: bool)
    ensures
        b == occurs_at(s@, p@, i as int),
{
    if i > s.len() || p.len() > s.len() - i {
        return false;
    }
    let n = s.len();
    let mut k: usize = 0;
    while k < p.len()
        invariant
            n == s@.len(),
            i <= s@.len(),
            i + p@.len() <= s@.len(),
            k <= p@.len(),
            forall|m: int| 0 <= m < k ==> s@[i + m] == p@[m],
        decreases p@.len() - k,
    {
        if s[i + k] != p[k] {
            assert(s@.subrange(i as int, i + p@.len())[k as int] != p@[k as int]);
            return false;
        }
        k += 1;
    }
    assert(s@.subrange(i as int, i + p@.len()) =~= p@);
    true
}

/// `str::contains` on character vectors.
pub fn contains_chars(s: &[char], p: &[char]) -> (b: bool)
    ensures
        b == contains(s@, p@),
{
    if p.len() > s.len() {
        assert forall|i: int| !occurs_at(s@, p@, i) by {}
        return false;
    }
    if p.len() == 0 {
        assert(s@.subrange(0, 0) =~= p@);
        assert(occurs_at(s@, p@, 0));
        return true;
    }
    let n = s.len();
    let last = n - p.len();
    let mut i: usize = 0;
    while i <= last
        invariant
            n == s@.len(),
            p@.len() >= 1,
            last == s@.len() - p@.len(),
            i <= last + 1,
            forall|j: int| 0 <= j < i ==> !occurs_at(s@, p@, j),
        decreases last + 1 - i,
    {
        if occurs_at_exec(s, p, i) {
            return true;
        }
        i += 1;
    }
    assert forall|j: int| !occurs_at(s@, p@, j) by {
        if 0 <= j < i {
        }
    }
    false
}

/// `str::contains` on strings.
pub fn str_contains(s: &str, p: &str) -> (b: bool)
    ensures
        b == contains(s@, p@),
{
    let sv = to_chars(s);
    let pv = to_chars(p);
    contains_chars(sv.as_slice(), pv.as_slice())
}

/// Equality of two strings' characters.
pub fn str_eq(a: &str, b: &str) -> (r: bool)
    ensures
        r == (a@ == b@),
{
    let av = to_chars(a);
    let bv = to_chars(b);
    if av.len() != bv.len() {
        return false;
    }
    let mut i: usize = 0;
    while i < av.len()
        invariant
            av@ == a@,
            bv@ == b@,
            av@.len() == bv@.len(),
            i <= av@.len(),
            forall|k: int| 0 <= k < i ==> av@[k] == bv@[k],
        decreases av@.len() - i,
    {
        if av[i] != bv[i] {
            return false;
        }
        i += 1;
    }
    assert(av@ =~= bv@);
    true
}

/// The lines of `s` (`str::lines`), as character vectors.
pub fn split_lines(s: &[char]) -> (r: Vec<Vec<char>>)
    ensures
        r@.map_values(|l: Vec<char>| l@) == lines(s@),
{
    let mut out: Vec<Vec<char>> = Vec::new();
    let mut cur: Vec<char> = Vec::new();
    let mut i: usize = 0;
    assert(s@.skip(0) =~= s@);
    while i < s.len()
        invariant
            i <= s@.len(),
            lines(s@) == out@.map_values(|l: Vec<char>| l@) + lines_from(s@.skip(i as int), cur@),
        decreases s@.len() - i,
    {
        let ghost rest = s@.skip(i as int);
        assert(rest.drop_first() =~= s@.skip(i + 1));
        let c = s[i];
        if c == '\n' {
            let mut line = cur;
            let n = line.len();
            if n > 0 && line[n - 1] == '\r' {
                line.pop();
            }
            assert(line@ == strip_cr(cur@)) by {
                if n > 0 && cur@[n - 1] == '\r' {
                    assert(line@ =~= cur@.drop_last());
                }
            };
            let ghost old_out = out@.map_values(|l: Vec<char>| l@);
            out.push(line);
            assert(out@.map_values(|l: Vec<char>| l@) =~= old_out.push(strip_cr(cur@)));
            assert(old_out.push(strip_cr(cur@)) + lines_from(s@.skip(i + 1), seq![]) =~= old_out
                + (seq![strip_cr(cur@)] + lines_from(s@.skip(i + 1), seq![])));
            cur = Vec::new();
            assert(cur@ =~= Seq::<char>::empty());
        } else {
            cur.push(c);
        }
        i += 1;
    }
    assert(s@.skip(i as int).len() == 0);
    if cur.len() > 0 {
        let ghost old_out = out@.map_values(|l: Vec<char>| l@);
        let ghost c0 = cur@;
        out.push(cur);
        assert(out@.map_values(|l: Vec<char>| l@) =~= old_out + seq![c0]);
    } else {
        assert(out@.map_values(|l: Vec<char>| l@) =~= out@.map_values(|l: Vec<char>| l@) + Seq::<Seq<char>>::empty());
    }
    out
}

/// The whitespace-separated words of `s` (`str::split_whitespace`).
pub fn split_words(s: &[char]) -> (r: Vec<Vec<char>>)
    ensures
        r@.map_values(|l: Vec<char>| l@) == words(s@),
{
    let mut out: Vec<Vec<char>> = Vec::new();
    let mut cur: Vec<char> = Vec::new();
    let mut i: usize = 0;
    assert(s@.skip(0) =~= s@);
    while i < s.len()
        invariant
            i <= s@.len(),
            words(s@) == out@.map_values(|l: Vec<char>| l@) + words_from(s@.skip(i as int), cur@),
        decreases s@.len() - i,
    {
        let ghost rest = s@.skip(i as int);
        assert(rest.drop_first() =~= s@.skip(i + 1));
        let c = s[i];
        if char_is_whitespace(c) {
            if cur.len() > 0 {
                let ghost old_out = out@.map_values(|l: Vec<char>| l@);
                let ghost c0 = cur@;
                out.push(cur);
                assert(out@.map_values(|l: Vec<char>| l@) =~= old_out.push(c0));
                assert(old_out.push(c0) + words_from(s@.skip(i + 1), seq![]) =~= old_out + (seq![
                    c0,
                ] + words_from(s@.skip(i + 1), seq![])));
                cur = Vec::new();
            } else {
                cur = Vec::new();
            }
            assert(cur@ =~= Seq::<char>::empty());
        } else {
            cur.push(c);
        }
        i += 1;
    }
    assert(s@.skip(i as int).len() == 0);
    if cur.len() > 0 {
        let ghost old_out = out@.map_values(|l: Vec<char>| l@);
        let ghost c0 = cur@;
        out.push(cur);
        assert(out@.map_values(|l: Vec<char>| l@) =~= old_out + seq![c0]);
    } else {
        assert(out@.map_values(|l: Vec<char>| l@) =~= out@.map_values(|l: Vec<char>| l@) + Seq::<Seq<char>>::empty());
    }
    out
}

/// Lines of `s` joined with `\n` over the index range `[a, b)`.
pub fn join_lines(ls: &Vec<Vec<char>>, a: usize, b: usize) -> (r: String)
    requires
        a <= b <= ls@.len(),
    ensures
        r@ == join(ls@.map_values(|l: Vec<char>| l@).subrange(a as int, b as int), seq!['\n']),
{
    let ghost all = ls@.map_values(|l: Vec<char>| l@);
    let mut s = String::new();
    let mut i = a;
    while i < b
        invariant
            a <= i <= b <= ls@.len(),
            all == ls@.map_values(|l: Vec<char>| l@),
            s@ == join(all.subrange(a as int, i as int), seq!['\n']),
        decreases b - i,
    {
        let ghost prev = all.subrange(a as int, i as int);
        let ghost next = all.subrange(a as int, i + 1);
        assert(next.drop_last() =~= prev);
        assert(next.last() == ls@[i as int]@);
        if i > a {
            push_char(&mut s, '\n');
        } else {
            assert(next.len() == 1);
            assert(s@ =~= Seq::<char>::empty());
        }
        push_chars(&mut s, ls[i].as_slice());
        proof {
            if i > a {
                assert(s@ =~= join(prev, seq!['\n']) + seq!['\n'] + ls@[i as int]@);
            } else {
                assert(s@ =~= ls@[i as int]@);
            }
        }
        i += 1;
    }
    s
}

/// Decimal representation of `n`.
pub fn decimal_chars(n: usize) -> (r: Vec<char>)
    ensures
        r@ == decimal(n as nat),
    decreases n,
{
    let d = n % 10;
    let c = if d == 0 { '0' }
        else if d == 1 { '1' }
        else if d == 2 { '2' }
        else if d == 3 { '3' }
        else if d == 4 { '4' }
        else if d == 5 { '5' }
        else if d == 6 { '6' }
        else if d == 7 { '7' }
        else if d == 8 { '8' }
        else { '9' };
    if n < 10 {
        let mut v = Vec::new();
        v.push(c);
        assert(v@ =~= seq![digit(n as nat)]);
        v
    } else {
        let mut v = decimal_chars(n / 10);
        v.push(c);
        v
    }
}

/// Lower-case hexadecimal encoding of `bytes`.
pub fn hex_chars(bytes: &[u8]) -> (r: Vec<char>)
    ensures
        r@ == hex(bytes@),
{
    let mut r: Vec<char> = Vec::new();
    let mut i: usize = 0;
    while i < bytes.len()
        invariant
            i <= bytes@.len(),
            r@ == hex(bytes@.take(i as int)),
        decreases bytes@.len() - i,
    {
        let b = bytes[i];
        let hi = b / 16;
        let lo = b % 16;
        r.push(hex_char(hi));
        r.push(hex_char(lo));
        assert(bytes@.take(i + 1).drop_last() =~= bytes@.take(i as int));
        assert(r@ =~= hex(bytes@.take(i + 1)));
        i += 1;
    }
    assert(bytes@.take(bytes@.len() as int) =~= bytes@);
    r
}

pub fn hex_char(d: u8) -> (c: char)
    requires
        d < 16,
    ensures
        c == hex_digit(d as nat),
{
    if d == 0 { '0' }
    else if d == 1 { '1' }
    else if d == 2 { '2' }
    else if d == 3 { '3' }
    else if d == 4 { '4' }
    else if d == 5 { '5' }
    else if d == 6 { '6' }
    else if d == 7 { '7' }
    else if d == 8 { '8' }
    else if d == 9 { '9' }
    else if d == 10 { 'a' }
    else if d == 11 { 'b' }
    else if d == 12 { 'c' }
    else if d == 13 { 'd' }
    else if d == 14 { 'e' }
    else { 'f' }
}

} // verus!

verus! {

/// The newline-terminated segments of `s` (`str::split_inclusive('\n')`).
pub fn split_segments(s: &[char]) -> (r: Vec<Vec<char>>)
    ensures
        r@.map_values(|l: Vec<char>| l@) == line_segments(s@),
{
    let mut out: Vec<Vec<char>> = Vec::new();
    let mut cur: Vec<char> = Vec::new();
    let mut i: usize = 0;
    assert(s@.skip(0) =~= s@);
    while i < s.len()
        invariant
            i <= s@.len(),
            line_segments(s@) == out@.map_values(|l: Vec<char>| l@) + segments_from(s@.skip(i as int), cur@),
        decreases s@.len() - i,
    {
        let ghost rest = s@.skip(i as int);
        assert(rest.drop_first() =~= s@.skip(i + 1));
        let c = s[i];
        if c == '\n' {
            cur.push('\n');
            let ghost old_out = out@.map_values(|l: Vec<char>| l@);
            let ghost c0 = cur@;
            out.push(cur);
            assert(out@.map_values(|l: Vec<char>| l@) =~= old_out.push(c0));
            assert(old_out.push(c0) + segments_from(s@.skip(i + 1), seq![]) =~= old_out + (seq![c0]
                + segments_from(s@.skip(i + 1), seq![])));
            cur = Vec::new();
            assert(cur@ =~= Seq::<char>::empty());
        } else {
            cur.push(c);
        }
        i += 1;
    }
    assert(s@.skip(i as int).len() == 0);
    if cur.len() > 0 {
        let ghost old_out = out@.map_values(|l: Vec<char>| l@);
        let ghost c0 = cur@;
        out.push(cur);
        assert(out@.map_values(|l: Vec<char>| l@) =~= old_out + seq![c0]);
    } else {
        assert(out@.map_values(|l: Vec<char>| l@) =~= out@.map_values(|l: Vec<char>| l@) + Seq::<Seq<char>>::empty());
    }
    out
}

} // verus!

verus! {

/// `s` with every non-overlapping occurrence of `p` (taken left to right)
/// replaced by `t` (`str::replace` for a non-empty pattern).
pub open spec fn replace_all(s: Seq<char>, p: Seq<char>, t: Seq<char>) -> Seq<char>
    decreases s.len(),
{
    if s.len() == 0 || p.len() == 0 {
        s
    } else if p.len() <= s.len() && s.take(p.len() as int) == p {
        t + replace_all(s.skip(p.len() as int), p, t)
    } else {
        seq![s[0]] + replace_all(s.drop_first(), p, t)
    }
}

/// `str::replace(p, t)` for a non-empty pattern.
pub fn replace_str(s: &str, p: &str, t: &str) -> (r: String)
    requires
        p@.len() > 0,
    ensures
        r@ == replace_all(s@, p@, t@),
{
    let sv = to_chars(s);
    let pv = to_chars(p);
    let tv = to_chars(t);
    let n = sv.len();
    let m = pv.len();
    let mut out = String::new();
    let mut i: usize = 0;
    assert(sv@.skip(0) =~= sv@);
    while i < n
        invariant
            n == sv@.len(),
            m == pv@.len() > 0,
            sv@ == s@,
            pv@ == p@,
            tv@ == t@,
            i <= n,
            replace_all(s@, p@, t@) == out@ + replace_all(sv@.skip(i as int), p@, t@),
        decreases n - i,
    {
        let ghost rest = sv@.skip(i as int);
        if m <= n - i && occurs_at_exec(sv.as_slice(), pv.as_slice(), i) {
            assert(rest.take(m as int) =~= sv@.subrange(i as int, i + m));
            assert(rest.skip(m as int) =~= sv@.skip(i + m));
            push_chars(&mut out, tv.as_slice());
            i = i + m;
        } else {
            proof {
                if m <= n - i {
                    assert(rest.take(m as int) =~= sv@.subrange(i as int, i + m));
                }
            }
            assert(rest.drop_first() =~= sv@.skip(i + 1));
            push_char(&mut out, sv[i]);
            assert(rest[0] == sv@[i as int]);
            i = i + 1;
        }
    }
    assert(sv@.skip(i as int).len() == 0);
    out
}

/// The first `max_chars` characters of `s` (all of it when shorter).
pub open spec fn truncated(s: Seq<char>, max_chars: usize) -> Seq<char> {
    if max_chars == 0 {
        Seq::empty()
    } else if s.len() <= max_chars {
        s
    } else {
        s.take(max_chars as int)
    }
}

/// Cuts a string to at most `max_chars` characters.
pub fn truncate_to_chars(input: &str, max_chars: usize) -> (r: String)
    ensures
        r@ == truncated(input@, max_chars),
{
    if max_chars == 0 {
        return String::new();
    }
    let cv = to_chars(input);
    if cv.len() <= max_chars {
        return String::from_str(input);
    }
    let mut out = String::new();
    let mut i: usize = 0;
    while i < max_chars
        invariant
            i <= max_chars < cv@.len(),
            out@ == cv@.take(i as int),
        decreases max_chars - i,
    {
        push_char(&mut out, cv[i]);
        assert(cv@.take(i + 1) =~= cv@.take(i as int).push(cv@[i as int]));
        i += 1;
    }
    out
}

} // verus!
