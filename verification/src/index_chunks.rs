//! Splitting file text into index documents, and telling text from binary.
//!
//! A file is indexed as one or more documents made of whole lines; a new
//! document starts when adding the next line would make the current one
//! longer than the byte budget. Each document records the line it starts at.

use vstd::prelude::*;
use vstd::utf8::{decode_utf8, encode_scalar, encode_utf8, valid_utf8};
use crate::hashing::{blake3_hex, hash_hex};
use crate::text::{byte_len, concat, utf8_len, lemma_concat_push, lemma_segments_concat, line_segments, push_chars, split_segments, to_chars};

verus! {

/// Largest index document, in bytes, that a file is split into.
pub const MAX_DOC_BYTES: usize = 1_048_576;

/// One index document: whole lines of a file starting at `start_line`.
#[derive(Debug, Clone)]
pub struct DocChunk {
    /// 1-based line the document starts at.
    pub start_line: u64,
    /// The document text (whole lines, newlines included).
    pub content: String,
}

impl View for DocChunk {
    type V = (u64, Seq<char>);

    open spec fn view(&self) -> (u64, Seq<char>) {
        (self.start_line, self.content@)
    }
}

/// Whether appending `seg` to `cur` goes over the byte budget (and `cur` is
/// not empty), so that `seg` starts a new document.
pub open spec fn starts_new_doc(cur: Seq<char>, seg: Seq<char>, max: usize) -> bool {
    byte_len(cur) + byte_len(seg) > max && cur.len() > 0
}

/// State after the first `n` segments: finished documents, the current
/// document text and the line it starts at.
pub open spec fn fold_docs(segs: Seq<Seq<char>>, n: int, max: usize) -> (Seq<(u64, Seq<char>)>, Seq<char>, int)
    decreases n,
{
    if n <= 0 {
        (seq![], seq![], 1)
    } else {
        let (done, cur, st) = fold_docs(segs, n - 1, max);
        let seg = segs[n - 1];
        if starts_new_doc(cur, seg, max) {
            (done.push((st as u64, cur)), seg, n)
        } else {
            (done, cur + seg, st)
        }
    }
}

/// The documents `build_chunks` makes of `text` with budget `max`.
pub open spec fn doc_chunks(text: Seq<char>, max: usize) -> Seq<(u64, Seq<char>)> {
    let segs = line_segments(text);
    let (done, cur, st) = fold_docs(segs, segs.len() as int, max);
    if cur.len() > 0 {
        done.push((st as u64, cur))
    } else {
        done
    }
}

/// Texts of the documents.
pub open spec fn doc_texts(docs: Seq<(u64, Seq<char>)>) -> Seq<Seq<char>> {
    docs.map_values(|d: (u64, Seq<char>)| d.1)
}

/// Splits `text` into documents of whole lines within `max_doc_bytes`.
pub fn build_chunks(text: &str, max_doc_bytes: usize) -> (r: Vec<DocChunk>)
    ensures
        r@.map_values(|d: DocChunk| d@) == doc_chunks(text@, max_doc_bytes),
{
    let chars = to_chars(text);
    let segs = split_segments(chars.as_slice());
    let ghost sv = segs@.map_values(|l: Vec<char>| l@);
    let mut chunks: Vec<DocChunk> = Vec::new();
    let mut current = String::new();
    let mut chunk_start_line: u64 = 1;
    let mut i: usize = 0;
    let nchars = chars.len();
    assert(chars@.len() <= usize::MAX);
    proof {
        lemma_segment_count(text@);
    }
    while i < segs.len()
        invariant
            i <= segs@.len(),
            sv == segs@.map_values(|l: Vec<char>| l@),
            sv == line_segments(text@),
            sv.len() <= text@.len() <= usize::MAX,
            1 <= chunk_start_line <= i + 1,
            fold_docs(sv, i as int, max_doc_bytes) == (chunks@.map_values(|d: DocChunk| d@), current@, chunk_start_line as int),
        decreases segs@.len() - i,
    {
        let seg = &segs[i];
        let seg_str = crate::text::from_chars(seg.as_slice());
        let cur_len = current.as_str().len();
        let seg_len = seg_str.as_str().len();
        let over = cur_len > max_doc_bytes || seg_len > max_doc_bytes - cur_len;
        let ghost prev = chunks@.map_values(|d: DocChunk| d@);
        if over && !current.as_str().is_empty() {
            let content = current;
            let ghost cv = (chunk_start_line, content@);
            chunks.push(DocChunk { start_line: chunk_start_line, content });
            assert(chunks@.map_values(|d: DocChunk| d@) =~= prev.push(cv));
            current = seg_str;
            chunk_start_line = (i + 1) as u64;
        } else {
            push_chars(&mut current, seg.as_slice());
        }
        i += 1;
    }
    if !current.as_str().is_empty() {
        let ghost prev = chunks@.map_values(|d: DocChunk| d@);
        let ghost cv = (chunk_start_line, current@);
        chunks.push(DocChunk { start_line: chunk_start_line, content: current });
        assert(chunks@.map_values(|d: DocChunk| d@) =~= prev.push(cv));
    }
    chunks
}

proof fn lemma_segment_count_from(s: Seq<char>, cur: Seq<char>)
    ensures
        segments_count_bound(s, cur),
    decreases s.len(),
{
    if s.len() > 0 {
        if s[0] == '\n' {
            lemma_segment_count_from(s.drop_first(), seq![]);
        } else {
            lemma_segment_count_from(s.drop_first(), cur.push(s[0]));
        }
    }
}

spec fn segments_count_bound(s: Seq<char>, cur: Seq<char>) -> bool {
    crate::text::segments_from(s, cur).len() <= s.len() + (if cur.len() > 0 { 1int } else { 0int })
}

proof fn lemma_segment_count(s: Seq<char>)
    ensures
        line_segments(s).len() <= s.len(),
{
    lemma_segment_count_from(s, seq![]);
}

/// All documents concatenated.
pub fn join_chunks(chunks: &[DocChunk]) -> (r: String)
    ensures
        r@ == concat(chunks@.map_values(|d: DocChunk| d.content@)),
{
    let ghost texts = chunks@.map_values(|d: DocChunk| d.content@);
    let mut text = String::new();
    let mut i: usize = 0;
    while i < chunks.len()
        invariant
            i <= chunks@.len(),
            texts == chunks@.map_values(|d: DocChunk| d.content@),
            text@ == concat(texts.take(i as int)),
        decreases chunks@.len() - i,
    {
        let c = to_chars(chunks[i].content.as_str());
        push_chars(&mut text, c.as_slice());
        assert(texts.take(i + 1) =~= texts.take(i as int).push(texts[i as int]));
        proof {
            lemma_concat_push(texts.take(i as int), texts[i as int]);
        }
        i += 1;
    }
    assert(texts.take(chunks@.len() as int) =~= texts);
    text
}

proof fn lemma_fold_concat(segs: Seq<Seq<char>>, n: int, max: usize)
    requires
        0 <= n <= segs.len(),
    ensures
        ({
            let (done, cur, st) = fold_docs(segs, n, max);
            concat(doc_texts(done)) + cur == concat(segs.take(n))
        }),
    decreases n,
{
    if n == 0 {
        let (done, cur, st) = fold_docs(segs, n, max);
        assert(doc_texts(done) =~= Seq::<Seq<char>>::empty());
        assert(segs.take(0) =~= Seq::<Seq<char>>::empty());
        assert(concat(doc_texts(done)) + cur =~= Seq::<char>::empty());
    } else {
        lemma_fold_concat(segs, n - 1, max);
        let (done0, cur0, st0) = fold_docs(segs, n - 1, max);
        let seg = segs[n - 1];
        assert(segs.take(n) =~= segs.take(n - 1).push(seg));
        lemma_concat_push(segs.take(n - 1), seg);
        if starts_new_doc(cur0, seg, max) {
            let done = done0.push((st0 as u64, cur0));
            assert(doc_texts(done) =~= doc_texts(done0).push(cur0));
            lemma_concat_push(doc_texts(done0), cur0);
            assert(concat(doc_texts(done0)) + cur0 + seg =~= concat(doc_texts(done0)) + (cur0 + seg));
        } else {
            assert(concat(doc_texts(done0)) + (cur0 + seg) =~= concat(doc_texts(done0)) + cur0 + seg);
        }
    }
}

/// Concatenating the documents of `text` gives back `text`: no byte is lost
/// or duplicated by splitting a file into index documents.
pub proof fn law_doc_chunks_concat(text: Seq<char>, max: usize)
    ensures
        concat(doc_texts(doc_chunks(text, max))) == text,
{
    let segs = line_segments(text);
    lemma_fold_concat(segs, segs.len() as int, max);
    lemma_segments_concat(text, seq![]);
    assert(segs.take(segs.len() as int) =~= segs);
    assert(Seq::<char>::empty() + text =~= text);
    let (done, cur, st) = fold_docs(segs, segs.len() as int, max);
    if cur.len() > 0 {
        assert(doc_texts(done.push((st as u64, cur))) =~= doc_texts(done).push(cur));
        lemma_concat_push(doc_texts(done), cur);
    } else {
        assert(concat(doc_texts(done)) + cur =~= concat(doc_texts(done)));
    }
}

/// Number of newlines in `s`.
pub open spec fn newlines(s: Seq<char>) -> nat
    decreases s.len(),
{
    if s.len() == 0 {
        0
    } else {
        newlines(s.drop_last()) + if s.last() == '\n' { 1nat } else { 0nat }
    }
}

proof fn lemma_newlines_add(a: Seq<char>, b: Seq<char>)
    ensures
        newlines(a + b) == newlines(a) + newlines(b),
    decreases b.len(),
{
    if b.len() == 0 {
        assert(a + b =~= a);
    } else {
        assert((a + b).drop_last() =~= a + b.drop_last());
        lemma_newlines_add(a, b.drop_last());
    }
}

proof fn lemma_utf8_add(a: Seq<char>, b: Seq<char>)
    ensures
        encode_utf8(a + b) == encode_utf8(a) + encode_utf8(b),
    decreases a.len(),
{
    if a.len() == 0 {
        assert(a + b =~= b);
        assert(encode_utf8(a) =~= Seq::<u8>::empty());
        assert(encode_utf8(a) + encode_utf8(b) =~= encode_utf8(b));
    } else {
        assert((a + b)[0] == a[0]);
        assert((a + b).drop_first() =~= a.drop_first() + b);
        lemma_utf8_add(a.drop_first(), b);
        assert(encode_scalar(a[0] as u32) + (encode_utf8(a.drop_first()) + encode_utf8(b))
            =~= encode_scalar(a[0] as u32) + encode_utf8(a.drop_first()) + encode_utf8(b));
    }
}

/// A non-empty piece of text with no newline before its last character.
pub open spec fn one_line(s: Seq<char>) -> bool {
    s.len() > 0 && forall|i: int| 0 <= i < s.len() - 1 ==> s[i] != '\n'
}

/// Every segment is one line, and every segment but the last ends with a
/// newline.
pub open spec fn segments_shaped(segs: Seq<Seq<char>>) -> bool {
    forall|k: int| 0 <= k < segs.len() ==> {
        &&& one_line(#[trigger] segs[k])
        &&& (k < segs.len() - 1 ==> segs[k].last() == '\n')
    }
}

proof fn lemma_no_newlines(s: Seq<char>)
    requires
        forall|i: int| 0 <= i < s.len() ==> s[i] != '\n',
    ensures
        newlines(s) == 0,
    decreases s.len(),
{
    if s.len() > 0 {
        lemma_no_newlines(s.drop_last());
    }
}

proof fn lemma_line_newline(s: Seq<char>)
    requires
        one_line(s),
        s.last() == '\n',
    ensures
        newlines(s) == 1,
{
    lemma_no_newlines(s.drop_last());
}

proof fn lemma_segments_from_shaped(s: Seq<char>, cur: Seq<char>)
    requires
        forall|i: int| 0 <= i < cur.len() ==> cur[i] != '\n',
    ensures
        segments_shaped(crate::text::segments_from(s, cur)),
    decreases s.len(),
{
    let segs = crate::text::segments_from(s, cur);
    if s.len() == 0 {
    } else if s[0] == '\n' {
        let first = cur.push('\n');
        let rest = crate::text::segments_from(s.drop_first(), seq![]);
        lemma_segments_from_shaped(s.drop_first(), seq![]);
        assert forall|k: int| 0 <= k < segs.len() implies {
            &&& one_line(#[trigger] segs[k])
            &&& (k < segs.len() - 1 ==> segs[k].last() == '\n')
        } by {
            if k > 0 {
                assert(segs[k] == rest[k - 1]);
            } else {
                assert(segs[0] == first);
            }
        }
    } else {
        let next = cur.push(s[0]);
        assert forall|i: int| 0 <= i < next.len() implies next[i] != '\n' by {
            if i < cur.len() {
                assert(next[i] == cur[i]);
            }
        }
        lemma_segments_from_shaped(s.drop_first(), next);
    }
}

/// Where document `k` of `done` ends (the segment after its last, 1-based),
/// given the line `st` the current document starts at.
pub open spec fn doc_end(done: Seq<(u64, Seq<char>)>, st: int, k: int) -> int {
    if k + 1 < done.len() {
        done[k + 1].0 as int
    } else {
        st
    }
}

/// What holds of the state after `n` segments.
pub open spec fn fold_shaped(segs: Seq<Seq<char>>, n: int, max: usize, done: Seq<(u64, Seq<char>)>, cur: Seq<char>, st: int) -> bool {
    &&& 1 <= st <= n + 1
    &&& cur == concat(segs.subrange(st - 1, n))
    &&& (cur.len() > 0 <==> st - 1 < n)
    &&& (done.len() == 0 ==> st == 1)
    &&& (done.len() > 0 ==> done[0].0 == 1)
    &&& (n - (st - 1) >= 2 ==> utf8_len(cur) <= max)
    &&& forall|k: int| 0 <= k < done.len() ==> {
        &&& 1 <= (#[trigger] done[k]).0 < doc_end(done, st, k) <= st
        &&& done[k].1 == concat(segs.subrange(done[k].0 - 1, doc_end(done, st, k) - 1))
        &&& done[k].1.len() > 0
        &&& (utf8_len(done[k].1) > max ==> doc_end(done, st, k) - done[k].0 == 1)
    }
}

proof fn lemma_concat_extend(segs: Seq<Seq<char>>, a: int, n: int)
    requires
        0 <= a <= n < segs.len(),
    ensures
        concat(segs.subrange(a, n + 1)) == concat(segs.subrange(a, n)) + segs[n],
{
    assert(segs.subrange(a, n + 1) =~= segs.subrange(a, n).push(segs[n]));
    lemma_concat_push(segs.subrange(a, n), segs[n]);
}

proof fn lemma_concat_append(x: Seq<Seq<char>>, y: Seq<Seq<char>>)
    ensures
        concat(x + y) == concat(x) + concat(y),
    decreases y.len(),
{
    if y.len() == 0 {
        assert(x + y =~= x);
        assert(concat(x) + concat(y) =~= concat(x));
    } else {
        assert((x + y).drop_last() =~= x + y.drop_last());
        assert((x + y).last() == y.last());
        lemma_concat_append(x, y.drop_last());
        assert(concat(x) + concat(y.drop_last()) + y.last() =~= concat(x) + (concat(y.drop_last()) + y.last()));
    }
}

proof fn lemma_concat_sub_bound(segs: Seq<Seq<char>>, a: int, b: int)
    requires
        0 <= a <= b <= segs.len(),
    ensures
        utf8_len(concat(segs.subrange(a, b))) <= utf8_len(concat(segs)),
{
    let mid = segs.subrange(a, b);
    assert(segs =~= segs.take(a) + (mid + segs.skip(b)));
    lemma_concat_append(segs.take(a), mid + segs.skip(b));
    lemma_concat_append(mid, segs.skip(b));
    lemma_utf8_add(concat(segs.take(a)), concat(mid) + concat(segs.skip(b)));
    lemma_utf8_add(concat(mid), concat(segs.skip(b)));
}

#[verifier::rlimit(40)]
proof fn lemma_fold_shape(segs: Seq<Seq<char>>, n: int, max: usize)
    requires
        0 <= n <= segs.len(),
        segs.len() <= usize::MAX,
        forall|k: int| 0 <= k < segs.len() ==> (#[trigger] segs[k]).len() > 0,
        utf8_len(concat(segs)) <= usize::MAX,
    ensures
        ({
            let (done, cur, st) = fold_docs(segs, n, max);
            fold_shaped(segs, n, max, done, cur, st)
        }),
    decreases n,
{
    if n == 0 {
        assert(segs.subrange(0, 0) =~= Seq::<Seq<char>>::empty());
        assert(concat(Seq::<Seq<char>>::empty()) =~= Seq::<char>::empty());
    } else {
        lemma_fold_shape(segs, n - 1, max);
        let (done0, cur0, st0) = fold_docs(segs, n - 1, max);
        let seg = segs[n - 1];
        let (done, cur, st) = fold_docs(segs, n, max);
        assert(segs.subrange(n - 1, n) =~= seq![seg]);
        crate::text::lemma_concat_single(seg);
        if starts_new_doc(cur0, seg, max) {
            assert(done == done0.push((st0 as u64, cur0)));
            assert(cur == seg && st == n);
            assert forall|k: int| 0 <= k < done.len() implies {
                &&& 1 <= (#[trigger] done[k]).0 < doc_end(done, st, k) <= st
                &&& done[k].1 == concat(segs.subrange(done[k].0 - 1, doc_end(done, st, k) - 1))
                &&& done[k].1.len() > 0
                &&& (utf8_len(done[k].1) > max ==> doc_end(done, st, k) - done[k].0 == 1)
            } by {
                if k < done0.len() {
                    assert(done[k] == done0[k]);
                    if k + 1 < done0.len() {
                        assert(doc_end(done, st, k) == doc_end(done0, st0, k));
                    } else {
                        assert(done[k + 1] == (st0 as u64, cur0));
                        assert(doc_end(done, st, k) == st0);
                        assert(doc_end(done0, st0, k) == st0);
                    }
                } else {
                    assert(done[k] == (st0 as u64, cur0));
                    assert(doc_end(done, st, k) == st);
                }
            }
        } else {
            assert(done == done0 && st == st0);
            assert(cur == cur0 + seg);
            lemma_concat_extend(segs, st0 - 1, n - 1);
            if cur0.len() > 0 {
                lemma_utf8_add(cur0, seg);
                lemma_concat_sub_bound(segs, st0 - 1, n - 1);
                lemma_concat_sub_bound(segs, n - 1, n);
                assert(byte_len(cur0) == utf8_len(cur0));
                assert(byte_len(seg) == utf8_len(seg));
                assert(utf8_len(cur) <= max);
            }
            assert forall|k: int| 0 <= k < done.len() implies {
                &&& 1 <= (#[trigger] done[k]).0 < doc_end(done, st, k) <= st
                &&& done[k].1 == concat(segs.subrange(done[k].0 - 1, doc_end(done, st, k) - 1))
                &&& done[k].1.len() > 0
                &&& (utf8_len(done[k].1) > max ==> doc_end(done, st, k) - done[k].0 == 1)
            } by {
                assert(doc_end(done, st, k) == doc_end(done0, st0, k));
            }
        }
    }
}

/// Where document `k` of `docs` ends (the segment after its last, 1-based)
/// when there are `n` segments in all.
pub open spec fn final_end(docs: Seq<(u64, Seq<char>)>, n: int, k: int) -> int {
    if k + 1 < docs.len() {
        docs[k + 1].0 as int
    } else {
        n + 1
    }
}

/// The documents cover the segments in order: each is the run of segments
/// from its start line up to the next document's, and one over budget is a
/// single segment.
pub open spec fn docs_cover(segs: Seq<Seq<char>>, docs: Seq<(u64, Seq<char>)>, max: usize) -> bool {
    let n = segs.len() as int;
    &&& (docs.len() == 0 ==> n == 0)
    &&& (docs.len() > 0 ==> docs[0].0 == 1)
    &&& forall|k: int| 0 <= k < docs.len() ==> {
        &&& 1 <= (#[trigger] docs[k]).0 < final_end(docs, n, k) <= n + 1
        &&& docs[k].1 == concat(segs.subrange(docs[k].0 - 1, final_end(docs, n, k) - 1))
        &&& docs[k].1.len() > 0
        &&& (utf8_len(docs[k].1) > max ==> final_end(docs, n, k) - docs[k].0 == 1)
    }
}

proof fn lemma_len_le_utf8(s: Seq<char>)
    ensures
        s.len() <= utf8_len(s),
    decreases s.len(),
{
    if s.len() > 0 {
        lemma_len_le_utf8(s.drop_first());
    }
}

proof fn lemma_doc_chunks_cover(text: Seq<char>, max: usize)
    requires
        utf8_len(text) <= usize::MAX,
    ensures
        segments_shaped(line_segments(text)),
        concat(line_segments(text)) == text,
        docs_cover(line_segments(text), doc_chunks(text, max), max),
{
    let segs = line_segments(text);
    let n = segs.len() as int;
    lemma_segments_from_shaped(text, seq![]);
    crate::text::lemma_segments_concat(text, seq![]);
    assert(Seq::<char>::empty() + text =~= text);
    lemma_segment_count(text);
    lemma_len_le_utf8(text);
    lemma_fold_shape(segs, n, max);
    let (done, cur, st) = fold_docs(segs, n, max);
    let docs = doc_chunks(text, max);
    if cur.len() > 0 {
        assert(docs == done.push((st as u64, cur)));
        assert forall|k: int| 0 <= k < docs.len() implies {
            &&& 1 <= (#[trigger] docs[k]).0 < final_end(docs, n, k) <= n + 1
            &&& docs[k].1 == concat(segs.subrange(docs[k].0 - 1, final_end(docs, n, k) - 1))
            &&& docs[k].1.len() > 0
            &&& (utf8_len(docs[k].1) > max ==> final_end(docs, n, k) - docs[k].0 == 1)
        } by {
            if k < done.len() {
                assert(docs[k] == done[k]);
                if k + 1 < done.len() {
                    assert(final_end(docs, n, k) == doc_end(done, st, k));
                } else {
                    assert(docs[k + 1] == (st as u64, cur));
                    assert(final_end(docs, n, k) == st);
                }
            } else {
                assert(docs[k] == (st as u64, cur));
                assert(final_end(docs, n, k) == n + 1);
            }
        }
    } else {
        assert(docs == done);
        assert forall|k: int| 0 <= k < docs.len() implies {
            &&& 1 <= (#[trigger] docs[k]).0 < final_end(docs, n, k) <= n + 1
            &&& docs[k].1 == concat(segs.subrange(docs[k].0 - 1, final_end(docs, n, k) - 1))
            &&& docs[k].1.len() > 0
            &&& (utf8_len(docs[k].1) > max ==> final_end(docs, n, k) - docs[k].0 == 1)
        } by {
            assert(final_end(docs, n, k) == doc_end(done, st, k));
        }
    }
}

proof fn lemma_docs_prefix(segs: Seq<Seq<char>>, docs: Seq<(u64, Seq<char>)>, max: usize, k: int)
    requires
        docs_cover(segs, docs, max),
        0 <= k < docs.len(),
    ensures
        concat(doc_texts(docs).take(k + 1)) == concat(segs.take(final_end(docs, segs.len() as int, k) - 1)),
    decreases k,
{
    let n = segs.len() as int;
    let texts = doc_texts(docs);
    let e = final_end(docs, n, k);
    assert(docs[k].0 < e <= n + 1);
    if k == 0 {
        assert(texts.take(1) =~= seq![docs[0].1]);
        crate::text::lemma_concat_single(docs[0].1);
        assert(segs.subrange(0, e - 1) =~= segs.take(e - 1));
    } else {
        lemma_docs_prefix(segs, docs, max, k - 1);
        assert(docs[k - 1].0 < final_end(docs, n, k - 1));
        let s = docs[k].0 as int;
        assert(final_end(docs, n, k - 1) == s);
        assert(texts.take(k + 1) =~= texts.take(k).push(docs[k].1));
        lemma_concat_push(texts.take(k), docs[k].1);
        assert(segs.take(e - 1) =~= segs.take(s - 1) + segs.subrange(s - 1, e - 1));
        lemma_concat_append(segs.take(s - 1), segs.subrange(s - 1, e - 1));
    }
}

proof fn lemma_lines_newlines(segs: Seq<Seq<char>>, m: int)
    requires
        segments_shaped(segs),
        0 <= m < segs.len(),
    ensures
        newlines(concat(segs.take(m))) == m,
    decreases m,
{
    if m == 0 {
        assert(segs.take(0) =~= Seq::<Seq<char>>::empty());
    } else {
        lemma_lines_newlines(segs, m - 1);
        assert(segs.take(m) =~= segs.take(m - 1).push(segs[m - 1]));
        lemma_concat_push(segs.take(m - 1), segs[m - 1]);
        lemma_newlines_add(concat(segs.take(m - 1)), segs[m - 1]);
        lemma_line_newline(segs[m - 1]);
    }
}

/// How a file is split into documents: no document is empty; the first
/// starts at line 1 unless the file is empty; each later one starts on the
/// line after the newlines of all documents before it; and a document over
/// the byte budget is a single line.
pub proof fn law_doc_chunks_shape(text: Seq<char>, max: usize)
    requires
        utf8_len(text) <= usize::MAX,
    ensures
        forall|k: int| 0 <= k < doc_chunks(text, max).len() ==> (#[trigger] doc_chunks(text, max)[k]).1.len() > 0,
        text.len() > 0 ==> doc_chunks(text, max).len() > 0 && doc_chunks(text, max)[0].0 == 1,
        forall|k: int| 0 <= k < doc_chunks(text, max).len() - 1 ==>
            (#[trigger] doc_chunks(text, max)[k + 1]).0 == 1 + newlines(concat(doc_texts(doc_chunks(text, max)).take(k + 1))),
        forall|k: int| 0 <= k < doc_chunks(text, max).len() && utf8_len((#[trigger] doc_chunks(text, max)[k]).1) > max ==>
            one_line(doc_chunks(text, max)[k].1),
{
    let segs = line_segments(text);
    let n = segs.len() as int;
    let docs = doc_chunks(text, max);
    lemma_doc_chunks_cover(text, max);
    if text.len() > 0 && n == 0 {
        assert(concat(segs) =~= Seq::<char>::empty());
    }
    assert forall|k: int| 0 <= k < docs.len() - 1 implies
        (#[trigger] docs[k + 1]).0 == 1 + newlines(concat(doc_texts(docs).take(k + 1))) by {
        lemma_docs_prefix(segs, docs, max, k);
        assert(docs[k + 1].0 < final_end(docs, n, k + 1));
        lemma_lines_newlines(segs, docs[k + 1].0 - 1);
    }
    assert forall|k: int| 0 <= k < docs.len() && utf8_len((#[trigger] docs[k]).1) > max implies
        one_line(docs[k].1) by {
        let i = docs[k].0 - 1;
        assert(segs.subrange(i, i + 1) =~= seq![segs[i]]);
        crate::text::lemma_concat_single(segs[i]);
    }
}

/// `std::str::from_utf8`: succeeds exactly on valid UTF-8 and then decodes it.
#[verifier::external_body]
fn utf8_to_string(bytes: &[u8]) -> (r: Option<String>)
    ensures
        r is Some <==> valid_utf8(bytes@),
        r matches Some(s) ==> s@ == decode_utf8(bytes@),
{
    std::str::from_utf8(bytes).ok().map(|s| s.to_string())
}

/// Whether some byte is zero.
pub fn has_nul_byte(bytes: &[u8]) -> (b: bool)
    ensures
        b == bytes@.contains(0u8),
{
    let mut i: usize = 0;
    while i < bytes.len()
        invariant
            i <= bytes@.len(),
            forall|k: int| 0 <= k < i ==> bytes@[k] != 0u8,
        decreases bytes@.len() - i,
    {
        if bytes[i] == 0 {
            assert(bytes@[i as int] == 0u8);
            return true;
        }
        i += 1;
    }
    false
}

/// Text of a file's bytes, or `None` for a binary file (a zero byte, or not
/// valid UTF-8).
pub fn read_utf8_text_bytes(bytes: &[u8]) -> (r: Option<String>)
    ensures
        r is Some <==> !bytes@.contains(0u8) && valid_utf8(bytes@),
        r matches Some(s) ==> s@ == decode_utf8(bytes@),
{
    if has_nul_byte(bytes) {
        return None;
    }
    utf8_to_string(bytes)
}

/// What reading a file for the index produced.
#[derive(Debug)]
pub enum ReadOutcome {
    /// Text split into documents, with the hex hash of the file's bytes.
    Text { chunks: Vec<DocChunk>, hash: String },
    /// A binary file.
    Binary { hash: Option<String> },
}

/// Documents and hash of a file's bytes, or `Binary` when the bytes hold a
/// zero byte or are not UTF-8.
pub fn read_text_chunks_from_bytes(bytes: &[u8], max_doc_bytes: usize) -> (r: ReadOutcome)
    ensures
        (r is Binary) <==> (bytes@.contains(0u8) || !valid_utf8(bytes@)),
        r matches ReadOutcome::Binary { hash } ==> hash is None,
        r matches ReadOutcome::Text { chunks, hash } ==> {
            &&& hash@ == blake3_hex(bytes@)
            &&& chunks@.map_values(|d: DocChunk| d@) == doc_chunks(decode_utf8(bytes@), max_doc_bytes)
        },
{
    match read_utf8_text_bytes(bytes) {
        None => ReadOutcome::Binary { hash: None },
        Some(text) => {
            let hash = hash_hex(bytes);
            let chunks = build_chunks(text.as_str(), max_doc_bytes);
            ReadOutcome::Text { chunks, hash }
        },
    }
}

} // verus!
