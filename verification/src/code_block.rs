//! Highlighted code shown line by line: the byte length of each line and
//! the tokens of each line, in offsets relative to the line.
use vstd::prelude::*;
use std::ops::Range;
use crate::syntax::{Tok, TokenType, range_view};
use crate::text::chars_of;
use crate::theming::utf8_width;

verus! {

/// Byte lengths of the lines of `s` (split at every `'\n'`; the text
/// after the last one is a line too, possibly empty).
pub open spec fn line_lens(s: Seq<char>) -> Seq<int>
    decreases s.len(),
{
    if s.len() == 0 {
        seq![0int]
    } else {
        let r = line_lens(s.drop_last());
        if s.last() == '\n' {
            r.push(0)
        } else {
            r.update(r.len() - 1, r.last() + utf8_width(s.last()))
        }
    }
}

/// Byte offset where line `k` starts: the lengths of the lines before it,
/// one newline byte after each.
pub open spec fn line_start(lens: Seq<int>, k: int) -> int
    decreases k,
{
    if k <= 0 { 0 } else { line_start(lens, k - 1) + lens[k - 1] + 1 }
}

/// The tokens that overlap the line starting at `start` of `len` bytes,
/// in order, cut to the line and made relative to its start.
pub open spec fn tokens_in_line(toks: Seq<Tok>, start: int, len: int, n: int) -> Seq<Tok>
    decreases n,
{
    if n <= 0 {
        Seq::empty()
    } else {
        let prev = tokens_in_line(toks, start, len, n - 1);
        let t = toks[n - 1];
        if t.0 < start + len && t.1 > start {
            let s = if t.0 >= start { t.0 - start } else { 0 };
            let e = if t.1 - start < len { t.1 - start } else { len };
            prev.push((s as usize, e as usize, t.2))
        } else {
            prev
        }
    }
}

proof fn lemma_line_lens_facts(s: Seq<char>)
    ensures
        line_lens(s).len() >= 1,
        forall|k: int| 0 <= k < line_lens(s).len() ==> #[trigger] line_lens(s)[k] >= 0,
        line_start(line_lens(s), line_lens(s).len() - 1) + line_lens(s).last() <= 4 * s.len(),
    decreases s.len(),
{
    if s.len() > 0 {
        let p = s.drop_last();
        lemma_line_lens_facts(p);
        let r = line_lens(p);
        let n = line_lens(s);
        if s.last() == '\n' {
            lemma_line_start_prefix(r, n, r.len() as int);
        } else {
            lemma_line_start_prefix(r, n, r.len() - 1);
        }
    }
}

proof fn lemma_line_start_prefix(a: Seq<int>, b: Seq<int>, k: int)
    requires
        0 <= k <= a.len(),
        k <= b.len(),
        forall|j: int| 0 <= j < k ==> a[j] == b[j],
    ensures
        line_start(a, k) == line_start(b, k),
    decreases k,
{
    if k > 0 {
        lemma_line_start_prefix(a, b, k - 1);
    }
}

/// The byte lengths of the lines of `code`.
pub fn line_lengths(code: &str) -> (lens: Vec<usize>)
    requires
        4 * code@.len() <= usize::MAX,
    ensures
        lens@.len() == line_lens(code@).len(),
        forall|k: int| 0 <= k < lens@.len() ==> lens@[k] == #[trigger] line_lens(code@)[k],
{
    let cs = chars_of(code);
    let mut lens: Vec<usize> = Vec::new();
    lens.push(0);
    let mut i: usize = 0;
    assert(cs@.take(0) =~= Seq::<char>::empty());
    while i < cs.len()
        invariant
            i <= cs@.len(),
            cs@ == code@,
            4 * cs@.len() <= usize::MAX,
            lens@.len() == line_lens(cs@.take(i as int)).len(),
            forall|k: int| 0 <= k < lens@.len() ==> lens@[k] == #[trigger] line_lens(cs@.take(i as int))[k],
        decreases cs.len() - i,
    {
        let c = cs[i];
        let ghost pre = cs@.take(i as int);
        let ghost nxt = cs@.take(i + 1);
        assert(nxt.drop_last() =~= pre);
        assert(nxt.last() == c);
        proof {
            lemma_line_lens_facts(pre);
            lemma_line_start_bound(line_lens(pre), line_lens(pre).len() - 1);
        }
        if c == '\n' {
            lens.push(0);
            assert forall|k: int| 0 <= k < lens@.len() implies lens@[k] == #[trigger] line_lens(nxt)[k] by {}
        } else {
            let w: usize = if (c as u32) < 0x80 { 1 } else if (c as u32) < 0x800 { 2 } else if (c as u32) < 0x10000 { 3 } else { 4 };
            let last = lens.len() - 1;
            let cur = lens[last];
            assert(cur == line_lens(pre).last());
            assert(cur + w <= 4 * (i + 1));
            lens.set(last, cur + w);
            assert forall|k: int| 0 <= k < lens@.len() implies lens@[k] == #[trigger] line_lens(nxt)[k] by {}
        }
        i = i + 1;
    }
    assert(cs@.take(i as int) =~= code@);
    lens
}

proof fn lemma_line_start_bound(lens: Seq<int>, k: int)
    requires
        0 <= k < lens.len(),
        forall|j: int| 0 <= j < lens.len() ==> #[trigger] lens[j] >= 0,
    ensures
        line_start(lens, k) >= 0,
        lens[k] <= line_start(lens, k) + lens[k],
    decreases k,
{
    if k > 0 {
        lemma_line_start_bound(lens, k - 1);
    }
}

/// The tokens of one line: those overlapping the bytes `start..start + len`,
/// cut to the line and made relative to its start.
pub fn tokens_of_line(tokens: &Vec<(Range<usize>, TokenType)>, start: usize, len: usize) -> (out: Vec<(Range<usize>, TokenType)>)
    requires
        start + len <= usize::MAX,
    ensures
        range_view(out@) == tokens_in_line(range_view(tokens@), start as int, len as int, tokens@.len() as int),
{
    let ghost toks = range_view(tokens@);
    let mut out: Vec<(Range<usize>, TokenType)> = Vec::new();
    let end = start + len;
    let mut i: usize = 0;
    while i < tokens.len()
        invariant
            i <= tokens@.len(),
            end == start + len,
            toks == range_view(tokens@),
            range_view(out@) == tokens_in_line(toks, start as int, len as int, i as int),
        decreases tokens.len() - i,
    {
        let ts = tokens[i].0.start;
        let te = tokens[i].0.end;
        let kind = tokens[i].1;
        assert(toks[i as int] == (ts, te, kind));
        if ts < end && te > start {
            let s = if ts >= start { ts - start } else { 0 };
            let e = if te - start < len { te - start } else { len };
            out.push((s..e, kind));
            assert(range_view(out@) =~= tokens_in_line(toks, start as int, len as int, i + 1));
        } else {
            assert(range_view(out@) =~= tokens_in_line(toks, start as int, len as int, i + 1));
        }
        i = i + 1;
    }
    out
}

/// The tokens of every line of `code`, from the tokens of the whole text.
pub fn tokens_by_line(code: &str, tokens: &Vec<(Range<usize>, TokenType)>) -> (lines: Vec<Vec<(Range<usize>, TokenType)>>)
    requires
        4 * code@.len() + 1 <= usize::MAX,
    ensures
        lines@.len() == line_lens(code@).len(),
        forall|k: int| 0 <= k < lines@.len() ==> range_view(#[trigger] lines@[k]@) == tokens_in_line(
            range_view(tokens@),
            line_start(line_lens(code@), k),
            line_lens(code@)[k],
            tokens@.len() as int,
        ),
{
    let lens = line_lengths(code);
    let ghost ll = line_lens(code@);
    proof {
        lemma_line_lens_facts(code@);
    }
    let mut lines: Vec<Vec<(Range<usize>, TokenType)>> = Vec::new();
    let mut start: usize = 0;
    let mut k: usize = 0;
    while k < lens.len()
        invariant
            k <= lens@.len(),
            lens@.len() == ll.len(),
            ll == line_lens(code@),
            ll.len() >= 1,
            forall|j: int| 0 <= j < lens@.len() ==> lens@[j] == #[trigger] ll[j],
            forall|j: int| 0 <= j < ll.len() ==> #[trigger] ll[j] >= 0,
            line_start(ll, ll.len() - 1) + ll.last() <= 4 * code@.len(),
            4 * code@.len() + 1 <= usize::MAX,
            start == line_start(ll, k as int),
            lines@.len() == k,
            forall|j: int| 0 <= j < k ==> range_view(#[trigger] lines@[j]@) == tokens_in_line(
                range_view(tokens@),
                line_start(ll, j),
                ll[j],
                tokens@.len() as int,
            ),
        decreases lens.len() - k,
    {
        proof {
            lemma_line_start_mono(ll, k as int, ll.len() - 1);
        }
        let len = lens[k];
        lines.push(tokens_of_line(tokens, start, len));
        start = start + len + 1;
        k = k + 1;
    }
    lines
}

proof fn lemma_line_start_mono(lens: Seq<int>, k: int, last: int)
    requires
        0 <= k <= last < lens.len(),
        forall|j: int| 0 <= j < lens.len() ==> #[trigger] lens[j] >= 0,
    ensures
        line_start(lens, k) + lens[k] <= line_start(lens, last) + lens[last],
    decreases last - k,
{
    if k < last {
        lemma_line_start_mono(lens, k + 1, last);
    }
}

} // verus!
