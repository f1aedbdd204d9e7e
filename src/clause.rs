//! Clause detection on transcripts, and the first clause boundary in a
//! timestamped token stream.
use vstd::prelude::*;

verus! {

/// The characters with the Unicode `White_Space` property.
pub open spec fn is_ws(c: char) -> bool {
    ('\u{9}' <= c && c <= '\u{d}') || c == ' ' || c == '\u{85}' || c == '\u{a0}' || c
        == '\u{1680}' || ('\u{2000}' <= c && c <= '\u{200a}') || c == '\u{2028}' || c == '\u{2029}'
        || c == '\u{202f}' || c == '\u{205f}' || c == '\u{3000}'
}

/// Whether `c` is white space in the Unicode sense.
pub fn is_white_space(c: char) -> (r: bool)
    ensures
        r == is_ws(c),
{
    ('\u{9}' <= c && c <= '\u{d}') || c == ' ' || c == '\u{85}' || c == '\u{a0}' || c == '\u{1680}'
        || ('\u{2000}' <= c && c <= '\u{200a}') || c == '\u{2028}' || c == '\u{2029}' || c
        == '\u{202f}' || c == '\u{205f}' || c == '\u{3000}'
}

/// `s` without its leading white space.
pub open spec fn trim_front(s: Seq<char>) -> Seq<char>
    decreases s.len(),
{
    if s.len() > 0 && is_ws(s[0]) {
        trim_front(s.drop_first())
    } else {
        s
    }
}

/// `s` without its trailing white space.
pub open spec fn trim_back(s: Seq<char>) -> Seq<char>
    decreases s.len(),
{
    if s.len() > 0 && is_ws(s.last()) {
        trim_back(s.drop_last())
    } else {
        s
    }
}

/// `s` without leading and trailing white space.
pub open spec fn trimmed(s: Seq<char>) -> Seq<char> {
    trim_back(trim_front(s))
}

/// Number of maximal runs of non-white-space characters in `s`.
pub open spec fn word_count(s: Seq<char>) -> nat
    decreases s.len(),
{
    if s.len() == 0 {
        0
    } else {
        word_count(s.drop_last()) + if !is_ws(s.last()) && (s.len() == 1 || is_ws(
            s[s.len() - 2],
        )) {
            1nat
        } else {
            0nat
        }
    }
}

/// A sentence terminator.
pub open spec fn is_terminator(c: char) -> bool {
    c == '.' || c == '?' || c == '!' || c == ';'
}

/// The strict clause rule: non-empty once trimmed, and either ending in a
/// sentence terminator or holding at least `min_tokens` words.
pub open spec fn valid_clause(text: Seq<char>, min_tokens: nat) -> bool {
    let t = trimmed(text);
    t.len() > 0 && (is_terminator(t.last()) || word_count(t) >= min_tokens)
}

/// `s` ends with `p`.
pub open spec fn ends_with(s: Seq<char>, p: Seq<char>) -> bool {
    p.len() <= s.len() && s.subrange(s.len() - p.len(), s.len() as int) == p
}

/// `p` occurs in `s`.
pub open spec fn contains(s: Seq<char>, p: Seq<char>) -> bool {
    exists|i: int| 0 <= i && i + p.len() <= s.len() && #[trigger] s.subrange(i, i + p.len()) == p
}

/// The relaxed clause rule: the strict rule, or a trimmed text that ends in a
/// comma, a dash, " and" or " but", or that holds " because ".
pub open spec fn valid_clause_relaxed(text: Seq<char>, min_tokens: nat) -> bool {
    let t = trimmed(text);
    valid_clause(text, min_tokens) || (t.len() > 0 && (t.last() == ',' || t.last() == '-'
        || ends_with(t, " and"@) || ends_with(t, " but"@) || contains(t, " because "@)))
}

proof fn lemma_trim_front_step(s: Seq<char>, i: int)
    requires
        0 <= i < s.len(),
        is_ws(s[i]),
    ensures
        trim_front(s.subrange(i, s.len() as int)) == trim_front(s.subrange(i + 1, s.len() as int)),
{
    let t = s.subrange(i, s.len() as int);
    assert(t.drop_first() == s.subrange(i + 1, s.len() as int));
}

proof fn lemma_trim_back_step(s: Seq<char>, lo: int, j: int)
    requires
        0 <= lo < j <= s.len(),
        is_ws(s[j - 1]),
    ensures
        trim_back(s.subrange(lo, j)) == trim_back(s.subrange(lo, j - 1)),
{
    let t = s.subrange(lo, j);
    assert(t.drop_last() == s.subrange(lo, j - 1));
}

/// The bounds of `s` once trimmed.
fn trim_bounds(s: &str) -> (r: (usize, usize))
    ensures
        r.0 <= r.1 <= s@.len(),
        s@.subrange(r.0 as int, r.1 as int) == trimmed(s@),
{
    let n = s.unicode_len();
    let mut lo: usize = 0;
    assert(s@.subrange(0, n as int) == s@);
    while lo < n && is_white_space(s.get_char(lo))
        invariant
            n == s@.len(),
            lo <= n,
            trim_front(s@) == trim_front(s@.subrange(lo as int, n as int)),
        decreases n - lo,
    {
        proof {
            lemma_trim_front_step(s@, lo as int);
        }
        lo = lo + 1;
    }
    let ghost front = s@.subrange(lo as int, n as int);
    assert(trim_front(front) == front);
    let mut hi: usize = n;
    while hi > lo && is_white_space(s.get_char(hi - 1))
        invariant
            n == s@.len(),
            lo <= hi <= n,
            trim_back(front) == trim_back(s@.subrange(lo as int, hi as int)),
        decreases hi,
    {
        proof {
            lemma_trim_back_step(s@, lo as int, hi as int);
        }
        hi = hi - 1;
    }
    let ghost t = s@.subrange(lo as int, hi as int);
    assert(trim_back(t) == t);
    (lo, hi)
}

/// Number of words of `s` within `[lo, hi)`.
fn count_words(s: &str, lo: usize, hi: usize) -> (r: usize)
    requires
        lo <= hi <= s@.len(),
    ensures
        r == word_count(s@.subrange(lo as int, hi as int)),
{
    let mut count: usize = 0;
    let mut k: usize = lo;
    while k < hi
        invariant
            lo <= k <= hi,
            hi <= s@.len(),
            count == word_count(s@.subrange(lo as int, k as int)),
            count <= k - lo,
        decreases hi - k,
    {
        let c = s.get_char(k);
        let starts = !is_white_space(c) && (k == lo || is_white_space(s.get_char(k - 1)));
        proof {
            let t = s@.subrange(lo as int, k + 1);
            assert(t.drop_last() == s@.subrange(lo as int, k as int));
            assert(t.last() == c);
            if k > lo {
                assert(t[t.len() - 2] == s@[k - 1]);
            }
        }
        if starts {
            count = count + 1;
        }
        k = k + 1;
    }
    count
}

/// Whether `s[lo..hi]` ends with the characters of `p`.
fn ends_with_at(s: &str, lo: usize, hi: usize, p: &str) -> (r: bool)
    requires
        lo <= hi <= s@.len(),
    ensures
        r == ends_with(s@.subrange(lo as int, hi as int), p@),
{
    let m = p.unicode_len();
    if m > hi - lo {
        return false;
    }
    let base = hi - m;
    let mut i: usize = 0;
    while i < m
        invariant
            i <= m,
            m == p@.len(),
            base + m == hi,
            lo <= base,
            hi <= s@.len(),
            forall|j: int| 0 <= j < i ==> s@[base + j] == p@[j],
        decreases m - i,
    {
        if s.get_char(base + i) != p.get_char(i) {
            proof {
                let t = s@.subrange(lo as int, hi as int);
                assert(t.subrange(t.len() - m, t.len() as int)[i as int] == s@[base + i]);
            }
            return false;
        }
        i = i + 1;
    }
    proof {
        let t = s@.subrange(lo as int, hi as int);
        assert(t.subrange(t.len() - m, t.len() as int) =~= p@);
    }
    true
}

/// Whether the characters of `p` occur in `s[lo..hi]`.
fn contains_at(s: &str, lo: usize, hi: usize, p: &str) -> (r: bool)
    requires
        lo <= hi <= s@.len(),
    ensures
        r == contains(s@.subrange(lo as int, hi as int), p@),
{
    let ghost t = s@.subrange(lo as int, hi as int);
    let m = p.unicode_len();
    if m > hi - lo {
        return false;
    }
    if m == 0 {
        assert(t.subrange(0int, 0int + p@.len()) =~= p@);
        return true;
    }
    let mut start: usize = 0;
    while start <= (hi - lo) - m
        invariant
            m == p@.len(),
            1 <= m <= hi - lo,
            start + m <= hi - lo + 1,
            lo <= hi <= s@.len(),
            t == s@.subrange(lo as int, hi as int),
            forall|q: int| 0 <= q < start ==> #[trigger] t.subrange(q, q + m) != p@,
        decreases hi - lo - start,
    {
        let mut i: usize = 0;
        let mut same = true;
        while i < m
            invariant
                i <= m,
                m == p@.len(),
                start + m <= hi - lo,
                m <= hi - lo,
                forall|q: int| 0 <= q < start ==> #[trigger] t.subrange(q, q + m) != p@,
                lo <= hi <= s@.len(),
                t == s@.subrange(lo as int, hi as int),
                same ==> forall|j: int| 0 <= j < i ==> s@[lo + start + j] == p@[j],
                !same ==> t.subrange(start as int, start + m) != p@,
            decreases m - i,
        {
            if same && s.get_char(lo + start + i) != p.get_char(i) {
                proof {
                    assert(t.subrange(start as int, start + m)[i as int] == s@[lo + start + i]);
                }
                same = false;
            }
            i = i + 1;
        }
        if same {
            proof {
                assert(t.subrange(start as int, start + m) =~= p@);
            }
            return true;
        }
        start = start + 1;
    }
    false
}

/// The strict clause rule on `text`: non-empty once trimmed, and either ending
/// in '.', '?', '!' or ';', or holding at least `min_tokens` words.
pub fn is_valid_clause_simple(text: &str, min_tokens: usize) -> (r: bool)
    ensures
        r == valid_clause(text@, min_tokens as nat),
{
    let (lo, hi) = trim_bounds(text);
    if lo == hi {
        return false;
    }
    let last = text.get_char(hi - 1);
    proof {
        assert(trimmed(text@).last() == last);
    }
    if last == '.' || last == '?' || last == '!' || last == ';' {
        return true;
    }
    count_words(text, lo, hi) >= min_tokens
}

/// The relaxed clause rule on `text`: the strict rule, or a trimmed text that
/// ends in ',', '-', " and" or " but", or that holds " because ".
pub fn is_valid_clause_relaxed(text: &str, min_tokens: usize) -> (r: bool)
    ensures
        r == valid_clause_relaxed(text@, min_tokens as nat),
{
    if is_valid_clause_simple(text, min_tokens) {
        return true;
    }
    let (lo, hi) = trim_bounds(text);
    if lo == hi {
        return false;
    }
    let last = text.get_char(hi - 1);
    proof {
        assert(trimmed(text@).last() == last);
    }
    last == ',' || last == '-' || ends_with_at(text, lo, hi, " and") || ends_with_at(
        text,
        lo,
        hi,
        " but",
    ) || contains_at(text, lo, hi, " because ")
}

/// A token of a transcript: its text and the end of its time span in
/// centiseconds from the start of the transcribed audio.
#[derive(Clone, Debug)]
pub struct AsrToken {
    pub text: String,
    pub t1: i64,
}

/// A proposed clause boundary: the global sample index where the clause ends,
/// and the clause's text.
#[derive(Clone, Debug)]
pub struct AsrProposal {
    pub clause_end_idx: usize,
    pub text: String,
}

/// Samples per centisecond at 16 kHz.
pub const SAMPLES_PER_CENTISECOND: usize = 160;

/// A token's text joins the transcript unless it is a special token such as
/// "[_BEG_]".
pub open spec fn joins_text(t: Seq<char>) -> bool {
    !(t.len() > 0 && t[0] == '[')
}

/// The sample offset of a token end given in centiseconds.
pub open spec fn token_offset(t1: i64) -> int {
    if t1 > 0 {
        t1 * 160
    } else {
        0
    }
}

/// The first clause boundary in `tokens[i..]`, given the text `acc` of the
/// tokens before: the first prefix that forms a valid clause and ends before
/// `end`, as (global end index, trimmed text).
pub open spec fn first_clause(
    tokens: Seq<AsrToken>,
    i: int,
    acc: Seq<char>,
    start: int,
    end: int,
    min_tokens: nat,
) -> Option<(int, Seq<char>)>
    decreases tokens.len() - i,
{
    if i < 0 || i >= tokens.len() {
        None
    } else {
        let tok = tokens[i];
        let acc2 = if joins_text(tok.text@) {
            acc + tok.text@
        } else {
            acc
        };
        if valid_clause(acc2, min_tokens) && start + token_offset(tok.t1) < end {
            Some((start + token_offset(tok.t1), trimmed(acc2)))
        } else {
            first_clause(tokens, i + 1, acc2, start, end, min_tokens)
        }
    }
}

/// The proposal for a transcript of the audio at global indices `range`:
/// none where the segment text is blank, else the first clause boundary.
pub open spec fn clause_proposal(
    segment_text: Seq<char>,
    tokens: Seq<AsrToken>,
    start: int,
    end: int,
    min_tokens: nat,
) -> Option<(int, Seq<char>)> {
    if trimmed(segment_text).len() == 0 {
        None
    } else {
        first_clause(tokens, 0, Seq::empty(), start, end, min_tokens)
    }
}

/// The global index where a token ends, if that is before `end`.
fn token_end_before(t1: i64, start: usize, end: usize) -> (r: Option<usize>)
    ensures
        match r {
            Some(idx) => idx == start + token_offset(t1) && idx < end,
            None => start + token_offset(t1) >= end,
        },
{
    if start >= end {
        return None;
    }
    let d = end - start;
    if t1 <= 0 {
        return Some(start);
    }
    let t = t1 as u64;
    if t <= ((d - 1) / SAMPLES_PER_CENTISECOND) as u64 {
        proof {
            assert(t * 160 <= d - 1) by (nonlinear_arith)
                requires
                    t <= (d - 1) / 160,
                    d >= 1,
            ;
        }
        let off = (t as usize) * SAMPLES_PER_CENTISECOND;
        Some(start + off)
    } else {
        proof {
            assert(t * 160 >= d) by (nonlinear_arith)
                requires
                    t > (d - 1) / 160,
                    d >= 1,
            ;
        }
        None
    }
}

/// Finds the first clause boundary in a transcript of the audio at global
/// indices `range`: the tokens' texts are joined in order (special tokens
/// starting with '[' left out), and the first joined prefix that forms a
/// valid clause and ends before `range.end` gives the proposal.
pub fn extract_clause_boundary(
    segment_text: &str,
    tokens: &Vec<AsrToken>,
    range: std::ops::Range<usize>,
    min_tokens: usize,
) -> (r: Option<AsrProposal>)
    ensures
        match clause_proposal(
            segment_text@,
            tokens@,
            range.start as int,
            range.end as int,
            min_tokens as nat,
        ) {
            Some((idx, text)) => r matches Some(p) && p.clause_end_idx == idx && p.text@ == text,
            None => r is None,
        },
{
    let (lo, hi) = trim_bounds(segment_text);
    if lo == hi {
        return None;
    }
    assert(trimmed(segment_text@).len() > 0);
    let mut acc = String::new();
    let mut i: usize = 0;
    let n = tokens.len();
    while i < n
        invariant
            i <= n,
            n == tokens@.len(),
            trimmed(segment_text@).len() > 0,
            first_clause(tokens@, 0, Seq::empty(), range.start as int, range.end as int, min_tokens as nat)
                == first_clause(
                tokens@,
                i as int,
                acc@,
                range.start as int,
                range.end as int,
                min_tokens as nat,
            ),
        decreases n - i,
    {
        let tok = &tokens[i];
        let txt = tok.text.as_str();
        let special = txt.unicode_len() > 0 && txt.get_char(0) == '[';
        let ghost before = acc@;
        if !special {
            acc.append(txt);
        }
        assert(acc@ == if joins_text(tok.text@) {
            before + tok.text@
        } else {
            before
        });
        if is_valid_clause_simple(acc.as_str(), min_tokens) {
            match token_end_before(tok.t1, range.start, range.end) {
                Some(idx) => {
                    let (a, b) = trim_bounds(acc.as_str());
                    let sub = acc.as_str().substring_char(a, b);
                    let text = sub.to_string();
                    assert(text@ == sub@);
                    assert(tokens@[i as int] == *tok);
                    assert(first_clause(
                        tokens@,
                        i as int,
                        before,
                        range.start as int,
                        range.end as int,
                        min_tokens as nat,
                    ) == Some((idx as int, trimmed(acc@))));
                                        assert(clause_proposal(
                        segment_text@,
                        tokens@,
                        range.start as int,
                        range.end as int,
                        min_tokens as nat,
                    ) == Some((idx as int, trimmed(acc@))));
                    assert(text@ == trimmed(acc@));
                    return Some(AsrProposal { clause_end_idx: idx, text });
                },
                None => {},
            }
        }
        i = i + 1;
    }
    None
}

} // verus!
