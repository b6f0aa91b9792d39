use vstd::prelude::*;

use crate::text::{lemma_strip_both_idempotent, chars_of, matches_at, same_run, starts_with, string_of, strip_both, trim_chars};

verus! {

/// The longest run of the prefix that is looked for again at the head of a completion.
pub const PREFIX_OVERLAP_LIMIT: usize = 100;

/// The longest run of the suffix that is looked for again at the tail of a completion.
pub const SUFFIX_OVERLAP_LIMIT: usize = 80;

/// The last `k` characters of `p` are the first `k` of `c`.
pub open spec fn head_overlaps(p: Seq<char>, c: Seq<char>, k: int) -> bool {
    1 <= k <= p.len() && k <= c.len() && p.subrange(p.len() - k, p.len() as int) == c.subrange(
        0,
        k,
    )
}

/// `k` is the longest overlap of at most the limit between the end of `p` and the head of `c`.
pub open spec fn longest_head_overlap(p: Seq<char>, c: Seq<char>, k: int) -> bool {
    &&& k <= PREFIX_OVERLAP_LIMIT
    &&& head_overlaps(p, c, k)
    &&& forall|j: int| k < j <= PREFIX_OVERLAP_LIMIT ==> !head_overlaps(p, c, j)
}

/// How many characters at the head of `c` repeat the end of `p` (zero if none).
pub open spec fn head_overlap(p: Seq<char>, c: Seq<char>) -> int {
    if exists|k: int| longest_head_overlap(p, c, k) {
        choose|k: int| longest_head_overlap(p, c, k)
    } else {
        0
    }
}

/// `c` without the head that repeats the end of the prefix `p`.
pub open spec fn without_head_overlap(c: Seq<char>, p: Seq<char>) -> Seq<char> {
    c.subrange(head_overlap(p, c), c.len() as int)
}

/// The first `k` characters of `s` are the last `k` of `c`.
pub open spec fn tail_overlaps(s: Seq<char>, c: Seq<char>, k: int) -> bool {
    1 <= k <= s.len() && k <= c.len() && c.subrange(c.len() - k, c.len() as int) == s.subrange(
        0,
        k,
    )
}

/// `k` is the longest overlap of at most the limit between the tail of `c` and the start of `s`.
pub open spec fn longest_tail_overlap(s: Seq<char>, c: Seq<char>, k: int) -> bool {
    &&& k <= SUFFIX_OVERLAP_LIMIT
    &&& tail_overlaps(s, c, k)
    &&& forall|j: int| k < j <= SUFFIX_OVERLAP_LIMIT ==> !tail_overlaps(s, c, j)
}

/// How many characters at the tail of `c` repeat the start of `s` (zero if none).
pub open spec fn tail_overlap(s: Seq<char>, c: Seq<char>) -> int {
    if exists|k: int| longest_tail_overlap(s, c, k) {
        choose|k: int| longest_tail_overlap(s, c, k)
    } else {
        0
    }
}

/// `c` without the tail that repeats the start of the suffix `s`.
pub open spec fn without_tail_overlap(c: Seq<char>, s: Seq<char>) -> Seq<char> {
    c.subrange(0, c.len() - tail_overlap(s, c))
}

proof fn lemma_head_overlap_is(p: Seq<char>, c: Seq<char>, k: int)
    requires
        longest_head_overlap(p, c, k),
    ensures
        head_overlap(p, c) == k,
{
    let q = choose|q: int| longest_head_overlap(p, c, q);
    assert(longest_head_overlap(p, c, q));
    if q < k {
        assert(!head_overlaps(p, c, k));
    }
    if k < q {
        assert(!head_overlaps(p, c, q));
    }
}

proof fn lemma_tail_overlap_is(s: Seq<char>, c: Seq<char>, k: int)
    requires
        longest_tail_overlap(s, c, k),
    ensures
        tail_overlap(s, c) == k,
{
    let q = choose|q: int| longest_tail_overlap(s, c, q);
    assert(longest_tail_overlap(s, c, q));
    if q < k {
        assert(!tail_overlaps(s, c, k));
    }
    if k < q {
        assert(!tail_overlaps(s, c, q));
    }
}

fn min3(a: usize, b: usize, c: usize) -> (r: usize)
    ensures
        r <= a,
        r <= b,
        r <= c,
        r == a || r == b || r == c,
{
    let m = if a < b {
        a
    } else {
        b
    };
    if m < c {
        m
    } else {
        c
    }
}

/// Removes from the head of `completion` the longest run (of at most the limit) that repeats
/// the end of `prefix`.
pub fn trim_redundant_prefix(completion: &mut String, prefix: &str)
    ensures
        final(completion)@ == without_head_overlap(old(completion)@, prefix@),
{
    let c = chars_of(completion.as_str());
    let p = chars_of(prefix);
    let max = min3(p.len(), c.len(), PREFIX_OVERLAP_LIMIT);
    let mut count: usize = max;
    while count >= 1
        invariant
            c@ == old(completion)@,
            p@ == prefix@,
            *completion == *old(completion),
            count <= max <= PREFIX_OVERLAP_LIMIT,
            max == p@.len() || max == c@.len() || max == PREFIX_OVERLAP_LIMIT,
            max <= p@.len(),
            max <= c@.len(),
            forall|j: int| count < j <= PREFIX_OVERLAP_LIMIT ==> !head_overlaps(p@, c@, j),
        decreases count,
    {
        let start = p.len() - count;
        if same_run(&p, start, &c, 0, count) {
            proof {
                assert(longest_head_overlap(p@, c@, count as int));
                lemma_head_overlap_is(p@, c@, count as int);
            }
            *completion = string_of(&c, count, c.len());
            return;
        }
        count = count - 1;
    }
    proof {
        assert(!(exists|k: int| longest_head_overlap(p@, c@, k)));
        assert(c@.subrange(0, c@.len() as int) =~= c@);
    }
}

/// Removes from the tail of `completion` the longest run (of at most the limit) that repeats
/// the start of `suffix`.
pub fn trim_redundant_suffix(completion: &mut String, suffix: &str)
    ensures
        final(completion)@ == without_tail_overlap(old(completion)@, suffix@),
{
    let c = chars_of(completion.as_str());
    let s = chars_of(suffix);
    let max = min3(s.len(), c.len(), SUFFIX_OVERLAP_LIMIT);
    let mut count: usize = max;
    while count >= 1
        invariant
            c@ == old(completion)@,
            s@ == suffix@,
            *completion == *old(completion),
            count <= max <= SUFFIX_OVERLAP_LIMIT,
            max == s@.len() || max == c@.len() || max == SUFFIX_OVERLAP_LIMIT,
            max <= s@.len(),
            max <= c@.len(),
            forall|j: int| count < j <= SUFFIX_OVERLAP_LIMIT ==> !tail_overlaps(s@, c@, j),
        decreases count,
    {
        let end = c.len() - count;
        if same_run(&c, end, &s, 0, count) {
            proof {
                assert(longest_tail_overlap(s@, c@, count as int));
                lemma_tail_overlap_is(s@, c@, count as int);
            }
            *completion = string_of(&c, 0, end);
            return;
        }
        count = count - 1;
    }
    proof {
        assert(!(exists|k: int| longest_tail_overlap(s@, c@, k)));
        assert(c@.subrange(0, c@.len() as int) =~= c@);
    }
}


/// The marker that opens and closes a fenced code block.
pub open spec fn fence() -> Seq<char> {
    seq!['`', '`', '`']
}

/// `f` is the index of the first line break of `t`.
pub open spec fn is_first_newline(t: Seq<char>, f: int) -> bool {
    0 <= f < t.len() && t[f] == '\n' && forall|i: int| 0 <= i < f ==> t[i] != '\n'
}

/// `l` is the index of the last line break of `t`.
pub open spec fn is_last_newline(t: Seq<char>, l: int) -> bool {
    0 <= l < t.len() && t[l] == '\n' && forall|i: int| l < i < t.len() ==> t[i] != '\n'
}

/// Lines joined by line feeds: each carriage return that ends a line is dropped.
pub open spec fn drop_line_cr(m: Seq<char>) -> Seq<char>
    decreases m.len(),
{
    if m.len() == 0 {
        m
    } else if m[0] == '\r' && (m.len() == 1 || m[1] == '\n') {
        drop_line_cr(m.drop_first())
    } else {
        seq![m[0]] + drop_line_cr(m.drop_first())
    }
}

/// The inner lines of `t` where `t` is a fenced block of at least three lines whose last line
/// is the fence alone.
pub open spec fn fence_body(t: Seq<char>) -> Option<Seq<char>> {
    if starts_with(t, fence()) && exists|f: int| is_first_newline(t, f) {
        let f = choose|f: int| is_first_newline(t, f);
        let l = choose|l: int| is_last_newline(t, l);
        if f < l && strip_both(t.subrange(l + 1, t.len() as int), false) == fence() {
            Some(drop_line_cr(t.subrange(f + 1, l)))
        } else {
            None
        }
    } else {
        None
    }
}

/// `s` trimmed, then without a code fence or a pair of inline backticks around it.
pub open spec fn unfenced(s: Seq<char>) -> Seq<char> {
    let t = strip_both(s, false);
    match fence_body(t) {
        Some(b) => b,
        None => if t.len() > 2 && t[0] == '`' && t.last() == '`' {
            t.subrange(1, t.len() - 1)
        } else {
            t
        },
    }
}

/// A completion after cleaning: byte-order marks trimmed and, for a chat model, the markdown
/// around it and its overlaps with the text around the cursor removed.
pub open spec fn cleaned(raw: Seq<char>, prefix: Seq<char>, suffix: Seq<char>, fim: bool) -> Seq<
    char,
> {
    let c = strip_both(raw, true);
    if fim {
        c
    } else {
        without_tail_overlap(without_head_overlap(unfenced(c), prefix), suffix)
    }
}

fn first_newline(t: &Vec<char>) -> (r: Option<usize>)
    ensures
        r matches Some(f) ==> is_first_newline(t@, f as int),
        r is None ==> forall|i: int| 0 <= i < t@.len() ==> t@[i] != '\n',
{
    let mut i: usize = 0;
    while i < t.len()
        invariant
            i <= t@.len(),
            forall|j: int| 0 <= j < i ==> t@[j] != '\n',
        decreases t@.len() - i,
    {
        if t[i] == '\n' {
            return Some(i);
        }
        i = i + 1;
    }
    None
}

fn last_newline(t: &Vec<char>) -> (r: Option<usize>)
    ensures
        r matches Some(l) ==> is_last_newline(t@, l as int),
        r is None ==> forall|i: int| 0 <= i < t@.len() ==> t@[i] != '\n',
{
    let mut i: usize = t.len();
    while i > 0
        invariant
            i <= t@.len(),
            forall|j: int| i <= j < t@.len() ==> t@[j] != '\n',
        decreases i,
    {
        if t[i - 1] == '\n' {
            return Some(i - 1);
        }
        i = i - 1;
    }
    None
}

proof fn lemma_newlines_unique(t: Seq<char>, f: int, l: int)
    requires
        is_first_newline(t, f),
        is_last_newline(t, l),
    ensures
        (choose|x: int| is_first_newline(t, x)) == f,
        (choose|x: int| is_last_newline(t, x)) == l,
{
    let f2 = choose|x: int| is_first_newline(t, x);
    let l2 = choose|x: int| is_last_newline(t, x);
    assert(is_first_newline(t, f2));
    assert(is_last_newline(t, l2));
    if f2 < f {
        assert(t[f2] != '\n');
    }
    if f < f2 {
        assert(t[f] != '\n');
    }
    if l2 < l {
        assert(t[l] != '\n');
    }
    if l < l2 {
        assert(t[l2] != '\n');
    }
}

fn drop_line_cr_run(v: &Vec<char>, from: usize, to: usize) -> (r: Vec<char>)
    requires
        from <= to <= v@.len(),
    ensures
        r@ == drop_line_cr(v@.subrange(from as int, to as int)),
{
    let mut out: Vec<char> = Vec::new();
    let mut i: usize = from;
    while i < to
        invariant
            from <= i <= to <= v@.len(),
            drop_line_cr(v@.subrange(from as int, to as int)) == out@ + drop_line_cr(
                v@.subrange(i as int, to as int),
            ),
        decreases to - i,
    {
        let m = Ghost(v@.subrange(i as int, to as int));
        assert(m@.drop_first() =~= v@.subrange(i + 1, to as int));
        if v[i] == '\r' && (i + 1 == to || v[i + 1] == '\n') {
        } else {
            out.push(v[i]);
            assert(drop_line_cr(m@) == seq![v@[i as int]] + drop_line_cr(m@.drop_first()));
            assert(out@ + drop_line_cr(m@.drop_first()) =~= (out@.drop_last() + seq![v@[i as int]])
                + drop_line_cr(m@.drop_first()));
        }
        i = i + 1;
    }
    assert(out@ + drop_line_cr(v@.subrange(to as int, to as int)) =~= out@);
    out
}

/// Trims `text` and removes a markdown code fence, or one pair of inline backticks, around it.
pub fn strip_markdown_code_blocks(text: &str) -> (r: String)
    ensures
        r@ == unfenced(text@),
{
    let v = chars_of(text);
    let t = trim_chars(&v, false);
    let marker: Vec<char> = vec!['`', '`', '`'];
    assert(marker@ =~= fence());
    if matches_at(&t, &marker, 0) {
        let first = first_newline(&t);
        let last = last_newline(&t);
        if let Some(f) = first {
            if let Some(l) = last {
                proof {
                    lemma_newlines_unique(t@, f as int, l as int);
                }
                if f < l {
                    let mut tail: Vec<char> = Vec::new();
                    let tl = t.len();
                    assert(l < tl);
                    let mut i: usize = l + 1;
                    while i < t.len()
                        invariant
                            l + 1 <= i <= t@.len(),
                            tail@ == t@.subrange(l + 1, i as int),
                        decreases t@.len() - i,
                    {
                        tail.push(t[i]);
                        i = i + 1;
                        assert(tail@ =~= t@.subrange(l + 1, i as int));
                    }
                    let tail = trim_chars(&tail, false);
                    let closes = tail.len() == 3 && same_run(&tail, 0, &marker, 0, 3);
                    proof {
                        if tail@.len() == 3 {
                            assert(tail@.subrange(0, 3) =~= tail@);
                            assert(marker@.subrange(0, 3) =~= marker@);
                        }
                    }
                    if closes {
                        let body = drop_line_cr_run(&t, f + 1, l);
                        return string_of(&body, 0, body.len());
                    }
                }
            } else {
                assert(t@[f as int] != '\n');
            }
        }
    }
    assert(t@.subrange(0, t@.len() as int) =~= t@);
    if t.len() > 2 && t[0] == '`' && t[t.len() - 1] == '`' {
        return string_of(&t, 1, t.len() - 1);
    }
    string_of(&t, 0, t.len())
}

/// Cleans a raw completion for insertion between `prefix` and `suffix`.
pub fn clean(raw: &str, prefix: &str, suffix: &str, fim: bool) -> (r: String)
    ensures
        r@ == cleaned(raw@, prefix@, suffix@, fim),
{
    let v = chars_of(raw);
    let t = trim_chars(&v, true);
    let mut completion = string_of(&t, 0, t.len());
    assert(t@.subrange(0, t@.len() as int) =~= t@);
    if !fim {
        completion = strip_markdown_code_blocks(completion.as_str());
        trim_redundant_prefix(&mut completion, prefix);
        trim_redundant_suffix(&mut completion, suffix);
    }
    completion
}


/// Cleaning a fill-in-the-middle completion a second time leaves it as it is.
pub proof fn lemma_clean_fim_idempotent(raw: Seq<char>, prefix: Seq<char>, suffix: Seq<char>)
    ensures
        cleaned(cleaned(raw, prefix, suffix, true), prefix, suffix, true) == cleaned(
            raw,
            prefix,
            suffix,
            true,
        ),
{
    lemma_strip_both_idempotent(raw, true);
}

/// A chat completion that has nothing left to trim (no byte-order mark or whitespace at its
/// ends, no markdown around it, no head repeating the prefix and no tail repeating the suffix
/// within the limits) is left as it is by cleaning.
pub proof fn lemma_clean_chat_fixed_point(c: Seq<char>, prefix: Seq<char>, suffix: Seq<char>)
    requires
        strip_both(c, true) == c,
        unfenced(c) == c,
        forall|k: int| 1 <= k <= PREFIX_OVERLAP_LIMIT ==> !head_overlaps(prefix, c, k),
        forall|k: int| 1 <= k <= SUFFIX_OVERLAP_LIMIT ==> !tail_overlaps(suffix, c, k),
    ensures
        cleaned(c, prefix, suffix, false) == c,
{
    assert(!exists|k: int| longest_head_overlap(prefix, c, k));
    assert(c.subrange(0, c.len() as int) =~= c);
    assert(without_head_overlap(c, prefix) == c);
    assert(!exists|k: int| longest_tail_overlap(suffix, c, k));
}

} // verus!
