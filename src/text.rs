use vstd::prelude::*;
use vstd::string::*;

verus! {

/// Relies on `String::push`: appends one character.
#[verifier::external_body]
pub(crate) fn push_char(s: &mut String, c: char)
    ensures
        final(s)@ == old(s)@.push(c),
{
    s.push(c)
}

/// The characters of `s`, in order.
pub fn chars_of(s: &str) -> (r: Vec<char>)
    ensures
        r@ == s@,
{
    let n = s.unicode_len();
    let mut out: Vec<char> = Vec::new();
    let mut i: usize = 0;
    while i < n
        invariant
            n == s@.len(),
            i <= n,
            out@ == s@.subrange(0, i as int),
        decreases n - i,
    {
        out.push(s.get_char(i));
        i = i + 1;
        assert(out@ =~= s@.subrange(0, i as int));
    }
    assert(out@ =~= s@);
    out
}

/// A string holding the characters `v[from..to]`.
pub fn string_of(v: &Vec<char>, from: usize, to: usize) -> (r: String)
    requires
        from <= to <= v@.len(),
    ensures
        r@ == v@.subrange(from as int, to as int),
{
    let mut out = String::new();
    let mut i: usize = from;
    while i < to
        invariant
            from <= i <= to <= v@.len(),
            out@ == v@.subrange(from as int, i as int),
        decreases to - i,
    {
        push_char(&mut out, v[i]);
        i = i + 1;
        assert(out@ =~= v@.subrange(from as int, i as int));
    }
    out
}


/// Unicode `White_Space`, the set that `str::trim` removes.
pub open spec fn is_ws(c: char) -> bool {
    let u = c as u32;
    (0x9 <= u <= 0xD) || u == 0x20 || u == 0x85 || u == 0xA0 || u == 0x1680 || (0x2000 <= u
        <= 0x200A) || u == 0x2028 || u == 0x2029 || u == 0x202F || u == 0x205F || u == 0x3000
}

/// The byte-order mark.
pub open spec fn is_bom(c: char) -> bool {
    c == '\u{feff}'
}

/// The characters removed at the ends by a trim: whitespace, or the byte-order mark.
pub open spec fn trimmed_char(c: char, bom: bool) -> bool {
    if bom {
        is_bom(c)
    } else {
        is_ws(c)
    }
}

pub fn is_whitespace(c: char) -> (r: bool)
    ensures
        r == is_ws(c),
{
    let u = c as u32;
    (0x9 <= u && u <= 0xD) || u == 0x20 || u == 0x85 || u == 0xA0 || u == 0x1680 || (0x2000 <= u
        && u <= 0x200A) || u == 0x2028 || u == 0x2029 || u == 0x202F || u == 0x205F || u
        == 0x3000
}

pub fn is_trimmed(c: char, bom: bool) -> (r: bool)
    ensures
        r == trimmed_char(c, bom),
{
    if bom {
        c == '\u{feff}'
    } else {
        is_whitespace(c)
    }
}

/// `s` without its leading trimmed characters.
pub open spec fn strip_start(s: Seq<char>, bom: bool) -> Seq<char>
    decreases s.len(),
{
    if s.len() > 0 && trimmed_char(s[0], bom) {
        strip_start(s.drop_first(), bom)
    } else {
        s
    }
}

/// `s` without its trailing trimmed characters.
pub open spec fn strip_end(s: Seq<char>, bom: bool) -> Seq<char>
    decreases s.len(),
{
    if s.len() > 0 && trimmed_char(s.last(), bom) {
        strip_end(s.drop_last(), bom)
    } else {
        s
    }
}

/// `s` without trimmed characters at either end.
pub open spec fn strip_both(s: Seq<char>, bom: bool) -> Seq<char> {
    strip_end(strip_start(s, bom), bom)
}

/// Whether every character of `s` is whitespace.
pub open spec fn is_blank(s: Seq<char>) -> bool {
    forall|i: int| 0 <= i < s.len() ==> is_ws(#[trigger] s[i])
}

/// Removes whitespace (or byte-order marks, where `bom`) at both ends of `v`.
pub fn trim_chars(v: &Vec<char>, bom: bool) -> (r: Vec<char>)
    ensures
        r@ == strip_both(v@, bom),
{
    let n = v.len();
    let mut a: usize = 0;
    assert(v@.subrange(0, n as int) =~= v@);
    while a < n && is_trimmed(v[a], bom)
        invariant
            a <= n == v@.len(),
            strip_start(v@, bom) == strip_start(v@.subrange(a as int, n as int), bom),
        decreases n - a,
    {
        assert(v@.subrange(a as int, n as int).drop_first() =~= v@.subrange(
            a as int + 1,
            n as int,
        ));
        a = a + 1;
    }
    let mut b: usize = n;
    proof {
        assert(v@.subrange(a as int, n as int) =~= v@.subrange(a as int, b as int));
    }
    while b > a && is_trimmed(v[b - 1], bom)
        invariant
            a <= b <= n == v@.len(),
            strip_start(v@, bom) == v@.subrange(a as int, n as int),
            strip_both(v@, bom) == strip_end(v@.subrange(a as int, b as int), bom),
        decreases b - a,
    {
        assert(v@.subrange(a as int, b as int).drop_last() =~= v@.subrange(
            a as int,
            b as int - 1,
        ));
        b = b - 1;
    }
    let mut out: Vec<char> = Vec::new();
    let mut i: usize = a;
    while i < b
        invariant
            a <= i <= b <= n == v@.len(),
            out@ == v@.subrange(a as int, i as int),
        decreases b - i,
    {
        out.push(v[i]);
        i = i + 1;
        assert(out@ =~= v@.subrange(a as int, i as int));
    }
    out
}

/// Whether `w` occurs in `s` at index `i`.
pub open spec fn occurs_at(s: Seq<char>, w: Seq<char>, i: int) -> bool {
    0 <= i && i + w.len() <= s.len() && s.subrange(i, i + w.len()) == w
}

/// Whether `w` occurs anywhere in `s`.
pub open spec fn contains(s: Seq<char>, w: Seq<char>) -> bool {
    exists|i: int| occurs_at(s, w, i)
}

/// Whether `s` starts with `w`.
pub open spec fn starts_with(s: Seq<char>, w: Seq<char>) -> bool {
    occurs_at(s, w, 0)
}

pub fn matches_at(s: &Vec<char>, w: &Vec<char>, i: usize) -> (r: bool)
    ensures
        r == occurs_at(s@, w@, i as int),
{
    if i > s.len() || w.len() > s.len() - i {
        return false;
    }
    let mut j: usize = 0;
    while j < w.len()
        invariant
            i + w@.len() <= s.len(),
            j <= w@.len(),
            forall|k: int| 0 <= k < j ==> s@[i + k] == w@[k],
        decreases w@.len() - j,
    {
        if s[i + j] != w[j] {
            assert(s@.subrange(i as int, i + w@.len())[j as int] != w@[j as int]);
            return false;
        }
        j = j + 1;
    }
    assert(s@.subrange(i as int, i + w@.len()) =~= w@);
    true
}

pub fn contains_chars(s: &Vec<char>, w: &Vec<char>) -> (r: bool)
    ensures
        r == contains(s@, w@),
{
    let mut i: usize = 0;
    while i < s.len()
        invariant
            i <= s@.len(),
            forall|k: int| 0 <= k < i ==> !occurs_at(s@, w@, k),
        decreases s@.len() - i,
    {
        if matches_at(s, w, i) {
            return true;
        }
        i = i + 1;
    }
    if matches_at(s, w, i) {
        return true;
    }
    assert forall|k: int| !occurs_at(s@, w@, k) by {
        if 0 <= k && k <= i {
        }
    }
    false
}


/// Whether `a[i..i + k]` and `b[j..j + k]` hold the same characters.
pub fn same_run(a: &Vec<char>, i: usize, b: &Vec<char>, j: usize, k: usize) -> (r: bool)
    requires
        i + k <= a@.len(),
        j + k <= b@.len(),
    ensures
        r == (a@.subrange(i as int, i + k) == b@.subrange(j as int, j + k)),
{
    let mut m: usize = 0;
    while m < k
        invariant
            i + k <= a.len(),
            j + k <= b.len(),
            m <= k,
            forall|x: int| 0 <= x < m ==> #[trigger] a@[i + x] == b@[j + x],
        decreases k - m,
    {
        if a[i + m] != b[j + m] {
            assert(a@.subrange(i as int, i + k)[m as int] != b@.subrange(j as int, j + k)[m as int]);
            return false;
        }
        m = m + 1;
    }
    assert forall|x: int| 0 <= x < k implies #[trigger] a@.subrange(i as int, i + k)[x] == b@.subrange(
        j as int,
        j + k,
    )[x] by {
        assert(a@[i + x] == b@[j + x]);
    }
    assert(a@.subrange(i as int, i + k) =~= b@.subrange(j as int, j + k));
    true
}

/// ASCII letters lowered; every other character kept.
pub open spec fn ascii_lower_char(c: char) -> char {
    if 'A' <= c <= 'Z' {
        ((c as u32) + 32) as char
    } else {
        c
    }
}

pub open spec fn ascii_lower(s: Seq<char>) -> Seq<char> {
    s.map_values(|c: char| ascii_lower_char(c))
}

/// Whether every character of `s` is ASCII.
pub open spec fn all_ascii(s: Seq<char>) -> bool {
    forall|i: int| 0 <= i < s.len() ==> (#[trigger] s[i] as u32) < 128
}

/// The lines of `s[i..]`, where the line being read began at `start`.
pub open spec fn lines_from(s: Seq<char>, start: int, i: int) -> Seq<Seq<char>>
    decreases s.len() - i,
{
    if i >= s.len() {
        if start < s.len() {
            seq![s.subrange(start, s.len() as int)]
        } else {
            seq![]
        }
    } else if s[i] == '\n' {
        let line = if i > start && s[i - 1] == '\r' {
            s.subrange(start, i - 1)
        } else {
            s.subrange(start, i)
        };
        seq![line] + lines_from(s, i + 1, i + 1)
    } else {
        lines_from(s, start, i + 1)
    }
}

/// The lines of `s` as `str::lines` gives them: split at line feeds, a carriage return that
/// ends a line dropped, and no empty line after a final line feed.
pub open spec fn lines(s: Seq<char>) -> Seq<Seq<char>> {
    lines_from(s, 0, 0)
}

/// Splits `v` into its lines.
pub fn split_lines(v: &Vec<char>) -> (r: Vec<Vec<char>>)
    ensures
        r@.map_values(|l: Vec<char>| l@) == lines(v@),
{
    let mut out: Vec<Vec<char>> = Vec::new();
    let mut start: usize = 0;
    let mut i: usize = 0;
    while i < v.len()
        invariant
            start <= i <= v@.len(),
            lines(v@) == out@.map_values(|l: Vec<char>| l@) + lines_from(
                v@,
                start as int,
                i as int,
            ),
        decreases v@.len() - i,
    {
        if v[i] == '\n' {
            let end = if i > start && v[i - 1] == '\r' {
                i - 1
            } else {
                i
            };
            let line = copy_run(v, start, end);
            let ghost before = out@.map_values(|l: Vec<char>| l@);
            out.push(line);
            assert(out@.map_values(|l: Vec<char>| l@) =~= before.push(line@));
            assert(before.push(line@) + lines_from(v@, i + 1, i + 1) =~= before + (seq![line@]
                + lines_from(v@, i + 1, i + 1)));
            start = i + 1;
        }
        i = i + 1;
    }
    if start < v.len() {
        let line = copy_run(v, start, v.len());
        let ghost before = out@.map_values(|l: Vec<char>| l@);
        out.push(line);
        assert(out@.map_values(|l: Vec<char>| l@) =~= before + seq![line@]);
    } else {
        assert(out@.map_values(|l: Vec<char>| l@) + lines_from(v@, start as int, i as int)
            =~= out@.map_values(|l: Vec<char>| l@));
    }
    out
}

/// A copy of `v[from..to]`.
pub fn copy_run(v: &Vec<char>, from: usize, to: usize) -> (r: Vec<char>)
    requires
        from <= to <= v@.len(),
    ensures
        r@ == v@.subrange(from as int, to as int),
{
    let mut out: Vec<char> = Vec::new();
    let mut i: usize = from;
    while i < to
        invariant
            from <= i <= to <= v@.len(),
            out@ == v@.subrange(from as int, i as int),
        decreases to - i,
    {
        out.push(v[i]);
        i = i + 1;
        assert(out@ =~= v@.subrange(from as int, i as int));
    }
    out
}


/// Whether every character of `v` is whitespace.
pub fn all_whitespace(v: &Vec<char>) -> (r: bool)
    ensures
        r == is_blank(v@),
{
    let mut i: usize = 0;
    while i < v.len()
        invariant
            i <= v@.len(),
            forall|j: int| 0 <= j < i ==> is_ws(#[trigger] v@[j]),
        decreases v@.len() - i,
    {
        if !is_whitespace(v[i]) {
            return false;
        }
        i = i + 1;
    }
    true
}


proof fn lemma_strip_start_shape(s: Seq<char>, bom: bool)
    ensures
        strip_start(s, bom).len() == 0 || !trimmed_char(strip_start(s, bom)[0], bom),
        strip_start(strip_start(s, bom), bom) == strip_start(s, bom),
    decreases s.len(),
{
    if s.len() > 0 && trimmed_char(s[0], bom) {
        lemma_strip_start_shape(s.drop_first(), bom);
    }
}

proof fn lemma_strip_end_shape(s: Seq<char>, bom: bool)
    ensures
        strip_end(s, bom).len() <= s.len(),
        strip_end(s, bom) == s.subrange(0, strip_end(s, bom).len() as int),
        strip_end(s, bom).len() == 0 || !trimmed_char(strip_end(s, bom).last(), bom),
    decreases s.len(),
{
    if s.len() > 0 && trimmed_char(s.last(), bom) {
        lemma_strip_end_shape(s.drop_last(), bom);
        let r = strip_end(s.drop_last(), bom);
        assert(s.drop_last().subrange(0, r.len() as int) =~= s.subrange(0, r.len() as int));
    } else {
        assert(s.subrange(0, s.len() as int) =~= s);
    }
}

/// Trimming twice gives what trimming once gives.
pub proof fn lemma_strip_both_idempotent(s: Seq<char>, bom: bool)
    ensures
        strip_both(strip_both(s, bom), bom) == strip_both(s, bom),
{
    let a = strip_start(s, bom);
    let b = strip_end(a, bom);
    lemma_strip_start_shape(s, bom);
    lemma_strip_end_shape(a, bom);
    if b.len() > 0 {
        assert(b[0] == a[0]);
    }
    assert(strip_start(b, bom) == b);
    assert(strip_end(b, bom) == b);
}

} // verus!
