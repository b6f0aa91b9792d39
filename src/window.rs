use vstd::prelude::*;
use vstd::string::*;

use crate::text::push_char;

verus! {

/// Characters of context taken before the cursor.
pub const MAX_PREFIX_CHARS: usize = 2000;

/// Characters of context taken after the cursor.
pub const MAX_SUFFIX_CHARS: usize = 500;

/// The text around a cursor, and what is known of the document it comes from.
pub struct TextWindow {
    pub prefix: String,
    pub suffix: String,
    pub workspace_summary: String,
}

/// Where the window around `cursor` starts.
pub open spec fn window_start(cursor: int) -> int {
    if cursor > MAX_PREFIX_CHARS {
        cursor - MAX_PREFIX_CHARS
    } else {
        0
    }
}

/// Where the window around `cursor` ends, in a text of `len` characters.
pub open spec fn window_end(cursor: int, len: int) -> int {
    if len - cursor > MAX_SUFFIX_CHARS {
        cursor + MAX_SUFFIX_CHARS
    } else {
        len
    }
}

pub open spec fn digit_char(d: nat) -> char {
    seq!['0', '1', '2', '3', '4', '5', '6', '7', '8', '9'][d as int]
}

/// The decimal digits of `n`, most significant first.
pub open spec fn decimal(n: nat) -> Seq<char>
    decreases n,
{
    if n < 10 {
        seq![digit_char(n)]
    } else {
        decimal(n / 10).push(digit_char(n % 10))
    }
}

/// The summary lines of a document: its path, language, tab size and indentation style.
pub open spec fn summary_of(
    path: Option<Seq<char>>,
    language: Option<Seq<char>>,
    tab_size: u32,
    hard_tabs: bool,
) -> Seq<char> {
    "File: "@ + match path {
        Some(p) => p,
        None => "<untitled>"@,
    } + "\nLanguage: "@ + match language {
        Some(l) => l,
        None => "unknown"@,
    } + "\nTab size: "@ + decimal(tab_size as nat) + "\nInsert spaces: "@ + if hard_tabs {
        "false"@
    } else {
        "true"@
    } + "\n"@
}

fn push_decimal(out: &mut String, n: u32)
    ensures
        final(out)@ == old(out)@ + decimal(n as nat),
    decreases n,
{
    if n >= 10 {
        push_decimal(out, n / 10);
    }
    let digits: Vec<char> = vec!['0', '1', '2', '3', '4', '5', '6', '7', '8', '9'];
    let d = (n % 10) as usize;
    push_char(out, digits[d]);
    assert(digits@ =~= seq!['0', '1', '2', '3', '4', '5', '6', '7', '8', '9']);
    if n >= 10 {
        assert(final(out)@ =~= old(out)@ + decimal(n as nat));
    } else {
        assert(final(out)@ =~= old(out)@ + decimal(n as nat));
    }
}

/// The summary of a document for the prompt.
pub fn workspace_summary(
    path: Option<&str>,
    language: Option<&str>,
    tab_size: u32,
    hard_tabs: bool,
) -> (r: String)
    ensures
        r@ == summary_of(
            match path {
                Some(p) => Some(p@),
                None => None,
            },
            match language {
                Some(l) => Some(l@),
                None => None,
            },
            tab_size,
            hard_tabs,
        ),
{
    let mut s = String::from_str("File: ");
    match path {
        Some(p) => s.append(p),
        None => s.append("<untitled>"),
    }
    s.append("\nLanguage: ");
    match language {
        Some(l) => s.append(l),
        None => s.append("unknown"),
    }
    s.append("\nTab size: ");
    push_decimal(&mut s, tab_size);
    s.append("\nInsert spaces: ");
    if hard_tabs {
        s.append("false");
    } else {
        s.append("true");
    }
    s.append("\n");
    s
}

/// The window around the cursor, at most `MAX_PREFIX_CHARS` characters before it and
/// `MAX_SUFFIX_CHARS` after it, with the document's summary.
pub fn collect_context(
    text: &str,
    cursor: usize,
    path: Option<&str>,
    language: Option<&str>,
    tab_size: u32,
    hard_tabs: bool,
) -> (r: TextWindow)
    requires
        cursor <= text@.len(),
    ensures
        r.prefix@ == text@.subrange(window_start(cursor as int), cursor as int),
        r.suffix@ == text@.subrange(cursor as int, window_end(cursor as int, text@.len() as int)),
        r.prefix@.len() <= MAX_PREFIX_CHARS,
        r.suffix@.len() <= MAX_SUFFIX_CHARS,
        r.workspace_summary@ == summary_of(
            match path {
                Some(p) => Some(p@),
                None => None,
            },
            match language {
                Some(l) => Some(l@),
                None => None,
            },
            tab_size,
            hard_tabs,
        ),
{
    let len = text.unicode_len();
    let start = if cursor > MAX_PREFIX_CHARS {
        cursor - MAX_PREFIX_CHARS
    } else {
        0
    };
    let end = if len - cursor > MAX_SUFFIX_CHARS {
        cursor + MAX_SUFFIX_CHARS
    } else {
        len
    };
    let prefix = String::from_str(text.substring_char(start, cursor));
    let suffix = String::from_str(text.substring_char(cursor, end));
    TextWindow {
        prefix,
        suffix,
        workspace_summary: workspace_summary(path, language, tab_size, hard_tabs),
    }
}

} // verus!
