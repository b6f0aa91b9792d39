use vstd::prelude::*;
use vstd::string::*;

use crate::text::{
    all_ascii, all_whitespace, ascii_lower, ascii_lower_char, chars_of, contains, contains_chars,
    copy_run, is_blank, lines, matches_at, split_lines, starts_with, string_of,
};
use crate::window::TextWindow;

verus! {

/// One turn of a chat with the model.
#[derive(Clone, Debug)]
pub enum ChatMessage {
    System { content: String },
    User { content: String },
    Assistant { content: String },
}

/// Lines of the prefix shown in a chat prompt.
pub const PREFIX_LINES: usize = 15;

/// Non-empty lines of the suffix shown in a chat prompt.
pub const SUFFIX_LINES: usize = 3;

/// What `str::to_lowercase` gives for a text.
pub uninterp spec fn lower_of(s: Seq<char>) -> Seq<char>;

/// Relies on `str::to_lowercase`: the Unicode lowercase of the text, which on ASCII text
/// lowers the letters `A` to `Z` and keeps every other character.
#[verifier::external_body]
fn to_lowercase(s: &str) -> (r: String)
    ensures
        r@ == lower_of(s@),
        all_ascii(s@) ==> r@ == ascii_lower(s@),
{
    s.to_lowercase()
}

/// Whether a lowercase model name names a family that takes fill-in-the-middle prompts.
pub open spec fn fim_listed(m: Seq<char>) -> bool {
    contains(m, "codellama"@) || contains(m, "code-llama"@) || contains(m, "deepseek"@)
        || contains(m, "starcoder"@) || contains(m, "codegemma"@) || contains(m, "granite-code"@)
}

/// The fill-in-the-middle prompt for `model`, in the delimiters of its family.
pub open spec fn fim_prompt(model: Seq<char>, prefix: Seq<char>, suffix: Seq<char>) -> Seq<char> {
    if contains(model, "codellama"@) || contains(model, "code-llama"@) {
        "<PRE> "@ + prefix + " <SUF>"@ + suffix + " <MID>"@
    } else if contains(model, "deepseek"@) {
        "<\u{ff5c}fim\u{2581}begin\u{ff5c}>"@ + prefix + "<\u{ff5c}fim\u{2581}hole\u{ff5c}>"@ + suffix
            + "<\u{ff5c}fim\u{2581}end\u{ff5c}>"@
    } else if contains(model, "starcoder"@) {
        "<fim_prefix>"@ + prefix + "<fim_suffix>"@ + suffix + "<fim_middle>"@
    } else {
        "<|fim_prefix|>"@ + prefix + "<|fim_suffix|>"@ + suffix + "<|fim_middle|>"@
    }
}

fn has(m: &Vec<char>, w: &str) -> (r: bool)
    ensures
        r == contains(m@, w@),
{
    let wv = chars_of(w);
    contains_chars(m, &wv)
}

/// Whether the model takes fill-in-the-middle prompts: whether its lowercase name names a
/// listed family.
pub fn supports_fim(model: &str) -> (r: bool)
    ensures
        r == fim_listed(lower_of(model@)),
        all_ascii(model@) ==> r == fim_listed(ascii_lower(model@)),
{
    let lower = to_lowercase(model);
    let m = chars_of(lower.as_str());
    has(&m, "codellama") || has(&m, "code-llama") || has(&m, "deepseek") || has(&m, "starcoder")
        || has(&m, "codegemma") || has(&m, "granite-code")
}

/// Model names that differ only in the case of ASCII letters take the same kind of prompt.
pub proof fn lemma_fim_ignores_ascii_case(a: Seq<char>, b: Seq<char>)
    requires
        all_ascii(a),
        all_ascii(b),
        a.len() == b.len(),
        forall|i: int| 0 <= i < a.len() ==> ascii_lower_char(a[i]) == ascii_lower_char(b[i]),
    ensures
        fim_listed(ascii_lower(a)) == fim_listed(ascii_lower(b)),
{
    assert(ascii_lower(a) =~= ascii_lower(b));
}

/// A listed family stays found when more text surrounds the name: the choice of prompt goes
/// by substring alone.
pub proof fn lemma_fim_listed_in_longer_name(a: Seq<char>, m: Seq<char>, b: Seq<char>)
    requires
        fim_listed(m),
    ensures
        fim_listed(a + m + b),
{
    let s = a + m + b;
    assert forall|w: Seq<char>| contains(m, w) implies contains(s, w) by {
        let i = choose|i: int| crate::text::occurs_at(m, w, i);
        assert(s.subrange(a.len() + i, a.len() + i + w.len()) =~= m.subrange(i, i + w.len()));
        assert(crate::text::occurs_at(s, w, a.len() + i));
    }
}

/// For ASCII names, lowering the longer name keeps the lowered name inside it.
pub proof fn lemma_ascii_lower_concat(a: Seq<char>, m: Seq<char>, b: Seq<char>)
    ensures
        ascii_lower(a + m + b) == ascii_lower(a) + ascii_lower(m) + ascii_lower(b),
{
    assert(ascii_lower(a + m + b) =~= ascii_lower(a) + ascii_lower(m) + ascii_lower(b));
}

/// The single user turn of a fill-in-the-middle prompt.
pub fn build_fim_messages(context: &TextWindow, model: &str) -> (r: Vec<ChatMessage>)
    ensures
        r@.len() == 1,
        r@[0] matches ChatMessage::User { content } && content@ == fim_prompt(
            model@,
            context.prefix@,
            context.suffix@,
        ),
{
    let m = chars_of(model);
    let mut content;
    if has(&m, "codellama") || has(&m, "code-llama") {
        content = String::from_str("<PRE> ");
        content.append(context.prefix.as_str());
        content.append(" <SUF>");
        content.append(context.suffix.as_str());
        content.append(" <MID>");
    } else if has(&m, "deepseek") {
        content = String::from_str("<\u{ff5c}fim\u{2581}begin\u{ff5c}>");
        content.append(context.prefix.as_str());
        content.append("<\u{ff5c}fim\u{2581}hole\u{ff5c}>");
        content.append(context.suffix.as_str());
        content.append("<\u{ff5c}fim\u{2581}end\u{ff5c}>");
    } else if has(&m, "starcoder") {
        content = String::from_str("<fim_prefix>");
        content.append(context.prefix.as_str());
        content.append("<fim_suffix>");
        content.append(context.suffix.as_str());
        content.append("<fim_middle>");
    } else {
        content = String::from_str("<|fim_prefix|>");
        content.append(context.prefix.as_str());
        content.append("<|fim_suffix|>");
        content.append(context.suffix.as_str());
        content.append("<|fim_middle|>");
    }
    vec![ChatMessage::User { content }]
}


/// The lines `ls`, each followed by a line feed.
pub open spec fn joined(ls: Seq<Seq<char>>) -> Seq<char>
    decreases ls.len(),
{
    if ls.len() == 0 {
        seq![]
    } else {
        joined(ls.drop_last()) + ls.last() + seq!['\n']
    }
}

/// The last `n` of the lines `ls`, or all of them if there are fewer.
pub open spec fn last_lines(ls: Seq<Seq<char>>, n: int) -> Seq<Seq<char>> {
    ls.subrange(
        if ls.len() > n {
            ls.len() - n
        } else {
            0
        },
        ls.len() as int,
    )
}

/// The first `n` of the lines `ls`, or all of them if there are fewer.
pub open spec fn first_lines(ls: Seq<Seq<char>>, n: int) -> Seq<Seq<char>> {
    ls.subrange(
        0,
        if ls.len() > n {
            n
        } else {
            ls.len() as int
        },
    )
}

/// The lines `ls` that are not empty, in order.
pub open spec fn non_empty_lines(ls: Seq<Seq<char>>) -> Seq<Seq<char>>
    decreases ls.len(),
{
    if ls.len() == 0 {
        seq![]
    } else if ls.last().len() > 0 {
        non_empty_lines(ls.drop_last()).push(ls.last())
    } else {
        non_empty_lines(ls.drop_last())
    }
}

/// The first of the lines `ls` that starts with the language label.
pub open spec fn language_line(ls: Seq<Seq<char>>) -> Option<Seq<char>>
    decreases ls.len(),
{
    if ls.len() == 0 {
        None
    } else if starts_with(ls[0], "Language:"@) {
        Some(ls[0])
    } else {
        language_line(ls.drop_first())
    }
}

/// The language that a workspace summary names, or `unknown`.
pub open spec fn language_in(summary: Seq<char>) -> Seq<char> {
    match language_line(lines(summary)) {
        Some(l) => if starts_with(l, "Language: "@) {
            l.subrange(10, l.len() as int)
        } else {
            "unknown"@
        },
        None => "unknown"@,
    }
}

/// The instructions given to a chat model.
pub open spec fn system_prompt() -> Seq<char> {
    "You are a code autocompletion engine. Generate ONLY the code to insert at the cursor position. Do not include any explanations, comments about your completion, or markdown formatting. Do not repeat existing code. Focus on completing the current line or block based on context."@
}

/// The user turn of a chat prompt: the language, the last lines before the cursor, a cursor
/// marker, the first non-empty lines after it where any character there is not whitespace,
/// and the request.
pub open spec fn chat_prompt(summary: Seq<char>, prefix: Seq<char>, suffix: Seq<char>) -> Seq<
    char,
> {
    let before = last_lines(lines(prefix), PREFIX_LINES as int);
    let after = first_lines(non_empty_lines(lines(suffix)), SUFFIX_LINES as int);
    "Language: "@ + language_in(summary) + "\n"@ + (if before.len() > 0 {
        "\nCode context before cursor:\n"@ + joined(before)
    } else {
        seq![]
    }) + "\u{2588}  <-- Complete from here\n"@ + (if after.len() > 0 && !is_blank(suffix) {
        "\nCode context after cursor:\n"@ + joined(after)
    } else {
        seq![]
    }) + "\nGenerate only the code that should be inserted at the cursor position.\n"@
}

/// The messages for `model`: a fill-in-the-middle prompt where the model takes one, else
/// the instructions and the chat prompt.
pub open spec fn messages_fit(r: Seq<ChatMessage>, context: TextWindow, model: Seq<char>) -> bool {
    if fim_listed(lower_of(model)) {
        &&& r.len() == 1
        &&& r[0] matches ChatMessage::User { content } && content@ == fim_prompt(
            model,
            context.prefix@,
            context.suffix@,
        )
    } else {
        &&& r.len() == 2
        &&& r[0] matches ChatMessage::System { content } && content@ == system_prompt()
        &&& r[1] matches ChatMessage::User { content } && content@ == chat_prompt(
            context.workspace_summary@,
            context.prefix@,
            context.suffix@,
        )
    }
}

fn append_lines(out: &mut String, ls: &Vec<Vec<char>>, from: usize, to: usize)
    requires
        from <= to <= ls@.len(),
    ensures
        final(out)@ == old(out)@ + joined(
            ls@.map_values(|l: Vec<char>| l@).subrange(from as int, to as int),
        ),
{
    let ghost lv = ls@.map_values(|l: Vec<char>| l@);
    let mut i: usize = from;
    assert(joined(lv.subrange(from as int, from as int)) == Seq::<char>::empty());
    assert(out@ =~= old(out)@ + joined(lv.subrange(from as int, from as int)));
    while i < to
        invariant
            from <= i <= to <= ls@.len(),
            lv == ls@.map_values(|l: Vec<char>| l@),
            out@ == old(out)@ + joined(lv.subrange(from as int, i as int)),
        decreases to - i,
    {
        let line = string_of(&ls[i], 0, ls[i].len());
        assert(ls@[i as int]@.subrange(0, ls@[i as int]@.len() as int) =~= lv[i as int]);
        out.append(line.as_str());
        out.append("\n");
        proof {
            reveal_strlit("\n");
            let next = lv.subrange(from as int, i + 1);
            assert(next.drop_last() =~= lv.subrange(from as int, i as int));
            assert(next.last() == lv[i as int]);
            assert(joined(next) == joined(next.drop_last()) + next.last() + seq!['\n']);
            assert("\n"@ =~= seq!['\n']);
        }
        i = i + 1;
        assert(out@ =~= old(out)@ + joined(lv.subrange(from as int, i as int)));
    }
}

fn non_empty_of(ls: &Vec<Vec<char>>) -> (r: Vec<Vec<char>>)
    ensures
        r@.map_values(|l: Vec<char>| l@) == non_empty_lines(ls@.map_values(|l: Vec<char>| l@)),
{
    let ghost lv = ls@.map_values(|l: Vec<char>| l@);
    let mut out: Vec<Vec<char>> = Vec::new();
    let mut i: usize = 0;
    assert(lv.subrange(0, 0) =~= Seq::<Seq<char>>::empty());
    assert(out@.map_values(|l: Vec<char>| l@) =~= Seq::<Seq<char>>::empty());
    while i < ls.len()
        invariant
            i <= ls@.len(),
            lv == ls@.map_values(|l: Vec<char>| l@),
            out@.map_values(|l: Vec<char>| l@) == non_empty_lines(lv.subrange(0, i as int)),
        decreases ls@.len() - i,
    {
        assert(lv.subrange(0, i + 1).drop_last() =~= lv.subrange(0, i as int));
        assert(lv.subrange(0, i + 1).last() == ls@[i as int]@);
        if ls[i].len() > 0 {
            let line = copy_run(&ls[i], 0, ls[i].len());
            assert(ls@[i as int]@.subrange(0, ls@[i as int]@.len() as int) =~= ls@[i as int]@);
            let ghost before = out@.map_values(|l: Vec<char>| l@);
            out.push(line);
            assert(out@.map_values(|l: Vec<char>| l@) =~= before.push(line@));
        }
        i = i + 1;
    }
    assert(lv.subrange(0, lv.len() as int) =~= lv);
    out
}

fn language_name(summary: &str) -> (r: String)
    ensures
        r@ == language_in(summary@),
{
    let v = chars_of(summary);
    let ls = split_lines(&v);
    let ghost lv = ls@.map_values(|l: Vec<char>| l@);
    let label = chars_of("Language:");
    let labelled = chars_of("Language: ");
    let mut i: usize = 0;
    assert(lv.subrange(0, lv.len() as int) =~= lv);
    while i < ls.len()
        invariant
            i <= ls@.len(),
            lv == ls@.map_values(|l: Vec<char>| l@),
            lv == lines(summary@),
            label@ == "Language:"@,
            labelled@ == "Language: "@,
            language_line(lv) == language_line(lv.subrange(i as int, lv.len() as int)),
        decreases ls@.len() - i,
    {
        assert(lv.subrange(i as int, lv.len() as int).drop_first() =~= lv.subrange(
            i + 1,
            lv.len() as int,
        ));
        assert(lv.subrange(i as int, lv.len() as int)[0] == ls@[i as int]@);
        if matches_at(&ls[i], &label, 0) {
            if matches_at(&ls[i], &labelled, 0) {
                proof {
                    reveal_strlit("Language: ");
                }
                return string_of(&ls[i], 10, ls[i].len());
            }
            return String::from_str("unknown");
        }
        i = i + 1;
    }
    String::from_str("unknown")
}

fn build_chat_prompt(context: &TextWindow) -> (r: String)
    ensures
        r@ == chat_prompt(context.workspace_summary@, context.prefix@, context.suffix@),
{
    let mut content = String::from_str("Language: ");
    let lang = language_name(context.workspace_summary.as_str());
    content.append(lang.as_str());
    content.append("\n");
    let p = chars_of(context.prefix.as_str());
    let pl = split_lines(&p);
    let ghost plv = pl@.map_values(|l: Vec<char>| l@);
    if pl.len() > 0 {
        content.append("\nCode context before cursor:\n");
        let from = if pl.len() > PREFIX_LINES {
            pl.len() - PREFIX_LINES
        } else {
            0
        };
        append_lines(&mut content, &pl, from, pl.len());
    }
    content.append("\u{2588}  <-- Complete from here\n");
    let s = chars_of(context.suffix.as_str());
    let sl = split_lines(&s);
    let ghost slv = sl@.map_values(|l: Vec<char>| l@);
    let kept = non_empty_of(&sl);
    let shown = if kept.len() > SUFFIX_LINES {
        SUFFIX_LINES
    } else {
        kept.len()
    };
    if shown > 0 && !all_whitespace(&s) {
        content.append("\nCode context after cursor:\n");
        append_lines(&mut content, &kept, 0, shown);
    }
    content.append("\nGenerate only the code that should be inserted at the cursor position.\n");
    proof {
        let before = last_lines(lines(context.prefix@), PREFIX_LINES as int);
        let after = first_lines(non_empty_lines(lines(context.suffix@)), SUFFIX_LINES as int);
        assert(before.len() > 0 <==> pl@.len() > 0);
        assert(after.len() > 0 <==> shown > 0);
        assert(content@ =~= chat_prompt(
            context.workspace_summary@,
            context.prefix@,
            context.suffix@,
        ));
    }
    content
}

/// The messages that ask `model` for a completion of the window.
pub fn build_messages(context: &TextWindow, model: &str) -> (r: Vec<ChatMessage>)
    ensures
        messages_fit(r@, *context, model@),
{
    if supports_fim(model) {
        return build_fim_messages(context, model);
    }
    let system = ChatMessage::System {
        content: String::from_str(
            "You are a code autocompletion engine. Generate ONLY the code to insert at the cursor position. Do not include any explanations, comments about your completion, or markdown formatting. Do not repeat existing code. Focus on completing the current line or block based on context.",
        ),
    };
    let user = ChatMessage::User { content: build_chat_prompt(context) };
    vec![system, user]
}

} // verus!
