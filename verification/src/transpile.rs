//! The back half of the pipeline: the parsed program in, Python source out.
//!
//! Transpiling wires the stages together: the lexer splits the source into
//! logical lines, the parser recognizes the NME statements among them, and
//! [`crate::lower`] turns each one into an edit. What happens after parsing
//! lives here: the edits are gathered, every edit is checked to keep its
//! line count, the edits are applied, and a margin shared by every line is
//! taken off.
//!
//! * Pure Python input comes out byte-identical.
//! * NME statements are replaced by Python on the same line, so line
//!   numbers never shift and Python tracebacks stay meaningful.
use vstd::prelude::*;

use crate::diagnostics::{Diagnostic, DiagnosticCode, Span};
use crate::lower::{
    apply_edits, code_text, edit_views, in_order, indent, insert_by_start, is_quote, lower_lines,
    sorted_by_start,
    span_fits, splice, stmt_fits, stmt_text, unquoted_chars, without_leading_quotes,
    without_trailing_quotes,
    Edit, EditView,
};
use crate::syntax::{Code, NmeLine, NmeStmt};
use crate::text::{
    byte_slice, bytes_of, chars_of, is_white_space, lemma_chars_before_bounds,
    lemma_chars_before_monotonic, push, push_byte_slice, push_chars,
    push_repeated, string_of, trim, trim_start, white_space,
};

verus! {

// ------------------------------------------------------------ line breaks

/// How many line breaks `t` holds.
pub open spec fn breaks(t: Seq<char>) -> nat
    decreases t.len(),
{
    if t.len() == 0 {
        0
    } else {
        breaks(t.drop_last()) + if t.last() == '\n' {
            1nat
        } else {
            0nat
        }
    }
}

/// Counts the line breaks in a run of characters.
fn count_line_breaks(t: &[char]) -> (count: usize)
    ensures
        count == breaks(t@),
{
    let mut count: usize = 0;
    let mut i: usize = 0;
    while i < t.len()
        invariant
            0 <= i <= t@.len(),
            count == breaks(t@.take(i as int)),
            count <= i,
        decreases t@.len() - i,
    {
        assert(t@.take(i + 1).drop_last() =~= t@.take(i as int));
        if t[i] == '\n' {
            count = count + 1;
        }
        i = i + 1;
    }
    assert(t@.take(t@.len() as int) =~= t@);
    count
}

// ----------------------------------------------------------------- lines

/// `line` without the `\r` of a `\r\n` line ending.
pub open spec fn without_carriage_return(line: Seq<char>) -> Seq<char> {
    if line.len() > 0 && line.last() == '\r' {
        line.drop_last()
    } else {
        line
    }
}

/// The lines of `t` from `from` on, the line in progress being `current`,
/// as `str::lines` gives them: split at `\n`, a `\r` before the `\n` taken
/// off, and no empty line after a final `\n`.
pub open spec fn lines_from(t: Seq<char>, from: int, current: Seq<char>) -> Seq<Seq<char>>
    decreases t.len() - from,
{
    if from >= t.len() {
        if current.len() == 0 {
            Seq::empty()
        } else {
            seq![current]
        }
    } else if t[from] == '\n' {
        seq![without_carriage_return(current)] + lines_from(t, from + 1, Seq::empty())
    } else {
        lines_from(t, from + 1, current.push(t[from]))
    }
}

/// The lines of `t`, as `str::lines` gives them.
pub open spec fn lines(t: Seq<char>) -> Seq<Seq<char>> {
    lines_from(t, 0, Seq::empty())
}

pub open spec fn views_of(lines: Seq<Vec<char>>) -> Seq<Seq<char>> {
    Seq::new(lines.len(), |i: int| lines[i]@)
}

/// The lines of `t`.
fn split_lines(t: &[char]) -> (found: Vec<Vec<char>>)
    ensures
        views_of(found@) == lines(t@),
{
    let mut found: Vec<Vec<char>> = Vec::new();
    let mut current: Vec<char> = Vec::new();
    let mut i: usize = 0;
    while i < t.len()
        invariant
            0 <= i <= t@.len(),
            views_of(found@) + lines_from(t@, i as int, current@) == lines(t@),
        decreases t@.len() - i,
    {
        if t[i] == '\n' {
            let ghost before = views_of(found@);
            let ghost held = current@;
            let ghost line = without_carriage_return(held);
            assert(lines_from(t@, i as int, held) == seq![line] + lines_from(
                t@,
                i + 1,
                Seq::empty(),
            ));
            if current.len() > 0 && current[current.len() - 1] == '\r' {
                current.pop();
            }
            assert(current@ == line);
            found.push(current);
            current = Vec::new();
            assert(views_of(found@) =~= before + seq![line]);
            assert(current@ =~= Seq::<char>::empty());
            assert(views_of(found@) + lines_from(t@, i + 1, current@) =~= before + lines_from(
                t@,
                i as int,
                held,
            ));
        } else {
            current.push(t[i]);
        }
        i = i + 1;
    }
    if current.len() > 0 {
        let ghost before = views_of(found@);
        let ghost last = current@;
        found.push(current);
        assert(views_of(found@) =~= before + seq![last]);
    } else {
        assert(views_of(found@) + lines_from(t@, i as int, current@) =~= views_of(found@));
    }
    found
}

} // verus!

verus! {

// ---------------------------------------------------------------- margin

/// The white space a line starts with.
pub open spec fn indentation(line: Seq<char>) -> Seq<char> {
    line.take(line.len() - trim_start(line).len())
}

/// How many characters `a` and `b` share from position `k` on, counted from
/// the start.
pub open spec fn common_length(a: Seq<char>, b: Seq<char>, k: int) -> int
    decreases a.len() - k,
{
    if 0 <= k < a.len() && k < b.len() && a[k] == b[k] {
        common_length(a, b, k + 1)
    } else {
        k
    }
}

/// The longest start `a` and `b` have in common.
pub open spec fn common_prefix(a: Seq<char>, b: Seq<char>) -> Seq<char> {
    a.take(common_length(a, b, 0))
}

/// The indentation of every line that holds more than white space.
pub open spec fn written_indents(lines: Seq<Seq<char>>) -> Seq<Seq<char>>
    decreases lines.len(),
{
    if lines.len() == 0 {
        Seq::empty()
    } else if trim(lines.last()).len() > 0 {
        written_indents(lines.drop_last()).push(indentation(lines.last()))
    } else {
        written_indents(lines.drop_last())
    }
}

/// What every indentation starts with: each one folded into the one before.
pub open spec fn shared_start(indents: Seq<Seq<char>>) -> Seq<char>
    decreases indents.len(),
{
    if indents.len() <= 1 {
        if indents.len() == 0 {
            Seq::empty()
        } else {
            indents[0]
        }
    } else {
        common_prefix(shared_start(indents.drop_last()), indents.last())
    }
}

/// Three of `q` in a row somewhere in `t`.
pub open spec fn has_triple(t: Seq<char>, q: char) -> bool {
    exists|i: int| 0 <= i && i + 3 <= t.len() && #[trigger] t[i] == q && t[i + 1] == q && t[i + 2] == q
}

/// One line with the margin taken off; a line that does not start with it
/// (one that holds only white space) loses its white space instead.
pub open spec fn without_margin_line(line: Seq<char>, margin: Seq<char>) -> Seq<char> {
    if margin.len() <= line.len() && line.take(margin.len() as int) == margin {
        line.skip(margin.len() as int)
    } else {
        trim_start(line)
    }
}

/// The lines, each without the margin, joined with `\n`.
pub open spec fn joined_without_margin(lines: Seq<Seq<char>>, margin: Seq<char>) -> Seq<char>
    decreases lines.len(),
{
    if lines.len() == 0 {
        Seq::empty()
    } else if lines.len() == 1 {
        without_margin_line(lines[0], margin)
    } else {
        joined_without_margin(lines.drop_last(), margin) + seq!['\n'] + without_margin_line(
            lines.last(),
            margin,
        )
    }
}

/// The margin every written line of `t` starts with; empty when there is
/// none to take.
pub open spec fn margin_of(t: Seq<char>) -> Seq<char> {
    shared_start(written_indents(lines(t)))
}

/// The program with the space every line of it starts with taken off.
///
/// Only a program whose first character is a space or a tab, and that holds
/// no triple-quoted string, is touched: a triple-quoted string may carry its
/// own indentation as data.
pub open spec fn without_the_margin(t: Seq<char>) -> Seq<char> {
    let margin = margin_of(t);
    if !(t.len() > 0 && (t[0] == ' ' || t[0] == '\t')) || has_triple(t, '"') || has_triple(t, '\'')
        || margin.len() == 0 {
        t
    } else {
        joined_without_margin(lines(t), margin) + if t.last() == '\n' {
            seq!['\n']
        } else {
            Seq::empty()
        }
    }
}

fn has_triple_of(t: &[char], q: char) -> (found: bool)
    ensures
        found == has_triple(t@, q),
{
    if t.len() < 3 {
        return false;
    }
    let mut i: usize = 0;
    while i <= t.len() - 3
        invariant
            t@.len() >= 3,
            i <= t@.len() - 2,
            forall|j: int| 0 <= j < i && j + 3 <= t@.len() ==> !(#[trigger] t@[j] == q && t@[j + 1]
                == q && t@[j + 2] == q),
        decreases t@.len() - i,
    {
        if t[i] == q && t[i + 1] == q && t[i + 2] == q {
            return true;
        }
        i = i + 1;
    }
    proof {
        assert forall|j: int| 0 <= j && j + 3 <= t@.len() implies !(#[trigger] t@[j] == q && t@[j
            + 1] == q && t@[j + 2] == q) by {
            assert(j < i);
        }
    }
    false
}

/// The white space a line starts with.
fn indentation_of(line: &[char]) -> (found: Vec<char>)
    ensures
        found@ == indentation(line@),
{
    let mut k: usize = 0;
    while k < line.len() && is_white_space(line[k])
        invariant
            0 <= k <= line@.len(),
            forall|j: int| 0 <= j < k ==> white_space(#[trigger] line@[j]),
        decreases line@.len() - k,
    {
        k = k + 1;
    }
    proof {
        lemma_trim_start_skips(line@, k as int);
    }
    let mut found: Vec<char> = Vec::new();
    let mut j: usize = 0;
    while j < k
        invariant
            0 <= j <= k <= line@.len(),
            found@ == line@.take(j as int),
        decreases k - j,
    {
        found.push(line[j]);
        j = j + 1;
        assert(found@ =~= line@.take(j as int));
    }
    found
}

/// `trim_start` drops exactly the white space at the start.
proof fn lemma_trim_start_skips(s: Seq<char>, k: int)
    requires
        0 <= k <= s.len(),
        forall|j: int| 0 <= j < k ==> white_space(#[trigger] s[j]),
        k == s.len() || !white_space(s[k]),
    ensures
        trim_start(s) == s.skip(k),
    decreases k,
{
    if k == 0 {
        assert(s.skip(0) =~= s);
    } else {
        let rest = s.drop_first();
        assert forall|j: int| 0 <= j < k - 1 implies white_space(#[trigger] rest[j]) by {
            assert(rest[j] == s[j + 1]);
        }
        lemma_trim_start_skips(rest, k - 1);
        assert(rest.skip(k - 1) =~= s.skip(k));
    }
}

/// Whether a line holds more than white space.
fn is_written(line: &[char]) -> (written: bool)
    ensures
        written == (trim(line@).len() > 0),
{
    let mut k: usize = 0;
    while k < line.len() && is_white_space(line[k])
        invariant
            0 <= k <= line@.len(),
            forall|j: int| 0 <= j < k ==> white_space(#[trigger] line@[j]),
        decreases line@.len() - k,
    {
        k = k + 1;
    }
    proof {
        lemma_trim_start_skips(line@, k as int);
        lemma_trim_end_keeps(line@.skip(k as int));
    }
    k < line.len()
}

/// Trimming the end of a text that starts with a written character leaves
/// something.
proof fn lemma_trim_end_keeps(s: Seq<char>)
    requires
        s.len() == 0 || !white_space(s[0]),
    ensures
        (crate::text::trim_end(s).len() > 0) == (s.len() > 0),
    decreases s.len(),
{
    if s.len() > 1 && white_space(s.last()) {
        lemma_trim_end_keeps(s.drop_last());
    }
}

/// The longest start two runs of characters have in common.
fn common_start(a: &[char], b: &[char]) -> (shared: Vec<char>)
    ensures
        shared@ == common_prefix(a@, b@),
{
    let mut k: usize = 0;
    while k < a.len() && k < b.len() && a[k] == b[k]
        invariant
            0 <= k <= a@.len(),
            common_length(a@, b@, 0) == common_length(a@, b@, k as int),
        decreases a@.len() - k,
    {
        k = k + 1;
    }
    let mut shared: Vec<char> = Vec::new();
    let mut j: usize = 0;
    while j < k
        invariant
            0 <= j <= k <= a@.len(),
            k == common_length(a@, b@, 0),
            shared@ == a@.take(j as int),
        decreases k - j,
    {
        shared.push(a[j]);
        j = j + 1;
        assert(shared@ =~= a@.take(j as int));
    }
    shared
}

} // verus!

verus! {

/// Whether `line` starts with `margin`.
fn starts_with_chars(line: &[char], margin: &[char]) -> (starts: bool)
    ensures
        starts == (margin@.len() <= line@.len() && line@.take(margin@.len() as int) == margin@),
{
    if margin.len() > line.len() {
        return false;
    }
    let mut k: usize = 0;
    while k < margin.len()
        invariant
            0 <= k <= margin@.len() <= line@.len(),
            line@.take(k as int) == margin@.take(k as int),
        decreases margin@.len() - k,
    {
        if line[k] != margin[k] {
            assert(line@.take(margin@.len() as int)[k as int] != margin@[k as int]);
            return false;
        }
        k = k + 1;
        assert(line@.take(k as int) =~= margin@.take(k as int));
    }
    assert(margin@.take(margin@.len() as int) =~= margin@);
    true
}

/// Appends one line with the margin taken off.
fn push_without_margin(out: &mut String, line: &[char], margin: &[char])
    ensures
        final(out)@ == old(out)@ + without_margin_line(line@, margin@),
{
    let ghost start = out@;
    if starts_with_chars(line, margin) {
        let mut k = margin.len();
        while k < line.len()
            invariant
                margin@.len() <= k <= line@.len(),
                out@ == start + line@.subrange(margin@.len() as int, k as int),
            decreases line@.len() - k,
        {
            push(out, line[k]);
            k = k + 1;
            assert(out@ =~= start + line@.subrange(margin@.len() as int, k as int));
        }
        assert(line@.subrange(margin@.len() as int, line@.len() as int) =~= line@.skip(
            margin@.len() as int,
        ));
    } else {
        let mut k: usize = 0;
        while k < line.len() && is_white_space(line[k])
            invariant
                0 <= k <= line@.len(),
                forall|j: int| 0 <= j < k ==> white_space(#[trigger] line@[j]),
            decreases line@.len() - k,
        {
            k = k + 1;
        }
        proof {
            lemma_trim_start_skips(line@, k as int);
        }
        let first = k;
        while k < line.len()
            invariant
                first <= k <= line@.len(),
                out@ == start + line@.subrange(first as int, k as int),
            decreases line@.len() - k,
        {
            push(out, line[k]);
            k = k + 1;
            assert(out@ =~= start + line@.subrange(first as int, k as int));
        }
        assert(line@.subrange(first as int, line@.len() as int) =~= line@.skip(first as int));
    }
}

/// The program with the space every line of it starts with taken off.
///
/// A block of text copied out of a page, and a program typed into an editor
/// that was already one step in, both arrive with every line indented. The
/// Python it lowers to keeps the same left margin, and CPython refuses an
/// indented first statement. Only whitespace shared by every line that has
/// anything on it is taken, so nothing inside the program moves relative to
/// anything else. A triple-quoted string may carry its own indentation as
/// data, so a program holding one is left exactly as it is.
pub fn without_the_left_margin(python: &str) -> (margin_free: String)
    ensures
        margin_free@ == without_the_margin(python@),
{
    let t = chars_of(python);
    let starts = t.len() > 0 && (t[0] == ' ' || t[0] == '\t');
    if !starts || has_triple_of(t.as_slice(), '"') || has_triple_of(t.as_slice(), '\'') {
        return string_of(t.as_slice());
    }
    let found = split_lines(t.as_slice());
    let ghost all = views_of(found@);
    let mut margin: Vec<char> = Vec::new();
    let mut seen = false;
    let mut k: usize = 0;
    while k < found.len()
        invariant
            0 <= k <= found@.len(),
            all == views_of(found@),
            margin@ == shared_start(written_indents(all.take(k as int))),
            seen == (written_indents(all.take(k as int)).len() > 0),
        decreases found@.len() - k,
    {
        proof {
            assert(all.take(k + 1).drop_last() =~= all.take(k as int));
            assert(all.take(k + 1).last() == found@[k as int]@);
        }
        if is_written(found[k].as_slice()) {
            let ind = indentation_of(found[k].as_slice());
            let ghost before = written_indents(all.take(k as int));
            assert(written_indents(all.take(k + 1)) == before.push(ind@));
            assert(before.push(ind@).drop_last() =~= before);
            if !seen {
                margin = ind;
                seen = true;
            } else {
                margin = common_start(margin.as_slice(), ind.as_slice());
            }
        }
        k = k + 1;
    }
    assert(all.take(all.len() as int) =~= all);
    if margin.len() == 0 {
        return string_of(t.as_slice());
    }
    let mut out = String::new();
    let mut j: usize = 0;
    while j < found.len()
        invariant
            0 <= j <= found@.len(),
            all == views_of(found@),
            out@ == joined_without_margin(all.take(j as int), margin@),
        decreases found@.len() - j,
    {
        proof {
            assert(all.take(j + 1).drop_last() =~= all.take(j as int));
            assert(all.take(j + 1).last() == found@[j as int]@);
            if j == 0 {
                assert(all.take(1)[0] == found@[0]@);
            }
        }
        if j > 0 {
            push(&mut out, '\n');
        }
        push_without_margin(&mut out, found[j].as_slice(), margin.as_slice());
        j = j + 1;
    }
    if t[t.len() - 1] == '\n' {
        push(&mut out, '\n');
    } else {
        assert(out@ + Seq::<char>::empty() =~= out@);
    }
    out
}

} // verus!

verus! {

// -------------------------------------------------------------- assembly

/// A `.nme` module import discovered while transpiling: the other file's
/// path and the explicit names that form its interface.
#[derive(Debug, Clone, PartialEq, Eq)]
pub struct ModuleImport {
    /// Path as written, quotes stripped (for example `helper.nme`).
    pub file: String,
    /// The names this file imports from the module.
    pub names: Vec<String>,
}

/// What the parser finds in a program, as far as turning it into Python
/// needs it.
pub struct ParsedProgram {
    /// The recognized NME statements, one per logical line that holds one.
    pub nme_lines: Vec<NmeLine>,
    /// A blank line inside a story block prints an empty line. It has no
    /// tokens, so the parser reports its exact place and the line it becomes.
    pub story_blank_lines: Vec<(Span, String)>,
    /// How many levels of indentation each logical line is given, whether
    /// or not it holds an NME statement.
    pub virtual_indents: Vec<usize>,
}

/// The edit each recognized statement becomes.
pub open spec fn statement_edits(lines: Seq<NmeLine>, s: Seq<char>) -> Seq<EditView> {
    Seq::new(
        lines.len(),
        |i: int| (lines[i].span, indent(lines[i].virtual_indent as nat) + stmt_text(lines[i].stmt, s)),
    )
}

/// The edit each blank line of a story becomes.
pub open spec fn blank_line_edits(blanks: Seq<(Span, String)>) -> Seq<EditView> {
    Seq::new(blanks.len(), |i: int| (blanks[i].0, blanks[i].1@))
}

/// Whether logical line `index` holds a recognized statement.
pub open spec fn is_statement_line(lines: Seq<NmeLine>, index: int) -> bool {
    exists|i: int| 0 <= i < lines.len() && #[trigger] lines[i].line_index == index
}

/// The indentation put in front of every other logical line that is given
/// some: an empty span at the start of the line.
pub open spec fn indent_edits(spans: Seq<Span>, levels: Seq<usize>, lines: Seq<NmeLine>) -> Seq<
    EditView,
>
    decreases spans.len(),
{
    if spans.len() == 0 {
        Seq::empty()
    } else {
        let k = spans.len() - 1;
        let rest = indent_edits(spans.drop_last(), levels, lines);
        if levels[k] == 0 || is_statement_line(lines, k) {
            rest
        } else {
            rest.push((Span { start: spans[k].start, end: spans[k].start }, indent(levels[k] as nat)))
        }
    }
}

/// Every edit transpiling makes, in the order it gathers them.
pub open spec fn all_edits(s: Seq<char>, spans: Seq<Span>, program: ParsedProgram) -> Seq<EditView> {
    statement_edits(program.nme_lines@, s) + blank_line_edits(program.story_blank_lines@)
        + indent_edits(spans, program.virtual_indents@, program.nme_lines@)
}

/// Whether an edit would change how many lines its span covers.
pub open spec fn changes_its_lines(edit: EditView, s: Seq<char>) -> bool {
    breaks(byte_slice(s, edit.0.start as int, edit.0.end as int)) != breaks(edit.1)
}

/// The spans of the edits that would change their line count, in order.
pub open spec fn unkept_spans(edits: Seq<EditView>, s: Seq<char>) -> Seq<Span>
    decreases edits.len(),
{
    if edits.len() == 0 {
        Seq::empty()
    } else if changes_its_lines(edits.last(), s) {
        unkept_spans(edits.drop_last(), s).push(edits.last().0)
    } else {
        unkept_spans(edits.drop_last(), s)
    }
}

/// The refusal of an easy statement that does not stay on one line.
pub open spec fn is_multiline_problem(problem: Diagnostic, span: Span) -> bool {
    &&& problem.code == DiagnosticCode::MultilineSentence
    &&& problem.span == span
    &&& problem.message@ == "sentence-style NME must stay on one physical line"@
    &&& problem.message_ko matches Some(korean) && korean@ == "문장형 NME 한 문장은 실제 한 줄 안에 써야 합니다"@
    &&& problem.hint matches Some(hint) && hint@
        == "keep this easy statement on one line; multiline Python expressions remain supported"@
    &&& problem.hint_ko matches Some(hint_ko) && hint_ko@
        == "이 쉬운 문장은 한 줄에 쓰세요. 여러 줄 Python 표현식은 그대로 지원합니다"@
}

/// The module imports among the statements, in order: the path with its
/// quotes taken off, and the names. A path the compiler wrote itself is not
/// an import of a file.
pub open spec fn imports_of(lines: Seq<NmeLine>, s: Seq<char>) -> Seq<(Seq<char>, Seq<String>)>
    decreases lines.len(),
{
    if lines.len() == 0 {
        Seq::empty()
    } else {
        let rest = imports_of(lines.drop_last(), s);
        match lines.last().stmt {
            NmeStmt::ModuleImport { path: Code::Source(span), names } => rest.push(
                (
                    without_trailing_quotes(
                        without_leading_quotes(byte_slice(s, span.start as int, span.end as int)),
                    ),
                    names@,
                ),
            ),
            _ => rest,
        }
    }
}

/// Whether the imports found are the model's, one for one.
pub open spec fn imports_match(found: Seq<ModuleImport>, model: Seq<(Seq<char>, Seq<String>)>) -> bool {
    found.len() == model.len() && forall|i: int|
        0 <= i < found.len() ==> (#[trigger] found[i]).file@ == model[i].0 && found[i].names@
            == model[i].1
}

/// What a parsed program needs for its edits to be made: every span lies on
/// the source's character boundaries, every statement fits the source, and
/// every indentation can be written out.
pub open spec fn parsed_fits(s: Seq<char>, spans: Seq<Span>, program: ParsedProgram) -> bool {
    &&& program.virtual_indents@.len() >= spans.len()
    &&& forall|i: int| 0 <= i < spans.len() ==> span_fits(#[trigger] spans[i], s)
    &&& forall|i: int|
        0 <= i < spans.len() && program.virtual_indents@[i] != 0 && !is_statement_line(
            program.nme_lines@,
            i,
        ) ==> 4 * #[trigger] program.virtual_indents@[i] <= usize::MAX
    &&& forall|i: int|
        0 <= i < program.nme_lines@.len() ==> stmt_fits(#[trigger] program.nme_lines@[i].stmt, s)
            && span_fits(program.nme_lines@[i].span, s) && 4 * program.nme_lines@[i].virtual_indent
            <= usize::MAX
    &&& forall|i: int|
        0 <= i < program.story_blank_lines@.len() ==> span_fits(
            #[trigger] program.story_blank_lines@[i].0,
            s,
        )
}

} // verus!

verus! {

/// The characters of `s` between two byte offsets.
fn byte_chars(s: &[char], span: Span) -> (text: Vec<char>)
    requires
        bytes_of(s@) <= usize::MAX,
        span.start <= span.end,
    ensures
        text@ == byte_slice(s@, span.start as int, span.end as int),
{
    let mut written = String::new();
    push_byte_slice(&mut written, s, span.start, span.end);
    chars_of(written.as_str())
}

/// The module imports among the statements.
fn gather_imports(lines: &Vec<NmeLine>, src: &[char]) -> (imports: Vec<ModuleImport>)
    requires
        bytes_of(src@) <= usize::MAX,
        forall|i: int| 0 <= i < lines@.len() ==> stmt_fits(#[trigger] lines@[i].stmt, src@),
    ensures
        imports_match(imports@, imports_of(lines@, src@)),
{
    let mut imports: Vec<ModuleImport> = Vec::new();
    let mut i: usize = 0;
    while i < lines.len()
        invariant
            0 <= i <= lines@.len(),
            bytes_of(src@) <= usize::MAX,
            forall|j: int| 0 <= j < lines@.len() ==> stmt_fits(#[trigger] lines@[j].stmt, src@),
            imports_match(imports@, imports_of(lines@.take(i as int), src@)),
        decreases lines@.len() - i,
    {
        proof {
            assert(lines@.take(i + 1).drop_last() =~= lines@.take(i as int));
            assert(lines@.take(i + 1).last() == lines@[i as int]);
        }
        match &lines[i].stmt {
            NmeStmt::ModuleImport { path: Code::Source(span), names } => {
                assert(stmt_fits(lines@[i as int].stmt, src@));
                let raw = byte_chars(src, *span);
                let file = unquoted_chars(raw.as_slice());
                let copied = names.clone();
                assert(copied@ =~= names@);
                imports.push(ModuleImport { file: string_of(file.as_slice()), names: copied });
            },
            _ => {},
        }
        i = i + 1;
    }
    assert(lines@.take(lines@.len() as int) =~= lines@);
    imports
}

} // verus!

verus! {

/// Whether logical line `index` holds a recognized statement.
fn is_statement_index(lines: &Vec<NmeLine>, index: usize) -> (found: bool)
    ensures
        found == is_statement_line(lines@, index as int),
{
    let mut i: usize = 0;
    while i < lines.len()
        invariant
            0 <= i <= lines@.len(),
            forall|j: int| 0 <= j < i ==> (#[trigger] lines@[j]).line_index != index,
        decreases lines@.len() - i,
    {
        if lines[i].line_index == index {
            return true;
        }
        i = i + 1;
    }
    false
}

/// Every edit transpiling makes: the statements, the blank story lines,
/// then the indentation of every other line that is given some.
fn gather_edits(source: &str, src: &[char], spans: &[Span], program: &ParsedProgram) -> (edits: Vec<
    Edit,
>)
    requires
        src@ == source@,
        bytes_of(src@) <= usize::MAX,
        parsed_fits(source@, spans@, *program),
    ensures
        edit_views(edits@) == all_edits(source@, spans@, *program),
        forall|i: int| 0 <= i < edits@.len() ==> span_fits(#[trigger] edits@[i].span, source@),
{
    let ghost s = source@;
    let ghost statements = statement_edits(program.nme_lines@, s);
    let ghost blanks = blank_line_edits(program.story_blank_lines@);
    assert forall|i: int| 0 <= i < program.nme_lines@.len() implies 4
        * #[trigger] program.nme_lines@[i].virtual_indent <= usize::MAX by {
        assert(stmt_fits(program.nme_lines@[i].stmt, s));
    }
    let mut edits = lower_lines(program.nme_lines.as_slice(), source);
    assert(edit_views(edits@) =~= statements);
    let mut i: usize = 0;
    while i < program.story_blank_lines.len()
        invariant
            0 <= i <= program.story_blank_lines@.len(),
            parsed_fits(s, spans@, *program),
            edit_views(edits@) == statements + blank_line_edits(
                program.story_blank_lines@.take(i as int),
            ),
            forall|j: int| 0 <= j < edits@.len() ==> span_fits(#[trigger] edits@[j].span, s),
        decreases program.story_blank_lines@.len() - i,
    {
        let (span, replacement) = &program.story_blank_lines[i];
        let ghost before = edit_views(edits@);
        edits.push(Edit { span: *span, replacement: replacement.clone() });
        assert(blank_line_edits(program.story_blank_lines@.take(i + 1)) =~= blank_line_edits(
            program.story_blank_lines@.take(i as int),
        ).push((*span, replacement@)));
        assert(edit_views(edits@) =~= before.push((*span, replacement@)));
        i = i + 1;
    }
    assert(program.story_blank_lines@.take(program.story_blank_lines@.len() as int)
        =~= program.story_blank_lines@);
    let mut index: usize = 0;
    while index < spans.len()
        invariant
            0 <= index <= spans@.len(),
            parsed_fits(s, spans@, *program),
            edit_views(edits@) == statements + blanks + indent_edits(
                spans@.take(index as int),
                program.virtual_indents@,
                program.nme_lines@,
            ),
            forall|j: int| 0 <= j < edits@.len() ==> span_fits(#[trigger] edits@[j].span, s),
        decreases spans@.len() - index,
    {
        proof {
            assert(spans@.take(index + 1).drop_last() =~= spans@.take(index as int));
            assert(spans@.take(index + 1)[index as int] == spans@[index as int]);
        }
        let level = program.virtual_indents[index];
        if level != 0 && !is_statement_index(&program.nme_lines, index) {
            let start = spans[index].start;
            let mut replacement = String::new();
            push_repeated(&mut replacement, ' ', 4 * level);
            assert(Seq::new((4 * level) as nat, |_j: int| ' ') =~= indent(level as nat));
            let ghost before = edit_views(edits@);
            let span = Span::new(start, start);
            assert(span_fits(spans@[index as int], s));
            edits.push(Edit { span, replacement });
            assert(edit_views(edits@) =~= before.push((span, indent(level as nat))));
        }
        index = index + 1;
    }
    assert(spans@.take(spans@.len() as int) =~= spans@);
    edits
}

} // verus!

verus! {

/// One refusal for every edit that would change how many lines its span
/// covers.
fn line_count_problems(src: &[char], edits: &Vec<Edit>) -> (problems: Vec<Diagnostic>)
    requires
        bytes_of(src@) <= usize::MAX,
        forall|i: int| 0 <= i < edits@.len() ==> span_fits(#[trigger] edits@[i].span, src@),
    ensures
        problems@.len() == unkept_spans(edit_views(edits@), src@).len(),
        forall|i: int|
            0 <= i < problems@.len() ==> is_multiline_problem(
                #[trigger] problems@[i],
                unkept_spans(edit_views(edits@), src@)[i],
            ),
{
    let ghost all = edit_views(edits@);
    let mut problems: Vec<Diagnostic> = Vec::new();
    let mut i: usize = 0;
    while i < edits.len()
        invariant
            0 <= i <= edits@.len(),
            all == edit_views(edits@),
            bytes_of(src@) <= usize::MAX,
            forall|j: int| 0 <= j < edits@.len() ==> span_fits(#[trigger] edits@[j].span, src@),
            problems@.len() == unkept_spans(all.take(i as int), src@).len(),
            forall|j: int|
                0 <= j < problems@.len() ==> is_multiline_problem(
                    #[trigger] problems@[j],
                    unkept_spans(all.take(i as int), src@)[j],
                ),
        decreases edits@.len() - i,
    {
        let edit = &edits[i];
        proof {
            assert(all.take(i + 1).drop_last() =~= all.take(i as int));
            assert(all.take(i + 1).last() == (edit.span, edit.replacement@));
            assert(span_fits(edits@[i as int].span, src@));
        }
        let covered = byte_chars(src, edit.span);
        let written = chars_of(edit.replacement.as_str());
        if count_line_breaks(covered.as_slice()) != count_line_breaks(written.as_slice()) {
            let problem = Diagnostic::bilingual(
                DiagnosticCode::MultilineSentence,
                "sentence-style NME must stay on one physical line",
                "문장형 NME 한 문장은 실제 한 줄 안에 써야 합니다",
                Span::new(edit.span.start, edit.span.end),
            ).with_bilingual_hint(
                "keep this easy statement on one line; multiline Python expressions remain supported",
                "이 쉬운 문장은 한 줄에 쓰세요. 여러 줄 Python 표현식은 그대로 지원합니다",
            );
            problems.push(problem);
        }
        i = i + 1;
    }
    assert(all.take(all.len() as int) =~= all);
    problems
}

/// Turns a parsed program into Python, and reports every
/// `from "module.nme" import ...` so those modules can be transpiled too and
/// made importable at run time.
///
/// Every NME statement is one physical Python line. An edit that would
/// change how many lines its span covers is refused with a named problem,
/// every such edit at once; otherwise the edits are applied and a margin
/// every line shares is taken off.
pub fn transpile_parsed_program(source: &str, line_spans: &[Span], program: &ParsedProgram) -> (result:
    Result<(String, Vec<ModuleImport>), Vec<Diagnostic>>)
    requires
        parsed_fits(source@, line_spans@, *program),
        unkept_spans(all_edits(source@, line_spans@, *program), source@).len() == 0 ==> in_order(
            sorted_by_start(all_edits(source@, line_spans@, *program)),
        ),
    ensures
        match result {
            Ok((python, imports)) => {
                &&& unkept_spans(all_edits(source@, line_spans@, *program), source@).len() == 0
                &&& python@ == without_the_margin(
                    splice(source@, sorted_by_start(all_edits(source@, line_spans@, *program)), 0),
                )
                &&& imports_match(imports@, imports_of(program.nme_lines@, source@))
            },
            Err(problems) => {
                let unkept = unkept_spans(all_edits(source@, line_spans@, *program), source@);
                &&& unkept.len() > 0
                &&& problems@.len() == unkept.len()
                &&& forall|i: int|
                    0 <= i < problems@.len() ==> is_multiline_problem(
                        #[trigger] problems@[i],
                        unkept[i],
                    )
            },
        },
{
    let src = chars_of(source);
    assert forall|i: int| 0 <= i < program.nme_lines@.len() implies stmt_fits(
        #[trigger] program.nme_lines@[i].stmt,
        src@,
    ) by {}
    let imports = gather_imports(&program.nme_lines, src.as_slice());
    let edits = gather_edits(source, src.as_slice(), line_spans, program);
    let problems = line_count_problems(src.as_slice(), &edits);
    if problems.len() > 0 {
        return Err(problems);
    }
    let applied = apply_edits(source, edits.as_slice());
    Ok((without_the_left_margin(applied.as_str()), imports))
}

} // verus!

verus! {

// ------------------------------------------------------------------ laws

proof fn lemma_breaks_concat(a: Seq<char>, b: Seq<char>)
    ensures
        breaks(a + b) == breaks(a) + breaks(b),
    decreases b.len(),
{
    if b.len() == 0 {
        assert(a + b =~= a);
    } else {
        lemma_breaks_concat(a, b.drop_last());
        assert((a + b).drop_last() =~= a + b.drop_last());
        assert((a + b).last() == b.last());
    }
}

/// Two neighbouring byte slices make the slice that spans both.
proof fn lemma_byte_slices_join(s: Seq<char>, x: int, y: int, z: int)
    requires
        0 <= x <= y <= z,
    ensures
        byte_slice(s, x, y) + byte_slice(s, y, z) == byte_slice(s, x, z),
{
    lemma_chars_before_monotonic(s, x, y);
    lemma_chars_before_monotonic(s, y, z);
    lemma_chars_before_bounds(s, z);
    assert(byte_slice(s, x, y) + byte_slice(s, y, z) =~= byte_slice(s, x, z));
}

/// Applying edits that each keep their line count keeps the line count of
/// the text from `cursor` on.
proof fn lemma_splice_breaks(s: Seq<char>, edits: Seq<EditView>, cursor: int)
    requires
        forall|k: int|
            0 <= k < edits.len() ==> span_fits((#[trigger] edits[k]).0, s) && !changes_its_lines(
                edits[k],
                s,
            ),
        in_order(edits),
        0 <= cursor <= bytes_of(s),
        edits.len() > 0 ==> cursor <= edits[0].0.start,
    ensures
        breaks(splice(s, edits, cursor)) == breaks(byte_slice(s, cursor, bytes_of(s) as int)),
    decreases edits.len(),
{
    if edits.len() > 0 {
        let e = edits[0];
        let rest = edits.drop_first();
        assert(span_fits(e.0, s) && !changes_its_lines(e, s));
        assert forall|k: int| 0 <= k < rest.len() implies span_fits((#[trigger] rest[k]).0, s)
            && !changes_its_lines(rest[k], s) by {
            assert(rest[k] == edits[k + 1]);
        }
        assert forall|k: int| 0 <= k < rest.len() - 1 implies #[trigger] rest[k].0.end <= rest[k
            + 1].0.start by {
            assert(rest[k] == edits[k + 1]);
            assert(rest[k + 1] == edits[k + 2]);
            assert(edits[k + 1].0.end <= edits[(k + 1) + 1].0.start);
        }
        if rest.len() > 0 {
            assert(edits[0int].0.end <= edits[0int + 1].0.start);
        }
        lemma_splice_breaks(s, rest, e.0.end as int);
        let before = byte_slice(s, cursor, e.0.start as int);
        let covered = byte_slice(s, e.0.start as int, e.0.end as int);
        let after = byte_slice(s, e.0.end as int, bytes_of(s) as int);
        lemma_breaks_concat(before, e.1);
        lemma_breaks_concat(before + e.1, splice(s, rest, e.0.end as int));
        lemma_byte_slices_join(s, cursor, e.0.start as int, e.0.end as int);
        lemma_byte_slices_join(s, cursor, e.0.end as int, bytes_of(s) as int);
        lemma_breaks_concat(before, covered);
        lemma_breaks_concat(before + covered, after);
    }
}

/// Every edit of the sorted list is one of the edits given.
proof fn lemma_insert_members(sorted: Seq<EditView>, e: EditView)
    ensures
        insert_by_start(sorted, e).len() == sorted.len() + 1,
        forall|k: int|
            0 <= k < insert_by_start(sorted, e).len() ==> #[trigger] insert_by_start(sorted, e)[k]
                == e || sorted.contains(insert_by_start(sorted, e)[k]),
    decreases sorted.len(),
{
    if sorted.len() > 0 && sorted.last().0.start > e.0.start {
        let rest = sorted.drop_last();
        lemma_insert_members(rest, e);
        let inserted = insert_by_start(sorted, e);
        assert forall|k: int| 0 <= k < inserted.len() implies #[trigger] inserted[k] == e
            || sorted.contains(inserted[k]) by {
            if k < inserted.len() - 1 {
                let x = insert_by_start(rest, e)[k];
                if x != e {
                    let j = choose|j: int| 0 <= j < rest.len() && rest[j] == x;
                    assert(sorted[j] == x);
                }
            } else {
                assert(sorted[sorted.len() - 1] == inserted[k]);
            }
        }
    } else if sorted.len() > 0 {
        let inserted = insert_by_start(sorted, e);
        assert forall|k: int| 0 <= k < inserted.len() implies #[trigger] inserted[k] == e
            || sorted.contains(inserted[k]) by {
            if k < sorted.len() {
                assert(sorted[k] == inserted[k]);
            }
        }
    }
}

proof fn lemma_sorted_members(edits: Seq<EditView>)
    ensures
        sorted_by_start(edits).len() == edits.len(),
        forall|k: int|
            0 <= k < edits.len() ==> edits.contains(#[trigger] sorted_by_start(edits)[k]),
    decreases edits.len(),
{
    if edits.len() > 0 {
        let rest = edits.drop_last();
        lemma_sorted_members(rest);
        let before = sorted_by_start(rest);
        lemma_insert_members(before, edits.last());
        assert forall|k: int| 0 <= k < edits.len() implies edits.contains(
            #[trigger] sorted_by_start(edits)[k],
        ) by {
            let x = sorted_by_start(edits)[k];
            if x == edits.last() {
                assert(edits[edits.len() - 1] == x);
            } else {
                let j = choose|j: int| 0 <= j < before.len() && before[j] == x;
                let i = choose|i: int| 0 <= i < rest.len() && rest[i] == before[j];
                assert(edits[i] == x);
            }
        }
    }
}

proof fn lemma_all_kept(edits: Seq<EditView>, s: Seq<char>)
    requires
        unkept_spans(edits, s).len() == 0,
    ensures
        forall|k: int| 0 <= k < edits.len() ==> !changes_its_lines(#[trigger] edits[k], s),
    decreases edits.len(),
{
    if edits.len() > 0 {
        lemma_all_kept(edits.drop_last(), s);
        assert forall|k: int| 0 <= k < edits.len() implies !changes_its_lines(
            #[trigger] edits[k],
            s,
        ) by {
            if k < edits.len() - 1 {
                assert(edits[k] == edits.drop_last()[k]);
            }
        }
    }
}

/// Edits that each keep the number of lines their span covers keep the
/// number of lines of the whole text.
pub proof fn law_kept_edits_keep_the_line_count(s: Seq<char>, edits: Seq<EditView>)
    requires
        forall|i: int| 0 <= i < edits.len() ==> span_fits((#[trigger] edits[i]).0, s),
        forall|i: int| 0 <= i < edits.len() ==> !changes_its_lines(#[trigger] edits[i], s),
        in_order(sorted_by_start(edits)),
    ensures
        breaks(splice(s, sorted_by_start(edits), 0)) == breaks(s),
{
    let sorted = sorted_by_start(edits);
    lemma_sorted_members(edits);
    assert forall|k: int| 0 <= k < sorted.len() implies span_fits((#[trigger] sorted[k]).0, s)
        && !changes_its_lines(sorted[k], s) by {
        assert(edits.contains(sorted[k]));
        let i = choose|i: int| 0 <= i < edits.len() && edits[i] == sorted[k];
        assert(span_fits(edits[i].0, s));
        assert(!changes_its_lines(edits[i], s));
    }
    if sorted.len() > 0 {
        assert(span_fits(sorted[0].0, s));
    }
    lemma_splice_breaks(s, sorted, 0);
    crate::lower::law_no_edits_keep_the_source(s);
    assert(sorted_by_start(Seq::<EditView>::empty()) == Seq::<EditView>::empty());
}

} // verus!

verus! {

/// Whether `t` ends in a line that no line break closes.
pub open spec fn open_last_line(t: Seq<char>) -> bool {
    t.len() > 0 && t.last() != '\n'
}

/// Each line `str::lines` finds holds no line break, and there is one line
/// per line break plus the last one if nothing closes it.
proof fn lemma_lines_from(t: Seq<char>, from: int, current: Seq<char>)
    requires
        0 <= from <= t.len(),
        breaks(current) == 0,
    ensures
        forall|i: int|
            0 <= i < lines_from(t, from, current).len() ==> breaks(
                #[trigger] lines_from(t, from, current)[i],
            ) == 0,
        lines_from(t, from, current).len() == breaks(t.skip(from)) + if open_last_line(
            current + t.skip(from),
        ) {
            1nat
        } else {
            0nat
        },
    decreases t.len() - from,
{
    let rest = t.skip(from);
    if from == t.len() {
        assert(rest =~= Seq::<char>::empty());
        assert(current + rest =~= current);
        if current.len() > 0 {
            lemma_last_not_break(current);
        }
    } else if t[from] == '\n' {
        let line = without_carriage_return(current);
        lemma_carriage_return_unbroken(current);
        lemma_lines_from(t, from + 1, Seq::empty());
        let tail = lines_from(t, from + 1, Seq::empty());
        assert(lines_from(t, from, current) == seq![line] + tail);
        assert forall|i: int| 0 <= i < (seq![line] + tail).len() implies breaks(
            #[trigger] (seq![line] + tail)[i],
        ) == 0 by {
            if i > 0 {
                assert((seq![line] + tail)[i] == tail[i - 1]);
            }
        }
        assert(rest =~= seq!['\n'] + t.skip(from + 1));
        lemma_breaks_concat(seq!['\n'], t.skip(from + 1));
        lemma_breaks_one('\n');
        assert(Seq::<char>::empty() + t.skip(from + 1) =~= t.skip(from + 1));
        assert(current + rest =~= (current + seq!['\n']) + t.skip(from + 1));
        if t.skip(from + 1).len() == 0 {
            assert(current + rest =~= current.push('\n'));
        } else {
            assert((current + rest).last() == t.skip(from + 1).last());
        }
    } else {
        let c = t[from];
        assert(breaks(current.push(c)) == 0) by {
            assert(current.push(c).drop_last() =~= current);
        }
        lemma_lines_from(t, from + 1, current.push(c));
        assert(rest =~= seq![c] + t.skip(from + 1));
        lemma_breaks_concat(seq![c], t.skip(from + 1));
        lemma_breaks_one(c);
        assert(current + rest =~= current.push(c) + t.skip(from + 1));
    }
}

proof fn lemma_breaks_one(c: char)
    ensures
        breaks(seq![c]) == if c == '\n' {
            1nat
        } else {
            0nat
        },
{
    assert(seq![c].drop_last() =~= Seq::<char>::empty());
    assert(breaks(Seq::<char>::empty()) == 0);
}

/// A text without line breaks does not end in one.
proof fn lemma_last_not_break(t: Seq<char>)
    requires
        breaks(t) == 0,
        t.len() > 0,
    ensures
        t.last() != '\n',
{
}

proof fn lemma_carriage_return_unbroken(t: Seq<char>)
    requires
        breaks(t) == 0,
    ensures
        breaks(without_carriage_return(t)) == 0,
{
}

/// Dropping a start keeps a text free of line breaks.
proof fn lemma_skip_unbroken(t: Seq<char>, k: int)
    requires
        breaks(t) == 0,
        0 <= k <= t.len(),
    ensures
        breaks(t.skip(k)) == 0,
{
    assert(t =~= t.take(k) + t.skip(k));
    lemma_breaks_concat(t.take(k), t.skip(k));
}

proof fn lemma_trim_start_unbroken(t: Seq<char>)
    requires
        breaks(t) == 0,
    ensures
        breaks(trim_start(t)) == 0,
    decreases t.len(),
{
    if t.len() > 0 && white_space(t[0]) {
        lemma_skip_unbroken(t, 1);
        assert(t.skip(1) =~= t.drop_first());
        lemma_trim_start_unbroken(t.drop_first());
    }
}

/// Lines free of line breaks, joined, hold one break fewer than there are
/// lines.
proof fn lemma_joined_breaks(lines: Seq<Seq<char>>, margin: Seq<char>)
    requires
        lines.len() > 0,
        forall|i: int| 0 <= i < lines.len() ==> breaks(#[trigger] lines[i]) == 0,
    ensures
        breaks(joined_without_margin(lines, margin)) == lines.len() - 1,
    decreases lines.len(),
{
    let last = lines.last();
    assert(breaks(lines[lines.len() - 1]) == 0);
    if margin.len() <= last.len() && last.take(margin.len() as int) == margin {
        lemma_skip_unbroken(last, margin.len() as int);
    } else {
        lemma_trim_start_unbroken(last);
    }
    if lines.len() > 1 {
        let rest = lines.drop_last();
        assert forall|i: int| 0 <= i < rest.len() implies breaks(#[trigger] rest[i]) == 0 by {
            assert(rest[i] == lines[i]);
        }
        lemma_joined_breaks(rest, margin);
        let front = joined_without_margin(rest, margin);
        lemma_breaks_concat(front, seq!['\n']);
        lemma_breaks_concat(front + seq!['\n'], without_margin_line(last, margin));
        lemma_breaks_one('\n');
    } else {
        assert(lines[0] == last);
    }
}

/// Taking the margin off keeps every line: the program has as many line
/// breaks after as before.
pub proof fn law_the_margin_keeps_every_line(t: Seq<char>)
    ensures
        breaks(without_the_margin(t)) == breaks(t),
{
    let margin = margin_of(t);
    if t.len() > 0 && (t[0] == ' ' || t[0] == '\t') && !has_triple(t, '"') && !has_triple(t, '\'')
        && margin.len() > 0 {
        assert(breaks(Seq::<char>::empty()) == 0);
        lemma_lines_from(t, 0, Seq::empty());
        assert(t.skip(0) =~= t);
        assert(Seq::<char>::empty() + t =~= t);
        let found = lines(t);
        assert(found.len() > 0);
        lemma_joined_breaks(found, margin);
        let body = joined_without_margin(found, margin);
        if t.last() == '\n' {
            lemma_breaks_concat(body, seq!['\n']);
            lemma_breaks_one('\n');
        } else {
            assert(body + Seq::<char>::empty() =~= body);
        }
    }
}

/// Transpiling never moves a line. When every edit keeps the number of
/// lines its span covers — the one case in which transpiling answers with a
/// program rather than a refusal — the Python has exactly as many line
/// breaks as the source, so line N of the input is line N of the output.
pub proof fn law_transpiling_keeps_every_line(
    s: Seq<char>,
    spans: Seq<Span>,
    program: ParsedProgram,
)
    requires
        parsed_fits(s, spans, program),
        unkept_spans(all_edits(s, spans, program), s).len() == 0,
        in_order(sorted_by_start(all_edits(s, spans, program))),
    ensures
        breaks(without_the_margin(splice(s, sorted_by_start(all_edits(s, spans, program)), 0)))
            == breaks(s),
{
    let all = all_edits(s, spans, program);
    lemma_all_kept(all, s);
    lemma_edits_fit(s, spans, program);
    law_kept_edits_keep_the_line_count(s, all);
    law_the_margin_keeps_every_line(splice(s, sorted_by_start(all), 0));
}

/// Every edit transpiling gathers lies on the source's character
/// boundaries.
proof fn lemma_edits_fit(s: Seq<char>, spans: Seq<Span>, program: ParsedProgram)
    requires
        parsed_fits(s, spans, program),
    ensures
        forall|i: int|
            0 <= i < all_edits(s, spans, program).len() ==> span_fits(
                (#[trigger] all_edits(s, spans, program)[i]).0,
                s,
            ),
{
    let statements = statement_edits(program.nme_lines@, s);
    let blanks = blank_line_edits(program.story_blank_lines@);
    lemma_indent_edits_fit(s, spans, program.virtual_indents@, program.nme_lines@);
    let indents = indent_edits(spans, program.virtual_indents@, program.nme_lines@);
    let all = all_edits(s, spans, program);
    assert forall|i: int| 0 <= i < all.len() implies span_fits((#[trigger] all[i]).0, s) by {
        if i < statements.len() {
            assert(all[i] == statements[i]);
            assert(stmt_fits(program.nme_lines@[i].stmt, s));
        } else if i < statements.len() + blanks.len() {
            assert(all[i] == blanks[i - statements.len()]);
            assert(span_fits(program.story_blank_lines@[i - statements.len()].0, s));
        } else {
            assert(all[i] == indents[i - statements.len() - blanks.len()]);
        }
    }
}

proof fn lemma_indent_edits_fit(
    s: Seq<char>,
    spans: Seq<Span>,
    levels: Seq<usize>,
    lines: Seq<NmeLine>,
)
    requires
        forall|i: int| 0 <= i < spans.len() ==> span_fits(#[trigger] spans[i], s),
    ensures
        forall|i: int|
            0 <= i < indent_edits(spans, levels, lines).len() ==> span_fits(
                (#[trigger] indent_edits(spans, levels, lines)[i]).0,
                s,
            ),
    decreases spans.len(),
{
    if spans.len() > 0 {
        let rest = spans.drop_last();
        assert forall|i: int| 0 <= i < rest.len() implies span_fits(#[trigger] rest[i], s) by {
            assert(rest[i] == spans[i]);
        }
        lemma_indent_edits_fit(s, rest, levels, lines);
        let k = spans.len() - 1;
        assert(span_fits(spans[k], s));
        let before = indent_edits(rest, levels, lines);
        let after = indent_edits(spans, levels, lines);
        if !(levels[k] == 0 || is_statement_line(lines, k)) {
            assert forall|i: int| 0 <= i < after.len() implies span_fits(
                (#[trigger] after[i]).0,
                s,
            ) by {
                if i < before.len() {
                    assert(after[i] == before[i]);
                } else {
                    assert(after[i].0 == Span { start: spans[k].start, end: spans[k].start });
                }
            }
        }
    }
}

} // verus!

verus! {

proof fn lemma_no_indent_edits(spans: Seq<Span>, levels: Seq<usize>, lines: Seq<NmeLine>)
    requires
        forall|k: int| 0 <= k < spans.len() ==> #[trigger] levels[k] == 0,
    ensures
        indent_edits(spans, levels, lines).len() == 0,
    decreases spans.len(),
{
    if spans.len() > 0 {
        lemma_no_indent_edits(spans.drop_last(), levels, lines);
        assert(levels[spans.len() - 1] == 0);
    }
}

/// Valid Python always wins and is kept byte for byte: a program in which
/// no line is NME (no statement, no blank story line, no indentation given
/// to any line) is spliced back as itself, so transpiling it only takes off
/// a margin every line shares, and a program that starts at its left edge
/// comes out exactly as it went in.
pub proof fn law_plain_python_comes_through(s: Seq<char>, spans: Seq<Span>, program: ParsedProgram)
    requires
        program.nme_lines@.len() == 0,
        program.story_blank_lines@.len() == 0,
        forall|k: int| 0 <= k < spans.len() ==> #[trigger] program.virtual_indents@[k] == 0,
    ensures
        splice(s, sorted_by_start(all_edits(s, spans, program)), 0) == s,
        unkept_spans(all_edits(s, spans, program), s).len() == 0,
        (s.len() == 0 || (s[0] != ' ' && s[0] != '\t')) ==> without_the_margin(
            splice(s, sorted_by_start(all_edits(s, spans, program)), 0),
        ) == s,
{
    lemma_no_indent_edits(spans, program.virtual_indents@, program.nme_lines@);
    assert(all_edits(s, spans, program) =~= Seq::<EditView>::empty());
    crate::lower::law_no_edits_keep_the_source(s);
}

} // verus!

verus! {

proof fn lemma_indent_edit_present(spans: Seq<Span>, levels: Seq<usize>, lines: Seq<NmeLine>, k: int)
    requires
        0 <= k < spans.len(),
        levels[k] > 0,
        !is_statement_line(lines, k),
    ensures
        indent_edits(spans, levels, lines).contains(
            (
                Span { start: spans[k].start, end: spans[k].start },
                Seq::new((4 * levels[k]) as nat, |_i: int| ' '),
            ),
        ),
    decreases spans.len(),
{
    let last = spans.len() - 1;
    let rest = indent_edits(spans.drop_last(), levels, lines);
    assert(Seq::new((4 * levels[k]) as nat, |_i: int| ' ') =~= indent(levels[k] as nat));
    if k == last {
        let out = rest.push((Span { start: spans[k].start, end: spans[k].start }, indent(levels[k] as nat)));
        assert(out[rest.len() as int] == (Span { start: spans[k].start, end: spans[k].start }, indent(
            levels[k] as nat,
        )));
    } else {
        lemma_indent_edit_present(spans.drop_last(), levels, lines, k);
        assert(spans.drop_last()[k] == spans[k]);
        let e = (
            Span { start: spans[k].start, end: spans[k].start },
            Seq::new((4 * levels[k]) as nat, |_i: int| ' '),
        );
        let i = choose|i: int| 0 <= i < rest.len() && rest[i] == e;
        if levels[last] == 0 || is_statement_line(lines, last) {
        } else {
            let out = rest.push(
                (Span { start: spans[last].start, end: spans[last].start }, indent(levels[last] as nat)),
            );
            assert(out[i] == e);
        }
    }
}

/// Indentation is four spaces a level. Every logical line that holds no NME
/// statement and is given `L` levels gets exactly `4 * L` spaces put at its
/// start, and every NME statement given `L` levels is written after exactly
/// `4 * L` spaces.
pub proof fn law_a_level_of_indentation_is_four_spaces(
    s: Seq<char>,
    spans: Seq<Span>,
    program: ParsedProgram,
)
    ensures
        forall|k: int|
            0 <= k < spans.len() && #[trigger] program.virtual_indents@[k] > 0
                && !is_statement_line(program.nme_lines@, k) ==> all_edits(
                s,
                spans,
                program,
            ).contains(
                (
                    Span { start: spans[k].start, end: spans[k].start },
                    Seq::new((4 * program.virtual_indents@[k]) as nat, |_i: int| ' '),
                ),
            ),
        forall|i: int|
            0 <= i < program.nme_lines@.len() ==> all_edits(s, spans, program).contains(
                (
                    program.nme_lines@[i].span,
                    Seq::new((4 * #[trigger] program.nme_lines@[i].virtual_indent) as nat, |_j: int| ' ')
                        + stmt_text(program.nme_lines@[i].stmt, s),
                ),
            ),
{
    let statements = statement_edits(program.nme_lines@, s);
    let blanks = blank_line_edits(program.story_blank_lines@);
    let indents = indent_edits(spans, program.virtual_indents@, program.nme_lines@);
    let all = all_edits(s, spans, program);
    assert(all == statements + blanks + indents);
    assert forall|k: int|
        0 <= k < spans.len() && #[trigger] program.virtual_indents@[k] > 0 && !is_statement_line(
            program.nme_lines@,
            k,
        ) implies all.contains(
        (
            Span { start: spans[k].start, end: spans[k].start },
            Seq::new((4 * program.virtual_indents@[k]) as nat, |_i: int| ' '),
        ),
    ) by {
        lemma_indent_edit_present(spans, program.virtual_indents@, program.nme_lines@, k);
        let e = (
            Span { start: spans[k].start, end: spans[k].start },
            Seq::new((4 * program.virtual_indents@[k]) as nat, |_i: int| ' '),
        );
        let j = choose|j: int| 0 <= j < indents.len() && indents[j] == e;
        assert(all[statements.len() + blanks.len() + j] == e);
    }
    assert forall|i: int| 0 <= i < program.nme_lines@.len() implies all.contains(
        (
            program.nme_lines@[i].span,
            Seq::new((4 * #[trigger] program.nme_lines@[i].virtual_indent) as nat, |_j: int| ' ')
                + stmt_text(program.nme_lines@[i].stmt, s),
        ),
    ) by {
        assert(Seq::new((4 * program.nme_lines@[i].virtual_indent) as nat, |_j: int| ' ') =~= indent(
            program.nme_lines@[i].virtual_indent as nat,
        ));
        assert(all[i] == statements[i]);
    }
}

} // verus!
