//! Splits NME source into *logical lines* using Python's own token rules.
//!
//! This module does **not** scan text itself. It delegates to the
//! [`rustpython_parser`] lexer, so strings, comments, triple-quoted strings,
//! f-strings, escapes and line continuations are recognized exactly the way
//! CPython recognizes them. That is what guarantees NME can never mistake
//! text inside a string or comment for code — the tokenizer hands over whole,
//! unambiguous tokens with byte spans.
//!
//! A *logical line* is one Python statement line: the tokens between two
//! `Newline` tokens. A logical line may span several physical lines (inside
//! brackets or after a backslash), which keeps multi-line Python expressions
//! intact and invisible to NME's line-oriented grammar.
use vstd::prelude::*;
use vstd::utf8::encode_utf8;

use rustpython_parser::lexer::lex;
use rustpython_parser::lexer::LexicalErrorType::UnrecognizedToken;
use rustpython_parser::{Mode, Tok};

use crate::diagnostics::{Diagnostic, DiagnosticCode, Span};
use crate::text::{alphanumeric, byte_slice, bytes_of, chars_before, chars_of, is_alphanumeric};

verus! {

// ------------------------------------------------------------- the lexer

/// One item the Python lexer hands out, as this library reads it: a name,
/// the three tokens that shape lines, any other token by its byte span, or a
/// problem by its byte location and its message.
#[derive(Debug, Clone, PartialEq, Eq)]
pub enum Lexed {
    Name(String, usize, usize),
    Newline,
    Indent,
    Dedent,
    Other(usize, usize),
    Problem(usize, String),
}

/// What the Python lexer hands out for a source, item by item.
pub uninterp spec fn python_lexing(source: Seq<char>) -> Seq<Lexed>;

/// `rustpython_parser::lexer::lex` in module mode, every item converted: a
/// `Name` token keeps its name and span, `Newline`, `Indent` and `Dedent`
/// keep their kind (the lexer hands no `StartModule` or `EndOfFile` out),
/// every other token keeps its
/// span, and an error keeps its location and its message. The lexer goes
/// on past an unexpected `?` or `!`, whose message is
/// `Got unexpected token ?` (or `!`); at any other error it may never stop
/// (at the end of a source with a bracket left open it answers the same
/// error again and again), so the items end with the first such error.
/// What comes out is named by `python_lexing`, a function of the source
/// alone.
#[verifier::external_body]
fn lex_python(source: &str) -> (items: Vec<Lexed>)
    ensures
        items@ == python_lexing(source@),
        forall|i: int|
            0 <= i < items@.len() - 1 ==> (#[trigger] items@[i] matches Lexed::Problem(_, message)
                ==> stray_mark(message@) is Some),
{
    lex(source, Mode::Module).scan(false, |stopped, item| {
        (!*stopped).then_some(match item {
            Ok((tok, r)) => match tok {
                Tok::Name { name } => Lexed::Name(name, r.start().into(), r.end().into()),
                Tok::Newline => Lexed::Newline,
                Tok::Indent => Lexed::Indent,
                Tok::Dedent => Lexed::Dedent,
                _ => Lexed::Other(r.start().into(), r.end().into()),
            },
            Err(e) => { *stopped = !matches!(e.error, UnrecognizedToken { tok: '?' | '!' });
                Lexed::Problem(e.location.into(), e.error.to_string()) },
        })
    }).collect()
}

/// The Unicode `Alphabetic` property, which `char::is_alphabetic` reports.
pub uninterp spec fn alphabetic(c: char) -> bool;

/// `char::is_alphabetic` from the standard library: true when the character
/// is Unicode `Alphabetic`. The property table is named, not restated;
/// among ASCII characters it holds of exactly the letters.
#[verifier::external_body]
fn is_alphabetic(c: char) -> (yes: bool)
    ensures
        yes == alphabetic(c),
        (c as u32) < 128 ==> (yes <==> ('a' <= c <= 'z' || 'A' <= c <= 'Z')),
{
    c.is_alphabetic()
}

// --------------------------------------------------------------- tokens

/// What kind of token the library tells apart: a name, or anything else.
#[derive(Debug, Clone, PartialEq, Eq)]
pub enum TokenKind {
    Name(String),
    Other,
}

/// One Python token together with its byte span in the source.
#[derive(Debug, Clone)]
pub struct Token {
    pub tok: TokenKind,
    pub span: Span,
}

/// A token as its name (when it is one) and its span.
pub type TokenView = (Option<Seq<char>>, Span);

pub open spec fn token_view(token: Token) -> TokenView {
    (
        match token.tok {
            TokenKind::Name(name) => Some(name@),
            TokenKind::Other => None,
        },
        token.span,
    )
}

pub open spec fn token_views(tokens: Seq<Token>) -> Seq<TokenView> {
    Seq::new(tokens.len(), |i: int| token_view(tokens[i]))
}

/// A logical line of source: one statement's worth of tokens.
#[derive(Debug, Clone)]
pub struct LogicalLine {
    /// 1-based number of the physical line the statement starts on.
    pub number: usize,
    /// Indentation depth: how many `Indent` levels deep this line is.
    pub indent: usize,
    /// Significant tokens of the statement (no `Newline`/`Indent`/`Dedent`).
    pub tokens: Vec<Token>,
    /// Byte span from the first token's start to the last token's end.
    /// Leading indentation and trailing comments are *outside* this span,
    /// so replacing it never disturbs comments or whitespace.
    pub span: Span,
}

/// A logical line as its number, depth, tokens and span.
pub type LineView = (usize, usize, Seq<TokenView>, Span);

pub open spec fn line_view(line: LogicalLine) -> LineView {
    (line.number, line.indent, token_views(line.tokens@), line.span)
}

pub open spec fn line_views(lines: Seq<LogicalLine>) -> Seq<LineView> {
    Seq::new(lines.len(), |i: int| line_view(lines[i]))
}

impl LogicalLine {
    /// Convenience for pattern matching: is the first significant token a
    /// name with the given value (e.g. `say`)?
    pub fn starts_with_name(&self, name: &str) -> (yes: bool)
        ensures
            yes == (self.tokens@.len() > 0 && (self.tokens@[0].tok matches TokenKind::Name(n)
                && n@ == name@)),
    {
        if self.tokens.len() == 0 {
            return false;
        }
        match &self.tokens[0].tok {
            TokenKind::Name(n) => crate::text::same_text(n.as_str(), name),
            TokenKind::Other => false,
        }
    }

    /// The source text covered by this line's token span.
    pub fn text(&self, source: &str) -> (covered: String)
        requires
            self.span.start <= self.span.end,
        ensures
            covered@ == byte_slice(source@, self.span.start as int, self.span.end as int),
    {
        let chars = chars_of(source);
        let mut covered = String::new();
        crate::text::push_byte_slice(&mut covered, chars.as_slice(), self.span.start, self.span.end);
        covered
    }
}

// ----------------------------------------------------------- line numbers

/// The byte offsets at which each physical line starts, 0 included: one
/// after every `\n` byte of the first `n` bytes.
pub open spec fn line_starts(bytes: Seq<u8>, n: int) -> Seq<usize>
    decreases n,
{
    if n <= 0 {
        seq![0usize]
    } else if bytes[n - 1] == 10u8 {
        line_starts(bytes, n - 1).push(n as usize)
    } else {
        line_starts(bytes, n - 1)
    }
}

/// Byte offsets at which each physical line starts (offset 0 included).
fn line_start_offsets(source: &str) -> (starts: Vec<usize>)
    ensures
        starts@ == line_starts(encode_utf8(source@), encode_utf8(source@).len() as int),
{
    let bytes = source.as_bytes();
    let mut starts: Vec<usize> = vec![0];
    let mut offset: usize = 0;
    while offset < bytes.len()
        invariant
            0 <= offset <= bytes@.len(),
            bytes@ == encode_utf8(source@),
            starts@ == line_starts(bytes@, offset as int),
        decreases bytes@.len() - offset,
    {
        if bytes[offset] == 10u8 {
            starts.push(offset + 1);
        }
        offset = offset + 1;
    }
    starts
}

/// How many of the starts are at or before `offset`.
pub open spec fn starts_up_to(starts: Seq<usize>, offset: int) -> nat
    decreases starts.len(),
{
    if starts.len() == 0 {
        0
    } else {
        starts_up_to(starts.drop_last(), offset) + if starts.last() <= offset {
            1nat
        } else {
            0nat
        }
    }
}

/// 1-based physical line number containing byte `offset`: how many lines
/// start at or before it.
fn line_number(line_starts: &[usize], offset: usize) -> (number: usize)
    ensures
        number == starts_up_to(line_starts@, offset as int),
{
    let mut count: usize = 0;
    let mut i: usize = 0;
    while i < line_starts.len()
        invariant
            0 <= i <= line_starts@.len(),
            count == starts_up_to(line_starts@.take(i as int), offset as int),
            count <= i,
        decreases line_starts@.len() - i,
    {
        assert(line_starts@.take(i + 1).drop_last() =~= line_starts@.take(i as int));
        if line_starts[i] <= offset {
            count = count + 1;
        }
        i = i + 1;
    }
    assert(line_starts@.take(line_starts@.len() as int) =~= line_starts@);
    count
}

} // verus!

verus! {

// ------------------------------------------------------- reading problems

/// A stray `?` or `!` the lexer could not read as Python: sentence
/// punctuation, kept as a name token of its own.
pub open spec fn stray_mark(message: Seq<char>) -> Option<char> {
    if message == "Got unexpected token ?"@ {
        Some('?')
    } else if message == "Got unexpected token !"@ {
        Some('!')
    } else {
        None
    }
}

/// Where a stray mark starts: at the reported byte when the source holds the
/// mark there, else one byte before.
pub open spec fn stray_start(bytes: Seq<u8>, reported: int, mark: char) -> int {
    if 0 <= reported < bytes.len() && bytes[reported] == mark as u8 {
        reported
    } else if reported >= 1 {
        reported - 1
    } else {
        0
    }
}

/// The lexer's way of saying a single-quoted string never closed.
pub open spec fn unterminated_quote(message: Seq<char>) -> bool {
    message == "Got unexpected string"@ || message == "EOL while scanning string literal"@
}

/// An apostrophe at byte `offset` of `lexer` that sits inside a word: a
/// letter or digit before it and a letter after it.
pub open spec fn apostrophe_at(lexer: Seq<char>, offset: int) -> bool {
    let k = chars_before(lexer, offset) as int;
    &&& 0 <= offset
    &&& crate::text::offset_of(lexer, k) == offset
    &&& 1 <= k && k + 1 < lexer.len()
    &&& lexer[k] == '\''
    &&& alphanumeric(lexer[k - 1])
    &&& alphabetic(lexer[k + 1])
}

pub open spec fn all_names(current: Seq<TokenView>) -> bool {
    forall|i: int| 0 <= i < current.len() ==> (#[trigger] current[i]).0 is Some
}

/// The apostrophe an unterminated quote was really: only in a line of
/// plain words, at the reported byte, the byte before it, or right after
/// the last word.
pub open spec fn apostrophe_offset(lexer: Seq<char>, current: Seq<TokenView>, reported: int) -> Option<
    int,
> {
    if current.len() == 0 || !all_names(current) {
        None
    } else {
        let before = if reported >= 1 {
            reported - 1
        } else {
            0
        };
        let after = current.last().1.end as int;
        if apostrophe_at(lexer, reported) {
            Some(reported)
        } else if apostrophe_at(lexer, before) {
            Some(before)
        } else if apostrophe_at(lexer, after) {
            Some(after)
        } else {
            None
        }
    }
}

/// The line a run of tokens makes.
pub open spec fn finished(starts: Seq<usize>, current: Seq<TokenView>, indent: nat) -> LineView {
    let first = current[0].1.start;
    let last = current.last().1.end;
    (
        starts_up_to(starts, first as int) as usize,
        indent as usize,
        current,
        Span { start: first, end: last },
    )
}

/// How a pass over the lexer's items ends: with its lines, or with the
/// apostrophe to read as a letter and try again, or with the problem that
/// stops it (its location and message).
pub type Pass = Result<Seq<LineView>, (Option<usize>, usize, Seq<char>)>;

/// The pass over the lexer's items from item `i` on.
pub open spec fn scan(
    bytes: Seq<u8>,
    lexer: Seq<char>,
    items: Seq<Lexed>,
    i: int,
    lines: Seq<LineView>,
    current: Seq<TokenView>,
    indent: nat,
) -> Pass
    decreases items.len() - i,
{
    let starts = line_starts(bytes, bytes.len() as int);
    if i < 0 || i >= items.len() {
        Ok(
            if current.len() > 0 {
                lines.push(finished(starts, current, indent))
            } else {
                lines
            },
        )
    } else {
        match items[i] {
            Lexed::Name(name, start, end) => scan(
                bytes,
                lexer,
                items,
                i + 1,
                lines,
                current.push((Some(name@), Span { start, end })),
                indent,
            ),
            Lexed::Other(start, end) => scan(
                bytes,
                lexer,
                items,
                i + 1,
                lines,
                current.push((None, Span { start, end })),
                indent,
            ),
            Lexed::Newline => if current.len() > 0 {
                scan(
                    bytes,
                    lexer,
                    items,
                    i + 1,
                    lines.push(finished(starts, current, indent)),
                    Seq::empty(),
                    indent,
                )
            } else {
                scan(bytes, lexer, items, i + 1, lines, current, indent)
            },
            Lexed::Indent => scan(bytes, lexer, items, i + 1, lines, current, indent + 1),
            Lexed::Dedent => scan(
                bytes,
                lexer,
                items,
                i + 1,
                lines,
                current,
                if indent > 0 {
                    (indent - 1) as nat
                } else {
                    0
                },
            ),
            Lexed::Problem(location, message) => match stray_mark(message@) {
                Some(mark) => {
                    let start = stray_start(bytes, location as int, mark);
                    scan(
                        bytes,
                        lexer,
                        items,
                        i + 1,
                        lines,
                        current.push(
                            (Some(seq![mark]), Span { start: start as usize, end: (start + 1) as usize }),
                        ),
                        indent,
                    )
                },
                None => if unterminated_quote(message@) && apostrophe_offset(
                    lexer,
                    current,
                    location as int,
                ) is Some {
                    Err((Some(apostrophe_offset(lexer, current, location as int)->0 as usize), 0, Seq::empty()))
                } else {
                    Err((None, location, message@))
                },
            },
        }
    }
}

/// How many apostrophes a text holds.
pub open spec fn apostrophes(t: Seq<char>) -> nat
    decreases t.len(),
{
    if t.len() == 0 {
        0
    } else {
        apostrophes(t.drop_last()) + if t.last() == '\'' {
            1nat
        } else {
            0nat
        }
    }
}

/// The logical lines of `source`, lexing `lexer`: an apostrophe the lexer
/// took for the start of a string is read as a space and the source lexed
/// again, until the lexer answers with lines or with a problem.
pub open spec fn lines_lexing(source: Seq<char>, lexer: Seq<char>) -> Result<Seq<LineView>, (usize, Seq<char>)>
    decreases apostrophes(lexer),
{
    match scan(encode_utf8(source), lexer, python_lexing(lexer), 0, Seq::empty(), Seq::empty(), 0) {
        Ok(lines) => Ok(lines),
        Err((Some(offset), _, _)) => {
            let k = chars_before(lexer, offset as int) as int;
            if 0 <= k < lexer.len() && lexer[k] == '\'' {
                proof {
                    lemma_fewer_apostrophes(lexer, k);
                }
                lines_lexing(source, lexer.update(k, ' '))
            } else {
                Err((0, Seq::empty()))
            }
        },
        Err((None, location, message)) => Err((location, message)),
    }
}

pub proof fn lemma_fewer_apostrophes(t: Seq<char>, k: int)
    requires
        0 <= k < t.len(),
        t[k] == '\'',
    ensures
        apostrophes(t.update(k, ' ')) < apostrophes(t),
    decreases t.len(),
{
    if k == t.len() - 1 {
        assert(t.update(k, ' ').drop_last() =~= t.drop_last());
    } else {
        lemma_fewer_apostrophes(t.drop_last(), k);
        assert(t.update(k, ' ').drop_last() =~= t.drop_last().update(k, ' '));
    }
}

/// The logical lines of a source, as `logical_lines` answers them.
pub open spec fn spec_logical_lines(source: Seq<char>) -> Result<Seq<LineView>, (usize, Seq<char>)> {
    lines_lexing(source, source)
}

} // verus!

verus! {

/// Every problem that sends the pass back for another try names an
/// apostrophe inside a word.
proof fn lemma_retry_is_apostrophe(
    bytes: Seq<u8>,
    lexer: Seq<char>,
    items: Seq<Lexed>,
    i: int,
    lines: Seq<LineView>,
    current: Seq<TokenView>,
    indent: nat,
)
    ensures
        scan(bytes, lexer, items, i, lines, current, indent) matches Err((Some(offset), _, _))
            ==> apostrophe_at(lexer, offset as int),
    decreases items.len() - i,
{
    let starts = line_starts(bytes, bytes.len() as int);
    if 0 <= i < items.len() {
        match items[i] {
            Lexed::Name(name, start, end) => lemma_retry_is_apostrophe(
                bytes,
                lexer,
                items,
                i + 1,
                lines,
                current.push((Some(name@), Span { start, end })),
                indent,
            ),
            Lexed::Other(start, end) => lemma_retry_is_apostrophe(
                bytes,
                lexer,
                items,
                i + 1,
                lines,
                current.push((None, Span { start, end })),
                indent,
            ),
            Lexed::Newline => if current.len() > 0 {
                lemma_retry_is_apostrophe(
                    bytes,
                    lexer,
                    items,
                    i + 1,
                    lines.push(finished(starts, current, indent)),
                    Seq::empty(),
                    indent,
                )
            } else {
                lemma_retry_is_apostrophe(bytes, lexer, items, i + 1, lines, current, indent)
            },
            Lexed::Indent => lemma_retry_is_apostrophe(
                bytes,
                lexer,
                items,
                i + 1,
                lines,
                current,
                indent + 1,
            ),
            Lexed::Dedent => lemma_retry_is_apostrophe(
                bytes,
                lexer,
                items,
                i + 1,
                lines,
                current,
                if indent > 0 {
                    (indent - 1) as nat
                } else {
                    0
                },
            ),
            Lexed::Problem(location, message) => match stray_mark(message@) {
                Some(mark) => {
                    let start = stray_start(bytes, location as int, mark);
                    lemma_retry_is_apostrophe(
                        bytes,
                        lexer,
                        items,
                        i + 1,
                        lines,
                        current.push(
                            (Some(seq![mark]), Span { start: start as usize, end: (start + 1) as usize }),
                        ),
                        indent,
                    )
                },
                None => {},
            },
        }
    }
}

/// Whether an apostrophe inside a word stands at byte `offset`.
fn apostrophe_in(lexer: &Vec<char>, offset: usize) -> (found: bool)
    requires
        bytes_of(lexer@) <= usize::MAX,
    ensures
        found == apostrophe_at(lexer@, offset as int),
{
    let k = crate::text::char_index_at(lexer.as_slice(), offset);
    if crate::diagnostics::offset_at(lexer, k) != offset {
        return false;
    }
    if k < 1 || k >= lexer.len() || k + 1 >= lexer.len() {
        return false;
    }
    lexer[k] == '\'' && is_alphanumeric(lexer[k - 1]) && is_alphabetic(lexer[k + 1])
}

/// The apostrophe an unterminated quote was really.
fn find_apostrophe(lexer: &Vec<char>, current: &Vec<Token>, reported: usize) -> (found: Option<usize>)
    requires
        bytes_of(lexer@) <= usize::MAX,
    ensures
        match found {
            Some(offset) => apostrophe_offset(lexer@, token_views(current@), reported as int) == Some(
                offset as int,
            ),
            None => apostrophe_offset(lexer@, token_views(current@), reported as int) is None,
        },
{
    let ghost views = token_views(current@);
    if current.len() == 0 {
        return None;
    }
    let mut i: usize = 0;
    while i < current.len()
        invariant
            0 <= i <= current@.len(),
            views == token_views(current@),
            forall|j: int| 0 <= j < i ==> (#[trigger] views[j]).0 is Some,
        decreases current@.len() - i,
    {
        match current[i].tok {
            TokenKind::Name(_) => {},
            TokenKind::Other => {
                assert(views[i as int].0 is None);
                return None;
            },
        }
        i = i + 1;
    }
    let before = if reported >= 1 { reported - 1 } else { 0 };
    let after = current[current.len() - 1].span.end;
    assert(views.last() == token_view(current@[current@.len() - 1]));
    if apostrophe_in(lexer, reported) {
        Some(reported)
    } else if apostrophe_in(lexer, before) {
        Some(before)
    } else if apostrophe_in(lexer, after) {
        Some(after)
    } else {
        None
    }
}

/// The refusal of a source the Python lexer cannot read.
pub open spec fn is_lexical_problem(
    problem: Diagnostic,
    source: Seq<char>,
    location: usize,
    message: Seq<char>,
) -> bool {
    let length = bytes_of(source);
    let start = if location < length {
        location as int
    } else if length >= 1 {
        length - 1
    } else {
        0
    };
    &&& problem.code == DiagnosticCode::UnrecognizedInput
    &&& problem.span == Span { start: start as usize, end: (start + 1) as usize }
    &&& problem.message@ == "this is not something Python or NME can read: "@ + message
    &&& problem.message_ko matches Some(korean) && korean@ == "Python이나 NME가 읽을 수 없는 내용이에요: "@
        + message
    &&& problem.hint matches Some(hint) && hint@
        == "check for an unterminated string or a stray character"@
    &&& problem.hint_ko matches Some(hint_ko) && hint_ko@
        == "닫히지 않은 문자열이나 잘못 들어간 문자가 있는지 확인하세요"@
}

/// The one clear problem a source the Python lexer rejects is answered
/// with: the lexer's own message, under the character it points at (or the
/// final byte, when it points past the end).
fn lexical_diagnostic(source: &str, location: usize, message: &str) -> (problem: Diagnostic)
    ensures
        is_lexical_problem(problem, source@, location, message@),
{
    let length = source.as_bytes().len();
    let start = if location < length {
        location
    } else if length >= 1 {
        length - 1
    } else {
        0
    };
    assert(length == bytes_of(source@));
    let mut english = String::new();
    english.append("this is not something Python or NME can read: ");
    english.append(message);
    let mut korean = String::new();
    korean.append("Python이나 NME가 읽을 수 없는 내용이에요: ");
    korean.append(message);
    assert(english@ == "this is not something Python or NME can read: "@ + message@);
    Diagnostic::bilingual(
        DiagnosticCode::UnrecognizedInput,
        english.as_str(),
        korean.as_str(),
        Span::new(start, start + 1),
    ).with_bilingual_hint(
        "check for an unterminated string or a stray character",
        "닫히지 않은 문자열이나 잘못 들어간 문자가 있는지 확인하세요",
    )
}

} // verus!

verus! {

/// How one pass over the lexer's items ends.
enum Attempt {
    /// The logical lines.
    Lines(Vec<LogicalLine>),
    /// An apostrophe inside a word, at this byte, was taken for a quote.
    Retry(usize),
    /// A problem the lexer stops at: its location and message.
    Unreadable(usize, String),
}

/// The line a run of tokens makes.
fn finish_line(starts: &Vec<usize>, indent: usize, tokens: Vec<Token>) -> (line: LogicalLine)
    requires
        tokens@.len() > 0,
    ensures
        line_view(line) == finished(starts@, token_views(tokens@), indent as nat),
{
    let first = tokens[0].span.start;
    let last = tokens[tokens.len() - 1].span.end;
    let number = line_number(starts.as_slice(), first);
    let ghost views = token_views(tokens@);
    assert(views[0].1.start == first);
    assert(views.last().1.end == last);
    LogicalLine { number, indent, tokens, span: Span::new(first, last) }
}

/// One pass over what the lexer hands out for `lexer`, with spans and line
/// numbers read in `source`.
fn logical_lines_once(source: &str, lexer: &Vec<char>) -> (attempt: Attempt)
    requires
        bytes_of(lexer@) <= usize::MAX,
    ensures
        match attempt {
            Attempt::Lines(lines) => scan(
                encode_utf8(source@),
                lexer@,
                python_lexing(lexer@),
                0,
                Seq::empty(),
                Seq::empty(),
                0,
            ) == Ok::<Seq<LineView>, (Option<usize>, usize, Seq<char>)>(line_views(lines@)),
            Attempt::Retry(offset) => scan(
                encode_utf8(source@),
                lexer@,
                python_lexing(lexer@),
                0,
                Seq::empty(),
                Seq::empty(),
                0,
            ) matches Err((Some(found), _, _)) && found == offset,
            Attempt::Unreadable(location, message) => scan(
                encode_utf8(source@),
                lexer@,
                python_lexing(lexer@),
                0,
                Seq::empty(),
                Seq::empty(),
                0,
            ) == Err::<Seq<LineView>, (Option<usize>, usize, Seq<char>)>(
                (None, location, message@),
            ),
        },
{
    let text = crate::text::string_of(lexer.as_slice());
    let items = lex_python(text.as_str());
    let starts = line_start_offsets(source);
    let bytes = source.as_bytes();
    let ghost whole = scan(bytes@, lexer@, items@, 0, Seq::empty(), Seq::empty(), 0);
    let mut lines: Vec<LogicalLine> = Vec::new();
    let mut current: Vec<Token> = Vec::new();
    let mut indent: usize = 0;
    let mut i: usize = 0;
    assert(line_views(lines@) =~= Seq::<LineView>::empty());
    assert(token_views(current@) =~= Seq::<TokenView>::empty());
    while i < items.len()
        invariant
            0 <= i <= items@.len(),
            indent <= i,
            items@ == python_lexing(lexer@),
            bytes@ == encode_utf8(source@),
            starts@ == line_starts(bytes@, bytes@.len() as int),
            bytes_of(lexer@) <= usize::MAX,
            whole == scan(bytes@, lexer@, items@, 0, Seq::empty(), Seq::empty(), 0),
            whole == scan(
                bytes@,
                lexer@,
                items@,
                i as int,
                line_views(lines@),
                token_views(current@),
                indent as nat,
            ),
        decreases items@.len() - i,
    {
        let ghost before_lines = line_views(lines@);
        let ghost before_current = token_views(current@);
        match &items[i] {
            Lexed::Name(name, start, end) => {
                current.push(Token { tok: TokenKind::Name(name.clone()), span: Span::new(*start, *end) });
                assert(token_views(current@) =~= before_current.push(
                    (Some(name@), Span { start: *start, end: *end }),
                ));
            },
            Lexed::Other(start, end) => {
                current.push(Token { tok: TokenKind::Other, span: Span::new(*start, *end) });
                assert(token_views(current@) =~= before_current.push(
                    (None, Span { start: *start, end: *end }),
                ));
            },
            Lexed::Newline => {
                if current.len() > 0 {
                    let tokens = current;
                    current = Vec::new();
                    let line = finish_line(&starts, indent, tokens);
                    lines.push(line);
                    assert(line_views(lines@) =~= before_lines.push(
                        finished(starts@, before_current, indent as nat),
                    ));
                    assert(token_views(current@) =~= Seq::<TokenView>::empty());
                }
            },
            Lexed::Indent => {
                indent = indent + 1;
            },
            Lexed::Dedent => {
                if indent > 0 {
                    indent = indent - 1;
                }
            },
            Lexed::Problem(location, message) => {
                let question = crate::text::same_text(message.as_str(), "Got unexpected token ?");
                let exclaim = crate::text::same_text(message.as_str(), "Got unexpected token !");
                if question || exclaim {
                    let mark = if question { '?' } else { '!' };
                    let start = if *location < bytes.len() && bytes[*location] == (if question {
                        63u8
                    } else {
                        33u8
                    }) {
                        *location
                    } else if *location >= 1 {
                        *location - 1
                    } else {
                        0
                    };
                    assert(mark as u8 == (if question { 63u8 } else { 33u8 }));
                    let mut name = String::new();
                    crate::text::push(&mut name, mark);
                    current.push(Token { tok: TokenKind::Name(name), span: Span::new(start, start + 1) });
                    assert(token_views(current@) =~= before_current.push(
                        (Some(seq![mark]), Span { start, end: (start + 1) as usize }),
                    ));
                } else {
                    let unterminated = crate::text::same_text(message.as_str(), "Got unexpected string")
                        || crate::text::same_text(message.as_str(), "EOL while scanning string literal");
                    assert(stray_mark(message@) is None);
                    assert(unterminated == unterminated_quote(message@));
                    assert(items@[i as int] == Lexed::Problem(*location, *message));
                    if unterminated {
                        match find_apostrophe(lexer, &current, *location) {
                            Some(offset) => {
                                assert(whole == Err::<Seq<LineView>, (Option<usize>, usize, Seq<char>)>(
                                    (Some(offset), 0, Seq::empty()),
                                ));
                                return Attempt::Retry(offset);
                            },
                            None => {},
                        }
                    }
                    assert(unterminated ==> apostrophe_offset(lexer@, before_current, *location as int) is None);
                    assert(whole == Err::<Seq<LineView>, (Option<usize>, usize, Seq<char>)>(
                        (None, *location, message@),
                    ));
                    return Attempt::Unreadable(*location, message.clone());
                }
            },
        }
        i = i + 1;
    }
    if current.len() > 0 {
        let ghost before_lines = line_views(lines@);
        let ghost before_current = token_views(current@);
        let line = finish_line(&starts, indent, current);
        lines.push(line);
        assert(line_views(lines@) =~= before_lines.push(finished(starts@, before_current, indent as nat)));
    }
    Attempt::Lines(lines)
}

/// Tokenizes `source` and groups the tokens into logical lines.
///
/// Returns a single [`Diagnostic`] when Python's lexer itself rejects the
/// source (for example an unterminated string). Such input cannot be
/// Python and cannot be NME, so one clear error is all there is to offer.
/// An apostrophe inside a word of plain prose (`I'm ready`) is not the start
/// of a string: it is read as a space and the source lexed again, while
/// every span still addresses the untouched source.
pub fn logical_lines(source: &str) -> (found: Result<Vec<LogicalLine>, Diagnostic>)
    ensures
        match found {
            Ok(lines) => spec_logical_lines(source@) == Ok::<Seq<LineView>, (usize, Seq<char>)>(
                line_views(lines@),
            ),
            Err(problem) => spec_logical_lines(source@) matches Err((location, message))
                && is_lexical_problem(problem, source@, location, message),
        },
{
    let mut lexer = chars_of(source);
    loop
        invariant
            bytes_of(lexer@) <= usize::MAX,
            spec_logical_lines(source@) == lines_lexing(source@, lexer@),
        decreases apostrophes(lexer@),
    {
        let ghost bytes = encode_utf8(source@);
        proof {
            lemma_retry_is_apostrophe(
                bytes,
                lexer@,
                python_lexing(lexer@),
                0,
                Seq::empty(),
                Seq::empty(),
                0,
            );
        }
        match logical_lines_once(source, &lexer) {
            Attempt::Lines(lines) => return Ok(lines),
            Attempt::Unreadable(location, message) => {
                return Err(lexical_diagnostic(source, location, message.as_str()));
            },
            Attempt::Retry(offset) => {
                let k = crate::text::char_index_at(lexer.as_slice(), offset);
                assert(apostrophe_at(lexer@, offset as int));
                let ghost before = lexer@;
                lexer.set(k, ' ');
                proof {
                    lemma_fewer_apostrophes(before, k as int);
                }
                let respelled = crate::text::string_of(lexer.as_slice());
                lexer = chars_of(respelled.as_str());
            },
        }
    }
}

} // verus!

verus! {

/// A logical line holds at least one token, and its span runs from its
/// first token's start to its last token's end.
pub open spec fn covers_its_tokens(line: LineView) -> bool {
    &&& line.2.len() > 0
    &&& line.3 == Span { start: line.2[0].1.start, end: line.2.last().1.end }
}

proof fn lemma_scan_covers(
    bytes: Seq<u8>,
    lexer: Seq<char>,
    items: Seq<Lexed>,
    i: int,
    lines: Seq<LineView>,
    current: Seq<TokenView>,
    indent: nat,
)
    requires
        forall|k: int| 0 <= k < lines.len() ==> covers_its_tokens(#[trigger] lines[k]),
    ensures
        scan(bytes, lexer, items, i, lines, current, indent) matches Ok(found) ==> forall|k: int|
            0 <= k < found.len() ==> covers_its_tokens(#[trigger] found[k]),
    decreases items.len() - i,
{
    let starts = line_starts(bytes, bytes.len() as int);
    if current.len() > 0 {
        let done = lines.push(finished(starts, current, indent));
        assert forall|k: int| 0 <= k < done.len() implies covers_its_tokens(#[trigger] done[k]) by {
            if k < lines.len() {
                assert(done[k] == lines[k]);
            }
        }
    }
    if 0 <= i < items.len() {
        match items[i] {
            Lexed::Name(name, start, end) => lemma_scan_covers(
                bytes,
                lexer,
                items,
                i + 1,
                lines,
                current.push((Some(name@), Span { start, end })),
                indent,
            ),
            Lexed::Other(start, end) => lemma_scan_covers(
                bytes,
                lexer,
                items,
                i + 1,
                lines,
                current.push((None, Span { start, end })),
                indent,
            ),
            Lexed::Newline => if current.len() > 0 {
                let done = lines.push(finished(starts, current, indent));
                lemma_scan_covers(bytes, lexer, items, i + 1, done, Seq::empty(), indent)
            } else {
                lemma_scan_covers(bytes, lexer, items, i + 1, lines, current, indent)
            },
            Lexed::Indent => lemma_scan_covers(bytes, lexer, items, i + 1, lines, current, indent + 1),
            Lexed::Dedent => lemma_scan_covers(
                bytes,
                lexer,
                items,
                i + 1,
                lines,
                current,
                if indent > 0 {
                    (indent - 1) as nat
                } else {
                    0
                },
            ),
            Lexed::Problem(location, message) => match stray_mark(message@) {
                Some(mark) => {
                    let start = stray_start(bytes, location as int, mark);
                    lemma_scan_covers(
                        bytes,
                        lexer,
                        items,
                        i + 1,
                        lines,
                        current.push(
                            (Some(seq![mark]), Span { start: start as usize, end: (start + 1) as usize }),
                        ),
                        indent,
                    )
                },
                None => {},
            },
        }
    }
}

proof fn lemma_lexing_covers(source: Seq<char>, lexer: Seq<char>)
    ensures
        lines_lexing(source, lexer) matches Ok(found) ==> forall|k: int|
            0 <= k < found.len() ==> covers_its_tokens(#[trigger] found[k]),
    decreases apostrophes(lexer),
{
    lemma_scan_covers(
        encode_utf8(source),
        lexer,
        python_lexing(lexer),
        0,
        Seq::empty(),
        Seq::empty(),
        0,
    );
    match scan(encode_utf8(source), lexer, python_lexing(lexer), 0, Seq::empty(), Seq::empty(), 0) {
        Err((Some(offset), _, _)) => {
            let k = chars_before(lexer, offset as int) as int;
            if 0 <= k < lexer.len() && lexer[k] == '\'' {
                lemma_fewer_apostrophes(lexer, k);
                lemma_lexing_covers(source, lexer.update(k, ' '));
            }
        },
        _ => {},
    }
}

/// Every logical line holds at least one token, and its span runs exactly
/// from its first token's start to its last token's end: leading
/// indentation and a trailing comment are never inside it.
pub proof fn law_a_line_spans_its_tokens(source: Seq<char>)
    ensures
        spec_logical_lines(source) matches Ok(lines) ==> forall|k: int|
            0 <= k < lines.len() ==> covers_its_tokens(#[trigger] lines[k]),
{
    lemma_lexing_covers(source, source);
}

} // verus!

verus! {

/// The depth after reading items `from..to`, starting at `depth`: one more
/// for each `Indent`, one less for each `Dedent` (never below zero).
pub open spec fn depth_after(items: Seq<Lexed>, from: int, to: int, depth: nat) -> nat
    decreases to - from,
{
    if from >= to {
        depth
    } else {
        let next = match items[from] {
            Lexed::Indent => depth + 1,
            Lexed::Dedent => if depth > 0 {
                (depth - 1) as nat
            } else {
                0
            },
            _ => depth,
        };
        depth_after(items, from + 1, to, next)
    }
}

/// A name or other token item as the token it stands for.
pub open spec fn token_item(item: Lexed) -> TokenView {
    match item {
        Lexed::Name(name, start, end) => (Some(name@), Span { start, end }),
        Lexed::Other(start, end) => (None, Span { start, end }),
        _ => (None, Span { start: 0, end: 0 }),
    }
}

/// The tokens items `from..to` stand for.
pub open spec fn token_run(items: Seq<Lexed>, from: int, to: int) -> Seq<TokenView> {
    Seq::new((to - from) as nat, |m: int| token_item(items[from + m]))
}

proof fn lemma_depth_run(
    bytes: Seq<u8>,
    lexer: Seq<char>,
    items: Seq<Lexed>,
    i: int,
    j: int,
    lines: Seq<LineView>,
    depth: nat,
)
    requires
        0 <= i <= j <= items.len(),
        forall|m: int| i <= m < j ==> (#[trigger] items[m] is Indent || items[m] is Dedent),
    ensures
        scan(bytes, lexer, items, i, lines, Seq::empty(), depth) == scan(
            bytes,
            lexer,
            items,
            j,
            lines,
            Seq::empty(),
            depth_after(items, i, j, depth),
        ),
    decreases j - i,
{
    if i < j {
        let next = match items[i] {
            Lexed::Indent => depth + 1,
            Lexed::Dedent => if depth > 0 {
                (depth - 1) as nat
            } else {
                0
            },
            _ => depth,
        };
        assert(items[i] is Indent || items[i] is Dedent);
        lemma_depth_run(bytes, lexer, items, i + 1, j, lines, next);
    }
}

proof fn lemma_token_run(
    bytes: Seq<u8>,
    lexer: Seq<char>,
    items: Seq<Lexed>,
    j: int,
    k: int,
    lines: Seq<LineView>,
    current: Seq<TokenView>,
    depth: nat,
)
    requires
        0 <= j <= k < items.len(),
        forall|m: int| j <= m < k ==> (#[trigger] items[m] is Name || items[m] is Other),
        items[k] is Newline,
        current.len() + (k - j) > 0,
    ensures
        scan(bytes, lexer, items, j, lines, current, depth) == scan(
            bytes,
            lexer,
            items,
            k + 1,
            lines.push(
                finished(
                    line_starts(bytes, bytes.len() as int),
                    current + token_run(items, j, k),
                    depth,
                ),
            ),
            Seq::empty(),
            depth,
        ),
    decreases k - j,
{
    if j == k {
        assert(current + token_run(items, j, k) =~= current);
    } else {
        assert(items[j] is Name || items[j] is Other);
        let t = token_item(items[j]);
        lemma_token_run(bytes, lexer, items, j + 1, k, lines, current.push(t), depth);
        assert(current.push(t) + token_run(items, j + 1, k) =~= current + token_run(items, j, k));
    }
}

/// A line is as deep as the `Indent` and `Dedent` items before it say: when
/// a run of them is followed by a line's tokens and its `Newline`, the line
/// finished has as its depth the depth before the run, plus one for each
/// `Indent` and minus one for each `Dedent` (never below zero), and reading
/// goes on at that depth.
pub proof fn law_a_line_is_as_deep_as_its_indents(
    bytes: Seq<u8>,
    lexer: Seq<char>,
    items: Seq<Lexed>,
    i: int,
    j: int,
    k: int,
    lines: Seq<LineView>,
    depth: nat,
)
    requires
        0 <= i <= j < k < items.len(),
        forall|m: int| i <= m < j ==> (#[trigger] items[m] is Indent || items[m] is Dedent),
        forall|m: int| j <= m < k ==> (#[trigger] items[m] is Name || items[m] is Other),
        items[k] is Newline,
    ensures
        scan(bytes, lexer, items, i, lines, Seq::empty(), depth) == scan(
            bytes,
            lexer,
            items,
            k + 1,
            lines.push(
                finished(
                    line_starts(bytes, bytes.len() as int),
                    token_run(items, j, k),
                    depth_after(items, i, j, depth),
                ),
            ),
            Seq::empty(),
            depth_after(items, i, j, depth),
        ),
        finished(
            line_starts(bytes, bytes.len() as int),
            token_run(items, j, k),
            depth_after(items, i, j, depth),
        ).1 == depth_after(items, i, j, depth) as usize,
{
    lemma_depth_run(bytes, lexer, items, i, j, lines, depth);
    lemma_token_run(bytes, lexer, items, j, k, lines, Seq::empty(), depth_after(items, i, j, depth));
    assert(Seq::<TokenView>::empty() + token_run(items, j, k) =~= token_run(items, j, k));
}

} // verus!

verus! {

/// A `Dedent` undoes an `Indent`: reading an `Indent` and then a `Dedent`
/// leaves the depth where it was, and so does reading a `Dedent` and then
/// an `Indent` at any depth above zero; at depth zero a `Dedent` keeps the
/// depth at zero.
pub proof fn law_a_dedent_lowers_the_depth_by_one(
    bytes: Seq<u8>,
    lexer: Seq<char>,
    items: Seq<Lexed>,
    i: int,
    lines: Seq<LineView>,
    current: Seq<TokenView>,
    depth: nat,
)
    requires
        0 <= i,
        i + 1 < items.len(),
    ensures
        items[i] is Indent && items[i + 1] is Dedent ==> scan(
            bytes,
            lexer,
            items,
            i,
            lines,
            current,
            depth,
        ) == scan(bytes, lexer, items, i + 2, lines, current, depth),
        items[i] is Dedent && items[i + 1] is Indent && depth > 0 ==> scan(
            bytes,
            lexer,
            items,
            i,
            lines,
            current,
            depth,
        ) == scan(bytes, lexer, items, i + 2, lines, current, depth),
        items[i] is Dedent ==> scan(bytes, lexer, items, i, lines, current, 0) == scan(
            bytes,
            lexer,
            items,
            i + 1,
            lines,
            current,
            0,
        ),
{
    if items[i] is Indent && items[i + 1] is Dedent {
        assert(scan(bytes, lexer, items, i, lines, current, depth) == scan(
            bytes,
            lexer,
            items,
            i + 1,
            lines,
            current,
            depth + 1,
        ));
    }
    if items[i] is Dedent && items[i + 1] is Indent && depth > 0 {
        assert(scan(bytes, lexer, items, i, lines, current, depth) == scan(
            bytes,
            lexer,
            items,
            i + 1,
            lines,
            current,
            (depth - 1) as nat,
        ));
    }
}

} // verus!

verus! {

proof fn lemma_lines_started_by(bytes: Seq<u8>, n: int, offset: int)
    requires
        0 <= n <= bytes.len(),
        bytes.len() <= usize::MAX,
        0 <= offset,
    ensures
        starts_up_to(line_starts(bytes, n), offset) == 1 + bytes.take(
            if n <= offset {
                n
            } else {
                offset
            },
        ).filter(|b: u8| b == 10u8).len(),
    decreases n,
{
    reveal_with_fuel(Seq::filter, 1);
    if n == 0 {
        assert(line_starts(bytes, 0) == seq![0usize]);
        assert(seq![0usize].drop_last() =~= Seq::<usize>::empty());
        assert(starts_up_to(Seq::<usize>::empty(), offset) == 0);
        assert(starts_up_to(seq![0usize], offset) == 1);
        assert(bytes.take(0) =~= Seq::<u8>::empty());
        assert(Seq::<u8>::empty().filter(|b: u8| b == 10u8).len() == 0);
    } else {
        lemma_lines_started_by(bytes, n - 1, offset);
        let before = line_starts(bytes, n - 1);
        let m = if n <= offset {
            n
        } else {
            offset
        };
        let m1 = if n - 1 <= offset {
            n - 1
        } else {
            offset
        };
        assert((n as usize) as int == n);
        if bytes[n - 1] == 10u8 {
            assert(line_starts(bytes, n) == before.push(n as usize));
            assert(before.push(n as usize).drop_last() =~= before);
            assert(starts_up_to(before.push(n as usize), offset) == starts_up_to(before, offset) + if n
                <= offset {
                1nat
            } else {
                0nat
            });
        } else {
            assert(line_starts(bytes, n) == before);
        }
        if n <= offset {
            assert(m == n && m1 == n - 1);
            assert(bytes.take(n).drop_last() =~= bytes.take(n - 1));
            assert(bytes.take(n).last() == bytes[n - 1]);
            assert(bytes.take(n).filter(|b: u8| b == 10u8) == if bytes[n - 1] == 10u8 {
                bytes.take(n - 1).filter(|b: u8| b == 10u8).push(bytes[n - 1])
            } else {
                bytes.take(n - 1).filter(|b: u8| b == 10u8)
            });
        } else {
            assert(m == offset && m1 == offset);
        }
    }
}

/// A line's number is one more than the number of line breaks (`\n`
/// bytes) in the source before its first token.
pub proof fn law_a_line_is_numbered_by_the_breaks_before_it(
    bytes: Seq<u8>,
    current: Seq<TokenView>,
    indent: nat,
)
    requires
        current.len() > 0,
        current[0].1.start <= bytes.len(),
        bytes.len() <= usize::MAX,
    ensures
        starts_up_to(line_starts(bytes, bytes.len() as int), current[0].1.start as int) == 1
            + bytes.take(current[0].1.start as int).filter(|b: u8| b == 10u8).len(),
        finished(line_starts(bytes, bytes.len() as int), current, indent).0 == (1 + bytes.take(
            current[0].1.start as int,
        ).filter(|b: u8| b == 10u8).len()) as usize,
{
    lemma_lines_started_by(bytes, bytes.len() as int, current[0].1.start as int);
}

} // verus!
