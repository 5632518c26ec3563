//! Safe Python-to-NME conversion.
//!
//! Conversion is deliberately semantics-preserving: lines with a clear NME
//! equivalent are rewritten and every other valid Python line remains
//! advanced syntax. Because all three levels may coexist, the result is still
//! a complete NME program rather than a partial or lossy rewrite.
use vstd::prelude::*;

use rustpython_parser::{parse as parse_python, Mode};

use crate::diagnostics::{Diagnostic, DiagnosticCode, Span};
use crate::lexer::{
    logical_lines, spec_logical_lines, token_views, LineView, LogicalLine, Token, TokenKind,
    TokenView,
};
use crate::lower::{
    apply_edits, edit_views, in_order, sorted_by_start, span_fits, splice, Edit, EditView,
};
use crate::text::{byte_slice, bytes_of, chars_of, on_boundary};

verus! {

/// The three surface levels an NME program may be written at.
#[derive(Debug, Clone, Copy, PartialEq, Eq, Structural)]
pub enum SyntaxLevel {
    Advanced,
    Beginner,
    Sentence,
}

/// The language NME's own words are written in.
#[derive(Debug, Clone, Copy, PartialEq, Eq, Structural)]
pub enum Language {
    English,
    Korean,
}

/// A converted program and how many of its lines changed.
#[derive(Debug, Clone, PartialEq, Eq)]
pub struct Conversion {
    pub source: String,
    pub changed_lines: usize,
}

// ------------------------------------------------------------ the parser

/// What the Python parser answers for a module: `None` when it parses, or
/// the byte offset and message of the error that stops it.
pub uninterp spec fn python_parse_problem(source: Seq<char>) -> Option<(usize, Seq<char>)>;

/// `rustpython_parser::parse` in module mode: nothing when the source is a
/// valid Python module, else the error's byte offset and its message as the
/// error displays it. What it answers is named by `python_parse_problem`, a
/// function of the source alone.
#[verifier::external_body]
fn parse_problem(source: &str) -> (problem: Option<(usize, String)>)
    ensures
        match problem {
            Some((offset, message)) => python_parse_problem(source@) == Some((offset, message@)),
            None => python_parse_problem(source@) is None,
        },
{
    match parse_python(source, Mode::Module, "<python>") {
        Ok(_) => None,
        Err(error) => Some((usize::from(error.offset), error.error.to_string())),
    }
}

// ---------------------------------------------------------- token reading

/// The text between two byte offsets, or nothing when they are reversed.
pub open spec fn span_text(s: Seq<char>, start: int, end: int) -> Seq<char> {
    if start <= end {
        byte_slice(s, start, end)
    } else {
        Seq::empty()
    }
}

/// A name token that spells `word`.
pub open spec fn is_word(t: TokenView, word: Seq<char>) -> bool {
    t.0 == Some(word)
}

/// A token other than a name (punctuation or a keyword) whose text is `mark`.
pub open spec fn is_mark(s: Seq<char>, t: TokenView, mark: Seq<char>) -> bool {
    t.0 is None && span_text(s, t.1.start as int, t.1.end as int) == mark
}

/// The source text from the first token's start to the last token's end.
pub open spec fn tokens_text(s: Seq<char>, toks: Seq<TokenView>) -> Seq<char> {
    span_text(s, toks[0].1.start as int, toks.last().1.end as int)
}

pub open spec fn opens(s: Seq<char>, t: TokenView) -> bool {
    is_mark(s, t, "("@) || is_mark(s, t, "["@) || is_mark(s, t, "{"@)
}

pub open spec fn closes(s: Seq<char>, t: TokenView) -> bool {
    is_mark(s, t, ")"@) || is_mark(s, t, "]"@) || is_mark(s, t, "}"@)
}

/// Whether a comma outside every bracket follows, reading from token `i`
/// at bracket depth `depth`; a closing bracket never takes the depth below
/// zero.
pub open spec fn comma_from(s: Seq<char>, toks: Seq<TokenView>, i: int, depth: nat) -> bool
    decreases toks.len() - i,
{
    if i < 0 || i >= toks.len() {
        false
    } else if opens(s, toks[i]) {
        comma_from(s, toks, i + 1, depth + 1)
    } else if closes(s, toks[i]) {
        comma_from(
            s,
            toks,
            i + 1,
            if depth > 0 {
                (depth - 1) as nat
            } else {
                0
            },
        )
    } else if is_mark(s, toks[i], ","@) && depth == 0 {
        true
    } else {
        comma_from(s, toks, i + 1, depth)
    }
}

/// Whether the tokens hold a comma outside every bracket.
pub open spec fn has_top_level_comma(s: Seq<char>, toks: Seq<TokenView>) -> bool {
    comma_from(s, toks, 0, 0)
}

/// Whether one of the names is `name`.
pub open spec fn knows(known: Seq<String>, name: Seq<char>) -> bool {
    exists|i: int| 0 <= i < known.len() && (#[trigger] known[i])@ == name
}

/// A lone name that nothing in the program binds.
pub open spec fn lone_unknown_name(toks: Seq<TokenView>, known: Seq<String>) -> bool {
    toks.len() == 1 && (toks[0].0 matches Some(name) && !knows(known, name))
}

/// A call of `name`: the name, `(`, anything, and `)` last.
pub open spec fn is_call(s: Seq<char>, toks: Seq<TokenView>, name: Seq<char>) -> bool {
    &&& toks.len() >= 3
    &&& is_word(toks[0], name)
    &&& is_mark(s, toks[1], "("@)
    &&& is_mark(s, toks.last(), ")"@)
}

} // verus!

verus! {

/// The tokens `from..to` of a line, as views.
pub open spec fn run(tokens: Seq<Token>, from: int, to: int) -> Seq<TokenView> {
    token_views(tokens).subrange(from, to)
}

/// The text between two byte offsets, as `span_text` reads it.
fn span_string(src: &Vec<char>, start: usize, end: usize) -> (text: String)
    requires
        bytes_of(src@) <= usize::MAX,
    ensures
        text@ == span_text(src@, start as int, end as int),
{
    let mut text = String::new();
    if start <= end {
        crate::text::push_byte_slice(&mut text, src.as_slice(), start, end);
    }
    text
}

/// Whether the token is a name that spells `word`.
fn word_is(token: &Token, word: &str) -> (yes: bool)
    ensures
        yes == is_word(crate::lexer::token_view(*token), word@),
{
    match &token.tok {
        TokenKind::Name(name) => crate::text::same_text(name.as_str(), word),
        TokenKind::Other => false,
    }
}

/// Whether the token is punctuation or a keyword written `mark`.
fn mark_is(src: &Vec<char>, token: &Token, mark: &str) -> (yes: bool)
    requires
        bytes_of(src@) <= usize::MAX,
    ensures
        yes == is_mark(src@, crate::lexer::token_view(*token), mark@),
{
    match &token.tok {
        TokenKind::Name(_) => false,
        TokenKind::Other => {
            let text = span_string(src, token.span.start, token.span.end);
            crate::text::same_text(text.as_str(), mark)
        },
    }
}

/// The source text a nonempty run of tokens covers.
fn run_text(src: &Vec<char>, tokens: &Vec<Token>, from: usize, to: usize) -> (text: String)
    requires
        bytes_of(src@) <= usize::MAX,
        from < to <= tokens@.len(),
    ensures
        text@ == tokens_text(src@, run(tokens@, from as int, to as int)),
{
    let ghost toks = run(tokens@, from as int, to as int);
    assert(toks[0] == crate::lexer::token_view(tokens@[from as int]));
    assert(toks.last() == crate::lexer::token_view(tokens@[to - 1]));
    span_string(src, tokens[from].span.start, tokens[to - 1].span.end)
}

/// Whether a run of tokens holds a comma outside every bracket.
fn top_level_comma(src: &Vec<char>, tokens: &Vec<Token>, from: usize, to: usize) -> (found: bool)
    requires
        bytes_of(src@) <= usize::MAX,
        from <= to <= tokens@.len(),
    ensures
        found == has_top_level_comma(src@, run(tokens@, from as int, to as int)),
{
    let ghost toks = run(tokens@, from as int, to as int);
    let mut depth: usize = 0;
    let mut i: usize = from;
    while i < to
        invariant
            from <= i <= to <= tokens@.len(),
            bytes_of(src@) <= usize::MAX,
            depth <= i - from,
            toks == run(tokens@, from as int, to as int),
            has_top_level_comma(src@, toks) == comma_from(
                src@,
                toks,
                i - from,
                depth as nat,
            ),
        decreases to - i,
    {
        let ghost k = i - from;
        assert(toks[k] == crate::lexer::token_view(tokens@[i as int]));
        let token = &tokens[i];
        if mark_is(src, token, "(") || mark_is(src, token, "[") || mark_is(src, token, "{") {
            depth = depth + 1;
        } else if mark_is(src, token, ")") || mark_is(src, token, "]") || mark_is(src, token, "}") {
            if depth > 0 {
                depth = depth - 1;
            }
        } else if mark_is(src, token, ",") && depth == 0 {
            return true;
        }
        i = i + 1;
    }
    false
}

/// Whether one of the names is `name`.
fn knows_name(known: &Vec<String>, name: &str) -> (yes: bool)
    ensures
        yes == knows(known@, name@),
{
    let mut i: usize = 0;
    while i < known.len()
        invariant
            0 <= i <= known@.len(),
            forall|j: int| 0 <= j < i ==> (#[trigger] known@[j])@ != name@,
        decreases known@.len() - i,
    {
        if crate::text::same_text(known[i].as_str(), name) {
            return true;
        }
        i = i + 1;
    }
    false
}

/// Whether the run is a lone name that nothing in the program binds.
fn unknown_lone_name(tokens: &Vec<Token>, from: usize, to: usize, known: &Vec<String>) -> (yes: bool)
    requires
        from <= to <= tokens@.len(),
    ensures
        yes == lone_unknown_name(run(tokens@, from as int, to as int), known@),
{
    if to - from != 1 {
        return false;
    }
    let ghost toks = run(tokens@, from as int, to as int);
    assert(toks[0] == crate::lexer::token_view(tokens@[from as int]));
    match &tokens[from].tok {
        TokenKind::Name(name) => !knows_name(known, name.as_str()),
        TokenKind::Other => false,
    }
}

/// Whether the run is a call of `name`.
fn call_of(src: &Vec<char>, tokens: &Vec<Token>, from: usize, to: usize, name: &str) -> (yes: bool)
    requires
        bytes_of(src@) <= usize::MAX,
        from <= to <= tokens@.len(),
    ensures
        yes == is_call(src@, run(tokens@, from as int, to as int), name@),
{
    if to - from < 3 {
        return false;
    }
    let ghost toks = run(tokens@, from as int, to as int);
    assert(toks[0] == crate::lexer::token_view(tokens@[from as int]));
    assert(toks[1] == crate::lexer::token_view(tokens@[from + 1]));
    assert(toks.last() == crate::lexer::token_view(tokens@[to - 1]));
    word_is(&tokens[from], name) && mark_is(src, &tokens[from + 1], "(") && mark_is(
        src,
        &tokens[to - 1],
        ")",
    )
}

} // verus!

verus! {

// ------------------------------------------------------- line conversions

/// What a `print(value)` line becomes: the value shown with `say`, `말해`,
/// `show` or `보여줘`; nothing for several arguments, or, at sentence level,
/// for a lone name nothing binds.
pub open spec fn printed(
    s: Seq<char>,
    toks: Seq<TokenView>,
    level: SyntaxLevel,
    language: Language,
    known: Seq<String>,
) -> Option<Seq<char>> {
    if toks.len() < 4 || !is_word(toks[0], "print"@) || !is_mark(s, toks[1], "("@) || !is_mark(
        s,
        toks.last(),
        ")"@,
    ) {
        None
    } else {
        let argument = toks.subrange(2, toks.len() - 1);
        if has_top_level_comma(s, argument) {
            None
        } else if level == SyntaxLevel::Sentence && lone_unknown_name(argument, known) {
            None
        } else {
            let value = tokens_text(s, argument);
            match (level, language) {
                (SyntaxLevel::Beginner, Language::English) => Some("say "@ + value),
                (SyntaxLevel::Beginner, Language::Korean) => Some("말해 "@ + value),
                (SyntaxLevel::Sentence, Language::English) => Some("show "@ + value),
                (SyntaxLevel::Sentence, Language::Korean) => Some("보여줘 "@ + value),
                (SyntaxLevel::Advanced, _) => None,
            }
        }
    }
}

/// `name = input(..)` or `name = int(input(..))`: the name, whether the
/// input is read as a number, and the `input(..)` call.
pub open spec fn input_assignment(s: Seq<char>, toks: Seq<TokenView>) -> Option<
    (Seq<char>, bool, Seq<TokenView>),
> {
    if toks.len() >= 2 && toks[0].0 is Some && is_mark(s, toks[1], "="@) {
        let target = toks[0].0->0;
        let rest = toks.subrange(2, toks.len() as int);
        if is_call(s, rest, "input"@) {
            Some((target, false, rest))
        } else if rest.len() >= 4 && is_word(rest[0], "int"@) && is_mark(s, rest[1], "("@)
            && is_mark(s, rest.last(), ")"@) && is_call(
            s,
            rest.subrange(2, rest.len() - 1),
            "input"@,
        ) {
            Some((target, true, rest.subrange(2, rest.len() - 1)))
        } else {
            None
        }
    } else {
        None
    }
}

/// What an input line becomes: `ask`/`물어봐` with the target and, when
/// there is one, the prompt; numeric input only at sentence level; nothing,
/// at sentence level, for a prompt that is a lone name nothing binds.
pub open spec fn asked(
    s: Seq<char>,
    toks: Seq<TokenView>,
    level: SyntaxLevel,
    language: Language,
    known: Seq<String>,
) -> Option<Seq<char>> {
    match input_assignment(s, toks) {
        None => None,
        Some((target, number, call)) => {
            let prompt_tokens = call.subrange(2, call.len() - 1);
            if prompt_tokens.len() > 0 && level == SyntaxLevel::Sentence && lone_unknown_name(
                prompt_tokens,
                known,
            ) {
                None
            } else {
                let comma = if prompt_tokens.len() == 0 {
                    Seq::empty()
                } else {
                    ", "@ + tokens_text(s, prompt_tokens)
                };
                let space = if prompt_tokens.len() == 0 {
                    Seq::empty()
                } else {
                    " "@ + tokens_text(s, prompt_tokens)
                };
                match (level, language, number) {
                    (SyntaxLevel::Beginner, Language::English, false) => Some(
                        "ask "@ + target + comma,
                    ),
                    (SyntaxLevel::Beginner, Language::Korean, false) => Some(
                        "물어봐 "@ + target + comma,
                    ),
                    (SyntaxLevel::Sentence, Language::English, false) => Some(
                        "ask "@ + target + space,
                    ),
                    (SyntaxLevel::Sentence, Language::English, true) => Some(
                        "ask number "@ + target + space,
                    ),
                    (SyntaxLevel::Sentence, Language::Korean, false) => Some(
                        target + "을 물어봐"@ + space,
                    ),
                    (SyntaxLevel::Sentence, Language::Korean, true) => Some(
                        target + "을 숫자로 물어봐"@ + space,
                    ),
                    _ => None,
                }
            }
        },
    }
}

/// What `for _ in range(count):` becomes: a count of repeats.
pub open spec fn repeated(
    s: Seq<char>,
    toks: Seq<TokenView>,
    level: SyntaxLevel,
    language: Language,
) -> Option<Seq<char>> {
    if toks.len() < 8 || !is_mark(s, toks[0], "for"@) || !is_word(toks[1], "_"@) || !is_mark(
        s,
        toks[2],
        "in"@,
    ) || !is_word(toks[3], "range"@) || !is_mark(s, toks[4], "("@) || !is_mark(
        s,
        toks[toks.len() - 2],
        ")"@,
    ) || !is_mark(s, toks.last(), ":"@) {
        None
    } else {
        let count_tokens = toks.subrange(5, toks.len() - 2);
        if has_top_level_comma(s, count_tokens) {
            None
        } else {
            let count = tokens_text(s, count_tokens);
            match (level, language) {
                (SyntaxLevel::Beginner, Language::English) => Some(count + " times:"@),
                (SyntaxLevel::Beginner, Language::Korean) => Some(count + "번:"@),
                (SyntaxLevel::Sentence, Language::English) => Some("repeat "@ + count + " times"@),
                (SyntaxLevel::Sentence, Language::Korean) => Some(count + "번 반복해"@),
                (SyntaxLevel::Advanced, _) => None,
            }
        }
    }
}

/// What `if condition:` becomes.
pub open spec fn conditioned(
    s: Seq<char>,
    toks: Seq<TokenView>,
    level: SyntaxLevel,
    language: Language,
) -> Option<Seq<char>> {
    if toks.len() < 3 || !is_mark(s, toks[0], "if"@) || !is_mark(s, toks.last(), ":"@) {
        None
    } else {
        let condition = tokens_text(s, toks.subrange(1, toks.len() - 1));
        match (level, language) {
            (SyntaxLevel::Beginner, Language::English) => Some("when "@ + condition + ":"@),
            (SyntaxLevel::Beginner, Language::Korean) => Some("만약 "@ + condition + ":"@),
            (SyntaxLevel::Sentence, Language::English) => Some("if "@ + condition),
            (SyntaxLevel::Sentence, Language::Korean) => Some("만약에 "@ + condition),
            (SyntaxLevel::Advanced, _) => None,
        }
    }
}

/// What `import random` becomes.
pub open spec fn imported(
    s: Seq<char>,
    toks: Seq<TokenView>,
    level: SyntaxLevel,
    language: Language,
) -> Option<Seq<char>> {
    if toks.len() != 2 || !is_mark(s, toks[0], "import"@) || !is_word(toks[1], "random"@) {
        None
    } else {
        match (level, language) {
            (SyntaxLevel::Beginner, Language::English) => Some("use random"@),
            (SyntaxLevel::Beginner, Language::Korean) => Some("랜덤 사용"@),
            (SyntaxLevel::Sentence, Language::English) => Some("use random latest"@),
            (SyntaxLevel::Sentence, Language::Korean) => Some("랜덤 사용 최신"@),
            (SyntaxLevel::Advanced, _) => None,
        }
    }
}

/// What `name = value` becomes at sentence level; nothing when the value
/// is a lone name nothing binds.
pub open spec fn assigned(
    s: Seq<char>,
    toks: Seq<TokenView>,
    level: SyntaxLevel,
    language: Language,
    known: Seq<String>,
) -> Option<Seq<char>> {
    if level != SyntaxLevel::Sentence || toks.len() <= 2 || toks[0].0 is None || !is_mark(
        s,
        toks[1],
        "="@,
    ) {
        None
    } else {
        let target = toks[0].0->0;
        let value = toks.subrange(2, toks.len() as int);
        if lone_unknown_name(value, known) {
            None
        } else {
            match language {
                Language::English => Some("set "@ + target + " to "@ + tokens_text(s, value)),
                Language::Korean => Some(target + "은 "@ + tokens_text(s, value)),
            }
        }
    }
}

/// What a line's tokens become: the first of the conversions that applies.
pub open spec fn converted(
    s: Seq<char>,
    toks: Seq<TokenView>,
    level: SyntaxLevel,
    language: Language,
    known: Seq<String>,
) -> Option<Seq<char>> {
    if printed(s, toks, level, language, known) is Some {
        printed(s, toks, level, language, known)
    } else if asked(s, toks, level, language, known) is Some {
        asked(s, toks, level, language, known)
    } else if repeated(s, toks, level, language) is Some {
        repeated(s, toks, level, language)
    } else if conditioned(s, toks, level, language) is Some {
        conditioned(s, toks, level, language)
    } else if imported(s, toks, level, language) is Some {
        imported(s, toks, level, language)
    } else {
        assigned(s, toks, level, language, known)
    }
}

} // verus!

verus! {

/// A written text, as its characters.
pub open spec fn written(text: Option<String>) -> Option<Seq<char>> {
    match text {
        Some(t) => Some(t@),
        None => None,
    }
}

fn convert_print(
    src: &Vec<char>,
    tokens: &Vec<Token>,
    level: SyntaxLevel,
    language: Language,
    known: &Vec<String>,
) -> (text: Option<String>)
    requires
        bytes_of(src@) <= usize::MAX,
    ensures
        written(text) == printed(src@, token_views(tokens@), level, language, known@),
{
    let n = tokens.len();
    let ghost toks = token_views(tokens@);
    if n < 4 {
        return None;
    }
    assert(toks[0] == crate::lexer::token_view(tokens@[0]));
    assert(toks[1] == crate::lexer::token_view(tokens@[1]));
    assert(toks.last() == crate::lexer::token_view(tokens@[n - 1]));
    if !word_is(&tokens[0], "print") || !mark_is(src, &tokens[1], "(") || !mark_is(
        src,
        &tokens[n - 1],
        ")",
    ) {
        return None;
    }
    if top_level_comma(src, tokens, 2, n - 1) {
        return None;
    }
    if level == SyntaxLevel::Sentence && unknown_lone_name(tokens, 2, n - 1, known) {
        return None;
    }
    let value = run_text(src, tokens, 2, n - 1);
    let mut out = String::new();
    match (level, language) {
        (SyntaxLevel::Beginner, Language::English) => out.append("say "),
        (SyntaxLevel::Beginner, Language::Korean) => out.append("말해 "),
        (SyntaxLevel::Sentence, Language::English) => out.append("show "),
        (SyntaxLevel::Sentence, Language::Korean) => out.append("보여줘 "),
        (SyntaxLevel::Advanced, _) => return None,
    }
    out.append(value.as_str());
    Some(out)
}

/// Appends the prompt after `separator`, when there is one.
fn push_prompt(out: &mut String, separator: &str, prompt: &Option<String>)
    ensures
        final(out)@ == old(out)@ + match prompt {
            Some(p) => separator@ + p@,
            None => Seq::empty(),
        },
{
    match prompt {
        Some(p) => {
            out.append(separator);
            out.append(p.as_str());
        },
        None => {
            assert(out@ =~= out@ + Seq::<char>::empty());
        },
    }
}

fn convert_input(
    src: &Vec<char>,
    tokens: &Vec<Token>,
    level: SyntaxLevel,
    language: Language,
    known: &Vec<String>,
) -> (text: Option<String>)
    requires
        bytes_of(src@) <= usize::MAX,
    ensures
        written(text) == asked(src@, token_views(tokens@), level, language, known@),
{
    let n = tokens.len();
    let ghost toks = token_views(tokens@);
    if n < 2 {
        return None;
    }
    assert(toks[0] == crate::lexer::token_view(tokens@[0]));
    assert(toks[1] == crate::lexer::token_view(tokens@[1]));
    let target = match &tokens[0].tok {
        TokenKind::Name(target) => target,
        TokenKind::Other => {
            return None;
        },
    };
    if !mark_is(src, &tokens[1], "=") {
        return None;
    }
    let ghost rest = toks.subrange(2, n as int);
    assert(rest == run(tokens@, 2, n as int));
    let number: bool;
    let from: usize;
    let to: usize;
    if call_of(src, tokens, 2, n, "input") {
        number = false;
        from = 2;
        to = n;
    } else {
        if n < 6 {
            return None;
        }
        assert(rest[0] == crate::lexer::token_view(tokens@[2]));
        assert(rest[1] == crate::lexer::token_view(tokens@[3]));
        assert(rest.last() == crate::lexer::token_view(tokens@[n - 1]));
        assert(rest.subrange(2, rest.len() - 1) =~= run(tokens@, 4, n - 1));
        if word_is(&tokens[2], "int") && mark_is(src, &tokens[3], "(") && mark_is(
            src,
            &tokens[n - 1],
            ")",
        ) && call_of(src, tokens, 4, n - 1, "input") {
            number = true;
            from = 4;
            to = n - 1;
        } else {
            return None;
        }
    }
    let ghost call = run(tokens@, from as int, to as int);
    assert(input_assignment(src@, toks) == Some((target@, number, call)));
    assert(call.subrange(2, call.len() - 1) =~= run(tokens@, from + 2, to - 1));
    let first = from + 2;
    let last = to - 1;
    if first < last && level == SyntaxLevel::Sentence && unknown_lone_name(
        tokens,
        first,
        last,
        known,
    ) {
        return None;
    }
    let prompt: Option<String> = if first < last {
        Some(run_text(src, tokens, first, last))
    } else {
        None
    };
    let mut out = String::new();
    match (level, language, number) {
        (SyntaxLevel::Beginner, Language::English, false) => {
            out.append("ask ");
            out.append(target.as_str());
            push_prompt(&mut out, ", ", &prompt);
        },
        (SyntaxLevel::Beginner, Language::Korean, false) => {
            out.append("물어봐 ");
            out.append(target.as_str());
            push_prompt(&mut out, ", ", &prompt);
        },
        (SyntaxLevel::Sentence, Language::English, false) => {
            out.append("ask ");
            out.append(target.as_str());
            push_prompt(&mut out, " ", &prompt);
        },
        (SyntaxLevel::Sentence, Language::English, true) => {
            out.append("ask number ");
            out.append(target.as_str());
            push_prompt(&mut out, " ", &prompt);
        },
        (SyntaxLevel::Sentence, Language::Korean, false) => {
            out.append(target.as_str());
            out.append("을 물어봐");
            push_prompt(&mut out, " ", &prompt);
        },
        (SyntaxLevel::Sentence, Language::Korean, true) => {
            out.append(target.as_str());
            out.append("을 숫자로 물어봐");
            push_prompt(&mut out, " ", &prompt);
        },
        // Numeric input is a sentence feature; beginner conversion keeps
        // such a line as advanced Python rather than change its meaning.
        _ => {
            return None;
        },
    }
    Some(out)
}

fn convert_range_loop(
    src: &Vec<char>,
    tokens: &Vec<Token>,
    level: SyntaxLevel,
    language: Language,
) -> (text: Option<String>)
    requires
        bytes_of(src@) <= usize::MAX,
    ensures
        written(text) == repeated(src@, token_views(tokens@), level, language),
{
    let n = tokens.len();
    let ghost toks = token_views(tokens@);
    if n < 8 {
        return None;
    }
    assert(toks[0] == crate::lexer::token_view(tokens@[0]));
    assert(toks[1] == crate::lexer::token_view(tokens@[1]));
    assert(toks[2] == crate::lexer::token_view(tokens@[2]));
    assert(toks[3] == crate::lexer::token_view(tokens@[3]));
    assert(toks[4] == crate::lexer::token_view(tokens@[4]));
    assert(toks[n - 2] == crate::lexer::token_view(tokens@[n - 2]));
    assert(toks.last() == crate::lexer::token_view(tokens@[n - 1]));
    if !mark_is(src, &tokens[0], "for") || !word_is(&tokens[1], "_") || !mark_is(
        src,
        &tokens[2],
        "in",
    ) || !word_is(&tokens[3], "range") || !mark_is(src, &tokens[4], "(") || !mark_is(
        src,
        &tokens[n - 2],
        ")",
    ) || !mark_is(src, &tokens[n - 1], ":") {
        return None;
    }
    if top_level_comma(src, tokens, 5, n - 2) {
        return None;
    }
    let count = run_text(src, tokens, 5, n - 2);
    let mut out = String::new();
    match (level, language) {
        (SyntaxLevel::Beginner, Language::English) => {
            out.append(count.as_str());
            out.append(" times:");
        },
        (SyntaxLevel::Beginner, Language::Korean) => {
            out.append(count.as_str());
            out.append("번:");
        },
        (SyntaxLevel::Sentence, Language::English) => {
            out.append("repeat ");
            out.append(count.as_str());
            out.append(" times");
        },
        (SyntaxLevel::Sentence, Language::Korean) => {
            out.append(count.as_str());
            out.append("번 반복해");
        },
        (SyntaxLevel::Advanced, _) => {
            return None;
        },
    }
    Some(out)
}

fn convert_condition(
    src: &Vec<char>,
    tokens: &Vec<Token>,
    level: SyntaxLevel,
    language: Language,
) -> (text: Option<String>)
    requires
        bytes_of(src@) <= usize::MAX,
    ensures
        written(text) == conditioned(src@, token_views(tokens@), level, language),
{
    let n = tokens.len();
    let ghost toks = token_views(tokens@);
    if n < 3 {
        return None;
    }
    assert(toks[0] == crate::lexer::token_view(tokens@[0]));
    assert(toks.last() == crate::lexer::token_view(tokens@[n - 1]));
    if !mark_is(src, &tokens[0], "if") || !mark_is(src, &tokens[n - 1], ":") {
        return None;
    }
    let condition = run_text(src, tokens, 1, n - 1);
    let mut out = String::new();
    match (level, language) {
        (SyntaxLevel::Beginner, Language::English) => {
            out.append("when ");
            out.append(condition.as_str());
            out.append(":");
        },
        (SyntaxLevel::Beginner, Language::Korean) => {
            out.append("만약 ");
            out.append(condition.as_str());
            out.append(":");
        },
        (SyntaxLevel::Sentence, Language::English) => {
            out.append("if ");
            out.append(condition.as_str());
        },
        (SyntaxLevel::Sentence, Language::Korean) => {
            out.append("만약에 ");
            out.append(condition.as_str());
        },
        (SyntaxLevel::Advanced, _) => {
            return None;
        },
    }
    Some(out)
}

fn convert_random_import(
    src: &Vec<char>,
    tokens: &Vec<Token>,
    level: SyntaxLevel,
    language: Language,
) -> (text: Option<String>)
    requires
        bytes_of(src@) <= usize::MAX,
    ensures
        written(text) == imported(src@, token_views(tokens@), level, language),
{
    let ghost toks = token_views(tokens@);
    if tokens.len() != 2 {
        return None;
    }
    assert(toks[0] == crate::lexer::token_view(tokens@[0]));
    assert(toks[1] == crate::lexer::token_view(tokens@[1]));
    if !mark_is(src, &tokens[0], "import") || !word_is(&tokens[1], "random") {
        return None;
    }
    match (level, language) {
        (SyntaxLevel::Beginner, Language::English) => Some(String::from_str("use random")),
        (SyntaxLevel::Beginner, Language::Korean) => Some(String::from_str("랜덤 사용")),
        (SyntaxLevel::Sentence, Language::English) => Some(String::from_str("use random latest")),
        (SyntaxLevel::Sentence, Language::Korean) => Some(String::from_str("랜덤 사용 최신")),
        (SyntaxLevel::Advanced, _) => None,
    }
}

fn convert_assignment(
    src: &Vec<char>,
    tokens: &Vec<Token>,
    level: SyntaxLevel,
    language: Language,
    known: &Vec<String>,
) -> (text: Option<String>)
    requires
        bytes_of(src@) <= usize::MAX,
    ensures
        written(text) == assigned(src@, token_views(tokens@), level, language, known@),
{
    let n = tokens.len();
    let ghost toks = token_views(tokens@);
    if level != SyntaxLevel::Sentence || n <= 2 {
        return None;
    }
    assert(toks[0] == crate::lexer::token_view(tokens@[0]));
    assert(toks[1] == crate::lexer::token_view(tokens@[1]));
    let target = match &tokens[0].tok {
        TokenKind::Name(target) => target,
        TokenKind::Other => {
            return None;
        },
    };
    if !mark_is(src, &tokens[1], "=") {
        return None;
    }
    if unknown_lone_name(tokens, 2, n, known) {
        return None;
    }
    let value = run_text(src, tokens, 2, n);
    let mut out = String::new();
    match language {
        Language::English => {
            out.append("set ");
            out.append(target.as_str());
            out.append(" to ");
            out.append(value.as_str());
        },
        Language::Korean => {
            out.append(target.as_str());
            out.append("은 ");
            out.append(value.as_str());
        },
    }
    Some(out)
}

} // verus!

verus! {

// ------------------------------------------------------ whole conversions

/// The edit a line gets: its span, rewritten as its conversion.
pub open spec fn line_edit(
    s: Seq<char>,
    line: LineView,
    level: SyntaxLevel,
    language: Language,
    known: Seq<String>,
) -> Option<EditView> {
    match converted(s, line.2, level, language, known) {
        Some(replacement) => Some((line.3, replacement)),
        None => None,
    }
}

/// The edits the lines get, in the order of the lines.
pub open spec fn line_edits(
    s: Seq<char>,
    lines: Seq<LineView>,
    level: SyntaxLevel,
    language: Language,
    known: Seq<String>,
) -> Seq<EditView>
    decreases lines.len(),
{
    if lines.len() == 0 {
        Seq::empty()
    } else {
        let before = line_edits(s, lines.drop_last(), level, language, known);
        match line_edit(s, lines.last(), level, language, known) {
            Some(edit) => before.push(edit),
            None => before,
        }
    }
}

/// Every line's span lies on character boundaries of the source, and each
/// line ends before any later line starts.
pub open spec fn lines_fit(s: Seq<char>, lines: Seq<LineView>) -> bool {
    &&& forall|i: int| 0 <= i < lines.len() ==> span_fits(#[trigger] lines[i].3, s)
    &&& forall|a: int, b: int|
        0 <= a < b < lines.len() ==> #[trigger] lines[a].3.end <= #[trigger] lines[b].3.start
}

/// Edits that each start no later than they end, one after another, are
/// already sorted by where they start.
proof fn lemma_sorted_when_in_order(edits: Seq<EditView>)
    requires
        forall|k: int| 0 <= k < edits.len() ==> (#[trigger] edits[k]).0.start <= edits[k].0.end,
        in_order(edits),
    ensures
        sorted_by_start(edits) == edits,
    decreases edits.len(),
{
    if edits.len() > 0 {
        let rest = edits.drop_last();
        assert forall|k: int| 0 <= k < rest.len() - 1 implies #[trigger] rest[k].0.end <= rest[k
            + 1].0.start by {
            assert(edits[k].0.end <= edits[k + 1].0.start);
        }
        lemma_sorted_when_in_order(rest);
        if rest.len() == 0 {
            assert(seq![edits.last()] =~= edits);
        } else {
            assert(edits[rest.len() - 1].0.end <= edits[rest.len() as int].0.start);
            assert(rest.push(edits.last()) =~= edits);
        }
    }
}

fn convert_line(
    src: &Vec<char>,
    line: &LogicalLine,
    level: SyntaxLevel,
    language: Language,
    known: &Vec<String>,
) -> (edit: Option<Edit>)
    requires
        bytes_of(src@) <= usize::MAX,
    ensures
        match edit {
            Some(e) => line_edit(src@, crate::lexer::line_view(*line), level, language, known@)
                == Some((e.span, e.replacement@)),
            None => line_edit(src@, crate::lexer::line_view(*line), level, language, known@) is None,
        },
{
    let tokens = &line.tokens;
    let mut replacement = convert_print(src, tokens, level, language, known);
    if replacement.is_none() {
        replacement = convert_input(src, tokens, level, language, known);
    }
    if replacement.is_none() {
        replacement = convert_range_loop(src, tokens, level, language);
    }
    if replacement.is_none() {
        replacement = convert_condition(src, tokens, level, language);
    }
    if replacement.is_none() {
        replacement = convert_random_import(src, tokens, level, language);
    }
    if replacement.is_none() {
        replacement = convert_assignment(src, tokens, level, language, known);
    }
    match replacement {
        Some(replacement) => Some(Edit { span: line.span, replacement }),
        None => None,
    }
}

/// Rewrites every line that has a clear NME equivalent at `level`, in
/// `language`, and keeps every other byte; `known` are the names the
/// program binds.
pub fn convert_lines(
    source: &str,
    lines: &Vec<LogicalLine>,
    level: SyntaxLevel,
    language: Language,
    known: &Vec<String>,
) -> (conversion: Conversion)
    requires
        lines_fit(source@, crate::lexer::line_views(lines@)),
    ensures
        conversion.source@ == splice(
            source@,
            line_edits(source@, crate::lexer::line_views(lines@), level, language, known@),
            0,
        ),
        conversion.changed_lines == line_edits(
            source@,
            crate::lexer::line_views(lines@),
            level,
            language,
            known@,
        ).len(),
{
    let src = chars_of(source);
    let ghost views = crate::lexer::line_views(lines@);
    let mut edits: Vec<Edit> = Vec::new();
    let mut i: usize = 0;
    assert(views.take(0) =~= Seq::<LineView>::empty());
    assert(edit_views(edits@) =~= Seq::<EditView>::empty());
    while i < lines.len()
        invariant
            0 <= i <= lines@.len(),
            src@ == source@,
            bytes_of(src@) <= usize::MAX,
            views == crate::lexer::line_views(lines@),
            lines_fit(source@, views),
            edit_views(edits@) == line_edits(source@, views.take(i as int), level, language, known@),
            forall|k: int| 0 <= k < edits@.len() ==> span_fits(#[trigger] edits@[k].span, source@),
            in_order(edit_views(edits@)),
            edits@.len() > 0 ==> forall|b: int|
                i <= b < views.len() ==> edits@.last().span.end <= #[trigger] views[b].3.start,
        decreases lines@.len() - i,
    {
        let ghost before = edits@;
        assert(views.take(i + 1).drop_last() =~= views.take(i as int));
        assert(views.take(i + 1).last() == views[i as int]);
        assert(views[i as int] == crate::lexer::line_view(lines@[i as int]));
        match convert_line(&src, &lines[i], level, language, known) {
            Some(edit) => {
                edits.push(edit);
                assert(edit_views(edits@) =~= edit_views(before).push(
                    (edit.span, edit.replacement@),
                ));
                assert(span_fits(views[i as int].3, source@));
                assert forall|b: int| i + 1 <= b < views.len() implies edits@.last().span.end
                    <= #[trigger] views[b].3.start by {
                    assert(views[i as int].3.end <= views[b].3.start);
                }
            },
            None => {},
        }
        i = i + 1;
    }
    assert(views.take(lines@.len() as int) =~= views);
    proof {
        lemma_sorted_when_in_order(edit_views(edits@));
    }
    let changed_lines = edits.len();
    Conversion { source: apply_edits(source, edits.as_slice()), changed_lines }
}

} // verus!

verus! {

/// Whether byte `b` is a character boundary of the text.
fn boundary_at(src: &Vec<char>, b: usize) -> (yes: bool)
    requires
        bytes_of(src@) <= usize::MAX,
    ensures
        yes == on_boundary(src@, b as int),
{
    let total = crate::diagnostics::offset_at(src, src.len());
    assert(src@.take(src@.len() as int) =~= src@);
    if b > total {
        return false;
    }
    let k = crate::text::char_index_at(src.as_slice(), b);
    crate::diagnostics::offset_at(src, k) == b
}

/// Whether the lines fit the source as `lines_fit` says.
fn lines_fit_in(src: &Vec<char>, lines: &Vec<LogicalLine>) -> (yes: bool)
    requires
        bytes_of(src@) <= usize::MAX,
    ensures
        yes == lines_fit(src@, crate::lexer::line_views(lines@)),
{
    let ghost views = crate::lexer::line_views(lines@);
    let mut i: usize = 0;
    while i < lines.len()
        invariant
            0 <= i <= lines@.len(),
            bytes_of(src@) <= usize::MAX,
            views == crate::lexer::line_views(lines@),
            forall|k: int| 0 <= k < i ==> span_fits(#[trigger] views[k].3, src@),
            forall|a: int, b: int|
                0 <= a < b < i ==> #[trigger] views[a].3.end <= #[trigger] views[b].3.start,
        decreases lines@.len() - i,
    {
        let span = lines[i].span;
        assert(views[i as int].3 == span);
        if !(span.start <= span.end && boundary_at(src, span.start) && boundary_at(src, span.end)) {
            assert(!span_fits(views[i as int].3, src@));
            return false;
        }
        if i > 0 {
            assert(views[i - 1].3 == lines@[i - 1].span);
            if lines[i - 1].span.end > span.start {
                assert(views[i - 1].3.end > views[i as int].3.start);
                return false;
            }
            assert forall|a: int, b: int| 0 <= a < b < i + 1 implies #[trigger] views[a].3.end
                <= #[trigger] views[b].3.start by {
                if b == i && a < i - 1 {
                    assert(views[a].3.end <= views[i - 1].3.start);
                    assert(span_fits(views[i - 1].3, src@));
                }
            }
        }
        i = i + 1;
    }
    true
}

/// The refusal of a source that is not valid Python: the parser's message,
/// under the byte it points at (or the last byte, when it points past it).
pub open spec fn is_python_refusal(
    problem: Diagnostic,
    source: Seq<char>,
    offset: usize,
    message: Seq<char>,
) -> bool {
    let length = bytes_of(source);
    let last = if length >= 1 {
        length - 1
    } else {
        0
    };
    let start = if offset <= last {
        offset as int
    } else {
        last as int
    };
    let end = if start + 1 <= length {
        start + 1
    } else {
        length as int
    };
    &&& problem.code == DiagnosticCode::ConvertInvalidPython
    &&& problem.span == Span { start: start as usize, end: end as usize }
    &&& problem.message@ == "the Python source is not valid: "@ + message
    &&& problem.message_ko is None
    &&& problem.hint matches Some(hint) && hint@ == "fix this Python error before converting it to NME"@
    &&& problem.hint_ko is None
}

fn python_refusal(source: &str, offset: usize, message: &str) -> (problem: Diagnostic)
    ensures
        is_python_refusal(problem, source@, offset, message@),
{
    let length = source.as_bytes().len();
    assert(length == bytes_of(source@));
    let last = if length >= 1 { length - 1 } else { 0 };
    let start = if offset <= last { offset } else { last };
    let end = if start + 1 <= length { start + 1 } else { length };
    let mut english = String::new();
    english.append("the Python source is not valid: ");
    english.append(message);
    Diagnostic::new(DiagnosticCode::ConvertInvalidPython, english.as_str(), Span::new(start, end)).with_hint(
        "fix this Python error before converting it to NME",
    )
}

/// What converting a source that parses comes to: the source itself at the
/// advanced level, the lexer's refusal, or the lines rewritten (the source
/// unchanged, should the lexer's lines not fit it).
pub open spec fn conversion_of(
    source: Seq<char>,
    level: SyntaxLevel,
    language: Language,
    known: Seq<String>,
    result: Result<Conversion, Vec<Diagnostic>>,
) -> bool {
    if level == SyntaxLevel::Advanced {
        result matches Ok(c) && c.source@ == source && c.changed_lines == 0
    } else {
        match spec_logical_lines(source) {
            Err((location, message)) => result matches Err(problems) && problems@.len() == 1
                && crate::lexer::is_lexical_problem(problems@[0], source, location, message),
            Ok(lines) => result matches Ok(c) && if lines_fit(source, lines) {
                let edits = line_edits(source, lines, level, language, known);
                c.source@ == splice(source, edits, 0) && c.changed_lines == edits.len()
            } else {
                c.source@ == source && c.changed_lines == 0
            },
        }
    }
}

/// Convert valid Python into the requested NME surface level; `known_names`
/// are the names the program binds, which a lone name must be one of to be
/// shown, asked with or assigned at the sentence level.
///
/// Unsupported constructs remain byte-identical advanced Python. This is the
/// only lossless behavior possible because advanced Python is itself one of
/// NME's three syntax levels.
pub fn convert_python(
    source: &str,
    level: SyntaxLevel,
    language: Language,
    known_names: &Vec<String>,
) -> (result: Result<Conversion, Vec<Diagnostic>>)
    ensures
        match python_parse_problem(source@) {
            Some((offset, message)) => result matches Err(problems) && problems@.len() == 1
                && is_python_refusal(problems@[0], source@, offset, message),
            None => conversion_of(source@, level, language, known_names@, result),
        },
{
    match parse_problem(source) {
        Some((offset, message)) => {
            let problem = python_refusal(source, offset, message.as_str());
            return Err(vec![problem]);
        },
        None => {},
    }
    if level == SyntaxLevel::Advanced {
        return Ok(Conversion { source: String::from_str(source), changed_lines: 0 });
    }
    let lines = match logical_lines(source) {
        Ok(lines) => lines,
        Err(problem) => {
            return Err(vec![problem]);
        },
    };
    let src = chars_of(source);
    if !lines_fit_in(&src, &lines) {
        return Ok(Conversion { source: String::from_str(source), changed_lines: 0 });
    }
    Ok(convert_lines(source, &lines, level, language, known_names))
}

} // verus!

verus! {

// ------------------------------------------------------------------- laws

/// At the advanced level no line is rewritten: Python is already advanced
/// NME, so the conversion is byte-identical.
pub proof fn law_advanced_rewrites_no_line(
    s: Seq<char>,
    lines: Seq<LineView>,
    language: Language,
    known: Seq<String>,
)
    ensures
        line_edits(s, lines, SyntaxLevel::Advanced, language, known).len() == 0,
        splice(s, line_edits(s, lines, SyntaxLevel::Advanced, language, known), 0) == s,
    decreases lines.len(),
{
    if lines.len() > 0 {
        law_advanced_rewrites_no_line(s, lines.drop_last(), language, known);
    }
    assert(line_edits(s, lines, SyntaxLevel::Advanced, language, known) =~= Seq::<EditView>::empty());
    crate::lower::law_no_edits_keep_the_source(s);
}

/// Which names the program binds matters only at the sentence level: a
/// beginner (or advanced) conversion of a line is the same whatever names
/// are known.
pub proof fn law_only_sentences_ask_what_is_bound(
    s: Seq<char>,
    toks: Seq<TokenView>,
    level: SyntaxLevel,
    language: Language,
    known: Seq<String>,
    other: Seq<String>,
)
    requires
        level != SyntaxLevel::Sentence,
    ensures
        converted(s, toks, level, language, known) == converted(s, toks, level, language, other),
{
}

/// At most one edit per line: the count of changed lines never exceeds the
/// count of lines.
pub proof fn law_one_edit_per_line(
    s: Seq<char>,
    lines: Seq<LineView>,
    level: SyntaxLevel,
    language: Language,
    known: Seq<String>,
)
    ensures
        line_edits(s, lines, level, language, known).len() <= lines.len(),
    decreases lines.len(),
{
    if lines.len() > 0 {
        law_one_edit_per_line(s, lines.drop_last(), level, language, known);
    }
}

} // verus!

verus! {

/// Converting keeps whether an input is read as a number. A line
/// `name = int(input(..))` becomes, in sentences, `ask number name ..` in
/// English and `name을 숫자로 물어봐 ..` in Korean, while `name = input(..)`
/// becomes `ask name ..` and `name을 물어봐 ..`; at the beginner level, which
/// has no numeric input, a numeric input line is never rewritten as an
/// input.
pub proof fn law_a_number_input_stays_a_number_input(
    s: Seq<char>,
    toks: Seq<TokenView>,
    language: Language,
    known: Seq<String>,
    target: Seq<char>,
    number: bool,
    call: Seq<TokenView>,
)
    requires
        input_assignment(s, toks) == Some((target, number, call)),
        !(call.len() - 3 > 0 && lone_unknown_name(call.subrange(2, call.len() - 1), known)),
    ensures
        ({
            let prompt = call.subrange(2, call.len() - 1);
            let space = if prompt.len() == 0 {
                Seq::empty()
            } else {
                " "@ + tokens_text(s, prompt)
            };
            converted(s, toks, SyntaxLevel::Sentence, language, known) == Some(
                match (language, number) {
                    (Language::English, true) => "ask number "@ + target + space,
                    (Language::English, false) => "ask "@ + target + space,
                    (Language::Korean, true) => target + "을 숫자로 물어봐"@ + space,
                    (Language::Korean, false) => target + "을 물어봐"@ + space,
                },
            )
        }),
        number ==> asked(s, toks, SyntaxLevel::Beginner, language, known) is None,
{
    reveal_strlit("=");
    reveal_strlit("(");
    assert(is_mark(s, toks[1], "="@));
    assert("="@ =~= seq!['=']);
    assert("("@ =~= seq!['(']);
    assert("="@ != "("@) by {
        assert("="@[0] != "("@[0]);
    }
    assert(!is_mark(s, toks[1], "("@));
}

} // verus!

verus! {

/// `r` ends with `t`.
pub open spec fn ends_with(r: Seq<char>, t: Seq<char>) -> bool {
    r.len() >= t.len() && r.subrange(r.len() - t.len(), r.len() as int) == t
}

/// `r` starts with `t`.
pub open spec fn starts_with(r: Seq<char>, t: Seq<char>) -> bool {
    r.len() >= t.len() && r.subrange(0, t.len() as int) == t
}

/// A rewritten line carries the very Python text it was written with: what
/// `print(..)` shows ends the line written for it, and so does the value of
/// an assignment; the count of a `range(..)` loop starts the line written
/// for it in beginner form, and the condition of an `if` follows the word
/// that opens the line, with a colon only in beginner form.
pub proof fn law_a_conversion_keeps_the_expression(
    s: Seq<char>,
    toks: Seq<TokenView>,
    level: SyntaxLevel,
    language: Language,
    known: Seq<String>,
)
    ensures
        printed(s, toks, level, language, known) matches Some(r) ==> ends_with(
            r,
            tokens_text(s, toks.subrange(2, toks.len() - 1)),
        ),
        assigned(s, toks, level, language, known) matches Some(r) ==> ends_with(
            r,
            tokens_text(s, toks.subrange(2, toks.len() as int)),
        ),
        repeated(s, toks, SyntaxLevel::Beginner, language) matches Some(r) ==> starts_with(
            r,
            tokens_text(s, toks.subrange(5, toks.len() - 2)),
        ),
        conditioned(s, toks, level, language) matches Some(r) ==> {
            let c = tokens_text(s, toks.subrange(1, toks.len() - 1));
            let word = match (level, language) {
                (SyntaxLevel::Beginner, Language::English) => "when "@,
                (SyntaxLevel::Beginner, Language::Korean) => "만약 "@,
                (SyntaxLevel::Sentence, Language::English) => "if "@,
                _ => "만약에 "@,
            };
            r == word + c + if level == SyntaxLevel::Beginner {
                ":"@
            } else {
                Seq::empty()
            }
        },
{
    if printed(s, toks, level, language, known) is Some {
        let r = printed(s, toks, level, language, known)->0;
        let a = tokens_text(s, toks.subrange(2, toks.len() - 1));
        let w = r.subrange(0, r.len() - a.len());
        assert(r == w + a);
        assert(r.subrange(r.len() - a.len(), r.len() as int) =~= a);
    }
    if assigned(s, toks, level, language, known) is Some {
        let r = assigned(s, toks, level, language, known)->0;
        let a = tokens_text(s, toks.subrange(2, toks.len() as int));
        assert(r.subrange(r.len() - a.len(), r.len() as int) =~= a);
    }
    if repeated(s, toks, SyntaxLevel::Beginner, language) is Some {
        let r = repeated(s, toks, SyntaxLevel::Beginner, language)->0;
        let c = tokens_text(s, toks.subrange(5, toks.len() - 2));
        assert(r.subrange(0, c.len() as int) =~= c);
    }
    if conditioned(s, toks, level, language) is Some {
        let c = tokens_text(s, toks.subrange(1, toks.len() - 1));
        assert(c + Seq::<char>::empty() =~= c);
    }
}

} // verus!
