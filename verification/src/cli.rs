//! The decisions the `nme` command line makes, apart from the files and
//! processes it touches: which language to answer in, which program a typed
//! or half-typed name means, what the options of `nme compile` and
//! `nme convert` say, and the pages `nme modules` and `nme ko` print.
//!
//! The command line itself reads folders, files and answers and hands the
//! plain values to these functions; everything it decides is here.
use vstd::prelude::*;

use crate::convert::{Language, SyntaxLevel};
use crate::diagnostics::{explanation_of, DiagnosticCode};
use crate::syntax::BundledModuleId;
use crate::diagnostics::{countable, render_all, render_all_bilingual, spec_render_all, Diagnostic};
use crate::text::{
    all_digits, ascii_lower, chars_of, digits_value, is_digit, lemma_digits_grow, lower_ascii, push,
    push_chars, trim, trimmed,
};

verus! {

/// Which languages the command line answers in.
#[derive(Debug, Clone, Copy, PartialEq, Eq, Structural)]
pub enum MessageLanguage {
    English,
    KoreanAndEnglish,
}

// ---------------------------------------------------------------- korean

/// A Hangul jamo, compatibility jamo or syllable.
pub open spec fn is_korean(c: char) -> bool {
    ('\u{1100}' <= c <= '\u{11ff}') || ('\u{3130}' <= c <= '\u{318f}') || ('\u{ac00}' <= c
        <= '\u{d7af}')
}

/// Whether the text holds any Korean letter; a command typed in Korean is
/// answered in Korean as well as English.
pub fn contains_korean(text: &str) -> (korean: bool)
    ensures
        korean == exists|i: int| 0 <= i < text@.len() && is_korean(#[trigger] text@[i]),
{
    let cs = chars_of(text);
    let mut i: usize = 0;
    while i < cs.len()
        invariant
            0 <= i <= cs@.len(),
            cs@ == text@,
            forall|j: int| 0 <= j < i ==> !is_korean(#[trigger] cs@[j]),
        decreases cs@.len() - i,
    {
        let c = cs[i];
        if ('\u{1100}' <= c && c <= '\u{11ff}') || ('\u{3130}' <= c && c <= '\u{318f}') || (
        '\u{ac00}' <= c && c <= '\u{d7af}') {
            assert(is_korean(cs@[i as int]));
            return true;
        }
        i = i + 1;
    }
    false
}

/// The language to answer a typed word in.
pub fn language_of(text: &str) -> (language: MessageLanguage)
    ensures
        (language == MessageLanguage::KoreanAndEnglish) == exists|i: int|
            0 <= i < text@.len() && is_korean(#[trigger] text@[i]),
{
    if contains_korean(text) {
        MessageLanguage::KoreanAndEnglish
    } else {
        MessageLanguage::English
    }
}

// --------------------------------------------------------------- messages

/// `name` without every `.nme` it ends with.
pub open spec fn without_nme(name: Seq<char>) -> Seq<char>
    decreases name.len(),
{
    if name.len() >= 4 && name.subrange(name.len() - 4, name.len() as int) == ".nme"@ {
        without_nme(name.subrange(0, name.len() - 4))
    } else {
        name
    }
}

/// Names joined with `, `.
pub open spec fn listed(names: Seq<String>) -> Seq<char>
    decreases names.len(),
{
    if names.len() == 0 {
        Seq::empty()
    } else if names.len() == 1 {
        names[0]@
    } else {
        listed(names.drop_last()) + ", "@ + names.last()@
    }
}

/// The program name the hint suggests: the first match without `.nme`, or
/// what was typed when nothing matched.
pub open spec fn hinted_stem(wanted: Seq<char>, names: Seq<String>) -> Seq<char> {
    if names.len() > 0 {
        without_nme(names[0]@)
    } else {
        wanted
    }
}

fn strip_nme(name: &[char]) -> (stem: Vec<char>)
    ensures
        stem@ == without_nme(name@),
{
    let mut end = name.len();
    proof {
        reveal_strlit(".nme");
        assert(name@.subrange(0, end as int) =~= name@);
    }
    while end >= 4 && name[end - 4] == '.' && name[end - 3] == 'n' && name[end - 2] == 'm'
        && name[end - 1] == 'e'
        invariant
            end <= name@.len(),
            without_nme(name@) == without_nme(name@.subrange(0, end as int)),
        decreases end,
    {
        let ghost before = name@.subrange(0, end as int);
        proof {
            reveal_strlit(".nme");
        }
        assert(before.subrange(before.len() - 4, before.len() as int) =~= ".nme"@);
        assert(before.subrange(0, before.len() - 4) =~= name@.subrange(0, end - 4));
        end = end - 4;
    }
    proof {
        let last = name@.subrange(0, end as int);
        if last.len() >= 4 && last.subrange(last.len() - 4, last.len() as int) == ".nme"@ {
            assert(last.subrange(last.len() - 4, last.len() as int)[0] == '.');
            assert(last.subrange(last.len() - 4, last.len() as int)[1] == 'n');
            assert(last.subrange(last.len() - 4, last.len() as int)[2] == 'm');
            assert(last.subrange(last.len() - 4, last.len() as int)[3] == 'e');
        }
    }
    let mut stem: Vec<char> = Vec::new();
    let mut k: usize = 0;
    while k < end
        invariant
            0 <= k <= end <= name@.len(),
            stem@ == name@.subrange(0, k as int),
        decreases end - k,
    {
        stem.push(name[k]);
        k = k + 1;
        assert(stem@ =~= name@.subrange(0, k as int));
    }
    stem
}

fn push_listed(out: &mut String, names: &[String])
    ensures
        final(out)@ == old(out)@ + listed(names@),
{
    let ghost start = out@;
    if names.len() == 0 {
        assert(out@ =~= start + listed(names@));
        return;
    }
    out.append(names[0].as_str());
    assert(names@.take(1) =~= seq![names@[0]]);
    let mut i: usize = 1;
    while i < names.len()
        invariant
            1 <= i <= names@.len(),
            out@ == start + listed(names@.take(i as int)),
        decreases names@.len() - i,
    {
        out.append(", ");
        out.append(names[i].as_str());
        proof {
            assert(names@.take(i + 1).drop_last() =~= names@.take(i as int));
        }
        i = i + 1;
        assert(out@ =~= start + listed(names@.take(i as int)));
    }
    assert(names@.take(names@.len() as int) =~= names@);
}

/// What several programs matching one typed name are answered with, in
/// English and in Korean.
pub fn ambiguous_program_message(
    wanted: &str,
    names: &[String],
    action_en: &str,
    action_ko: &str,
) -> (messages: (String, String))
    ensures
        messages.0@ == "several programs match `"@ + wanted@ + "`: "@ + listed(names@)
            + "\nhint: type more of the name, e.g. `nme "@ + action_en@ + seq![' '] + hinted_stem(
            wanted@,
            names@,
        ) + seq!['`'],
        messages.1@ == seq!['`'] + wanted@ + "`(와)과 일치하는 프로그램이 여럿입니다: "@ + listed(
            names@,
        ) + "\n도움말: 이름을 더 길게 적어 주세요. 예: `nme "@ + action_ko@ + seq![' ']
            + hinted_stem(wanted@, names@) + seq!['`'],
{
    let stem = if names.len() > 0 {
        let first = chars_of(names[0].as_str());
        strip_nme(first.as_slice())
    } else {
        chars_of(wanted)
    };
    let mut english = String::new();
    english.append("several programs match `");
    english.append(wanted);
    english.append("`: ");
    push_listed(&mut english, names);
    english.append("\nhint: type more of the name, e.g. `nme ");
    english.append(action_en);
    push(&mut english, ' ');
    push_chars(&mut english, stem.as_slice());
    push(&mut english, '`');
    let mut korean = String::new();
    push(&mut korean, '`');
    korean.append(wanted);
    korean.append("`(와)과 일치하는 프로그램이 여럿입니다: ");
    push_listed(&mut korean, names);
    korean.append("\n도움말: 이름을 더 길게 적어 주세요. 예: `nme ");
    korean.append(action_ko);
    push(&mut korean, ' ');
    push_chars(&mut korean, stem.as_slice());
    push(&mut korean, '`');
    (english, korean)
}

/// Every problem rendered, in the languages the command line answers in.
pub fn render_diagnostics(
    problems: &[Diagnostic],
    source: &str,
    path: &str,
    language: MessageLanguage,
) -> (rendered: String)
    requires
        countable(source@),
    ensures
        rendered@ == spec_render_all(
            problems@,
            source@,
            path@,
            language == MessageLanguage::KoreanAndEnglish,
        ),
{
    match language {
        MessageLanguage::English => render_all(problems, source, path),
        MessageLanguage::KoreanAndEnglish => render_all_bilingual(problems, source, path),
    }
}

} // verus!

verus! {

// ------------------------------------------------------- choosing a program

/// What `str::to_lowercase` gives for a text: its Unicode lower case.
pub uninterp spec fn lowercase(text: Seq<char>) -> Seq<char>;

/// `str::to_lowercase` from the standard library: the Unicode lower-case
/// mapping of the text, which depends on the text alone. The mapping tables
/// are named by `lowercase`, not restated.
#[verifier::external_body]
fn to_lowercase(text: &str) -> (lower: String)
    ensures
        lower@ == lowercase(text@),
{
    text.to_lowercase()
}

/// `a` and `b` are the same once ASCII letters are put in lower case, as
/// `str::eq_ignore_ascii_case` compares them.
pub open spec fn same_ignoring_case(a: Seq<char>, b: Seq<char>) -> bool {
    a.len() == b.len() && forall|i: int| 0 <= i < a.len() ==> ascii_lower(#[trigger] a[i])
        == ascii_lower(b[i])
}

fn eq_ignore_ascii_case(a: &[char], b: &[char]) -> (same: bool)
    ensures
        same == same_ignoring_case(a@, b@),
{
    if a.len() != b.len() {
        return false;
    }
    let mut i: usize = 0;
    while i < a.len()
        invariant
            0 <= i <= a@.len(),
            a@.len() == b@.len(),
            forall|j: int| 0 <= j < i ==> ascii_lower(#[trigger] a@[j]) == ascii_lower(b@[j]),
        decreases a@.len() - i,
    {
        if lower_ascii(a[i]) != lower_ascii(b[i]) {
            return false;
        }
        i = i + 1;
    }
    true
}

/// What `str::parse::<usize>` gives: an optional `+`, at least one digit and
/// nothing else, within the range of `usize`.
pub open spec fn parse_count(s: Seq<char>) -> Option<nat> {
    let u = if s.len() > 0 && s[0] == '+' {
        s.drop_first()
    } else {
        s
    };
    if all_digits(u) && digits_value(u) <= usize::MAX {
        Some(digits_value(u))
    } else {
        None
    }
}

fn parse_count_chars(s: &[char]) -> (count: Option<usize>)
    ensures
        match parse_count(s@) {
            Some(n) => count == Some(n as usize),
            None => count is None,
        },
{
    let from: usize = if s.len() > 0 && s[0] == '+' { 1 } else { 0 };
    let ghost u = s@.skip(from as int);
    proof {
        if from == 1 {
            assert(u =~= s@.drop_first());
        } else {
            assert(u =~= s@);
        }
    }
    if from >= s.len() {
        return None;
    }
    let mut value: usize = 0;
    let mut i = from;
    while i < s.len()
        invariant
            from <= i <= s@.len(),
            from < s@.len(),
            u == s@.skip(from as int),
            u == (if s@.len() > 0 && s@[0] == '+' {
                s@.drop_first()
            } else {
                s@
            }),
            forall|k: int| 0 <= k < i - from ==> is_digit(#[trigger] u[k]),
            value == digits_value(u.take(i - from)),
        decreases s@.len() - i,
    {
        let c = s[i];
        if !('0' <= c && c <= '9') {
            assert(!is_digit(u[i - from]));
            return None;
        }
        let d = (c as u32 - '0' as u32) as usize;
        assert(u.take(i - from + 1).drop_last() =~= u.take(i - from));
        if value > (usize::MAX - d) / 10 {
            proof {
                assert(digits_value(u.take(i - from + 1)) > usize::MAX) by (nonlinear_arith)
                    requires
                        digits_value(u.take(i - from + 1)) == value * 10 + d,
                        value > (usize::MAX - d) / 10,
                        d <= 9,
                ;
                if all_digits(u) {
                    lemma_digits_grow(u, i - from + 1, u.len() as int);
                    assert(u.take(u.len() as int) =~= u);
                }
            }
            return None;
        }
        value = value * 10 + d;
        i = i + 1;
    }
    assert(u.take(u.len() as int) =~= u);
    Some(value)
}

} // verus!

verus! {

pub open spec fn views(texts: Seq<String>) -> Seq<Seq<char>> {
    Seq::new(texts.len(), |i: int| texts[i]@)
}

/// The first index from `i` on whose text is `a`, ignoring ASCII case.
pub open spec fn first_same_from(texts: Seq<Seq<char>>, a: Seq<char>, i: int) -> Option<int>
    decreases texts.len() - i,
{
    if i < 0 || i >= texts.len() {
        None
    } else if same_ignoring_case(texts[i], a) {
        Some(i)
    } else {
        first_same_from(texts, a, i + 1)
    }
}

/// The first index from `i` on whose text is exactly `a`.
pub open spec fn first_equal_from(texts: Seq<Seq<char>>, a: Seq<char>, i: int) -> Option<int>
    decreases texts.len() - i,
{
    if i < 0 || i >= texts.len() {
        None
    } else if texts[i] == a {
        Some(i)
    } else {
        first_equal_from(texts, a, i + 1)
    }
}

/// Whether `w` stands somewhere in `t`.
pub open spec fn contains_text(t: Seq<char>, w: Seq<char>) -> bool {
    exists|k: int| 0 <= k && k + w.len() <= t.len() && #[trigger] t.subrange(k, k + w.len()) == w
}

/// The first index from `i` on whose text holds `a`.
pub open spec fn first_containing_from(texts: Seq<Seq<char>>, a: Seq<char>, i: int) -> Option<int>
    decreases texts.len() - i,
{
    if i < 0 || i >= texts.len() {
        None
    } else if contains_text(texts[i], a) {
        Some(i)
    } else {
        first_containing_from(texts, a, i + 1)
    }
}

pub open spec fn starts_with(t: Seq<char>, p: Seq<char>) -> bool {
    p.len() <= t.len() && t.take(p.len() as int) == p
}

/// The indices whose text starts with `p`, in order.
pub open spec fn prefix_indices(texts: Seq<Seq<char>>, p: Seq<char>) -> Seq<usize>
    decreases texts.len(),
{
    if texts.len() == 0 {
        Seq::empty()
    } else if starts_with(texts.last(), p) {
        prefix_indices(texts.drop_last(), p).push((texts.len() - 1) as usize)
    } else {
        prefix_indices(texts.drop_last(), p)
    }
}

/// The indices whose text is exactly `a`, in order.
pub open spec fn equal_indices(texts: Seq<Seq<char>>, a: Seq<char>) -> Seq<usize>
    decreases texts.len(),
{
    if texts.len() == 0 {
        Seq::empty()
    } else if texts.last() == a {
        equal_indices(texts.drop_last(), a).push((texts.len() - 1) as usize)
    } else {
        equal_indices(texts.drop_last(), a)
    }
}

/// The program a number in the list picks: counted from one.
pub open spec fn number_pick(count: nat, answer: Seq<char>) -> Option<int> {
    match parse_count(answer) {
        Some(n) => if 1 <= n <= count {
            Some(n - 1)
        } else {
            None
        },
        None => None,
    }
}

/// The one program an answer picks out of the list: its number, then its
/// whole name, then its name without `.nme`, then the one name the answer
/// starts, ignoring case.
pub open spec fn chosen_by(names: Seq<String>, stems: Seq<String>, answer: Seq<char>) -> Option<int> {
    let a = trim(answer);
    if a.len() == 0 {
        None
    } else if number_pick(names.len(), a) is Some {
        number_pick(names.len(), a)
    } else if first_same_from(views(names), a, 0) is Some {
        first_same_from(views(names), a, 0)
    } else if first_same_from(views(stems), a, 0) is Some {
        first_same_from(views(stems), a, 0)
    } else if prefix_indices(views(stems), lowercase(a)).len() == 1 {
        Some(prefix_indices(views(stems), lowercase(a))[0] as int)
    } else {
        None
    }
}

/// What an answer to "which one?" picks.
pub enum Pick {
    /// The program at this place in the list.
    Chosen(usize),
    /// Nothing was typed.
    NoAnswer,
    /// The answer starts the names of all of these programs.
    Several(Vec<usize>),
    /// The answer names none of the programs.
    NotListed,
}

fn first_same(texts: &[String], a: &[char]) -> (found: Option<usize>)
    ensures
        match found {
            Some(i) => first_same_from(views(texts@), a@, 0) == Some(i as int),
            None => first_same_from(views(texts@), a@, 0) is None,
        },
{
    let ghost all = views(texts@);
    let mut i: usize = 0;
    while i < texts.len()
        invariant
            0 <= i <= texts@.len(),
            all == views(texts@),
            first_same_from(all, a@, 0) == first_same_from(all, a@, i as int),
        decreases texts@.len() - i,
    {
        let t = chars_of(texts[i].as_str());
        if eq_ignore_ascii_case(t.as_slice(), a) {
            return Some(i);
        }
        i = i + 1;
    }
    None
}

fn starts_with_chars(t: &[char], p: &[char]) -> (starts: bool)
    ensures
        starts == starts_with(t@, p@),
{
    if p.len() > t.len() {
        return false;
    }
    let mut k: usize = 0;
    while k < p.len()
        invariant
            0 <= k <= p@.len() <= t@.len(),
            t@.take(k as int) == p@.take(k as int),
        decreases p@.len() - k,
    {
        if t[k] != p[k] {
            assert(t@.take(p@.len() as int)[k as int] != p@[k as int]);
            return false;
        }
        k = k + 1;
        assert(t@.take(k as int) =~= p@.take(k as int));
    }
    assert(p@.take(p@.len() as int) =~= p@);
    true
}

fn prefix_list(texts: &[String], p: &[char]) -> (found: Vec<usize>)
    ensures
        found@ == prefix_indices(views(texts@), p@),
{
    let ghost all = views(texts@);
    let mut found: Vec<usize> = Vec::new();
    let mut i: usize = 0;
    while i < texts.len()
        invariant
            0 <= i <= texts@.len(),
            all == views(texts@),
            found@ == prefix_indices(all.take(i as int), p@),
        decreases texts@.len() - i,
    {
        let t = chars_of(texts[i].as_str());
        proof {
            assert(all.take(i + 1).drop_last() =~= all.take(i as int));
            assert(all.take(i + 1).last() == t@);
        }
        if starts_with_chars(t.as_slice(), p) {
            found.push(i);
        }
        i = i + 1;
    }
    assert(all.take(all.len() as int) =~= all);
    found
}

/// Picks a program out of the list the command line showed, by the answer
/// typed to "which one?". `stems` holds each name's file stem in lower
/// case.
pub fn pick_program(names: &[String], stems: &[String], answer: &str) -> (pick: Pick)
    requires
        names@.len() == stems@.len(),
    ensures
        match pick {
            Pick::NoAnswer => trim(answer@).len() == 0,
            Pick::Chosen(i) => chosen_by(names@, stems@, answer@) == Some(i as int),
            Pick::Several(list) => {
                &&& trim(answer@).len() > 0
                &&& chosen_by(names@, stems@, answer@) is None
                &&& list@ == prefix_indices(views(stems@), lowercase(trim(answer@)))
                &&& list@.len() > 1
            },
            Pick::NotListed => {
                &&& trim(answer@).len() > 0
                &&& chosen_by(names@, stems@, answer@) is None
                &&& prefix_indices(views(stems@), lowercase(trim(answer@))).len() == 0
            },
        },
{
    let raw = chars_of(answer);
    let a = trimmed(raw.as_slice());
    if a.len() == 0 {
        return Pick::NoAnswer;
    }
    assert(a@ == trim(answer@));
    match parse_count_chars(a.as_slice()) {
        Some(number) => {
            if number >= 1 && number <= names.len() {
                return Pick::Chosen(number - 1);
            }
        },
        None => {},
    }
    assert(number_pick(names@.len(), a@) is None);
    match first_same(names, a.as_slice()) {
        Some(i) => {
            assert(first_same_from(views(names@), a@, 0) == Some(i as int));
            return Pick::Chosen(i);
        },
        None => {},
    }
    match first_same(stems, a.as_slice()) {
        Some(i) => {
            assert(first_same_from(views(stems@), a@, 0) == Some(i as int));
            return Pick::Chosen(i);
        },
        None => {},
    }
    let typed = crate::text::string_of(a.as_slice());
    let lower = to_lowercase(typed.as_str());
    let lower_chars = chars_of(lower.as_str());
    let prefixes = prefix_list(stems, lower_chars.as_slice());
    if prefixes.len() == 1 {
        Pick::Chosen(prefixes[0])
    } else if prefixes.len() == 0 {
        Pick::NotListed
    } else {
        Pick::Several(prefixes)
    }
}

} // verus!

verus! {

/// How a typed program name resolved among the `.nme` programs of a
/// folder.
pub enum Resolution {
    /// The program at this place in the list.
    Found(usize),
    /// No program matches.
    Nothing,
    /// All of these match, and the name does not say which one.
    Several(Vec<usize>),
}

fn equal_list(texts: &[String], a: &[char]) -> (found: Vec<usize>)
    ensures
        found@ == equal_indices(views(texts@), a@),
{
    let ghost all = views(texts@);
    let mut found: Vec<usize> = Vec::new();
    let mut i: usize = 0;
    while i < texts.len()
        invariant
            0 <= i <= texts@.len(),
            all == views(texts@),
            found@ == equal_indices(all.take(i as int), a@),
        decreases texts@.len() - i,
    {
        let t = chars_of(texts[i].as_str());
        proof {
            assert(all.take(i + 1).drop_last() =~= all.take(i as int));
            assert(all.take(i + 1).last() == t@);
        }
        if crate::text::same_chars(t.as_slice(), a) {
            found.push(i);
        }
        i = i + 1;
    }
    assert(all.take(all.len() as int) =~= all);
    found
}

/// Resolves a typed name among the programs of a folder: one program whose
/// stem is the name wins; then one program whose stem the name starts.
/// `stems` holds each program's file stem in lower case and `wanted` the
/// typed file name in lower case.
pub fn resolve_among(stems: &[String], wanted: &str) -> (resolution: Resolution)
    ensures
        ({
            let exact = equal_indices(views(stems@), wanted@);
            let prefixes = prefix_indices(views(stems@), wanted@);
            match resolution {
                Resolution::Found(i) => (exact.len() == 1 && i == exact[0]) || (exact.len() == 0
                    && prefixes.len() == 1 && i == prefixes[0]),
                Resolution::Several(list) => (exact.len() > 1 && list@ == exact) || (exact.len()
                    == 0 && prefixes.len() > 1 && list@ == prefixes),
                Resolution::Nothing => exact.len() == 0 && prefixes.len() == 0,
            }
        }),
{
    let w = chars_of(wanted);
    let exact = equal_list(stems, w.as_slice());
    if exact.len() == 1 {
        return Resolution::Found(exact[0]);
    }
    if exact.len() > 1 {
        return Resolution::Several(exact);
    }
    let prefixes = prefix_list(stems, w.as_slice());
    if prefixes.len() == 1 {
        Resolution::Found(prefixes[0])
    } else if prefixes.len() == 0 {
        Resolution::Nothing
    } else {
        Resolution::Several(prefixes)
    }
}

fn contains_chars(t: &[char], w: &[char]) -> (found: bool)
    ensures
        found == contains_text(t@, w@),
{
    if w.len() > t.len() {
        return false;
    }
    if w.len() == 0 {
        assert(t@.subrange(0, 0 + w@.len() as int) =~= w@);
        return true;
    }
    let last = t.len() - w.len();
    let mut k: usize = 0;
    while k <= last
        invariant
            1 <= w@.len() <= t@.len(),
            t@.len() <= usize::MAX,
            last == t@.len() - w@.len(),
            k <= last + 1,
            forall|j: int| 0 <= j < k ==> #[trigger] t@.subrange(j, j + w@.len()) != w@,
        decreases last + 1 - k,
    {
        let mut same = true;
        let mut m: usize = 0;
        assert(t@.subrange(k as int, k as int) =~= w@.take(0));
        while m < w.len()
            invariant
                k <= last,
                1 <= w@.len() <= t@.len(),
                t@.len() <= usize::MAX,
                last == t@.len() - w@.len(),
                0 <= m <= w@.len(),
                same == (t@.subrange(k as int, k + m) == w@.take(m as int)),
            decreases w@.len() - m,
        {
            let ghost was = same;
            if t[k + m] != w[m] {
                same = false;
            }
            proof {
                let front = t@.subrange(k as int, k + m + 1);
                let want = w@.take(m + 1);
                assert(front.take(m as int) =~= t@.subrange(k as int, k + m));
                assert(want.take(m as int) =~= w@.take(m as int));
                if same {
                    assert(front =~= want);
                } else if front == want {
                    assert(front[m as int] == want[m as int]);
                    assert(front.take(m as int) == want.take(m as int));
                }
            }
            m = m + 1;
        }
        assert(w@.take(w@.len() as int) =~= w@);
        if same {
            return true;
        }
        k = k + 1;
    }
    false
}

/// A program whose name the typed one almost is: the first whose whole
/// name is it, then the first whose stem is it, then the first whose name
/// holds it, all in lower case. `stems` holds each name's file stem in
/// lower case and `wanted` the typed file name in lower case.
#[verifier::rlimit(30)]
pub fn suggest_among(names: &[String], stems: &[String], wanted: &str) -> (suggestion: Option<
    usize,
>)
    requires
        names@.len() == stems@.len(),
    ensures
        ({
            let lowers = Seq::new(names@.len(), |i: int| lowercase(names@[i]@));
            match suggestion {
                Some(i) => if first_equal_from(lowers, wanted@, 0) is Some {
                    first_equal_from(lowers, wanted@, 0) == Some(i as int)
                } else if first_equal_from(views(stems@), wanted@, 0) is Some {
                    first_equal_from(views(stems@), wanted@, 0) == Some(i as int)
                } else {
                    first_containing_from(lowers, wanted@, 0) == Some(i as int)
                },
                None => first_equal_from(lowers, wanted@, 0) is None && first_equal_from(
                    views(stems@),
                    wanted@,
                    0,
                ) is None && first_containing_from(lowers, wanted@, 0) is None,
            }
        }),
{
    let ghost lowers = Seq::new(names@.len(), |i: int| lowercase(names@[i]@));
    let ghost stem_views = views(stems@);
    let w = chars_of(wanted);
    let mut whole: Option<usize> = None;
    let mut by_stem: Option<usize> = None;
    let mut holding: Option<usize> = None;
    let mut i: usize = names.len();
    while i > 0
        invariant
            0 <= i <= names@.len(),
            names@.len() == stems@.len(),
            w@ == wanted@,
            lowers == Seq::new(names@.len(), |j: int| lowercase(names@[j]@)),
            stem_views == views(stems@),
            match whole {
                Some(k) => first_equal_from(lowers, wanted@, i as int) == Some(k as int),
                None => first_equal_from(lowers, wanted@, i as int) is None,
            },
            match by_stem {
                Some(k) => first_equal_from(stem_views, wanted@, i as int) == Some(k as int),
                None => first_equal_from(stem_views, wanted@, i as int) is None,
            },
            match holding {
                Some(k) => first_containing_from(lowers, wanted@, i as int) == Some(k as int),
                None => first_containing_from(lowers, wanted@, i as int) is None,
            },
        decreases i,
    {
        i = i - 1;
        let lower = to_lowercase(names[i].as_str());
        let lc = chars_of(lower.as_str());
        let sc = chars_of(stems[i].as_str());
        assert(lc@ == lowers[i as int]);
        assert(sc@ == stem_views[i as int]);
        if crate::text::same_chars(lc.as_slice(), w.as_slice()) {
            whole = Some(i);
        }
        if crate::text::same_chars(sc.as_slice(), w.as_slice()) {
            by_stem = Some(i);
        }
        if contains_chars(lc.as_slice(), w.as_slice()) {
            holding = Some(i);
        }
    }
    if whole.is_some() {
        whole
    } else if by_stem.is_some() {
        by_stem
    } else {
        holding
    }
}

} // verus!

verus! {

// ------------------------------------------------------ `nme compile` options

/// What is wrong with the options of `nme compile`, `nme build`, `nme run`
/// or `nme check`.
#[derive(Debug, Clone, Copy, PartialEq, Eq, Structural)]
pub enum OptionFault {
    /// `--python` is the last word, with no command after it.
    PythonNeedsCommand,
    /// `-o` or `--output` is the last word, with no path after it.
    OutputNeedsPath,
    /// A word starting with `-` that is no option.
    UnknownOption,
    /// A second file name.
    ExtraFile,
}

/// The options read from word `p` on, given the Python command, file and
/// output found so far: either all of them and the word where the words
/// handed on to the program start, or the fault and the word it stands at.
/// `-o` and `--output` are options only where `outputs` holds; where
/// `passes` holds, every word after the program's name is handed on to the
/// program, and otherwise none is.
pub open spec fn read_options(
    args: Seq<String>,
    p: int,
    outputs: bool,
    passes: bool,
    python: Seq<char>,
    file: Option<Seq<char>>,
    output: Option<Seq<char>>,
) -> Result<(Seq<char>, Option<Seq<char>>, Option<Seq<char>>, int), (OptionFault, int)>
    decreases args.len() - p,
{
    if p < 0 || p >= args.len() {
        Ok((python, file, output, args.len() as int))
    } else if passes && file is Some {
        Ok((python, file, output, p))
    } else {
        let word = args[p]@;
        if word == "--python"@ {
            if p + 1 < args.len() {
                read_options(args, p + 2, outputs, passes, args[p + 1]@, file, output)
            } else {
                Err((OptionFault::PythonNeedsCommand, p))
            }
        } else if outputs && (word == "-o"@ || word == "--output"@) {
            if p + 1 < args.len() {
                read_options(args, p + 2, outputs, passes, python, file, Some(args[p + 1]@))
            } else {
                Err((OptionFault::OutputNeedsPath, p))
            }
        } else if word.len() > 0 && word[0] == '-' {
            Err((OptionFault::UnknownOption, p))
        } else if file is None {
            read_options(args, p + 1, outputs, passes, python, Some(word), output)
        } else {
            Err((OptionFault::ExtraFile, p))
        }
    }
}

pub open spec fn text_of(text: Option<String>) -> Option<Seq<char>> {
    match text {
        Some(t) => Some(t@),
        None => None,
    }
}

/// What `nme compile`, `nme build`, `nme run` or `nme check` was asked to
/// do.
pub struct CompileOptions {
    /// The program; none when the command line should look for the one
    /// program in the folder.
    pub file: Option<String>,
    /// Where the result goes, when given (`compile` and `build` only).
    pub output: Option<String>,
    /// The Python command to use.
    pub python: String,
    /// The words handed on to the program (`nme run` only).
    pub arguments: Vec<String>,
}

/// Reads the words after `nme compile` or `nme build`: `--python
/// <command>`, `-o <path>` or `--output <path>`, and at most one file name.
pub fn compile_options(args: &[String], default_python: &str) -> (read: Result<
    CompileOptions,
    (OptionFault, usize),
>)
    ensures
        options_read(args@, true, false, default_python@, read),
{
    program_options(args, default_python, true, false)
}

/// Reads the words after `nme run`: `--python <command>` and the program's
/// name; every word after the name, whatever it looks like, is handed on to
/// the program. Before the name, any other word starting with `-` is an
/// unknown option, `-o` included.
pub fn run_options(args: &[String], default_python: &str) -> (read: Result<
    CompileOptions,
    (OptionFault, usize),
>)
    ensures
        options_read(args@, false, true, default_python@, read),
{
    program_options(args, default_python, false, true)
}

/// Reads the words after `nme check`: `--python <command>` and at most one
/// file name; any other word starting with `-` is an unknown option there,
/// `-o` included.
pub fn check_options(args: &[String], default_python: &str) -> (read: Result<
    CompileOptions,
    (OptionFault, usize),
>)
    ensures
        options_read(args@, false, false, default_python@, read),
{
    program_options(args, default_python, false, false)
}

/// Whether `read` is what `read_options` reads from the words.
pub open spec fn options_read(
    args: Seq<String>,
    outputs: bool,
    passes: bool,
    default_python: Seq<char>,
    read: Result<CompileOptions, (OptionFault, usize)>,
) -> bool {
    match read_options(args, 0, outputs, passes, default_python, None, None) {
        Ok((python, file, output, from)) => read matches Ok(options) && options.python@ == python
            && text_of(options.file) == file && text_of(options.output) == output && views(
            options.arguments@,
        ) == views(args.subrange(from, args.len() as int)),
        Err((fault, at)) => read matches Err((found, where_)) && found == fault && where_ == at,
    }
}

fn program_options(args: &[String], default_python: &str, outputs: bool, passes: bool) -> (read:
    Result<CompileOptions, (OptionFault, usize)>)
    ensures
        options_read(args@, outputs, passes, default_python@, read),
{
    let mut python = crate::text::string_of(chars_of(default_python).as_slice());
    let mut file: Option<String> = None;
    let mut output: Option<String> = None;
    let mut p: usize = 0;
    while p < args.len() && !(passes && file.is_some())
        invariant
            0 <= p <= args@.len(),
            read_options(args@, 0, outputs, passes, default_python@, None, None) == read_options(
                args@,
                p as int,
                outputs,
                passes,
                python@,
                text_of(file),
                text_of(output),
            ),
        decreases args@.len() - p,
    {
        let word = args[p].as_str();
        if crate::text::same_text(word, "--python") {
            if p + 1 < args.len() {
                python = args[p + 1].clone();
                p = p + 2;
            } else {
                return Err((OptionFault::PythonNeedsCommand, p));
            }
        } else if outputs && (crate::text::same_text(word, "-o") || crate::text::same_text(
            word,
            "--output",
        )) {
            if p + 1 < args.len() {
                output = Some(args[p + 1].clone());
                p = p + 2;
            } else {
                return Err((OptionFault::OutputNeedsPath, p));
            }
        } else {
            let cs = chars_of(word);
            if cs.len() > 0 && cs[0] == '-' {
                return Err((OptionFault::UnknownOption, p));
            }
            if file.is_none() {
                file = Some(args[p].clone());
                p = p + 1;
            } else {
                return Err((OptionFault::ExtraFile, p));
            }
        }
    }
    let from = p;
    let mut arguments: Vec<String> = Vec::new();
    while p < args.len()
        invariant
            from <= p <= args@.len(),
            arguments@.len() == p - from,
            forall|k: int| 0 <= k < arguments@.len() ==> (#[trigger] arguments@[k])@ == args@[from + k]@,
        decreases args@.len() - p,
    {
        let word = args[p].clone();
        arguments.push(word);
        p = p + 1;
    }
    assert(views(arguments@) =~= views(args@.subrange(from as int, args@.len() as int)));
    Ok(CompileOptions { file, output, python, arguments })
}

} // verus!

verus! {

// ------------------------------------------------------------ nme convert

/// What is wrong with the options of `nme convert`.
#[derive(Debug, Clone, Copy, PartialEq, Eq, Structural)]
pub enum ConvertFault {
    /// `--level` is last, or followed by no level's name.
    LevelNeedsValue,
    /// `--language` (or `--lang`) is last, or followed by no language's name.
    LanguageNeedsValue,
    /// `-o` or `--output` is the last word, with no path after it.
    OutputNeedsPath,
    /// A word starting with `-` that is no option.
    UnknownOption,
    /// A second file name.
    ExtraFile,
    /// No file name at all.
    NeedsFile,
}

/// The level a word names, in English or Korean.
pub open spec fn level_named(word: Seq<char>) -> Option<SyntaxLevel> {
    if word == "advanced"@ || word == "고급"@ {
        Some(SyntaxLevel::Advanced)
    } else if word == "beginner"@ || word == "초급"@ {
        Some(SyntaxLevel::Beginner)
    } else if word == "sentence"@ || word == "문장"@ || word == "문장형"@ {
        Some(SyntaxLevel::Sentence)
    } else {
        None
    }
}

/// The language a word names, in English or Korean.
pub open spec fn language_named(word: Seq<char>) -> Option<Language> {
    if word == "en"@ || word == "english"@ || word == "영어"@ {
        Some(Language::English)
    } else if word == "ko"@ || word == "korean"@ || word == "한국어"@ {
        Some(Language::Korean)
    } else {
        None
    }
}

/// The options of `nme convert` read from word `p` on, given what was found
/// so far: either all of them, or the fault and the word it stands at.
pub open spec fn read_convert(
    args: Seq<String>,
    p: int,
    level: SyntaxLevel,
    language: Language,
    file: Option<Seq<char>>,
    output: Option<Seq<char>>,
) -> Result<(SyntaxLevel, Language, Option<Seq<char>>, Option<Seq<char>>), (ConvertFault, int)>
    decreases args.len() - p,
{
    if p < 0 || p >= args.len() {
        Ok((level, language, file, output))
    } else {
        let word = args[p]@;
        if word == "--level"@ {
            if p + 1 < args.len() && level_named(args[p + 1]@) is Some {
                read_convert(args, p + 2, level_named(args[p + 1]@)->0, language, file, output)
            } else {
                Err((ConvertFault::LevelNeedsValue, p))
            }
        } else if word == "--language"@ || word == "--lang"@ {
            if p + 1 < args.len() && language_named(args[p + 1]@) is Some {
                read_convert(args, p + 2, level, language_named(args[p + 1]@)->0, file, output)
            } else {
                Err((ConvertFault::LanguageNeedsValue, p))
            }
        } else if word == "-o"@ || word == "--output"@ {
            if p + 1 < args.len() {
                read_convert(args, p + 2, level, language, file, Some(args[p + 1]@))
            } else {
                Err((ConvertFault::OutputNeedsPath, p))
            }
        } else if word.len() > 0 && word[0] == '-' {
            Err((ConvertFault::UnknownOption, p))
        } else if file is None {
            read_convert(args, p + 1, level, language, Some(word), output)
        } else {
            Err((ConvertFault::ExtraFile, p))
        }
    }
}

/// What `nme convert` was asked to do.
pub struct ConvertOptions {
    /// The Python file to convert.
    pub file: String,
    /// Where the converted program goes; printed when none.
    pub output: Option<String>,
    /// The level to write.
    pub level: SyntaxLevel,
    /// The language to write NME's words in.
    pub language: Language,
}

fn level_of(word: &str) -> (level: Option<SyntaxLevel>)
    ensures
        level == level_named(word@),
{
    if crate::text::same_text(word, "advanced") || crate::text::same_text(word, "고급") {
        Some(SyntaxLevel::Advanced)
    } else if crate::text::same_text(word, "beginner") || crate::text::same_text(word, "초급") {
        Some(SyntaxLevel::Beginner)
    } else if crate::text::same_text(word, "sentence") || crate::text::same_text(word, "문장")
        || crate::text::same_text(word, "문장형") {
        Some(SyntaxLevel::Sentence)
    } else {
        None
    }
}

fn language_of_word(word: &str) -> (language: Option<Language>)
    ensures
        language == language_named(word@),
{
    if crate::text::same_text(word, "en") || crate::text::same_text(word, "english")
        || crate::text::same_text(word, "영어") {
        Some(Language::English)
    } else if crate::text::same_text(word, "ko") || crate::text::same_text(word, "korean")
        || crate::text::same_text(word, "한국어") {
        Some(Language::Korean)
    } else {
        None
    }
}

/// Reads the words after `nme convert`: `--level <level>`, `--language`
/// (or `--lang`) `<language>`, `-o <path>` or `--output <path>`, and one
/// file name. The level is `sentence` and the language English unless
/// the words say otherwise; without a file the answer is `NeedsFile`, at
/// the end of the words.
pub fn convert_options(args: &[String]) -> (read: Result<ConvertOptions, (ConvertFault, usize)>)
    ensures
        match read_convert(args@, 0, SyntaxLevel::Sentence, Language::English, None, None) {
            Ok((level, language, Some(file), output)) => read matches Ok(options) && options.level
                == level && options.language == language && options.file@ == file && text_of(
                options.output,
            ) == output,
            Ok((_, _, None, _)) => read matches Err((fault, at)) && fault == ConvertFault::NeedsFile
                && at == args@.len(),
            Err((fault, at)) => read matches Err((found, where_)) && found == fault && where_ == at,
        },
{
    let mut level = SyntaxLevel::Sentence;
    let mut language = Language::English;
    let mut file: Option<String> = None;
    let mut output: Option<String> = None;
    let mut p: usize = 0;
    while p < args.len()
        invariant
            0 <= p <= args@.len(),
            read_convert(args@, 0, SyntaxLevel::Sentence, Language::English, None, None)
                == read_convert(args@, p as int, level, language, text_of(file), text_of(output)),
        decreases args@.len() - p,
    {
        let word = args[p].as_str();
        if crate::text::same_text(word, "--level") {
            if p + 1 < args.len() {
                match level_of(args[p + 1].as_str()) {
                    Some(named) => {
                        level = named;
                        p = p + 2;
                    },
                    None => {
                        return Err((ConvertFault::LevelNeedsValue, p));
                    },
                }
            } else {
                return Err((ConvertFault::LevelNeedsValue, p));
            }
        } else if crate::text::same_text(word, "--language") || crate::text::same_text(
            word,
            "--lang",
        ) {
            if p + 1 < args.len() {
                match language_of_word(args[p + 1].as_str()) {
                    Some(named) => {
                        language = named;
                        p = p + 2;
                    },
                    None => {
                        return Err((ConvertFault::LanguageNeedsValue, p));
                    },
                }
            } else {
                return Err((ConvertFault::LanguageNeedsValue, p));
            }
        } else if crate::text::same_text(word, "-o") || crate::text::same_text(word, "--output") {
            if p + 1 < args.len() {
                output = Some(args[p + 1].clone());
                p = p + 2;
            } else {
                return Err((ConvertFault::OutputNeedsPath, p));
            }
        } else {
            let cs = chars_of(word);
            if cs.len() > 0 && cs[0] == '-' {
                return Err((ConvertFault::UnknownOption, p));
            }
            if file.is_none() {
                file = Some(args[p].clone());
                p = p + 1;
            } else {
                return Err((ConvertFault::ExtraFile, p));
            }
        }
    }
    match file {
        Some(file) => Ok(ConvertOptions { file, output, level, language }),
        None => Err((ConvertFault::NeedsFile, args.len())),
    }
}

} // verus!

verus! {

// ------------------------------------------------------------ nme modules

/// The line `nme modules` prints for one bundled module: its English name,
/// version and status, after the Korean one when Korean is answered too.
pub open spec fn module_line(module: BundledModuleId, language: MessageLanguage) -> Seq<char> {
    let english = module.spec_name_en() + "  "@ + module.spec_version() + "  bundled, latest\n"@;
    match language {
        MessageLanguage::English => english,
        MessageLanguage::KoreanAndEnglish => module.spec_name_ko() + "  "@ + module.spec_version()
            + "  내장, 최신\n"@ + english,
    }
}

/// The lines of the modules, in order.
pub open spec fn module_lines(modules: Seq<BundledModuleId>, language: MessageLanguage) -> Seq<
    char,
>
    decreases modules.len(),
{
    if modules.len() == 0 {
        Seq::empty()
    } else {
        module_lines(modules.drop_last(), language) + module_line(modules.last(), language)
    }
}

/// What `nme modules` prints: a line for every bundled module.
#[verifier::rlimit(100)]
pub fn modules_listing(language: MessageLanguage) -> (listing: String)
    ensures
        listing@ == module_lines(BundledModuleId::ALL@, language),
{
    let mut listing = String::new();
    let mut i: usize = 0;
    assert(BundledModuleId::ALL@.take(0) =~= Seq::<BundledModuleId>::empty());
    while i < 7
        invariant
            0 <= i <= 7,
            BundledModuleId::ALL@.len() == 7,
            listing@ == module_lines(BundledModuleId::ALL@.take(i as int), language),
        decreases 7 - i,
    {
        let module = BundledModuleId::ALL[i];
        let ghost before = listing@;
        if language == MessageLanguage::KoreanAndEnglish {
            listing.append(module.name_ko());
            listing.append("  ");
            listing.append(module.version());
            listing.append("  내장, 최신\n");
        }
        listing.append(module.name_en());
        listing.append("  ");
        listing.append(module.version());
        listing.append("  bundled, latest\n");
        assert(BundledModuleId::ALL@.take(i + 1).drop_last() =~= BundledModuleId::ALL@.take(
            i as int,
        ));
        assert(listing@ =~= before + module_line(module, language));
        i = i + 1;
    }
    assert(BundledModuleId::ALL@.take(7) =~= BundledModuleId::ALL@);
    listing
}

// ---------------------------------------------------------------- nme ko

/// The line `nme ko` prints for one code: the code and its title, the
/// Korean title first when Korean is answered too.
pub open spec fn code_line(code: DiagnosticCode, language: MessageLanguage) -> Seq<char> {
    let e = explanation_of(code);
    match language {
        MessageLanguage::English => e.code@ + "  "@ + e.title_en@ + "\n"@,
        MessageLanguage::KoreanAndEnglish => e.code@ + "  "@ + e.title_ko@ + " / "@ + e.title_en@
            + "\n"@,
    }
}

/// The lines of the codes, in order.
pub open spec fn code_lines(codes: Seq<DiagnosticCode>, language: MessageLanguage) -> Seq<char>
    decreases codes.len(),
{
    if codes.len() == 0 {
        Seq::empty()
    } else {
        code_lines(codes.drop_last(), language) + code_line(codes.last(), language)
    }
}

/// What `nme ko` (or `nme en`) with no code prints: a line for every code.
#[verifier::rlimit(100)]
pub fn codes_listing(language: MessageLanguage) -> (listing: String)
    ensures
        listing@ == code_lines(DiagnosticCode::ALL@, language),
{
    let mut listing = String::new();
    let mut i: usize = 0;
    assert(DiagnosticCode::ALL@.take(0) =~= Seq::<DiagnosticCode>::empty());
    while i < 70
        invariant
            0 <= i <= 70,
            DiagnosticCode::ALL@.len() == 70,
            listing@ == code_lines(DiagnosticCode::ALL@.take(i as int), language),
        decreases 70 - i,
    {
        let code = DiagnosticCode::ALL[i];
        let explanation = code.explanation();
        let ghost before = listing@;
        listing.append(explanation.code);
        listing.append("  ");
        if language == MessageLanguage::KoreanAndEnglish {
            listing.append(explanation.title_ko);
            listing.append(" / ");
        }
        listing.append(explanation.title_en);
        listing.append("\n");
        assert(DiagnosticCode::ALL@.take(i + 1).drop_last() =~= DiagnosticCode::ALL@.take(i as int));
        assert(listing@ =~= before + code_line(code, language));
        i = i + 1;
    }
    assert(DiagnosticCode::ALL@.take(70) =~= DiagnosticCode::ALL@);
    listing
}

/// The page `nme ko <CODE>` prints: the code, its title and its detail, and
/// how to find it again; in Korean first, then English, when Korean is
/// answered too.
pub open spec fn code_page(code: DiagnosticCode, language: MessageLanguage) -> Seq<char> {
    let e = explanation_of(code);
    let english = e.code@ + " — "@ + e.title_en@ + "\n\n"@ + e.detail_en@;
    match language {
        MessageLanguage::English => english
            + "\n\nSee it in your program: the compiler prints this code\nnext to the error, for example `error["@
            + e.code@ + "]`. You can also run\n`nme ko "@ + e.code@
            + "` anytime to read this page again.\n"@,
        MessageLanguage::KoreanAndEnglish => e.code@ + " — "@ + e.title_ko@ + "\n\n"@ + e.detail_ko@
            + "\n\n프로그램에서 이 코드를 보면 오류 옆에 `error["@ + e.code@
            + "]`처럼 표시됩니다. 궁금할 때 `nme ko "@ + e.code@
            + "`를 다시 실행하면 이 설명을 볼 수 있습니다.\n\n"@ + english + "\n"@,
    }
}

/// The page `nme ko <CODE>` prints for a code.
pub fn code_page_text(code: DiagnosticCode, language: MessageLanguage) -> (page: String)
    ensures
        page@ == code_page(code, language),
{
    let e = code.explanation();
    let mut page = String::new();
    if language == MessageLanguage::KoreanAndEnglish {
        page.append(e.code);
        page.append(" — ");
        page.append(e.title_ko);
        page.append("\n\n");
        page.append(e.detail_ko);
        page.append("\n\n프로그램에서 이 코드를 보면 오류 옆에 `error[");
        page.append(e.code);
        page.append("]`처럼 표시됩니다. 궁금할 때 `nme ko ");
        page.append(e.code);
        page.append("`를 다시 실행하면 이 설명을 볼 수 있습니다.\n\n");
    }
    page.append(e.code);
    page.append(" — ");
    page.append(e.title_en);
    page.append("\n\n");
    page.append(e.detail_en);
    if language == MessageLanguage::KoreanAndEnglish {
        page.append("\n");
    } else {
        page.append(
            "\n\nSee it in your program: the compiler prints this code\nnext to the error, for example `error[",
        );
        page.append(e.code);
        page.append("]`. You can also run\n`nme ko ");
        page.append(e.code);
        page.append("` anytime to read this page again.\n");
    }
    page
}

/// What `nme ko` was asked for.
#[derive(Debug, Clone, Copy, PartialEq, Eq, Structural)]
pub enum CodeRequest {
    /// No code: the list of every code.
    Listing,
    /// The page of one code.
    Page(DiagnosticCode),
    /// More than one word.
    OneAtATime,
    /// A word that is no code.
    NoSuchCode,
}

/// Reads the words after `nme ko` or `nme en`.
pub fn code_request(args: &[String]) -> (request: CodeRequest)
    ensures
        request == (if args@.len() == 0 {
            CodeRequest::Listing
        } else if args@.len() > 1 {
            CodeRequest::OneAtATime
        } else {
            match crate::diagnostics::lookup_code(args@[0]@) {
                Some(code) => CodeRequest::Page(code),
                None => CodeRequest::NoSuchCode,
            }
        }),
{
    if args.len() == 0 {
        CodeRequest::Listing
    } else if args.len() > 1 {
        CodeRequest::OneAtATime
    } else {
        match DiagnosticCode::from_code(args[0].as_str()) {
            Some(code) => CodeRequest::Page(code),
            None => CodeRequest::NoSuchCode,
        }
    }
}

} // verus!
