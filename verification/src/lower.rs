//! Lowers NME statements to ordinary Python source text.
//!
//! Lowering works by **edits**: each [`NmeLine`] knows the exact source span
//! it occupies, and lowering replaces just that span with Python. Everything
//! else — comments, blank lines, docstrings, pure-Python code — stays
//! byte-for-byte identical to what the user wrote.
//!
//! Every NME statement lowers to a single line of Python, so the output has
//! exactly as many lines as the input and Python tracebacks point at the
//! line numbers the user actually sees in their `.nme` file.
use vstd::prelude::*;

use crate::diagnostics::Span;
use crate::syntax::{
    BundledModuleId, Code, CompareOp, Condition, ConditionValue, InlineStmt, InputKind,
    ItemPosition, ListOrder, Literal, LogicalOp, NmeLine, NmeStmt, Reading, SplitBy, TextPart,
    TextTemplate, UpdateOp, Value, ZeroKnowledgeValue, CHANCE_SCALE, COOLDOWN_PREFIX,
    DATE_MODULE_VERSION, ELAPSED_PYTHON, FILE_MODULE_VERSION, LIST_MODULE_VERSION,
    MATH_MODULE_VERSION, RANDOM_MODULE_VERSION, TEXT_MODULE_VERSION, TIMER_NAME,
    ZERO_KNOWLEDGE_MODULE_VERSION,
};
use crate::text::{
    ascii_lower, exponent_part, is_digit, leading_digits, lower_ascii_text, sign_stripped,
    alphanumeric, byte_slice, bytes_of, chars_of, decimal, float_literal, is_alphanumeric,
    lemma_chars_before, lemma_offset_monotonic, offset_of,
    is_float_literal, is_white_space, on_boundary, parse_i64, parse_i64_chars, push,
    push_byte_slice, push_chars, push_decimal, push_repeated, push_signed, signed_decimal, sub_chars,
    trim, trimmed,
    white_space,
};

verus! {

/// Counts one character's screen width the way a terminal does, so a Korean
/// box or a centred Korean line is not one column short per syllable.
pub const EAST_ASIAN_WIDTH_SUM: &'static str = "sum(2 if __import__(\"unicodedata\").east_asian_width(_c) in \"WF\" else 1 for _c in _t)";

/// How wide a drawn line is, and the column a centred line is centred in.
pub const SCREEN_COLUMNS: usize = 40;

pub const BILINGUAL_RANDOM_TOOLS_PREFIX: &'static str = "import random as 랜덤; random = 랜덤; random_number = 랜덤.randint; random_pick = 랜덤.choice; shuffle = 랜덤.shuffle; 랜덤정수 = 랜덤.randint; 랜덤선택 = 랜덤.choice; 섞기 = 랜덤.shuffle; random_version = 랜덤버전 = ";

pub const BILINGUAL_FILE_TOOLS_PREFIX: &'static str = "import pathlib as 파일경로; file_read = lambda 경로: 파일경로.Path(경로).read_text(); file_write = lambda 경로, 내용: 파일경로.Path(경로).write_text(내용); json_load = lambda 경로: __import__(\"json\").loads(파일경로.Path(경로).read_text()); json_save = lambda 경로, 값: 파일경로.Path(경로).write_text(__import__(\"json\").dumps(값, ensure_ascii=False)); 파일읽기 = file_read; 파일쓰기 = file_write; json읽기 = json_load; json저장 = json_save; file_version = 파일버전 = ";

/// Nine list readings, each of them one plain Python builtin so that the
/// program a learner reads back is something they can look up. Everything here
/// gives a new list back rather than changing the one it was handed.
///
/// The bare names `list` and `목록` are deliberately **not** bound: `list` is
/// a Python builtin, and taking it away would break `list(range(3))` on a line
/// nobody touched.
pub const BILINGUAL_LIST_TOOLS_PREFIX: &'static str = "count = 개수 = len; sort = 정렬 = sorted; reverse = 뒤집기 = lambda 값들: list(reversed(값들)); remove = 빼기 = lambda 값들, 뺄값: [항목 for 항목 in 값들 if 항목 != 뺄값]; first = 첫번째 = lambda 값들: 값들[0]; last = 마지막 = lambda 값들: 값들[-1]; sum = 합계 = sum; largest = 최대 = max; smallest = 최소 = min; list_version = 목록버전 = ";

/// Eight text readings. Each wraps its subject in `str(...)` first, so a
/// number that came back from `ask` can be upper-cased or trimmed without an
/// `AttributeError` on a line that looks perfectly right.
pub const BILINGUAL_TEXT_TOOLS_PREFIX: &'static str = "upper = 대문자 = lambda 값: str(값).upper(); lower = 소문자 = lambda 값: str(값).lower(); trim = 공백없애기 = lambda 값: str(값).strip(); split = 나누기 = lambda 값, 구분자: str(값).split(구분자); join = 합치기 = lambda 구분자, 값들: str(구분자).join(map(str, 값들)); replace = 바꾸기 = lambda 값, 찾을말, 바꿀말: str(값).replace(찾을말, 바꿀말); starts_with = 로시작 = lambda 값, 앞말: str(값).startswith(앞말); length = 길이 = len; text_version = 글자버전 = ";

/// Seven maths readings. `power` is the builtin `pow` rather than `math.pow`,
/// because the builtin keeps whole numbers whole.
pub const BILINGUAL_MATH_TOOLS_PREFIX: &'static str = "import math as 수학; math = 수학; root = 제곱근 = 수학.sqrt; round_to = 반올림 = lambda 값, 자리=None: round(값, 자리); pi = 원주율 = 수학.pi; power = 거듭제곱 = pow; absolute = 절댓값 = abs; floor = 내림 = 수학.floor; ceil = 올림 = 수학.ceil; math_version = 수학버전 = ";

/// The date module binds its version name and nothing else.
pub const BILINGUAL_DATE_TOOLS_PREFIX: &'static str = "date_version = 날짜버전 = ";

pub const SCHNORR_GROUP15_PRIME: &'static str = "FFFFFFFFFFFFFFFFC90FDAA22168C234C4C6628B80DC1CD129024E088A67CC74020BBEA63B139B22514A08798E3404DDEF9519B3CD3A431B302B0A6DF25F14374FE1356D6D51C245E485B576625E7EC6F44C42E9A637ED6B0BFF5CB6F406B7EDEE386BFB5A899FA5AE9F24117C4B1FE649286651ECE45B3DC2007CB8A163BF0598DA48361C55D39A69163FA8FD24CF5F83655D23DCA3AD961C62F356208552BB9ED529077096966D670C354E4ABC9804F1746C08CA18217C32905E462E36CE3BE39E772C180E86039B2783A2EC07A28FB5C55DF06F4C52C9DE2BCBF6955817183995497CEA956AE515D2261898FA051015728E5A8AAAC42DAD33170D04507A33A85521ABDF1CBA64ECFB850458DBEF0A8AEA71575D060C7DB3970F85A6E1E4C7ABF5AE8CDB0933D71E8C94E04A25619DCEE3D2261AD2EE6BF12FFA06D98A0864D87602733EC86A64521F2B18177B200CBBE117577A615D6C770988C0BAD946E208E24FA074E5AB3143DB5BFCE0FD108E4B82D120A93AD2CAFFFFFFFFFFFFFFFF";

pub const BILINGUAL_ZERO_KNOWLEDGE_TOOLS_PREFIX: &'static str = "import secrets as 영지식비밀난수; zk_prime = 영지식큰소수 = 0xFFFFFFFFFFFFFFFFC90FDAA22168C234C4C6628B80DC1CD129024E088A67CC74020BBEA63B139B22514A08798E3404DDEF9519B3CD3A431B302B0A6DF25F14374FE1356D6D51C245E485B576625E7EC6F44C42E9A637ED6B0BFF5CB6F406B7EDEE386BFB5A899FA5AE9F24117C4B1FE649286651ECE45B3DC2007CB8A163BF0598DA48361C55D39A69163FA8FD24CF5F83655D23DCA3AD961C62F356208552BB9ED529077096966D670C354E4ABC9804F1746C08CA18217C32905E462E36CE3BE39E772C180E86039B2783A2EC07A28FB5C55DF06F4C52C9DE2BCBF6955817183995497CEA956AE515D2261898FA051015728E5A8AAAC42DAD33170D04507A33A85521ABDF1CBA64ECFB850458DBEF0A8AEA71575D060C7DB3970F85A6E1E4C7ABF5AE8CDB0933D71E8C94E04A25619DCEE3D2261AD2EE6BF12FFA06D98A0864D87602733EC86A64521F2B18177B200CBBE117577A615D6C770988C0BAD946E208E24FA074E5AB3143DB5BFCE0FD108E4B82D120A93AD2CAFFFFFFFFFFFFFFFF; zk_order = 영지식부분군크기 = (zk_prime - 1) // 2; zk_generator = 영지식생성원 = 2; zk_challenge_bits = 영지식도전비트 = 256; zk_challenge_limit = 영지식도전범위 = 1 << zk_challenge_bits; zk_secret = 영지식비밀만들기 = lambda: 영지식비밀난수.randbelow(zk_order - 1) + 1; zk_public = 영지식공개값 = lambda 비밀값: pow(zk_generator, 비밀값, zk_prime); zk_nonce = 영지식일회값만들기 = lambda: 영지식비밀난수.randbelow(zk_order); zk_commitment = 영지식약속 = lambda 일회값: pow(zk_generator, 일회값, zk_prime); zk_challenge = 영지식도전만들기 = lambda: 영지식비밀난수.randbelow(zk_challenge_limit); zk_challenge_except = 영지식다른도전 = lambda 제외: ((lambda 후보: 후보 + (1 if 후보 >= 제외 else 0))(영지식비밀난수.randbelow(zk_challenge_limit - 1))); zk_response = 영지식응답 = lambda 일회값, 비밀값, 도전값: (일회값 - 비밀값 * 도전값) % zk_order; zk_simulated_response = 영지식모의응답만들기 = lambda: 영지식비밀난수.randbelow(zk_order); zk_simulated_commitment = 영지식모의약속 = lambda 공개값, 도전값, 응답값: (pow(zk_generator, 응답값, zk_prime) * pow(공개값, 도전값, zk_prime)) % zk_prime; zk_verify = 영지식검증 = lambda 공개값, 약속값, 도전값, 응답값: (1 < 공개값 < zk_prime and pow(공개값, zk_order, zk_prime) == 1 and 1 <= 약속값 < zk_prime and pow(약속값, zk_order, zk_prime) == 1 and 0 <= 도전값 < zk_challenge_limit and 0 <= 응답값 < zk_order and 약속값 == (pow(zk_generator, 응답값, zk_prime) * pow(공개값, 도전값, zk_prime)) % zk_prime); zk_group_bytes = 영지식그룹바이트 = (zk_prime.bit_length() + 7) // 8; _nme_zk_context_bytes = lambda 문맥값: 문맥값 if isinstance(문맥값, bytes) else str(문맥값).encode(\"utf-8\"); _nme_zk_int_bytes = lambda 값: int(값).to_bytes(zk_group_bytes, \"big\"); _nme_zk_context_frame = lambda 문맥값: (lambda 바이트: len(바이트).to_bytes(8, \"big\") + 바이트)(_nme_zk_context_bytes(문맥값)); zk_nizk_challenge = 영지식비대화도전 = lambda 공개값, 약속값, 문맥값: int.from_bytes(__import__(\"hashlib\").sha256(b\"NME-SCHNORR-GROUP15-NIZK-v1\\0\" + _nme_zk_int_bytes(zk_generator) + _nme_zk_int_bytes(약속값) + _nme_zk_int_bytes(공개값) + _nme_zk_context_frame(문맥값)).digest(), \"big\"); zk_nizk_prove = 영지식비대화증명 = lambda 비밀값, 문맥값: (lambda 일회값: (lambda 약속값: (lambda 도전값: [약속값, (일회값 - 비밀값 * 도전값) % zk_order])(zk_nizk_challenge(zk_public(비밀값), 약속값, 문맥값)))(zk_commitment(일회값)))(zk_nonce()); zk_nizk_verify = 영지식비대화검증 = lambda 공개값, 증명값, 문맥값: (isinstance(증명값, (list, tuple)) and len(증명값) == 2 and zk_verify(공개값, 증명값[0], zk_nizk_challenge(공개값, 증명값[0], 문맥값), 증명값[1])); zero_knowledge_version = 영지식버전 = ";

/// A single source replacement: overwrite `span` with `replacement`.
#[derive(Debug, Clone, PartialEq, Eq)]
pub struct Edit {
    /// Byte span in the source to replace.
    pub span: Span,
    /// The Python text to put in its place.
    pub replacement: String,
}

// ------------------------------------------------------------------ model

/// Whether a piece of code can be read out of `s`: a source span must run
/// forwards between two character boundaries of the text.
pub open spec fn code_fits(code: Code, s: Seq<char>) -> bool {
    match code {
        Code::Source(span) => span_fits(span, s),
        Code::Generated(_) => true,
    }
}

/// `span` runs forwards between two character boundaries of `s`, so
/// `&source[span.start..span.end]` is defined.
pub open spec fn span_fits(span: Span, s: Seq<char>) -> bool {
    span.start <= span.end && on_boundary(s, span.start as int) && on_boundary(s, span.end as int)
}

/// The text a piece of code stands for.
pub open spec fn code_text(code: Code, s: Seq<char>) -> Seq<char> {
    match code {
        Code::Source(span) => byte_slice(s, span.start as int, span.end as int),
        Code::Generated(text) => text@,
    }
}

/// One character as it stands inside a double-quoted Python string.
pub open spec fn escaped(c: char) -> Seq<char> {
    if c == '\\' {
        seq!['\\', '\\']
    } else if c == '"' {
        seq!['\\', '"']
    } else if c == '\n' {
        seq!['\\', 'n']
    } else if c == '\r' {
        seq!['\\', 'r']
    } else if c == '\t' {
        seq!['\\', 't']
    } else {
        seq![c]
    }
}

/// Every character of `t`, escaped.
pub open spec fn escape_all(t: Seq<char>) -> Seq<char>
    decreases t.len(),
{
    if t.len() == 0 {
        Seq::empty()
    } else {
        escape_all(t.drop_last()) + escaped(t.last())
    }
}

/// `t` as a double-quoted Python string literal.
pub open spec fn python_string(t: Seq<char>) -> Seq<char> {
    seq!['"'] + escape_all(t) + seq!['"']
}

/// One piece of a sentence template: words are quoted, a name is turned
/// into text with `str(...)`.
pub open spec fn template_piece(part: TextPart) -> Seq<char> {
    match part {
        TextPart::Literal(text) => python_string(text@),
        TextPart::Variable(name) => "str("@ + name@ + ")"@,
    }
}

/// The pieces joined with ` + `.
pub open spec fn template_pieces(parts: Seq<TextPart>) -> Seq<char>
    decreases parts.len(),
{
    if parts.len() == 0 {
        Seq::empty()
    } else if parts.len() == 1 {
        template_piece(parts[0])
    } else {
        template_pieces(parts.drop_last()) + " + "@ + template_piece(parts.last())
    }
}

/// A sentence template as one Python string expression; the empty
/// template is `""`.
pub open spec fn template_text(parts: Seq<TextPart>) -> Seq<char> {
    if parts.len() == 0 {
        seq!['"', '"']
    } else {
        template_pieces(parts)
    }
}

/// Whether the template ends in words whose last character is white space.
pub open spec fn ends_with_white_space(parts: Seq<TextPart>) -> bool {
    parts.len() > 0 && match parts.last() {
        TextPart::Literal(text) => text@.len() > 0 && white_space(text@.last()),
        TextPart::Variable(_) => false,
    }
}

pub open spec fn literal_text(literal: Literal) -> Seq<char> {
    match literal {
        Literal::True => "True"@,
        Literal::False => "False"@,
        Literal::Nothing => "None"@,
    }
}

/// The one place a reading becomes Python.
pub open spec fn reading_text(of: Seq<char>, reading: Reading) -> Seq<char> {
    match reading {
        Reading::Count => "len("@ + of + ")"@,
        Reading::Total => "sum("@ + of + ")"@,
        Reading::Largest => "max("@ + of + ")"@,
        Reading::Smallest => "min("@ + of + ")"@,
        Reading::Capitals => "str("@ + of + ").upper()"@,
        Reading::SmallLetters => "str("@ + of + ").lower()"@,
    }
}

/// A character an operator cannot split: a letter or digit of any script,
/// `_` or `.`.
pub open spec fn atom_char(c: char) -> bool {
    alphanumeric(c) || c == '_' || c == '.'
}

/// An expression that cannot change meaning when an operator is put next
/// to it: once trimmed, a non-empty run of letters, digits, `_` and `.`.
pub open spec fn simple_atom(t: Seq<char>) -> bool {
    let u = trim(t);
    u.len() > 0 && forall|i: int| 0 <= i < u.len() ==> atom_char(#[trigger] u[i])
}

/// `t`, or `(t)` when it is more than one atom.
pub open spec fn operand(t: Seq<char>) -> Seq<char> {
    if simple_atom(t) {
        t
    } else {
        seq!['('] + t + seq![')']
    }
}

/// `30% 확률`: a draw out of the chance scale against the permille.
pub open spec fn chance_text(permille: u32) -> Seq<char> {
    "__import__(\"random\").randrange("@ + decimal(CHANCE_SCALE as nat) + ") < "@ + decimal(
        permille as nat,
    )
}

/// A random choice keeps a number as a number and quotes anything else.
pub open spec fn choice_text(choice: Seq<char>) -> Seq<char> {
    if float_literal(choice) {
        choice
    } else {
        python_string(choice)
    }
}

/// The choices joined with `, `.
pub open spec fn choices_text(choices: Seq<String>) -> Seq<char>
    decreases choices.len(),
{
    if choices.len() == 0 {
        Seq::empty()
    } else if choices.len() == 1 {
        choice_text(choices[0]@)
    } else {
        choices_text(choices.drop_last()) + ", "@ + choice_text(choices.last()@)
    }
}

/// Names joined with `, `.
pub open spec fn names_text(names: Seq<String>) -> Seq<char>
    decreases names.len(),
{
    if names.len() == 0 {
        Seq::empty()
    } else if names.len() == 1 {
        names[0]@
    } else {
        names_text(names.drop_last()) + ", "@ + names.last()@
    }
}

/// The Schnorr group's prime as a Python number.
pub open spec fn zk_p() -> Seq<char> {
    "0x"@ + SCHNORR_GROUP15_PRIME@
}

/// The order of the group's subgroup, `(p - 1) // 2`, as Python.
pub open spec fn zk_q() -> Seq<char> {
    "(("@ + zk_p() + " - 1) // 2)"@
}

/// Every challenge is below this.
pub open spec fn zk_limit() -> Seq<char> {
    "(1 << 256)"@
}

/// `(t)`.
pub open spec fn parens(t: Seq<char>) -> Seq<char> {
    seq!['('] + t + seq![')']
}

/// `x < p and pow(x, q, p) == 1`: `x` is below the prime and in the
/// subgroup.
pub open spec fn zk_member(x: Seq<char>) -> Seq<char> {
    x + " < "@ + zk_p() + " and pow("@ + x + ", "@ + zk_q() + ", "@ + zk_p() + ") == 1"@
}

/// The challenge below its limit and the response below the order.
pub open spec fn zk_ranges(c: Seq<char>, r: Seq<char>) -> Seq<char> {
    c + " < "@ + zk_limit() + " and 0 <= "@ + r + " < "@ + zk_q()
}

/// The commitment the response and challenge rebuild.
pub open spec fn zk_equation(k: Seq<char>, m: Seq<char>, c: Seq<char>, r: Seq<char>) -> Seq<char> {
    m + " == (pow(2, "@ + r + ", "@ + zk_p() + ") * pow("@ + k + ", "@ + c + ", "@ + zk_p()
        + ")) % "@ + zk_p()
}

/// The zero-knowledge values, with the group written out in full.
pub open spec fn zk_text(value: ZeroKnowledgeValue, s: Seq<char>) -> Seq<char> {
    let p = zk_p();
    let q = zk_q();
    match value {
        ZeroKnowledgeValue::Secret => "__import__(\"secrets\").randbelow(("@ + q + ") - 1) + 1"@,
        ZeroKnowledgeValue::Public { secret } => "pow(2, "@ + code_text(secret, s) + ", "@ + p
            + ")"@,
        ZeroKnowledgeValue::NizkChallenge { public_key, commitment, context } => "zk_nizk_challenge("@
            + code_text(public_key, s) + ", "@ + code_text(commitment, s) + ", "@ + code_text(
            context,
            s,
        ) + ")"@,
        ZeroKnowledgeValue::NizkProof { secret, context } => "zk_nizk_prove("@ + code_text(
            secret,
            s,
        ) + ", "@ + code_text(context, s) + ")"@,
        ZeroKnowledgeValue::NizkVerify { public_key, proof, context } => "zk_nizk_verify("@
            + code_text(public_key, s) + ", "@ + code_text(proof, s) + ", "@ + code_text(context, s)
            + ")"@,
        ZeroKnowledgeValue::Nonce => "__import__(\"secrets\").randbelow("@ + q + ")"@,
        ZeroKnowledgeValue::SimulatedResponse => "__import__(\"secrets\").randbelow("@ + q + ")"@,
        ZeroKnowledgeValue::Commitment { nonce } => "pow(2, "@ + code_text(nonce, s) + ", "@ + p
            + ")"@,
        ZeroKnowledgeValue::Challenge => "__import__(\"secrets\").randbelow("@ + zk_limit() + ")"@,
        ZeroKnowledgeValue::ChallengeExcept { excluded } => "((lambda 후보: 후보 + (1 if 후보 >= ("@
            + code_text(excluded, s) + ") else 0))(__import__(\"secrets\").randbelow("@ + zk_limit()
            + " - 1)))"@,
        ZeroKnowledgeValue::Response { nonce, secret, challenge } => "("@ + parens(
            code_text(nonce, s),
        ) + " - "@ + parens(code_text(secret, s)) + " * "@ + parens(code_text(challenge, s))
            + ") % "@ + q,
        ZeroKnowledgeValue::Verify { public_key, commitment, challenge, response } => {
            let k = parens(code_text(public_key, s));
            let m = parens(code_text(commitment, s));
            let c = parens(code_text(challenge, s));
            let r = parens(code_text(response, s));
            "(1 < "@ + zk_member(k) + " and 1 <= "@ + zk_member(m) + " and 0 <= "@ + zk_ranges(c, r)
                + " and "@ + zk_equation(k, m, c, r) + seq![')']
        },
        ZeroKnowledgeValue::SimulatedCommitment { public_key, challenge, response } => "(pow(2, "@
            + parens(code_text(response, s)) + ", "@ + p + ") * pow("@ + parens(
            code_text(public_key, s),
        ) + ", "@ + parens(code_text(challenge, s)) + ", "@ + p + ")) % "@ + p,
    }
}

/// Which item of a list: the sentence counts from one, Python from zero. A
/// number written in the sentence is counted down here; anything else keeps
/// its expression.
pub open spec fn item_text(of: Seq<char>, position: ItemPosition, s: Seq<char>) -> Seq<char> {
    match position {
        ItemPosition::First => of + "[0]"@,
        ItemPosition::Last => of + "[-1]"@,
        ItemPosition::Numbered(code) => {
            let written = code_text(code, s);
            match parse_i64(trim(written)) {
                Some(number) => of + seq!['['] + signed_decimal(number - 1) + seq![']'],
                None => of + "[("@ + written + ") - 1]"@,
            }
        },
    }
}

/// The Python expression for a value.
pub open spec fn value_text(value: Value, s: Seq<char>) -> Seq<char>
    decreases value,
{
    match value {
        Value::Python(code) => code_text(code, s),
        Value::Text(template) => template_text(template.parts@),
        Value::Literal(literal) => literal_text(literal),
        Value::RandomInteger { low, high } => "__import__(\"random\").randint("@ + code_text(low, s)
            + ", "@ + code_text(high, s) + ")"@,
        Value::RandomChoice { choices } => "__import__(\"random\").choice(("@ + choices_text(
            choices@,
        ) + ",))"@,
        Value::List(items) => seq!['['] + values_text(items@, s) + seq![']'],
        Value::EmptyRecord => "{}"@,
        Value::Entry { of, key } => of@ + seq!['['] + value_text(*key, s) + seq![']'],
        Value::Reading { of, reading } => reading_text(of@, reading),
        Value::Item { of, position } => item_text(of@, position, s),
        Value::Joined { of, separator } => python_string(separator@) + ".join(map(str, "@ + of@
            + "))"@,
        Value::Split { of, by } => match by {
            SplitBy::Lines => "str("@ + of@ + ").splitlines()"@,
            SplitBy::Text(separator) => "str("@ + of@ + ").split("@ + python_string(separator@)
                + ")"@,
        },
        Value::Repeated { of, times } => "str("@ + of@ + ") * "@ + operand(code_text(times, s)),
        Value::Remainder { of, by } => of@ + " % "@ + operand(code_text(by, s)),
        Value::Elapsed => ELAPSED_PYTHON@,
        Value::Chance { permille } => chance_text(permille),
        Value::ZeroKnowledge(z) => zk_text(z, s),
    }
}

/// Values joined with `, `.
pub open spec fn values_text(values: Seq<Value>, s: Seq<char>) -> Seq<char>
    decreases values,
{
    if values.len() == 0 {
        Seq::empty()
    } else if values.len() == 1 {
        value_text(values[0], s)
    } else {
        values_text(values.drop_last(), s) + ", "@ + value_text(values.last(), s)
    }
}

/// Whether every piece of code in a zero-knowledge value can be read out.
pub open spec fn zk_fits(value: ZeroKnowledgeValue, s: Seq<char>) -> bool {
    match value {
        ZeroKnowledgeValue::Public { secret } => code_fits(secret, s),
        ZeroKnowledgeValue::NizkChallenge { public_key, commitment, context } => code_fits(
            public_key,
            s,
        ) && code_fits(commitment, s) && code_fits(context, s),
        ZeroKnowledgeValue::NizkProof { secret, context } => code_fits(secret, s) && code_fits(
            context,
            s,
        ),
        ZeroKnowledgeValue::NizkVerify { public_key, proof, context } => code_fits(public_key, s)
            && code_fits(proof, s) && code_fits(context, s),
        ZeroKnowledgeValue::Commitment { nonce } => code_fits(nonce, s),
        ZeroKnowledgeValue::ChallengeExcept { excluded } => code_fits(excluded, s),
        ZeroKnowledgeValue::Response { nonce, secret, challenge } => code_fits(nonce, s)
            && code_fits(secret, s) && code_fits(challenge, s),
        ZeroKnowledgeValue::Verify { public_key, commitment, challenge, response } => code_fits(
            public_key,
            s,
        ) && code_fits(commitment, s) && code_fits(challenge, s) && code_fits(response, s),
        ZeroKnowledgeValue::SimulatedCommitment { public_key, challenge, response } => code_fits(
            public_key,
            s,
        ) && code_fits(challenge, s) && code_fits(response, s),
        _ => true,
    }
}

/// Whether a value can be lowered against `s`: its code can be read out,
/// and a numbered item's number can be counted down without leaving `i64`.
pub open spec fn value_fits(value: Value, s: Seq<char>) -> bool
    decreases value,
{
    match value {
        Value::Python(code) => code_fits(code, s),
        Value::RandomInteger { low, high } => code_fits(low, s) && code_fits(high, s),
        Value::List(items) => values_fit(items@, s),
        Value::Entry { of, key } => value_fits(*key, s),
        Value::Item { of, position } => match position {
            ItemPosition::Numbered(code) => code_fits(code, s) && parse_i64(
                trim(code_text(code, s)),
            ) != Some(i64::MIN as int),
            _ => true,
        },
        Value::Repeated { of, times } => code_fits(times, s),
        Value::Remainder { of, by } => code_fits(by, s),
        Value::ZeroKnowledge(z) => zk_fits(z, s),
        _ => true,
    }
}

pub open spec fn values_fit(values: Seq<Value>, s: Seq<char>) -> bool
    decreases values,
{
    if values.len() == 0 {
        true
    } else {
        values_fit(values.drop_last(), s) && value_fits(values.last(), s)
    }
}

} // verus!

verus! {

/// One side of a comparison, or a value tested on its own.
pub open spec fn condition_value_text(value: ConditionValue, s: Seq<char>) -> Seq<char> {
    match value {
        ConditionValue::Python(code) => code_text(code, s),
        ConditionValue::Name(name) => name@,
        ConditionValue::Text(text) => python_string(text@),
        ConditionValue::Literal(literal) => literal_text(literal),
        ConditionValue::Reading { of, reading } => reading_text(of@, reading),
        ConditionValue::Remainder { of, by } => of@ + " % "@ + operand(code_text(by, s)),
        ConditionValue::Entry { of, key } => of@ + seq!['['] + value_text(*key, s) + seq![']'],
    }
}

pub open spec fn compare_op_text(operator: CompareOp) -> Seq<char> {
    match operator {
        CompareOp::Equal => "=="@,
        CompareOp::Greater => ">"@,
        CompareOp::Less => "<"@,
        CompareOp::LessOrEqual => "<="@,
        CompareOp::GreaterOrEqual => ">="@,
        CompareOp::Contains => "in"@,
    }
}

/// A comparison. NME puts the container first (`names contains Mina`) and
/// Python the member; a negated equality is `!=`.
pub open spec fn compare_text(
    left: Seq<char>,
    operator: CompareOp,
    right: Seq<char>,
    negated: bool,
) -> Seq<char> {
    if operator == CompareOp::Contains {
        if negated {
            right + " not in "@ + left
        } else {
            right + " in "@ + left
        }
    } else if negated && operator == CompareOp::Equal {
        left + " != "@ + right
    } else if negated {
        "not ("@ + left + seq![' '] + compare_op_text(operator) + seq![' '] + right + seq![')']
    } else {
        left + seq![' '] + compare_op_text(operator) + seq![' '] + right
    }
}

/// The Python expression for a condition.
pub open spec fn condition_text(condition: Condition, s: Seq<char>) -> Seq<char>
    decreases condition,
{
    match condition {
        Condition::Python(code) => code_text(code, s),
        Condition::Truthy { value, negated } => {
            let v = condition_value_text(value, s);
            if negated {
                "not ("@ + v + seq![')']
            } else {
                v
            }
        },
        Condition::Compare { left, operator, right, negated } => compare_text(
            condition_value_text(left, s),
            operator,
            condition_value_text(right, s),
            negated,
        ),
        Condition::Logical { left, operator, right } => seq!['('] + condition_text(*left, s) + (
        match operator {
            LogicalOp::And => " and "@,
            LogicalOp::Or => " or "@,
        }) + condition_text(*right, s) + seq![')'],
    }
}

/// How deep the parentheses in the first `i` characters of `t` are open.
pub open spec fn depth(t: Seq<char>, i: int) -> int
    decreases i,
{
    if i <= 0 {
        0
    } else if t[i - 1] == '(' {
        depth(t, i - 1) + 1
    } else if t[i - 1] == ')' {
        depth(t, i - 1) - 1
    } else {
        depth(t, i - 1)
    }
}

/// Whether one pair of parentheses encloses the whole of `t`: it opens with
/// `(`, closes with `)`, and the first parenthesis does not close before
/// the last character.
pub open spec fn wholly_parenthesized(t: Seq<char>) -> bool {
    &&& t.len() > 0
    &&& t[0] == '('
    &&& t.last() == ')'
    &&& forall|i: int| 0 <= i < t.len() - 1 && t[i] == ')' ==> depth(t, i + 1) != 0
    &&& depth(t, t.len() as int) == 0
}

/// A condition in the parentheses a header needs, without a second pair
/// around one that carries its own.
pub open spec fn wrapped_condition(condition: Condition, s: Seq<char>) -> Seq<char> {
    let c = condition_text(condition, s);
    if wholly_parenthesized(c) {
        c
    } else {
        seq!['('] + c + seq![')']
    }
}

pub open spec fn condition_value_fits(value: ConditionValue, s: Seq<char>) -> bool {
    match value {
        ConditionValue::Python(code) => code_fits(code, s),
        ConditionValue::Remainder { of, by } => code_fits(by, s),
        ConditionValue::Entry { of, key } => value_fits(*key, s),
        _ => true,
    }
}

pub open spec fn condition_fits(condition: Condition, s: Seq<char>) -> bool
    decreases condition,
{
    match condition {
        Condition::Python(code) => code_fits(code, s),
        Condition::Truthy { value, negated } => condition_value_fits(value, s),
        Condition::Compare { left, operator, right, negated } => condition_value_fits(left, s)
            && condition_value_fits(right, s),
        Condition::Logical { left, operator, right } => condition_fits(*left, s) && condition_fits(
            *right,
            s,
        ),
    }
}

} // verus!

verus! {

/// What a screen statement prints: a sentence template is already text,
/// anything else is turned into text first.
pub open spec fn printable_text(value: Value, s: Seq<char>) -> Seq<char> {
    match value {
        Value::Text(_) => value_text(value, s),
        _ => "str("@ + value_text(value, s) + seq![')'],
    }
}

/// The question a value asks for, as the argument of `input`. Words that do
/// not end in a space are given one, so the answer is not typed against them.
pub open spec fn input_text(prompt: Option<Value>, s: Seq<char>) -> Seq<char> {
    match prompt {
        Some(Value::Text(template)) => if ends_with_white_space(template.parts@) {
            "input("@ + template_text(template.parts@) + seq![')']
        } else {
            "input("@ + template_text(template.parts@) + " + \" \")"@
        },
        Some(value) => "input("@ + value_text(value, s) + seq![')'],
        None => "input()"@,
    }
}

pub open spec fn update_op_text(operation: UpdateOp) -> Seq<char> {
    match operation {
        UpdateOp::Add => "+"@,
        UpdateOp::Subtract => "-"@,
        UpdateOp::Multiply => "*"@,
        UpdateOp::Divide => "/"@,
    }
}

/// The text before the one bundled module's version.
pub open spec fn module_prefix(module: BundledModuleId) -> Seq<char> {
    match module {
        BundledModuleId::Random => BILINGUAL_RANDOM_TOOLS_PREFIX@,
        BundledModuleId::File => BILINGUAL_FILE_TOOLS_PREFIX@,
        BundledModuleId::ZeroKnowledge => BILINGUAL_ZERO_KNOWLEDGE_TOOLS_PREFIX@,
        BundledModuleId::List => BILINGUAL_LIST_TOOLS_PREFIX@,
        BundledModuleId::Text => BILINGUAL_TEXT_TOOLS_PREFIX@,
        BundledModuleId::Math => BILINGUAL_MATH_TOOLS_PREFIX@,
        BundledModuleId::Date => BILINGUAL_DATE_TOOLS_PREFIX@,
    }
}

pub open spec fn is_quote(c: char) -> bool {
    c == '\'' || c == '"'
}

/// `t` without the quote marks at its start.
pub open spec fn without_leading_quotes(t: Seq<char>) -> Seq<char>
    decreases t.len(),
{
    if t.len() > 0 && is_quote(t[0]) {
        without_leading_quotes(t.drop_first())
    } else {
        t
    }
}

/// `t` without the quote marks at its end.
pub open spec fn without_trailing_quotes(t: Seq<char>) -> Seq<char>
    decreases t.len(),
{
    if t.len() > 0 && is_quote(t.last()) {
        without_trailing_quotes(t.drop_last())
    } else {
        t
    }
}

pub open spec fn is_path_separator(c: char) -> bool {
    c == '/' || c == '\\'
}

/// What follows the last `/` or `\` of `t`; all of `t` when it has none.
pub open spec fn last_piece(t: Seq<char>) -> Seq<char>
    decreases t.len(),
{
    if t.len() == 0 {
        t
    } else if is_path_separator(t.last()) {
        Seq::empty()
    } else {
        last_piece(t.drop_last()).push(t.last())
    }
}

/// The module an imported `.nme` path names: the quotes taken off, then the
/// file name without `.nme`. A path whose file name does not end in `.nme`
/// is kept whole.
pub open spec fn module_stem(path: Seq<char>) -> Seq<char> {
    let stripped = without_trailing_quotes(without_leading_quotes(path));
    let piece = last_piece(stripped);
    if piece.len() >= 4 && piece.subrange(piece.len() - 4, piece.len() as int) == ".nme"@ {
        piece.subrange(0, piece.len() - 4)
    } else {
        stripped
    }
}

/// What was written after a block header's colon, after one space.
pub open spec fn inline_text(inline: Option<InlineStmt>, s: Seq<char>) -> Seq<char>
    decreases inline,
{
    match inline {
        None => Seq::empty(),
        Some(InlineStmt::Nme(inner)) => seq![' '] + stmt_text(*inner, s),
        Some(InlineStmt::Python(span)) => seq![' '] + byte_slice(
            s,
            span.start as int,
            span.end as int,
        ),
    }
}

/// The one line of Python an NME statement becomes.
pub open spec fn stmt_text(stmt: NmeStmt, s: Seq<char>) -> Seq<char>
    decreases stmt,
{
    match stmt {
        NmeStmt::Say { value } => "print("@ + value_text(value, s) + seq![')'],
        NmeStmt::Ask { target, prompt, kind } => match kind {
            InputKind::Text => target@ + " = "@ + input_text(prompt, s),
            InputKind::Number => target@ + " = int("@ + input_text(prompt, s) + seq![')'],
        },
        NmeStmt::SetValue { target, value } => target@ + " = "@ + value_text(value, s),
        NmeStmt::Update { target, amount, operation } => target@ + " = "@ + target@ + seq![' ']
            + update_op_text(operation) + seq![' '] + operand(code_text(amount, s)),
        NmeStmt::Times { count, inline } => "for _ in range("@ + code_text(count, s) + "):"@
            + inline_text(inline, s),
        NmeStmt::ForEach { name, items, position, inline } => (match position {
            Some(position) => "for "@ + position@ + ", "@ + name@ + " in enumerate("@ + code_text(
                items,
                s,
            ) + ", 1):"@,
            None => "for "@ + name@ + " in "@ + code_text(items, s) + seq![':'],
        }) + inline_text(inline, s),
        NmeStmt::Wait { seconds } => "__import__(\"time\").sleep("@ + code_text(seconds, s)
            + seq![')'],
        NmeStmt::SaySlowly { value, seconds } =>
            "[print(_ch, end=\"\", flush=True) or __import__(\"time\").sleep("@ + code_text(
            seconds,
            s,
        ) + ") for _ch in "@ + printable_text(value, s) + "]; print()"@,
        NmeStmt::ClearScreen => "print(\"\\033[2J\\033[3J\\033[H\", end=\"\")"@,
        NmeStmt::DrawLine => "print(\"─\" * "@ + decimal(SCREEN_COLUMNS as nat) + seq![')'],
        NmeStmt::SayInBox { value } =>
            "print((lambda _t: (lambda _w: \"┌\" + \"─\" * (_w + 2) + \"┐\\n│ \" + _t + \" │\\n└\" + \"─\" * (_w + 2) + \"┘\")("@
            + EAST_ASIAN_WIDTH_SUM@ + "))("@ + printable_text(value, s) + "))"@,
        NmeStmt::SayInMiddle { value } => "print((lambda _t: \" \" * max(0, ("@ + decimal(
            SCREEN_COLUMNS as nat,
        ) + " - "@ + EAST_ASIAN_WIDTH_SUM@ + ") // 2) + _t)("@ + printable_text(value, s)
            + "))"@,
        NmeStmt::StartTimer => TIMER_NAME@ + " = __import__(\"time\").time()"@,
        NmeStmt::Cooldown { target, seconds } => COOLDOWN_PREFIX@ + target@
            + " = __import__(\"time\").time() + "@ + code_text(seconds, s),
        NmeStmt::WaitForCooldown { target } => "__import__(\"time\").sleep(max(0, "@
            + COOLDOWN_PREFIX@ + target@ + " - __import__(\"time\").time()))"@,
        NmeStmt::Append { target, value } => target@ + ".append("@ + value_text(value, s) + seq![
            ')',
        ],
        NmeStmt::Remove { target, value } => target@ + ".remove("@ + value_text(value, s) + seq![
            ')',
        ],
        NmeStmt::RecordPut { target, key, value } => target@ + seq!['['] + value_text(key, s)
            + "] = "@ + value_text(value, s),
        NmeStmt::RecordRemove { target, key } => "del "@ + target@ + seq!['['] + value_text(key, s)
            + seq![']'],
        NmeStmt::Arrange { target, order } => match order {
            ListOrder::Sorted => target@ + ".sort()"@,
            ListOrder::Reversed => target@ + ".reverse()"@,
            ListOrder::Shuffled => "__import__(\"random\").shuffle("@ + target@ + seq![')'],
        },
        NmeStmt::Forever { inline } => "while True:"@ + inline_text(inline, s),
        NmeStmt::Chance { permille, inline } => "if "@ + chance_text(permille) + seq![':']
            + inline_text(inline, s),
        NmeStmt::Story { seconds } => "if True:"@,
        NmeStmt::Job { name, parameters } => "def "@ + name@ + seq!['('] + names_text(parameters@)
            + "):"@,
        NmeStmt::RunJob { name, arguments } => name@ + seq!['('] + values_text(arguments@, s)
            + seq![')'],
        NmeStmt::When { condition, inline } => "if "@ + wrapped_condition(condition, s) + seq![':']
            + inline_text(inline, s),
        NmeStmt::While { condition, inline } => "while "@ + wrapped_condition(condition, s) + seq![':']
            + inline_text(inline, s),
        NmeStmt::ElseIf { condition, inline } => "elif "@ + wrapped_condition(condition, s) + seq![':']
            + inline_text(inline, s),
        NmeStmt::Else { inline } => "else:"@ + inline_text(inline, s),
        NmeStmt::Break => "break"@,
        NmeStmt::Continue => "continue"@,
        NmeStmt::End => "# end"@,
        NmeStmt::UseModule { module, requested } => module_prefix(module) + seq!['"']
            + module.spec_version() + seq!['"'],
        NmeStmt::FileRead { target, path } => target@ + " = __import__(\"pathlib\").Path("@
            + code_text(path, s) + ").read_text()"@,
        NmeStmt::FileWrite { path, value } => "__import__(\"pathlib\").Path("@ + code_text(path, s)
            + ").write_text("@ + value_text(value, s) + seq![')'],
        NmeStmt::ModuleImport { path, names } => "from "@ + module_stem(code_text(path, s))
            + " import "@ + names_text(names@),
    }
}

pub open spec fn inline_fits(inline: Option<InlineStmt>, s: Seq<char>) -> bool
    decreases inline,
{
    match inline {
        None => true,
        Some(InlineStmt::Nme(inner)) => stmt_fits(*inner, s),
        Some(InlineStmt::Python(span)) => span_fits(span, s),
    }
}

/// Whether a statement can be lowered against `s`: every piece of code it
/// holds can be read out of the source, and every value fits.
pub open spec fn stmt_fits(stmt: NmeStmt, s: Seq<char>) -> bool
    decreases stmt,
{
    match stmt {
        NmeStmt::Say { value } => value_fits(value, s),
        NmeStmt::Ask { target, prompt, kind } => match prompt {
            Some(value) => value_fits(value, s),
            None => true,
        },
        NmeStmt::SetValue { target, value } => value_fits(value, s),
        NmeStmt::Update { target, amount, operation } => code_fits(amount, s),
        NmeStmt::Times { count, inline } => code_fits(count, s) && inline_fits(inline, s),
        NmeStmt::ForEach { name, items, position, inline } => code_fits(items, s) && inline_fits(
            inline,
            s,
        ),
        NmeStmt::Wait { seconds } => code_fits(seconds, s),
        NmeStmt::SaySlowly { value, seconds } => value_fits(value, s) && code_fits(seconds, s),
        NmeStmt::SayInBox { value } => value_fits(value, s),
        NmeStmt::SayInMiddle { value } => value_fits(value, s),
        NmeStmt::Cooldown { target, seconds } => code_fits(seconds, s),
        NmeStmt::Append { target, value } => value_fits(value, s),
        NmeStmt::Remove { target, value } => value_fits(value, s),
        NmeStmt::RecordPut { target, key, value } => value_fits(key, s) && value_fits(value, s),
        NmeStmt::RecordRemove { target, key } => value_fits(key, s),
        NmeStmt::Forever { inline } => inline_fits(inline, s),
        NmeStmt::Chance { permille, inline } => inline_fits(inline, s),
        NmeStmt::RunJob { name, arguments } => values_fit(arguments@, s),
        NmeStmt::When { condition, inline } => condition_fits(condition, s) && inline_fits(
            inline,
            s,
        ),
        NmeStmt::While { condition, inline } => condition_fits(condition, s) && inline_fits(
            inline,
            s,
        ),
        NmeStmt::ElseIf { condition, inline } => condition_fits(condition, s) && inline_fits(
            inline,
            s,
        ),
        NmeStmt::Else { inline } => inline_fits(inline, s),
        NmeStmt::FileRead { target, path } => code_fits(path, s),
        NmeStmt::FileWrite { path, value } => code_fits(path, s) && value_fits(value, s),
        NmeStmt::ModuleImport { path, names } => code_fits(path, s),
        _ => true,
    }
}

} // verus!


verus! {

// ------------------------------------------------------------- lowering

/// Appends the text a piece of code stands for.
fn push_code(out: &mut String, code: &Code, src: &[char])
    requires
        bytes_of(src@) <= usize::MAX,
        code_fits(*code, src@),
    ensures
        final(out)@ == old(out)@ + code_text(*code, src@),
{
    match code {
        Code::Source(span) => push_byte_slice(out, src, span.start, span.end),
        Code::Generated(text) => out.append(text.as_str()),
    }
}

/// The characters a piece of code stands for.
fn code_chars(code: &Code, src: &[char]) -> (text: Vec<char>)
    requires
        bytes_of(src@) <= usize::MAX,
        code_fits(*code, src@),
    ensures
        text@ == code_text(*code, src@),
{
    let mut written = String::new();
    push_code(&mut written, code, src);
    chars_of(written.as_str())
}

/// Appends one character escaped for a double-quoted Python string.
fn push_escaped(out: &mut String, c: char)
    ensures
        final(out)@ == old(out)@ + escaped(c),
{
    let ghost start = out@;
    if c == '\\' {
        push(out, '\\');
        push(out, '\\');
    } else if c == '"' {
        push(out, '\\');
        push(out, '"');
    } else if c == '\n' {
        push(out, '\\');
        push(out, 'n');
    } else if c == '\r' {
        push(out, '\\');
        push(out, 'r');
    } else if c == '\t' {
        push(out, '\\');
        push(out, 't');
    } else {
        push(out, c);
    }
    assert(out@ =~= start + escaped(c));
}

/// Appends `text` as a double-quoted Python string literal.
fn push_python_string(out: &mut String, text: &str)
    ensures
        final(out)@ == old(out)@ + python_string(text@),
{
    let cs = chars_of(text);
    let ghost start = out@;
    push(out, '"');
    let mut i: usize = 0;
    while i < cs.len()
        invariant
            0 <= i <= cs@.len(),
            cs@ == text@,
            out@ == start + seq!['"'] + escape_all(cs@.take(i as int)),
        decreases cs@.len() - i,
    {
        push_escaped(out, cs[i]);
        proof {
            assert(cs@.take(i + 1).drop_last() =~= cs@.take(i as int));
        }
        i = i + 1;
        assert(out@ =~= start + seq!['"'] + escape_all(cs@.take(i as int)));
    }
    push(out, '"');
    assert(cs@.take(cs@.len() as int) =~= cs@);
    assert(out@ =~= start + python_string(text@));
}

fn push_template_piece(out: &mut String, part: &TextPart)
    ensures
        final(out)@ == old(out)@ + template_piece(*part),
{
    match part {
        TextPart::Literal(text) => push_python_string(out, text.as_str()),
        TextPart::Variable(name) => {
            let ghost start = out@;
            out.append("str(");
            out.append(name.as_str());
            out.append(")");
            assert(out@ =~= start + template_piece(*part));
        },
    }
}

/// Appends a sentence template as one Python string expression.
fn push_template(out: &mut String, template: &TextTemplate)
    ensures
        final(out)@ == old(out)@ + template_text(template.parts@),
{
    let parts = &template.parts;
    let ghost start = out@;
    if parts.len() == 0 {
        push(out, '"');
        push(out, '"');
        assert(out@ =~= start + template_text(parts@));
        return;
    }
    push_template_piece(out, &parts[0]);
    assert(parts@.take(1) =~= seq![parts@[0]]);
    let mut i: usize = 1;
    while i < parts.len()
        invariant
            1 <= i <= parts@.len(),
            out@ == start + template_pieces(parts@.take(i as int)),
        decreases parts@.len() - i,
    {
        out.append(" + ");
        push_template_piece(out, &parts[i]);
        proof {
            assert(parts@.take(i + 1).drop_last() =~= parts@.take(i as int));
        }
        i = i + 1;
        assert(out@ =~= start + template_pieces(parts@.take(i as int)));
    }
    assert(parts@.take(parts@.len() as int) =~= parts@);
}

/// Whether the template ends in words whose last character is white space.
fn template_ends_with_white_space(template: &TextTemplate) -> (ends: bool)
    ensures
        ends == ends_with_white_space(template.parts@),
{
    let n = template.parts.len();
    if n == 0 {
        return false;
    }
    match &template.parts[n - 1] {
        TextPart::Literal(text) => {
            let cs = chars_of(text.as_str());
            cs.len() > 0 && is_white_space(cs[cs.len() - 1])
        },
        TextPart::Variable(_) => false,
    }
}

fn push_literal(out: &mut String, literal: Literal)
    ensures
        final(out)@ == old(out)@ + literal_text(literal),
{
    match literal {
        Literal::True => out.append("True"),
        Literal::False => out.append("False"),
        Literal::Nothing => out.append("None"),
    }
}

fn push_reading(out: &mut String, of: &str, reading: Reading)
    ensures
        final(out)@ == old(out)@ + reading_text(of@, reading),
{
    let ghost start = out@;
    match reading {
        Reading::Count => out.append("len("),
        Reading::Total => out.append("sum("),
        Reading::Largest => out.append("max("),
        Reading::Smallest => out.append("min("),
        Reading::Capitals => out.append("str("),
        Reading::SmallLetters => out.append("str("),
    }
    out.append(of);
    match reading {
        Reading::Capitals => out.append(").upper()"),
        Reading::SmallLetters => out.append(").lower()"),
        _ => out.append(")"),
    }
    assert(out@ =~= start + reading_text(of@, reading));
}

/// Whether an expression is one atom an operator cannot split.
fn is_simple_atom(t: &[char]) -> (atom: bool)
    ensures
        atom == simple_atom(t@),
{
    let u = trimmed(t);
    if u.len() == 0 {
        return false;
    }
    let mut i: usize = 0;
    while i < u.len()
        invariant
            0 <= i <= u@.len(),
            u@ == trim(t@),
            forall|j: int| 0 <= j < i ==> atom_char(#[trigger] u@[j]),
        decreases u@.len() - i,
    {
        let c = u[i];
        if !(is_alphanumeric(c) || c == '_' || c == '.') {
            assert(!atom_char(u@[i as int]));
            return false;
        }
        i = i + 1;
    }
    true
}

/// Appends an expression, in parentheses unless it is one atom.
fn push_operand(out: &mut String, t: &[char])
    ensures
        final(out)@ == old(out)@ + operand(t@),
{
    let ghost start = out@;
    if is_simple_atom(t) {
        push_chars(out, t);
    } else {
        push(out, '(');
        push_chars(out, t);
        push(out, ')');
        assert(out@ =~= start + operand(t@));
    }
}

fn push_chance(out: &mut String, permille: u32)
    ensures
        final(out)@ == old(out)@ + chance_text(permille),
{
    let ghost start = out@;
    out.append("__import__(\"random\").randrange(");
    push_decimal(out, CHANCE_SCALE as usize);
    out.append(") < ");
    push_decimal(out, permille as usize);
    assert(out@ =~= start + chance_text(permille));
}

fn push_choice(out: &mut String, choice: &String)
    ensures
        final(out)@ == old(out)@ + choice_text(choice@),
{
    let cs = chars_of(choice.as_str());
    if is_float_literal(cs.as_slice()) {
        out.append(choice.as_str());
    } else {
        push_python_string(out, choice.as_str());
    }
}

fn push_choices(out: &mut String, choices: &Vec<String>)
    ensures
        final(out)@ == old(out)@ + choices_text(choices@),
{
    let ghost start = out@;
    if choices.len() == 0 {
        assert(out@ =~= start + choices_text(choices@));
        return;
    }
    push_choice(out, &choices[0]);
    assert(choices@.take(1) =~= seq![choices@[0]]);
    let mut i: usize = 1;
    while i < choices.len()
        invariant
            1 <= i <= choices@.len(),
            out@ == start + choices_text(choices@.take(i as int)),
        decreases choices@.len() - i,
    {
        out.append(", ");
        push_choice(out, &choices[i]);
        proof {
            assert(choices@.take(i + 1).drop_last() =~= choices@.take(i as int));
        }
        i = i + 1;
        assert(out@ =~= start + choices_text(choices@.take(i as int)));
    }
    assert(choices@.take(choices@.len() as int) =~= choices@);
}

fn push_names(out: &mut String, names: &Vec<String>)
    ensures
        final(out)@ == old(out)@ + names_text(names@),
{
    let ghost start = out@;
    if names.len() == 0 {
        assert(out@ =~= start + names_text(names@));
        return;
    }
    out.append(names[0].as_str());
    assert(names@.take(1) =~= seq![names@[0]]);
    let mut i: usize = 1;
    while i < names.len()
        invariant
            1 <= i <= names@.len(),
            out@ == start + names_text(names@.take(i as int)),
        decreases names@.len() - i,
    {
        out.append(", ");
        out.append(names[i].as_str());
        proof {
            assert(names@.take(i + 1).drop_last() =~= names@.take(i as int));
        }
        i = i + 1;
        assert(out@ =~= start + names_text(names@.take(i as int)));
    }
    assert(names@.take(names@.len() as int) =~= names@);
}

} // verus!

verus! {

fn push_p(out: &mut String)
    ensures
        final(out)@ == old(out)@ + zk_p(),
{
    let ghost start = out@;
    out.append("0x");
    out.append(SCHNORR_GROUP15_PRIME);
    assert(out@ =~= start + zk_p());
}

fn push_q(out: &mut String)
    ensures
        final(out)@ == old(out)@ + zk_q(),
{
    let ghost start = out@;
    out.append("((");
    push_p(out);
    out.append(" - 1) // 2)");
    assert(out@ =~= start + zk_q());
}

fn push_parenthesized_code(out: &mut String, code: &Code, src: &[char])
    requires
        bytes_of(src@) <= usize::MAX,
        code_fits(*code, src@),
    ensures
        final(out)@ == old(out)@ + parens(code_text(*code, src@)),
{
    let ghost start = out@;
    push(out, '(');
    push_code(out, code, src);
    push(out, ')');
    assert(out@ =~= start + parens(code_text(*code, src@)));
}

fn push_zk_member(out: &mut String, x: &Code, src: &[char])
    requires
        bytes_of(src@) <= usize::MAX,
        code_fits(*x, src@),
    ensures
        final(out)@ == old(out)@ + zk_member(parens(code_text(*x, src@))),
{
    let ghost start = out@;
    push_parenthesized_code(out, x, src);
    out.append(" < ");
    push_p(out);
    out.append(" and pow(");
    push_parenthesized_code(out, x, src);
    out.append(", ");
    push_q(out);
    out.append(", ");
    push_p(out);
    out.append(") == 1");
    assert(out@ =~= start + zk_member(parens(code_text(*x, src@))));
}

fn push_zk_ranges(out: &mut String, challenge: &Code, response: &Code, src: &[char])
    requires
        bytes_of(src@) <= usize::MAX,
        code_fits(*challenge, src@),
        code_fits(*response, src@),
    ensures
        final(out)@ == old(out)@ + zk_ranges(
            parens(code_text(*challenge, src@)),
            parens(code_text(*response, src@)),
        ),
{
    let ghost start = out@;
    push_parenthesized_code(out, challenge, src);
    out.append(" < ");
    out.append("(1 << 256)");
    out.append(" and 0 <= ");
    push_parenthesized_code(out, response, src);
    out.append(" < ");
    push_q(out);
    assert(out@ =~= start + zk_ranges(
        parens(code_text(*challenge, src@)),
        parens(code_text(*response, src@)),
    ));
}

fn push_zk_equation(
    out: &mut String,
    public_key: &Code,
    commitment: &Code,
    challenge: &Code,
    response: &Code,
    src: &[char],
)
    requires
        bytes_of(src@) <= usize::MAX,
        code_fits(*public_key, src@),
        code_fits(*commitment, src@),
        code_fits(*challenge, src@),
        code_fits(*response, src@),
    ensures
        final(out)@ == old(out)@ + zk_equation(
            parens(code_text(*public_key, src@)),
            parens(code_text(*commitment, src@)),
            parens(code_text(*challenge, src@)),
            parens(code_text(*response, src@)),
        ),
{
    let ghost start = out@;
    push_parenthesized_code(out, commitment, src);
    out.append(" == (pow(2, ");
    push_parenthesized_code(out, response, src);
    out.append(", ");
    push_p(out);
    out.append(") * pow(");
    push_parenthesized_code(out, public_key, src);
    out.append(", ");
    push_parenthesized_code(out, challenge, src);
    out.append(", ");
    push_p(out);
    out.append(")) % ");
    push_p(out);
    assert(out@ =~= start + zk_equation(
        parens(code_text(*public_key, src@)),
        parens(code_text(*commitment, src@)),
        parens(code_text(*challenge, src@)),
        parens(code_text(*response, src@)),
    ));
}

/// The proof check written out in full, one line.
#[verifier::rlimit(40)]
fn push_zk_verify(
    out: &mut String,
    public_key: &Code,
    commitment: &Code,
    challenge: &Code,
    response: &Code,
    src: &[char],
)
    requires
        bytes_of(src@) <= usize::MAX,
        code_fits(*public_key, src@),
        code_fits(*commitment, src@),
        code_fits(*challenge, src@),
        code_fits(*response, src@),
    ensures
        final(out)@ == old(out)@ + zk_text(
            ZeroKnowledgeValue::Verify {
                public_key: *public_key,
                commitment: *commitment,
                challenge: *challenge,
                response: *response,
            },
            src@,
        ),
{
    let ghost start = out@;
    out.append("(1 < ");
    push_zk_member(out, public_key, src);
    out.append(" and 1 <= ");
    push_zk_member(out, commitment, src);
    out.append(" and 0 <= ");
    push_zk_ranges(out, challenge, response, src);
    out.append(" and ");
    push_zk_equation(out, public_key, commitment, challenge, response, src);
    push(out, ')');
    assert(out@ =~= start + zk_text(
        ZeroKnowledgeValue::Verify {
            public_key: *public_key,
            commitment: *commitment,
            challenge: *challenge,
            response: *response,
        },
        src@,
    ));
}

#[verifier::rlimit(40)]
fn push_zk(out: &mut String, value: &ZeroKnowledgeValue, src: &[char])
    requires
        bytes_of(src@) <= usize::MAX,
        zk_fits(*value, src@),
    ensures
        final(out)@ == old(out)@ + zk_text(*value, src@),
{
    let ghost start = out@;
    match value {
        ZeroKnowledgeValue::Secret => {
            out.append("__import__(\"secrets\").randbelow((");
            push_q(out);
            out.append(") - 1) + 1");
        },
        ZeroKnowledgeValue::Public { secret } => {
            out.append("pow(2, ");
            push_code(out, secret, src);
            out.append(", ");
            push_p(out);
            out.append(")");
        },
        ZeroKnowledgeValue::NizkChallenge { public_key, commitment, context } => {
            out.append("zk_nizk_challenge(");
            push_code(out, public_key, src);
            out.append(", ");
            push_code(out, commitment, src);
            out.append(", ");
            push_code(out, context, src);
            out.append(")");
        },
        ZeroKnowledgeValue::NizkProof { secret, context } => {
            out.append("zk_nizk_prove(");
            push_code(out, secret, src);
            out.append(", ");
            push_code(out, context, src);
            out.append(")");
        },
        ZeroKnowledgeValue::NizkVerify { public_key, proof, context } => {
            out.append("zk_nizk_verify(");
            push_code(out, public_key, src);
            out.append(", ");
            push_code(out, proof, src);
            out.append(", ");
            push_code(out, context, src);
            out.append(")");
        },
        ZeroKnowledgeValue::Nonce => {
            out.append("__import__(\"secrets\").randbelow(");
            push_q(out);
            out.append(")");
        },
        ZeroKnowledgeValue::SimulatedResponse => {
            out.append("__import__(\"secrets\").randbelow(");
            push_q(out);
            out.append(")");
        },
        ZeroKnowledgeValue::Commitment { nonce } => {
            out.append("pow(2, ");
            push_code(out, nonce, src);
            out.append(", ");
            push_p(out);
            out.append(")");
        },
        ZeroKnowledgeValue::Challenge => {
            out.append("__import__(\"secrets\").randbelow(");
            out.append("(1 << 256)");
            out.append(")");
        },
        ZeroKnowledgeValue::ChallengeExcept { excluded } => {
            out.append("((lambda 후보: 후보 + (1 if 후보 >= (");
            push_code(out, excluded, src);
            out.append(") else 0))(__import__(\"secrets\").randbelow(");
            out.append("(1 << 256)");
            out.append(" - 1)))");
        },
        ZeroKnowledgeValue::Response { nonce, secret, challenge } => {
            out.append("(");
            push_parenthesized_code(out, nonce, src);
            out.append(" - ");
            push_parenthesized_code(out, secret, src);
            out.append(" * ");
            push_parenthesized_code(out, challenge, src);
            out.append(") % ");
            push_q(out);
        },
        ZeroKnowledgeValue::Verify { public_key, commitment, challenge, response } => {
            push_zk_verify(out, public_key, commitment, challenge, response, src);
        },
        ZeroKnowledgeValue::SimulatedCommitment { public_key, challenge, response } => {
            out.append("(pow(2, ");
            push_parenthesized_code(out, response, src);
            out.append(", ");
            push_p(out);
            out.append(") * pow(");
            push_parenthesized_code(out, public_key, src);
            out.append(", ");
            push_parenthesized_code(out, challenge, src);
            out.append(", ");
            push_p(out);
            out.append(")) % ");
            push_p(out);
        },
    }
    assert(out@ =~= start + zk_text(*value, src@));
}

/// Appends which item of a list a value names.
fn push_item(out: &mut String, of: &String, position: &ItemPosition, src: &[char])
    requires
        bytes_of(src@) <= usize::MAX,
        match *position {
            ItemPosition::Numbered(code) => code_fits(code, src@) && parse_i64(
                trim(code_text(code, src@)),
            ) != Some(i64::MIN as int),
            _ => true,
        },
    ensures
        final(out)@ == old(out)@ + item_text(of@, *position, src@),
{
    let ghost start = out@;
    match position {
        ItemPosition::First => {
            out.append(of.as_str());
            out.append("[0]");
        },
        ItemPosition::Last => {
            out.append(of.as_str());
            out.append("[-1]");
        },
        ItemPosition::Numbered(code) => {
            let written = code_chars(code, src);
            let bare = trimmed(written.as_slice());
            match parse_i64_chars(bare.as_slice()) {
                Some(number) => {
                    out.append(of.as_str());
                    push(out, '[');
                    push_signed(out, number - 1);
                    push(out, ']');
                },
                None => {
                    out.append(of.as_str());
                    out.append("[(");
                    push_chars(out, written.as_slice());
                    out.append(") - 1]");
                },
            }
        },
    }
    assert(out@ =~= start + item_text(of@, *position, src@));
}

} // verus!

verus! {

/// Every value of a list that fits, fits one by one.
proof fn lemma_values_fit(values: Seq<Value>, s: Seq<char>)
    requires
        values_fit(values, s),
    ensures
        forall|i: int| 0 <= i < values.len() ==> value_fits(#[trigger] values[i], s),
    decreases values.len(),
{
    if values.len() > 0 {
        lemma_values_fit(values.drop_last(), s);
        assert forall|i: int| 0 <= i < values.len() implies value_fits(#[trigger] values[i], s) by {
            if i < values.len() - 1 {
                assert(values[i] == values.drop_last()[i]);
            }
        }
    }
}

/// Appends the Python expression for a value.
fn push_value(out: &mut String, value: &Value, src: &[char])
    requires
        bytes_of(src@) <= usize::MAX,
        value_fits(*value, src@),
    ensures
        final(out)@ == old(out)@ + value_text(*value, src@),
    decreases value,
{
    let ghost start = out@;
    match value {
        Value::Python(code) => push_code(out, code, src),
        Value::Text(template) => push_template(out, template),
        Value::Literal(literal) => push_literal(out, *literal),
        Value::RandomInteger { low, high } => {
            out.append("__import__(\"random\").randint(");
            push_code(out, low, src);
            out.append(", ");
            push_code(out, high, src);
            out.append(")");
        },
        Value::RandomChoice { choices } => {
            out.append("__import__(\"random\").choice((");
            push_choices(out, choices);
            out.append(",))");
        },
        Value::List(items) => {
            push(out, '[');
            push_values(out, items, src);
            push(out, ']');
        },
        Value::EmptyRecord => out.append("{}"),
        Value::Entry { of, key } => {
            out.append(of.as_str());
            push(out, '[');
            push_value(out, key, src);
            push(out, ']');
        },
        Value::Reading { of, reading } => push_reading(out, of.as_str(), *reading),
        Value::Item { of, position } => push_item(out, of, position, src),
        Value::Joined { of, separator } => {
            push_python_string(out, separator.as_str());
            out.append(".join(map(str, ");
            out.append(of.as_str());
            out.append("))");
        },
        Value::Split { of, by } => {
            out.append("str(");
            out.append(of.as_str());
            match by {
                SplitBy::Lines => out.append(").splitlines()"),
                SplitBy::Text(separator) => {
                    out.append(").split(");
                    push_python_string(out, separator.as_str());
                    out.append(")");
                },
            }
        },
        Value::Repeated { of, times } => {
            let count = code_chars(times, src);
            out.append("str(");
            out.append(of.as_str());
            out.append(") * ");
            push_operand(out, count.as_slice());
        },
        Value::Remainder { of, by } => {
            let divisor = code_chars(by, src);
            out.append(of.as_str());
            out.append(" % ");
            push_operand(out, divisor.as_slice());
        },
        Value::Elapsed => out.append(ELAPSED_PYTHON),
        Value::Chance { permille } => push_chance(out, *permille),
        Value::ZeroKnowledge(z) => push_zk(out, z, src),
    }
    assert(out@ =~= start + value_text(*value, src@));
}

/// Appends values joined with `, `.
fn push_values(out: &mut String, values: &Vec<Value>, src: &[char])
    requires
        bytes_of(src@) <= usize::MAX,
        values_fit(values@, src@),
    ensures
        final(out)@ == old(out)@ + values_text(values@, src@),
    decreases values@,
{
    let ghost start = out@;
    proof {
        lemma_values_fit(values@, src@);
    }
    if values.len() == 0 {
        assert(out@ =~= start + values_text(values@, src@));
        return;
    }
    push_value(out, &values[0], src);
    assert(values@.take(1) =~= seq![values@[0]]);
    let mut i: usize = 1;
    while i < values.len()
        invariant
            1 <= i <= values@.len(),
            bytes_of(src@) <= usize::MAX,
            forall|j: int| 0 <= j < values@.len() ==> value_fits(#[trigger] values@[j], src@),
            out@ == start + values_text(values@.take(i as int), src@),
        decreases values@.len() - i,
    {
        out.append(", ");
        push_value(out, &values[i], src);
        proof {
            assert(values@.take(i + 1).drop_last() =~= values@.take(i as int));
        }
        i = i + 1;
        assert(out@ =~= start + values_text(values@.take(i as int), src@));
    }
    assert(values@.take(values@.len() as int) =~= values@);
}

} // verus!

verus! {

fn push_condition_value(out: &mut String, value: &ConditionValue, src: &[char])
    requires
        bytes_of(src@) <= usize::MAX,
        condition_value_fits(*value, src@),
    ensures
        final(out)@ == old(out)@ + condition_value_text(*value, src@),
{
    let ghost start = out@;
    match value {
        ConditionValue::Python(code) => push_code(out, code, src),
        ConditionValue::Name(name) => out.append(name.as_str()),
        ConditionValue::Text(text) => push_python_string(out, text.as_str()),
        ConditionValue::Literal(literal) => push_literal(out, *literal),
        ConditionValue::Reading { of, reading } => push_reading(out, of.as_str(), *reading),
        ConditionValue::Remainder { of, by } => {
            let divisor = code_chars(by, src);
            out.append(of.as_str());
            out.append(" % ");
            push_operand(out, divisor.as_slice());
        },
        ConditionValue::Entry { of, key } => {
            out.append(of.as_str());
            push(out, '[');
            push_value(out, key, src);
            push(out, ']');
        },
    }
    assert(out@ =~= start + condition_value_text(*value, src@));
}

fn push_compare_op(out: &mut String, operator: CompareOp)
    ensures
        final(out)@ == old(out)@ + compare_op_text(operator),
{
    match operator {
        CompareOp::Equal => out.append("=="),
        CompareOp::Greater => out.append(">"),
        CompareOp::Less => out.append("<"),
        CompareOp::LessOrEqual => out.append("<="),
        CompareOp::GreaterOrEqual => out.append(">="),
        CompareOp::Contains => out.append("in"),
    }
}

fn push_comparison(
    out: &mut String,
    left: &ConditionValue,
    operator: CompareOp,
    right: &ConditionValue,
    negated: bool,
    src: &[char],
)
    requires
        bytes_of(src@) <= usize::MAX,
        condition_value_fits(*left, src@),
        condition_value_fits(*right, src@),
    ensures
        final(out)@ == old(out)@ + compare_text(
            condition_value_text(*left, src@),
            operator,
            condition_value_text(*right, src@),
            negated,
        ),
{
    let ghost start = out@;
    match operator {
        CompareOp::Contains => {
            push_condition_value(out, right, src);
            if negated {
                out.append(" not in ");
            } else {
                out.append(" in ");
            }
            push_condition_value(out, left, src);
        },
        _ => {
            let equality = match operator {
                CompareOp::Equal => true,
                _ => false,
            };
            if negated && equality {
                push_condition_value(out, left, src);
                out.append(" != ");
                push_condition_value(out, right, src);
            } else {
                if negated {
                    out.append("not (");
                }
                push_condition_value(out, left, src);
                push(out, ' ');
                push_compare_op(out, operator);
                push(out, ' ');
                push_condition_value(out, right, src);
                if negated {
                    push(out, ')');
                }
            }
        },
    }
    assert(out@ =~= start + compare_text(
        condition_value_text(*left, src@),
        operator,
        condition_value_text(*right, src@),
        negated,
    ));
}

/// Appends the Python expression for a condition.
fn push_condition(out: &mut String, condition: &Condition, src: &[char])
    requires
        bytes_of(src@) <= usize::MAX,
        condition_fits(*condition, src@),
    ensures
        final(out)@ == old(out)@ + condition_text(*condition, src@),
    decreases condition,
{
    let ghost start = out@;
    match condition {
        Condition::Python(code) => push_code(out, code, src),
        Condition::Truthy { value, negated } => {
            if *negated {
                out.append("not (");
                push_condition_value(out, value, src);
                push(out, ')');
            } else {
                push_condition_value(out, value, src);
            }
        },
        Condition::Compare { left, operator, right, negated } => {
            push_comparison(out, left, *operator, right, *negated, src);
        },
        Condition::Logical { left, operator, right } => {
            push(out, '(');
            push_condition(out, left, src);
            match operator {
                LogicalOp::And => out.append(" and "),
                LogicalOp::Or => out.append(" or "),
            }
            push_condition(out, right, src);
            push(out, ')');
        },
    }
    assert(out@ =~= start + condition_text(*condition, src@));
}

/// Whether one pair of parentheses encloses the whole text.
fn is_wholly_parenthesized(t: &[char]) -> (wholly: bool)
    ensures
        wholly == wholly_parenthesized(t@),
{
    let n = t.len();
    if n == 0 || t[0] != '(' || t[n - 1] != ')' {
        return false;
    }
    let mut opens: usize = 0;
    let mut closes: usize = 0;
    let mut i: usize = 0;
    while i < n
        invariant
            n == t@.len(),
            n > 0,
            t@[0] == '(',
            t@.last() == ')',
            0 <= i <= n,
            opens <= i,
            closes <= i,
            opens - closes == depth(t@, i as int),
            forall|j: int| 0 <= j < i && j < n - 1 && t@[j] == ')' ==> depth(t@, j + 1) != 0,
        decreases n - i,
    {
        let c = t[i];
        if c == '(' {
            opens = opens + 1;
        } else if c == ')' {
            closes = closes + 1;
            if opens == closes && i + 1 != n {
                assert(!(depth(t@, i + 1) != 0));
                return false;
            }
        }
        i = i + 1;
    }
    opens == closes
}

/// Appends a condition in the parentheses a header needs.
fn push_wrapped_condition(out: &mut String, condition: &Condition, src: &[char])
    requires
        bytes_of(src@) <= usize::MAX,
        condition_fits(*condition, src@),
    ensures
        final(out)@ == old(out)@ + wrapped_condition(*condition, src@),
{
    let ghost start = out@;
    let mut lowered = String::new();
    push_condition(&mut lowered, condition, src);
    let cs = chars_of(lowered.as_str());
    if is_wholly_parenthesized(cs.as_slice()) {
        push_chars(out, cs.as_slice());
    } else {
        push(out, '(');
        push_chars(out, cs.as_slice());
        push(out, ')');
    }
    assert(out@ =~= start + wrapped_condition(*condition, src@));
}

} // verus!

verus! {

proof fn lemma_leading_quotes(t: Seq<char>, a: int)
    requires
        0 <= a <= t.len(),
        forall|j: int| 0 <= j < a ==> is_quote(#[trigger] t[j]),
        a == t.len() || !is_quote(t[a]),
    ensures
        without_leading_quotes(t) == t.subrange(a, t.len() as int),
    decreases a,
{
    if a == 0 {
        assert(t.subrange(0, t.len() as int) =~= t);
    } else {
        let rest = t.drop_first();
        assert forall|j: int| 0 <= j < a - 1 implies is_quote(#[trigger] rest[j]) by {
            assert(rest[j] == t[j + 1]);
        }
        lemma_leading_quotes(rest, a - 1);
        assert(rest.subrange(a - 1, rest.len() as int) =~= t.subrange(a, t.len() as int));
    }
}

proof fn lemma_trailing_quotes(t: Seq<char>, b: int)
    requires
        0 <= b <= t.len(),
        forall|j: int| b <= j < t.len() ==> is_quote(#[trigger] t[j]),
        b == 0 || !is_quote(t[b - 1]),
    ensures
        without_trailing_quotes(t) == t.subrange(0, b),
    decreases t.len() - b,
{
    if b == t.len() {
        assert(t.subrange(0, b) =~= t);
    } else {
        let rest = t.drop_last();
        assert forall|j: int| b <= j < rest.len() implies is_quote(#[trigger] rest[j]) by {
            assert(rest[j] == t[j]);
        }
        lemma_trailing_quotes(rest, b);
        assert(rest.subrange(0, b) =~= t.subrange(0, b));
    }
}

proof fn lemma_last_piece(t: Seq<char>, k: int)
    requires
        0 <= k <= t.len(),
        forall|j: int| k <= j < t.len() ==> !is_path_separator(#[trigger] t[j]),
        k == 0 || is_path_separator(t[k - 1]),
    ensures
        last_piece(t) == t.subrange(k, t.len() as int),
    decreases t.len(),
{
    if t.len() == 0 {
        assert(t.subrange(k, t.len() as int) =~= t);
    } else if k == t.len() {
        assert(t.subrange(k, t.len() as int) =~= Seq::<char>::empty());
    } else {
        let rest = t.drop_last();
        assert forall|j: int| k <= j < rest.len() implies !is_path_separator(#[trigger] rest[j]) by {
            assert(rest[j] == t[j]);
        }
        assert(!is_path_separator(t[t.len() - 1]));
        lemma_last_piece(rest, k);
        assert(rest.subrange(k, rest.len() as int).push(t.last()) =~= t.subrange(
            k,
            t.len() as int,
        ));
    }
}

fn is_quote_char(c: char) -> (quote: bool)
    ensures
        quote == is_quote(c),
{
    c == '\'' || c == '"'
}

fn is_separator_char(c: char) -> (separator: bool)
    ensures
        separator == is_path_separator(c),
{
    c == '/' || c == '\\'
}

/// `path` without the quote marks at either end.
pub fn unquoted_chars(path: &[char]) -> (stripped: Vec<char>)
    ensures
        stripped@ == without_trailing_quotes(without_leading_quotes(path@)),
{
    let n = path.len();
    let mut a: usize = 0;
    while a < n && is_quote_char(path[a])
        invariant
            a <= n,
            n == path@.len(),
            forall|j: int| 0 <= j < a ==> is_quote(#[trigger] path@[j]),
        decreases n - a,
    {
        a = a + 1;
    }
    proof {
        lemma_leading_quotes(path@, a as int);
    }
    let ghost unquoted = path@.subrange(a as int, n as int);
    let mut b: usize = n;
    while b > a && is_quote_char(path[b - 1])
        invariant
            a <= b <= n,
            n == path@.len(),
            forall|j: int| b <= j < n ==> is_quote(#[trigger] path@[j]),
        decreases b,
    {
        b = b - 1;
    }
    proof {
        assert forall|j: int| b - a <= j < unquoted.len() implies is_quote(#[trigger] unquoted[j]) by {
            assert(unquoted[j] == path@[j + a]);
        }
        if b > a {
            assert(unquoted[b - a - 1] == path@[b - 1]);
        }
        lemma_trailing_quotes(unquoted, b - a);
        assert(unquoted.subrange(0, b - a) =~= path@.subrange(a as int, b as int));
    }
    sub_chars(path, a, b)
}

/// The module an imported path names.
fn module_stem_chars(path: &[char]) -> (stem: Vec<char>)
    ensures
        stem@ == module_stem(path@),
{
    let stripped = unquoted_chars(path);
    let m = stripped.len();
    let mut k: usize = m;
    while k > 0 && !is_separator_char(stripped[k - 1])
        invariant
            k <= m,
            m == stripped@.len(),
            forall|j: int| k <= j < m ==> !is_path_separator(#[trigger] stripped@[j]),
        decreases k,
    {
        k = k - 1;
    }
    proof {
        lemma_last_piece(stripped@, k as int);
    }
    let piece = sub_chars(stripped.as_slice(), k, m);
    let p = piece.len();
    proof {
        reveal_strlit(".nme");
    }
    if p >= 4 && piece[p - 4] == '.' && piece[p - 3] == 'n' && piece[p - 2] == 'm' && piece[p - 1]
        == 'e' {
        assert(piece@.subrange(p - 4, p as int) =~= ".nme"@);
        sub_chars(piece.as_slice(), 0, p - 4)
    } else {
        proof {
            if p >= 4 && piece@.subrange(p - 4, p as int) == ".nme"@ {
                assert(piece@.subrange(p - 4, p as int)[0] == '.');
                assert(piece@.subrange(p - 4, p as int)[1] == 'n');
                assert(piece@.subrange(p - 4, p as int)[2] == 'm');
                assert(piece@.subrange(p - 4, p as int)[3] == 'e');
            }
        }
        stripped
    }
}

} // verus!

verus! {

fn push_printable(out: &mut String, value: &Value, src: &[char])
    requires
        bytes_of(src@) <= usize::MAX,
        value_fits(*value, src@),
    ensures
        final(out)@ == old(out)@ + printable_text(*value, src@),
{
    let ghost start = out@;
    match value {
        Value::Text(_) => push_value(out, value, src),
        _ => {
            out.append("str(");
            push_value(out, value, src);
            push(out, ')');
            assert(out@ =~= start + printable_text(*value, src@));
        },
    }
}

fn push_input(out: &mut String, prompt: &Option<Value>, src: &[char])
    requires
        bytes_of(src@) <= usize::MAX,
        match *prompt {
            Some(value) => value_fits(value, src@),
            None => true,
        },
    ensures
        final(out)@ == old(out)@ + input_text(*prompt, src@),
{
    let ghost start = out@;
    match prompt {
        Some(Value::Text(template)) => {
            let ends = template_ends_with_white_space(template);
            out.append("input(");
            push_template(out, template);
            if ends {
                push(out, ')');
            } else {
                out.append(" + \" \")");
            }
        },
        Some(value) => {
            out.append("input(");
            push_value(out, value, src);
            push(out, ')');
        },
        None => out.append("input()"),
    }
    assert(out@ =~= start + input_text(*prompt, src@));
}

/// The statements that say something on the screen or ask for something.
pub open spec fn is_screen_stmt(stmt: NmeStmt) -> bool {
    stmt is Say || stmt is Ask || stmt is SaySlowly || stmt is ClearScreen || stmt is DrawLine
        || stmt is SayInBox || stmt is SayInMiddle
}

fn push_screen_stmt(out: &mut String, stmt: &NmeStmt, src: &[char])
    requires
        bytes_of(src@) <= usize::MAX,
        is_screen_stmt(*stmt),
        stmt_fits(*stmt, src@),
    ensures
        final(out)@ == old(out)@ + stmt_text(*stmt, src@),
{
    let ghost start = out@;
    match stmt {
        NmeStmt::Say { value } => {
            out.append("print(");
            push_value(out, value, src);
            push(out, ')');
        },
        NmeStmt::Ask { target, prompt, kind } => {
            out.append(target.as_str());
            match kind {
                InputKind::Text => {
                    out.append(" = ");
                    push_input(out, prompt, src);
                },
                InputKind::Number => {
                    out.append(" = int(");
                    push_input(out, prompt, src);
                    push(out, ')');
                },
            }
        },
        NmeStmt::SaySlowly { value, seconds } => {
            out.append("[print(_ch, end=\"\", flush=True) or __import__(\"time\").sleep(");
            push_code(out, seconds, src);
            out.append(") for _ch in ");
            push_printable(out, value, src);
            out.append("]; print()");
        },
        NmeStmt::ClearScreen => out.append("print(\"\\033[2J\\033[3J\\033[H\", end=\"\")"),
        NmeStmt::DrawLine => {
            out.append("print(\"─\" * ");
            push_decimal(out, SCREEN_COLUMNS);
            push(out, ')');
        },
        NmeStmt::SayInBox { value } => {
            out.append(
                "print((lambda _t: (lambda _w: \"┌\" + \"─\" * (_w + 2) + \"┐\\n│ \" + _t + \" │\\n└\" + \"─\" * (_w + 2) + \"┘\")(",
            );
            out.append(EAST_ASIAN_WIDTH_SUM);
            out.append("))(");
            push_printable(out, value, src);
            out.append("))");
        },
        NmeStmt::SayInMiddle { value } => {
            out.append("print((lambda _t: \" \" * max(0, (");
            push_decimal(out, SCREEN_COLUMNS);
            out.append(" - ");
            out.append(EAST_ASIAN_WIDTH_SUM);
            out.append(") // 2) + _t)(");
            push_printable(out, value, src);
            out.append("))");
        },
        _ => {},
    }
    assert(out@ =~= start + stmt_text(*stmt, src@));
}

/// The statements that give a name something, or do something with one.
pub open spec fn is_name_stmt(stmt: NmeStmt) -> bool {
    stmt is SetValue || stmt is Update || stmt is Wait || stmt is StartTimer || stmt is Cooldown
        || stmt is WaitForCooldown || stmt is Append || stmt is Remove || stmt is RecordPut
        || stmt is RecordRemove || stmt is Arrange || stmt is RunJob || stmt is FileRead
        || stmt is FileWrite
}

fn push_update_op(out: &mut String, operation: UpdateOp)
    ensures
        final(out)@ == old(out)@ + update_op_text(operation),
{
    match operation {
        UpdateOp::Add => out.append("+"),
        UpdateOp::Subtract => out.append("-"),
        UpdateOp::Multiply => out.append("*"),
        UpdateOp::Divide => out.append("/"),
    }
}

fn push_name_stmt(out: &mut String, stmt: &NmeStmt, src: &[char])
    requires
        bytes_of(src@) <= usize::MAX,
        is_name_stmt(*stmt),
        stmt_fits(*stmt, src@),
    ensures
        final(out)@ == old(out)@ + stmt_text(*stmt, src@),
{
    let ghost start = out@;
    match stmt {
        NmeStmt::SetValue { target, value } => {
            out.append(target.as_str());
            out.append(" = ");
            push_value(out, value, src);
        },
        NmeStmt::Update { target, amount, operation } => {
            let written = code_chars(amount, src);
            out.append(target.as_str());
            out.append(" = ");
            out.append(target.as_str());
            push(out, ' ');
            push_update_op(out, *operation);
            push(out, ' ');
            push_operand(out, written.as_slice());
        },
        NmeStmt::Wait { seconds } => {
            out.append("__import__(\"time\").sleep(");
            push_code(out, seconds, src);
            push(out, ')');
        },
        NmeStmt::StartTimer => {
            out.append(TIMER_NAME);
            out.append(" = __import__(\"time\").time()");
        },
        NmeStmt::Cooldown { target, seconds } => {
            out.append(COOLDOWN_PREFIX);
            out.append(target.as_str());
            out.append(" = __import__(\"time\").time() + ");
            push_code(out, seconds, src);
        },
        NmeStmt::WaitForCooldown { target } => {
            out.append("__import__(\"time\").sleep(max(0, ");
            out.append(COOLDOWN_PREFIX);
            out.append(target.as_str());
            out.append(" - __import__(\"time\").time()))");
        },
        NmeStmt::Append { target, value } => {
            out.append(target.as_str());
            out.append(".append(");
            push_value(out, value, src);
            push(out, ')');
        },
        NmeStmt::Remove { target, value } => {
            out.append(target.as_str());
            out.append(".remove(");
            push_value(out, value, src);
            push(out, ')');
        },
        NmeStmt::RecordPut { target, key, value } => {
            out.append(target.as_str());
            push(out, '[');
            push_value(out, key, src);
            out.append("] = ");
            push_value(out, value, src);
        },
        NmeStmt::RecordRemove { target, key } => {
            out.append("del ");
            out.append(target.as_str());
            push(out, '[');
            push_value(out, key, src);
            push(out, ']');
        },
        NmeStmt::Arrange { target, order } => match order {
            ListOrder::Sorted => {
                out.append(target.as_str());
                out.append(".sort()");
            },
            ListOrder::Reversed => {
                out.append(target.as_str());
                out.append(".reverse()");
            },
            ListOrder::Shuffled => {
                out.append("__import__(\"random\").shuffle(");
                out.append(target.as_str());
                push(out, ')');
            },
        },
        NmeStmt::RunJob { name, arguments } => {
            out.append(name.as_str());
            push(out, '(');
            push_values(out, arguments, src);
            push(out, ')');
        },
        NmeStmt::FileRead { target, path } => {
            out.append(target.as_str());
            out.append(" = __import__(\"pathlib\").Path(");
            push_code(out, path, src);
            out.append(").read_text()");
        },
        NmeStmt::FileWrite { path, value } => {
            out.append("__import__(\"pathlib\").Path(");
            push_code(out, path, src);
            out.append(").write_text(");
            push_value(out, value, src);
            push(out, ')');
        },
        _ => {},
    }
    assert(out@ =~= start + stmt_text(*stmt, src@));
}

fn push_module_stmt(out: &mut String, stmt: &NmeStmt, src: &[char])
    requires
        bytes_of(src@) <= usize::MAX,
        stmt is UseModule || stmt is ModuleImport,
        stmt_fits(*stmt, src@),
    ensures
        final(out)@ == old(out)@ + stmt_text(*stmt, src@),
{
    let ghost start = out@;
    match stmt {
        NmeStmt::UseModule { module, .. } => {
            match module {
                BundledModuleId::Random => out.append(BILINGUAL_RANDOM_TOOLS_PREFIX),
                BundledModuleId::File => out.append(BILINGUAL_FILE_TOOLS_PREFIX),
                BundledModuleId::ZeroKnowledge => out.append(BILINGUAL_ZERO_KNOWLEDGE_TOOLS_PREFIX),
                BundledModuleId::List => out.append(BILINGUAL_LIST_TOOLS_PREFIX),
                BundledModuleId::Text => out.append(BILINGUAL_TEXT_TOOLS_PREFIX),
                BundledModuleId::Math => out.append(BILINGUAL_MATH_TOOLS_PREFIX),
                BundledModuleId::Date => out.append(BILINGUAL_DATE_TOOLS_PREFIX),
            }
            push(out, '"');
            out.append(module.version());
            push(out, '"');
        },
        NmeStmt::ModuleImport { path, names } => {
            let written = code_chars(path, src);
            let stem = module_stem_chars(written.as_slice());
            out.append("from ");
            push_chars(out, stem.as_slice());
            out.append(" import ");
            push_names(out, names);
        },
        _ => {},
    }
    assert(out@ =~= start + stmt_text(*stmt, src@));
}

/// The statements that open a block, and the ones that leave or close one.
pub open spec fn is_block_stmt(stmt: NmeStmt) -> bool {
    stmt is Times || stmt is ForEach || stmt is Forever || stmt is Chance || stmt is Story
        || stmt is Job || stmt is When || stmt is While || stmt is ElseIf || stmt is Else
        || stmt is Break || stmt is Continue || stmt is End
}

/// Appends what was written after a header's colon.
fn push_inline(out: &mut String, inline: &Option<InlineStmt>, src: &[char])
    requires
        bytes_of(src@) <= usize::MAX,
        inline_fits(*inline, src@),
    ensures
        final(out)@ == old(out)@ + inline_text(*inline, src@),
    decreases *inline, 0nat,
{
    let ghost start = out@;
    match inline {
        None => {},
        Some(InlineStmt::Nme(inner)) => {
            push(out, ' ');
            push_stmt(out, inner, src);
        },
        Some(InlineStmt::Python(span)) => {
            push(out, ' ');
            push_byte_slice(out, src, span.start, span.end);
        },
    }
    assert(out@ =~= start + inline_text(*inline, src@));
}

#[verifier::rlimit(40)]
fn push_block_stmt(out: &mut String, stmt: &NmeStmt, src: &[char])
    requires
        bytes_of(src@) <= usize::MAX,
        is_block_stmt(*stmt),
        stmt_fits(*stmt, src@),
    ensures
        final(out)@ == old(out)@ + stmt_text(*stmt, src@),
    decreases *stmt, 0nat,
{
    let ghost start = out@;
    match stmt {
        NmeStmt::Times { count, inline } => {
            out.append("for _ in range(");
            push_code(out, count, src);
            out.append("):");
            push_inline(out, inline, src);
        },
        NmeStmt::ForEach { name, items, position, inline } => {
            out.append("for ");
            match position {
                Some(position) => {
                    out.append(position.as_str());
                    out.append(", ");
                    out.append(name.as_str());
                    out.append(" in enumerate(");
                    push_code(out, items, src);
                    out.append(", 1):");
                },
                None => {
                    out.append(name.as_str());
                    out.append(" in ");
                    push_code(out, items, src);
                    push(out, ':');
                },
            }
            push_inline(out, inline, src);
        },
        NmeStmt::Forever { inline } => {
            out.append("while True:");
            push_inline(out, inline, src);
        },
        NmeStmt::Chance { permille, inline } => {
            out.append("if ");
            push_chance(out, *permille);
            push(out, ':');
            push_inline(out, inline, src);
        },
        NmeStmt::Story { .. } => out.append("if True:"),
        NmeStmt::Job { name, parameters } => {
            out.append("def ");
            out.append(name.as_str());
            push(out, '(');
            push_names(out, parameters);
            out.append("):");
        },
        NmeStmt::When { condition, inline } => {
            out.append("if ");
            push_wrapped_condition(out, condition, src);
            push(out, ':');
            push_inline(out, inline, src);
        },
        NmeStmt::While { condition, inline } => {
            out.append("while ");
            push_wrapped_condition(out, condition, src);
            push(out, ':');
            push_inline(out, inline, src);
        },
        NmeStmt::ElseIf { condition, inline } => {
            out.append("elif ");
            push_wrapped_condition(out, condition, src);
            push(out, ':');
            push_inline(out, inline, src);
        },
        NmeStmt::Else { inline } => {
            out.append("else:");
            push_inline(out, inline, src);
        },
        NmeStmt::Break => out.append("break"),
        NmeStmt::Continue => out.append("continue"),
        NmeStmt::End => out.append("# end"),
        _ => {},
    }
    assert(out@ =~= start + stmt_text(*stmt, src@));
}

/// Appends the one line of Python a statement becomes.
fn push_stmt(out: &mut String, stmt: &NmeStmt, src: &[char])
    requires
        bytes_of(src@) <= usize::MAX,
        stmt_fits(*stmt, src@),
    ensures
        final(out)@ == old(out)@ + stmt_text(*stmt, src@),
    decreases *stmt, 1nat,
{
    if is_screen(stmt) {
        push_screen_stmt(out, stmt, src);
    } else if is_module(stmt) {
        push_module_stmt(out, stmt, src);
    } else if is_block(stmt) {
        push_block_stmt(out, stmt, src);
    } else {
        push_name_stmt(out, stmt, src);
    }
}

fn is_screen(stmt: &NmeStmt) -> (screen: bool)
    ensures
        screen == is_screen_stmt(*stmt),
{
    match stmt {
        NmeStmt::Say { .. } | NmeStmt::Ask { .. } | NmeStmt::SaySlowly { .. }
        | NmeStmt::ClearScreen | NmeStmt::DrawLine | NmeStmt::SayInBox { .. }
        | NmeStmt::SayInMiddle { .. } => true,
        _ => false,
    }
}

fn is_module(stmt: &NmeStmt) -> (module: bool)
    ensures
        module == (stmt is UseModule || stmt is ModuleImport),
{
    match stmt {
        NmeStmt::UseModule { .. } | NmeStmt::ModuleImport { .. } => true,
        _ => false,
    }
}

fn is_block(stmt: &NmeStmt) -> (block: bool)
    ensures
        block == is_block_stmt(*stmt),
{
    match stmt {
        NmeStmt::Times { .. } | NmeStmt::ForEach { .. } | NmeStmt::Forever { .. }
        | NmeStmt::Chance { .. } | NmeStmt::Story { .. } | NmeStmt::Job { .. }
        | NmeStmt::When { .. } | NmeStmt::While { .. } | NmeStmt::ElseIf { .. }
        | NmeStmt::Else { .. } | NmeStmt::Break | NmeStmt::Continue | NmeStmt::End => true,
        _ => false,
    }
}

} // verus!

verus! {

// ------------------------------------------------------------- the API

/// `level` levels of four-space indentation.
pub open spec fn indent(level: nat) -> Seq<char> {
    Seq::new(4 * level, |_i: int| ' ')
}

/// Lowers one NME statement to Python text (without its own indent —
/// the span being replaced never included it, so indentation is preserved
/// automatically).
pub fn lower_stmt(stmt: &NmeStmt, source: &str) -> (python: String)
    requires
        stmt_fits(*stmt, source@),
    ensures
        python@ == stmt_text(*stmt, source@),
{
    let src = chars_of(source);
    let mut out = String::new();
    push_stmt(&mut out, stmt, src.as_slice());
    out
}

/// Lowers each parsed NME statement to one edit, in source order: the
/// statement's span is replaced by its indentation and its one line of
/// Python.
pub fn lower_lines(lines: &[NmeLine], source: &str) -> (edits: Vec<Edit>)
    requires
        forall|i: int| 0 <= i < lines@.len() ==> stmt_fits(#[trigger] lines@[i].stmt, source@),
        forall|i: int| 0 <= i < lines@.len() ==> 4 * #[trigger] lines@[i].virtual_indent <= usize::MAX,
    ensures
        edits@.len() == lines@.len(),
        forall|i: int|
            0 <= i < lines@.len() ==> (#[trigger] edits@[i]).span == lines@[i].span
                && edits@[i].replacement@ == indent(lines@[i].virtual_indent as nat) + stmt_text(
                lines@[i].stmt,
                source@,
            ),
{
    let src = chars_of(source);
    let mut edits: Vec<Edit> = Vec::new();
    let mut i: usize = 0;
    while i < lines.len()
        invariant
            0 <= i <= lines@.len(),
            src@ == source@,
            bytes_of(src@) <= usize::MAX,
            forall|j: int| 0 <= j < lines@.len() ==> stmt_fits(#[trigger] lines@[j].stmt, source@),
            forall|j: int| 0 <= j < lines@.len() ==> 4 * #[trigger] lines@[j].virtual_indent <= usize::MAX,
            edits@.len() == i,
            forall|j: int|
                0 <= j < i ==> (#[trigger] edits@[j]).span == lines@[j].span
                    && edits@[j].replacement@ == indent(lines@[j].virtual_indent as nat)
                    + stmt_text(lines@[j].stmt, source@),
        decreases lines@.len() - i,
    {
        let line = &lines[i];
        let mut replacement = String::new();
        push_repeated(&mut replacement, ' ', 4 * line.virtual_indent);
        push_stmt(&mut replacement, &line.stmt, src.as_slice());
        assert(Seq::new((4 * line.virtual_indent) as nat, |_j: int| ' ') =~= indent(
            line.virtual_indent as nat,
        ));
        edits.push(Edit { span: line.span, replacement });
        i = i + 1;
    }
    edits
}

/// What an edit says: the span it replaces and the text it puts there.
pub type EditView = (Span, Seq<char>);

/// The edits as the spans they replace and the text they put there.
pub open spec fn edit_views(edits: Seq<Edit>) -> Seq<EditView> {
    Seq::new(edits.len(), |i: int| (edits[i].span, edits[i].replacement@))
}

/// `sorted` with `e` put after every edit that starts no later than it.
pub open spec fn insert_by_start(sorted: Seq<EditView>, e: EditView) -> Seq<EditView>
    decreases sorted.len(),
{
    if sorted.len() == 0 {
        seq![e]
    } else if sorted.last().0.start <= e.0.start {
        sorted.push(e)
    } else {
        insert_by_start(sorted.drop_last(), e).push(sorted.last())
    }
}

/// The edits sorted by where they start; edits that start together keep
/// the order they were given in.
pub open spec fn sorted_by_start(edits: Seq<EditView>) -> Seq<EditView>
    decreases edits.len(),
{
    if edits.len() == 0 {
        Seq::empty()
    } else {
        insert_by_start(sorted_by_start(edits.drop_last()), edits.last())
    }
}

/// Each edit ends no later than the next one starts.
pub open spec fn in_order(edits: Seq<EditView>) -> bool {
    forall|k: int| 0 <= k < edits.len() - 1 ==> #[trigger] edits[k].0.end <= edits[k + 1].0.start
}

/// `s` from byte `cursor` on, with the edits applied in order.
pub open spec fn splice(s: Seq<char>, edits: Seq<EditView>, cursor: int) -> Seq<char>
    decreases edits.len(),
{
    if edits.len() == 0 {
        byte_slice(s, cursor, bytes_of(s) as int)
    } else {
        byte_slice(s, cursor, edits[0].0.start as int) + edits[0].1 + splice(
            s,
            edits.drop_first(),
            edits[0].0.end as int,
        )
    }
}

/// The edits an order of indices picks out.
pub open spec fn pick(edits: Seq<EditView>, order: Seq<usize>) -> Seq<EditView> {
    Seq::new(order.len(), |k: int| edits[order[k] as int])
}

proof fn lemma_insert_at(s: Seq<EditView>, e: EditView, pos: int)
    requires
        0 <= pos <= s.len(),
        forall|k: int| pos <= k < s.len() ==> (#[trigger] s[k]).0.start > e.0.start,
        pos == 0 || s[pos - 1].0.start <= e.0.start,
    ensures
        insert_by_start(s, e) == s.insert(pos, e),
    decreases s.len(),
{
    if s.len() == 0 {
        assert(s.insert(pos, e) =~= seq![e]);
    } else if pos == s.len() {
        assert(s.insert(pos, e) =~= s.push(e));
    } else {
        let rest = s.drop_last();
        assert(s[s.len() - 1].0.start > e.0.start);
        assert forall|k: int| pos <= k < rest.len() implies (#[trigger] rest[k]).0.start
            > e.0.start by {
            assert(rest[k] == s[k]);
        }
        if pos > 0 {
            assert(rest[pos - 1] == s[pos - 1]);
        }
        lemma_insert_at(rest, e, pos);
        assert(rest.insert(pos, e).push(s.last()) =~= s.insert(pos, e));
    }
}

/// The order in which the edits are applied: by where they start, stably.
fn sorted_order(edits: &[Edit]) -> (order: Vec<usize>)
    ensures
        order@.len() == edits@.len(),
        forall|k: int| 0 <= k < order@.len() ==> (#[trigger] order@[k]) < edits@.len(),
        pick(edit_views(edits@), order@) == sorted_by_start(edit_views(edits@)),
{
    let ghost all = edit_views(edits@);
    let mut order: Vec<usize> = Vec::new();
    let mut i: usize = 0;
    while i < edits.len()
        invariant
            0 <= i <= edits@.len(),
            all == edit_views(edits@),
            order@.len() == i,
            forall|k: int| 0 <= k < order@.len() ==> (#[trigger] order@[k]) < i,
            pick(all, order@) == sorted_by_start(all.take(i as int)),
        decreases edits@.len() - i,
    {
        let start = edits[i].span.start;
        let mut pos: usize = order.len();
        while pos > 0 && edits[order[pos - 1]].span.start > start
            invariant
                0 <= pos <= order@.len(),
                i < edits@.len(),
                all == edit_views(edits@),
                start == all[i as int].0.start,
                forall|k: int| 0 <= k < order@.len() ==> (#[trigger] order@[k]) < i,
                forall|k: int|
                    pos <= k < order@.len() ==> (#[trigger] pick(all, order@)[k]).0.start > start,
            decreases pos,
        {
            pos = pos - 1;
        }
        let ghost before = pick(all, order@);
        proof {
            lemma_insert_at(before, all[i as int], pos as int);
            assert(all.take(i + 1).drop_last() =~= all.take(i as int));
            assert(all.take(i + 1).last() == all[i as int]);
        }
        order.insert(pos, i);
        assert(pick(all, order@) =~= before.insert(pos as int, all[i as int]));
        i = i + 1;
    }
    assert(all.take(all.len() as int) =~= all);
    order
}

/// Applies edits to `source`, returning the final Python program.
///
/// The edits are applied in the order of where they start, and in that
/// order each must end before the next begins; the parser guarantees this
/// because it produces at most one edit per logical line. Everything outside
/// the edited spans is kept byte for byte.
#[verifier::rlimit(50)]
pub fn apply_edits(source: &str, edits: &[Edit]) -> (program: String)
    requires
        forall|i: int| 0 <= i < edits@.len() ==> span_fits(#[trigger] edits@[i].span, source@),
        in_order(sorted_by_start(edit_views(edits@))),
    ensures
        program@ == splice(source@, sorted_by_start(edit_views(edits@)), 0),
{
    let src = chars_of(source);
    let order = sorted_order(edits);
    let ghost all = edit_views(edits@);
    let ghost sorted = sorted_by_start(all);
    let mut out = String::new();
    let mut cursor: usize = 0;
    let mut k: usize = 0;
    assert(sorted.skip(0) =~= sorted);
    assert(out@ + splice(source@, sorted, 0) =~= splice(source@, sorted, 0));
    while k < order.len()
        invariant
            0 <= k <= order@.len(),
            order@.len() == edits@.len(),
            src@ == source@,
            bytes_of(src@) <= usize::MAX,
            all == edit_views(edits@),
            forall|j: int| 0 <= j < order@.len() ==> (#[trigger] order@[j]) < edits@.len(),
            forall|i: int| 0 <= i < edits@.len() ==> span_fits(#[trigger] edits@[i].span, source@),
            sorted == pick(all, order@),
            in_order(sorted),
            k == 0 ==> cursor == 0,
            k > 0 ==> cursor == sorted[k - 1].0.end,
            out@ + splice(source@, sorted.skip(k as int), cursor as int) == splice(
                source@,
                sorted,
                0,
            ),
        decreases order@.len() - k,
    {
        let edit = &edits[order[k]];
        let ghost view = (edit.span, edit.replacement@);
        proof {
            assert(sorted[k as int] == all[order@[k as int] as int]);
            assert(sorted[k as int] == view);
            assert(span_fits(edit.span, source@));
            if k > 0 {
                assert(sorted[k - 1].0.end <= sorted[(k - 1) + 1].0.start);
            }
            let rest = sorted.skip(k as int);
            assert(rest.drop_first() =~= sorted.skip(k + 1));
            assert(rest[0] == view);
            assert(splice(source@, rest, cursor as int) == byte_slice(
                source@,
                cursor as int,
                edit.span.start as int,
            ) + edit.replacement@ + splice(source@, sorted.skip(k + 1), edit.span.end as int));
        }
        let ghost before = out@;
        push_byte_slice(&mut out, src.as_slice(), cursor, edit.span.start);
        out.append(edit.replacement.as_str());
        assert(out@ + splice(source@, sorted.skip(k + 1), edit.span.end as int) =~= before
            + splice(source@, sorted.skip(k as int), cursor as int));
        cursor = edit.span.end;
        k = k + 1;
    }
    proof {
        if k > 0 {
            assert(sorted[k - 1] == all[order@[k - 1] as int]);
            assert(span_fits(edits@[order@[k - 1] as int].span, source@));
        }
        assert(sorted.skip(k as int) =~= Seq::<EditView>::empty());
    }
    let end = source.len();
    push_byte_slice(&mut out, src.as_slice(), cursor, end);
    out
}

} // verus!


verus! {

// ------------------------------------------------------------ one line

/// No character of `t` is a line break.
pub open spec fn unbroken(t: Seq<char>) -> bool {
    forall|i: int| 0 <= i < t.len() ==> t[i] != '\n'
}

pub broadcast proof fn lemma_unbroken_concat(a: Seq<char>, b: Seq<char>)
    ensures
        #[trigger] unbroken(a + b) == (unbroken(a) && unbroken(b)),
{
    if unbroken(a + b) {
        assert forall|i: int| 0 <= i < a.len() implies a[i] != '\n' by {
            assert(a[i] == (a + b)[i]);
        }
        assert forall|i: int| 0 <= i < b.len() implies b[i] != '\n' by {
            assert(b[i] == (a + b)[i + a.len()]);
        }
    }
}

/// The words the lowering writes hold no line break.
proof fn lemma_words_unbroken()
    ensures
        unbroken("str("@),
        unbroken(")"@),
        unbroken(" + "@),
        unbroken("True"@),
        unbroken("False"@),
        unbroken("None"@),
        unbroken("len("@),
        unbroken("sum("@),
        unbroken("max("@),
        unbroken("min("@),
        unbroken(").upper()"@),
        unbroken(").lower()"@),
        unbroken("__import__(\"random\").randrange("@),
        unbroken(") < "@),
        unbroken(", "@),
        unbroken("0x"@),
        unbroken("(("@),
        unbroken(" - 1) // 2)"@),
        unbroken("(1 << 256)"@),
        unbroken(" < "@),
        unbroken(" and pow("@),
        unbroken(") == 1"@),
        unbroken(" and 0 <= "@),
        unbroken(" == (pow(2, "@),
        unbroken(") * pow("@),
        unbroken(")) % "@),
        unbroken("__import__(\"secrets\").randbelow(("@),
        unbroken(") - 1) + 1"@),
        unbroken("pow(2, "@),
        unbroken("zk_nizk_challenge("@),
        unbroken("zk_nizk_prove("@),
        unbroken("zk_nizk_verify("@),
        unbroken("__import__(\"secrets\").randbelow("@),
        unbroken("((lambda 후보: 후보 + (1 if 후보 >= ("@),
        unbroken(") else 0))(__import__(\"secrets\").randbelow("@),
        unbroken(" - 1)))"@),
        unbroken("("@),
        unbroken(" - "@),
        unbroken(" * "@),
        unbroken(") % "@),
        unbroken("(1 < "@),
        unbroken(" and 1 <= "@),
        unbroken(" and "@),
        unbroken("(pow(2, "@),
        unbroken("[0]"@),
        unbroken("[-1]"@),
        unbroken("[("@),
        unbroken(") - 1]"@),
        unbroken("__import__(\"random\").randint("@),
        unbroken("__import__(\"random\").choice(("@),
        unbroken(",))"@),
        unbroken("{}"@),
        unbroken(".join(map(str, "@),
        unbroken("))"@),
        unbroken(").splitlines()"@),
        unbroken(").split("@),
        unbroken(") * "@),
        unbroken(" % "@),
        unbroken("=="@),
        unbroken(">"@),
        unbroken("<"@),
        unbroken("<="@),
        unbroken(">="@),
        unbroken("in"@),
        unbroken(" not in "@),
        unbroken(" in "@),
        unbroken(" != "@),
        unbroken("not ("@),
        unbroken(" or "@),
        unbroken("input("@),
        unbroken(" + \" \")"@),
        unbroken("input()"@),
        unbroken("+"@),
        unbroken("-"@),
        unbroken("*"@),
        unbroken("/"@),
        unbroken("print("@),
        unbroken(" = "@),
        unbroken(" = int("@),
        unbroken("for _ in range("@),
        unbroken("):"@),
        unbroken("for "@),
        unbroken(" in enumerate("@),
        unbroken(", 1):"@),
        unbroken("__import__(\"time\").sleep("@),
        unbroken("[print(_ch, end=\"\", flush=True) or __import__(\"time\").sleep("@),
        unbroken(") for _ch in "@),
        unbroken("]; print()"@),
        unbroken("print(\"\\033[2J\\033[3J\\033[H\", end=\"\")"@),
        unbroken("print(\"─\" * "@),
        unbroken("print((lambda _t: (lambda _w: \"┌\" + \"─\" * (_w + 2) + \"┐\\n│ \" + _t + \" │\\n└\" + \"─\" * (_w + 2) + \"┘\")("@),
        unbroken("))("@),
        unbroken("print((lambda _t: \" \" * max(0, ("@),
        unbroken(") // 2) + _t)("@),
        unbroken(" = __import__(\"time\").time()"@),
        unbroken(" = __import__(\"time\").time() + "@),
        unbroken("__import__(\"time\").sleep(max(0, "@),
        unbroken(" - __import__(\"time\").time()))"@),
        unbroken(".append("@),
        unbroken(".remove("@),
        unbroken("] = "@),
        unbroken("del "@),
        unbroken(".sort()"@),
        unbroken(".reverse()"@),
        unbroken("__import__(\"random\").shuffle("@),
        unbroken("while True:"@),
        unbroken("if "@),
        unbroken("if True:"@),
        unbroken("def "@),
        unbroken("while "@),
        unbroken("elif "@),
        unbroken("else:"@),
        unbroken("break"@),
        unbroken("continue"@),
        unbroken("# end"@),
        unbroken(" = __import__(\"pathlib\").Path("@),
        unbroken(").read_text()"@),
        unbroken("__import__(\"pathlib\").Path("@),
        unbroken(").write_text("@),
        unbroken("from "@),
        unbroken(" import "@),
{
    reveal_strlit("str(");
    reveal_strlit(")");
    reveal_strlit(" + ");
    reveal_strlit("True");
    reveal_strlit("False");
    reveal_strlit("None");
    reveal_strlit("len(");
    reveal_strlit("sum(");
    reveal_strlit("max(");
    reveal_strlit("min(");
    reveal_strlit(").upper()");
    reveal_strlit(").lower()");
    reveal_strlit("__import__(\"random\").randrange(");
    reveal_strlit(") < ");
    reveal_strlit(", ");
    reveal_strlit("0x");
    reveal_strlit("((");
    reveal_strlit(" - 1) // 2)");
    reveal_strlit("(1 << 256)");
    reveal_strlit(" < ");
    reveal_strlit(" and pow(");
    reveal_strlit(") == 1");
    reveal_strlit(" and 0 <= ");
    reveal_strlit(" == (pow(2, ");
    reveal_strlit(") * pow(");
    reveal_strlit(")) % ");
    reveal_strlit("__import__(\"secrets\").randbelow((");
    reveal_strlit(") - 1) + 1");
    reveal_strlit("pow(2, ");
    reveal_strlit("zk_nizk_challenge(");
    reveal_strlit("zk_nizk_prove(");
    reveal_strlit("zk_nizk_verify(");
    reveal_strlit("__import__(\"secrets\").randbelow(");
    reveal_strlit("((lambda 후보: 후보 + (1 if 후보 >= (");
    reveal_strlit(") else 0))(__import__(\"secrets\").randbelow(");
    reveal_strlit(" - 1)))");
    reveal_strlit("(");
    reveal_strlit(" - ");
    reveal_strlit(" * ");
    reveal_strlit(") % ");
    reveal_strlit("(1 < ");
    reveal_strlit(" and 1 <= ");
    reveal_strlit(" and ");
    reveal_strlit("(pow(2, ");
    reveal_strlit("[0]");
    reveal_strlit("[-1]");
    reveal_strlit("[(");
    reveal_strlit(") - 1]");
    reveal_strlit("__import__(\"random\").randint(");
    reveal_strlit("__import__(\"random\").choice((");
    reveal_strlit(",))");
    reveal_strlit("{}");
    reveal_strlit(".join(map(str, ");
    reveal_strlit("))");
    reveal_strlit(").splitlines()");
    reveal_strlit(").split(");
    reveal_strlit(") * ");
    reveal_strlit(" % ");
    reveal_strlit("==");
    reveal_strlit(">");
    reveal_strlit("<");
    reveal_strlit("<=");
    reveal_strlit(">=");
    reveal_strlit("in");
    reveal_strlit(" not in ");
    reveal_strlit(" in ");
    reveal_strlit(" != ");
    reveal_strlit("not (");
    reveal_strlit(" or ");
    reveal_strlit("input(");
    reveal_strlit(" + \" \")");
    reveal_strlit("input()");
    reveal_strlit("+");
    reveal_strlit("-");
    reveal_strlit("*");
    reveal_strlit("/");
    reveal_strlit("print(");
    reveal_strlit(" = ");
    reveal_strlit(" = int(");
    reveal_strlit("for _ in range(");
    reveal_strlit("):");
    reveal_strlit("for ");
    reveal_strlit(" in enumerate(");
    reveal_strlit(", 1):");
    reveal_strlit("__import__(\"time\").sleep(");
    reveal_strlit("[print(_ch, end=\"\", flush=True) or __import__(\"time\").sleep(");
    reveal_strlit(") for _ch in ");
    reveal_strlit("]; print()");
    reveal_strlit("print(\"\\033[2J\\033[3J\\033[H\", end=\"\")");
    reveal_strlit("print(\"─\" * ");
    reveal_strlit("print((lambda _t: (lambda _w: \"┌\" + \"─\" * (_w + 2) + \"┐\\n│ \" + _t + \" │\\n└\" + \"─\" * (_w + 2) + \"┘\")(");
    reveal_strlit("))(");
    reveal_strlit("print((lambda _t: \" \" * max(0, (");
    reveal_strlit(") // 2) + _t)(");
    reveal_strlit(" = __import__(\"time\").time()");
    reveal_strlit(" = __import__(\"time\").time() + ");
    reveal_strlit("__import__(\"time\").sleep(max(0, ");
    reveal_strlit(" - __import__(\"time\").time()))");
    reveal_strlit(".append(");
    reveal_strlit(".remove(");
    reveal_strlit("] = ");
    reveal_strlit("del ");
    reveal_strlit(".sort()");
    reveal_strlit(".reverse()");
    reveal_strlit("__import__(\"random\").shuffle(");
    reveal_strlit("while True:");
    reveal_strlit("if ");
    reveal_strlit("if True:");
    reveal_strlit("def ");
    reveal_strlit("while ");
    reveal_strlit("elif ");
    reveal_strlit("else:");
    reveal_strlit("break");
    reveal_strlit("continue");
    reveal_strlit("# end");
    reveal_strlit(" = __import__(\"pathlib\").Path(");
    reveal_strlit(").read_text()");
    reveal_strlit("__import__(\"pathlib\").Path(");
    reveal_strlit(").write_text(");
    reveal_strlit("from ");
    reveal_strlit(" import ");
}

/// The names, prefixes and versions the lowering writes hold no line break.
proof fn lemma_constants_unbroken()
    ensures
        unbroken(EAST_ASIAN_WIDTH_SUM@),
        unbroken(SCHNORR_GROUP15_PRIME@),
        unbroken(BILINGUAL_RANDOM_TOOLS_PREFIX@),
        unbroken(BILINGUAL_FILE_TOOLS_PREFIX@),
        unbroken(BILINGUAL_ZERO_KNOWLEDGE_TOOLS_PREFIX@),
        unbroken(BILINGUAL_LIST_TOOLS_PREFIX@),
        unbroken(BILINGUAL_TEXT_TOOLS_PREFIX@),
        unbroken(BILINGUAL_MATH_TOOLS_PREFIX@),
        unbroken(BILINGUAL_DATE_TOOLS_PREFIX@),
        unbroken(TIMER_NAME@),
        unbroken(COOLDOWN_PREFIX@),
        unbroken(ELAPSED_PYTHON@),
        unbroken(RANDOM_MODULE_VERSION@),
        unbroken(FILE_MODULE_VERSION@),
        unbroken(ZERO_KNOWLEDGE_MODULE_VERSION@),
        unbroken(LIST_MODULE_VERSION@),
        unbroken(TEXT_MODULE_VERSION@),
        unbroken(MATH_MODULE_VERSION@),
        unbroken(DATE_MODULE_VERSION@),
{
    reveal_strlit("sum(2 if __import__(\"unicodedata\").east_asian_width(_c) in \"WF\" else 1 for _c in _t)");
    reveal_strlit("FFFFFFFFFFFFFFFFC90FDAA22168C234C4C6628B80DC1CD129024E088A67CC74020BBEA63B139B22514A08798E3404DDEF9519B3CD3A431B302B0A6DF25F14374FE1356D6D51C245E485B576625E7EC6F44C42E9A637ED6B0BFF5CB6F406B7EDEE386BFB5A899FA5AE9F24117C4B1FE649286651ECE45B3DC2007CB8A163BF0598DA48361C55D39A69163FA8FD24CF5F83655D23DCA3AD961C62F356208552BB9ED529077096966D670C354E4ABC9804F1746C08CA18217C32905E462E36CE3BE39E772C180E86039B2783A2EC07A28FB5C55DF06F4C52C9DE2BCBF6955817183995497CEA956AE515D2261898FA051015728E5A8AAAC42DAD33170D04507A33A85521ABDF1CBA64ECFB850458DBEF0A8AEA71575D060C7DB3970F85A6E1E4C7ABF5AE8CDB0933D71E8C94E04A25619DCEE3D2261AD2EE6BF12FFA06D98A0864D87602733EC86A64521F2B18177B200CBBE117577A615D6C770988C0BAD946E208E24FA074E5AB3143DB5BFCE0FD108E4B82D120A93AD2CAFFFFFFFFFFFFFFFF");
    reveal_strlit("import random as 랜덤; random = 랜덤; random_number = 랜덤.randint; random_pick = 랜덤.choice; shuffle = 랜덤.shuffle; 랜덤정수 = 랜덤.randint; 랜덤선택 = 랜덤.choice; 섞기 = 랜덤.shuffle; random_version = 랜덤버전 = ");
    reveal_strlit("import pathlib as 파일경로; file_read = lambda 경로: 파일경로.Path(경로).read_text(); file_write = lambda 경로, 내용: 파일경로.Path(경로).write_text(내용); json_load = lambda 경로: __import__(\"json\").loads(파일경로.Path(경로).read_text()); json_save = lambda 경로, 값: 파일경로.Path(경로).write_text(__import__(\"json\").dumps(값, ensure_ascii=False)); 파일읽기 = file_read; 파일쓰기 = file_write; json읽기 = json_load; json저장 = json_save; file_version = 파일버전 = ");
    reveal_strlit("import secrets as 영지식비밀난수; zk_prime = 영지식큰소수 = 0xFFFFFFFFFFFFFFFFC90FDAA22168C234C4C6628B80DC1CD129024E088A67CC74020BBEA63B139B22514A08798E3404DDEF9519B3CD3A431B302B0A6DF25F14374FE1356D6D51C245E485B576625E7EC6F44C42E9A637ED6B0BFF5CB6F406B7EDEE386BFB5A899FA5AE9F24117C4B1FE649286651ECE45B3DC2007CB8A163BF0598DA48361C55D39A69163FA8FD24CF5F83655D23DCA3AD961C62F356208552BB9ED529077096966D670C354E4ABC9804F1746C08CA18217C32905E462E36CE3BE39E772C180E86039B2783A2EC07A28FB5C55DF06F4C52C9DE2BCBF6955817183995497CEA956AE515D2261898FA051015728E5A8AAAC42DAD33170D04507A33A85521ABDF1CBA64ECFB850458DBEF0A8AEA71575D060C7DB3970F85A6E1E4C7ABF5AE8CDB0933D71E8C94E04A25619DCEE3D2261AD2EE6BF12FFA06D98A0864D87602733EC86A64521F2B18177B200CBBE117577A615D6C770988C0BAD946E208E24FA074E5AB3143DB5BFCE0FD108E4B82D120A93AD2CAFFFFFFFFFFFFFFFF; zk_order = 영지식부분군크기 = (zk_prime - 1) // 2; zk_generator = 영지식생성원 = 2; zk_challenge_bits = 영지식도전비트 = 256; zk_challenge_limit = 영지식도전범위 = 1 << zk_challenge_bits; zk_secret = 영지식비밀만들기 = lambda: 영지식비밀난수.randbelow(zk_order - 1) + 1; zk_public = 영지식공개값 = lambda 비밀값: pow(zk_generator, 비밀값, zk_prime); zk_nonce = 영지식일회값만들기 = lambda: 영지식비밀난수.randbelow(zk_order); zk_commitment = 영지식약속 = lambda 일회값: pow(zk_generator, 일회값, zk_prime); zk_challenge = 영지식도전만들기 = lambda: 영지식비밀난수.randbelow(zk_challenge_limit); zk_challenge_except = 영지식다른도전 = lambda 제외: ((lambda 후보: 후보 + (1 if 후보 >= 제외 else 0))(영지식비밀난수.randbelow(zk_challenge_limit - 1))); zk_response = 영지식응답 = lambda 일회값, 비밀값, 도전값: (일회값 - 비밀값 * 도전값) % zk_order; zk_simulated_response = 영지식모의응답만들기 = lambda: 영지식비밀난수.randbelow(zk_order); zk_simulated_commitment = 영지식모의약속 = lambda 공개값, 도전값, 응답값: (pow(zk_generator, 응답값, zk_prime) * pow(공개값, 도전값, zk_prime)) % zk_prime; zk_verify = 영지식검증 = lambda 공개값, 약속값, 도전값, 응답값: (1 < 공개값 < zk_prime and pow(공개값, zk_order, zk_prime) == 1 and 1 <= 약속값 < zk_prime and pow(약속값, zk_order, zk_prime) == 1 and 0 <= 도전값 < zk_challenge_limit and 0 <= 응답값 < zk_order and 약속값 == (pow(zk_generator, 응답값, zk_prime) * pow(공개값, 도전값, zk_prime)) % zk_prime); zk_group_bytes = 영지식그룹바이트 = (zk_prime.bit_length() + 7) // 8; _nme_zk_context_bytes = lambda 문맥값: 문맥값 if isinstance(문맥값, bytes) else str(문맥값).encode(\"utf-8\"); _nme_zk_int_bytes = lambda 값: int(값).to_bytes(zk_group_bytes, \"big\"); _nme_zk_context_frame = lambda 문맥값: (lambda 바이트: len(바이트).to_bytes(8, \"big\") + 바이트)(_nme_zk_context_bytes(문맥값)); zk_nizk_challenge = 영지식비대화도전 = lambda 공개값, 약속값, 문맥값: int.from_bytes(__import__(\"hashlib\").sha256(b\"NME-SCHNORR-GROUP15-NIZK-v1\\0\" + _nme_zk_int_bytes(zk_generator) + _nme_zk_int_bytes(약속값) + _nme_zk_int_bytes(공개값) + _nme_zk_context_frame(문맥값)).digest(), \"big\"); zk_nizk_prove = 영지식비대화증명 = lambda 비밀값, 문맥값: (lambda 일회값: (lambda 약속값: (lambda 도전값: [약속값, (일회값 - 비밀값 * 도전값) % zk_order])(zk_nizk_challenge(zk_public(비밀값), 약속값, 문맥값)))(zk_commitment(일회값)))(zk_nonce()); zk_nizk_verify = 영지식비대화검증 = lambda 공개값, 증명값, 문맥값: (isinstance(증명값, (list, tuple)) and len(증명값) == 2 and zk_verify(공개값, 증명값[0], zk_nizk_challenge(공개값, 증명값[0], 문맥값), 증명값[1])); zero_knowledge_version = 영지식버전 = ");
    reveal_strlit("count = 개수 = len; sort = 정렬 = sorted; reverse = 뒤집기 = lambda 값들: list(reversed(값들)); remove = 빼기 = lambda 값들, 뺄값: [항목 for 항목 in 값들 if 항목 != 뺄값]; first = 첫번째 = lambda 값들: 값들[0]; last = 마지막 = lambda 값들: 값들[-1]; sum = 합계 = sum; largest = 최대 = max; smallest = 최소 = min; list_version = 목록버전 = ");
    reveal_strlit("upper = 대문자 = lambda 값: str(값).upper(); lower = 소문자 = lambda 값: str(값).lower(); trim = 공백없애기 = lambda 값: str(값).strip(); split = 나누기 = lambda 값, 구분자: str(값).split(구분자); join = 합치기 = lambda 구분자, 값들: str(구분자).join(map(str, 값들)); replace = 바꾸기 = lambda 값, 찾을말, 바꿀말: str(값).replace(찾을말, 바꿀말); starts_with = 로시작 = lambda 값, 앞말: str(값).startswith(앞말); length = 길이 = len; text_version = 글자버전 = ");
    reveal_strlit("import math as 수학; math = 수학; root = 제곱근 = 수학.sqrt; round_to = 반올림 = lambda 값, 자리=None: round(값, 자리); pi = 원주율 = 수학.pi; power = 거듭제곱 = pow; absolute = 절댓값 = abs; floor = 내림 = 수학.floor; ceil = 올림 = 수학.ceil; math_version = 수학버전 = ");
    reveal_strlit("date_version = 날짜버전 = ");
    reveal_strlit("_nme_clock");
    reveal_strlit("_nme_cool_");
    reveal_strlit("round(__import__(\"time\").time() - _nme_clock, 2)");
    reveal_strlit("0.0.1");
    reveal_strlit("0.0.2");
}

} // verus!

verus! {

/// The text of a piece of code holds no line break.
pub open spec fn code_unbroken(code: Code, s: Seq<char>) -> bool {
    unbroken(code_text(code, s))
}

/// Every name in a sentence template is free of line breaks (its words are
/// escaped, so they may hold any).
pub open spec fn template_unbroken(parts: Seq<TextPart>) -> bool {
    forall|i: int|
        0 <= i < parts.len() ==> match #[trigger] parts[i] {
            TextPart::Variable(name) => unbroken(name@),
            TextPart::Literal(_) => true,
        }
}

pub open spec fn strings_unbroken(texts: Seq<String>) -> bool {
    forall|i: int| 0 <= i < texts.len() ==> unbroken(#[trigger] texts[i]@)
}

pub open spec fn zk_unbroken(value: ZeroKnowledgeValue, s: Seq<char>) -> bool {
    match value {
        ZeroKnowledgeValue::Public { secret } => code_unbroken(secret, s),
        ZeroKnowledgeValue::NizkChallenge { public_key, commitment, context } => code_unbroken(
            public_key,
            s,
        ) && code_unbroken(commitment, s) && code_unbroken(context, s),
        ZeroKnowledgeValue::NizkProof { secret, context } => code_unbroken(secret, s)
            && code_unbroken(context, s),
        ZeroKnowledgeValue::NizkVerify { public_key, proof, context } => code_unbroken(
            public_key,
            s,
        ) && code_unbroken(proof, s) && code_unbroken(context, s),
        ZeroKnowledgeValue::Commitment { nonce } => code_unbroken(nonce, s),
        ZeroKnowledgeValue::ChallengeExcept { excluded } => code_unbroken(excluded, s),
        ZeroKnowledgeValue::Response { nonce, secret, challenge } => code_unbroken(nonce, s)
            && code_unbroken(secret, s) && code_unbroken(challenge, s),
        ZeroKnowledgeValue::Verify { public_key, commitment, challenge, response } =>
            code_unbroken(public_key, s) && code_unbroken(commitment, s) && code_unbroken(
            challenge,
            s,
        ) && code_unbroken(response, s),
        ZeroKnowledgeValue::SimulatedCommitment { public_key, challenge, response } =>
            code_unbroken(public_key, s) && code_unbroken(challenge, s) && code_unbroken(
            response,
            s,
        ),
        _ => true,
    }
}

/// No name or piece of code in a value holds a line break.
pub open spec fn value_unbroken(value: Value, s: Seq<char>) -> bool
    decreases value,
{
    match value {
        Value::Python(code) => code_unbroken(code, s),
        Value::Text(template) => template_unbroken(template.parts@),
        Value::RandomInteger { low, high } => code_unbroken(low, s) && code_unbroken(high, s),
        Value::RandomChoice { .. } => true,
        Value::List(items) => values_unbroken(items@, s),
        Value::Entry { of, key } => unbroken(of@) && value_unbroken(*key, s),
        Value::Reading { of, reading } => unbroken(of@),
        Value::Item { of, position } => unbroken(of@) && match position {
            ItemPosition::Numbered(code) => code_unbroken(code, s),
            _ => true,
        },
        Value::Joined { of, separator } => unbroken(of@),
        Value::Split { of, by } => unbroken(of@),
        Value::Repeated { of, times } => unbroken(of@) && code_unbroken(times, s),
        Value::Remainder { of, by } => unbroken(of@) && code_unbroken(by, s),
        Value::ZeroKnowledge(z) => zk_unbroken(z, s),
        _ => true,
    }
}

pub open spec fn values_unbroken(values: Seq<Value>, s: Seq<char>) -> bool
    decreases values,
{
    if values.len() == 0 {
        true
    } else {
        values_unbroken(values.drop_last(), s) && value_unbroken(values.last(), s)
    }
}

pub open spec fn condition_value_unbroken(value: ConditionValue, s: Seq<char>) -> bool {
    match value {
        ConditionValue::Python(code) => code_unbroken(code, s),
        ConditionValue::Name(name) => unbroken(name@),
        ConditionValue::Reading { of, reading } => unbroken(of@),
        ConditionValue::Remainder { of, by } => unbroken(of@) && code_unbroken(by, s),
        ConditionValue::Entry { of, key } => unbroken(of@) && value_unbroken(*key, s),
        _ => true,
    }
}

pub open spec fn condition_unbroken(condition: Condition, s: Seq<char>) -> bool
    decreases condition,
{
    match condition {
        Condition::Python(code) => code_unbroken(code, s),
        Condition::Truthy { value, negated } => condition_value_unbroken(value, s),
        Condition::Compare { left, operator, right, negated } => condition_value_unbroken(left, s)
            && condition_value_unbroken(right, s),
        Condition::Logical { left, operator, right } => condition_unbroken(*left, s)
            && condition_unbroken(*right, s),
    }
}

pub open spec fn inline_unbroken(inline: Option<InlineStmt>, s: Seq<char>) -> bool
    decreases inline,
{
    match inline {
        None => true,
        Some(InlineStmt::Nme(inner)) => stmt_unbroken(*inner, s),
        Some(InlineStmt::Python(span)) => unbroken(
            byte_slice(s, span.start as int, span.end as int),
        ),
    }
}

/// No name, value, condition or piece of code a statement holds contains a
/// line break.
pub open spec fn stmt_unbroken(stmt: NmeStmt, s: Seq<char>) -> bool
    decreases stmt,
{
    match stmt {
        NmeStmt::Say { value } => value_unbroken(value, s),
        NmeStmt::Ask { target, prompt, kind } => unbroken(target@) && match prompt {
            Some(value) => value_unbroken(value, s),
            None => true,
        },
        NmeStmt::SetValue { target, value } => unbroken(target@) && value_unbroken(value, s),
        NmeStmt::Update { target, amount, operation } => unbroken(target@) && code_unbroken(
            amount,
            s,
        ),
        NmeStmt::Times { count, inline } => code_unbroken(count, s) && inline_unbroken(inline, s),
        NmeStmt::ForEach { name, items, position, inline } => unbroken(name@) && code_unbroken(
            items,
            s,
        ) && match position {
            Some(position) => unbroken(position@),
            None => true,
        } && inline_unbroken(inline, s),
        NmeStmt::Wait { seconds } => code_unbroken(seconds, s),
        NmeStmt::SaySlowly { value, seconds } => value_unbroken(value, s) && code_unbroken(
            seconds,
            s,
        ),
        NmeStmt::SayInBox { value } => value_unbroken(value, s),
        NmeStmt::SayInMiddle { value } => value_unbroken(value, s),
        NmeStmt::Cooldown { target, seconds } => unbroken(target@) && code_unbroken(seconds, s),
        NmeStmt::WaitForCooldown { target } => unbroken(target@),
        NmeStmt::Append { target, value } => unbroken(target@) && value_unbroken(value, s),
        NmeStmt::Remove { target, value } => unbroken(target@) && value_unbroken(value, s),
        NmeStmt::RecordPut { target, key, value } => unbroken(target@) && value_unbroken(key, s)
            && value_unbroken(value, s),
        NmeStmt::RecordRemove { target, key } => unbroken(target@) && value_unbroken(key, s),
        NmeStmt::Arrange { target, order } => unbroken(target@),
        NmeStmt::Forever { inline } => inline_unbroken(inline, s),
        NmeStmt::Chance { permille, inline } => inline_unbroken(inline, s),
        NmeStmt::Job { name, parameters } => unbroken(name@) && strings_unbroken(parameters@),
        NmeStmt::RunJob { name, arguments } => unbroken(name@) && values_unbroken(arguments@, s),
        NmeStmt::When { condition, inline } => condition_unbroken(condition, s) && inline_unbroken(
            inline,
            s,
        ),
        NmeStmt::While { condition, inline } => condition_unbroken(condition, s)
            && inline_unbroken(inline, s),
        NmeStmt::ElseIf { condition, inline } => condition_unbroken(condition, s)
            && inline_unbroken(inline, s),
        NmeStmt::Else { inline } => inline_unbroken(inline, s),
        NmeStmt::FileRead { target, path } => unbroken(target@) && code_unbroken(path, s),
        NmeStmt::FileWrite { path, value } => code_unbroken(path, s) && value_unbroken(value, s),
        NmeStmt::ModuleImport { path, names } => code_unbroken(path, s) && strings_unbroken(
            names@,
        ),
        _ => true,
    }
}

proof fn lemma_escape_unbroken(t: Seq<char>)
    ensures
        unbroken(escape_all(t)),
        unbroken(python_string(t)),
    decreases t.len(),
{
    broadcast use lemma_unbroken_concat;

    if t.len() > 0 {
        lemma_escape_unbroken(t.drop_last());
        assert(unbroken(escaped(t.last())));
    }
    assert(unbroken(seq!['"']));
}

proof fn lemma_decimal_unbroken(n: nat)
    ensures
        unbroken(decimal(n)),
    decreases n,
{
    if n >= 10 {
        lemma_decimal_unbroken(n / 10);
        let d = decimal(n / 10);
        assert forall|i: int| 0 <= i < decimal(n).len() implies decimal(n)[i] != '\n' by {
            if i < d.len() {
                assert(decimal(n)[i] == d[i]);
            }
        }
    }
}

proof fn lemma_signed_decimal_unbroken(v: int)
    ensures
        unbroken(signed_decimal(v)),
{
    broadcast use lemma_unbroken_concat;

    if v < 0 {
        lemma_decimal_unbroken((-v) as nat);
        assert(unbroken(seq!['-']));
    } else {
        lemma_decimal_unbroken(v as nat);
    }
}

proof fn lemma_operand_unbroken(t: Seq<char>)
    requires
        unbroken(t),
    ensures
        unbroken(operand(t)),
        unbroken(parens(t)),
{
    broadcast use lemma_unbroken_concat;

    assert(unbroken(seq!['(']));
    assert(unbroken(seq![')']));
}

proof fn lemma_template_unbroken(parts: Seq<TextPart>)
    requires
        template_unbroken(parts),
    ensures
        unbroken(template_pieces(parts)),
        unbroken(template_text(parts)),
    decreases parts.len(),
{
    broadcast use lemma_unbroken_concat;

    lemma_words_unbroken();
    if parts.len() > 0 {
        let rest = parts.drop_last();
        assert forall|i: int| 0 <= i < rest.len() implies match #[trigger] rest[i] {
            TextPart::Variable(name) => unbroken(name@),
            TextPart::Literal(_) => true,
        } by {
            assert(rest[i] == parts[i]);
        }
        lemma_template_unbroken(rest);
        let last = parts.last();
        assert(match parts[parts.len() - 1] {
            TextPart::Variable(name) => unbroken(name@),
            TextPart::Literal(_) => true,
        });
        match last {
            TextPart::Literal(text) => lemma_escape_unbroken(text@),
            TextPart::Variable(name) => {},
        }
        if parts.len() == 1 {
            assert(parts[0] == last);
        }
    }
    assert(unbroken(seq!['"', '"']));
}

proof fn lemma_leading_digits(s: Seq<char>, i: int)
    requires
        0 <= i < leading_digits(s),
    ensures
        i < s.len(),
        is_digit(s[i]),
    decreases s.len(),
{
    if i > 0 {
        lemma_leading_digits(s.drop_first(), i - 1);
    }
}

proof fn lemma_leading_digits_fit(s: Seq<char>)
    ensures
        leading_digits(s) <= s.len(),
    decreases s.len(),
{
    if s.len() > 0 && is_digit(s[0]) {
        lemma_leading_digits_fit(s.drop_first());
    }
}

/// A text with an `e`, an optional sign and digits holds no line break.
proof fn lemma_exponent_unbroken(e: Seq<char>)
    requires
        exponent_part(e),
    ensures
        unbroken(e),
{
    let rest = e.drop_first();
    assert forall|j: int| 0 <= j < e.len() implies e[j] != '\n' by {
        if j > 0 {
            if rest.len() > 0 && (rest[0] == '-' || rest[0] == '+') {
                if j > 1 {
                    assert(sign_stripped(rest)[j - 2] == e[j]);
                }
            } else {
                assert(sign_stripped(rest)[j - 1] == e[j]);
            }
        }
    }
}

/// A number as `str::parse::<f64>` reads it holds no line break.
proof fn lemma_float_unbroken(t: Seq<char>)
    requires
        float_literal(t),
    ensures
        unbroken(t),
{
    let u = sign_stripped(t);
    let lowered = lower_ascii_text(u);
    reveal_strlit("inf");
    reveal_strlit("infinity");
    reveal_strlit("nan");
    if lowered == "inf"@ || lowered == "infinity"@ || lowered == "nan"@ {
        assert forall|i: int| 0 <= i < u.len() implies u[i] != '\n' by {
            assert(lowered[i] == ascii_lower(u[i]));
            if lowered == "inf"@ {
                assert(lowered =~= seq!['i', 'n', 'f']);
            } else if lowered == "nan"@ {
                assert(lowered =~= seq!['n', 'a', 'n']);
            } else {
                assert(lowered =~= seq!['i', 'n', 'f', 'i', 'n', 'i', 't', 'y']);
            }
        }
    } else {
        let whole = leading_digits(u) as int;
        lemma_leading_digits_fit(u);
        if whole < u.len() && u[whole] == '.' {
            let tail = u.skip(whole + 1);
            let fraction = leading_digits(tail) as int;
            lemma_leading_digits_fit(tail);
            let end = whole + 1 + fraction;
            if end < u.len() {
                lemma_exponent_unbroken(u.skip(end));
            }
            assert forall|i: int| 0 <= i < u.len() implies u[i] != '\n' by {
                if i < whole {
                    lemma_leading_digits(u, i);
                } else if i > whole && i < end {
                    lemma_leading_digits(tail, i - whole - 1);
                    assert(tail[i - whole - 1] == u[i]);
                } else if i >= end {
                    assert(u.skip(end)[i - end] == u[i]);
                }
            }
        } else {
            if whole < u.len() {
                lemma_exponent_unbroken(u.skip(whole));
            }
            assert forall|i: int| 0 <= i < u.len() implies u[i] != '\n' by {
                if i < whole {
                    lemma_leading_digits(u, i);
                } else {
                    assert(u.skip(whole)[i - whole] == u[i]);
                }
            }
        }
    }
    assert forall|i: int| 0 <= i < t.len() implies t[i] != '\n' by {
        if t.len() > 0 && (t[0] == '-' || t[0] == '+') {
            if i > 0 {
                assert(u[i - 1] == t[i]);
            }
        } else {
            assert(u[i] == t[i]);
        }
    }
}

/// Every choice comes out on one line: a number holds no line break, and
/// any other text is quoted with its line breaks escaped.
proof fn lemma_choices_unbroken(choices: Seq<String>)
    ensures
        unbroken(choices_text(choices)),
    decreases choices.len(),
{
    broadcast use lemma_unbroken_concat;

    lemma_words_unbroken();
    if choices.len() > 0 {
        let rest = choices.drop_last();
        lemma_choices_unbroken(rest);
        lemma_escape_unbroken(choices.last()@);
        if float_literal(choices.last()@) {
            lemma_float_unbroken(choices.last()@);
        }
        if choices.len() == 1 {
            if float_literal(choices[0]@) {
                lemma_float_unbroken(choices[0]@);
            }
            lemma_escape_unbroken(choices[0]@);
        }
    }
}

proof fn lemma_names_unbroken(names: Seq<String>)
    requires
        strings_unbroken(names),
    ensures
        unbroken(names_text(names)),
    decreases names.len(),
{
    broadcast use lemma_unbroken_concat;

    lemma_words_unbroken();
    if names.len() > 0 {
        let rest = names.drop_last();
        assert forall|i: int| 0 <= i < rest.len() implies unbroken(#[trigger] rest[i]@) by {
            assert(rest[i] == names[i]);
        }
        lemma_names_unbroken(rest);
        assert(unbroken(names[names.len() - 1]@));
    }
}

proof fn lemma_stem_unbroken(t: Seq<char>)
    requires
        unbroken(t),
    ensures
        unbroken(module_stem(t)),
{
    lemma_leading_unbroken(t);
    let a = without_leading_quotes(t);
    lemma_trailing_unbroken(a);
    let stripped = without_trailing_quotes(a);
    lemma_last_piece_unbroken(stripped);
    let piece = last_piece(stripped);
    if piece.len() >= 4 {
        let front = piece.subrange(0, piece.len() - 4);
        assert forall|i: int| 0 <= i < front.len() implies #[trigger] front[i] != '\n' by {
            assert(front[i] == piece[i]);
        }
    }
}

proof fn lemma_leading_unbroken(t: Seq<char>)
    requires
        unbroken(t),
    ensures
        unbroken(without_leading_quotes(t)),
    decreases t.len(),
{
    if t.len() > 0 && is_quote(t[0]) {
        assert forall|i: int| 0 <= i < t.drop_first().len() implies t.drop_first()[i] != '\n' by {
            assert(t.drop_first()[i] == t[i + 1]);
        }
        lemma_leading_unbroken(t.drop_first());
    }
}

proof fn lemma_trailing_unbroken(t: Seq<char>)
    requires
        unbroken(t),
    ensures
        unbroken(without_trailing_quotes(t)),
    decreases t.len(),
{
    if t.len() > 0 && is_quote(t.last()) {
        assert forall|i: int| 0 <= i < t.drop_last().len() implies t.drop_last()[i] != '\n' by {
            assert(t.drop_last()[i] == t[i]);
        }
        lemma_trailing_unbroken(t.drop_last());
    }
}

proof fn lemma_last_piece_unbroken(t: Seq<char>)
    requires
        unbroken(t),
    ensures
        unbroken(last_piece(t)),
    decreases t.len(),
{
    if t.len() > 0 && !is_path_separator(t.last()) {
        let rest = t.drop_last();
        assert forall|i: int| 0 <= i < rest.len() implies rest[i] != '\n' by {
            assert(rest[i] == t[i]);
        }
        lemma_last_piece_unbroken(rest);
        let p = last_piece(rest);
        assert(t[t.len() - 1] != '\n');
        assert forall|i: int| 0 <= i < p.push(t.last()).len() implies p.push(t.last())[i] != '\n' by {
            if i < p.len() {
                assert(p.push(t.last())[i] == p[i]);
            }
        }
    }
}

} // verus!

verus! {

#[verifier::rlimit(50)]
proof fn lemma_zk_unbroken(value: ZeroKnowledgeValue, s: Seq<char>)
    requires
        zk_unbroken(value, s),
    ensures
        unbroken(zk_text(value, s)),
{
    broadcast use lemma_unbroken_concat;

    lemma_words_unbroken();
    lemma_constants_unbroken();
    match value {
        ZeroKnowledgeValue::Response { nonce, secret, challenge } => {
            lemma_operand_unbroken(code_text(nonce, s));
            lemma_operand_unbroken(code_text(secret, s));
            lemma_operand_unbroken(code_text(challenge, s));
        },
        ZeroKnowledgeValue::Verify { public_key, commitment, challenge, response } => {
            lemma_operand_unbroken(code_text(public_key, s));
            lemma_operand_unbroken(code_text(commitment, s));
            lemma_operand_unbroken(code_text(challenge, s));
            lemma_operand_unbroken(code_text(response, s));
        },
        ZeroKnowledgeValue::SimulatedCommitment { public_key, challenge, response } => {
            lemma_operand_unbroken(code_text(public_key, s));
            lemma_operand_unbroken(code_text(challenge, s));
            lemma_operand_unbroken(code_text(response, s));
        },
        _ => {},
    }
}

proof fn lemma_value_unbroken(value: Value, s: Seq<char>)
    requires
        value_unbroken(value, s),
    ensures
        unbroken(value_text(value, s)),
    decreases value,
{
    broadcast use lemma_unbroken_concat;

    lemma_words_unbroken();
    lemma_constants_unbroken();
    assert(unbroken(seq!['[']));
    assert(unbroken(seq![']']));
    match value {
        Value::Text(template) => lemma_template_unbroken(template.parts@),
        Value::RandomChoice { choices } => lemma_choices_unbroken(choices@),
        Value::List(items) => lemma_values_unbroken(items@, s),
        Value::Entry { of, key } => lemma_value_unbroken(*key, s),
        Value::Item { of, position } => match position {
            ItemPosition::Numbered(code) => {
                match parse_i64(trim(code_text(code, s))) {
                    Some(number) => lemma_signed_decimal_unbroken(number - 1),
                    None => {},
                }
            },
            _ => {},
        },
        Value::Joined { of, separator } => lemma_escape_unbroken(separator@),
        Value::Split { of, by } => match by {
            SplitBy::Text(separator) => lemma_escape_unbroken(separator@),
            SplitBy::Lines => {},
        },
        Value::Repeated { of, times } => lemma_operand_unbroken(code_text(times, s)),
        Value::Remainder { of, by } => lemma_operand_unbroken(code_text(by, s)),
        Value::Chance { permille } => {
            lemma_decimal_unbroken(CHANCE_SCALE as nat);
            lemma_decimal_unbroken(permille as nat);
        },
        Value::ZeroKnowledge(z) => lemma_zk_unbroken(z, s),
        _ => {},
    }
}

proof fn lemma_values_unbroken(values: Seq<Value>, s: Seq<char>)
    requires
        values_unbroken(values, s),
    ensures
        unbroken(values_text(values, s)),
    decreases values,
{
    broadcast use lemma_unbroken_concat;

    lemma_words_unbroken();
    if values.len() > 0 {
        lemma_values_unbroken(values.drop_last(), s);
        lemma_value_unbroken(values.last(), s);
        if values.len() == 1 {
            assert(values[0] == values.last());
        }
    }
}

proof fn lemma_condition_value_unbroken(value: ConditionValue, s: Seq<char>)
    requires
        condition_value_unbroken(value, s),
    ensures
        unbroken(condition_value_text(value, s)),
{
    broadcast use lemma_unbroken_concat;

    lemma_words_unbroken();
    assert(unbroken(seq!['[']));
    assert(unbroken(seq![']']));
    match value {
        ConditionValue::Text(text) => lemma_escape_unbroken(text@),
        ConditionValue::Remainder { of, by } => lemma_operand_unbroken(code_text(by, s)),
        ConditionValue::Entry { of, key } => lemma_value_unbroken(*key, s),
        _ => {},
    }
}

proof fn lemma_condition_unbroken(condition: Condition, s: Seq<char>)
    requires
        condition_unbroken(condition, s),
    ensures
        unbroken(condition_text(condition, s)),
        unbroken(wrapped_condition(condition, s)),
    decreases condition,
{
    broadcast use lemma_unbroken_concat;

    lemma_words_unbroken();
    assert(unbroken(seq!['(']));
    assert(unbroken(seq![')']));
    assert(unbroken(seq![' ']));
    match condition {
        Condition::Truthy { value, negated } => lemma_condition_value_unbroken(value, s),
        Condition::Compare { left, operator, right, negated } => {
            lemma_condition_value_unbroken(left, s);
            lemma_condition_value_unbroken(right, s);
        },
        Condition::Logical { left, operator, right } => {
            lemma_condition_unbroken(*left, s);
            lemma_condition_unbroken(*right, s);
        },
        _ => {},
    }
}

proof fn lemma_printable_unbroken(value: Value, s: Seq<char>)
    requires
        value_unbroken(value, s),
    ensures
        unbroken(printable_text(value, s)),
{
    broadcast use lemma_unbroken_concat;

    lemma_words_unbroken();
    lemma_value_unbroken(value, s);
    assert(unbroken(seq![')']));
}

proof fn lemma_input_unbroken(prompt: Option<Value>, s: Seq<char>)
    requires
        match prompt {
            Some(value) => value_unbroken(value, s),
            None => true,
        },
    ensures
        unbroken(input_text(prompt, s)),
{
    broadcast use lemma_unbroken_concat;

    lemma_words_unbroken();
    assert(unbroken(seq![')']));
    match prompt {
        Some(value) => {
            lemma_value_unbroken(value, s);
            match value {
                Value::Text(template) => lemma_template_unbroken(template.parts@),
                _ => {},
            }
        },
        None => {},
    }
}

proof fn lemma_inline_unbroken(inline: Option<InlineStmt>, s: Seq<char>)
    requires
        inline_unbroken(inline, s),
    ensures
        unbroken(inline_text(inline, s)),
    decreases inline,
{
    broadcast use lemma_unbroken_concat;

    assert(unbroken(seq![' ']));
    match inline {
        Some(InlineStmt::Nme(inner)) => lemma_stmt_unbroken(*inner, s),
        _ => {},
    }
}

proof fn lemma_stmt_unbroken(stmt: NmeStmt, s: Seq<char>)
    requires
        stmt_unbroken(stmt, s),
    ensures
        unbroken(stmt_text(stmt, s)),
    decreases stmt,
{
    broadcast use lemma_unbroken_concat;

    lemma_words_unbroken();
    lemma_constants_unbroken();
    assert(unbroken(seq!['(']));
    assert(unbroken(seq![')']));
    assert(unbroken(seq!['[']));
    assert(unbroken(seq![']']));
    assert(unbroken(seq![' ']));
    assert(unbroken(seq![':']));
    assert(unbroken(seq!['"']));
    match stmt {
        NmeStmt::Say { value } => lemma_value_unbroken(value, s),
        NmeStmt::Ask { target, prompt, kind } => lemma_input_unbroken(prompt, s),
        NmeStmt::SetValue { target, value } => lemma_value_unbroken(value, s),
        NmeStmt::Update { target, amount, operation } => lemma_operand_unbroken(
            code_text(amount, s),
        ),
        NmeStmt::Times { count, inline } => lemma_inline_unbroken(inline, s),
        NmeStmt::ForEach { name, items, position, inline } => lemma_inline_unbroken(inline, s),
        NmeStmt::SaySlowly { value, seconds } => lemma_printable_unbroken(value, s),
        NmeStmt::DrawLine => lemma_decimal_unbroken(SCREEN_COLUMNS as nat),
        NmeStmt::SayInBox { value } => lemma_printable_unbroken(value, s),
        NmeStmt::SayInMiddle { value } => {
            lemma_decimal_unbroken(SCREEN_COLUMNS as nat);
            lemma_printable_unbroken(value, s);
        },
        NmeStmt::Append { target, value } => lemma_value_unbroken(value, s),
        NmeStmt::Remove { target, value } => lemma_value_unbroken(value, s),
        NmeStmt::RecordPut { target, key, value } => {
            lemma_value_unbroken(key, s);
            lemma_value_unbroken(value, s);
        },
        NmeStmt::RecordRemove { target, key } => lemma_value_unbroken(key, s),
        NmeStmt::Forever { inline } => lemma_inline_unbroken(inline, s),
        NmeStmt::Chance { permille, inline } => {
            lemma_decimal_unbroken(CHANCE_SCALE as nat);
            lemma_decimal_unbroken(permille as nat);
            lemma_inline_unbroken(inline, s);
        },
        NmeStmt::Job { name, parameters } => lemma_names_unbroken(parameters@),
        NmeStmt::RunJob { name, arguments } => lemma_values_unbroken(arguments@, s),
        NmeStmt::When { condition, inline } => {
            lemma_condition_unbroken(condition, s);
            lemma_inline_unbroken(inline, s);
        },
        NmeStmt::While { condition, inline } => {
            lemma_condition_unbroken(condition, s);
            lemma_inline_unbroken(inline, s);
        },
        NmeStmt::ElseIf { condition, inline } => {
            lemma_condition_unbroken(condition, s);
            lemma_inline_unbroken(inline, s);
        },
        NmeStmt::Else { inline } => lemma_inline_unbroken(inline, s),
        NmeStmt::UseModule { module, requested } => {
            match module {
                BundledModuleId::Random => {},
                BundledModuleId::File => {},
                BundledModuleId::ZeroKnowledge => {},
                BundledModuleId::List => {},
                BundledModuleId::Text => {},
                BundledModuleId::Math => {},
                BundledModuleId::Date => {},
            }
        },
        NmeStmt::FileWrite { path, value } => lemma_value_unbroken(value, s),
        NmeStmt::ModuleImport { path, names } => {
            lemma_stem_unbroken(code_text(path, s));
            lemma_names_unbroken(names@);
        },
        _ => {},
    }
}

/// One NME statement is one line of Python: when no name, value, condition
/// or piece of code the statement holds contains a line break, neither does
/// the Python it lowers to. Texts that are quoted on the way (a message, the
/// texts of a random choice) may hold line breaks: they are escaped. This is what keeps line N of the input line N of
/// the output, so tracebacks point at the line the writer sees.
pub proof fn law_one_statement_is_one_line(stmt: NmeStmt, s: Seq<char>)
    requires
        stmt_unbroken(stmt, s),
    ensures
        unbroken(stmt_text(stmt, s)),
{
    lemma_stmt_unbroken(stmt, s);
}

/// With no edits, the source comes back unchanged.
pub proof fn law_no_edits_keep_the_source(s: Seq<char>)
    ensures
        splice(s, sorted_by_start(Seq::empty()), 0) == s,
{
    lemma_chars_before(s, 0, 0);
    assert(s.take(s.len() as int) =~= s);
    assert forall|j: int| 0 <= j < s.len() implies offset_of(s, j) < bytes_of(s) by {
        lemma_offset_monotonic(s, j, s.len() as int);
    }
    lemma_chars_before(s, bytes_of(s) as int, s.len() as int);
    assert(s.subrange(0, s.len() as int) =~= s);
}

/// One edit changes its own span and nothing else: the text before it and
/// the text after it come through as they were.
pub proof fn law_an_edit_touches_only_its_span(s: Seq<char>, edit: EditView)
    ensures
        splice(s, sorted_by_start(seq![edit]), 0) == byte_slice(s, 0, edit.0.start as int)
            + edit.1 + byte_slice(s, edit.0.end as int, bytes_of(s) as int),
{
    let none = Seq::<EditView>::empty();
    assert(seq![edit].drop_last() =~= none);
    assert(seq![edit].last() == edit);
    assert(sorted_by_start(none) == none);
    assert(insert_by_start(none, edit) == seq![edit]);
    assert(sorted_by_start(seq![edit]) == seq![edit]);
    assert(seq![edit].drop_first() =~= none);
    assert(seq![edit][0] == edit);
    assert(splice(s, none, edit.0.end as int) == byte_slice(
        s,
        edit.0.end as int,
        bytes_of(s) as int,
    ));
}

} // verus!

verus! {

/// The edits come in order of where they start.
pub open spec fn by_start(edits: Seq<EditView>) -> bool {
    forall|i: int, j: int| 0 <= i < j < edits.len() ==> edits[i].0.start <= edits[j].0.start
}

/// No two edits start at the same byte.
pub open spec fn distinct_starts(edits: Seq<EditView>) -> bool {
    forall|i: int, j: int|
        0 <= i < edits.len() && 0 <= j < edits.len() && i != j ==> edits[i].0.start
            != edits[j].0.start
}

proof fn lemma_insert_keeps_the_edits(sorted: Seq<EditView>, e: EditView)
    ensures
        insert_by_start(sorted, e).to_multiset() == sorted.to_multiset().insert(e),
    decreases sorted.len(),
{
    broadcast use vstd::seq_lib::group_to_multiset_ensures;
    broadcast use vstd::multiset::group_multiset_axioms;

    if sorted.len() == 0 {
        assert(seq![e] =~= Seq::<EditView>::empty().push(e));
    } else if sorted.last().0.start <= e.0.start {
    } else {
        let rest = sorted.drop_last();
        lemma_insert_keeps_the_edits(rest, e);
        assert(rest.push(sorted.last()) =~= sorted);
        assert(insert_by_start(rest, e).push(sorted.last()).to_multiset() =~= rest.to_multiset().insert(
            e,
        ).insert(sorted.last()));
        assert(sorted.to_multiset().insert(e) =~= rest.to_multiset().insert(sorted.last()).insert(e));
    }
}

proof fn lemma_sorting_keeps_the_edits(edits: Seq<EditView>)
    ensures
        sorted_by_start(edits).to_multiset() == edits.to_multiset(),
    decreases edits.len(),
{
    broadcast use vstd::seq_lib::group_to_multiset_ensures;

    if edits.len() > 0 {
        lemma_sorting_keeps_the_edits(edits.drop_last());
        lemma_insert_keeps_the_edits(sorted_by_start(edits.drop_last()), edits.last());
        assert(edits.drop_last().push(edits.last()) =~= edits);
    }
}

proof fn lemma_insert_keeps_the_order(sorted: Seq<EditView>, e: EditView)
    requires
        by_start(sorted),
    ensures
        by_start(insert_by_start(sorted, e)),
    decreases sorted.len(),
{
    broadcast use vstd::seq_lib::group_to_multiset_ensures;
    broadcast use vstd::multiset::group_multiset_axioms;

    if sorted.len() > 0 && sorted.last().0.start > e.0.start {
        let rest = sorted.drop_last();
        let last = sorted.last();
        lemma_insert_keeps_the_order(rest, e);
        lemma_insert_keeps_the_edits(rest, e);
        let r = insert_by_start(rest, e);
        assert forall|k: int| 0 <= k < r.len() implies #[trigger] r[k].0.start <= last.0.start by {
            assert(r.to_multiset().count(r[k]) > 0);
            assert(r.contains(r[k]));
            if r[k] != e {
                assert(rest.to_multiset().count(r[k]) > 0);
                assert(rest.contains(r[k]));
                let m = choose|m: int| 0 <= m < rest.len() && rest[m] == r[k];
                assert(sorted[m] == rest[m]);
            }
        }
        let out = r.push(last);
        assert forall|i: int, j: int| 0 <= i < j < out.len() implies out[i].0.start
            <= out[j].0.start by {
            if j == r.len() {
                assert(out[i] == r[i]);
            } else {
                assert(out[i] == r[i] && out[j] == r[j]);
            }
        }
    }
}

proof fn lemma_sorting_orders(edits: Seq<EditView>)
    ensures
        by_start(sorted_by_start(edits)),
    decreases edits.len(),
{
    if edits.len() > 0 {
        lemma_sorting_orders(edits.drop_last());
        lemma_insert_keeps_the_order(sorted_by_start(edits.drop_last()), edits.last());
    }
}

/// Two orderings by start of the same edits, no two starting together, are
/// the same.
proof fn lemma_one_order(x: Seq<EditView>, y: Seq<EditView>)
    requires
        by_start(x),
        by_start(y),
        distinct_starts(x),
        x.to_multiset() == y.to_multiset(),
    ensures
        x == y,
    decreases x.len(),
{
    broadcast use vstd::seq_lib::group_to_multiset_ensures;
    broadcast use vstd::multiset::group_multiset_axioms;

    if x.len() == 0 {
        assert(x.to_multiset().len() == x.len());
        assert(y.to_multiset().len() == y.len());
        assert(y.len() == 0);
        assert(x =~= y);
    } else {
        assert(x.to_multiset().len() == x.len());
        assert(y.to_multiset().len() == y.len());
        assert(y.len() == x.len());
        assert(x.to_multiset().count(y[0]) > 0);
        assert(x.contains(y[0]));
        let i = choose|i: int| 0 <= i < x.len() && x[i] == y[0];
        assert(y.to_multiset().count(x[0]) > 0);
        assert(y.contains(x[0]));
        let j = choose|j: int| 0 <= j < y.len() && y[j] == x[0];
        if j > 0 {
            assert(y[0].0.start <= y[j].0.start);
        }
        if i > 0 {
            assert(x[0].0.start <= x[i].0.start);
        }
        assert(i == 0);
        assert(x.remove(0) =~= x.drop_first());
        assert(y.remove(0) =~= y.drop_first());
        assert(x.drop_first().to_multiset() == y.drop_first().to_multiset());
        lemma_one_order(x.drop_first(), y.drop_first());
        assert(x[0] == y[0]);
        assert forall|k: int| 0 <= k < x.len() implies x[k] == y[k] by {
            if k > 0 {
                assert(x.drop_first()[k - 1] == y.drop_first()[k - 1]);
            }
        }
        assert(x =~= y);
    }
}

/// Reordering edits that start at different bytes does not change what
/// `apply_edits` makes of them: the result depends only on which edits
/// there are.
pub proof fn law_the_order_of_edits_does_not_matter(
    s: Seq<char>,
    edits: Seq<EditView>,
    reordered: Seq<EditView>,
)
    requires
        distinct_starts(edits),
        reordered.to_multiset() == edits.to_multiset(),
    ensures
        sorted_by_start(reordered) == sorted_by_start(edits),
        splice(s, sorted_by_start(reordered), 0) == splice(s, sorted_by_start(edits), 0),
{
    broadcast use vstd::seq_lib::group_to_multiset_ensures;
    broadcast use vstd::multiset::group_multiset_axioms;

    let x = sorted_by_start(edits);
    let y = sorted_by_start(reordered);
    lemma_sorting_keeps_the_edits(edits);
    lemma_sorting_keeps_the_edits(reordered);
    lemma_sorting_orders(edits);
    lemma_sorting_orders(reordered);
    assert forall|i: int, j: int|
        0 <= i < x.len() && 0 <= j < x.len() && i != j implies x[i].0.start != x[j].0.start by {
        assert(x.to_multiset().count(x[i]) > 0);
        assert(x.to_multiset().count(x[j]) > 0);
        assert(edits.contains(x[i]));
        assert(edits.contains(x[j]));
        let a = choose|a: int| 0 <= a < edits.len() && edits[a] == x[i];
        let b = choose|b: int| 0 <= b < edits.len() && edits[b] == x[j];
        if x[i] == x[j] {
            assert(edits.no_duplicates());
            edits.lemma_multiset_has_no_duplicates();
            x.lemma_multiset_has_no_duplicates_conv();
        } else {
            assert(a != b);
        }
    }
    lemma_one_order(x, y);
}

} // verus!

verus! {

/// Updating a name writes `name = name <op> amount` with the operator the
/// update names: `+` to add, `-` to subtract, `*` to multiply and `/` to
/// divide. An amount that is one atom (a number or a name) stands as it is;
/// any other amount is put in parentheses, so the operator applies to all
/// of it.
pub proof fn law_an_update_writes_its_own_operator(
    target: String,
    amount: Code,
    operation: UpdateOp,
    s: Seq<char>,
)
    ensures
        ({
            let written = stmt_text(NmeStmt::Update { target, amount, operation }, s);
            let a = code_text(amount, s);
            let sign = match operation {
                UpdateOp::Add => " + "@,
                UpdateOp::Subtract => " - "@,
                UpdateOp::Multiply => " * "@,
                UpdateOp::Divide => " / "@,
            };
            &&& simple_atom(a) ==> written == target@ + " = "@ + target@ + sign + a
            &&& !simple_atom(a) ==> written == target@ + " = "@ + target@ + sign + "("@ + a + ")"@
        }),
{
    reveal_strlit(" = ");
    reveal_strlit(" + ");
    reveal_strlit(" - ");
    reveal_strlit(" * ");
    reveal_strlit(" / ");
    reveal_strlit("+");
    reveal_strlit("-");
    reveal_strlit("*");
    reveal_strlit("/");
    reveal_strlit("(");
    reveal_strlit(")");
    let a = code_text(amount, s);
    let t = target@;
    let op = update_op_text(operation);
    assert(op.len() == 1);
    if simple_atom(a) {
        assert(t + " = "@ + t + seq![' '] + op + seq![' '] + a =~= t + " = "@ + t + (seq![' '] + op
            + seq![' ']) + a);
    } else {
        assert(t + " = "@ + t + seq![' '] + op + seq![' '] + (seq!['('] + a + seq![')']) =~= t
            + " = "@ + t + (seq![' '] + op + seq![' ']) + "("@ + a + ")"@);
    }
    match operation {
        UpdateOp::Add => assert(seq![' '] + op + seq![' '] =~= " + "@),
        UpdateOp::Subtract => assert(seq![' '] + op + seq![' '] =~= " - "@),
        UpdateOp::Multiply => assert(seq![' '] + op + seq![' '] =~= " * "@),
        UpdateOp::Divide => assert(seq![' '] + op + seq![' '] =~= " / "@),
    }
}

} // verus!

verus! {

/// The Python symbol of a comparison, spaces around it.
pub open spec fn comparison_symbol(operator: CompareOp) -> Seq<char> {
    match operator {
        CompareOp::Equal => " == "@,
        CompareOp::Greater => " > "@,
        CompareOp::Less => " < "@,
        CompareOp::LessOrEqual => " <= "@,
        CompareOp::GreaterOrEqual => " >= "@,
        CompareOp::Contains => " in "@,
    }
}

/// A comparison writes its own operator between its two sides, except that
/// `contains` puts the member first (`right in left`). Negating it asks the
/// opposite: `!=` for equality, `not in` for containment, and `not (..)`
/// around any other comparison. A negated truth test is `not (..)` too, and
/// `and` / `or` join their two conditions in parentheses.
pub proof fn law_a_condition_writes_its_own_operator(condition: Condition, s: Seq<char>)
    ensures
        match condition {
            Condition::Compare { left, operator, right, negated } => {
                let l = condition_value_text(left, s);
                let r = condition_value_text(right, s);
                let plain = if operator == CompareOp::Contains {
                    r + " in "@ + l
                } else {
                    l + comparison_symbol(operator) + r
                };
                &&& !negated ==> condition_text(condition, s) == plain
                &&& negated && operator == CompareOp::Equal ==> condition_text(condition, s) == l
                    + " != "@ + r
                &&& negated && operator == CompareOp::Contains ==> condition_text(condition, s) == r
                    + " not in "@ + l
                &&& negated && operator != CompareOp::Equal && operator != CompareOp::Contains
                    ==> condition_text(condition, s) == "not ("@ + plain + ")"@
            },
            Condition::Truthy { value, negated } => negated ==> condition_text(condition, s)
                == "not ("@ + condition_value_text(value, s) + ")"@,
            Condition::Logical { left, operator, right } => condition_text(condition, s) == "("@
                + condition_text(*left, s) + (match operator {
                LogicalOp::And => " and "@,
                LogicalOp::Or => " or "@,
            }) + condition_text(*right, s) + ")"@,
            Condition::Python(code) => condition_text(condition, s) == code_text(code, s),
        },
{
    reveal_strlit("(");
    reveal_strlit(")");
    reveal_strlit("not (");
    reveal_strlit(" == ");
    reveal_strlit(" > ");
    reveal_strlit(" < ");
    reveal_strlit(" <= ");
    reveal_strlit(" >= ");
    reveal_strlit(" in ");
    reveal_strlit("==");
    reveal_strlit(">");
    reveal_strlit("<");
    reveal_strlit("<=");
    reveal_strlit(">=");
    reveal_strlit("in");
    match condition {
        Condition::Compare { left, operator, right, negated } => {
            let l = condition_value_text(left, s);
            let r = condition_value_text(right, s);
            let sym = compare_op_text(operator);
            assert(seq![' '] + sym + seq![' '] =~= comparison_symbol(operator));
            assert(l + seq![' '] + sym + seq![' '] + r =~= l + (seq![' '] + sym + seq![' ']) + r);
            assert("not ("@ + l + seq![' '] + sym + seq![' '] + r + seq![')'] =~= "not ("@ + (l
                + (seq![' '] + sym + seq![' ']) + r) + ")"@);
        },
        Condition::Truthy { value, negated } => {},
        Condition::Logical { left, operator, right } => {},
        Condition::Python(code) => {},
    }
}

} // verus!
