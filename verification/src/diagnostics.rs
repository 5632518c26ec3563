//! Beginner-friendly diagnostics.
//!
//! NME's audience is people who find Python intimidating, so an error
//! message must answer three questions in plain language:
//!
//! 1. *What* is wrong?  (`message`)
//! 2. *Where* exactly?  (`span`, rendered as a caret under the source line)
//! 3. *What should I try instead?*  (`hint`)
//!
//! Diagnostics are plain data. Rendering is separated from reporting so the
//! command line (and future tools, e.g. an LSP server) can present them
//! differently without touching the compiler.
use vstd::prelude::*;

use crate::text::{
    bytes_of, char_bytes, char_len_utf8, chars_before, chars_of, decimal, decimal_len, digit_char,
    lemma_bytes_concat, lemma_bytes_push, lemma_char_bytes, lemma_chars_before,
    lemma_chars_before_bounds, lemma_offset_monotonic, lemma_offset_step, offset_of, push,
    push_decimal, push_repeated, same_chars,
};

verus! {

/// How many columns a tab advances to: the next multiple of this.
pub const TAB_WIDTH: usize = 4;

/// A byte range in the source text (`start..end`, end exclusive).
#[derive(Debug, Clone, Copy, PartialEq, Eq, Structural)]
pub struct Span {
    pub start: usize,
    pub end: usize,
}

impl Span {
    pub fn new(start: usize, end: usize) -> (span: Self)
        ensures
            span.start == start,
            span.end == end,
    {
        Self { start, end }
    }

    pub fn len(self) -> (length: usize)
        requires
            self.start <= self.end,
        ensures
            length == self.end - self.start,
    {
        self.end - self.start
    }

    pub fn is_empty(self) -> (empty: bool)
        ensures
            empty <==> self.start == self.end,
    {
        self.start == self.end
    }
}

/// A code written out: `E` and four digits, so `204` is `E0204`.
pub open spec fn code_text(n: nat) -> Seq<char> {
    seq!['E', digit_char(n / 1000 % 10), digit_char(n / 100 % 10), digit_char(n / 10 % 10), digit_char(n % 10)]
}

/// The code that is written as this text, if one is.
pub open spec fn lookup_code(text: Seq<char>) -> Option<DiagnosticCode> {
    if exists|code: DiagnosticCode| code.spec_code() == text {
        Some(choose|code: DiagnosticCode| code.spec_code() == text)
    } else {
        None
    }
}

/// Where each code stands in [`DiagnosticCode::ALL`].
pub open spec fn position_in_all(code: DiagnosticCode) -> int {
    match code {
        DiagnosticCode::UnrecognizedInput => 0,
        DiagnosticCode::StrayEnd => 1,
        DiagnosticCode::BreakOutsideLoop => 2,
        DiagnosticCode::BranchWithoutCondition => 3,
        DiagnosticCode::DuplicateElse => 4,
        DiagnosticCode::MissingEnd => 5,
        DiagnosticCode::ContinueOutsideLoop => 6,
        DiagnosticCode::SayValueBroken => 7,
        DiagnosticCode::SayValueUnparseable => 8,
        DiagnosticCode::SaySentenceUnparseable => 9,
        DiagnosticCode::SayMissing => 10,
        DiagnosticCode::AskQuestionMissing => 11,
        DiagnosticCode::AskQuestionUnparseable => 12,
        DiagnosticCode::AskTargetInvalid => 13,
        DiagnosticCode::UpdateUnparseable => 14,
        DiagnosticCode::BreakCommandUnparseable => 15,
        DiagnosticCode::ConditionMissing => 16,
        DiagnosticCode::ConditionInvalid => 17,
        DiagnosticCode::RepeatBodyUnparseable => 18,
        DiagnosticCode::RepeatCountUnparseable => 19,
        DiagnosticCode::RepeatCountMissing => 20,
        DiagnosticCode::UnsupportedModule => 21,
        DiagnosticCode::LatestAndVersion => 22,
        DiagnosticCode::ModuleVersionMissing => 23,
        DiagnosticCode::UnbundledVersion => 24,
        DiagnosticCode::ModuleNameCollision => 25,
        DiagnosticCode::ModuleShapeInvalid => 26,
        DiagnosticCode::SaveValueMissing => 27,
        DiagnosticCode::SaveValueUnparseable => 28,
        DiagnosticCode::SaveNameMissing => 29,
        DiagnosticCode::SaveNameNotSimple => 30,
        DiagnosticCode::IndentationRequired => 31,
        DiagnosticCode::ColonRequired => 32,
        DiagnosticCode::BlockWithoutStatement => 33,
        DiagnosticCode::OneStatementPerLine => 34,
        DiagnosticCode::BodyUnparseable => 35,
        DiagnosticCode::AmbiguousAction => 36,
        DiagnosticCode::MissingAction => 37,
        DiagnosticCode::MultilineSentence => 38,
        DiagnosticCode::ConvertInvalidPython => 39,
        DiagnosticCode::CliUnknownCommand => 40,
        DiagnosticCode::CliModulesExtraArgument => 41,
        DiagnosticCode::CliInvalidOptionValue => 42,
        DiagnosticCode::CliUnknownOption => 43,
        DiagnosticCode::CliUnexpectedExtraFile => 44,
        DiagnosticCode::CliConvertNeedsFile => 45,
        DiagnosticCode::CliFileReadFailed => 46,
        DiagnosticCode::CliFileWriteFailed => 47,
        DiagnosticCode::CliRefuseOverwrite => 48,
        DiagnosticCode::CliNativeCompileFailed => 49,
        DiagnosticCode::CliNativeCompileStartFailed => 50,
        DiagnosticCode::CliCpythonValidationFailed => 51,
        DiagnosticCode::CliPythonStartFailed => 52,
        DiagnosticCode::CliFolderNotProgram => 53,
        DiagnosticCode::CliMissingProgram => 54,
        DiagnosticCode::CliFolderReadFailed => 55,
        DiagnosticCode::CliNoProgramHere => 56,
        DiagnosticCode::CliPickAnswerUnreadable => 57,
        DiagnosticCode::CliEmptyPickAnswer => 58,
        DiagnosticCode::CliInvalidPickAnswer => 59,
        DiagnosticCode::CliAmbiguousPickAnswer => 60,
        DiagnosticCode::CliAmbiguousProgramPrefix => 61,
        DiagnosticCode::CliErrorLookupInvalidArgs => 62,
        DiagnosticCode::CliErrorLookupUnknownCode => 63,
        DiagnosticCode::CliPackageInstallFailed => 64,
        DiagnosticCode::CliNativeRunFailed => 65,
        DiagnosticCode::CliTempFolderFailed => 66,
        DiagnosticCode::CliModuleNameCollision => 67,
        DiagnosticCode::CliCompileImportsUnsupported => 68,
        DiagnosticCode::CliInstallNeedsPackage => 69,
    }
}

/// A stable error code. Codes are assigned once and never reused; new
/// diagnostics append new codes so `nme ko <CODE>` lookups stay valid.
#[derive(Debug, Clone, Copy, PartialEq, Eq, Structural)]
pub enum DiagnosticCode {
    /// The input is neither valid Python nor an NME form the parser knows.
    UnrecognizedInput,
    /// A whole-statement `end`/`끝` with no open NME block.
    StrayEnd,
    /// `break` outside a loop.
    BreakOutsideLoop,
    /// `else`/`elif`/`아니면` with no open condition block.
    BranchWithoutCondition,
    /// A second `else` in one condition.
    DuplicateElse,
    /// A block that never got its closing `end`/`끝`.
    MissingEnd,
    /// `continue` outside a loop.
    ContinueOutsideLoop,
    /// `say` value could not be understood.
    SayValueBroken,
    /// `say` expression is not valid.
    SayValueUnparseable,
    /// The sentence to show could not be understood.
    SaySentenceUnparseable,
    /// `say` with nothing to show.
    SayMissing,
    /// `ask ..., ` with an empty question.
    AskQuestionMissing,
    /// The question itself could not be understood.
    AskQuestionUnparseable,
    /// `ask` target is not a usable variable name.
    AskTargetInvalid,
    /// A value change (`x add 1`) could not be understood.
    UpdateUnparseable,
    /// A sentence `break` command could not be understood.
    BreakCommandUnparseable,
    /// `if`/`while`/`만약` with no condition.
    ConditionMissing,
    /// The condition could not be understood.
    ConditionInvalid,
    /// `times` body could not be understood.
    RepeatBodyUnparseable,
    /// `times` count could not be understood.
    RepeatCountUnparseable,
    /// `times` with no count.
    RepeatCountMissing,
    /// `use` line asks for a module NME does not bundle.
    UnsupportedModule,
    /// `use random latest` and an exact version on one line.
    LatestAndVersion,
    /// `use random version` with no version value.
    ModuleVersionMissing,
    /// A version number NME does not bundle.
    UnbundledVersion,
    /// A `use` module would overwrite existing names.
    ModuleNameCollision,
    /// The `use` line shape is not understood.
    ModuleShapeInvalid,
    /// `set`/`save` with no value.
    SaveValueMissing,
    /// The value to save could not be understood.
    SaveValueUnparseable,
    /// `set`/`save` with no target name.
    SaveNameMissing,
    /// The save target is not a simple variable name.
    SaveNameNotSimple,
    /// A repeated block body without indentation.
    IndentationRequired,
    /// An inline condition without `:`.
    ColonRequired,
    /// A block that starts without a statement.
    BlockWithoutStatement,
    /// More than one statement on one physical line.
    OneStatementPerLine,
    /// The block body is not a statement the parser knows.
    BodyUnparseable,
    /// The sentence could mean more than one action.
    AmbiguousAction,
    /// No known action found on the line.
    MissingAction,
    /// A sentence-style statement across several physical lines.
    MultilineSentence,
    /// The Python source given to the converter is not valid.
    ConvertInvalidPython,
    // E9xxx codes describe CLI-level problems (bad arguments, missing files,
    // Python/Nuitka startup). They never appear on a `Diagnostic` span; the
    // `nme ko`/`nme en` lookup shares one registry for both kinds.
    /// An unknown command word.
    CliUnknownCommand,
    /// `modules` was given an extra argument.
    CliModulesExtraArgument,
    /// An option is missing its value or got an invalid one.
    CliInvalidOptionValue,
    /// An unrecognized option flag.
    CliUnknownOption,
    /// More than one file argument.
    CliUnexpectedExtraFile,
    /// `convert` needs a file to convert.
    CliConvertNeedsFile,
    /// A file could not be read.
    CliFileReadFailed,
    /// A file could not be written.
    CliFileWriteFailed,
    /// The build output already exists.
    CliRefuseOverwrite,
    /// The native compiler reported a failure.
    CliNativeCompileFailed,
    /// The native compiler could not be started.
    CliNativeCompileStartFailed,
    /// CPython rejected the generated Python.
    CliCpythonValidationFailed,
    /// The Python command could not be started.
    CliPythonStartFailed,
    /// The argument is a folder, not a program.
    CliFolderNotProgram,
    /// The program file does not exist.
    CliMissingProgram,
    /// The current folder could not be read.
    CliFolderReadFailed,
    /// No `.nme` program exists in the current folder.
    CliNoProgramHere,
    /// The numbered-pick answer could not be read.
    CliPickAnswerUnreadable,
    /// The numbered-pick answer was empty.
    CliEmptyPickAnswer,
    /// The numbered-pick answer is not one of the programs.
    CliInvalidPickAnswer,
    /// The numbered-pick answer matches several programs.
    CliAmbiguousPickAnswer,
    /// A typed program name matches several `.nme` files.
    CliAmbiguousProgramPrefix,
    /// The error-lookup command got more than one code.
    CliErrorLookupInvalidArgs,
    /// The error-lookup command got a code that does not exist.
    CliErrorLookupUnknownCode,
    /// pip could not install a package.
    CliPackageInstallFailed,
    /// The native program could not be started.
    CliNativeRunFailed,
    /// A temporary working folder could not be created.
    CliTempFolderFailed,
    /// Two imported modules have the same name.
    CliModuleNameCollision,
    /// `nme compile` does not support module imports.
    CliCompileImportsUnsupported,
    /// The package name is missing.
    CliInstallNeedsPackage,
}

/// The number a code is written with: `E0204` is 204.
pub open spec fn code_number(code: DiagnosticCode) -> nat {
    match code {
        DiagnosticCode::UnrecognizedInput => 1,
        DiagnosticCode::StrayEnd => 101,
        DiagnosticCode::BreakOutsideLoop => 102,
        DiagnosticCode::BranchWithoutCondition => 103,
        DiagnosticCode::DuplicateElse => 104,
        DiagnosticCode::MissingEnd => 105,
        DiagnosticCode::ContinueOutsideLoop => 107,
        DiagnosticCode::SayValueBroken => 201,
        DiagnosticCode::SayValueUnparseable => 202,
        DiagnosticCode::SaySentenceUnparseable => 203,
        DiagnosticCode::SayMissing => 204,
        DiagnosticCode::AskQuestionMissing => 211,
        DiagnosticCode::AskQuestionUnparseable => 212,
        DiagnosticCode::AskTargetInvalid => 213,
        DiagnosticCode::UpdateUnparseable => 221,
        DiagnosticCode::BreakCommandUnparseable => 222,
        DiagnosticCode::ConditionMissing => 301,
        DiagnosticCode::ConditionInvalid => 302,
        DiagnosticCode::RepeatBodyUnparseable => 303,
        DiagnosticCode::RepeatCountUnparseable => 304,
        DiagnosticCode::RepeatCountMissing => 305,
        DiagnosticCode::UnsupportedModule => 401,
        DiagnosticCode::LatestAndVersion => 402,
        DiagnosticCode::ModuleVersionMissing => 403,
        DiagnosticCode::UnbundledVersion => 404,
        DiagnosticCode::ModuleNameCollision => 405,
        DiagnosticCode::ModuleShapeInvalid => 406,
        DiagnosticCode::SaveValueMissing => 411,
        DiagnosticCode::SaveValueUnparseable => 412,
        DiagnosticCode::SaveNameMissing => 413,
        DiagnosticCode::SaveNameNotSimple => 414,
        DiagnosticCode::IndentationRequired => 501,
        DiagnosticCode::ColonRequired => 502,
        DiagnosticCode::BlockWithoutStatement => 503,
        DiagnosticCode::OneStatementPerLine => 504,
        DiagnosticCode::BodyUnparseable => 505,
        DiagnosticCode::AmbiguousAction => 601,
        DiagnosticCode::MissingAction => 602,
        DiagnosticCode::MultilineSentence => 701,
        DiagnosticCode::ConvertInvalidPython => 702,
        DiagnosticCode::CliUnknownCommand => 9001,
        DiagnosticCode::CliModulesExtraArgument => 9002,
        DiagnosticCode::CliInvalidOptionValue => 9003,
        DiagnosticCode::CliUnknownOption => 9004,
        DiagnosticCode::CliUnexpectedExtraFile => 9005,
        DiagnosticCode::CliConvertNeedsFile => 9006,
        DiagnosticCode::CliFileReadFailed => 9007,
        DiagnosticCode::CliFileWriteFailed => 9008,
        DiagnosticCode::CliRefuseOverwrite => 9009,
        DiagnosticCode::CliNativeCompileFailed => 9010,
        DiagnosticCode::CliNativeCompileStartFailed => 9011,
        DiagnosticCode::CliCpythonValidationFailed => 9012,
        DiagnosticCode::CliPythonStartFailed => 9013,
        DiagnosticCode::CliFolderNotProgram => 9014,
        DiagnosticCode::CliMissingProgram => 9015,
        DiagnosticCode::CliFolderReadFailed => 9016,
        DiagnosticCode::CliNoProgramHere => 9017,
        DiagnosticCode::CliPickAnswerUnreadable => 9018,
        DiagnosticCode::CliEmptyPickAnswer => 9019,
        DiagnosticCode::CliInvalidPickAnswer => 9020,
        DiagnosticCode::CliAmbiguousPickAnswer => 9021,
        DiagnosticCode::CliAmbiguousProgramPrefix => 9022,
        DiagnosticCode::CliErrorLookupInvalidArgs => 9023,
        DiagnosticCode::CliErrorLookupUnknownCode => 9024,
        DiagnosticCode::CliPackageInstallFailed => 9025,
        DiagnosticCode::CliNativeRunFailed => 9026,
        DiagnosticCode::CliTempFolderFailed => 9027,
        DiagnosticCode::CliModuleNameCollision => 9028,
        DiagnosticCode::CliCompileImportsUnsupported => 9029,
        DiagnosticCode::CliInstallNeedsPackage => 9030,
    }
}

/// The code a number stands for, when it stands for one.
pub open spec fn code_with_number(n: nat) -> Option<DiagnosticCode> {
    if n == 1 {
        Some(DiagnosticCode::UnrecognizedInput)
    }
    else if n == 101 {
        Some(DiagnosticCode::StrayEnd)
    }
    else if n == 102 {
        Some(DiagnosticCode::BreakOutsideLoop)
    }
    else if n == 103 {
        Some(DiagnosticCode::BranchWithoutCondition)
    }
    else if n == 104 {
        Some(DiagnosticCode::DuplicateElse)
    }
    else if n == 105 {
        Some(DiagnosticCode::MissingEnd)
    }
    else if n == 107 {
        Some(DiagnosticCode::ContinueOutsideLoop)
    }
    else if n == 201 {
        Some(DiagnosticCode::SayValueBroken)
    }
    else if n == 202 {
        Some(DiagnosticCode::SayValueUnparseable)
    }
    else if n == 203 {
        Some(DiagnosticCode::SaySentenceUnparseable)
    }
    else if n == 204 {
        Some(DiagnosticCode::SayMissing)
    }
    else if n == 211 {
        Some(DiagnosticCode::AskQuestionMissing)
    }
    else if n == 212 {
        Some(DiagnosticCode::AskQuestionUnparseable)
    }
    else if n == 213 {
        Some(DiagnosticCode::AskTargetInvalid)
    }
    else if n == 221 {
        Some(DiagnosticCode::UpdateUnparseable)
    }
    else if n == 222 {
        Some(DiagnosticCode::BreakCommandUnparseable)
    }
    else if n == 301 {
        Some(DiagnosticCode::ConditionMissing)
    }
    else if n == 302 {
        Some(DiagnosticCode::ConditionInvalid)
    }
    else if n == 303 {
        Some(DiagnosticCode::RepeatBodyUnparseable)
    }
    else if n == 304 {
        Some(DiagnosticCode::RepeatCountUnparseable)
    }
    else if n == 305 {
        Some(DiagnosticCode::RepeatCountMissing)
    }
    else if n == 401 {
        Some(DiagnosticCode::UnsupportedModule)
    }
    else if n == 402 {
        Some(DiagnosticCode::LatestAndVersion)
    }
    else if n == 403 {
        Some(DiagnosticCode::ModuleVersionMissing)
    }
    else if n == 404 {
        Some(DiagnosticCode::UnbundledVersion)
    }
    else if n == 405 {
        Some(DiagnosticCode::ModuleNameCollision)
    }
    else if n == 406 {
        Some(DiagnosticCode::ModuleShapeInvalid)
    }
    else if n == 411 {
        Some(DiagnosticCode::SaveValueMissing)
    }
    else if n == 412 {
        Some(DiagnosticCode::SaveValueUnparseable)
    }
    else if n == 413 {
        Some(DiagnosticCode::SaveNameMissing)
    }
    else if n == 414 {
        Some(DiagnosticCode::SaveNameNotSimple)
    }
    else if n == 501 {
        Some(DiagnosticCode::IndentationRequired)
    }
    else if n == 502 {
        Some(DiagnosticCode::ColonRequired)
    }
    else if n == 503 {
        Some(DiagnosticCode::BlockWithoutStatement)
    }
    else if n == 504 {
        Some(DiagnosticCode::OneStatementPerLine)
    }
    else if n == 505 {
        Some(DiagnosticCode::BodyUnparseable)
    }
    else if n == 601 {
        Some(DiagnosticCode::AmbiguousAction)
    }
    else if n == 602 {
        Some(DiagnosticCode::MissingAction)
    }
    else if n == 701 {
        Some(DiagnosticCode::MultilineSentence)
    }
    else if n == 702 {
        Some(DiagnosticCode::ConvertInvalidPython)
    }
    else if n == 9001 {
        Some(DiagnosticCode::CliUnknownCommand)
    }
    else if n == 9002 {
        Some(DiagnosticCode::CliModulesExtraArgument)
    }
    else if n == 9003 {
        Some(DiagnosticCode::CliInvalidOptionValue)
    }
    else if n == 9004 {
        Some(DiagnosticCode::CliUnknownOption)
    }
    else if n == 9005 {
        Some(DiagnosticCode::CliUnexpectedExtraFile)
    }
    else if n == 9006 {
        Some(DiagnosticCode::CliConvertNeedsFile)
    }
    else if n == 9007 {
        Some(DiagnosticCode::CliFileReadFailed)
    }
    else if n == 9008 {
        Some(DiagnosticCode::CliFileWriteFailed)
    }
    else if n == 9009 {
        Some(DiagnosticCode::CliRefuseOverwrite)
    }
    else if n == 9010 {
        Some(DiagnosticCode::CliNativeCompileFailed)
    }
    else if n == 9011 {
        Some(DiagnosticCode::CliNativeCompileStartFailed)
    }
    else if n == 9012 {
        Some(DiagnosticCode::CliCpythonValidationFailed)
    }
    else if n == 9013 {
        Some(DiagnosticCode::CliPythonStartFailed)
    }
    else if n == 9014 {
        Some(DiagnosticCode::CliFolderNotProgram)
    }
    else if n == 9015 {
        Some(DiagnosticCode::CliMissingProgram)
    }
    else if n == 9016 {
        Some(DiagnosticCode::CliFolderReadFailed)
    }
    else if n == 9017 {
        Some(DiagnosticCode::CliNoProgramHere)
    }
    else if n == 9018 {
        Some(DiagnosticCode::CliPickAnswerUnreadable)
    }
    else if n == 9019 {
        Some(DiagnosticCode::CliEmptyPickAnswer)
    }
    else if n == 9020 {
        Some(DiagnosticCode::CliInvalidPickAnswer)
    }
    else if n == 9021 {
        Some(DiagnosticCode::CliAmbiguousPickAnswer)
    }
    else if n == 9022 {
        Some(DiagnosticCode::CliAmbiguousProgramPrefix)
    }
    else if n == 9023 {
        Some(DiagnosticCode::CliErrorLookupInvalidArgs)
    }
    else if n == 9024 {
        Some(DiagnosticCode::CliErrorLookupUnknownCode)
    }
    else if n == 9025 {
        Some(DiagnosticCode::CliPackageInstallFailed)
    }
    else if n == 9026 {
        Some(DiagnosticCode::CliNativeRunFailed)
    }
    else if n == 9027 {
        Some(DiagnosticCode::CliTempFolderFailed)
    }
    else if n == 9028 {
        Some(DiagnosticCode::CliModuleNameCollision)
    }
    else if n == 9029 {
        Some(DiagnosticCode::CliCompileImportsUnsupported)
    }
    else if n == 9030 {
        Some(DiagnosticCode::CliInstallNeedsPackage)
    }
    else {
        None
    }
}

/// The long-form explanation page of each code, exactly as `nme ko` and
/// `nme en` print it.
pub open spec fn explanation_of(code: DiagnosticCode) -> CodeExplanation {
    match code {
        DiagnosticCode::UnrecognizedInput => CodeExplanation {
            code: "E0001",
            title_en: "this line is not valid Python or NME",
            title_ko: "이 줄은 올바른 Python도 NME도 아닙니다",
            detail_en: "NME first checks whether a line is ordinary Python; then it looks for known NME forms. This line is neither. Check for a missing quote or bracket, or for an unfinished sentence.",
            detail_ko: "NME는 먼저 줄이 일반 Python인지 확인하고, 그다음 알고 있는 NME 형식을 찾습니다. 이 줄은 둘 다 아닙니다. 따옴표나 괄호가 빠졌는지, 문장이 끝나지 않았는지 확인하세요.",
        },
        DiagnosticCode::StrayEnd => CodeExplanation {
            code: "E0101",
            title_en: "an `end` with no open block",
            title_ko: "열린 블록이 없는 `끝`",
            detail_en: "Every `end` (or `끝`) must close a block that is still open. This one appears after every block has already been closed, or before any block started.",
            detail_ko: "모든 `end`(`끝`)는 아직 열려 있는 블록을 닫아야 합니다. 여기의 `끝`은 모든 블록이 이미 닫힌 뒤이거나, 블록이 시작되기 전에 나왔습니다.",
        },
        DiagnosticCode::BreakOutsideLoop => CodeExplanation {
            code: "E0102",
            title_en: "`break` outside a loop",
            title_ko: "반복문 밖의 `break`",
            detail_en: "`break` (or `멈춰`) stops the nearest loop, so it can only be written inside a `while`/`repeat` block or a Python loop. Move it inside the loop, or remove it.",
            detail_ko: "`break`(`멈춰`)는 가장 가까운 반복문을 멈추므로 `while`/`repeat` 블록이나 Python 반복문 안에서만 쓸 수 있습니다. 반복문 안으로 옮기거나 지우세요.",
        },
        DiagnosticCode::BranchWithoutCondition => CodeExplanation {
            code: "E0103",
            title_en: "an `else` or `elif` with no open condition",
            title_ko: "열린 조건이 없는 `아니면`",
            detail_en: "`else`, `else if`, `elif`, `아니면` are branches of an `if` (or `만약`) block. Write the `if` line first and keep the `else` inside the same block, before its `end`.",
            detail_ko: "`else`, `else if`, `elif`, `아니면`은 `if`(`만약`) 블록의 가지입니다. 먼저 `if` 줄을 쓰고, `else`는 같은 블록 안에서 `끝`보다 앞에 두세요.",
        },
        DiagnosticCode::DuplicateElse => CodeExplanation {
            code: "E0104",
            title_en: "two `else` branches in one condition",
            title_ko: "한 조건에 `else`가 두 번",
            detail_en: "A condition can only have one `else` (or `아니면`) branch. Turn the second one into an `else if`/`elif`/`아니면 만약에` branch instead.",
            detail_ko: "조건에는 `else`(`아니면`) 가지가 하나만 올 수 있습니다. 두 번째는 `else if`/`elif`/`아니면 만약에` 가지로 바꾸세요.",
        },
        DiagnosticCode::MissingEnd => CodeExplanation {
            code: "E0105",
            title_en: "a block without its closing `end`",
            title_ko: "닫는 `end`가 없는 블록",
            detail_en: "This loop or condition block is still open at the end of the file. Add a closing `end` (or `끝`) line after the block's last line.",
            detail_ko: "이 반복문·조건 블록이 파일 끝까지 열려 있습니다. 블록의 마지막 줄 뒤에 닫는 `end`(`끝`) 줄을 추가하세요.",
        },
        DiagnosticCode::ContinueOutsideLoop => CodeExplanation {
            code: "E0107",
            title_en: "`continue` outside a loop",
            title_ko: "반복문 밖의 `continue`",
            detail_en: "`continue` ends this round of the nearest loop and starts the next one, so it can only be written inside a `while`/`repeat` block or a Python loop. Move it inside the loop, or remove it.",
            detail_ko: "`continue`는 가장 가까운 반복문의 이번 회차를 끝내고 다음 회차로 넘어가라는 말이므로 `while`/`repeat` 블록이나 Python 반복문 안에서만 쓸 수 있습니다. 반복문 안으로 옮기거나 지우세요.",
        },
        DiagnosticCode::SayValueBroken => CodeExplanation {
            code: "E0201",
            title_en: "`say` value could not be understood",
            title_ko: "`say`의 값을 이해하지 못했습니다",
            detail_en: "After `say` (or `말해`) NME expects a value to show: text, a number, a known variable, or a simple expression. The words here do not form any of those.",
            detail_ko: "`say`(`말해`) 뒤에는 보여 줄 값이 와야 합니다: 글자, 숫자, 알고 있는 변수, 또는 간단한 식. 여기의 단어들은 그 중 어떤 형태도 아닙니다.",
        },
        DiagnosticCode::SayValueUnparseable => CodeExplanation {
            code: "E0202",
            title_en: "the `say` expression is not valid",
            title_ko: "`say`의 식이 올바르지 않습니다",
            detail_en: "The value after `say` is a name or expression Python cannot read. Check for missing quotes around text and correct variable names.",
            detail_ko: "`say` 뒤의 값은 Python이 읽지 못하는 이름이나 식입니다. 글자 주변의 따옴표와 변수 이름을 확인하세요.",
        },
        DiagnosticCode::SaySentenceUnparseable => CodeExplanation {
            code: "E0203",
            title_en: "the sentence to show is not valid",
            title_ko: "보여 줄 문장이 올바르지 않습니다",
            detail_en: "NME could not turn this sentence into something Python can print. Known variable names can be mixed into the sentence; everything else must be plain text.",
            detail_ko: "NME가 이 문장을 Python으로 출력할 수 있는 형태로 바꾸지 못했습니다. 알고 있는 변수 이름은 문장에 섞일 수 있고, 나머지는 일반 글자여야 합니다.",
        },
        DiagnosticCode::SayMissing => CodeExplanation {
            code: "E0204",
            title_en: "`say` has nothing to show",
            title_ko: "`say`에 보여 줄 내용이 없습니다",
            detail_en: "`say` (or `말해`) needs something after it. Write `say Hello` or `say \"Hello\"`.",
            detail_ko: "`say`(`말해`) 뒤에 내용이 필요합니다. `say Hello` 또는 `say \"Hello\"`처럼 적으세요.",
        },
        DiagnosticCode::AskQuestionMissing => CodeExplanation {
            code: "E0211",
            title_en: "the question after the comma is missing",
            title_ko: "쉼표 뒤의 질문이 비어 있습니다",
            detail_en: "An `ask` with a comma needs a question after it: `ask name, What is your name?`. Add the question or remove the comma.",
            detail_ko: "쉼표가 있는 `ask`는 뒤에 질문이 필요합니다: `ask name, What is your name?`. 질문을 추가하거나 쉼표를 지우세요.",
        },
        DiagnosticCode::AskQuestionUnparseable => CodeExplanation {
            code: "E0212",
            title_en: "the question could not be understood",
            title_ko: "질문을 이해하지 못했습니다",
            detail_en: "NME could not turn this `ask` question into something Python can print. Keep it as plain text, optionally with a known variable name.",
            detail_ko: "NME가 이 `ask` 질문을 Python으로 출력할 수 있는 형태로 바꾸지 못했습니다. 일반 글자로 쓰고, 원하면 알고 있는 변수 이름을 섞으세요.",
        },
        DiagnosticCode::AskTargetInvalid => CodeExplanation {
            code: "E0213",
            title_en: "the `ask` target is not a variable name",
            title_ko: "`ask`의 대상이 변수 이름이 아닙니다",
            detail_en: "`ask name, ...` saves the answer into `name`. Write a simple variable name there (letters and numbers, starting with a letter), not a sentence or a keyword.",
            detail_ko: "`ask name, ...`는 답을 `name`에 저장합니다. 문장이나 키워드가 아니라 간단한 변수 이름(문자로 시작하는 문자·숫자 조합)을 적으세요.",
        },
        DiagnosticCode::UpdateUnparseable => CodeExplanation {
            code: "E0221",
            title_en: "the value change could not be understood",
            title_ko: "값 변경을 이해하지 못했습니다",
            detail_en: "A value change looks like `score add 1` or `점수에 1 더해` or `점수는 점수 + 1`. Check the target name, the action word, and the amount.",
            detail_ko: "값 변경은 `score add 1`, `점수에 1 더해`, `점수는 점수 + 1` 같은 형태입니다. 대상 이름, 동작 단어, 그리고 값이 맞는지 확인하세요.",
        },
        DiagnosticCode::BreakCommandUnparseable => CodeExplanation {
            code: "E0222",
            title_en: "the break command could not be understood",
            title_ko: "break 명령을 이해하지 못했습니다",
            detail_en: "Inside a loop, write `break here`, `멈춰`, or just `break`. Nothing else belongs on that line.",
            detail_ko: "반복문 안에서 `break here`, `멈춰` 또는 그냥 `break`라고 쓰세요. 그 줄에는 다른 내용이 들어가지 않아야 합니다.",
        },
        DiagnosticCode::ConditionMissing => CodeExplanation {
            code: "E0301",
            title_en: "the condition is missing",
            title_ko: "조건이 비어 있습니다",
            detail_en: "`if`/`when`/`while`/`만약` needs a condition after it, for example `if score is greater than 10` or `만약 점수가 10보다 크면`.",
            detail_ko: "`if`/`when`/`while`/`만약` 뒤에는 조건이 필요합니다. 예: `if score is greater than 10`, `만약 점수가 10보다 크면`.",
        },
        DiagnosticCode::ConditionInvalid => CodeExplanation {
            code: "E0302",
            title_en: "the condition could not be understood",
            title_ko: "조건을 이해하지 못했습니다",
            detail_en: "NME could not read this condition. Use a comparison such as `is less than`, `equals`, `!=`, `보다 크면`, `와 같으면`, joined with `and`/`or` (`그리고`/`또는`).",
            detail_ko: "NME가 이 조건을 읽지 못했습니다. `is less than`, `equals`, `!=`, `보다 크면`, `와 같으면` 같은 비교를 `and`/`or`(`그리고`/`또는`)로 연결해 쓰세요.",
        },
        DiagnosticCode::RepeatBodyUnparseable => CodeExplanation {
            code: "E0303",
            title_en: "the repeated body could not be understood",
            title_ko: "반복할 내용을 이해하지 못했습니다",
            detail_en: "After `3 times:` (or `3 번:`) the body line must be an NME or Python statement. Write the body on its own indented line instead of sharing the header line.",
            detail_ko: "`3 times:`(`3 번:`) 뒤의 본문 줄은 NME 또는 Python 문장이어야 합니다. 헤더 줄에 함께 쓰지 말고 본문을 따로 들여쓴 줄에 쓰세요.",
        },
        DiagnosticCode::RepeatCountUnparseable => CodeExplanation {
            code: "E0304",
            title_en: "the repeat count could not be understood",
            title_ko: "반복 횟수를 이해하지 못했습니다",
            detail_en: "`N times:` needs a number for N, for example `3 times:` or `3 번:`. Words and expressions are not accepted here.",
            detail_ko: "`N times:`의 N 자리에는 숫자가 필요합니다. 예: `3 times:`, `3 번:`. 이 자리에 단어나 식은 쓸 수 없습니다.",
        },
        DiagnosticCode::RepeatCountMissing => CodeExplanation {
            code: "E0305",
            title_en: "the repeat count is missing",
            title_ko: "반복 횟수가 비어 있습니다",
            detail_en: "`times:` needs a count before the colon. Write the number of repetitions, for example `3 times: show Hello`.",
            detail_ko: "`times:`는 콜론 앞에 횟수가 필요합니다. 반복할 횟수를 적으세요. 예: `3 times: show Hello`.",
        },
        DiagnosticCode::UnsupportedModule => CodeExplanation {
            code: "E0401",
            title_en: "NME bundles `use random` and `use file`",
            title_ko: "NME에는 `랜덤 사용`과 `파일 사용`이 내장되어 있습니다",
            detail_en: "NME ships a small set of beginner modules: `random` (or `랜덤`) for dice and picks, and `file` (or `파일`) for reading, writing, and JSON. Anything else is a Python import: write `import name` on its own line.",
            detail_ko: "NME는 초보자용 모듈을 소수만 제공합니다: 주사위·선택용 `random`(`랜덤`)과 읽기·쓰기·JSON용 `file`(`파일`)입니다. 다른 것은 Python import로 쓸 수 있습니다: `import name`을 한 줄로 쓰세요.",
        },
        DiagnosticCode::LatestAndVersion => CodeExplanation {
            code: "E0402",
            title_en: "latest and an exact version on one line",
            title_ko: "최신과 정확한 버전을 함께 적었습니다",
            detail_en: "A `use random` line either asks for the newest bundled version (`use random latest`) or for one exact version (`use random version \"0.0.1\"`), never both.",
            detail_ko: "`use random` 줄은 내장 버전 중 최신(`use random latest`) 또는 정확한 버전 하나(`use random version \"0.0.1\"`) 중 하나만 요청할 수 있습니다. 둘은 함께 쓸 수 없습니다.",
        },
        DiagnosticCode::ModuleVersionMissing => CodeExplanation {
            code: "E0403",
            title_en: "the module version is missing",
            title_ko: "모듈 버전이 비어 있습니다",
            detail_en: "`use random version` needs a version number after it, for example `use random version \"0.0.1\"`.",
            detail_ko: "`use random version` 뒤에는 버전 번호가 필요합니다. 예: `use random version \"0.0.1\"`.",
        },
        DiagnosticCode::UnbundledVersion => CodeExplanation {
            code: "E0404",
            title_en: "this module version is not bundled",
            title_ko: "내장되어 있지 않은 모듈 버전입니다",
            detail_en: "NME only ships specific versions of `random`. Run `nme modules` to see the bundled version, then write `use random version \"<that version>\"` or simply `use random latest`.",
            detail_ko: "NME는 `random`의 특정 버전만 제공합니다. `nme 모듈`로 내장 버전을 확인한 뒤 `use random version \"<그 버전>\"` 또는 그냥 `use random latest`라고 쓰세요.",
        },
        DiagnosticCode::ModuleNameCollision => CodeExplanation {
            code: "E0405",
            title_en: "the module would overwrite your names",
            title_ko: "모듈이 기존 이름을 덮어씁니다",
            detail_en: "The bundled module needs helper names such as `random_number`, `랜덤선택`, `file_read`, and `파일읽기`. One of those names is already in use in this file. Rename your variable or import the module before using that name.",
            detail_ko: "내장 모듈은 `random_number`, `랜덤선택`, `file_read`, `파일읽기` 같은 도우미 이름을 사용합니다. 그 이름 중 하나가 이 파일에서 이미 쓰이고 있습니다. 변수 이름을 바꾸거나 그 이름을 쓰기 전에 모듈을 불러오세요.",
        },
        DiagnosticCode::ModuleShapeInvalid => CodeExplanation {
            code: "E0406",
            title_en: "the use line shape is not understood",
            title_ko: "use 줄의 형태를 이해하지 못했습니다",
            detail_en: "Write the module line as `use random` (or `랜덤 사용`), optionally with `latest` or `version \"0.0.1\"`. Other word orders are not accepted.",
            detail_ko: "모듈 줄은 `use random`(`랜덤 사용`) 형태로 쓰고, 원하면 `latest`나 `version \"0.0.1\"`를 붙이세요. 다른 단어 순서는 받아들이지 않습니다.",
        },
        DiagnosticCode::SaveValueMissing => CodeExplanation {
            code: "E0411",
            title_en: "the value to save is missing",
            title_ko: "저장할 값이 비어 있습니다",
            detail_en: "`set x to ...` (or `x은 ...`) needs a value after it: a number, text, or an expression. Add the value or remove the line.",
            detail_ko: "`set x to ...`(`x은 ...`) 뒤에는 값이 필요합니다: 숫자, 글자, 또는 식. 값을 추가하거나 줄을 지우세요.",
        },
        DiagnosticCode::SaveValueUnparseable => CodeExplanation {
            code: "E0412",
            title_en: "the value to save could not be understood",
            title_ko: "저장할 값을 이해하지 못했습니다",
            detail_en: "NME could not turn the saved value into a Python expression. Check quotes around text, number spelling, and known variable names.",
            detail_ko: "NME가 저장할 값을 Python 식으로 바꾸지 못했습니다. 글자의 따옴표, 숫자 표기, 변수 이름을 확인하세요.",
        },
        DiagnosticCode::SaveNameMissing => CodeExplanation {
            code: "E0413",
            title_en: "the name to save into is missing",
            title_ko: "저장할 이름이 비어 있습니다",
            detail_en: "`set x to 3` saves into `x`. Write a variable name after `set` (or before `은`/`는`).",
            detail_ko: "`set x to 3`은 `x`에 저장합니다. `set` 뒤(`은`/`는` 앞)에 변수 이름을 쓰세요.",
        },
        DiagnosticCode::SaveNameNotSimple => CodeExplanation {
            code: "E0414",
            title_en: "the save target is not a simple name",
            title_ko: "저장 대상이 단순한 이름이 아닙니다",
            detail_en: "NME can only save into a simple variable name (letters and numbers, starting with a letter). Attributes like `x.count` stay Python: write them as a Python line.",
            detail_ko: "NME는 간단한 변수 이름(문자로 시작하는 문자·숫자 조합)에만 저장할 수 있습니다. `x.count` 같은 속성은 Python 줄로 그대로 쓰세요.",
        },
        DiagnosticCode::IndentationRequired => CodeExplanation {
            code: "E0501",
            title_en: "the repeated block is not indented",
            title_ko: "반복할 블록이 들여쓰지 않았습니다",
            detail_en: "The body lines of `N times:` must be indented (press Tab or four spaces), or the block can use a sentence-level form with `end`/`끝`. NME never guesses which lines belong to the block.",
            detail_ko: "`N times:`의 본문 줄은 들여쓰기(Tab 또는 스페이스 4칸)해야 합니다. 또는 `end`/`끝`을 쓰는 문장형 블록을 사용하세요. NME는 어떤 줄이 블록에 속하는지 추측하지 않습니다.",
        },
        DiagnosticCode::ColonRequired => CodeExplanation {
            code: "E0502",
            title_en: "the condition needs a colon",
            title_ko: "조건 뒤에 콜론이 필요합니다",
            detail_en: "A beginner `if`/`while` header with no indented body needs `:` to stay valid Python, or use the sentence form that ends with `end`/`끝`.",
            detail_ko: "본문이 들여쓰기로 없는 초급형 `if`/`while` 헤더는 `:`가 있어야 올바른 Python이 됩니다. 또는 `end`/`끝`으로 끝나는 문장형을 쓰세요.",
        },
        DiagnosticCode::BlockWithoutStatement => CodeExplanation {
            code: "E0503",
            title_en: "a block that starts without a statement",
            title_ko: "문장 없이 시작하는 블록",
            detail_en: "A line like `if ...:` or `3 times:` must be followed by the statement it applies to. Write the body on the next line, or on the same line after a space.",
            detail_ko: "`if ...:`나 `3 times:` 같은 줄 뒤에는 적용할 문장이 와야 합니다. 다음 줄에 쓰거나, 한 칸 띄고 같은 줄에 쓰세요.",
        },
        DiagnosticCode::OneStatementPerLine => CodeExplanation {
            code: "E0504",
            title_en: "one statement per line",
            title_ko: "한 줄에 문장 하나",
            detail_en: "NME sentences must stay on one physical line. Split the line into two sentences or keep the Python version (`;` is Python, not NME).",
            detail_ko: "NME 문장은 한 줄에 하나여야 합니다. 두 문장으로 나누거나 Python 형태(`;`)로 쓰세요.",
        },
        DiagnosticCode::BodyUnparseable => CodeExplanation {
            code: "E0505",
            title_en: "the block body is not a statement NME knows",
            title_ko: "블록 본문이 NME가 아는 문장이 아닙니다",
            detail_en: "The indented body of this block is neither ordinary Python nor an NME form. Check the spelling of the sentence, or write it as Python.",
            detail_ko: "이 블록의 들여쓴 본문은 일반 Python도 NME 형식도 아닙니다. 문장 철자를 확인하거나 Python으로 쓰세요.",
        },
        DiagnosticCode::AmbiguousAction => CodeExplanation {
            code: "E0601",
            title_en: "the sentence could mean more than one action",
            title_ko: "여러 동작으로 해석될 수 있는 문장입니다",
            detail_en: "More than one NME action (say, ask, save, ...) fits this sentence, and NME never guesses. Rewrite the sentence with the action word spelled exactly, for example `say Hello`.",
            detail_ko: "이 문장에 여러 NME 동작(say, ask, 저장 등)이 맞을 수 있습니다. NME는 추측하지 않습니다. `say Hello`처럼 동작 단어를 정확히 적어 다시 쓰세요.",
        },
        DiagnosticCode::MissingAction => CodeExplanation {
            code: "E0602",
            title_en: "no NME action was found on this line",
            title_ko: "이 줄에서 NME 동작을 찾지 못했습니다",
            detail_en: "This line is not valid Python and does not start with a known NME action. Start with a documented action word such as `show`, `say`, `ask`, `말해`, `물어봐`, or write the line as Python.",
            detail_ko: "이 줄은 올바른 Python도 아니고 알려진 NME 동작으로 시작하지도 않습니다. `show`, `say`, `ask`, `말해`, `물어봐` 같은 문서에 있는 동작 단어로 시작하거나 Python으로 쓰세요.",
        },
        DiagnosticCode::MultilineSentence => CodeExplanation {
            code: "E0701",
            title_en: "a sentence-style line across several physical lines",
            title_ko: "여러 줄에 걸친 문장형 줄",
            detail_en: "NME sentences must fit on one physical line so error line numbers stay exact. Join the sentence into one line.",
            detail_ko: "오류 줄 번호를 정확히 유지하기 위해 NME 문장은 한 줄에 맞아야 합니다. 문장을 한 줄로 합치세요.",
        },
        DiagnosticCode::ConvertInvalidPython => CodeExplanation {
            code: "E0702",
            title_en: "the Python source is not valid",
            title_ko: "Python 소스가 올바르지 않습니다",
            detail_en: "`nme convert` only rewrites valid Python. Fix the syntax error shown in the message, then convert again.",
            detail_ko: "`nme 변환`은 올바른 Python만 변환합니다. 메시지에 표시된 문법 오류를 고친 뒤 다시 변환하세요.",
        },
        DiagnosticCode::CliUnknownCommand => CodeExplanation {
            code: "E9001",
            title_en: "unknown command",
            title_ko: "알 수 없는 명령",
            detail_en: "The first word of the command is not one NME knows. Run `nme help` (or `nme 도움`) for the command list; `nme r` runs the single .nme program in the current folder.",
            detail_ko: "명령의 첫 단어가 NME가 아는 명령이 아닙니다. `nme 도움`(`nme help`)으로 명령 목록을 보세요. 현재 폴더에 .nme 프로그램이 하나뿐이면 `nme r`만으로 실행할 수 있습니다.",
        },
        DiagnosticCode::CliModulesExtraArgument => CodeExplanation {
            code: "E9002",
            title_en: "`modules` takes no extra arguments",
            title_ko: "`모듈` 명령에는 추가 인자가 없습니다",
            detail_en: "`nme modules` only lists the bundled modules. Do not add a file name or option.",
            detail_ko: "`nme modules`는 내장 모듈 목록만 보여 줍니다. 파일 이름이나 옵션을 붙이지 마세요.",
        },
        DiagnosticCode::CliInvalidOptionValue => CodeExplanation {
            code: "E9003",
            title_en: "an option is missing its value",
            title_ko: "옵션 뒤에 값이 없습니다",
            detail_en: "Options like `--level`, `--language`, `-o`, and `--python` need a value right after them, for example `--python python3`. Read the value from the option that failed, or run `nme help`.",
            detail_ko: "`--level`, `--language`, `-o`, `--python` 같은 옵션은 바로 뒤에 값이 필요합니다. 예: `--python python3`. 오류가 난 옵션의 값을 확인하거나 `nme 도움`을 실행하세요.",
        },
        DiagnosticCode::CliUnknownOption => CodeExplanation {
            code: "E9004",
            title_en: "unknown option",
            title_ko: "알 수 없는 옵션",
            detail_en: "The option flag starting with `-` is not one NME knows. Run `nme help` for the supported options of each command.",
            detail_ko: "`-`로 시작하는 옵션이 NME가 아는 옵션이 아닙니다. `nme 도움`에서 각 명령의 지원 옵션을 확인하세요.",
        },
        DiagnosticCode::CliUnexpectedExtraFile => CodeExplanation {
            code: "E9005",
            title_en: "unexpected extra file",
            title_ko: "추가로 적힌 파일",
            detail_en: "These commands take one file. Remove the extra file name, or run the commands one at a time.",
            detail_ko: "이 명령은 파일 하나만 받습니다. 추가로 적은 파일을 지우거나, 명령을 하나씩 실행하세요.",
        },
        DiagnosticCode::CliConvertNeedsFile => CodeExplanation {
            code: "E9006",
            title_en: "`convert` needs a file",
            title_ko: "`변환`에는 파일이 필요합니다",
            detail_en: "`nme convert` turns a Python file into NME, so it needs a file name: `nme convert app.py`.",
            detail_ko: "`nme 변환`은 Python 파일을 NME로 바꾸므로 파일 이름이 필요합니다: `nme 변환 app.py`.",
        },
        DiagnosticCode::CliFileReadFailed => CodeExplanation {
            code: "E9007",
            title_en: "a file could not be read",
            title_ko: "파일을 읽을 수 없습니다",
            detail_en: "NME could not open the file. Check the path, the file name, and the folder permissions, then run the command again.",
            detail_ko: "NME가 파일을 열 수 없습니다. 경로, 파일 이름, 폴더 권한을 확인한 뒤 다시 실행하세요.",
        },
        DiagnosticCode::CliFileWriteFailed => CodeExplanation {
            code: "E9008",
            title_en: "a file could not be written",
            title_ko: "파일을 저장할 수 없습니다",
            detail_en: "NME could not write the output file. Check the folder permissions and that no program has the file locked.",
            detail_ko: "NME가 결과 파일을 저장하지 못했습니다. 폴더 권한과 파일이 다른 프로그램에 잠겨 있지 않은지 확인하세요.",
        },
        DiagnosticCode::CliRefuseOverwrite => CodeExplanation {
            code: "E9009",
            title_en: "refusing to overwrite the output",
            title_ko: "결과 파일을 덮어쓰지 않습니다",
            detail_en: "`nme build -o` and `nme compile -o` never overwrite an existing file by accident. Delete or rename the existing file, or choose another output name.",
            detail_ko: "`nme build -o`와 `nme compile -o`는 실수로 기존 파일을 덮어쓰지 않습니다. 기존 파일을 삭제하거나 이름을 바꾸거나 다른 출력 이름을 고르세요.",
        },
        DiagnosticCode::CliNativeCompileFailed => CodeExplanation {
            code: "E9010",
            title_en: "the native compiler failed",
            title_ko: "네이티브 컴파일이 실패했습니다",
            detail_en: "The native build stopped with an error; the compiler message above says why. `nme compile` builds with Nuitka and `nme native` with the system C compiler: confirm the one you used is installed, then try again.",
            detail_ko: "네이티브 빌드가 오류로 멈췄습니다. 위의 컴파일러 메시지에서 이유를 확인하세요. `nme 컴파일`은 Nuitka로, `nme 네이티브`는 시스템 C 컴파일러로 빌드합니다. 사용한 도구가 설치되어 있는지 확인한 뒤 다시 시도하세요.",
        },
        DiagnosticCode::CliNativeCompileStartFailed => CodeExplanation {
            code: "E9011",
            title_en: "the native compiler could not be started",
            title_ko: "네이티브 컴파일러를 시작할 수 없습니다",
            detail_en: "NME could not launch the compiler. `nme compile` needs Python and Nuitka (`python3 -m pip install nuitka`); `nme native` needs the system C compiler (`cc`). Install the one you need, then run the command again.",
            detail_ko: "NME가 컴파일러를 실행하지 못했습니다. `nme 컴파일`에는 Python과 Nuitka(`python3 -m pip install nuitka`)가, `nme 네이티브`에는 시스템 C 컴파일러(`cc`)가 필요합니다. 필요한 것을 설치한 뒤 다시 실행하세요.",
        },
        DiagnosticCode::CliCpythonValidationFailed => CodeExplanation {
            code: "E9012",
            title_en: "CPython rejected the generated Python",
            title_ko: "CPython이 만들어진 Python을 거부했습니다",
            detail_en: "`nme check` and `nme build` ask CPython to compile the generated program. The message below shows the exact Python problem (usually indentation). Fix the NME source that produced it.",
            detail_ko: "`nme 검사`와 `nme 빌드`는 생성된 프로그램을 CPython이 컴파일할 수 있는지 확인합니다. 아래 메시지가 정확한 Python 문제(보통 들여쓰기)를 보여 줍니다. 그 원인이 된 NME 소스를 고치세요.",
        },
        DiagnosticCode::CliPythonStartFailed => CodeExplanation {
            code: "E9013",
            title_en: "Python could not be started",
            title_ko: "Python을 시작할 수 없습니다",
            detail_en: "NME runs programs with the Python command it chose. Install Python 3 so that `python3` (or `py` on Windows) works, then run the command again. Only unusual setups need `--python <command>`.",
            detail_ko: "NME는 선택한 Python 명령으로 프로그램을 실행합니다. `python3`(Windows에서는 `py`)이 동작하도록 Python 3를 설치한 뒤 다시 실행하세요. 특별한 환경에서만 `--python <명령>`이 필요합니다.",
        },
        DiagnosticCode::CliFolderNotProgram => CodeExplanation {
            code: "E9014",
            title_en: "that is a folder, not a program",
            title_ko: "폴더는 프로그램이 아닙니다",
            detail_en: "NME runs a single .nme file, not a folder. Type a program name, or run `nme r` inside the folder that contains one .nme program.",
            detail_ko: "NME는 폴더가 아니라 .nme 파일 하나를 실행합니다. 프로그램 이름을 적거나, .nme 프로그램이 있는 폴더 안에서 `nme r`을 실행하세요.",
        },
        DiagnosticCode::CliMissingProgram => CodeExplanation {
            code: "E9015",
            title_en: "the program file does not exist",
            title_ko: "프로그램 파일이 없습니다",
            detail_en: "The typed name does not match a file. If you see a `did you mean` hint, use that name; otherwise create the file or run `nme r` to run the single .nme program here.",
            detail_ko: "적은 이름과 일치하는 파일이 없습니다. `did you mean` 힌트가 보이면 그 이름을 쓰세요. 아니면 파일을 만들거나, 여기 있는 .nme 프로그램 하나를 `nme r`로 실행하세요.",
        },
        DiagnosticCode::CliFolderReadFailed => CodeExplanation {
            code: "E9016",
            title_en: "the current folder could not be read",
            title_ko: "현재 폴더를 읽을 수 없습니다",
            detail_en: "NME needs to list the folder to find .nme programs. Check the folder permissions, then try again.",
            detail_ko: "NME가 .nme 프로그램을 찾으려면 폴더 목록을 읽어야 합니다. 폴더 권한을 확인한 뒤 다시 시도하세요.",
        },
        DiagnosticCode::CliNoProgramHere => CodeExplanation {
            code: "E9017",
            title_en: "no .nme program in this folder",
            title_ko: "이 폴더에 .nme 프로그램이 없습니다",
            detail_en: "`nme r` without a file name needs one .nme program in the current folder. Create one (for example hello.nme) or type a file name: `nme r hello`.",
            detail_ko: "파일 이름 없이 `nme r`을 실행하려면 현재 폴더에 .nme 프로그램이 하나 필요합니다. 파일을 만들거나(예: hello.nme) 파일 이름을 적으세요: `nme r hello`.",
        },
        DiagnosticCode::CliPickAnswerUnreadable => CodeExplanation {
            code: "E9018",
            title_en: "the pick answer could not be read",
            title_ko: "선택 답변을 읽을 수 없습니다",
            detail_en: "NME could not read the answer from the keyboard. Run the command again and type a number or a program name, then press Enter.",
            detail_ko: "NME가 키보드에서 답변을 읽지 못했습니다. 명령을 다시 실행하고 숫자나 프로그램 이름을 적은 뒤 Enter를 누르세요.",
        },
        DiagnosticCode::CliEmptyPickAnswer => CodeExplanation {
            code: "E9019",
            title_en: "no pick answer given",
            title_ko: "선택 답변이 비어 있습니다",
            detail_en: "The answer was empty. Type a number from the list or a program name, then press Enter.",
            detail_ko: "답변이 비어 있습니다. 목록에서 숫자를 고르거나 프로그램 이름을 적은 뒤 Enter를 누르세요.",
        },
        DiagnosticCode::CliInvalidPickAnswer => CodeExplanation {
            code: "E9020",
            title_en: "the pick answer is not a listed program",
            title_ko: "선택 답변이 목록에 없습니다",
            detail_en: "The number or name is not one of the programs above. Use a number from the list, or the exact program name.",
            detail_ko: "숫자나 이름이 위 목록의 프로그램이 아닙니다. 목록의 숫자나 정확한 프로그램 이름을 사용하세요.",
        },
        DiagnosticCode::CliAmbiguousPickAnswer => CodeExplanation {
            code: "E9021",
            title_en: "the pick answer matches several programs",
            title_ko: "선택 답변이 여러 프로그램과 일치합니다",
            detail_en: "The typed name is a prefix of more than one program. Pick a number from the list above, or type more of the name.",
            detail_ko: "적은 이름이 여러 프로그램의 앞부분과 일치합니다. 위 목록에서 숫자를 고르거나 이름을 더 길게 입력하세요.",
        },
        DiagnosticCode::CliAmbiguousProgramPrefix => CodeExplanation {
            code: "E9022",
            title_en: "several programs match this name",
            title_ko: "이 이름과 일치하는 프로그램이 여러 개입니다",
            detail_en: "A short name may be used only while it names exactly one .nme program. Type more of the name so only one program matches.",
            detail_ko: "짧은 이름은 정확히 하나의 .nme 프로그램을 가리킬 때만 쓸 수 있습니다. 하나만 일치하도록 이름을 더 길게 적으세요.",
        },
        DiagnosticCode::CliErrorLookupInvalidArgs => CodeExplanation {
            code: "E9023",
            title_en: "the error lookup takes one code",
            title_ko: "오류 코드는 한 번에 하나만 확인할 수 있습니다",
            detail_en: "`nme ko <CODE>` and `nme en <CODE>` take exactly one code. Run `nme ko` with no code to list every code.",
            detail_ko: "`nme ko <코드>`와 `nme en <코드>`는 코드 하나만 받습니다. 코드 없이 `nme ko`를 실행하면 모든 코드를 볼 수 있습니다.",
        },
        DiagnosticCode::CliErrorLookupUnknownCode => CodeExplanation {
            code: "E9024",
            title_en: "unknown error code",
            title_ko: "알 수 없는 오류 코드",
            detail_en: "The code is not one NME uses. Run `nme ko` to see the full list, or copy the code exactly from the error message.",
            detail_ko: "이 코드는 NME가 쓰는 코드가 아닙니다. `nme ko`로 전체 목록을 보거나, 오류 메시지에서 코드를 정확히 복사하세요.",
        },
        DiagnosticCode::CliPackageInstallFailed => CodeExplanation {
            code: "E9025",
            title_en: "pip could not install the package",
            title_ko: "pip이 패키지를 설치하지 못했습니다",
            detail_en: "pip could not install the package; its message above says why. Check the package name and your network connection, then run the command again.",
            detail_ko: "pip이 패키지를 설치하지 못했습니다. 위의 pip 메시지에서 이유를 확인하세요. 패키지 이름과 네트워크 연결을 확인한 뒤 다시 실행하세요.",
        },
        DiagnosticCode::CliNativeRunFailed => CodeExplanation {
            code: "E9026",
            title_en: "the native program could not be started",
            title_ko: "네이티브 프로그램을 시작할 수 없습니다",
            detail_en: "The native build finished, but NME could not start the executable it made. Check that the folder allows running programs, then run the command again.",
            detail_ko: "네이티브 빌드는 끝났지만 NME가 만들어진 실행 파일을 시작할 수 없습니다. 폴더에서 프로그램을 실행할 수 있는지 확인한 뒤 다시 실행하세요.",
        },
        DiagnosticCode::CliTempFolderFailed => CodeExplanation {
            code: "E9027",
            title_en: "a temporary working folder could not be created",
            title_ko: "임시 작업 폴더를 만들 수 없습니다",
            detail_en: "NME needs a temporary working folder for this command and could not create one. Check the free disk space and the permissions of the temporary folder.",
            detail_ko: "이 명령에는 임시 작업 폴더가 필요한데 NME가 만들지 못했습니다. 디스크 여유 공간과 임시 폴더 권한을 확인하세요.",
        },
        DiagnosticCode::CliModuleNameCollision => CodeExplanation {
            code: "E9028",
            title_en: "two imported modules have the same name",
            title_ko: "가져온 두 모듈의 이름이 같습니다",
            detail_en: "Two `.nme` modules imported by this program would become Python modules of the same name. Rename one of the files.",
            detail_ko: "이 프로그램이 가져오는 두 `.nme` 모듈이 같은 이름의 Python 모듈이 됩니다. 파일 하나의 이름을 바꾸세요.",
        },
        DiagnosticCode::CliCompileImportsUnsupported => CodeExplanation {
            code: "E9029",
            title_en: "`nme compile` does not support module imports",
            title_ko: "`nme 컴파일`은 모듈 가져오기를 지원하지 않습니다",
            detail_en: "A program that imports other `.nme` files cannot be compiled into one executable yet. Run it with `nme run`, or put the imported code into the program.",
            detail_ko: "다른 `.nme` 파일을 가져오는 프로그램은 아직 실행 파일 하나로 컴파일할 수 없습니다. `nme 실행`으로 실행하거나 가져온 코드를 프로그램 안에 넣으세요.",
        },
        DiagnosticCode::CliInstallNeedsPackage => CodeExplanation {
            code: "E9030",
            title_en: "the package name is missing",
            title_ko: "패키지 이름이 없습니다",
            detail_en: "Installing needs the name of the package to install, for example `requests`. Add the package name and run the command again.",
            detail_ko: "설치하려면 설치할 패키지 이름이 필요합니다(예: `requests`). 패키지 이름을 적고 다시 실행하세요.",
        },
    }
}

impl DiagnosticCode {
    /// The code as written in a message: `E` and four digits.
    pub open spec fn spec_code(self) -> Seq<char> {
        code_text(code_number(self))
    }

    pub fn code(self) -> (code: &'static str)
        ensures
            code@ == self.spec_code(),
    {
        match self {
            Self::UnrecognizedInput => {
                proof {
                    reveal_strlit("E0001");
                }
                "E0001"
            },
            Self::StrayEnd => {
                proof {
                    reveal_strlit("E0101");
                }
                "E0101"
            },
            Self::BreakOutsideLoop => {
                proof {
                    reveal_strlit("E0102");
                }
                "E0102"
            },
            Self::BranchWithoutCondition => {
                proof {
                    reveal_strlit("E0103");
                }
                "E0103"
            },
            Self::DuplicateElse => {
                proof {
                    reveal_strlit("E0104");
                }
                "E0104"
            },
            Self::MissingEnd => {
                proof {
                    reveal_strlit("E0105");
                }
                "E0105"
            },
            Self::ContinueOutsideLoop => {
                proof {
                    reveal_strlit("E0107");
                }
                "E0107"
            },
            Self::SayValueBroken => {
                proof {
                    reveal_strlit("E0201");
                }
                "E0201"
            },
            Self::SayValueUnparseable => {
                proof {
                    reveal_strlit("E0202");
                }
                "E0202"
            },
            Self::SaySentenceUnparseable => {
                proof {
                    reveal_strlit("E0203");
                }
                "E0203"
            },
            Self::SayMissing => {
                proof {
                    reveal_strlit("E0204");
                }
                "E0204"
            },
            Self::AskQuestionMissing => {
                proof {
                    reveal_strlit("E0211");
                }
                "E0211"
            },
            Self::AskQuestionUnparseable => {
                proof {
                    reveal_strlit("E0212");
                }
                "E0212"
            },
            Self::AskTargetInvalid => {
                proof {
                    reveal_strlit("E0213");
                }
                "E0213"
            },
            Self::UpdateUnparseable => {
                proof {
                    reveal_strlit("E0221");
                }
                "E0221"
            },
            Self::BreakCommandUnparseable => {
                proof {
                    reveal_strlit("E0222");
                }
                "E0222"
            },
            Self::ConditionMissing => {
                proof {
                    reveal_strlit("E0301");
                }
                "E0301"
            },
            Self::ConditionInvalid => {
                proof {
                    reveal_strlit("E0302");
                }
                "E0302"
            },
            Self::RepeatBodyUnparseable => {
                proof {
                    reveal_strlit("E0303");
                }
                "E0303"
            },
            Self::RepeatCountUnparseable => {
                proof {
                    reveal_strlit("E0304");
                }
                "E0304"
            },
            Self::RepeatCountMissing => {
                proof {
                    reveal_strlit("E0305");
                }
                "E0305"
            },
            Self::UnsupportedModule => {
                proof {
                    reveal_strlit("E0401");
                }
                "E0401"
            },
            Self::LatestAndVersion => {
                proof {
                    reveal_strlit("E0402");
                }
                "E0402"
            },
            Self::ModuleVersionMissing => {
                proof {
                    reveal_strlit("E0403");
                }
                "E0403"
            },
            Self::UnbundledVersion => {
                proof {
                    reveal_strlit("E0404");
                }
                "E0404"
            },
            Self::ModuleNameCollision => {
                proof {
                    reveal_strlit("E0405");
                }
                "E0405"
            },
            Self::ModuleShapeInvalid => {
                proof {
                    reveal_strlit("E0406");
                }
                "E0406"
            },
            Self::SaveValueMissing => {
                proof {
                    reveal_strlit("E0411");
                }
                "E0411"
            },
            Self::SaveValueUnparseable => {
                proof {
                    reveal_strlit("E0412");
                }
                "E0412"
            },
            Self::SaveNameMissing => {
                proof {
                    reveal_strlit("E0413");
                }
                "E0413"
            },
            Self::SaveNameNotSimple => {
                proof {
                    reveal_strlit("E0414");
                }
                "E0414"
            },
            Self::IndentationRequired => {
                proof {
                    reveal_strlit("E0501");
                }
                "E0501"
            },
            Self::ColonRequired => {
                proof {
                    reveal_strlit("E0502");
                }
                "E0502"
            },
            Self::BlockWithoutStatement => {
                proof {
                    reveal_strlit("E0503");
                }
                "E0503"
            },
            Self::OneStatementPerLine => {
                proof {
                    reveal_strlit("E0504");
                }
                "E0504"
            },
            Self::BodyUnparseable => {
                proof {
                    reveal_strlit("E0505");
                }
                "E0505"
            },
            Self::AmbiguousAction => {
                proof {
                    reveal_strlit("E0601");
                }
                "E0601"
            },
            Self::MissingAction => {
                proof {
                    reveal_strlit("E0602");
                }
                "E0602"
            },
            Self::MultilineSentence => {
                proof {
                    reveal_strlit("E0701");
                }
                "E0701"
            },
            Self::ConvertInvalidPython => {
                proof {
                    reveal_strlit("E0702");
                }
                "E0702"
            },
            Self::CliUnknownCommand => {
                proof {
                    reveal_strlit("E9001");
                }
                "E9001"
            },
            Self::CliModulesExtraArgument => {
                proof {
                    reveal_strlit("E9002");
                }
                "E9002"
            },
            Self::CliInvalidOptionValue => {
                proof {
                    reveal_strlit("E9003");
                }
                "E9003"
            },
            Self::CliUnknownOption => {
                proof {
                    reveal_strlit("E9004");
                }
                "E9004"
            },
            Self::CliUnexpectedExtraFile => {
                proof {
                    reveal_strlit("E9005");
                }
                "E9005"
            },
            Self::CliConvertNeedsFile => {
                proof {
                    reveal_strlit("E9006");
                }
                "E9006"
            },
            Self::CliFileReadFailed => {
                proof {
                    reveal_strlit("E9007");
                }
                "E9007"
            },
            Self::CliFileWriteFailed => {
                proof {
                    reveal_strlit("E9008");
                }
                "E9008"
            },
            Self::CliRefuseOverwrite => {
                proof {
                    reveal_strlit("E9009");
                }
                "E9009"
            },
            Self::CliNativeCompileFailed => {
                proof {
                    reveal_strlit("E9010");
                }
                "E9010"
            },
            Self::CliNativeCompileStartFailed => {
                proof {
                    reveal_strlit("E9011");
                }
                "E9011"
            },
            Self::CliCpythonValidationFailed => {
                proof {
                    reveal_strlit("E9012");
                }
                "E9012"
            },
            Self::CliPythonStartFailed => {
                proof {
                    reveal_strlit("E9013");
                }
                "E9013"
            },
            Self::CliFolderNotProgram => {
                proof {
                    reveal_strlit("E9014");
                }
                "E9014"
            },
            Self::CliMissingProgram => {
                proof {
                    reveal_strlit("E9015");
                }
                "E9015"
            },
            Self::CliFolderReadFailed => {
                proof {
                    reveal_strlit("E9016");
                }
                "E9016"
            },
            Self::CliNoProgramHere => {
                proof {
                    reveal_strlit("E9017");
                }
                "E9017"
            },
            Self::CliPickAnswerUnreadable => {
                proof {
                    reveal_strlit("E9018");
                }
                "E9018"
            },
            Self::CliEmptyPickAnswer => {
                proof {
                    reveal_strlit("E9019");
                }
                "E9019"
            },
            Self::CliInvalidPickAnswer => {
                proof {
                    reveal_strlit("E9020");
                }
                "E9020"
            },
            Self::CliAmbiguousPickAnswer => {
                proof {
                    reveal_strlit("E9021");
                }
                "E9021"
            },
            Self::CliAmbiguousProgramPrefix => {
                proof {
                    reveal_strlit("E9022");
                }
                "E9022"
            },
            Self::CliErrorLookupInvalidArgs => {
                proof {
                    reveal_strlit("E9023");
                }
                "E9023"
            },
            Self::CliErrorLookupUnknownCode => {
                proof {
                    reveal_strlit("E9024");
                }
                "E9024"
            },
            Self::CliPackageInstallFailed => {
                proof {
                    reveal_strlit("E9025");
                }
                "E9025"
            },
            Self::CliNativeRunFailed => {
                proof {
                    reveal_strlit("E9026");
                }
                "E9026"
            },
            Self::CliTempFolderFailed => {
                proof {
                    reveal_strlit("E9027");
                }
                "E9027"
            },
            Self::CliModuleNameCollision => {
                proof {
                    reveal_strlit("E9028");
                }
                "E9028"
            },
            Self::CliCompileImportsUnsupported => {
                proof {
                    reveal_strlit("E9029");
                }
                "E9029"
            },
            Self::CliInstallNeedsPackage => {
                proof {
                    reveal_strlit("E9030");
                }
                "E9030"
            },
        }
    }

    /// All codes in display order (the order of the enum above).
    pub const ALL: [DiagnosticCode; 70] = [
        Self::UnrecognizedInput,
        Self::StrayEnd,
        Self::BreakOutsideLoop,
        Self::BranchWithoutCondition,
        Self::DuplicateElse,
        Self::MissingEnd,
        Self::ContinueOutsideLoop,
        Self::SayValueBroken,
        Self::SayValueUnparseable,
        Self::SaySentenceUnparseable,
        Self::SayMissing,
        Self::AskQuestionMissing,
        Self::AskQuestionUnparseable,
        Self::AskTargetInvalid,
        Self::UpdateUnparseable,
        Self::BreakCommandUnparseable,
        Self::ConditionMissing,
        Self::ConditionInvalid,
        Self::RepeatBodyUnparseable,
        Self::RepeatCountUnparseable,
        Self::RepeatCountMissing,
        Self::UnsupportedModule,
        Self::LatestAndVersion,
        Self::ModuleVersionMissing,
        Self::UnbundledVersion,
        Self::ModuleNameCollision,
        Self::ModuleShapeInvalid,
        Self::SaveValueMissing,
        Self::SaveValueUnparseable,
        Self::SaveNameMissing,
        Self::SaveNameNotSimple,
        Self::IndentationRequired,
        Self::ColonRequired,
        Self::BlockWithoutStatement,
        Self::OneStatementPerLine,
        Self::BodyUnparseable,
        Self::AmbiguousAction,
        Self::MissingAction,
        Self::MultilineSentence,
        Self::ConvertInvalidPython,
        Self::CliUnknownCommand,
        Self::CliModulesExtraArgument,
        Self::CliInvalidOptionValue,
        Self::CliUnknownOption,
        Self::CliUnexpectedExtraFile,
        Self::CliConvertNeedsFile,
        Self::CliFileReadFailed,
        Self::CliFileWriteFailed,
        Self::CliRefuseOverwrite,
        Self::CliNativeCompileFailed,
        Self::CliNativeCompileStartFailed,
        Self::CliCpythonValidationFailed,
        Self::CliPythonStartFailed,
        Self::CliFolderNotProgram,
        Self::CliMissingProgram,
        Self::CliFolderReadFailed,
        Self::CliNoProgramHere,
        Self::CliPickAnswerUnreadable,
        Self::CliEmptyPickAnswer,
        Self::CliInvalidPickAnswer,
        Self::CliAmbiguousPickAnswer,
        Self::CliAmbiguousProgramPrefix,
        Self::CliErrorLookupInvalidArgs,
        Self::CliErrorLookupUnknownCode,
        Self::CliPackageInstallFailed,
        Self::CliNativeRunFailed,
        Self::CliTempFolderFailed,
        Self::CliModuleNameCollision,
        Self::CliCompileImportsUnsupported,
        Self::CliInstallNeedsPackage,
    ];

    /// Long-form bilingual explanation of this code, for the `nme ko <CODE>`
    /// and `nme en <CODE>` lookup pages.
    pub fn explanation(self) -> (explanation: CodeExplanation)
        ensures
            explanation == explanation_of(self),
    {
        match self {
            Self::UnrecognizedInput => CodeExplanation {
                code: "E0001",
                title_en: "this line is not valid Python or NME",
                title_ko: "이 줄은 올바른 Python도 NME도 아닙니다",
                detail_en: "NME first checks whether a line is ordinary Python; then it looks for known NME forms. This line is neither. Check for a missing quote or bracket, or for an unfinished sentence.",
                detail_ko: "NME는 먼저 줄이 일반 Python인지 확인하고, 그다음 알고 있는 NME 형식을 찾습니다. 이 줄은 둘 다 아닙니다. 따옴표나 괄호가 빠졌는지, 문장이 끝나지 않았는지 확인하세요.",
            },
            Self::StrayEnd => CodeExplanation {
                code: "E0101",
                title_en: "an `end` with no open block",
                title_ko: "열린 블록이 없는 `끝`",
                detail_en: "Every `end` (or `끝`) must close a block that is still open. This one appears after every block has already been closed, or before any block started.",
                detail_ko: "모든 `end`(`끝`)는 아직 열려 있는 블록을 닫아야 합니다. 여기의 `끝`은 모든 블록이 이미 닫힌 뒤이거나, 블록이 시작되기 전에 나왔습니다.",
            },
            Self::BreakOutsideLoop => CodeExplanation {
                code: "E0102",
                title_en: "`break` outside a loop",
                title_ko: "반복문 밖의 `break`",
                detail_en: "`break` (or `멈춰`) stops the nearest loop, so it can only be written inside a `while`/`repeat` block or a Python loop. Move it inside the loop, or remove it.",
                detail_ko: "`break`(`멈춰`)는 가장 가까운 반복문을 멈추므로 `while`/`repeat` 블록이나 Python 반복문 안에서만 쓸 수 있습니다. 반복문 안으로 옮기거나 지우세요.",
            },
            Self::BranchWithoutCondition => CodeExplanation {
                code: "E0103",
                title_en: "an `else` or `elif` with no open condition",
                title_ko: "열린 조건이 없는 `아니면`",
                detail_en: "`else`, `else if`, `elif`, `아니면` are branches of an `if` (or `만약`) block. Write the `if` line first and keep the `else` inside the same block, before its `end`.",
                detail_ko: "`else`, `else if`, `elif`, `아니면`은 `if`(`만약`) 블록의 가지입니다. 먼저 `if` 줄을 쓰고, `else`는 같은 블록 안에서 `끝`보다 앞에 두세요.",
            },
            Self::DuplicateElse => CodeExplanation {
                code: "E0104",
                title_en: "two `else` branches in one condition",
                title_ko: "한 조건에 `else`가 두 번",
                detail_en: "A condition can only have one `else` (or `아니면`) branch. Turn the second one into an `else if`/`elif`/`아니면 만약에` branch instead.",
                detail_ko: "조건에는 `else`(`아니면`) 가지가 하나만 올 수 있습니다. 두 번째는 `else if`/`elif`/`아니면 만약에` 가지로 바꾸세요.",
            },
            Self::MissingEnd => CodeExplanation {
                code: "E0105",
                title_en: "a block without its closing `end`",
                title_ko: "닫는 `end`가 없는 블록",
                detail_en: "This loop or condition block is still open at the end of the file. Add a closing `end` (or `끝`) line after the block's last line.",
                detail_ko: "이 반복문·조건 블록이 파일 끝까지 열려 있습니다. 블록의 마지막 줄 뒤에 닫는 `end`(`끝`) 줄을 추가하세요.",
            },
            Self::ContinueOutsideLoop => CodeExplanation {
                code: "E0107",
                title_en: "`continue` outside a loop",
                title_ko: "반복문 밖의 `continue`",
                detail_en: "`continue` ends this round of the nearest loop and starts the next one, so it can only be written inside a `while`/`repeat` block or a Python loop. Move it inside the loop, or remove it.",
                detail_ko: "`continue`는 가장 가까운 반복문의 이번 회차를 끝내고 다음 회차로 넘어가라는 말이므로 `while`/`repeat` 블록이나 Python 반복문 안에서만 쓸 수 있습니다. 반복문 안으로 옮기거나 지우세요.",
            },
            Self::SayValueBroken => CodeExplanation {
                code: "E0201",
                title_en: "`say` value could not be understood",
                title_ko: "`say`의 값을 이해하지 못했습니다",
                detail_en: "After `say` (or `말해`) NME expects a value to show: text, a number, a known variable, or a simple expression. The words here do not form any of those.",
                detail_ko: "`say`(`말해`) 뒤에는 보여 줄 값이 와야 합니다: 글자, 숫자, 알고 있는 변수, 또는 간단한 식. 여기의 단어들은 그 중 어떤 형태도 아닙니다.",
            },
            Self::SayValueUnparseable => CodeExplanation {
                code: "E0202",
                title_en: "the `say` expression is not valid",
                title_ko: "`say`의 식이 올바르지 않습니다",
                detail_en: "The value after `say` is a name or expression Python cannot read. Check for missing quotes around text and correct variable names.",
                detail_ko: "`say` 뒤의 값은 Python이 읽지 못하는 이름이나 식입니다. 글자 주변의 따옴표와 변수 이름을 확인하세요.",
            },
            Self::SaySentenceUnparseable => CodeExplanation {
                code: "E0203",
                title_en: "the sentence to show is not valid",
                title_ko: "보여 줄 문장이 올바르지 않습니다",
                detail_en: "NME could not turn this sentence into something Python can print. Known variable names can be mixed into the sentence; everything else must be plain text.",
                detail_ko: "NME가 이 문장을 Python으로 출력할 수 있는 형태로 바꾸지 못했습니다. 알고 있는 변수 이름은 문장에 섞일 수 있고, 나머지는 일반 글자여야 합니다.",
            },
            Self::SayMissing => CodeExplanation {
                code: "E0204",
                title_en: "`say` has nothing to show",
                title_ko: "`say`에 보여 줄 내용이 없습니다",
                detail_en: "`say` (or `말해`) needs something after it. Write `say Hello` or `say \"Hello\"`.",
                detail_ko: "`say`(`말해`) 뒤에 내용이 필요합니다. `say Hello` 또는 `say \"Hello\"`처럼 적으세요.",
            },
            Self::AskQuestionMissing => CodeExplanation {
                code: "E0211",
                title_en: "the question after the comma is missing",
                title_ko: "쉼표 뒤의 질문이 비어 있습니다",
                detail_en: "An `ask` with a comma needs a question after it: `ask name, What is your name?`. Add the question or remove the comma.",
                detail_ko: "쉼표가 있는 `ask`는 뒤에 질문이 필요합니다: `ask name, What is your name?`. 질문을 추가하거나 쉼표를 지우세요.",
            },
            Self::AskQuestionUnparseable => CodeExplanation {
                code: "E0212",
                title_en: "the question could not be understood",
                title_ko: "질문을 이해하지 못했습니다",
                detail_en: "NME could not turn this `ask` question into something Python can print. Keep it as plain text, optionally with a known variable name.",
                detail_ko: "NME가 이 `ask` 질문을 Python으로 출력할 수 있는 형태로 바꾸지 못했습니다. 일반 글자로 쓰고, 원하면 알고 있는 변수 이름을 섞으세요.",
            },
            Self::AskTargetInvalid => CodeExplanation {
                code: "E0213",
                title_en: "the `ask` target is not a variable name",
                title_ko: "`ask`의 대상이 변수 이름이 아닙니다",
                detail_en: "`ask name, ...` saves the answer into `name`. Write a simple variable name there (letters and numbers, starting with a letter), not a sentence or a keyword.",
                detail_ko: "`ask name, ...`는 답을 `name`에 저장합니다. 문장이나 키워드가 아니라 간단한 변수 이름(문자로 시작하는 문자·숫자 조합)을 적으세요.",
            },
            Self::UpdateUnparseable => CodeExplanation {
                code: "E0221",
                title_en: "the value change could not be understood",
                title_ko: "값 변경을 이해하지 못했습니다",
                detail_en: "A value change looks like `score add 1` or `점수에 1 더해` or `점수는 점수 + 1`. Check the target name, the action word, and the amount.",
                detail_ko: "값 변경은 `score add 1`, `점수에 1 더해`, `점수는 점수 + 1` 같은 형태입니다. 대상 이름, 동작 단어, 그리고 값이 맞는지 확인하세요.",
            },
            Self::BreakCommandUnparseable => CodeExplanation {
                code: "E0222",
                title_en: "the break command could not be understood",
                title_ko: "break 명령을 이해하지 못했습니다",
                detail_en: "Inside a loop, write `break here`, `멈춰`, or just `break`. Nothing else belongs on that line.",
                detail_ko: "반복문 안에서 `break here`, `멈춰` 또는 그냥 `break`라고 쓰세요. 그 줄에는 다른 내용이 들어가지 않아야 합니다.",
            },
            Self::ConditionMissing => CodeExplanation {
                code: "E0301",
                title_en: "the condition is missing",
                title_ko: "조건이 비어 있습니다",
                detail_en: "`if`/`when`/`while`/`만약` needs a condition after it, for example `if score is greater than 10` or `만약 점수가 10보다 크면`.",
                detail_ko: "`if`/`when`/`while`/`만약` 뒤에는 조건이 필요합니다. 예: `if score is greater than 10`, `만약 점수가 10보다 크면`.",
            },
            Self::ConditionInvalid => CodeExplanation {
                code: "E0302",
                title_en: "the condition could not be understood",
                title_ko: "조건을 이해하지 못했습니다",
                detail_en: "NME could not read this condition. Use a comparison such as `is less than`, `equals`, `!=`, `보다 크면`, `와 같으면`, joined with `and`/`or` (`그리고`/`또는`).",
                detail_ko: "NME가 이 조건을 읽지 못했습니다. `is less than`, `equals`, `!=`, `보다 크면`, `와 같으면` 같은 비교를 `and`/`or`(`그리고`/`또는`)로 연결해 쓰세요.",
            },
            Self::RepeatBodyUnparseable => CodeExplanation {
                code: "E0303",
                title_en: "the repeated body could not be understood",
                title_ko: "반복할 내용을 이해하지 못했습니다",
                detail_en: "After `3 times:` (or `3 번:`) the body line must be an NME or Python statement. Write the body on its own indented line instead of sharing the header line.",
                detail_ko: "`3 times:`(`3 번:`) 뒤의 본문 줄은 NME 또는 Python 문장이어야 합니다. 헤더 줄에 함께 쓰지 말고 본문을 따로 들여쓴 줄에 쓰세요.",
            },
            Self::RepeatCountUnparseable => CodeExplanation {
                code: "E0304",
                title_en: "the repeat count could not be understood",
                title_ko: "반복 횟수를 이해하지 못했습니다",
                detail_en: "`N times:` needs a number for N, for example `3 times:` or `3 번:`. Words and expressions are not accepted here.",
                detail_ko: "`N times:`의 N 자리에는 숫자가 필요합니다. 예: `3 times:`, `3 번:`. 이 자리에 단어나 식은 쓸 수 없습니다.",
            },
            Self::RepeatCountMissing => CodeExplanation {
                code: "E0305",
                title_en: "the repeat count is missing",
                title_ko: "반복 횟수가 비어 있습니다",
                detail_en: "`times:` needs a count before the colon. Write the number of repetitions, for example `3 times: show Hello`.",
                detail_ko: "`times:`는 콜론 앞에 횟수가 필요합니다. 반복할 횟수를 적으세요. 예: `3 times: show Hello`.",
            },
            Self::UnsupportedModule => CodeExplanation {
                code: "E0401",
                title_en: "NME bundles `use random` and `use file`",
                title_ko: "NME에는 `랜덤 사용`과 `파일 사용`이 내장되어 있습니다",
                detail_en: "NME ships a small set of beginner modules: `random` (or `랜덤`) for dice and picks, and `file` (or `파일`) for reading, writing, and JSON. Anything else is a Python import: write `import name` on its own line.",
                detail_ko: "NME는 초보자용 모듈을 소수만 제공합니다: 주사위·선택용 `random`(`랜덤`)과 읽기·쓰기·JSON용 `file`(`파일`)입니다. 다른 것은 Python import로 쓸 수 있습니다: `import name`을 한 줄로 쓰세요.",
            },
            Self::LatestAndVersion => CodeExplanation {
                code: "E0402",
                title_en: "latest and an exact version on one line",
                title_ko: "최신과 정확한 버전을 함께 적었습니다",
                detail_en: "A `use random` line either asks for the newest bundled version (`use random latest`) or for one exact version (`use random version \"0.0.1\"`), never both.",
                detail_ko: "`use random` 줄은 내장 버전 중 최신(`use random latest`) 또는 정확한 버전 하나(`use random version \"0.0.1\"`) 중 하나만 요청할 수 있습니다. 둘은 함께 쓸 수 없습니다.",
            },
            Self::ModuleVersionMissing => CodeExplanation {
                code: "E0403",
                title_en: "the module version is missing",
                title_ko: "모듈 버전이 비어 있습니다",
                detail_en: "`use random version` needs a version number after it, for example `use random version \"0.0.1\"`.",
                detail_ko: "`use random version` 뒤에는 버전 번호가 필요합니다. 예: `use random version \"0.0.1\"`.",
            },
            Self::UnbundledVersion => CodeExplanation {
                code: "E0404",
                title_en: "this module version is not bundled",
                title_ko: "내장되어 있지 않은 모듈 버전입니다",
                detail_en: "NME only ships specific versions of `random`. Run `nme modules` to see the bundled version, then write `use random version \"<that version>\"` or simply `use random latest`.",
                detail_ko: "NME는 `random`의 특정 버전만 제공합니다. `nme 모듈`로 내장 버전을 확인한 뒤 `use random version \"<그 버전>\"` 또는 그냥 `use random latest`라고 쓰세요.",
            },
            Self::ModuleNameCollision => CodeExplanation {
                code: "E0405",
                title_en: "the module would overwrite your names",
                title_ko: "모듈이 기존 이름을 덮어씁니다",
                detail_en: "The bundled module needs helper names such as `random_number`, `랜덤선택`, `file_read`, and `파일읽기`. One of those names is already in use in this file. Rename your variable or import the module before using that name.",
                detail_ko: "내장 모듈은 `random_number`, `랜덤선택`, `file_read`, `파일읽기` 같은 도우미 이름을 사용합니다. 그 이름 중 하나가 이 파일에서 이미 쓰이고 있습니다. 변수 이름을 바꾸거나 그 이름을 쓰기 전에 모듈을 불러오세요.",
            },
            Self::ModuleShapeInvalid => CodeExplanation {
                code: "E0406",
                title_en: "the use line shape is not understood",
                title_ko: "use 줄의 형태를 이해하지 못했습니다",
                detail_en: "Write the module line as `use random` (or `랜덤 사용`), optionally with `latest` or `version \"0.0.1\"`. Other word orders are not accepted.",
                detail_ko: "모듈 줄은 `use random`(`랜덤 사용`) 형태로 쓰고, 원하면 `latest`나 `version \"0.0.1\"`를 붙이세요. 다른 단어 순서는 받아들이지 않습니다.",
            },
            Self::SaveValueMissing => CodeExplanation {
                code: "E0411",
                title_en: "the value to save is missing",
                title_ko: "저장할 값이 비어 있습니다",
                detail_en: "`set x to ...` (or `x은 ...`) needs a value after it: a number, text, or an expression. Add the value or remove the line.",
                detail_ko: "`set x to ...`(`x은 ...`) 뒤에는 값이 필요합니다: 숫자, 글자, 또는 식. 값을 추가하거나 줄을 지우세요.",
            },
            Self::SaveValueUnparseable => CodeExplanation {
                code: "E0412",
                title_en: "the value to save could not be understood",
                title_ko: "저장할 값을 이해하지 못했습니다",
                detail_en: "NME could not turn the saved value into a Python expression. Check quotes around text, number spelling, and known variable names.",
                detail_ko: "NME가 저장할 값을 Python 식으로 바꾸지 못했습니다. 글자의 따옴표, 숫자 표기, 변수 이름을 확인하세요.",
            },
            Self::SaveNameMissing => CodeExplanation {
                code: "E0413",
                title_en: "the name to save into is missing",
                title_ko: "저장할 이름이 비어 있습니다",
                detail_en: "`set x to 3` saves into `x`. Write a variable name after `set` (or before `은`/`는`).",
                detail_ko: "`set x to 3`은 `x`에 저장합니다. `set` 뒤(`은`/`는` 앞)에 변수 이름을 쓰세요.",
            },
            Self::SaveNameNotSimple => CodeExplanation {
                code: "E0414",
                title_en: "the save target is not a simple name",
                title_ko: "저장 대상이 단순한 이름이 아닙니다",
                detail_en: "NME can only save into a simple variable name (letters and numbers, starting with a letter). Attributes like `x.count` stay Python: write them as a Python line.",
                detail_ko: "NME는 간단한 변수 이름(문자로 시작하는 문자·숫자 조합)에만 저장할 수 있습니다. `x.count` 같은 속성은 Python 줄로 그대로 쓰세요.",
            },
            Self::IndentationRequired => CodeExplanation {
                code: "E0501",
                title_en: "the repeated block is not indented",
                title_ko: "반복할 블록이 들여쓰지 않았습니다",
                detail_en: "The body lines of `N times:` must be indented (press Tab or four spaces), or the block can use a sentence-level form with `end`/`끝`. NME never guesses which lines belong to the block.",
                detail_ko: "`N times:`의 본문 줄은 들여쓰기(Tab 또는 스페이스 4칸)해야 합니다. 또는 `end`/`끝`을 쓰는 문장형 블록을 사용하세요. NME는 어떤 줄이 블록에 속하는지 추측하지 않습니다.",
            },
            Self::ColonRequired => CodeExplanation {
                code: "E0502",
                title_en: "the condition needs a colon",
                title_ko: "조건 뒤에 콜론이 필요합니다",
                detail_en: "A beginner `if`/`while` header with no indented body needs `:` to stay valid Python, or use the sentence form that ends with `end`/`끝`.",
                detail_ko: "본문이 들여쓰기로 없는 초급형 `if`/`while` 헤더는 `:`가 있어야 올바른 Python이 됩니다. 또는 `end`/`끝`으로 끝나는 문장형을 쓰세요.",
            },
            Self::BlockWithoutStatement => CodeExplanation {
                code: "E0503",
                title_en: "a block that starts without a statement",
                title_ko: "문장 없이 시작하는 블록",
                detail_en: "A line like `if ...:` or `3 times:` must be followed by the statement it applies to. Write the body on the next line, or on the same line after a space.",
                detail_ko: "`if ...:`나 `3 times:` 같은 줄 뒤에는 적용할 문장이 와야 합니다. 다음 줄에 쓰거나, 한 칸 띄고 같은 줄에 쓰세요.",
            },
            Self::OneStatementPerLine => CodeExplanation {
                code: "E0504",
                title_en: "one statement per line",
                title_ko: "한 줄에 문장 하나",
                detail_en: "NME sentences must stay on one physical line. Split the line into two sentences or keep the Python version (`;` is Python, not NME).",
                detail_ko: "NME 문장은 한 줄에 하나여야 합니다. 두 문장으로 나누거나 Python 형태(`;`)로 쓰세요.",
            },
            Self::BodyUnparseable => CodeExplanation {
                code: "E0505",
                title_en: "the block body is not a statement NME knows",
                title_ko: "블록 본문이 NME가 아는 문장이 아닙니다",
                detail_en: "The indented body of this block is neither ordinary Python nor an NME form. Check the spelling of the sentence, or write it as Python.",
                detail_ko: "이 블록의 들여쓴 본문은 일반 Python도 NME 형식도 아닙니다. 문장 철자를 확인하거나 Python으로 쓰세요.",
            },
            Self::AmbiguousAction => CodeExplanation {
                code: "E0601",
                title_en: "the sentence could mean more than one action",
                title_ko: "여러 동작으로 해석될 수 있는 문장입니다",
                detail_en: "More than one NME action (say, ask, save, ...) fits this sentence, and NME never guesses. Rewrite the sentence with the action word spelled exactly, for example `say Hello`.",
                detail_ko: "이 문장에 여러 NME 동작(say, ask, 저장 등)이 맞을 수 있습니다. NME는 추측하지 않습니다. `say Hello`처럼 동작 단어를 정확히 적어 다시 쓰세요.",
            },
            Self::MissingAction => CodeExplanation {
                code: "E0602",
                title_en: "no NME action was found on this line",
                title_ko: "이 줄에서 NME 동작을 찾지 못했습니다",
                detail_en: "This line is not valid Python and does not start with a known NME action. Start with a documented action word such as `show`, `say`, `ask`, `말해`, `물어봐`, or write the line as Python.",
                detail_ko: "이 줄은 올바른 Python도 아니고 알려진 NME 동작으로 시작하지도 않습니다. `show`, `say`, `ask`, `말해`, `물어봐` 같은 문서에 있는 동작 단어로 시작하거나 Python으로 쓰세요.",
            },
            Self::MultilineSentence => CodeExplanation {
                code: "E0701",
                title_en: "a sentence-style line across several physical lines",
                title_ko: "여러 줄에 걸친 문장형 줄",
                detail_en: "NME sentences must fit on one physical line so error line numbers stay exact. Join the sentence into one line.",
                detail_ko: "오류 줄 번호를 정확히 유지하기 위해 NME 문장은 한 줄에 맞아야 합니다. 문장을 한 줄로 합치세요.",
            },
            Self::ConvertInvalidPython => CodeExplanation {
                code: "E0702",
                title_en: "the Python source is not valid",
                title_ko: "Python 소스가 올바르지 않습니다",
                detail_en: "`nme convert` only rewrites valid Python. Fix the syntax error shown in the message, then convert again.",
                detail_ko: "`nme 변환`은 올바른 Python만 변환합니다. 메시지에 표시된 문법 오류를 고친 뒤 다시 변환하세요.",
            },
            Self::CliUnknownCommand => CodeExplanation {
                code: "E9001",
                title_en: "unknown command",
                title_ko: "알 수 없는 명령",
                detail_en: "The first word of the command is not one NME knows. Run `nme help` (or `nme 도움`) for the command list; `nme r` runs the single .nme program in the current folder.",
                detail_ko: "명령의 첫 단어가 NME가 아는 명령이 아닙니다. `nme 도움`(`nme help`)으로 명령 목록을 보세요. 현재 폴더에 .nme 프로그램이 하나뿐이면 `nme r`만으로 실행할 수 있습니다.",
            },
            Self::CliModulesExtraArgument => CodeExplanation {
                code: "E9002",
                title_en: "`modules` takes no extra arguments",
                title_ko: "`모듈` 명령에는 추가 인자가 없습니다",
                detail_en: "`nme modules` only lists the bundled modules. Do not add a file name or option.",
                detail_ko: "`nme modules`는 내장 모듈 목록만 보여 줍니다. 파일 이름이나 옵션을 붙이지 마세요.",
            },
            Self::CliInvalidOptionValue => CodeExplanation {
                code: "E9003",
                title_en: "an option is missing its value",
                title_ko: "옵션 뒤에 값이 없습니다",
                detail_en: "Options like `--level`, `--language`, `-o`, and `--python` need a value right after them, for example `--python python3`. Read the value from the option that failed, or run `nme help`.",
                detail_ko: "`--level`, `--language`, `-o`, `--python` 같은 옵션은 바로 뒤에 값이 필요합니다. 예: `--python python3`. 오류가 난 옵션의 값을 확인하거나 `nme 도움`을 실행하세요.",
            },
            Self::CliUnknownOption => CodeExplanation {
                code: "E9004",
                title_en: "unknown option",
                title_ko: "알 수 없는 옵션",
                detail_en: "The option flag starting with `-` is not one NME knows. Run `nme help` for the supported options of each command.",
                detail_ko: "`-`로 시작하는 옵션이 NME가 아는 옵션이 아닙니다. `nme 도움`에서 각 명령의 지원 옵션을 확인하세요.",
            },
            Self::CliUnexpectedExtraFile => CodeExplanation {
                code: "E9005",
                title_en: "unexpected extra file",
                title_ko: "추가로 적힌 파일",
                detail_en: "These commands take one file. Remove the extra file name, or run the commands one at a time.",
                detail_ko: "이 명령은 파일 하나만 받습니다. 추가로 적은 파일을 지우거나, 명령을 하나씩 실행하세요.",
            },
            Self::CliConvertNeedsFile => CodeExplanation {
                code: "E9006",
                title_en: "`convert` needs a file",
                title_ko: "`변환`에는 파일이 필요합니다",
                detail_en: "`nme convert` turns a Python file into NME, so it needs a file name: `nme convert app.py`.",
                detail_ko: "`nme 변환`은 Python 파일을 NME로 바꾸므로 파일 이름이 필요합니다: `nme 변환 app.py`.",
            },
            Self::CliFileReadFailed => CodeExplanation {
                code: "E9007",
                title_en: "a file could not be read",
                title_ko: "파일을 읽을 수 없습니다",
                detail_en: "NME could not open the file. Check the path, the file name, and the folder permissions, then run the command again.",
                detail_ko: "NME가 파일을 열 수 없습니다. 경로, 파일 이름, 폴더 권한을 확인한 뒤 다시 실행하세요.",
            },
            Self::CliFileWriteFailed => CodeExplanation {
                code: "E9008",
                title_en: "a file could not be written",
                title_ko: "파일을 저장할 수 없습니다",
                detail_en: "NME could not write the output file. Check the folder permissions and that no program has the file locked.",
                detail_ko: "NME가 결과 파일을 저장하지 못했습니다. 폴더 권한과 파일이 다른 프로그램에 잠겨 있지 않은지 확인하세요.",
            },
            Self::CliRefuseOverwrite => CodeExplanation {
                code: "E9009",
                title_en: "refusing to overwrite the output",
                title_ko: "결과 파일을 덮어쓰지 않습니다",
                detail_en: "`nme build -o` and `nme compile -o` never overwrite an existing file by accident. Delete or rename the existing file, or choose another output name.",
                detail_ko: "`nme build -o`와 `nme compile -o`는 실수로 기존 파일을 덮어쓰지 않습니다. 기존 파일을 삭제하거나 이름을 바꾸거나 다른 출력 이름을 고르세요.",
            },
            Self::CliNativeCompileFailed => CodeExplanation {
                code: "E9010",
                title_en: "the native compiler failed",
                title_ko: "네이티브 컴파일이 실패했습니다",
                detail_en: "The native build stopped with an error; the compiler message above says why. `nme compile` builds with Nuitka and `nme native` with the system C compiler: confirm the one you used is installed, then try again.",
                detail_ko: "네이티브 빌드가 오류로 멈췄습니다. 위의 컴파일러 메시지에서 이유를 확인하세요. `nme 컴파일`은 Nuitka로, `nme 네이티브`는 시스템 C 컴파일러로 빌드합니다. 사용한 도구가 설치되어 있는지 확인한 뒤 다시 시도하세요.",
            },
            Self::CliNativeCompileStartFailed => CodeExplanation {
                code: "E9011",
                title_en: "the native compiler could not be started",
                title_ko: "네이티브 컴파일러를 시작할 수 없습니다",
                detail_en: "NME could not launch the compiler. `nme compile` needs Python and Nuitka (`python3 -m pip install nuitka`); `nme native` needs the system C compiler (`cc`). Install the one you need, then run the command again.",
                detail_ko: "NME가 컴파일러를 실행하지 못했습니다. `nme 컴파일`에는 Python과 Nuitka(`python3 -m pip install nuitka`)가, `nme 네이티브`에는 시스템 C 컴파일러(`cc`)가 필요합니다. 필요한 것을 설치한 뒤 다시 실행하세요.",
            },
            Self::CliCpythonValidationFailed => CodeExplanation {
                code: "E9012",
                title_en: "CPython rejected the generated Python",
                title_ko: "CPython이 만들어진 Python을 거부했습니다",
                detail_en: "`nme check` and `nme build` ask CPython to compile the generated program. The message below shows the exact Python problem (usually indentation). Fix the NME source that produced it.",
                detail_ko: "`nme 검사`와 `nme 빌드`는 생성된 프로그램을 CPython이 컴파일할 수 있는지 확인합니다. 아래 메시지가 정확한 Python 문제(보통 들여쓰기)를 보여 줍니다. 그 원인이 된 NME 소스를 고치세요.",
            },
            Self::CliPythonStartFailed => CodeExplanation {
                code: "E9013",
                title_en: "Python could not be started",
                title_ko: "Python을 시작할 수 없습니다",
                detail_en: "NME runs programs with the Python command it chose. Install Python 3 so that `python3` (or `py` on Windows) works, then run the command again. Only unusual setups need `--python <command>`.",
                detail_ko: "NME는 선택한 Python 명령으로 프로그램을 실행합니다. `python3`(Windows에서는 `py`)이 동작하도록 Python 3를 설치한 뒤 다시 실행하세요. 특별한 환경에서만 `--python <명령>`이 필요합니다.",
            },
            Self::CliFolderNotProgram => CodeExplanation {
                code: "E9014",
                title_en: "that is a folder, not a program",
                title_ko: "폴더는 프로그램이 아닙니다",
                detail_en: "NME runs a single .nme file, not a folder. Type a program name, or run `nme r` inside the folder that contains one .nme program.",
                detail_ko: "NME는 폴더가 아니라 .nme 파일 하나를 실행합니다. 프로그램 이름을 적거나, .nme 프로그램이 있는 폴더 안에서 `nme r`을 실행하세요.",
            },
            Self::CliMissingProgram => CodeExplanation {
                code: "E9015",
                title_en: "the program file does not exist",
                title_ko: "프로그램 파일이 없습니다",
                detail_en: "The typed name does not match a file. If you see a `did you mean` hint, use that name; otherwise create the file or run `nme r` to run the single .nme program here.",
                detail_ko: "적은 이름과 일치하는 파일이 없습니다. `did you mean` 힌트가 보이면 그 이름을 쓰세요. 아니면 파일을 만들거나, 여기 있는 .nme 프로그램 하나를 `nme r`로 실행하세요.",
            },
            Self::CliFolderReadFailed => CodeExplanation {
                code: "E9016",
                title_en: "the current folder could not be read",
                title_ko: "현재 폴더를 읽을 수 없습니다",
                detail_en: "NME needs to list the folder to find .nme programs. Check the folder permissions, then try again.",
                detail_ko: "NME가 .nme 프로그램을 찾으려면 폴더 목록을 읽어야 합니다. 폴더 권한을 확인한 뒤 다시 시도하세요.",
            },
            Self::CliNoProgramHere => CodeExplanation {
                code: "E9017",
                title_en: "no .nme program in this folder",
                title_ko: "이 폴더에 .nme 프로그램이 없습니다",
                detail_en: "`nme r` without a file name needs one .nme program in the current folder. Create one (for example hello.nme) or type a file name: `nme r hello`.",
                detail_ko: "파일 이름 없이 `nme r`을 실행하려면 현재 폴더에 .nme 프로그램이 하나 필요합니다. 파일을 만들거나(예: hello.nme) 파일 이름을 적으세요: `nme r hello`.",
            },
            Self::CliPickAnswerUnreadable => CodeExplanation {
                code: "E9018",
                title_en: "the pick answer could not be read",
                title_ko: "선택 답변을 읽을 수 없습니다",
                detail_en: "NME could not read the answer from the keyboard. Run the command again and type a number or a program name, then press Enter.",
                detail_ko: "NME가 키보드에서 답변을 읽지 못했습니다. 명령을 다시 실행하고 숫자나 프로그램 이름을 적은 뒤 Enter를 누르세요.",
            },
            Self::CliEmptyPickAnswer => CodeExplanation {
                code: "E9019",
                title_en: "no pick answer given",
                title_ko: "선택 답변이 비어 있습니다",
                detail_en: "The answer was empty. Type a number from the list or a program name, then press Enter.",
                detail_ko: "답변이 비어 있습니다. 목록에서 숫자를 고르거나 프로그램 이름을 적은 뒤 Enter를 누르세요.",
            },
            Self::CliInvalidPickAnswer => CodeExplanation {
                code: "E9020",
                title_en: "the pick answer is not a listed program",
                title_ko: "선택 답변이 목록에 없습니다",
                detail_en: "The number or name is not one of the programs above. Use a number from the list, or the exact program name.",
                detail_ko: "숫자나 이름이 위 목록의 프로그램이 아닙니다. 목록의 숫자나 정확한 프로그램 이름을 사용하세요.",
            },
            Self::CliAmbiguousPickAnswer => CodeExplanation {
                code: "E9021",
                title_en: "the pick answer matches several programs",
                title_ko: "선택 답변이 여러 프로그램과 일치합니다",
                detail_en: "The typed name is a prefix of more than one program. Pick a number from the list above, or type more of the name.",
                detail_ko: "적은 이름이 여러 프로그램의 앞부분과 일치합니다. 위 목록에서 숫자를 고르거나 이름을 더 길게 입력하세요.",
            },
            Self::CliAmbiguousProgramPrefix => CodeExplanation {
                code: "E9022",
                title_en: "several programs match this name",
                title_ko: "이 이름과 일치하는 프로그램이 여러 개입니다",
                detail_en: "A short name may be used only while it names exactly one .nme program. Type more of the name so only one program matches.",
                detail_ko: "짧은 이름은 정확히 하나의 .nme 프로그램을 가리킬 때만 쓸 수 있습니다. 하나만 일치하도록 이름을 더 길게 적으세요.",
            },
            Self::CliErrorLookupInvalidArgs => CodeExplanation {
                code: "E9023",
                title_en: "the error lookup takes one code",
                title_ko: "오류 코드는 한 번에 하나만 확인할 수 있습니다",
                detail_en: "`nme ko <CODE>` and `nme en <CODE>` take exactly one code. Run `nme ko` with no code to list every code.",
                detail_ko: "`nme ko <코드>`와 `nme en <코드>`는 코드 하나만 받습니다. 코드 없이 `nme ko`를 실행하면 모든 코드를 볼 수 있습니다.",
            },
            Self::CliErrorLookupUnknownCode => CodeExplanation {
                code: "E9024",
                title_en: "unknown error code",
                title_ko: "알 수 없는 오류 코드",
                detail_en: "The code is not one NME uses. Run `nme ko` to see the full list, or copy the code exactly from the error message.",
                detail_ko: "이 코드는 NME가 쓰는 코드가 아닙니다. `nme ko`로 전체 목록을 보거나, 오류 메시지에서 코드를 정확히 복사하세요.",
            },
            Self::CliPackageInstallFailed => CodeExplanation {
                code: "E9025",
                title_en: "pip could not install the package",
                title_ko: "pip이 패키지를 설치하지 못했습니다",
                detail_en: "pip could not install the package; its message above says why. Check the package name and your network connection, then run the command again.",
                detail_ko: "pip이 패키지를 설치하지 못했습니다. 위의 pip 메시지에서 이유를 확인하세요. 패키지 이름과 네트워크 연결을 확인한 뒤 다시 실행하세요.",
            },
            Self::CliNativeRunFailed => CodeExplanation {
                code: "E9026",
                title_en: "the native program could not be started",
                title_ko: "네이티브 프로그램을 시작할 수 없습니다",
                detail_en: "The native build finished, but NME could not start the executable it made. Check that the folder allows running programs, then run the command again.",
                detail_ko: "네이티브 빌드는 끝났지만 NME가 만들어진 실행 파일을 시작할 수 없습니다. 폴더에서 프로그램을 실행할 수 있는지 확인한 뒤 다시 실행하세요.",
            },
            Self::CliTempFolderFailed => CodeExplanation {
                code: "E9027",
                title_en: "a temporary working folder could not be created",
                title_ko: "임시 작업 폴더를 만들 수 없습니다",
                detail_en: "NME needs a temporary working folder for this command and could not create one. Check the free disk space and the permissions of the temporary folder.",
                detail_ko: "이 명령에는 임시 작업 폴더가 필요한데 NME가 만들지 못했습니다. 디스크 여유 공간과 임시 폴더 권한을 확인하세요.",
            },
            Self::CliModuleNameCollision => CodeExplanation {
                code: "E9028",
                title_en: "two imported modules have the same name",
                title_ko: "가져온 두 모듈의 이름이 같습니다",
                detail_en: "Two `.nme` modules imported by this program would become Python modules of the same name. Rename one of the files.",
                detail_ko: "이 프로그램이 가져오는 두 `.nme` 모듈이 같은 이름의 Python 모듈이 됩니다. 파일 하나의 이름을 바꾸세요.",
            },
            Self::CliCompileImportsUnsupported => CodeExplanation {
                code: "E9029",
                title_en: "`nme compile` does not support module imports",
                title_ko: "`nme 컴파일`은 모듈 가져오기를 지원하지 않습니다",
                detail_en: "A program that imports other `.nme` files cannot be compiled into one executable yet. Run it with `nme run`, or put the imported code into the program.",
                detail_ko: "다른 `.nme` 파일을 가져오는 프로그램은 아직 실행 파일 하나로 컴파일할 수 없습니다. `nme 실행`으로 실행하거나 가져온 코드를 프로그램 안에 넣으세요.",
            },
            Self::CliInstallNeedsPackage => CodeExplanation {
                code: "E9030",
                title_en: "the package name is missing",
                title_ko: "패키지 이름이 없습니다",
                detail_en: "Installing needs the name of the package to install, for example `requests`. Add the package name and run the command again.",
                detail_ko: "설치하려면 설치할 패키지 이름이 필요합니다(예: `requests`). 패키지 이름을 적고 다시 실행하세요.",
            },
        }
    }
}

/// Every code has a long explanation page in both languages, and the page
/// names the code it explains.
pub proof fn law_every_code_is_explained(code: DiagnosticCode)
    ensures
        explanation_of(code).code@ == code.spec_code(),
        explanation_of(code).title_en@.len() > 0,
        explanation_of(code).title_ko@.len() > 0,
        explanation_of(code).detail_en@.len() > 0,
        explanation_of(code).detail_ko@.len() > 0,
{
    match code {
        DiagnosticCode::UnrecognizedInput => {
            reveal_strlit("E0001");
            reveal_strlit("this line is not valid Python or NME");
            reveal_strlit("이 줄은 올바른 Python도 NME도 아닙니다");
            reveal_strlit("NME first checks whether a line is ordinary Python; then it looks for known NME forms. This line is neither. Check for a missing quote or bracket, or for an unfinished sentence.");
            reveal_strlit("NME는 먼저 줄이 일반 Python인지 확인하고, 그다음 알고 있는 NME 형식을 찾습니다. 이 줄은 둘 다 아닙니다. 따옴표나 괄호가 빠졌는지, 문장이 끝나지 않았는지 확인하세요.");
        },
        DiagnosticCode::StrayEnd => {
            reveal_strlit("E0101");
            reveal_strlit("an `end` with no open block");
            reveal_strlit("열린 블록이 없는 `끝`");
            reveal_strlit("Every `end` (or `끝`) must close a block that is still open. This one appears after every block has already been closed, or before any block started.");
            reveal_strlit("모든 `end`(`끝`)는 아직 열려 있는 블록을 닫아야 합니다. 여기의 `끝`은 모든 블록이 이미 닫힌 뒤이거나, 블록이 시작되기 전에 나왔습니다.");
        },
        DiagnosticCode::BreakOutsideLoop => {
            reveal_strlit("E0102");
            reveal_strlit("`break` outside a loop");
            reveal_strlit("반복문 밖의 `break`");
            reveal_strlit("`break` (or `멈춰`) stops the nearest loop, so it can only be written inside a `while`/`repeat` block or a Python loop. Move it inside the loop, or remove it.");
            reveal_strlit("`break`(`멈춰`)는 가장 가까운 반복문을 멈추므로 `while`/`repeat` 블록이나 Python 반복문 안에서만 쓸 수 있습니다. 반복문 안으로 옮기거나 지우세요.");
        },
        DiagnosticCode::BranchWithoutCondition => {
            reveal_strlit("E0103");
            reveal_strlit("an `else` or `elif` with no open condition");
            reveal_strlit("열린 조건이 없는 `아니면`");
            reveal_strlit("`else`, `else if`, `elif`, `아니면` are branches of an `if` (or `만약`) block. Write the `if` line first and keep the `else` inside the same block, before its `end`.");
            reveal_strlit("`else`, `else if`, `elif`, `아니면`은 `if`(`만약`) 블록의 가지입니다. 먼저 `if` 줄을 쓰고, `else`는 같은 블록 안에서 `끝`보다 앞에 두세요.");
        },
        DiagnosticCode::DuplicateElse => {
            reveal_strlit("E0104");
            reveal_strlit("two `else` branches in one condition");
            reveal_strlit("한 조건에 `else`가 두 번");
            reveal_strlit("A condition can only have one `else` (or `아니면`) branch. Turn the second one into an `else if`/`elif`/`아니면 만약에` branch instead.");
            reveal_strlit("조건에는 `else`(`아니면`) 가지가 하나만 올 수 있습니다. 두 번째는 `else if`/`elif`/`아니면 만약에` 가지로 바꾸세요.");
        },
        DiagnosticCode::MissingEnd => {
            reveal_strlit("E0105");
            reveal_strlit("a block without its closing `end`");
            reveal_strlit("닫는 `end`가 없는 블록");
            reveal_strlit("This loop or condition block is still open at the end of the file. Add a closing `end` (or `끝`) line after the block's last line.");
            reveal_strlit("이 반복문·조건 블록이 파일 끝까지 열려 있습니다. 블록의 마지막 줄 뒤에 닫는 `end`(`끝`) 줄을 추가하세요.");
        },
        DiagnosticCode::ContinueOutsideLoop => {
            reveal_strlit("E0107");
            reveal_strlit("`continue` outside a loop");
            reveal_strlit("반복문 밖의 `continue`");
            reveal_strlit("`continue` ends this round of the nearest loop and starts the next one, so it can only be written inside a `while`/`repeat` block or a Python loop. Move it inside the loop, or remove it.");
            reveal_strlit("`continue`는 가장 가까운 반복문의 이번 회차를 끝내고 다음 회차로 넘어가라는 말이므로 `while`/`repeat` 블록이나 Python 반복문 안에서만 쓸 수 있습니다. 반복문 안으로 옮기거나 지우세요.");
        },
        DiagnosticCode::SayValueBroken => {
            reveal_strlit("E0201");
            reveal_strlit("`say` value could not be understood");
            reveal_strlit("`say`의 값을 이해하지 못했습니다");
            reveal_strlit("After `say` (or `말해`) NME expects a value to show: text, a number, a known variable, or a simple expression. The words here do not form any of those.");
            reveal_strlit("`say`(`말해`) 뒤에는 보여 줄 값이 와야 합니다: 글자, 숫자, 알고 있는 변수, 또는 간단한 식. 여기의 단어들은 그 중 어떤 형태도 아닙니다.");
        },
        DiagnosticCode::SayValueUnparseable => {
            reveal_strlit("E0202");
            reveal_strlit("the `say` expression is not valid");
            reveal_strlit("`say`의 식이 올바르지 않습니다");
            reveal_strlit("The value after `say` is a name or expression Python cannot read. Check for missing quotes around text and correct variable names.");
            reveal_strlit("`say` 뒤의 값은 Python이 읽지 못하는 이름이나 식입니다. 글자 주변의 따옴표와 변수 이름을 확인하세요.");
        },
        DiagnosticCode::SaySentenceUnparseable => {
            reveal_strlit("E0203");
            reveal_strlit("the sentence to show is not valid");
            reveal_strlit("보여 줄 문장이 올바르지 않습니다");
            reveal_strlit("NME could not turn this sentence into something Python can print. Known variable names can be mixed into the sentence; everything else must be plain text.");
            reveal_strlit("NME가 이 문장을 Python으로 출력할 수 있는 형태로 바꾸지 못했습니다. 알고 있는 변수 이름은 문장에 섞일 수 있고, 나머지는 일반 글자여야 합니다.");
        },
        DiagnosticCode::SayMissing => {
            reveal_strlit("E0204");
            reveal_strlit("`say` has nothing to show");
            reveal_strlit("`say`에 보여 줄 내용이 없습니다");
            reveal_strlit("`say` (or `말해`) needs something after it. Write `say Hello` or `say \"Hello\"`.");
            reveal_strlit("`say`(`말해`) 뒤에 내용이 필요합니다. `say Hello` 또는 `say \"Hello\"`처럼 적으세요.");
        },
        DiagnosticCode::AskQuestionMissing => {
            reveal_strlit("E0211");
            reveal_strlit("the question after the comma is missing");
            reveal_strlit("쉼표 뒤의 질문이 비어 있습니다");
            reveal_strlit("An `ask` with a comma needs a question after it: `ask name, What is your name?`. Add the question or remove the comma.");
            reveal_strlit("쉼표가 있는 `ask`는 뒤에 질문이 필요합니다: `ask name, What is your name?`. 질문을 추가하거나 쉼표를 지우세요.");
        },
        DiagnosticCode::AskQuestionUnparseable => {
            reveal_strlit("E0212");
            reveal_strlit("the question could not be understood");
            reveal_strlit("질문을 이해하지 못했습니다");
            reveal_strlit("NME could not turn this `ask` question into something Python can print. Keep it as plain text, optionally with a known variable name.");
            reveal_strlit("NME가 이 `ask` 질문을 Python으로 출력할 수 있는 형태로 바꾸지 못했습니다. 일반 글자로 쓰고, 원하면 알고 있는 변수 이름을 섞으세요.");
        },
        DiagnosticCode::AskTargetInvalid => {
            reveal_strlit("E0213");
            reveal_strlit("the `ask` target is not a variable name");
            reveal_strlit("`ask`의 대상이 변수 이름이 아닙니다");
            reveal_strlit("`ask name, ...` saves the answer into `name`. Write a simple variable name there (letters and numbers, starting with a letter), not a sentence or a keyword.");
            reveal_strlit("`ask name, ...`는 답을 `name`에 저장합니다. 문장이나 키워드가 아니라 간단한 변수 이름(문자로 시작하는 문자·숫자 조합)을 적으세요.");
        },
        DiagnosticCode::UpdateUnparseable => {
            reveal_strlit("E0221");
            reveal_strlit("the value change could not be understood");
            reveal_strlit("값 변경을 이해하지 못했습니다");
            reveal_strlit("A value change looks like `score add 1` or `점수에 1 더해` or `점수는 점수 + 1`. Check the target name, the action word, and the amount.");
            reveal_strlit("값 변경은 `score add 1`, `점수에 1 더해`, `점수는 점수 + 1` 같은 형태입니다. 대상 이름, 동작 단어, 그리고 값이 맞는지 확인하세요.");
        },
        DiagnosticCode::BreakCommandUnparseable => {
            reveal_strlit("E0222");
            reveal_strlit("the break command could not be understood");
            reveal_strlit("break 명령을 이해하지 못했습니다");
            reveal_strlit("Inside a loop, write `break here`, `멈춰`, or just `break`. Nothing else belongs on that line.");
            reveal_strlit("반복문 안에서 `break here`, `멈춰` 또는 그냥 `break`라고 쓰세요. 그 줄에는 다른 내용이 들어가지 않아야 합니다.");
        },
        DiagnosticCode::ConditionMissing => {
            reveal_strlit("E0301");
            reveal_strlit("the condition is missing");
            reveal_strlit("조건이 비어 있습니다");
            reveal_strlit("`if`/`when`/`while`/`만약` needs a condition after it, for example `if score is greater than 10` or `만약 점수가 10보다 크면`.");
            reveal_strlit("`if`/`when`/`while`/`만약` 뒤에는 조건이 필요합니다. 예: `if score is greater than 10`, `만약 점수가 10보다 크면`.");
        },
        DiagnosticCode::ConditionInvalid => {
            reveal_strlit("E0302");
            reveal_strlit("the condition could not be understood");
            reveal_strlit("조건을 이해하지 못했습니다");
            reveal_strlit("NME could not read this condition. Use a comparison such as `is less than`, `equals`, `!=`, `보다 크면`, `와 같으면`, joined with `and`/`or` (`그리고`/`또는`).");
            reveal_strlit("NME가 이 조건을 읽지 못했습니다. `is less than`, `equals`, `!=`, `보다 크면`, `와 같으면` 같은 비교를 `and`/`or`(`그리고`/`또는`)로 연결해 쓰세요.");
        },
        DiagnosticCode::RepeatBodyUnparseable => {
            reveal_strlit("E0303");
            reveal_strlit("the repeated body could not be understood");
            reveal_strlit("반복할 내용을 이해하지 못했습니다");
            reveal_strlit("After `3 times:` (or `3 번:`) the body line must be an NME or Python statement. Write the body on its own indented line instead of sharing the header line.");
            reveal_strlit("`3 times:`(`3 번:`) 뒤의 본문 줄은 NME 또는 Python 문장이어야 합니다. 헤더 줄에 함께 쓰지 말고 본문을 따로 들여쓴 줄에 쓰세요.");
        },
        DiagnosticCode::RepeatCountUnparseable => {
            reveal_strlit("E0304");
            reveal_strlit("the repeat count could not be understood");
            reveal_strlit("반복 횟수를 이해하지 못했습니다");
            reveal_strlit("`N times:` needs a number for N, for example `3 times:` or `3 번:`. Words and expressions are not accepted here.");
            reveal_strlit("`N times:`의 N 자리에는 숫자가 필요합니다. 예: `3 times:`, `3 번:`. 이 자리에 단어나 식은 쓸 수 없습니다.");
        },
        DiagnosticCode::RepeatCountMissing => {
            reveal_strlit("E0305");
            reveal_strlit("the repeat count is missing");
            reveal_strlit("반복 횟수가 비어 있습니다");
            reveal_strlit("`times:` needs a count before the colon. Write the number of repetitions, for example `3 times: show Hello`.");
            reveal_strlit("`times:`는 콜론 앞에 횟수가 필요합니다. 반복할 횟수를 적으세요. 예: `3 times: show Hello`.");
        },
        DiagnosticCode::UnsupportedModule => {
            reveal_strlit("E0401");
            reveal_strlit("NME bundles `use random` and `use file`");
            reveal_strlit("NME에는 `랜덤 사용`과 `파일 사용`이 내장되어 있습니다");
            reveal_strlit("NME ships a small set of beginner modules: `random` (or `랜덤`) for dice and picks, and `file` (or `파일`) for reading, writing, and JSON. Anything else is a Python import: write `import name` on its own line.");
            reveal_strlit("NME는 초보자용 모듈을 소수만 제공합니다: 주사위·선택용 `random`(`랜덤`)과 읽기·쓰기·JSON용 `file`(`파일`)입니다. 다른 것은 Python import로 쓸 수 있습니다: `import name`을 한 줄로 쓰세요.");
        },
        DiagnosticCode::LatestAndVersion => {
            reveal_strlit("E0402");
            reveal_strlit("latest and an exact version on one line");
            reveal_strlit("최신과 정확한 버전을 함께 적었습니다");
            reveal_strlit("A `use random` line either asks for the newest bundled version (`use random latest`) or for one exact version (`use random version \"0.0.1\"`), never both.");
            reveal_strlit("`use random` 줄은 내장 버전 중 최신(`use random latest`) 또는 정확한 버전 하나(`use random version \"0.0.1\"`) 중 하나만 요청할 수 있습니다. 둘은 함께 쓸 수 없습니다.");
        },
        DiagnosticCode::ModuleVersionMissing => {
            reveal_strlit("E0403");
            reveal_strlit("the module version is missing");
            reveal_strlit("모듈 버전이 비어 있습니다");
            reveal_strlit("`use random version` needs a version number after it, for example `use random version \"0.0.1\"`.");
            reveal_strlit("`use random version` 뒤에는 버전 번호가 필요합니다. 예: `use random version \"0.0.1\"`.");
        },
        DiagnosticCode::UnbundledVersion => {
            reveal_strlit("E0404");
            reveal_strlit("this module version is not bundled");
            reveal_strlit("내장되어 있지 않은 모듈 버전입니다");
            reveal_strlit("NME only ships specific versions of `random`. Run `nme modules` to see the bundled version, then write `use random version \"<that version>\"` or simply `use random latest`.");
            reveal_strlit("NME는 `random`의 특정 버전만 제공합니다. `nme 모듈`로 내장 버전을 확인한 뒤 `use random version \"<그 버전>\"` 또는 그냥 `use random latest`라고 쓰세요.");
        },
        DiagnosticCode::ModuleNameCollision => {
            reveal_strlit("E0405");
            reveal_strlit("the module would overwrite your names");
            reveal_strlit("모듈이 기존 이름을 덮어씁니다");
            reveal_strlit("The bundled module needs helper names such as `random_number`, `랜덤선택`, `file_read`, and `파일읽기`. One of those names is already in use in this file. Rename your variable or import the module before using that name.");
            reveal_strlit("내장 모듈은 `random_number`, `랜덤선택`, `file_read`, `파일읽기` 같은 도우미 이름을 사용합니다. 그 이름 중 하나가 이 파일에서 이미 쓰이고 있습니다. 변수 이름을 바꾸거나 그 이름을 쓰기 전에 모듈을 불러오세요.");
        },
        DiagnosticCode::ModuleShapeInvalid => {
            reveal_strlit("E0406");
            reveal_strlit("the use line shape is not understood");
            reveal_strlit("use 줄의 형태를 이해하지 못했습니다");
            reveal_strlit("Write the module line as `use random` (or `랜덤 사용`), optionally with `latest` or `version \"0.0.1\"`. Other word orders are not accepted.");
            reveal_strlit("모듈 줄은 `use random`(`랜덤 사용`) 형태로 쓰고, 원하면 `latest`나 `version \"0.0.1\"`를 붙이세요. 다른 단어 순서는 받아들이지 않습니다.");
        },
        DiagnosticCode::SaveValueMissing => {
            reveal_strlit("E0411");
            reveal_strlit("the value to save is missing");
            reveal_strlit("저장할 값이 비어 있습니다");
            reveal_strlit("`set x to ...` (or `x은 ...`) needs a value after it: a number, text, or an expression. Add the value or remove the line.");
            reveal_strlit("`set x to ...`(`x은 ...`) 뒤에는 값이 필요합니다: 숫자, 글자, 또는 식. 값을 추가하거나 줄을 지우세요.");
        },
        DiagnosticCode::SaveValueUnparseable => {
            reveal_strlit("E0412");
            reveal_strlit("the value to save could not be understood");
            reveal_strlit("저장할 값을 이해하지 못했습니다");
            reveal_strlit("NME could not turn the saved value into a Python expression. Check quotes around text, number spelling, and known variable names.");
            reveal_strlit("NME가 저장할 값을 Python 식으로 바꾸지 못했습니다. 글자의 따옴표, 숫자 표기, 변수 이름을 확인하세요.");
        },
        DiagnosticCode::SaveNameMissing => {
            reveal_strlit("E0413");
            reveal_strlit("the name to save into is missing");
            reveal_strlit("저장할 이름이 비어 있습니다");
            reveal_strlit("`set x to 3` saves into `x`. Write a variable name after `set` (or before `은`/`는`).");
            reveal_strlit("`set x to 3`은 `x`에 저장합니다. `set` 뒤(`은`/`는` 앞)에 변수 이름을 쓰세요.");
        },
        DiagnosticCode::SaveNameNotSimple => {
            reveal_strlit("E0414");
            reveal_strlit("the save target is not a simple name");
            reveal_strlit("저장 대상이 단순한 이름이 아닙니다");
            reveal_strlit("NME can only save into a simple variable name (letters and numbers, starting with a letter). Attributes like `x.count` stay Python: write them as a Python line.");
            reveal_strlit("NME는 간단한 변수 이름(문자로 시작하는 문자·숫자 조합)에만 저장할 수 있습니다. `x.count` 같은 속성은 Python 줄로 그대로 쓰세요.");
        },
        DiagnosticCode::IndentationRequired => {
            reveal_strlit("E0501");
            reveal_strlit("the repeated block is not indented");
            reveal_strlit("반복할 블록이 들여쓰지 않았습니다");
            reveal_strlit("The body lines of `N times:` must be indented (press Tab or four spaces), or the block can use a sentence-level form with `end`/`끝`. NME never guesses which lines belong to the block.");
            reveal_strlit("`N times:`의 본문 줄은 들여쓰기(Tab 또는 스페이스 4칸)해야 합니다. 또는 `end`/`끝`을 쓰는 문장형 블록을 사용하세요. NME는 어떤 줄이 블록에 속하는지 추측하지 않습니다.");
        },
        DiagnosticCode::ColonRequired => {
            reveal_strlit("E0502");
            reveal_strlit("the condition needs a colon");
            reveal_strlit("조건 뒤에 콜론이 필요합니다");
            reveal_strlit("A beginner `if`/`while` header with no indented body needs `:` to stay valid Python, or use the sentence form that ends with `end`/`끝`.");
            reveal_strlit("본문이 들여쓰기로 없는 초급형 `if`/`while` 헤더는 `:`가 있어야 올바른 Python이 됩니다. 또는 `end`/`끝`으로 끝나는 문장형을 쓰세요.");
        },
        DiagnosticCode::BlockWithoutStatement => {
            reveal_strlit("E0503");
            reveal_strlit("a block that starts without a statement");
            reveal_strlit("문장 없이 시작하는 블록");
            reveal_strlit("A line like `if ...:` or `3 times:` must be followed by the statement it applies to. Write the body on the next line, or on the same line after a space.");
            reveal_strlit("`if ...:`나 `3 times:` 같은 줄 뒤에는 적용할 문장이 와야 합니다. 다음 줄에 쓰거나, 한 칸 띄고 같은 줄에 쓰세요.");
        },
        DiagnosticCode::OneStatementPerLine => {
            reveal_strlit("E0504");
            reveal_strlit("one statement per line");
            reveal_strlit("한 줄에 문장 하나");
            reveal_strlit("NME sentences must stay on one physical line. Split the line into two sentences or keep the Python version (`;` is Python, not NME).");
            reveal_strlit("NME 문장은 한 줄에 하나여야 합니다. 두 문장으로 나누거나 Python 형태(`;`)로 쓰세요.");
        },
        DiagnosticCode::BodyUnparseable => {
            reveal_strlit("E0505");
            reveal_strlit("the block body is not a statement NME knows");
            reveal_strlit("블록 본문이 NME가 아는 문장이 아닙니다");
            reveal_strlit("The indented body of this block is neither ordinary Python nor an NME form. Check the spelling of the sentence, or write it as Python.");
            reveal_strlit("이 블록의 들여쓴 본문은 일반 Python도 NME 형식도 아닙니다. 문장 철자를 확인하거나 Python으로 쓰세요.");
        },
        DiagnosticCode::AmbiguousAction => {
            reveal_strlit("E0601");
            reveal_strlit("the sentence could mean more than one action");
            reveal_strlit("여러 동작으로 해석될 수 있는 문장입니다");
            reveal_strlit("More than one NME action (say, ask, save, ...) fits this sentence, and NME never guesses. Rewrite the sentence with the action word spelled exactly, for example `say Hello`.");
            reveal_strlit("이 문장에 여러 NME 동작(say, ask, 저장 등)이 맞을 수 있습니다. NME는 추측하지 않습니다. `say Hello`처럼 동작 단어를 정확히 적어 다시 쓰세요.");
        },
        DiagnosticCode::MissingAction => {
            reveal_strlit("E0602");
            reveal_strlit("no NME action was found on this line");
            reveal_strlit("이 줄에서 NME 동작을 찾지 못했습니다");
            reveal_strlit("This line is not valid Python and does not start with a known NME action. Start with a documented action word such as `show`, `say`, `ask`, `말해`, `물어봐`, or write the line as Python.");
            reveal_strlit("이 줄은 올바른 Python도 아니고 알려진 NME 동작으로 시작하지도 않습니다. `show`, `say`, `ask`, `말해`, `물어봐` 같은 문서에 있는 동작 단어로 시작하거나 Python으로 쓰세요.");
        },
        DiagnosticCode::MultilineSentence => {
            reveal_strlit("E0701");
            reveal_strlit("a sentence-style line across several physical lines");
            reveal_strlit("여러 줄에 걸친 문장형 줄");
            reveal_strlit("NME sentences must fit on one physical line so error line numbers stay exact. Join the sentence into one line.");
            reveal_strlit("오류 줄 번호를 정확히 유지하기 위해 NME 문장은 한 줄에 맞아야 합니다. 문장을 한 줄로 합치세요.");
        },
        DiagnosticCode::ConvertInvalidPython => {
            reveal_strlit("E0702");
            reveal_strlit("the Python source is not valid");
            reveal_strlit("Python 소스가 올바르지 않습니다");
            reveal_strlit("`nme convert` only rewrites valid Python. Fix the syntax error shown in the message, then convert again.");
            reveal_strlit("`nme 변환`은 올바른 Python만 변환합니다. 메시지에 표시된 문법 오류를 고친 뒤 다시 변환하세요.");
        },
        DiagnosticCode::CliUnknownCommand => {
            reveal_strlit("E9001");
            reveal_strlit("unknown command");
            reveal_strlit("알 수 없는 명령");
            reveal_strlit("The first word of the command is not one NME knows. Run `nme help` (or `nme 도움`) for the command list; `nme r` runs the single .nme program in the current folder.");
            reveal_strlit("명령의 첫 단어가 NME가 아는 명령이 아닙니다. `nme 도움`(`nme help`)으로 명령 목록을 보세요. 현재 폴더에 .nme 프로그램이 하나뿐이면 `nme r`만으로 실행할 수 있습니다.");
        },
        DiagnosticCode::CliModulesExtraArgument => {
            reveal_strlit("E9002");
            reveal_strlit("`modules` takes no extra arguments");
            reveal_strlit("`모듈` 명령에는 추가 인자가 없습니다");
            reveal_strlit("`nme modules` only lists the bundled modules. Do not add a file name or option.");
            reveal_strlit("`nme modules`는 내장 모듈 목록만 보여 줍니다. 파일 이름이나 옵션을 붙이지 마세요.");
        },
        DiagnosticCode::CliInvalidOptionValue => {
            reveal_strlit("E9003");
            reveal_strlit("an option is missing its value");
            reveal_strlit("옵션 뒤에 값이 없습니다");
            reveal_strlit("Options like `--level`, `--language`, `-o`, and `--python` need a value right after them, for example `--python python3`. Read the value from the option that failed, or run `nme help`.");
            reveal_strlit("`--level`, `--language`, `-o`, `--python` 같은 옵션은 바로 뒤에 값이 필요합니다. 예: `--python python3`. 오류가 난 옵션의 값을 확인하거나 `nme 도움`을 실행하세요.");
        },
        DiagnosticCode::CliUnknownOption => {
            reveal_strlit("E9004");
            reveal_strlit("unknown option");
            reveal_strlit("알 수 없는 옵션");
            reveal_strlit("The option flag starting with `-` is not one NME knows. Run `nme help` for the supported options of each command.");
            reveal_strlit("`-`로 시작하는 옵션이 NME가 아는 옵션이 아닙니다. `nme 도움`에서 각 명령의 지원 옵션을 확인하세요.");
        },
        DiagnosticCode::CliUnexpectedExtraFile => {
            reveal_strlit("E9005");
            reveal_strlit("unexpected extra file");
            reveal_strlit("추가로 적힌 파일");
            reveal_strlit("These commands take one file. Remove the extra file name, or run the commands one at a time.");
            reveal_strlit("이 명령은 파일 하나만 받습니다. 추가로 적은 파일을 지우거나, 명령을 하나씩 실행하세요.");
        },
        DiagnosticCode::CliConvertNeedsFile => {
            reveal_strlit("E9006");
            reveal_strlit("`convert` needs a file");
            reveal_strlit("`변환`에는 파일이 필요합니다");
            reveal_strlit("`nme convert` turns a Python file into NME, so it needs a file name: `nme convert app.py`.");
            reveal_strlit("`nme 변환`은 Python 파일을 NME로 바꾸므로 파일 이름이 필요합니다: `nme 변환 app.py`.");
        },
        DiagnosticCode::CliFileReadFailed => {
            reveal_strlit("E9007");
            reveal_strlit("a file could not be read");
            reveal_strlit("파일을 읽을 수 없습니다");
            reveal_strlit("NME could not open the file. Check the path, the file name, and the folder permissions, then run the command again.");
            reveal_strlit("NME가 파일을 열 수 없습니다. 경로, 파일 이름, 폴더 권한을 확인한 뒤 다시 실행하세요.");
        },
        DiagnosticCode::CliFileWriteFailed => {
            reveal_strlit("E9008");
            reveal_strlit("a file could not be written");
            reveal_strlit("파일을 저장할 수 없습니다");
            reveal_strlit("NME could not write the output file. Check the folder permissions and that no program has the file locked.");
            reveal_strlit("NME가 결과 파일을 저장하지 못했습니다. 폴더 권한과 파일이 다른 프로그램에 잠겨 있지 않은지 확인하세요.");
        },
        DiagnosticCode::CliRefuseOverwrite => {
            reveal_strlit("E9009");
            reveal_strlit("refusing to overwrite the output");
            reveal_strlit("결과 파일을 덮어쓰지 않습니다");
            reveal_strlit("`nme build -o` and `nme compile -o` never overwrite an existing file by accident. Delete or rename the existing file, or choose another output name.");
            reveal_strlit("`nme build -o`와 `nme compile -o`는 실수로 기존 파일을 덮어쓰지 않습니다. 기존 파일을 삭제하거나 이름을 바꾸거나 다른 출력 이름을 고르세요.");
        },
        DiagnosticCode::CliNativeCompileFailed => {
            reveal_strlit("E9010");
            reveal_strlit("the native compiler failed");
            reveal_strlit("네이티브 컴파일이 실패했습니다");
            reveal_strlit("The native build stopped with an error; the compiler message above says why. `nme compile` builds with Nuitka and `nme native` with the system C compiler: confirm the one you used is installed, then try again.");
            reveal_strlit("네이티브 빌드가 오류로 멈췄습니다. 위의 컴파일러 메시지에서 이유를 확인하세요. `nme 컴파일`은 Nuitka로, `nme 네이티브`는 시스템 C 컴파일러로 빌드합니다. 사용한 도구가 설치되어 있는지 확인한 뒤 다시 시도하세요.");
        },
        DiagnosticCode::CliNativeCompileStartFailed => {
            reveal_strlit("E9011");
            reveal_strlit("the native compiler could not be started");
            reveal_strlit("네이티브 컴파일러를 시작할 수 없습니다");
            reveal_strlit("NME could not launch the compiler. `nme compile` needs Python and Nuitka (`python3 -m pip install nuitka`); `nme native` needs the system C compiler (`cc`). Install the one you need, then run the command again.");
            reveal_strlit("NME가 컴파일러를 실행하지 못했습니다. `nme 컴파일`에는 Python과 Nuitka(`python3 -m pip install nuitka`)가, `nme 네이티브`에는 시스템 C 컴파일러(`cc`)가 필요합니다. 필요한 것을 설치한 뒤 다시 실행하세요.");
        },
        DiagnosticCode::CliCpythonValidationFailed => {
            reveal_strlit("E9012");
            reveal_strlit("CPython rejected the generated Python");
            reveal_strlit("CPython이 만들어진 Python을 거부했습니다");
            reveal_strlit("`nme check` and `nme build` ask CPython to compile the generated program. The message below shows the exact Python problem (usually indentation). Fix the NME source that produced it.");
            reveal_strlit("`nme 검사`와 `nme 빌드`는 생성된 프로그램을 CPython이 컴파일할 수 있는지 확인합니다. 아래 메시지가 정확한 Python 문제(보통 들여쓰기)를 보여 줍니다. 그 원인이 된 NME 소스를 고치세요.");
        },
        DiagnosticCode::CliPythonStartFailed => {
            reveal_strlit("E9013");
            reveal_strlit("Python could not be started");
            reveal_strlit("Python을 시작할 수 없습니다");
            reveal_strlit("NME runs programs with the Python command it chose. Install Python 3 so that `python3` (or `py` on Windows) works, then run the command again. Only unusual setups need `--python <command>`.");
            reveal_strlit("NME는 선택한 Python 명령으로 프로그램을 실행합니다. `python3`(Windows에서는 `py`)이 동작하도록 Python 3를 설치한 뒤 다시 실행하세요. 특별한 환경에서만 `--python <명령>`이 필요합니다.");
        },
        DiagnosticCode::CliFolderNotProgram => {
            reveal_strlit("E9014");
            reveal_strlit("that is a folder, not a program");
            reveal_strlit("폴더는 프로그램이 아닙니다");
            reveal_strlit("NME runs a single .nme file, not a folder. Type a program name, or run `nme r` inside the folder that contains one .nme program.");
            reveal_strlit("NME는 폴더가 아니라 .nme 파일 하나를 실행합니다. 프로그램 이름을 적거나, .nme 프로그램이 있는 폴더 안에서 `nme r`을 실행하세요.");
        },
        DiagnosticCode::CliMissingProgram => {
            reveal_strlit("E9015");
            reveal_strlit("the program file does not exist");
            reveal_strlit("프로그램 파일이 없습니다");
            reveal_strlit("The typed name does not match a file. If you see a `did you mean` hint, use that name; otherwise create the file or run `nme r` to run the single .nme program here.");
            reveal_strlit("적은 이름과 일치하는 파일이 없습니다. `did you mean` 힌트가 보이면 그 이름을 쓰세요. 아니면 파일을 만들거나, 여기 있는 .nme 프로그램 하나를 `nme r`로 실행하세요.");
        },
        DiagnosticCode::CliFolderReadFailed => {
            reveal_strlit("E9016");
            reveal_strlit("the current folder could not be read");
            reveal_strlit("현재 폴더를 읽을 수 없습니다");
            reveal_strlit("NME needs to list the folder to find .nme programs. Check the folder permissions, then try again.");
            reveal_strlit("NME가 .nme 프로그램을 찾으려면 폴더 목록을 읽어야 합니다. 폴더 권한을 확인한 뒤 다시 시도하세요.");
        },
        DiagnosticCode::CliNoProgramHere => {
            reveal_strlit("E9017");
            reveal_strlit("no .nme program in this folder");
            reveal_strlit("이 폴더에 .nme 프로그램이 없습니다");
            reveal_strlit("`nme r` without a file name needs one .nme program in the current folder. Create one (for example hello.nme) or type a file name: `nme r hello`.");
            reveal_strlit("파일 이름 없이 `nme r`을 실행하려면 현재 폴더에 .nme 프로그램이 하나 필요합니다. 파일을 만들거나(예: hello.nme) 파일 이름을 적으세요: `nme r hello`.");
        },
        DiagnosticCode::CliPickAnswerUnreadable => {
            reveal_strlit("E9018");
            reveal_strlit("the pick answer could not be read");
            reveal_strlit("선택 답변을 읽을 수 없습니다");
            reveal_strlit("NME could not read the answer from the keyboard. Run the command again and type a number or a program name, then press Enter.");
            reveal_strlit("NME가 키보드에서 답변을 읽지 못했습니다. 명령을 다시 실행하고 숫자나 프로그램 이름을 적은 뒤 Enter를 누르세요.");
        },
        DiagnosticCode::CliEmptyPickAnswer => {
            reveal_strlit("E9019");
            reveal_strlit("no pick answer given");
            reveal_strlit("선택 답변이 비어 있습니다");
            reveal_strlit("The answer was empty. Type a number from the list or a program name, then press Enter.");
            reveal_strlit("답변이 비어 있습니다. 목록에서 숫자를 고르거나 프로그램 이름을 적은 뒤 Enter를 누르세요.");
        },
        DiagnosticCode::CliInvalidPickAnswer => {
            reveal_strlit("E9020");
            reveal_strlit("the pick answer is not a listed program");
            reveal_strlit("선택 답변이 목록에 없습니다");
            reveal_strlit("The number or name is not one of the programs above. Use a number from the list, or the exact program name.");
            reveal_strlit("숫자나 이름이 위 목록의 프로그램이 아닙니다. 목록의 숫자나 정확한 프로그램 이름을 사용하세요.");
        },
        DiagnosticCode::CliAmbiguousPickAnswer => {
            reveal_strlit("E9021");
            reveal_strlit("the pick answer matches several programs");
            reveal_strlit("선택 답변이 여러 프로그램과 일치합니다");
            reveal_strlit("The typed name is a prefix of more than one program. Pick a number from the list above, or type more of the name.");
            reveal_strlit("적은 이름이 여러 프로그램의 앞부분과 일치합니다. 위 목록에서 숫자를 고르거나 이름을 더 길게 입력하세요.");
        },
        DiagnosticCode::CliAmbiguousProgramPrefix => {
            reveal_strlit("E9022");
            reveal_strlit("several programs match this name");
            reveal_strlit("이 이름과 일치하는 프로그램이 여러 개입니다");
            reveal_strlit("A short name may be used only while it names exactly one .nme program. Type more of the name so only one program matches.");
            reveal_strlit("짧은 이름은 정확히 하나의 .nme 프로그램을 가리킬 때만 쓸 수 있습니다. 하나만 일치하도록 이름을 더 길게 적으세요.");
        },
        DiagnosticCode::CliErrorLookupInvalidArgs => {
            reveal_strlit("E9023");
            reveal_strlit("the error lookup takes one code");
            reveal_strlit("오류 코드는 한 번에 하나만 확인할 수 있습니다");
            reveal_strlit("`nme ko <CODE>` and `nme en <CODE>` take exactly one code. Run `nme ko` with no code to list every code.");
            reveal_strlit("`nme ko <코드>`와 `nme en <코드>`는 코드 하나만 받습니다. 코드 없이 `nme ko`를 실행하면 모든 코드를 볼 수 있습니다.");
        },
        DiagnosticCode::CliErrorLookupUnknownCode => {
            reveal_strlit("E9024");
            reveal_strlit("unknown error code");
            reveal_strlit("알 수 없는 오류 코드");
            reveal_strlit("The code is not one NME uses. Run `nme ko` to see the full list, or copy the code exactly from the error message.");
            reveal_strlit("이 코드는 NME가 쓰는 코드가 아닙니다. `nme ko`로 전체 목록을 보거나, 오류 메시지에서 코드를 정확히 복사하세요.");
        },
        DiagnosticCode::CliPackageInstallFailed => {
            reveal_strlit("E9025");
            reveal_strlit("pip could not install the package");
            reveal_strlit("pip이 패키지를 설치하지 못했습니다");
            reveal_strlit("pip could not install the package; its message above says why. Check the package name and your network connection, then run the command again.");
            reveal_strlit("pip이 패키지를 설치하지 못했습니다. 위의 pip 메시지에서 이유를 확인하세요. 패키지 이름과 네트워크 연결을 확인한 뒤 다시 실행하세요.");
        },
        DiagnosticCode::CliNativeRunFailed => {
            reveal_strlit("E9026");
            reveal_strlit("the native program could not be started");
            reveal_strlit("네이티브 프로그램을 시작할 수 없습니다");
            reveal_strlit("The native build finished, but NME could not start the executable it made. Check that the folder allows running programs, then run the command again.");
            reveal_strlit("네이티브 빌드는 끝났지만 NME가 만들어진 실행 파일을 시작할 수 없습니다. 폴더에서 프로그램을 실행할 수 있는지 확인한 뒤 다시 실행하세요.");
        },
        DiagnosticCode::CliTempFolderFailed => {
            reveal_strlit("E9027");
            reveal_strlit("a temporary working folder could not be created");
            reveal_strlit("임시 작업 폴더를 만들 수 없습니다");
            reveal_strlit("NME needs a temporary working folder for this command and could not create one. Check the free disk space and the permissions of the temporary folder.");
            reveal_strlit("이 명령에는 임시 작업 폴더가 필요한데 NME가 만들지 못했습니다. 디스크 여유 공간과 임시 폴더 권한을 확인하세요.");
        },
        DiagnosticCode::CliModuleNameCollision => {
            reveal_strlit("E9028");
            reveal_strlit("two imported modules have the same name");
            reveal_strlit("가져온 두 모듈의 이름이 같습니다");
            reveal_strlit("Two `.nme` modules imported by this program would become Python modules of the same name. Rename one of the files.");
            reveal_strlit("이 프로그램이 가져오는 두 `.nme` 모듈이 같은 이름의 Python 모듈이 됩니다. 파일 하나의 이름을 바꾸세요.");
        },
        DiagnosticCode::CliCompileImportsUnsupported => {
            reveal_strlit("E9029");
            reveal_strlit("`nme compile` does not support module imports");
            reveal_strlit("`nme 컴파일`은 모듈 가져오기를 지원하지 않습니다");
            reveal_strlit("A program that imports other `.nme` files cannot be compiled into one executable yet. Run it with `nme run`, or put the imported code into the program.");
            reveal_strlit("다른 `.nme` 파일을 가져오는 프로그램은 아직 실행 파일 하나로 컴파일할 수 없습니다. `nme 실행`으로 실행하거나 가져온 코드를 프로그램 안에 넣으세요.");
        },
        DiagnosticCode::CliInstallNeedsPackage => {
            reveal_strlit("E9030");
            reveal_strlit("the package name is missing");
            reveal_strlit("패키지 이름이 없습니다");
            reveal_strlit("Installing needs the name of the package to install, for example `requests`. Add the package name and run the command again.");
            reveal_strlit("설치하려면 설치할 패키지 이름이 필요합니다(예: `requests`). 패키지 이름을 적고 다시 실행하세요.");
        },
    }
}


proof fn lemma_digit_char_injective(a: nat, b: nat)
    requires
        a < 10,
        b < 10,
        digit_char(a) == digit_char(b),
    ensures
        a == b,
{
}

/// Four digits name one number below ten thousand and no other.
#[verifier::rlimit(40)]
proof fn lemma_code_text_injective(n: nat, m: nat)
    requires
        n < 10000,
        m < 10000,
        code_text(n) == code_text(m),
    ensures
        n == m,
{
    assert(code_text(n)[1] == code_text(m)[1]);
    assert(code_text(n)[2] == code_text(m)[2]);
    assert(code_text(n)[3] == code_text(m)[3]);
    assert(code_text(n)[4] == code_text(m)[4]);
    lemma_digit_char_injective(n / 1000 % 10, m / 1000 % 10);
    lemma_digit_char_injective(n / 100 % 10, m / 100 % 10);
    lemma_digit_char_injective(n / 10 % 10, m / 10 % 10);
    lemma_digit_char_injective(n % 10, m % 10);
}

proof fn lemma_number_names_the_code(code: DiagnosticCode)
    ensures
        code_with_number(code_number(code)) == Some(code),
        code_number(code) < 10000,
{
}

/// Every code has a unique stable number: two codes that are written the same
/// are the same code.
pub proof fn law_codes_are_unique(a: DiagnosticCode, b: DiagnosticCode)
    requires
        a.spec_code() == b.spec_code(),
    ensures
        a == b,
{
    lemma_number_names_the_code(a);
    lemma_number_names_the_code(b);
    lemma_code_text_injective(code_number(a), code_number(b));
}

/// Looking a code up by the text it is written as finds that very code.
pub proof fn law_codes_round_trip(code: DiagnosticCode)
    ensures
        lookup_code(code.spec_code()) == Some(code),
{
    let found = choose|other: DiagnosticCode| other.spec_code() == code.spec_code();
    law_codes_are_unique(found, code);
}

/// Every code is written as `E` followed by four digits.
pub proof fn law_codes_are_e_and_four_digits(code: DiagnosticCode)
    ensures
        code.spec_code().len() == 5,
        code.spec_code()[0] == 'E',
        forall|i: int| 1 <= i < 5 ==> '0' <= #[trigger] code.spec_code()[i] <= '9',
{
}

proof fn lemma_all_holds_every_code(code: DiagnosticCode)
    ensures
        0 <= position_in_all(code) < 70,
        DiagnosticCode::ALL@[position_in_all(code)] == code,
{
}

impl DiagnosticCode {
    /// The code written as `code`, or `None` when no code is written that
    /// way.
    pub fn from_code(code: &str) -> (found: Option<Self>)
        ensures
            found == lookup_code(code@),
    {
        let wanted = chars_of(code);
        let mut i: usize = 0;
        while i < 70
            invariant
                0 <= i <= 70,
                wanted@ == code@,
                forall|j: int| 0 <= j < i ==> #[trigger] Self::ALL@[j].spec_code() != code@,
            decreases 70 - i,
        {
            let candidate = Self::ALL[i];
            let written = chars_of(candidate.code());
            if same_chars(written.as_slice(), wanted.as_slice()) {
                proof {
                    law_codes_round_trip(candidate);
                }
                return Some(candidate);
            }
            i = i + 1;
        }
        proof {
            assert forall|other: DiagnosticCode| other.spec_code() != code@ by {
                lemma_all_holds_every_code(other);
                let j = position_in_all(other);
                assert(Self::ALL@[j].spec_code() != code@);
            }
        }
        None
    }
}

/// Long-form bilingual explanation of one error code, for `nme ko <CODE>` /
/// `nme en <CODE>` lookup pages. Plain language for beginners, with the
/// recovery steps written out.
#[derive(Debug, Clone, Copy)]
pub struct CodeExplanation {
    pub code: &'static str,
    pub title_en: &'static str,
    pub title_ko: &'static str,
    pub detail_en: &'static str,
    pub detail_ko: &'static str,
}

/// One problem found in NME source code.
#[derive(Debug, Clone, PartialEq, Eq)]
pub struct Diagnostic {
    /// Stable error code for `nme ko <CODE>` lookups.
    pub code: DiagnosticCode,
    /// What is wrong in English, in plain language. No compiler jargon.
    pub message: String,
    /// The same message in Korean when this is a user-facing diagnostic.
    pub message_ko: Option<String>,
    /// Where it is wrong.
    pub span: Span,
    /// What to try instead in English, if we know.
    pub hint: Option<String>,
    /// The same hint in Korean when this is a user-facing diagnostic.
    pub hint_ko: Option<String>,
}

impl Diagnostic {
    pub fn new(code: DiagnosticCode, message: &str, span: Span) -> (diagnostic: Self)
        ensures
            diagnostic.code == code,
            diagnostic.message@ == message@,
            diagnostic.message_ko is None,
            diagnostic.span == span,
            diagnostic.hint is None,
            diagnostic.hint_ko is None,
    {
        Self {
            code,
            message: String::from_str(message),
            message_ko: None,
            span,
            hint: None,
            hint_ko: None,
        }
    }

    /// Creates one diagnostic with equivalent English and Korean messages.
    pub fn bilingual(code: DiagnosticCode, message: &str, message_ko: &str, span: Span) -> (diagnostic: Self)
        ensures
            diagnostic.code == code,
            diagnostic.message@ == message@,
            diagnostic.message_ko matches Some(korean) && korean@ == message_ko@,
            diagnostic.span == span,
            diagnostic.hint is None,
            diagnostic.hint_ko is None,
    {
        Self {
            code,
            message: String::from_str(message),
            message_ko: Some(String::from_str(message_ko)),
            span,
            hint: None,
            hint_ko: None,
        }
    }

    /// The same diagnostic with English recovery advice.
    pub fn with_hint(self, hint: &str) -> (diagnostic: Self)
        ensures
            diagnostic.hint matches Some(english) && english@ == hint@,
            diagnostic.code == self.code,
            diagnostic.message == self.message,
            diagnostic.message_ko == self.message_ko,
            diagnostic.span == self.span,
            diagnostic.hint_ko == self.hint_ko,
    {
        let mut diagnostic = self;
        diagnostic.hint = Some(String::from_str(hint));
        diagnostic
    }

    /// The same diagnostic with equivalent English and Korean recovery
    /// advice.
    pub fn with_bilingual_hint(self, hint: &str, hint_ko: &str) -> (diagnostic: Self)
        ensures
            diagnostic.hint matches Some(english) && english@ == hint@,
            diagnostic.hint_ko matches Some(korean) && korean@ == hint_ko@,
            diagnostic.code == self.code,
            diagnostic.message == self.message,
            diagnostic.message_ko == self.message_ko,
            diagnostic.span == self.span,
    {
        let mut diagnostic = self;
        diagnostic.hint = Some(String::from_str(hint));
        diagnostic.hint_ko = Some(String::from_str(hint_ko));
        diagnostic
    }
}

// ------------------------------------------------------------ where in the file

/// A source short enough that every line, column and screen width counted in
/// it fits in a `usize` (each character is at most four columns wide).
pub open spec fn countable(source: Seq<char>) -> bool {
    4 * bytes_of(source) < usize::MAX
}

/// How many line breaks stand among the first `k` characters.
pub open spec fn newlines_before(s: Seq<char>, k: int) -> nat
    decreases k,
{
    if k <= 0 {
        0
    } else {
        newlines_before(s, k - 1) + if s[k - 1] == '\n' { 1nat } else { 0nat }
    }
}

/// Where the line holding character `k` starts: just after the last line
/// break before it, or at the very beginning.
pub open spec fn line_start(s: Seq<char>, k: int) -> int
    decreases k,
{
    if k <= 0 {
        0
    } else if s[k - 1] == '\n' {
        k
    } else {
        line_start(s, k - 1)
    }
}

/// Where the line that starts at `a` ends: at its line break or at the end
/// of the text.
pub open spec fn line_end(s: Seq<char>, a: int) -> int
    decreases s.len() - a,
{
    if a >= s.len() || a < 0 || s[a] == '\n' {
        a
    } else {
        line_end(s, a + 1)
    }
}

/// `end`, moved back over every carriage return right before it.
pub open spec fn before_carriage_returns(s: Seq<char>, a: int, end: int) -> int
    decreases end - a,
{
    if end > a && s[end - 1] == '\r' {
        before_carriage_returns(s, a, end - 1)
    } else {
        end
    }
}

/// The 1-based line and column of the character that starts at byte `start`
/// (or of the end of the text, when the byte lies past every character).
pub open spec fn spec_line_col(s: Seq<char>, start: int) -> (nat, nat) {
    let k = chars_before(s, start) as int;
    ((1 + newlines_before(s, k)) as nat, (1 + k - line_start(s, k)) as nat)
}

/// The text of the line holding character `k`, without its line break and
/// without carriage returns at its end — what `str::lines` gives for it.
pub open spec fn text_of_line(s: Seq<char>, k: int) -> Seq<char> {
    let a = line_start(s, k);
    s.subrange(a, before_carriage_returns(s, a, line_end(s, a)))
}

/// How wide one character is on a terminal, as `unicode-width` measures it:
/// `None` for a control character.
pub open spec fn width_of(c: char) -> Option<usize> {
    if (c as u32) < 0x20 {
        None
    } else if (c as u32) < 0x7F {
        Some(1)
    } else if (c as u32) < 0xA0 {
        None
    } else {
        Some(unicode_table_width(c))
    }
}

/// The width `unicode-width` reads out of its Unicode tables for a
/// character at or above U+00A0.
pub uninterp spec fn unicode_table_width(c: char) -> usize;

/// `UnicodeWidthChar::width` from `unicode-width`. Below U+00A0 the crate
/// decides by range (printable ASCII is one column, the control characters
/// have no width); from U+00A0 on it reads a table of 2-bit entries, so the
/// width there is named rather than restated, and is at most 3.
#[verifier::external_body]
fn char_width(c: char) -> (width: Option<usize>)
    ensures
        (c as u32) < 0x20 ==> width is None,
        0x20 <= (c as u32) < 0x7F ==> width == Some(1usize),
        0x7F <= (c as u32) < 0xA0 ==> width is None,
        0xA0 <= (c as u32) ==> width == Some(unicode_table_width(c)),
        width matches Some(w) ==> w <= 3,
{
    unicode_width::UnicodeWidthChar::width(c)
}

/// How many columns one character moves the cursor from `column`.
pub open spec fn advance(c: char, column: nat) -> nat {
    if c == '\t' {
        (TAB_WIDTH - column % (TAB_WIDTH as nat)) as nat
    } else {
        match width_of(c) {
            Some(w) => w as nat,
            None => 0,
        }
    }
}

/// The column reached after writing `t` starting at `column`.
pub open spec fn end_column(t: Seq<char>, column: nat) -> nat
    decreases t.len(),
{
    if t.len() == 0 {
        column
    } else {
        let before = end_column(t.drop_last(), column);
        before + advance(t.last(), before)
    }
}

/// How many columns `t` covers when it starts at `column`.
pub open spec fn spec_display_width(t: Seq<char>, column: nat) -> nat {
    (end_column(t, column) - column) as nat
}

/// `t` as it looks on a terminal: each tab becomes the spaces that reach the
/// next tab stop.
pub open spec fn spec_expand_tabs(t: Seq<char>) -> Seq<char>
    decreases t.len(),
{
    if t.len() == 0 {
        Seq::empty()
    } else {
        let before = end_column(t.drop_last(), 0);
        spec_expand_tabs(t.drop_last()) + if t.last() == '\t' {
            spaces(advance('\t', before))
        } else {
            seq![t.last()]
        }
    }
}

pub open spec fn spaces(n: nat) -> Seq<char> {
    Seq::new(n, |_i: int| ' ')
}

pub open spec fn carets(n: nat) -> Seq<char> {
    Seq::new(n, |_i: int| '^')
}

/// The character index of the last character boundary at or before byte `b`
/// of `t` (`b` lies inside `t`).
pub open spec fn floor_index(t: Seq<char>, b: int) -> int {
    if b >= bytes_of(t) {
        t.len() as int
    } else {
        chars_before(t, b + 1) - 1
    }
}

/// Where the caret line sits under a diagnostic: the characters of the shown
/// line before it and under it, as character indices into that line.
pub open spec fn caret_range(s: Seq<char>, span: Span) -> (int, int) {
    let k = chars_before(s, span.start as int) as int;
    let a = line_start(s, k);
    let line = text_of_line(s, k);
    let first = offset_of(s, a) as int;
    let last = first + bytes_of(line);
    let start = if (span.start as int) < first {
        first
    } else if (span.start as int) > last {
        last
    } else {
        span.start as int
    };
    let end = if (span.end as int) < start {
        start
    } else if (span.end as int) > last {
        last
    } else {
        span.end as int
    };
    let local_start = floor_index(line, start - first);
    let local_end = if end == start {
        local_start
    } else {
        chars_before(line, end - first) as int
    };
    (local_start, local_end)
}

/// Where the carets start on the shown line, in columns, and how many there
/// are: they cover the span's characters on that line, and there is always at
/// least one.
pub open spec fn underline_of(s: Seq<char>, span: Span) -> (nat, nat) {
    let line = text_of_line(s, chars_before(s, span.start as int) as int);
    let (local_start, local_end) = caret_range(s, span);
    let underline_start = end_column(line.take(local_start), 0);
    let width = spec_display_width(line.subrange(local_start, local_end), underline_start);
    (underline_start, if width < 1 { 1 } else { width })
}

/// The rendering of a diagnostic, in a rustc-like layout:
///
/// ```text
/// error[E0204]: `say` needs something to print
///  --> hello.nme:2:1
///   |
/// 2 | say
///   | ^^^
///   = hint: try `say "Hello"`
/// ```
///
/// With `bilingual`, the Korean message comes first and the Korean hint
/// before the English one; the place and the caret are shared.
pub open spec fn spec_render(d: Diagnostic, s: Seq<char>, path: Seq<char>, bilingual: bool) -> Seq<char> {
    let (line_no, col) = spec_line_col(s, d.span.start as int);
    let line = text_of_line(s, chars_before(s, d.span.start as int) as int);
    let (underline_start, underline_len) = underline_of(s, d.span);
    let gutter = decimal(line_no).len();
    heading(d, bilingual) + location(gutter, path, line_no, col) + shown_line(line_no, line)
        + caret_line(gutter, underline_start, underline_len) + hints(d, bilingual, gutter)
}

/// The message lines: Korean first when asked for and known, then English.
pub open spec fn heading(d: Diagnostic, bilingual: bool) -> Seq<char> {
    let korean = if bilingual && d.message_ko is Some {
        "오류["@ + d.code.spec_code() + "]: "@ + d.message_ko->0@ + seq!['\n']
    } else {
        Seq::empty()
    };
    korean + "error["@ + d.code.spec_code() + "]: "@ + d.message@ + seq!['\n']
}

/// ` --> path:line:col` and the empty gutter line under it.
pub open spec fn location(gutter: nat, path: Seq<char>, line_no: nat, col: nat) -> Seq<char> {
    spaces(gutter) + " --> "@ + path + seq![':'] + decimal(line_no) + seq![':'] + decimal(col) + seq!['\n']
        + spaces(gutter) + " |"@ + seq!['\n']
}

/// The numbered source line, tabs expanded.
pub open spec fn shown_line(line_no: nat, line: Seq<char>) -> Seq<char> {
    decimal(line_no) + " | "@ + spec_expand_tabs(line) + seq!['\n']
}

/// The caret line under the source line.
pub open spec fn caret_line(gutter: nat, underline_start: nat, underline_len: nat) -> Seq<char> {
    spaces(gutter) + " | "@ + spaces(underline_start) + carets(underline_len) + seq!['\n']
}

/// The hint lines: Korean first when asked for and known, then English.
pub open spec fn hints(d: Diagnostic, bilingual: bool, gutter: nat) -> Seq<char> {
    let korean = if bilingual && d.hint_ko is Some {
        spaces(gutter) + " = 도움말: "@ + d.hint_ko->0@ + seq!['\n']
    } else {
        Seq::empty()
    };
    let english = if d.hint is Some {
        spaces(gutter) + " = hint: "@ + d.hint->0@ + seq!['\n']
    } else {
        Seq::empty()
    };
    korean + english
}

/// Several renderings, separated by blank lines.
pub open spec fn spec_render_all(ds: Seq<Diagnostic>, s: Seq<char>, path: Seq<char>, bilingual: bool) -> Seq<char>
    decreases ds.len(),
{
    if ds.len() == 0 {
        Seq::empty()
    } else if ds.len() == 1 {
        spec_render(ds[0], s, path, bilingual)
    } else {
        spec_render_all(ds.drop_last(), s, path, bilingual) + seq!['\n'] + spec_render(ds.last(), s, path, bilingual)
    }
}

proof fn lemma_bytes_at_least_len(s: Seq<char>)
    ensures
        bytes_of(s) >= s.len(),
    decreases s.len(),
{
    if s.len() > 0 {
        lemma_bytes_at_least_len(s.drop_last());
        assert(s =~= s.drop_last().push(s.last()));
        lemma_bytes_push(s.drop_last(), s.last());
        lemma_char_bytes(s.last());
    }
}

proof fn lemma_newlines_bounded(s: Seq<char>, k: int)
    requires
        0 <= k <= s.len(),
    ensures
        newlines_before(s, k) <= k,
        0 <= line_start(s, k) <= k,
    decreases k,
{
    if k > 0 {
        lemma_newlines_bounded(s, k - 1);
    }
}

/// Where the character that starts at byte `start` stands: its index, its
/// 1-based line and column, and the index where its line starts.
fn locate(s: &Vec<char>, start: usize) -> (found: (usize, usize, usize, usize))
    requires
        countable(s@),
    ensures
        found.0 == chars_before(s@, start as int),
        found.1 == spec_line_col(s@, start as int).0,
        found.2 == spec_line_col(s@, start as int).1,
        found.3 == line_start(s@, found.0 as int),
        found.3 <= found.0 <= s@.len(),
{
    proof {
        lemma_bytes_at_least_len(s@);
        assert(s@.take(s@.len() as int) =~= s@);
    }
    let mut i: usize = 0;
    let mut offset: usize = 0;
    let mut line: usize = 1;
    let mut line_begins: usize = 0;
    while i < s.len() && offset < start
        invariant
            countable(s@),
            bytes_of(s@) >= s@.len(),
            s@.take(s@.len() as int) == s@,
            0 <= i <= s@.len(),
            offset == offset_of(s@, i as int),
            forall|j: int| 0 <= j < i ==> offset_of(s@, j) < start,
            line == 1 + newlines_before(s@, i as int),
            line_begins == line_start(s@, i as int),
        decreases s@.len() - i,
    {
        proof {
            lemma_offset_step(s@, i as int);
            lemma_offset_monotonic(s@, i + 1, s@.len() as int);
            lemma_newlines_bounded(s@, i as int);
        }
        offset = offset + char_len_utf8(s[i]);
        if s[i] == '\n' {
            line = line + 1;
            line_begins = i + 1;
        }
        i = i + 1;
    }
    proof {
        lemma_chars_before(s@, start as int, i as int);
        lemma_newlines_bounded(s@, i as int);
    }
    (i, line, 1 + i - line_begins, line_begins)
}

/// The characters of the line that starts at `a`, as `text_of_line` names
/// them.
fn line_from(s: &Vec<char>, a: usize) -> (line: Vec<char>)
    requires
        a <= s@.len(),
    ensures
        line@ == s@.subrange(a as int, before_carriage_returns(s@, a as int, line_end(s@, a as int))),
        a <= before_carriage_returns(s@, a as int, line_end(s@, a as int)) <= s@.len(),
{
    let mut e = a;
    while e < s.len() && s[e] != '\n'
        invariant
            a <= e <= s@.len(),
            line_end(s@, a as int) == line_end(s@, e as int),
        decreases s@.len() - e,
    {
        e = e + 1;
    }
    let mut f = e;
    while f > a && s[f - 1] == '\r'
        invariant
            a <= f <= e,
            e <= s@.len(),
            line_end(s@, a as int) == e,
            before_carriage_returns(s@, a as int, e as int) == before_carriage_returns(s@, a as int, f as int),
        decreases f - a,
    {
        f = f - 1;
    }
    let mut line: Vec<char> = Vec::new();
    let mut j = a;
    while j < f
        invariant
            a <= j <= f,
            f <= s@.len(),
            line@ == s@.subrange(a as int, j as int),
        decreases f - j,
    {
        line.push(s[j]);
        j = j + 1;
        assert(line@ =~= s@.subrange(a as int, j as int));
    }
    line
}

/// The index of the first character of `t` that starts at or after byte `b`.
fn index_at_byte(t: &Vec<char>, b: usize) -> (i: usize)
    requires
        bytes_of(t@) <= usize::MAX,
    ensures
        i == chars_before(t@, b as int),
{
    proof {
        assert(t@.take(t@.len() as int) =~= t@);
    }
    let mut i: usize = 0;
    let mut offset: usize = 0;
    while i < t.len() && offset < b
        invariant
            bytes_of(t@) <= usize::MAX,
            t@.take(t@.len() as int) == t@,
            0 <= i <= t@.len(),
            offset == offset_of(t@, i as int),
            forall|j: int| 0 <= j < i ==> offset_of(t@, j) < b,
        decreases t@.len() - i,
    {
        proof {
            lemma_offset_step(t@, i as int);
            lemma_offset_monotonic(t@, i + 1, t@.len() as int);
        }
        offset = offset + char_len_utf8(t[i]);
        i = i + 1;
    }
    proof {
        lemma_chars_before(t@, b as int, i as int);
    }
    i
}

/// The index of the last character boundary of `t` at or before byte `b`.
fn floor_index_at_byte(t: &Vec<char>, b: usize) -> (i: usize)
    requires
        bytes_of(t@) <= usize::MAX,
        b <= bytes_of(t@),
    ensures
        i == floor_index(t@, b as int),
        i <= t@.len(),
        offset_of(t@, i as int) <= b,
{
    proof {
        assert(t@.take(t@.len() as int) =~= t@);
        assert(t@.take(0) =~= Seq::<char>::empty());
    }
    let mut i: usize = 0;
    let mut offset: usize = 0;
    loop
        invariant
            bytes_of(t@) <= usize::MAX,
            b <= bytes_of(t@),
            t@.take(t@.len() as int) == t@,
            0 <= i <= t@.len(),
            offset == offset_of(t@, i as int),
            offset <= b,
        ensures
            0 <= i <= t@.len(),
            offset == offset_of(t@, i as int),
            offset <= b,
            i == t@.len() || offset_of(t@, i + 1) > b,
        decreases t@.len() - i,
    {
        if i >= t.len() {
            break;
        }
        proof {
            lemma_offset_step(t@, i as int);
            lemma_offset_monotonic(t@, i + 1, t@.len() as int);
        }
        let next = offset + char_len_utf8(t[i]);
        if next > b {
            break;
        }
        offset = next;
        i = i + 1;
    }
    proof {
        if i < t@.len() {
            lemma_offset_step(t@, i as int);
            lemma_offset_monotonic(t@, i + 1, t@.len() as int);
            assert forall|j: int| 0 <= j < i + 1 implies offset_of(t@, j) < b + 1 by {
                lemma_offset_monotonic(t@, j, i as int);
            }
            lemma_chars_before(t@, b + 1, i + 1);
        }
    }
    i
}

/// How many columns one character moves the cursor from `column`.
fn advance_from(c: char, column: usize) -> (step: usize)
    ensures
        step == advance(c, column as nat),
        step <= 4,
{
    if c == '\t' {
        TAB_WIDTH - column % TAB_WIDTH
    } else {
        match char_width(c) {
            Some(w) => w,
            None => 0,
        }
    }
}

/// The column reached after writing characters `from..to` of `t`, starting
/// at `column`.
fn column_after(t: &Vec<char>, from: usize, to: usize, column: usize) -> (reached: usize)
    requires
        from <= to <= t@.len(),
        column + 4 * (to - from) <= usize::MAX,
    ensures
        reached == end_column(t@.subrange(from as int, to as int), column as nat),
        column <= reached <= column + 4 * (to - from),
{
    let mut i = from;
    let mut reached = column;
    proof {
        assert(t@.subrange(from as int, from as int) =~= Seq::<char>::empty());
    }
    while i < to
        invariant
            from <= i <= to <= t@.len(),
            column + 4 * (to - from) <= usize::MAX,
            reached == end_column(t@.subrange(from as int, i as int), column as nat),
            column <= reached <= column + 4 * (i - from),
        decreases to - i,
    {
        let step = advance_from(t[i], reached);
        proof {
            let next = t@.subrange(from as int, i + 1);
            assert(next.drop_last() =~= t@.subrange(from as int, i as int));
            assert(next.last() == t@[i as int]);
        }
        reached = reached + step;
        i = i + 1;
    }
    reached
}

/// Appends `t` with every tab written as spaces up to the next tab stop.
fn push_expanded(out: &mut String, t: &Vec<char>)
    requires
        4 * t@.len() <= usize::MAX,
    ensures
        final(out)@ == old(out)@ + spec_expand_tabs(t@),
{
    let ghost start = out@;
    let mut i: usize = 0;
    let mut column: usize = 0;
    proof {
        assert(t@.take(0) =~= Seq::<char>::empty());
        assert(start + spec_expand_tabs(Seq::<char>::empty()) =~= start);
    }
    while i < t.len()
        invariant
            0 <= i <= t@.len(),
            4 * t@.len() <= usize::MAX,
            out@ == start + spec_expand_tabs(t@.take(i as int)),
            column == end_column(t@.take(i as int), 0),
            column <= 4 * i,
        decreases t@.len() - i,
    {
        let c = t[i];
        let step = advance_from(c, column);
        let ghost before = out@;
        if c == '\t' {
            push_repeated(out, ' ', step);
        } else {
            push(out, c);
        }
        proof {
            let next = t@.take(i + 1);
            assert(next.drop_last() =~= t@.take(i as int));
            assert(next.last() == c);
            if c == '\t' {
                assert(out@ =~= start + spec_expand_tabs(next));
            } else {
                assert(out@ =~= start + spec_expand_tabs(next));
            }
        }
        column = column + step;
        i = i + 1;
    }
    proof {
        assert(t@.take(t@.len() as int) =~= t@);
    }
}

/// The byte offset at which character `i` of `s` starts.
pub fn offset_at(s: &Vec<char>, i: usize) -> (offset: usize)
    requires
        i <= s@.len(),
        bytes_of(s@) <= usize::MAX,
    ensures
        offset == offset_of(s@, i as int),
{
    proof {
        assert(s@.take(s@.len() as int) =~= s@);
        assert(s@.take(0) =~= Seq::<char>::empty());
    }
    let mut j: usize = 0;
    let mut offset: usize = 0;
    while j < i
        invariant
            0 <= j <= i <= s@.len(),
            bytes_of(s@) <= usize::MAX,
            s@.take(s@.len() as int) == s@,
            offset == offset_of(s@, j as int),
        decreases i - j,
    {
        proof {
            lemma_offset_step(s@, j as int);
            lemma_offset_monotonic(s@, j + 1, s@.len() as int);
        }
        offset = offset + char_len_utf8(s[j]);
        j = j + 1;
    }
    offset
}

proof fn lemma_subrange_bytes(s: Seq<char>, a: int, f: int)
    requires
        0 <= a <= f <= s.len(),
    ensures
        offset_of(s, f) == offset_of(s, a) + bytes_of(s.subrange(a, f)),
{
    assert(s.take(f) =~= s.take(a) + s.subrange(a, f));
    lemma_bytes_concat(s.take(a), s.subrange(a, f));
}

/// Everything a rendering places: the line and column, the shown line, and
/// where its carets start and how many there are.
fn layout(s: &Vec<char>, span: Span) -> (placed: (usize, usize, Vec<char>, usize, usize))
    requires
        countable(s@),
        bytes_of(s@) <= usize::MAX,
    ensures
        placed.0 == spec_line_col(s@, span.start as int).0,
        placed.1 == spec_line_col(s@, span.start as int).1,
        placed.2@ == text_of_line(s@, chars_before(s@, span.start as int) as int),
        placed.3 == underline_of(s@, span).0,
        placed.4 == underline_of(s@, span).1,
        4 * placed.2@.len() <= usize::MAX,
{
    proof {
        lemma_bytes_at_least_len(s@);
    }
    let (k, line_no, col, a) = locate(s, span.start);
    let line = line_from(s, a);
    let ghost f = a + line@.len();
    let first = offset_at(s, a);
    let last = offset_at(s, a + line.len());
    proof {
        lemma_subrange_bytes(s@, a as int, f);
        assert(line@ == text_of_line(s@, k as int));
    }
    // The underline covers the span, but never spills past the line and
    // is always at least one caret wide so zero-width spans are visible.
    let start = if span.start < first {
        first
    } else if span.start > last {
        last
    } else {
        span.start
    };
    let end = if span.end < start {
        start
    } else if span.end > last {
        last
    } else {
        span.end
    };
    proof {
        lemma_offset_monotonic(s@, f, s@.len() as int);
        assert(s@.take(s@.len() as int) =~= s@);
    }
    let local_start = floor_index_at_byte(&line, start - first);
    let local_end = if end == start {
        local_start
    } else {
        index_at_byte(&line, end - first)
    };
    proof {
        if end != start {
            lemma_chars_before_bounds(line@, (end - first) as int);
            let ci = chars_before(line@, (end - first) as int);
            if ci < local_start {
                lemma_offset_monotonic(line@, ci as int, local_start as int);
            }
        }
        assert(line@.subrange(0, local_start as int) =~= line@.take(local_start as int));
    }
    let underline_start = column_after(&line, 0, local_start, 0);
    let reached = column_after(&line, local_start, local_end, underline_start);
    let width = reached - underline_start;
    let underline_len = if width < 1 {
        1
    } else {
        width
    };
    (line_no, col, line, underline_start, underline_len)
}

fn push_location(out: &mut String, gutter: usize, path: &str, line_no: usize, col: usize)
    ensures
        final(out)@ == old(out)@ + location(gutter as nat, path@, line_no as nat, col as nat),
{
    let ghost start = out@;
    push_repeated(out, ' ', gutter);
    out.append(" --> ");
    out.append(path);
    push(out, ':');
    push_decimal(out, line_no);
    push(out, ':');
    push_decimal(out, col);
    push(out, '\n');
    push_repeated(out, ' ', gutter);
    out.append(" |");
    push(out, '\n');
    proof {
        assert(spaces(gutter as nat) =~= Seq::new(gutter as nat, |_i: int| ' '));
        assert(out@ =~= start + location(gutter as nat, path@, line_no as nat, col as nat));
    }
}

fn push_shown_line(out: &mut String, line_no: usize, line: &Vec<char>)
    requires
        4 * line@.len() <= usize::MAX,
    ensures
        final(out)@ == old(out)@ + shown_line(line_no as nat, line@),
{
    let ghost start = out@;
    push_decimal(out, line_no);
    out.append(" | ");
    push_expanded(out, line);
    push(out, '\n');
    proof {
        assert(out@ =~= start + shown_line(line_no as nat, line@));
    }
}

fn push_caret_line(out: &mut String, gutter: usize, underline_start: usize, underline_len: usize)
    ensures
        final(out)@ == old(out)@ + caret_line(gutter as nat, underline_start as nat, underline_len as nat),
{
    let ghost start = out@;
    push_repeated(out, ' ', gutter);
    out.append(" | ");
    push_repeated(out, ' ', underline_start);
    push_repeated(out, '^', underline_len);
    push(out, '\n');
    proof {
        assert(spaces(gutter as nat) =~= Seq::new(gutter as nat, |_i: int| ' '));
        assert(spaces(underline_start as nat) =~= Seq::new(underline_start as nat, |_i: int| ' '));
        assert(carets(underline_len as nat) =~= Seq::new(underline_len as nat, |_i: int| '^'));
        assert(out@ =~= start + caret_line(gutter as nat, underline_start as nat, underline_len as nat));
    }
}

impl Diagnostic {
    #[verifier::rlimit(40)]
    fn push_heading(&self, out: &mut String, bilingual: bool)
        ensures
            final(out)@ == old(out)@ + heading(*self, bilingual),
    {
        let ghost start = out@;
        let code = self.code.code();
        if bilingual {
            match &self.message_ko {
                Some(korean) => {
                    out.append("오류[");
                    out.append(code);
                    out.append("]: ");
                    out.append(korean.as_str());
                    push(out, '\n');
                },
                None => {},
            }
        }
        out.append("error[");
        out.append(code);
        out.append("]: ");
        out.append(self.message.as_str());
        push(out, '\n');
        proof {
            assert(out@ =~= start + heading(*self, bilingual));
        }
    }

    fn push_hints(&self, out: &mut String, bilingual: bool, gutter: usize)
        ensures
            final(out)@ == old(out)@ + hints(*self, bilingual, gutter as nat),
    {
        let ghost start = out@;
        proof {
            assert(spaces(gutter as nat) =~= Seq::new(gutter as nat, |_i: int| ' '));
        }
        if bilingual {
            match &self.hint_ko {
                Some(korean) => {
                    push_repeated(out, ' ', gutter);
                    out.append(" = 도움말: ");
                    out.append(korean.as_str());
                    push(out, '\n');
                },
                None => {},
            }
        }
        let ghost middle = out@;
        match &self.hint {
            Some(english) => {
                push_repeated(out, ' ', gutter);
                out.append(" = hint: ");
                out.append(english.as_str());
                push(out, '\n');
            },
            None => {},
        }
        proof {
            assert(out@ =~= start + hints(*self, bilingual, gutter as nat));
        }
    }
}

impl Diagnostic {
    /// 1-based `(line, column)` of the start of the span in `source`.
    pub fn line_col(&self, source: &str) -> (position: (usize, usize))
        requires
            countable(source@),
        ensures
            position.0 == spec_line_col(source@, self.span.start as int).0,
            position.1 == spec_line_col(source@, self.span.start as int).1,
    {
        let s = chars_of(source);
        let found = locate(&s, self.span.start);
        (found.1, found.2)
    }

    /// Renders the diagnostic in a friendly, rustc-inspired format (see
    /// [`spec_render`]).
    pub fn render(&self, source: &str, path: &str) -> (rendered: String)
        requires
            countable(source@),
        ensures
            rendered@ == spec_render(*self, source@, path@, false),
    {
        self.render_with_korean(source, path, false)
    }

    /// Renders Korean first and then the equivalent English when available.
    /// Source locations and carets are shared, so the beginner sees one
    /// problem rather than two duplicate diagnostics.
    pub fn render_bilingual(&self, source: &str, path: &str) -> (rendered: String)
        requires
            countable(source@),
        ensures
            rendered@ == spec_render(*self, source@, path@, true),
    {
        self.render_with_korean(source, path, true)
    }

    fn render_with_korean(&self, source: &str, path: &str, bilingual: bool) -> (rendered: String)
        requires
            countable(source@),
        ensures
            rendered@ == spec_render(*self, source@, path@, bilingual),
    {
        let s = chars_of(source);
        let (line_no, col, line, underline_start, underline_len) = layout(&s, self.span);
        let gutter = decimal_len(line_no);
        let mut out = String::new();
        self.push_heading(&mut out, bilingual);
        push_location(&mut out, gutter, path, line_no, col);
        push_shown_line(&mut out, line_no, &line);
        push_caret_line(&mut out, gutter, underline_start, underline_len);
        self.push_hints(&mut out, bilingual, gutter);
        proof {
            assert(out@ =~= spec_render(*self, source@, path@, bilingual));
        }
        out
    }
}

/// Renders several diagnostics, separated by blank lines.
pub fn render_all(diagnostics: &[Diagnostic], source: &str, path: &str) -> (rendered: String)
    requires
        countable(source@),
    ensures
        rendered@ == spec_render_all(diagnostics@, source@, path@, false),
{
    render_each(diagnostics, source, path, false)
}

/// Renders several diagnostics with Korean first and English immediately
/// after it, separated by blank lines.
pub fn render_all_bilingual(diagnostics: &[Diagnostic], source: &str, path: &str) -> (rendered: String)
    requires
        countable(source@),
    ensures
        rendered@ == spec_render_all(diagnostics@, source@, path@, true),
{
    render_each(diagnostics, source, path, true)
}

fn render_each(diagnostics: &[Diagnostic], source: &str, path: &str, bilingual: bool) -> (rendered: String)
    requires
        countable(source@),
    ensures
        rendered@ == spec_render_all(diagnostics@, source@, path@, bilingual),
{
    let mut out = String::new();
    let mut i: usize = 0;
    while i < diagnostics.len()
        invariant
            0 <= i <= diagnostics@.len(),
            countable(source@),
            out@ == spec_render_all(diagnostics@.take(i as int), source@, path@, bilingual),
        decreases diagnostics@.len() - i,
    {
        if i > 0 {
            push(&mut out, '\n');
        }
        let one = diagnostics[i].render_with_korean(source, path, bilingual);
        out.append(one.as_str());
        proof {
            let next = diagnostics@.take(i + 1);
            assert(next.drop_last() =~= diagnostics@.take(i as int));
            assert(next.last() == diagnostics@[i as int]);
            if i == 0 {
                assert(out@ =~= spec_render_all(next, source@, path@, bilingual));
            } else {
                assert(out@ =~= spec_render_all(next, source@, path@, bilingual));
            }
        }
        i = i + 1;
    }
    proof {
        assert(diagnostics@.take(diagnostics@.len() as int) =~= diagnostics@);
    }
    out
}

} // verus!

verus! {

/// The bilingual rendering is the English one with the Korean lines added:
/// the Korean message, when there is one, before the English message, and
/// the Korean hint, when there is one, before the English hint. With
/// neither, the two renderings are the same.
pub proof fn law_korean_lines_are_added_to_the_english(d: Diagnostic, s: Seq<char>, path: Seq<char>)
    ensures
        heading(d, true) == (if d.message_ko is Some {
            "오류["@ + d.code.spec_code() + "]: "@ + d.message_ko->0@ + seq!['\n']
        } else {
            Seq::empty()
        }) + heading(d, false),
        forall|gutter: nat|
            #[trigger] hints(d, true, gutter) == (if d.hint_ko is Some {
                spaces(gutter) + " = 도움말: "@ + d.hint_ko->0@ + seq!['\n']
            } else {
                Seq::empty()
            }) + hints(d, false, gutter),
        d.message_ko is None && d.hint_ko is None ==> spec_render(d, s, path, true) == spec_render(
            d,
            s,
            path,
            false,
        ),
{
    assert(heading(d, false) =~= Seq::<char>::empty() + heading(d, false));
    assert forall|gutter: nat| #[trigger] hints(d, true, gutter) == (if d.hint_ko is Some {
        spaces(gutter) + " = 도움말: "@ + d.hint_ko->0@ + seq!['\n']
    } else {
        Seq::empty()
    }) + hints(d, false, gutter) by {
        assert(hints(d, false, gutter) =~= Seq::<char>::empty() + hints(d, false, gutter));
    }
}

/// Rendering no diagnostics gives nothing, and each further one is put
/// after the others with one blank line between them (every rendering ends
/// with a line break).
pub proof fn law_renderings_are_joined_by_blank_lines(
    ds: Seq<Diagnostic>,
    s: Seq<char>,
    path: Seq<char>,
    bilingual: bool,
    d: Diagnostic,
)
    ensures
        spec_render_all(Seq::empty(), s, path, bilingual) == Seq::<char>::empty(),
        spec_render_all(seq![d], s, path, bilingual) == spec_render(d, s, path, bilingual),
        ds.len() > 0 ==> spec_render_all(ds.push(d), s, path, bilingual) == spec_render_all(
            ds,
            s,
            path,
            bilingual,
        ) + seq!['\n'] + spec_render(d, s, path, bilingual),
{
    assert(ds.push(d).drop_last() =~= ds);
}

} // verus!

verus! {

proof fn lemma_newlines_are_the_line_breaks(s: Seq<char>, k: int)
    requires
        0 <= k <= s.len(),
    ensures
        newlines_before(s, k) == s.take(k).filter(|c: char| c == '\n').len(),
    decreases k,
{
    reveal_with_fuel(Seq::filter, 1);
    if k > 0 {
        lemma_newlines_are_the_line_breaks(s, k - 1);
        assert(s.take(k).drop_last() =~= s.take(k - 1));
        assert(s.take(k).last() == s[k - 1]);
    } else {
        assert(s.take(0) =~= Seq::<char>::empty());
    }
}

proof fn lemma_line_start_follows_the_last_break(s: Seq<char>, k: int)
    requires
        0 <= k <= s.len(),
    ensures
        0 <= line_start(s, k) <= k,
        line_start(s, k) == 0 || s[line_start(s, k) - 1] == '\n',
        forall|i: int| line_start(s, k) <= i < k ==> s[i] != '\n',
    decreases k,
{
    if k > 0 && s[k - 1] != '\n' {
        lemma_line_start_follows_the_last_break(s, k - 1);
    }
}

/// Where a diagnostic is: its line is one more than the number of line
/// breaks (`\n`; a carriage return is not one) before the character its
/// span starts at, and its column is one more than the number of characters
/// between the last such line break (or the start of the text) and that
/// character.
pub proof fn law_a_place_is_counted_in_line_breaks(s: Seq<char>, start: int)
    ensures
        ({
            let k = chars_before(s, start) as int;
            let (line, column) = spec_line_col(s, start);
            let a = (k - column + 1) as int;
            &&& line == 1 + s.take(k).filter(|c: char| c == '\n').len()
            &&& 0 <= a <= k
            &&& a == 0 || s[a - 1] == '\n'
            &&& forall|i: int| a <= i < k ==> s[i] != '\n'
        }),
{
    let k = chars_before(s, start) as int;
    lemma_chars_before_bounds(s, start);
    lemma_newlines_are_the_line_breaks(s, k);
    lemma_line_start_follows_the_last_break(s, k);
}

} // verus!
