use nme_core::cli::{
    ambiguous_program_message, code_page_text, code_request, codes_listing, compile_options,
    contains_korean, convert_options, modules_listing, pick_program, render_diagnostics,
    resolve_among, run_options, check_options, suggest_among, CodeRequest, ConvertFault, MessageLanguage,
    OptionFault, Pick,
    Resolution,
};
use nme_core::convert::{Language, SyntaxLevel};
use nme_core::diagnostics::{render_all, render_all_bilingual, Diagnostic, DiagnosticCode, Span};

fn strings(words: &[&str]) -> Vec<String> {
    words.iter().map(|word| word.to_string()).collect()
}

#[test]
fn korean_letters_are_found() {
    assert!(contains_korean("실행"));
    assert!(contains_korean("run 헬로"));
    assert!(contains_korean("ㄱ"));
    assert!(!contains_korean("hello"));
    assert!(!contains_korean(""));
}

#[test]
fn several_matches_are_listed_with_a_hint() {
    let names = strings(&["guess.nme", "guessing-game.nme"]);
    let (english, korean) = ambiguous_program_message("gue", &names, "run", "실행");
    assert_eq!(
        english,
        "several programs match `gue`: guess.nme, guessing-game.nme\nhint: type more of the name, e.g. `nme run guess`"
    );
    assert_eq!(
        korean,
        "`gue`(와)과 일치하는 프로그램이 여럿입니다: guess.nme, guessing-game.nme\n도움말: 이름을 더 길게 적어 주세요. 예: `nme 실행 guess`"
    );
    let (none, _) = ambiguous_program_message("x", &[], "check", "검사");
    assert_eq!(
        none,
        "several programs match `x`: \nhint: type more of the name, e.g. `nme check x`"
    );
}

#[test]
fn a_program_is_picked_by_number_name_or_start() {
    let names = strings(&["Alpha.nme", "beta.nme", "bravo.nme"]);
    let stems = strings(&["alpha", "beta", "bravo"]);
    assert!(matches!(pick_program(&names, &stems, " 2\n"), Pick::Chosen(1)));
    assert!(matches!(pick_program(&names, &stems, "+3"), Pick::Chosen(2)));
    assert!(matches!(pick_program(&names, &stems, "alpha.NME"), Pick::Chosen(0)));
    assert!(matches!(pick_program(&names, &stems, "BETA"), Pick::Chosen(1)));
    assert!(matches!(pick_program(&names, &stems, "al"), Pick::Chosen(0)));
    assert!(matches!(pick_program(&names, &stems, "   \n"), Pick::NoAnswer));
    assert!(matches!(pick_program(&names, &stems, "zeta"), Pick::NotListed));
    assert!(matches!(pick_program(&names, &stems, "0"), Pick::NotListed));
    match pick_program(&names, &stems, "B") {
        Pick::Several(indices) => assert_eq!(indices, vec![1, 2]),
        _ => panic!("two programs start with b"),
    }
}

#[test]
fn a_name_resolves_by_stem_then_by_start() {
    let stems = strings(&["guess", "guessing-game", "hello"]);
    assert!(matches!(resolve_among(&stems, "guess"), Resolution::Found(0)));
    assert!(matches!(resolve_among(&stems, "hel"), Resolution::Found(2)));
    assert!(matches!(resolve_among(&stems, "zzz"), Resolution::Nothing));
    match resolve_among(&stems, "gue") {
        Resolution::Several(indices) => assert_eq!(indices, vec![0, 1]),
        _ => panic!("two programs start with gue"),
    }
    let twins = strings(&["hello", "hello"]);
    match resolve_among(&twins, "hello") {
        Resolution::Several(indices) => assert_eq!(indices, vec![0, 1]),
        _ => panic!("two programs share a stem"),
    }
}

#[test]
fn a_near_name_is_suggested() {
    let names = strings(&["Guessing-Game.nme", "hello.nme", "say-hello.nme"]);
    let stems = strings(&["guessing-game", "hello", "say-hello"]);
    assert_eq!(suggest_among(&names, &stems, "hello.nme"), Some(1));
    assert_eq!(suggest_among(&names, &stems, "hello"), Some(1));
    assert_eq!(suggest_among(&names, &stems, "game"), Some(0));
    assert_eq!(suggest_among(&names, &stems, "zzz"), None);
}

#[test]
fn compile_options_are_read_in_order() {
    let read = compile_options(&strings(&["app", "-o", "out", "--python", "py3"]), "python3")
        .ok()
        .unwrap();
    assert_eq!(read.file, Some("app".to_string()));
    assert_eq!(read.output, Some("out".to_string()));
    assert_eq!(read.python, "py3");
    let bare = compile_options(&[], "python3").ok().unwrap();
    assert_eq!(bare.file, None);
    assert_eq!(bare.python, "python3");
    assert!(matches!(
        compile_options(&strings(&["app", "--python"]), "python3").err(),
        Some((OptionFault::PythonNeedsCommand, 1))
    ));
    assert!(matches!(
        compile_options(&strings(&["--output"]), "python3").err(),
        Some((OptionFault::OutputNeedsPath, 0))
    ));
    assert!(matches!(
        compile_options(&strings(&["-x"]), "python3").err(),
        Some((OptionFault::UnknownOption, 0))
    ));
    assert!(matches!(
        compile_options(&strings(&["a", "b"]), "python3").err(),
        Some((OptionFault::ExtraFile, 1))
    ));
}

#[test]
fn problems_are_rendered_in_the_language_asked_for() {
    let source = "say\n";
    let problems = vec![Diagnostic::bilingual(
        DiagnosticCode::SayMissing,
        "`say` needs something to print",
        "`말해` 뒤에 출력할 내용이 필요합니다",
        Span::new(0, 3),
    )];
    assert_eq!(
        render_diagnostics(&problems, source, "a.nme", MessageLanguage::English),
        render_all(&problems, source, "a.nme")
    );
    assert_eq!(
        render_diagnostics(&problems, source, "a.nme", MessageLanguage::KoreanAndEnglish),
        render_all_bilingual(&problems, source, "a.nme")
    );
}

fn words(list: &[&str]) -> Vec<String> {
    list.iter().map(|word| word.to_string()).collect()
}

#[test]
fn convert_options_default_to_english_sentences() {
    let options = convert_options(&words(&["app.py"])).ok().unwrap();
    assert_eq!(options.file, "app.py");
    assert_eq!(options.level, SyntaxLevel::Sentence);
    assert_eq!(options.language, Language::English);
    assert_eq!(options.output, None);
}

#[test]
fn convert_options_read_levels_and_languages_in_both_languages() {
    let options =
        convert_options(&words(&["--level", "초급", "app.py", "--lang", "ko", "-o", "out.nme"]))
            .ok()
            .unwrap();
    assert_eq!(options.level, SyntaxLevel::Beginner);
    assert_eq!(options.language, Language::Korean);
    assert_eq!(options.output.as_deref(), Some("out.nme"));
    let advanced = convert_options(&words(&["--level", "advanced", "--language", "english", "a.py"]))
        .ok()
        .unwrap();
    assert_eq!(advanced.level, SyntaxLevel::Advanced);
    assert_eq!(advanced.language, Language::English);
}

#[test]
fn convert_options_name_each_fault_and_where_it_stands() {
    let fault = |list: &[&str]| convert_options(&words(list)).err().unwrap();
    assert_eq!(fault(&["--level"]), (ConvertFault::LevelNeedsValue, 0));
    assert_eq!(fault(&["a.py", "--level", "expert"]), (ConvertFault::LevelNeedsValue, 1));
    assert_eq!(fault(&["--language", "fr", "a.py"]), (ConvertFault::LanguageNeedsValue, 0));
    assert_eq!(fault(&["a.py", "-o"]), (ConvertFault::OutputNeedsPath, 1));
    assert_eq!(fault(&["--fast", "a.py"]), (ConvertFault::UnknownOption, 0));
    assert_eq!(fault(&["a.py", "b.py"]), (ConvertFault::ExtraFile, 1));
    assert_eq!(fault(&["--level", "sentence"]), (ConvertFault::NeedsFile, 2));
    assert_eq!(fault(&[]), (ConvertFault::NeedsFile, 0));
}

#[test]
fn the_modules_page_lists_every_module_with_its_version() {
    let english = modules_listing(MessageLanguage::English);
    assert_eq!(english.lines().count(), 7);
    for line in english.lines() {
        assert!(line.ends_with("  bundled, latest"));
    }
    let both = modules_listing(MessageLanguage::KoreanAndEnglish);
    assert_eq!(both.lines().count(), 14);
    assert!(both.lines().next().unwrap().ends_with("  내장, 최신"));
    let last_english = format!("{}\n", english.lines().last().unwrap());
    assert!(both.ends_with(&last_english));
}

#[test]
fn the_codes_page_has_one_line_per_code() {
    let english = codes_listing(MessageLanguage::English);
    assert_eq!(english.lines().count(), 70);
    assert!(english.starts_with("E0001  "));
    let both = codes_listing(MessageLanguage::KoreanAndEnglish);
    assert_eq!(both.lines().count(), 70);
    assert!(both.lines().all(|line| line.contains(" / ")));
}

#[test]
fn a_code_page_tells_how_to_find_it_again() {
    let code = DiagnosticCode::UnrecognizedInput;
    let english = code_page_text(code, MessageLanguage::English);
    assert!(english.starts_with("E0001 — "));
    assert!(english.contains("for example `error[E0001]`"));
    assert!(english.ends_with("`nme ko E0001` anytime to read this page again.\n"));
    let both = code_page_text(code, MessageLanguage::KoreanAndEnglish);
    assert!(both.starts_with("E0001 — "));
    assert!(both.contains("`error[E0001]`처럼 표시됩니다."));
    let english_part = format!("E0001 — {}", code.explanation().title_en);
    assert!(both.contains(&english_part));
    assert!(both.ends_with(&format!("{}\n", code.explanation().detail_en)));
}

#[test]
fn code_requests_are_read_from_the_words() {
    assert_eq!(code_request(&strings(&[])), CodeRequest::Listing);
    assert_eq!(code_request(&strings(&["E0001", "E0002"])), CodeRequest::OneAtATime);
    assert_eq!(code_request(&strings(&["E9999"])), CodeRequest::NoSuchCode);
    assert_eq!(
        code_request(&strings(&["E0001"])),
        CodeRequest::Page(DiagnosticCode::UnrecognizedInput)
    );
}

#[test]
fn run_and_check_take_no_output_path() {
    let read = check_options(&strings(&["hello", "-o", "out.py"]), "python3");
    assert_eq!(read.err(), Some((OptionFault::UnknownOption, 1)));
    let read = run_options(&strings(&["-o", "out.py", "hello"]), "python3");
    assert_eq!(read.err(), Some((OptionFault::UnknownOption, 0)));
    let options = run_options(&strings(&["--python", "py", "hello"]), "python3")
        .ok()
        .unwrap();
    assert_eq!(options.python, "py");
    assert_eq!(options.file.as_deref(), Some("hello"));
    assert_eq!(options.output, None);
    assert!(options.arguments.is_empty());
    let built = compile_options(&strings(&["hello", "-o", "out.py"]), "python3")
        .ok()
        .unwrap();
    assert_eq!(built.output.as_deref(), Some("out.py"));
    assert_eq!(built.python, "python3");
    assert_eq!(
        check_options(&strings(&["hello", "extra"]), "python3").err(),
        Some((OptionFault::ExtraFile, 1))
    );
}

#[test]
fn run_passes_program_arguments_to_the_program() {
    let options = run_options(&strings(&["args.nme", "one", "two"]), "python3")
        .ok()
        .unwrap();
    assert_eq!(options.file.as_deref(), Some("args.nme"));
    assert_eq!(options.arguments, strings(&["one", "two"]));
    let bare = run_options(&strings(&["args.nme", "-5", "3.5"]), "python3")
        .ok()
        .unwrap();
    assert_eq!(bare.arguments, strings(&["-5", "3.5"]));
    let later = run_options(&strings(&["args.nme", "--python", "py"]), "python3")
        .ok()
        .unwrap();
    assert_eq!(later.python, "python3");
    assert_eq!(later.arguments, strings(&["--python", "py"]));
}

#[test]
fn error_lookup_pages_hold_what_each_code_promises() {
    let page = |code: &str, language| match code_request(&strings(&[code])) {
        CodeRequest::Page(found) => code_page_text(found, language),
        other => panic!("{code}: {other:?}"),
    };
    let korean = page("E0101", MessageLanguage::KoreanAndEnglish);
    assert!(korean.contains("열린 블록이 없는 `끝`"));
    assert!(korean.contains("E0101 — an `end` with no open block"));
    let english = page("E0101", MessageLanguage::English);
    assert!(english.contains("an `end` with no open block"));
    assert!(!english.contains("열린 블록"));
    let break_english = page("E0102", MessageLanguage::English);
    assert!(break_english.contains("`while`/`repeat`"));
    assert!(break_english.contains("Python loop"));
    let break_korean = page("E0102", MessageLanguage::KoreanAndEnglish);
    assert!(break_korean.contains("`while`/`repeat`"));
    assert!(break_korean.contains("Python 반복문"));
    let continue_english = page("E0107", MessageLanguage::English);
    assert!(continue_english.contains("`continue` outside a loop"));
    assert!(continue_english.contains("starts the next one"));
    let continue_korean = page("E0107", MessageLanguage::KoreanAndEnglish);
    assert!(continue_korean.contains("반복문 밖의 `continue`"));
    assert!(continue_korean.contains("다음 회차로 넘어가라는 말"));
    assert!(page("E9025", MessageLanguage::English).contains("pip could not install the package"));
    assert!(page("E9025", MessageLanguage::KoreanAndEnglish).contains("pip이 패키지를 설치하지 못했습니다"));
    let native_failure = page("E9010", MessageLanguage::English);
    assert!(native_failure.contains("nme compile"));
    assert!(native_failure.contains("nme native"));
    let native_start = page("E9011", MessageLanguage::KoreanAndEnglish);
    assert!(native_start.contains("nme 컴파일"));
    assert!(native_start.contains("시스템 C 컴파일러"));
    assert!(page("E9026", MessageLanguage::English).contains("the native program could not be started"));
    assert!(page("E9026", MessageLanguage::KoreanAndEnglish).contains("네이티브 프로그램을 시작할 수 없습니다"));
    assert!(page("E9027", MessageLanguage::English).contains("a temporary working folder could not be created"));
    assert!(page("E9028", MessageLanguage::English).contains("two imported modules have the same name"));
    assert!(page("E9029", MessageLanguage::KoreanAndEnglish).contains("`nme 컴파일`은 모듈 가져오기를 지원하지 않습니다"));
    assert!(page("E9030", MessageLanguage::English).contains("the package name is missing"));
    assert!(page("E9030", MessageLanguage::KoreanAndEnglish).contains("패키지 이름이 없습니다"));
    assert_eq!(code_request(&strings(&["E9999"])), CodeRequest::NoSuchCode);
}
