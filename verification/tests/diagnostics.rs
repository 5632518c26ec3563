use nme_core::diagnostics::{Diagnostic, DiagnosticCode, Span};

fn underline(rendered: &str) -> &str {
    rendered
        .lines()
        .find(|line| line.contains('^'))
        .and_then(|line| line.split_once("| "))
        .map(|(_, underline)| underline)
        .expect("rendered diagnostic should contain an underline")
}

#[test]
fn renders_line_column_and_caret() {
    let source = "say \"hi\"\nsay\n";
    let diag = Diagnostic::new(
        DiagnosticCode::SayMissing,
        "`say` needs something to print",
        Span::new(9, 12),
    )
    .with_hint("try `say \"Hello\"`");
    let rendered = diag.render(source, "hello.nme");
    assert!(rendered.contains("error[E0204]: `say` needs something to print"));
    assert!(rendered.contains("hello.nme:2:1"));
    assert!(rendered.contains("2 | say"));
    assert!(rendered.contains("^^^"));
    assert!(rendered.contains("hint: try `say \"Hello\"`"));
}

#[test]
fn bilingual_rendering_puts_korean_before_equivalent_english() {
    let source = "말해\n";
    let diag = Diagnostic::bilingual(
        DiagnosticCode::SayMissing,
        "there is nothing to show",
        "말할 내용이 비어 있어요",
        Span::new(0, 6),
    )
    .with_bilingual_hint("write `show Hello`", "`안녕하세요 말해줘`처럼 적어 주세요");
    let rendered = diag.render_bilingual(source, "hello.nme");

    let korean_at = rendered
        .find("오류[E0204]: 말할 내용이 비어 있어요")
        .unwrap();
    let english_at = rendered
        .find("error[E0204]: there is nothing to show")
        .unwrap();
    assert!(korean_at < english_at, "{rendered}");
    assert!(rendered.contains("도움말: `안녕하세요 말해줘`처럼 적어 주세요"));
    assert!(rendered.contains("hint: write `show Hello`"));
    assert!(!diag.render(source, "hello.nme").contains("오류["));
}

#[test]
fn line_col_counts_from_one() {
    let source = "ab\ncd\nef";
    let diag = Diagnostic::new(DiagnosticCode::MissingAction, "x", Span::new(6, 8));
    assert_eq!(diag.line_col(source), (3, 1));
}

#[test]
fn ascii_caret_uses_character_width() {
    let source = "show value\n";
    let start = source.find("value").unwrap();
    let rendered = Diagnostic::new(
        DiagnosticCode::MissingAction,
        "x",
        Span::new(start, start + "value".len()),
    )
    .render(source, "hello.nme");

    assert_eq!(underline(&rendered), "     ^^^^^");
}

#[test]
fn cjk_caret_uses_display_cell_width() {
    let source = "말해 잘못된값\n";
    let start = source.find("잘못된값").unwrap();
    let rendered = Diagnostic::new(
        DiagnosticCode::MissingAction,
        "x",
        Span::new(start, start + "잘못된값".len()),
    )
    .render(source, "hello.nme");

    assert_eq!(underline(&rendered), "     ^^^^^^^^");
}

#[test]
fn tabs_are_expanded_to_four_column_stops() {
    let source = "a\tbroken\n";
    let start = source.find("broken").unwrap();
    let rendered = Diagnostic::new(
        DiagnosticCode::MissingAction,
        "x",
        Span::new(start, start + "broken".len()),
    )
    .render(source, "hello.nme");

    assert!(rendered.contains("1 | a   broken"));
    assert_eq!(underline(&rendered), "    ^^^^^^");
}

#[test]
fn tab_inside_span_uses_its_expanded_width() {
    let source = "a\tb\n";
    let rendered = Diagnostic::new(DiagnosticCode::MissingAction, "x", Span::new(1, 3))
        .render(source, "hello.nme");

    assert_eq!(underline(&rendered), " ^^^^");
}

#[test]
fn zero_width_span_has_one_caret() {
    let source = "say\n";
    let rendered = Diagnostic::new(DiagnosticCode::MissingAction, "x", Span::new(3, 3))
        .render(source, "hello.nme");

    assert_eq!(underline(&rendered), "   ^");
}

#[test]
fn partial_unicode_byte_span_covers_the_whole_character() {
    let source = "show …\n";
    let start = source.find('…').unwrap();
    let rendered = Diagnostic::new(
        DiagnosticCode::MissingAction,
        "x",
        Span::new(start, start + 1),
    )
    .render(source, "hello.nme");

    assert_eq!(underline(&rendered), "     ^");
}

#[test]
fn every_code_has_a_unique_stable_number() {
    let mut seen = std::collections::HashSet::new();
    for code in DiagnosticCode::ALL {
        assert!(seen.insert(code.code()), "duplicate code {}", code.code());
        assert!(code.code().starts_with('E'), "{}", code.code());
        assert!(code.code().len() == 5, "{}", code.code());
    }
    assert!(DiagnosticCode::ALL.len() >= 30);
}

#[test]
fn every_code_has_a_bilingual_explanation() {
    for code in DiagnosticCode::ALL {
        let explanation = code.explanation();
        assert_eq!(explanation.code, code.code());
        assert!(!explanation.title_en.is_empty(), "{}", code.code());
        assert!(!explanation.title_ko.is_empty(), "{}", code.code());
        assert!(!explanation.detail_en.is_empty(), "{}", code.code());
        assert!(!explanation.detail_ko.is_empty(), "{}", code.code());
    }
}

#[test]
fn codes_round_trip_through_from_code() {
    for code in DiagnosticCode::ALL {
        assert_eq!(
            DiagnosticCode::from_code(code.code()),
            Some(code),
            "{}",
            code.code()
        );
    }
    assert_eq!(DiagnosticCode::from_code("E9999"), None);
}
