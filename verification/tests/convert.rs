use nme_core::convert::{convert_python, Conversion, Language, SyntaxLevel};

fn names(known: &[&str]) -> Vec<String> {
    known.iter().map(|name| name.to_string()).collect()
}

fn converted(source: &str, level: SyntaxLevel, language: Language, known: &[&str]) -> Conversion {
    convert_python(source, level, language, &names(known)).unwrap()
}

#[test]
fn advanced_conversion_is_byte_identical() {
    let source = "name = input(\"Name? \" )\nprint(name)\n";
    assert_eq!(
        converted(source, SyntaxLevel::Advanced, Language::Korean, &["name"]),
        Conversion {
            source: source.to_string(),
            changed_lines: 0,
        }
    );
}

#[test]
fn converts_the_safe_beginner_subset_in_both_languages() {
    let source = "name = input(\"Name? \")\nif name:\n    print(name)\nfor _ in range(2):\n    print(\"Hi\")\n";
    assert_eq!(
        converted(source, SyntaxLevel::Beginner, Language::English, &["name"]).source,
        "ask name, \"Name? \"\nwhen name:\n    say name\n2 times:\n    say \"Hi\"\n"
    );
    assert_eq!(
        converted(source, SyntaxLevel::Beginner, Language::Korean, &["name"]).source,
        "물어봐 name, \"Name? \"\n만약 name:\n    말해 name\n2번:\n    말해 \"Hi\"\n"
    );
}

#[test]
fn converts_to_colon_free_sentence_structure() {
    let source = "name = input(\"What is your name?\")\nif name:\n    print(\"Hello, world!\")\nfor _ in range(2):\n    print(name)\n";
    let result = converted(source, SyntaxLevel::Sentence, Language::Korean, &["name"]);
    assert_eq!(
        result.source,
        "name을 물어봐 \"What is your name?\"\n만약에 name\n    보여줘 \"Hello, world!\"\n2번 반복해\n    보여줘 name\n"
    );
    assert_eq!(result.changed_lines, 5);
}

#[test]
fn sentence_conversion_handles_numeric_input_and_assignments() {
    let source = "answer = 7\nguess = int(input(\"Guess\"))\nprint(guess)\n";
    assert_eq!(
        converted(source, SyntaxLevel::Sentence, Language::English, &["answer", "guess"]).source,
        "set answer to 7\nask number guess \"Guess\"\nshow guess\n"
    );
}

#[test]
fn sentence_conversion_keeps_string_and_prompt_semantics() {
    let source = "name = \"Ada\"\nquestion = input(\"Name?\")\nprint(\"Hello name\")\n";
    let result = converted(
        source,
        SyntaxLevel::Sentence,
        Language::English,
        &["name", "question"],
    );
    assert_eq!(
        result.source,
        "set name to \"Ada\"\nask question \"Name?\"\nshow \"Hello name\"\n"
    );
}

#[test]
fn unsupported_python_stays_as_advanced_syntax() {
    let source = "while ready:\n    value += 1\nprint(value, end='')\n";
    let result = converted(source, SyntaxLevel::Sentence, Language::English, &["value"]);
    assert_eq!(result.source, source);
    assert_eq!(result.changed_lines, 0);
}

#[test]
fn sentence_conversion_does_not_treat_unresolved_bare_names_as_text() {
    let source = "print(external)\nvalue = input(prompt)\ncopy = external\n";
    let result = converted(
        source,
        SyntaxLevel::Sentence,
        Language::English,
        &["value", "copy"],
    );
    assert_eq!(
        result.source,
        "print(external)\nset value to input(prompt)\ncopy = external\n"
    );
    assert_eq!(result.changed_lines, 1);
}

#[test]
fn rejects_invalid_python_before_conversion() {
    let errors = convert_python(
        "if broken\n",
        SyntaxLevel::Sentence,
        Language::English,
        &names(&[]),
    )
    .unwrap_err();
    assert_eq!(errors.len(), 1);
    assert!(errors[0].message.contains("not valid"));
    assert!(errors[0].hint.is_some());
}

#[test]
fn a_random_import_becomes_the_use_line_of_each_level() {
    let source = "import random\n";
    let cases = [
        (SyntaxLevel::Beginner, Language::English, "use random\n"),
        (SyntaxLevel::Beginner, Language::Korean, "랜덤 사용\n"),
        (SyntaxLevel::Sentence, Language::English, "use random latest\n"),
        (SyntaxLevel::Sentence, Language::Korean, "랜덤 사용 최신\n"),
    ];
    for (level, language, expected) in cases {
        let result = converted(source, level, language, &[]);
        assert_eq!(result.source, expected);
        assert_eq!(result.changed_lines, 1);
    }
}

#[test]
fn sentence_conditions_and_loops_lose_their_colons() {
    let source = "if x > 1:\n    pass\nfor _ in range(n + 1):\n    pass\n";
    assert_eq!(
        converted(source, SyntaxLevel::Sentence, Language::English, &["x", "n"]).source,
        "if x > 1\n    pass\nrepeat n + 1 times\n    pass\n"
    );
}

#[test]
fn a_loop_over_two_range_arguments_stays_python() {
    let source = "for _ in range(1, 3):\n    pass\n";
    let result = converted(source, SyntaxLevel::Beginner, Language::English, &[]);
    assert_eq!(result.source, source);
    assert_eq!(result.changed_lines, 0);
}

#[test]
fn a_korean_assignment_takes_its_particle() {
    let source = "count = 3\n";
    assert_eq!(
        converted(source, SyntaxLevel::Sentence, Language::Korean, &["count"]).source,
        "count은 3\n"
    );
}

#[test]
fn beginner_input_with_no_prompt_has_no_comma() {
    let source = "name = input()\n";
    assert_eq!(
        converted(source, SyntaxLevel::Beginner, Language::English, &[]).source,
        "ask name\n"
    );
    let numeric = "age = int(input(\"Age?\"))\n";
    assert_eq!(
        converted(numeric, SyntaxLevel::Beginner, Language::English, &[]).source,
        numeric
    );
}

#[test]
fn a_comma_inside_brackets_keeps_one_argument() {
    let source = "print((1, 2))\n";
    assert_eq!(
        converted(source, SyntaxLevel::Beginner, Language::English, &[]).source,
        "say (1, 2)\n"
    );
}

#[test]
fn comments_and_blank_lines_are_kept_around_rewritten_lines() {
    let source = "# greet\n\nprint(\"hi\")  # loud\n";
    assert_eq!(
        converted(source, SyntaxLevel::Beginner, Language::English, &[]).source,
        "# greet\n\nsay \"hi\"  # loud\n"
    );
}

#[test]
fn an_unterminated_string_is_refused_by_the_parser() {
    let errors = convert_python(
        "print(\"oops\n",
        SyntaxLevel::Beginner,
        Language::English,
        &names(&[]),
    )
    .unwrap_err();
    assert_eq!(errors.len(), 1);
    assert!(errors[0].message.starts_with("the Python source is not valid: "));
    assert_eq!(
        errors[0].hint.as_deref(),
        Some("fix this Python error before converting it to NME")
    );
    assert!(errors[0].span.end <= "print(\"oops\n".len());
    assert_eq!(errors[0].code.code(), "E0702");
}

#[test]
fn beginner_conversion_does_not_ask_which_names_are_bound() {
    let source = "print(external)\nvalue = input(prompt)\n";
    let without = converted(source, SyntaxLevel::Beginner, Language::English, &[]);
    let with = converted(
        source,
        SyntaxLevel::Beginner,
        Language::English,
        &["external", "prompt", "value"],
    );
    assert_eq!(without, with);
    assert_eq!(without.source, "say external\nask value, prompt\n");
}

#[test]
fn sentence_conversion_shows_a_bound_name() {
    let source = "print(external)\n";
    assert_eq!(
        converted(source, SyntaxLevel::Sentence, Language::English, &["external"]).source,
        "show external\n"
    );
    assert_eq!(
        converted(source, SyntaxLevel::Sentence, Language::English, &[]).source,
        source
    );
}
