use nme_core::lexer::{logical_lines, LogicalLine, TokenKind};

fn lines(source: &str) -> Vec<LogicalLine> {
    logical_lines(source).expect("test sources must lex")
}

#[test]
fn groups_tokens_per_logical_line() {
    let src = "x = 1\ny = 2\n";
    let ls = lines(src);
    assert_eq!(ls.len(), 2);
    assert_eq!(ls[0].number, 1);
    assert_eq!(ls[0].tokens.len(), 3); // x, =, 1
    assert_eq!(ls[1].number, 2);
    assert_eq!(ls[0].text(src), "x = 1");
}

#[test]
fn tracks_indent_depth() {
    let src = "for i in range(3):\n    print(i)\nprint('done')\n";
    let ls = lines(src);
    assert_eq!(ls.len(), 3);
    assert_eq!(ls[0].indent, 0);
    assert_eq!(ls[1].indent, 1);
    assert_eq!(ls[2].indent, 0);
}

#[test]
fn comment_and_blank_lines_produce_no_logical_lines() {
    let src = "# 5 times: say \"hi\"\n\nx = 1  # trailing comment\n";
    let ls = lines(src);
    assert_eq!(ls.len(), 1);
    assert_eq!(ls[0].number, 3);
    // The span excludes the trailing comment, so edits keep it intact.
    assert_eq!(ls[0].text(src), "x = 1");
}

#[test]
fn triple_quoted_strings_stay_inside_one_logical_line() {
    let src = "text = \"\"\"\n5 times: say \"not code\"\n\"\"\"\nprint(text)\n";
    let ls = lines(src);
    assert_eq!(ls.len(), 2);
    assert_eq!(ls[0].number, 1);
    assert_eq!(ls[1].number, 4);
}

#[test]
fn bracket_continuations_stay_in_one_logical_line() {
    let src = "total = (1 +\n         2)\n";
    let ls = lines(src);
    assert_eq!(ls.len(), 1);
    assert_eq!(ls[0].text(src), "total = (1 +\n         2)");
}

#[test]
fn f_strings_are_single_tokens() {
    let src = "name = \"n\"\nsay_text = f\"hi {name}\"\n";
    let ls = lines(src);
    assert!(matches!(ls[1].tokens[2].tok, TokenKind::Other));
    assert_eq!(ls[1].tokens.len(), 3);
}

#[test]
fn unterminated_string_is_a_friendly_error() {
    let err = logical_lines("say \"oops\n").unwrap_err();
    assert!(err.message.contains("not something Python or NME can read"));
}

#[test]
fn keeps_sentence_question_and_exclamation_marks_as_tokens() {
    let src = "이름을 물어봐 이름이 뭐예요?\n안녕하세요! 말해줘\n";
    let ls = lines(src);
    assert_eq!(ls.len(), 2);
    assert_eq!(ls[0].text(src), "이름을 물어봐 이름이 뭐예요?");
    assert_eq!(ls[1].text(src), "안녕하세요! 말해줘");
}

#[test]
fn apostrophes_inside_exact_english_output_sentences_are_text() {
    let src = "show I'm sure it's ready!\n";
    let ls = lines(src);
    assert_eq!(ls.len(), 1);
    assert_eq!(ls[0].text(src), "show I'm sure it's ready!");
}

#[test]
fn apostrophes_inside_bare_sentence_prose_are_text() {
    let src = "I'm happy today!\n";
    let ls = lines(src);
    assert_eq!(ls.len(), 1);
    assert_eq!(ls[0].text(src), src.trim_end());
}

#[test]
fn apostrophe_recovery_never_masks_broken_python_or_a_started_string() {
    assert!(logical_lines("value = O'Reilly\n").is_err());
    assert!(logical_lines("show 'oops\n").is_err());
}

#[test]
fn a_line_starting_with_a_word_is_recognized_by_that_word() {
    let src = "say \"hi\"\nx = 1\n";
    let ls = lines(src);
    assert!(ls[0].starts_with_name("say"));
    assert!(!ls[0].starts_with_name("sa"));
    assert!(!ls[1].starts_with_name("say"));
}

#[test]
fn a_stray_mark_is_a_name_token_of_its_own() {
    let src = "ready?\n";
    let ls = lines(src);
    assert_eq!(ls[0].tokens.len(), 2);
    match &ls[0].tokens[1].tok {
        TokenKind::Name(mark) => assert_eq!(mark, "?"),
        TokenKind::Other => panic!("the mark should be a name"),
    }
    assert_eq!(ls[0].tokens[1].span.start, 5);
    assert_eq!(ls[0].tokens[1].span.end, 6);
}

#[test]
fn the_refusal_points_at_the_last_byte_when_the_problem_is_past_the_end() {
    let err = logical_lines("say \"oops\n").unwrap_err();
    assert!(err.span.end <= "say \"oops\n".len());
    assert_eq!(err.span.end, err.span.start + 1);
    assert!(err.message_ko.is_some());
    assert!(err.hint.is_some());
}

#[test]
fn an_empty_source_has_no_lines() {
    assert_eq!(lines("").len(), 0);
    assert_eq!(lines("\n\n# only a comment\n").len(), 0);
}

#[test]
fn every_line_spans_exactly_its_tokens() {
    let src = "  # lead\nif x:\n    y = (1,\n 2)  # tail\nI'm done!\n";
    for line in lines(src) {
        assert!(!line.tokens.is_empty());
        assert_eq!(line.span.start, line.tokens[0].span.start);
        assert_eq!(line.span.end, line.tokens[line.tokens.len() - 1].span.end);
    }
}

#[test]
fn a_bracket_left_open_is_refused_rather_than_read_forever() {
    let err = logical_lines("show (1\n").unwrap_err();
    assert!(err.message.contains("not something Python or NME can read"));
}
