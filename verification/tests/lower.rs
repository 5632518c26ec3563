use nme_core::diagnostics::Span;
use nme_core::lower::{apply_edits, lower_lines, lower_stmt, Edit};
use nme_core::syntax::{
    BundledModuleId, Code, CompareOp, Condition, ConditionValue, InlineStmt, InputKind,
    ItemPosition, LogicalOp, ModuleVersion, NmeLine, NmeStmt, Reading, TextPart, TextTemplate,
    UpdateOp, Value,
};

fn generated(text: &str) -> Code {
    Code::Generated(text.to_string())
}

fn words(text: &str) -> Value {
    Value::Text(TextTemplate {
        parts: vec![TextPart::Literal(text.to_string())],
    })
}

#[test]
fn applies_edits_without_touching_the_rest() {
    let source = "ab\ncd\nef\n";
    let edits = [Edit {
        span: Span::new(3, 5),
        replacement: "XY".to_string(),
    }];
    assert_eq!(apply_edits(source, &edits), "ab\nXY\nef\n");
}

#[test]
fn lowers_say_and_times() {
    let source = "5 times: say \"hi\"";
    let stmt = NmeStmt::Times {
        count: Code::Source(Span::new(0, 1)),
        inline: Some(InlineStmt::Nme(Box::new(NmeStmt::Say {
            value: Value::Python(Code::Source(Span::new(13, 17))),
        }))),
    };
    assert_eq!(lower_stmt(&stmt, source), "for _ in range(5): print(\"hi\")");
}

#[test]
fn applies_edits_in_the_order_they_start() {
    let source = "a\nb\nc\n";
    let edits = [
        Edit {
            span: Span::new(4, 5),
            replacement: "Z".to_string(),
        },
        Edit {
            span: Span::new(0, 1),
            replacement: "X".to_string(),
        },
    ];
    assert_eq!(apply_edits(source, &edits), "X\nb\nZ\n");
}

#[test]
fn no_edits_give_the_source_back() {
    let source = "# 안녕\nprint(1)\n";
    assert_eq!(apply_edits(source, &[]), source);
}

#[test]
fn edits_count_bytes_not_characters() {
    let source = "말해 1\n말해 2\n";
    // `말해 2` starts after the eight bytes of `말해 1\n`.
    let edits = [Edit {
        span: Span::new(9, 17),
        replacement: "print(2)".to_string(),
    }];
    assert_eq!(apply_edits(source, &edits), "말해 1\nprint(2)\n");
}

#[test]
fn lower_lines_keeps_spans_and_indents() {
    let source = "break";
    let lines = [NmeLine {
        line_index: 0,
        span: Span::new(0, 5),
        stmt: NmeStmt::Break,
        virtual_indent: 2,
    }];
    let edits = lower_lines(&lines, source);
    assert_eq!(edits.len(), 1);
    assert_eq!(edits[0].span, Span::new(0, 5));
    assert_eq!(edits[0].replacement, "        break");
}

#[test]
fn asks_with_a_space_after_the_question() {
    let stmt = NmeStmt::Ask {
        target: "age".to_string(),
        prompt: Some(words("Age?")),
        kind: InputKind::Number,
    };
    assert_eq!(lower_stmt(&stmt, ""), "age = int(input(\"Age?\" + \" \"))");
    let spaced = NmeStmt::Ask {
        target: "name".to_string(),
        prompt: Some(words("Name? ")),
        kind: InputKind::Text,
    };
    assert_eq!(lower_stmt(&spaced, ""), "name = input(\"Name? \")");
    let bare = NmeStmt::Ask {
        target: "x".to_string(),
        prompt: None,
        kind: InputKind::Text,
    };
    assert_eq!(lower_stmt(&bare, ""), "x = input()");
}

#[test]
fn an_update_keeps_its_amount_together() {
    let stmt = NmeStmt::Update {
        target: "score".to_string(),
        amount: generated("1 + 2"),
        operation: UpdateOp::Subtract,
    };
    assert_eq!(lower_stmt(&stmt, ""), "score = score - (1 + 2)");
    let atom = NmeStmt::Update {
        target: "score".to_string(),
        amount: generated("bonus.points"),
        operation: UpdateOp::Multiply,
    };
    assert_eq!(lower_stmt(&atom, ""), "score = score * bonus.points");
}

#[test]
fn numbered_items_count_from_one() {
    let third = NmeStmt::Say {
        value: Value::Item {
            of: "friends".to_string(),
            position: ItemPosition::Numbered(generated(" 3 ")),
        },
    };
    assert_eq!(lower_stmt(&third, ""), "print(friends[2])");
    let named = NmeStmt::Say {
        value: Value::Item {
            of: "friends".to_string(),
            position: ItemPosition::Numbered(generated("n")),
        },
    };
    assert_eq!(lower_stmt(&named, ""), "print(friends[(n) - 1])");
    let first = NmeStmt::Say {
        value: Value::Item {
            of: "friends".to_string(),
            position: ItemPosition::First,
        },
    };
    assert_eq!(lower_stmt(&first, ""), "print(friends[0])");
    let zero = NmeStmt::Say {
        value: Value::Item {
            of: "xs".to_string(),
            position: ItemPosition::Numbered(generated("0")),
        },
    };
    assert_eq!(lower_stmt(&zero, ""), "print(xs[-1])");
}

#[test]
fn random_choices_keep_numbers_as_numbers() {
    let stmt = NmeStmt::SetValue {
        target: "pick".to_string(),
        value: Value::RandomChoice {
            choices: vec!["1".to_string(), "2.5".to_string(), "Mina".to_string()],
        },
    };
    assert_eq!(
        lower_stmt(&stmt, ""),
        "pick = __import__(\"random\").choice((1, 2.5, \"Mina\",))"
    );
}

#[test]
fn words_are_escaped_inside_their_quotes() {
    let stmt = NmeStmt::Say {
        value: words("a\"b\nc\\d"),
    };
    assert_eq!(lower_stmt(&stmt, ""), "print(\"a\\\"b\\nc\\\\d\")");
    let empty = NmeStmt::Say {
        value: Value::Text(TextTemplate { parts: vec![] }),
    };
    assert_eq!(lower_stmt(&empty, ""), "print(\"\")");
    let mixed = NmeStmt::Say {
        value: Value::Text(TextTemplate {
            parts: vec![
                TextPart::Literal("Hi ".to_string()),
                TextPart::Variable("name".to_string()),
            ],
        }),
    };
    assert_eq!(lower_stmt(&mixed, ""), "print(\"Hi \" + str(name))");
}

#[test]
fn conditions_get_one_pair_of_parentheses() {
    let greater = NmeStmt::When {
        condition: Condition::Compare {
            left: ConditionValue::Name("x".to_string()),
            operator: CompareOp::Greater,
            right: ConditionValue::Python(generated("3")),
            negated: false,
        },
        inline: None,
    };
    assert_eq!(lower_stmt(&greater, ""), "if (x > 3):");
    let both = NmeStmt::While {
        condition: Condition::Logical {
            left: Box::new(Condition::Python(generated("a"))),
            operator: LogicalOp::And,
            right: Box::new(Condition::Python(generated("b"))),
        },
        inline: None,
    };
    assert_eq!(lower_stmt(&both, ""), "while (a and b):");
    let two_pairs = NmeStmt::ElseIf {
        condition: Condition::Python(generated("(a) or (b)")),
        inline: None,
    };
    assert_eq!(lower_stmt(&two_pairs, ""), "elif ((a) or (b)):");
}

#[test]
fn containment_puts_the_member_first() {
    let stmt = NmeStmt::When {
        condition: Condition::Compare {
            left: ConditionValue::Name("names".to_string()),
            operator: CompareOp::Contains,
            right: ConditionValue::Text("Mina".to_string()),
            negated: true,
        },
        inline: None,
    };
    assert_eq!(lower_stmt(&stmt, ""), "if (\"Mina\" not in names):");
    let not_equal = NmeStmt::When {
        condition: Condition::Compare {
            left: ConditionValue::Reading {
                of: "xs".to_string(),
                reading: Reading::Count,
            },
            operator: CompareOp::Equal,
            right: ConditionValue::Python(generated("0")),
            negated: true,
        },
        inline: None,
    };
    assert_eq!(lower_stmt(&not_equal, ""), "if (len(xs) != 0):");
}

#[test]
fn a_module_line_binds_its_version() {
    let stmt = NmeStmt::UseModule {
        module: BundledModuleId::List,
        requested: ModuleVersion::Bundled,
    };
    let python = lower_stmt(&stmt, "");
    assert!(python.starts_with("count = 개수 = len; "));
    assert!(python.ends_with("list_version = 목록버전 = \"0.0.1\""));
    assert!(!python.contains('\n'));
}

#[test]
fn an_import_names_the_module_by_its_file() {
    let stmt = NmeStmt::ModuleImport {
        path: generated("\"lib/tools.nme\""),
        names: vec!["greet".to_string(), "count".to_string()],
    };
    assert_eq!(lower_stmt(&stmt, ""), "from tools import greet, count");
    let windows = NmeStmt::ModuleImport {
        path: generated("'lib\\helper.nme'"),
        names: vec!["x".to_string()],
    };
    assert_eq!(lower_stmt(&windows, ""), "from helper import x");
    let other = NmeStmt::ModuleImport {
        path: generated("'a/b.py'"),
        names: vec!["y".to_string()],
    };
    assert_eq!(lower_stmt(&other, ""), "from a/b.py import y");
}

#[test]
fn jobs_and_records() {
    let job = NmeStmt::Job {
        name: "greet".to_string(),
        parameters: vec![],
    };
    assert_eq!(lower_stmt(&job, ""), "def greet():");
    let run = NmeStmt::RunJob {
        name: "greet".to_string(),
        arguments: vec![words("Mina"), Value::Python(generated("2"))],
    };
    assert_eq!(lower_stmt(&run, ""), "greet(\"Mina\", 2)");
    let put = NmeStmt::RecordPut {
        target: "ages".to_string(),
        key: words("Mina"),
        value: Value::Python(generated("90")),
    };
    assert_eq!(lower_stmt(&put, ""), "ages[\"Mina\"] = 90");
    let remove = NmeStmt::RecordRemove {
        target: "ages".to_string(),
        key: words("Mina"),
    };
    assert_eq!(lower_stmt(&remove, ""), "del ages[\"Mina\"]");
    let empty = NmeStmt::SetValue {
        target: "ages".to_string(),
        value: Value::EmptyRecord,
    };
    assert_eq!(lower_stmt(&empty, ""), "ages = {}");
}

#[test]
fn chance_compares_whole_numbers() {
    let stmt = NmeStmt::Chance {
        permille: 305,
        inline: None,
    };
    assert_eq!(
        lower_stmt(&stmt, ""),
        "if __import__(\"random\").randrange(1000) < 305:"
    );
}

#[test]
fn a_remainder_keeps_its_divisor_together() {
    let stmt = NmeStmt::SetValue {
        target: "r".to_string(),
        value: Value::Remainder {
            of: "pile".to_string(),
            by: generated("2 + 1"),
        },
    };
    assert_eq!(lower_stmt(&stmt, ""), "r = pile % (2 + 1)");
    let repeated = NmeStmt::Say {
        value: Value::Repeated {
            of: "word".to_string(),
            times: generated("3"),
        },
    };
    assert_eq!(lower_stmt(&repeated, ""), "print(str(word) * 3)");
}

#[test]
fn a_box_is_one_line_of_python() {
    let stmt = NmeStmt::SayInBox {
        value: words("안녕"),
    };
    let python = lower_stmt(&stmt, "");
    assert!(!python.contains('\n'));
    assert!(python.starts_with("print((lambda _t: (lambda _w: \"┌\""));
    assert!(python.ends_with("))(\"안녕\"))"));
}

#[test]
fn screen_lines() {
    assert_eq!(lower_stmt(&NmeStmt::DrawLine, ""), "print(\"─\" * 40)");
    assert_eq!(
        lower_stmt(&NmeStmt::ClearScreen, ""),
        "print(\"\\033[2J\\033[3J\\033[H\", end=\"\")"
    );
    assert_eq!(
        lower_stmt(&NmeStmt::StartTimer, ""),
        "_nme_clock = __import__(\"time\").time()"
    );
}

#[test]
fn for_each_with_a_position_counts_from_one() {
    let stmt = NmeStmt::ForEach {
        name: "friend".to_string(),
        items: generated("friends"),
        position: Some("i".to_string()),
        inline: Some(InlineStmt::Python(Span::new(0, 8))),
    };
    assert_eq!(
        lower_stmt(&stmt, "print(i)"),
        "for i, friend in enumerate(friends, 1): print(i)"
    );
}

#[test]
fn the_order_of_edits_does_not_matter() {
    let source = "say 1\nsay 2\nsay 3\n";
    let edit = |start: usize, end: usize, text: &str| Edit {
        span: Span::new(start, end),
        replacement: text.to_string(),
    };
    let forward = vec![edit(0, 5, "print(1)"), edit(6, 11, "print(2)"), edit(12, 17, "print(3)")];
    let backward = vec![edit(12, 17, "print(3)"), edit(0, 5, "print(1)"), edit(6, 11, "print(2)")];
    assert_eq!(apply_edits(source, &forward), "print(1)\nprint(2)\nprint(3)\n");
    assert_eq!(apply_edits(source, &backward), apply_edits(source, &forward));
}
