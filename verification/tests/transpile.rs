use nme_core::diagnostics::{DiagnosticCode, Span};
use nme_core::syntax::{Code, NmeLine, NmeStmt, Value};
use nme_core::transpile::{
    transpile_parsed_program, without_the_left_margin, ModuleImport, ParsedProgram,
};

fn say_line(index: usize, span: Span, code: Code) -> NmeLine {
    NmeLine {
        line_index: index,
        span,
        stmt: NmeStmt::Say {
            value: Value::Python(code),
        },
        virtual_indent: 0,
    }
}

#[test]
fn a_shared_margin_is_taken_off() {
    assert_eq!(without_the_left_margin("  a\n  b\n"), "a\nb\n");
    assert_eq!(without_the_left_margin("  a\n    b"), "a\n  b");
    assert_eq!(without_the_left_margin("  a\n\n  b\n"), "a\n\nb\n");
    assert_eq!(without_the_left_margin("\t a\n\t b"), "a\nb");
}

#[test]
fn a_program_without_a_margin_is_left_alone() {
    assert_eq!(without_the_left_margin("a\n  b\n"), "a\n  b\n");
    assert_eq!(without_the_left_margin("  a\n\tb\n"), "  a\n\tb\n");
    assert_eq!(without_the_left_margin(""), "");
    assert_eq!(without_the_left_margin("  \n  \n"), "  \n  \n");
}

#[test]
fn triple_quoted_text_keeps_its_indentation() {
    let python = "  x = '''\n  y'''\n";
    assert_eq!(without_the_left_margin(python), python);
    let doubled = "  x = \"\"\"\n  y\"\"\"\n";
    assert_eq!(without_the_left_margin(doubled), doubled);
}

#[test]
fn the_margin_keeps_the_line_count() {
    let python = "    a\r\n    b\r\n\n";
    let tidy = without_the_left_margin(python);
    assert_eq!(tidy, "a\nb\n\n");
    assert_eq!(tidy.matches('\n').count(), python.matches('\n').count());
}

#[test]
fn a_parsed_program_becomes_python_in_place() {
    let source = "say 1\nx = 2\n";
    let program = ParsedProgram {
        nme_lines: vec![say_line(0, Span::new(0, 5), Code::Source(Span::new(4, 5)))],
        story_blank_lines: vec![],
        virtual_indents: vec![0, 0],
    };
    let lines = [Span::new(0, 5), Span::new(6, 11)];
    let (python, imports) = transpile_parsed_program(source, &lines, &program).unwrap();
    assert_eq!(python, "print(1)\nx = 2\n");
    assert!(imports.is_empty());
}

#[test]
fn indentation_is_given_to_the_lines_that_need_it() {
    let source = "say 1\nx = 2\n";
    let program = ParsedProgram {
        nme_lines: vec![say_line(0, Span::new(0, 5), Code::Source(Span::new(4, 5)))],
        story_blank_lines: vec![(Span::new(12, 12), "print()".to_string())],
        virtual_indents: vec![0, 1],
    };
    let lines = [Span::new(0, 5), Span::new(6, 11)];
    let (python, _) = transpile_parsed_program(source, &lines, &program).unwrap();
    assert_eq!(python, "print(1)\n    x = 2\nprint()");
}

#[test]
fn module_imports_are_reported_without_quotes() {
    let source = "from \"lib/helper.nme\" import greet\n";
    let program = ParsedProgram {
        nme_lines: vec![NmeLine {
            line_index: 0,
            span: Span::new(0, 34),
            stmt: NmeStmt::ModuleImport {
                path: Code::Source(Span::new(5, 21)),
                names: vec!["greet".to_string()],
            },
            virtual_indent: 0,
        }],
        story_blank_lines: vec![],
        virtual_indents: vec![0],
    };
    let (python, imports) =
        transpile_parsed_program(source, &[Span::new(0, 34)], &program).unwrap();
    assert_eq!(python, "from helper import greet\n");
    assert_eq!(
        imports,
        vec![ModuleImport {
            file: "lib/helper.nme".to_string(),
            names: vec!["greet".to_string()],
        }]
    );
}

#[test]
fn an_edit_that_adds_a_line_is_refused() {
    let source = "say 1\nsay 2\n";
    let program = ParsedProgram {
        nme_lines: vec![
            say_line(0, Span::new(0, 5), Code::Generated("1\n".to_string())),
            say_line(1, Span::new(6, 11), Code::Generated("2\n".to_string())),
        ],
        story_blank_lines: vec![],
        virtual_indents: vec![0, 0],
    };
    let lines = [Span::new(0, 5), Span::new(6, 11)];
    let problems = transpile_parsed_program(source, &lines, &program).unwrap_err();
    assert_eq!(problems.len(), 2);
    assert_eq!(problems[0].code, DiagnosticCode::MultilineSentence);
    assert_eq!(problems[0].span, Span::new(0, 5));
    assert_eq!(problems[1].span, Span::new(6, 11));
    assert_eq!(
        problems[0].message,
        "sentence-style NME must stay on one physical line"
    );
}

#[test]
fn multiline_python_inside_a_statement_is_kept() {
    let source = "say (1,\n 2)\n";
    let program = ParsedProgram {
        nme_lines: vec![say_line(0, Span::new(0, 11), Code::Source(Span::new(4, 11)))],
        story_blank_lines: vec![],
        virtual_indents: vec![0],
    };
    let (python, _) = transpile_parsed_program(source, &[Span::new(0, 11)], &program).unwrap();
    assert_eq!(python, "print((1,\n 2))\n");
}

#[test]
fn plain_python_comes_through_byte_for_byte() {
    let source = "for i in range(3):\n    print(i)  # keep\n";
    let program = ParsedProgram {
        nme_lines: vec![],
        story_blank_lines: vec![],
        virtual_indents: vec![0, 0],
    };
    let lines = [Span::new(0, 18), Span::new(23, 31)];
    let (python, imports) = transpile_parsed_program(source, &lines, &program).unwrap();
    assert_eq!(python, source);
    assert!(imports.is_empty());
}
