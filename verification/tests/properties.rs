use graphql_parser::lexer::lex;
use graphql_parser::lexer::types::LexicalTokenType;
use graphql_parser::parser::parse;
use graphql_parser::parser::types::{Definition, OperationType, Selection, Type, Value};
use graphql_parser::pretty_print::print;

/// Pretty-printing a parsed document and re-parsing the output preserves
/// every semantic field; positions are not compared.
#[test]
fn round_trip_preserves_semantic_fields() {
    let source = r#"query Test($id: ID!) @skip(if: true) {
        user: test(id: $id, rate: 1.5, tags: [1, 2, 3]) {
            id
            name
        }
        other
    }"#;

    let document = parse(source.to_string()).unwrap();
    let printed = print(&document);
    let document2 = parse(printed.clone()).unwrap();

    assert_eq!(document.definitions.len(), document2.definitions.len());
    match (
        document.definitions.get(0).unwrap(),
        document2.definitions.get(0).unwrap(),
    ) {
        (Definition::OperationDefinition(a), Definition::OperationDefinition(b)) => {
            assert_eq!(a.operation, b.operation);
            assert_eq!(
                a.name.as_ref().unwrap().value,
                b.name.as_ref().unwrap().value
            );
            assert_eq!(a.anonymous, b.anonymous);
            assert_eq!(
                a.selection_set.selections.len(),
                b.selection_set.selections.len()
            );
            match (
                a.selection_set.selections.get(0).unwrap(),
                b.selection_set.selections.get(0).unwrap(),
            ) {
                (Selection::Field(fa), Selection::Field(fb)) => {
                    assert_eq!(fa.name.value, fb.name.value);
                    assert_eq!(
                        fa.alias.as_ref().unwrap().value,
                        fb.alias.as_ref().unwrap().value
                    );
                    assert_eq!(fa.arguments.len(), fb.arguments.len());
                    for (ga, gb) in fa.arguments.iter().zip(fb.arguments.iter()) {
                        assert_eq!(ga.name.value, gb.name.value);
                    }
                    assert_eq!(
                        fa.selection_set.as_ref().unwrap().selections.len(),
                        fb.selection_set.as_ref().unwrap().selections.len()
                    );
                }
                _ => panic!("Expected Field"),
            }
        }
        _ => panic!("Expected OperationDefinition"),
    }

    // Printing is a function of the semantic fields alone, so a second
    // round trip reproduces the text exactly.
    let printed2 = print(&document2);
    assert_eq!(printed, printed2);
}

/// Every child's range sits within its parent's range, left to right.
#[test]
fn positions_are_monotonic() {
    let source = "query { alpha beta }";
    let document = parse(source.to_string()).unwrap();

    let op = match document.definitions.get(0).unwrap() {
        Definition::OperationDefinition(op) => op,
        _ => panic!("Expected OperationDefinition"),
    };

    let doc_start = (document.position.start.line, document.position.start.character);
    let doc_end = (document.position.end.line, document.position.end.character);
    let op_start = (op.position.start.line, op.position.start.character);
    let op_end = (op.position.end.line, op.position.end.character);
    assert!(doc_start <= op_start);
    assert!(op_end <= doc_end);

    let ss = &op.selection_set;
    let ss_start = (ss.position.start.line, ss.position.start.character);
    let ss_end = (ss.position.end.line, ss.position.end.character);
    assert!(op_start <= ss_start);
    assert!(ss_end <= op_end);

    let mut previous_start = ss_start;
    for selection in &ss.selections {
        match selection {
            Selection::Field(f) => {
                let f_start = (f.position.start.line, f.position.start.character);
                let f_end = (f.position.end.line, f.position.end.character);
                assert!(previous_start <= f_start);
                assert!(f_start <= f_end);
                assert!(f_end <= ss_end);
                previous_start = f_start;
            }
            _ => panic!("Expected Field"),
        }
    }
}

/// Tokenizing the same string twice yields identical token sequences.
#[test]
fn lexing_is_deterministic() {
    let source = "query Test { a(b: 1.5, c: \"x\") }";
    let first = lex(source.to_string()).unwrap();
    let second = lex(source.to_string()).unwrap();
    assert_eq!(first, second);
}

/// For input `?` the error's range covers exactly the one character.
#[test]
fn error_position_is_exact_for_unexpected_character() {
    let err = lex("?".to_string()).unwrap_err();
    assert_eq!(err.message, "Unexpected character: ?");
    assert_eq!(err.range.start.line, 0);
    assert_eq!(err.range.start.character, 0);
    assert_eq!(err.range.end.line, 0);
    assert_eq!(err.range.end.character, 1);
}

#[test]
fn string_token_and_embedded_newline() {
    let tokens = lex("\"Hello, World!\"".to_string()).unwrap();
    assert_eq!(tokens.len(), 2);
    assert_eq!(
        tokens[0].token_type,
        LexicalTokenType::StringValue(String::from("Hello, World!"))
    );
    assert_eq!(tokens[1].token_type, LexicalTokenType::EOF);

    assert!(lex("\"Hello,\nWorld!\"".to_string()).is_err());
}

#[test]
fn int_out_of_range_is_an_invalid_number() {
    let err = lex("2147483648".to_string()).unwrap_err();
    assert_eq!(err.message, "Invalid number");
    assert!(lex("2147483647".to_string()).is_ok());
    assert!(lex("-2147483648".to_string()).is_ok());
    let err = lex("-2147483649".to_string()).unwrap_err();
    assert_eq!(err.message, "Invalid number");
}

#[test]
fn invalid_escape_sequence_is_rejected() {
    let err = lex("\"a\\qb\"".to_string()).unwrap_err();
    assert_eq!(err.message, "Invalid character escape sequence.");
}

#[test]
fn unterminated_string_is_rejected() {
    let err = lex("\"abc".to_string()).unwrap_err();
    assert_eq!(err.message, "Unterminated string.");
}

#[test]
fn broken_ellipsis_is_rejected() {
    let err = lex("..".to_string()).unwrap_err();
    assert_eq!(err.message, "Expected \".\", found EOF");
    let err = lex(".a".to_string()).unwrap_err();
    assert_eq!(err.message, "Expected \".\", found \"a\"");
}

#[test]
fn comments_and_ignored_characters_produce_no_tokens() {
    let tokens = lex("# a comment\n, \u{feff}\t ".to_string()).unwrap();
    assert_eq!(tokens.len(), 1);
    assert_eq!(tokens[0].token_type, LexicalTokenType::EOF);
    // The comment swallowed its line, so the EOF token sits on line 1.
    assert_eq!(tokens[0].position.start.line, 1);
}

#[test]
fn number_without_digits_is_rejected() {
    let err = lex("-x".to_string()).unwrap_err();
    assert_eq!(err.message, "Invalid number, expected digit");
    let err = lex("1.x".to_string()).unwrap_err();
    assert_eq!(err.message, "Invalid number, expected digit");
}

#[test]
fn values_of_every_kind_parse() {
    let source = r#"{ f(a: 1, b: 1.5, c: "s", d: true, e: false, g: null, h: ROLE, i: [1, 2], j: $v) }"#;
    let document = parse(source.to_string()).unwrap();
    let op = match document.definitions.get(0).unwrap() {
        Definition::OperationDefinition(op) => op,
        _ => panic!("Expected OperationDefinition"),
    };
    let field = match op.selection_set.selections.get(0).unwrap() {
        Selection::Field(f) => f,
        _ => panic!("Expected Field"),
    };
    assert_eq!(field.arguments.len(), 9);
    assert!(matches!(field.arguments[0].value, Value::IntValue(ref v) if v.value == 1));
    assert!(matches!(field.arguments[1].value, Value::FloatValue(ref v) if v.value == "1.5"));
    assert!(matches!(field.arguments[2].value, Value::StringValue(ref v) if v.value == "s"));
    assert!(matches!(field.arguments[3].value, Value::BooleanValue(ref v) if v.value));
    assert!(matches!(field.arguments[4].value, Value::BooleanValue(ref v) if !v.value));
    assert!(matches!(field.arguments[5].value, Value::NullValue(_)));
    assert!(matches!(field.arguments[6].value, Value::EnumValue(ref v) if v.value == "ROLE"));
    match &field.arguments[7].value {
        Value::ListValue(lv) => assert_eq!(lv.values.len(), 2),
        _ => panic!("Expected ListValue"),
    }
    assert!(
        matches!(field.arguments[8].value, Value::Variable(ref v) if v.name.value == "v")
    );
}

#[test]
fn nested_types_parse_with_full_structure() {
    let source = "query T($x: [[Int!]!]) { f }";
    let document = parse(source.to_string()).unwrap();
    let op = match document.definitions.get(0).unwrap() {
        Definition::OperationDefinition(op) => op,
        _ => panic!("Expected OperationDefinition"),
    };
    let vd = op.variable_definitions.get(0).unwrap();
    match &vd.variable_type {
        Type::ListType(outer) => match outer.wrapped_type.as_ref() {
            Type::NonNullType(nn) => match nn.wrapped_type.as_ref() {
                Type::ListType(inner) => match inner.wrapped_type.as_ref() {
                    Type::NonNullType(nn2) => match nn2.wrapped_type.as_ref() {
                        Type::NamedType(named) => assert_eq!(named.name.value, "Int"),
                        _ => panic!("Expected NamedType"),
                    },
                    _ => panic!("Expected NonNullType"),
                },
                _ => panic!("Expected ListType"),
            },
            _ => panic!("Expected NonNullType"),
        },
        _ => panic!("Expected ListType"),
    }
}

#[test]
fn parse_errors_report_the_offending_construct() {
    assert_eq!(
        parse("~".to_string()).unwrap_err().message,
        "Unexpected character: ~"
    );
    assert_eq!(
        parse("}".to_string()).unwrap_err().message,
        "Expected operation definition"
    );
    assert_eq!(
        parse("{ ... }".to_string()).unwrap_err().message,
        "Expected Fragment Spread or Inline Fragment"
    );
    assert_eq!(
        parse("query { $ }".to_string()).unwrap_err().message,
        "Expected Selection"
    );
    assert_eq!(
        parse("query Test($x Int) { f }".to_string()).unwrap_err().message,
        "Expected \":\""
    );
    assert_eq!(
        parse("query Test(x: Int) { f }".to_string()).unwrap_err().message,
        "Expected \"$\""
    );
    assert_eq!(
        parse("query T($x: [Int) { f }".to_string()).unwrap_err().message,
        "Expected \"]\""
    );
    assert_eq!(
        parse("{ f(a: ) }".to_string()).unwrap_err().message,
        "Expected Value"
    );
}

#[test]
fn severity_and_caret_rendering() {
    let err = parse("query {\n  ?\n}".to_string()).unwrap_err();
    assert_eq!(err.severity_label(), "Error");
    assert_eq!(err.range.start.line, 1);
    assert_eq!(err.range.start.character, 2);
    assert_eq!(err.caret_line(), "  ^");
}

#[test]
fn int_rendering_matches_decimal_notation() {
    let source = "{ f(a: -2147483648, b: 0, c: 2147483647) }";
    let document = parse(source.to_string()).unwrap();
    let printed = print(&document);
    assert!(printed.contains("-2147483648"));
    assert!(printed.contains("0"));
    assert!(printed.contains("2147483647"));
}

#[test]
fn printed_operation_has_expected_shape() {
    let document = parse("query Test { a b }".to_string()).unwrap();
    let printed = print(&document);
    assert_eq!(printed, "query Test {\n  a\n  b\n}\n");
}

/// A number token's range covers exactly the literal it was built from,
/// sign and dot included.
#[test]
fn number_token_ranges_cover_the_literal() {
    let tokens = lex("123".to_string()).unwrap();
    assert_eq!(tokens[0].token_type, LexicalTokenType::IntValue(123));
    assert_eq!(
        (
            tokens[0].position.start.line,
            tokens[0].position.start.character,
            tokens[0].position.end.line,
            tokens[0].position.end.character,
        ),
        (0, 0, 0, 3)
    );

    let tokens = lex("  -12.5".to_string()).unwrap();
    assert_eq!(
        tokens[0].token_type,
        LexicalTokenType::FloatValue(String::from("-12.5"))
    );
    assert_eq!(
        (
            tokens[0].position.start.line,
            tokens[0].position.start.character,
            tokens[0].position.end.line,
            tokens[0].position.end.character,
        ),
        (0, 2, 0, 7)
    );
}

/// Monotonicity holds through numeric literals too: the value node nests
/// within its argument, field, operation and document.
#[test]
fn positions_are_monotonic_with_numeric_arguments() {
    let source = "{f(a:123)}";
    let document = parse(source.to_string()).unwrap();
    let op = match document.definitions.get(0).unwrap() {
        Definition::OperationDefinition(op) => op,
        _ => panic!("Expected OperationDefinition"),
    };
    let field = match op.selection_set.selections.get(0).unwrap() {
        Selection::Field(f) => f,
        _ => panic!("Expected Field"),
    };
    let argument = field.arguments.get(0).unwrap();
    let value_range = match &argument.value {
        Value::IntValue(v) => &v.position,
        _ => panic!("Expected IntValue"),
    };

    let pair = |p: &graphql_parser::lsp_types::Position| (p.line, p.character);
    let chain = [
        (pair(&document.position.start), pair(&document.position.end)),
        (pair(&op.position.start), pair(&op.position.end)),
        (pair(&field.position.start), pair(&field.position.end)),
        (pair(&argument.position.start), pair(&argument.position.end)),
        (pair(&value_range.start), pair(&value_range.end)),
    ];
    for window in chain.windows(2) {
        let (outer_start, outer_end) = window[0];
        let (inner_start, inner_end) = window[1];
        assert!(outer_start <= inner_start);
        assert!(inner_start <= inner_end);
        assert!(inner_end <= outer_end);
    }
    assert_eq!(pair(&value_range.start), (0, 5));
    assert_eq!(pair(&value_range.end), (0, 8));
}

/// A missing required token is reported with the token that was expected.
#[test]
fn missing_required_token_names_the_expectation() {
    assert_eq!(
        parse("{ f(a 1) }".to_string()).unwrap_err().message,
        "Unexpected token. Expected \":\""
    );
    assert_eq!(
        parse("union U A".to_string()).unwrap_err().message,
        "Unexpected token. Expected \"=\""
    );
    assert_eq!(
        parse("enum E".to_string()).unwrap_err().message,
        "Unexpected token. Expected \"{\""
    );
}
