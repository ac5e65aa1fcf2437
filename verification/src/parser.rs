use vstd::prelude::*;

use crate::helpers::{spec_is_valid_name, str_eq};
use crate::lexer::types::{LexicalToken, LexicalTokenType, Punctuator, SpecToken, SpecTokenType};
use crate::lexer::{lex, spec_error, spec_lex, spec_line_range, spec_tokens};
use crate::lsp_types::{
    Diagnostic, DiagnosticSeverity, Position, Range, SpecDiagnostic, SpecPos, SpecRange,
};
use crate::parser::types::{
    spec_operation_type_of, Argument, BooleanValue, Definition, Directive, Document, EnumTypeDefinition,
    EnumValue, EnumValueDefinition, Field, FieldDefinition, FloatValue, FragmentDefinition,
    FragmentSpread, InlineFragment, InputObjectTypeDefinition, InputValueDefinition, IntValue,
    ListType, ListValue, Name, NamedType, NonNullType, NullValue, ObjectField,
    ObjectTypeDefinition, ObjectValue, OperationDefinition, OperationType,
    RootOperationTypeDefinition, ScalarTypeDefinition, SchemaDefinition, Selection, SelectionSet,
    SpecArgument, SpecDefinition, SpecDirective, SpecDocument, SpecEnumTypeDefinition,
    SpecEnumValueDefinition, SpecFieldDefinition, SpecFragmentDefinition, SpecFragmentSpread,
    SpecField, SpecInlineFragment, SpecInputObjectTypeDefinition, SpecInputValueDefinition, SpecInterfaceTypeDefinition,
    SpecListType, SpecListValue, SpecName, SpecNamedType, SpecNonNullType, SpecNullValue,
    SpecObjectField, SpecObjectTypeDefinition, SpecObjectValue, SpecOperationDefinition,
    SpecRootOperationTypeDefinition, SpecScalarTypeDefinition, SpecSchemaDefinition, SpecSelection,
    SpecSelectionSet, SpecStringValue, SpecType, SpecUnionTypeDefinition, SpecValue, SpecVariable,
    SpecVariableDefinition, StringValue, Type, UnionTypeDefinition, Value, Variable,
    VariableDefinition, InterfaceTypeDefinition, SpecIntValue, SpecFloatValue, SpecBooleanValue,
    SpecEnumValue,
};

pub mod types;

verus! {

// ---------------------------------------------------------------------------
// Spec-level cursor helpers
// ---------------------------------------------------------------------------
/// The range the cursor reports when it stands past the end of the buffer.
pub open spec fn spec_zero_range() -> SpecRange {
    spec_line_range(0, 0, 0)
}

/// The range of the token at `i`, or the zero range past the end.
pub open spec fn spec_cur_range(ts: Seq<SpecToken>, i: int) -> SpecRange {
    if 0 <= i < ts.len() {
        ts[i].position
    } else {
        spec_zero_range()
    }
}

/// The span from the start of the token at `i` to the end of the token at
/// `j`: how every node's range is derived (a node ends at the start of the
/// first token it did not consume).
pub open spec fn spec_span(ts: Seq<SpecToken>, i: int, j: int) -> SpecRange {
    SpecRange { start: spec_cur_range(ts, i).start, end: spec_cur_range(ts, j).end }
}

/// The error raised on reading past the end of the token buffer.
pub open spec fn spec_eof_error(ts: Seq<SpecToken>, i: int) -> SpecDiagnostic {
    spec_error("Unexpected EOF"@, spec_cur_range(ts, i))
}

/// The glyphs a punctuator is written with.
pub open spec fn spec_punct_text(p: Punctuator) -> Seq<char> {
    match p {
        Punctuator::ExclamationMark => "!"@,
        Punctuator::DollarSign => "$"@,
        Punctuator::Ampersand => "&"@,
        Punctuator::LeftParenthesis => "("@,
        Punctuator::RightParenthesis => ")"@,
        Punctuator::Ellipsis => "..."@,
        Punctuator::Colon => ":"@,
        Punctuator::EqualSign => "="@,
        Punctuator::AtSign => "@"@,
        Punctuator::LeftBracket => "["@,
        Punctuator::RightBracket => "]"@,
        Punctuator::LeftBrace => "{"@,
        Punctuator::RightBrace => "}"@,
        Punctuator::VerticalBar => "|"@,
    }
}

/// The message of the error raised when a required token is missing: it
/// names the punctuator or keyword that was expected.
pub open spec fn spec_unexpected_token_msg(expected: Seq<char>) -> Seq<char> {
    "Unexpected token. Expected \""@ + expected + "\""@
}

/// Consuming one token that must be the given punctuator; the error keeps
/// the cursor where it stands.
pub open spec fn spec_expect_punct(ts: Seq<SpecToken>, i: int, p: Punctuator) -> Result<
    int,
    SpecDiagnostic,
> {
    if i < 0 || i >= ts.len() {
        Err(spec_eof_error(ts, i))
    } else if ts[i].token_type == SpecTokenType::Punctuator(p) {
        Ok(i + 1)
    } else {
        Err(spec_error(spec_unexpected_token_msg(spec_punct_text(p)), spec_cur_range(ts, i)))
    }
}

/// Consuming one token that must be the given keyword.
pub open spec fn spec_expect_keyword(ts: Seq<SpecToken>, i: int, kw: Seq<char>) -> Result<
    int,
    SpecDiagnostic,
> {
    if i < 0 || i >= ts.len() {
        Err(spec_eof_error(ts, i))
    } else if ts[i].token_type == SpecTokenType::Name(kw) {
        Ok(i + 1)
    } else {
        Err(spec_error(spec_unexpected_token_msg(kw), spec_cur_range(ts, i)))
    }
}

/// Whether the token at `i` is the given punctuator.
pub open spec fn spec_at_punct(ts: Seq<SpecToken>, i: int, p: Punctuator) -> bool {
    0 <= i < ts.len() && ts[i].token_type == SpecTokenType::Punctuator(p)
}

/// Whether the token at `i` is the given keyword.
pub open spec fn spec_at_keyword(ts: Seq<SpecToken>, i: int, kw: Seq<char>) -> bool {
    0 <= i < ts.len() && ts[i].token_type == SpecTokenType::Name(kw)
}

/// Prepends already-parsed items to the outcome of parsing the rest of a
/// list.
pub open spec fn spec_prepend<T>(pre: Seq<T>, r: Result<(Seq<T>, int), SpecDiagnostic>) -> Result<
    (Seq<T>, int),
    SpecDiagnostic,
> {
    match r {
        Ok((s, j)) => Ok((pre + s, j)),
        Err(d) => Err(d),
    }
}

/// Outcome used on spec paths that no execution reaches: a production that
/// reports success never moves the cursor backwards nor past the end, and
/// one that consumed a leading token leaves it strictly advanced.
pub open spec fn spec_stuck(ts: Seq<SpecToken>, i: int) -> SpecDiagnostic {
    spec_error(Seq::empty(), spec_cur_range(ts, i))
}

// ---------------------------------------------------------------------------
// Spec-level grammar. One function per production, mirrored exactly by the
// parser's methods: each returns the node built and the index of the first
// token it did not consume, or the first error.
// ---------------------------------------------------------------------------
/// A name token, when one stands at the cursor: consumed only if present and
/// shaped like a valid identifier.
pub open spec fn spec_parse_name_maybe(ts: Seq<SpecToken>, i: int) -> Result<
    (Option<SpecName>, int),
    SpecDiagnostic,
>
    decreases ts.len() - i, 0int,
{
    if i < 0 || i >= ts.len() {
        Err(spec_eof_error(ts, i))
    } else {
        match ts[i].token_type {
            SpecTokenType::Name(s) => if spec_is_valid_name(s) {
                Ok((Some(SpecName { value: s, position: ts[i].position }), i + 1))
            } else {
                Err(spec_error("Invalid name"@, ts[i].position))
            },
            _ => Ok((None, i)),
        }
    }
}

/// A required name token.
pub open spec fn spec_parse_name(ts: Seq<SpecToken>, i: int) -> Result<
    (SpecName, int),
    SpecDiagnostic,
>
    decreases ts.len() - i, 1int,
{
    match spec_parse_name_maybe(ts, i) {
        Ok((Some(n), j)) => Ok((n, j)),
        Ok((None, j)) => Err(spec_error("Expected Name"@, spec_cur_range(ts, j))),
        Err(d) => Err(d),
    }
}

/// A named type: a single name.
pub open spec fn spec_parse_named_type(ts: Seq<SpecToken>, i: int) -> Result<
    (SpecNamedType, int),
    SpecDiagnostic,
>
    decreases ts.len() - i, 2int,
{
    match spec_parse_name(ts, i) {
        Ok((n, j)) => Ok((SpecNamedType { name: n, position: spec_span(ts, i, j) }, j)),
        Err(d) => Err(d),
    }
}

/// A type condition: the keyword `on` followed by a named type.
pub open spec fn spec_parse_type_condition(ts: Seq<SpecToken>, i: int) -> Result<
    (SpecNamedType, int),
    SpecDiagnostic,
>
    decreases ts.len() - i, 2int,
{
    match spec_expect_keyword(ts, i, "on"@) {
        Ok(_) => match spec_parse_name(ts, i + 1) {
            Ok((n, j)) => Ok((SpecNamedType { name: n, position: spec_span(ts, i, j) }, j)),
            Err(d) => Err(d),
        },
        Err(d) => Err(d),
    }
}

/// Zero or more directives, each `@name(args)`; the list ends at the first
/// token that is not an `@`.
pub open spec fn spec_parse_directives(ts: Seq<SpecToken>, i: int) -> Result<
    (Seq<SpecDirective>, int),
    SpecDiagnostic,
>
    decreases ts.len() - i, 2int,
{
    if i < 0 || i >= ts.len() {
        Err(spec_eof_error(ts, i))
    } else if ts[i].token_type != SpecTokenType::Punctuator(Punctuator::AtSign) {
        Ok((Seq::empty(), i))
    } else {
        match spec_parse_name(ts, i + 1) {
            Ok((n, j0)) => if !(i < j0 <= ts.len()) {
                Err(spec_stuck(ts, i))
            } else {
                match spec_parse_arguments(ts, j0) {
                Ok((args, j)) => if i < j <= ts.len() {
                    spec_prepend(
                        seq![
                            SpecDirective { name: n, arguments: args, position: spec_span(ts, i, j) },
                        ],
                        spec_parse_directives(ts, j),
                    )
                } else {
                    Err(spec_stuck(ts, i))
                },
                Err(d) => Err(d),
            }
            },
            Err(d) => Err(d),
        }
    }
}

/// An argument list: absent parentheses mean an empty list.
pub open spec fn spec_parse_arguments(ts: Seq<SpecToken>, i: int) -> Result<
    (Seq<SpecArgument>, int),
    SpecDiagnostic,
>
    decreases ts.len() - i, 2int,
{
    if i < 0 || i >= ts.len() {
        Err(spec_eof_error(ts, i))
    } else if ts[i].token_type != SpecTokenType::Punctuator(Punctuator::LeftParenthesis) {
        Ok((Seq::empty(), i))
    } else {
        spec_parse_args_loop(ts, i + 1)
    }
}

pub open spec fn spec_parse_args_loop(ts: Seq<SpecToken>, i: int) -> Result<
    (Seq<SpecArgument>, int),
    SpecDiagnostic,
>
    decreases ts.len() - i, 4int,
{
    if i < 0 || i >= ts.len() {
        Err(spec_eof_error(ts, i))
    } else if ts[i].token_type == SpecTokenType::Punctuator(Punctuator::RightParenthesis) {
        Ok((Seq::empty(), i + 1))
    } else {
        match spec_parse_argument(ts, i) {
            Ok((a, j)) => if i < j <= ts.len() {
                spec_prepend(seq![a], spec_parse_args_loop(ts, j))
            } else {
                Err(spec_stuck(ts, i))
            },
            Err(d) => Err(d),
        }
    }
}

/// One `name: value` argument.
pub open spec fn spec_parse_argument(ts: Seq<SpecToken>, i: int) -> Result<
    (SpecArgument, int),
    SpecDiagnostic,
>
    decreases ts.len() - i, 2int,
{
    match spec_parse_name(ts, i) {
        Ok((n, _)) => match spec_expect_punct(ts, i + 1, Punctuator::Colon) {
            Ok(_) => match spec_parse_value(ts, i + 2) {
                Ok((v, j)) => Ok(
                    (SpecArgument { name: n, value: v, position: spec_span(ts, i, j) }, j),
                ),
                Err(d) => Err(d),
            },
            Err(d) => Err(d),
        },
        Err(d) => Err(d),
    }
}

/// One input value: a literal, a variable reference, a bare name read as an
/// enum value, or a bracketed list or object.
pub open spec fn spec_parse_value(ts: Seq<SpecToken>, i: int) -> Result<
    (SpecValue, int),
    SpecDiagnostic,
>
    decreases ts.len() - i, 3int,
{
    if i < 0 || i >= ts.len() {
        Err(spec_eof_error(ts, i))
    } else {
        let position = ts[i].position;
        match ts[i].token_type {
            SpecTokenType::IntValue(v) => Ok(
                (SpecValue::IntValue(SpecIntValue { value: v, position }), i + 1),
            ),
            SpecTokenType::FloatValue(s) => Ok(
                (SpecValue::FloatValue(SpecFloatValue { value: s, position }), i + 1),
            ),
            SpecTokenType::StringValue(s) => Ok(
                (
                    SpecValue::StringValue(SpecStringValue { value: s, block: false, position }),
                    i + 1,
                ),
            ),
            SpecTokenType::Name(s) => if s == "true"@ {
                Ok((SpecValue::BooleanValue(SpecBooleanValue { value: true, position }), i + 1))
            } else if s == "false"@ {
                Ok((SpecValue::BooleanValue(SpecBooleanValue { value: false, position }), i + 1))
            } else if s == "null"@ {
                Ok((SpecValue::NullValue(SpecNullValue { position }), i + 1))
            } else {
                Ok((SpecValue::EnumValue(SpecEnumValue { value: s, position }), i + 1))
            },
            SpecTokenType::Punctuator(Punctuator::LeftBracket) => spec_parse_list_value(ts, i),
            SpecTokenType::Punctuator(Punctuator::LeftBrace) => spec_parse_object_value(ts, i),
            SpecTokenType::Punctuator(Punctuator::DollarSign) => match spec_parse_name(ts, i + 1) {
                Ok((n, j)) => Ok((SpecValue::Variable(SpecVariable { name: n, position }), j)),
                Err(d) => Err(d),
            },
            _ => Err(spec_error("Expected Value"@, position)),
        }
    }
}

/// A bracketed list of values.
pub open spec fn spec_parse_list_value(ts: Seq<SpecToken>, i: int) -> Result<
    (SpecValue, int),
    SpecDiagnostic,
>
    decreases ts.len() - i, 2int,
{
    if i < 0 || i >= ts.len() {
        Err(spec_eof_error(ts, i))
    } else {
        match spec_parse_values_loop(ts, i + 1) {
        Ok((vs, j)) => Ok(
            (
                SpecValue::ListValue(SpecListValue { values: vs, position: spec_span(ts, i, j) }),
                j,
            ),
        ),
        Err(d) => Err(d),
        }
    }
}

pub open spec fn spec_parse_values_loop(ts: Seq<SpecToken>, i: int) -> Result<
    (Seq<SpecValue>, int),
    SpecDiagnostic,
>
    decreases ts.len() - i, 4int,
{
    if i < 0 || i >= ts.len() {
        Err(spec_eof_error(ts, i))
    } else if ts[i].token_type == SpecTokenType::Punctuator(Punctuator::RightBracket) {
        Ok((Seq::empty(), i + 1))
    } else {
        match spec_parse_value(ts, i) {
            Ok((v, j)) => if i < j <= ts.len() {
                spec_prepend(seq![v], spec_parse_values_loop(ts, j))
            } else {
                Err(spec_stuck(ts, i))
            },
            Err(d) => Err(d),
        }
    }
}

/// A braced list of `name: value` object fields.
pub open spec fn spec_parse_object_value(ts: Seq<SpecToken>, i: int) -> Result<
    (SpecValue, int),
    SpecDiagnostic,
>
    decreases ts.len() - i, 2int,
{
    if i < 0 || i >= ts.len() {
        Err(spec_eof_error(ts, i))
    } else {
        match spec_parse_object_fields_loop(ts, i + 1) {
        Ok((fs, j)) => Ok(
            (
                SpecValue::ObjectValue(
                    SpecObjectValue { fields: fs, position: spec_span(ts, i, j) },
                ),
                j,
            ),
        ),
        Err(d) => Err(d),
        }
    }
}

pub open spec fn spec_parse_object_fields_loop(ts: Seq<SpecToken>, i: int) -> Result<
    (Seq<SpecObjectField>, int),
    SpecDiagnostic,
>
    decreases ts.len() - i, 4int,
{
    if i < 0 || i >= ts.len() {
        Err(spec_eof_error(ts, i))
    } else if ts[i].token_type == SpecTokenType::Punctuator(Punctuator::RightBrace) {
        Ok((Seq::empty(), i + 1))
    } else {
        match spec_parse_object_field(ts, i) {
            Ok((f, j)) => if i < j <= ts.len() {
                spec_prepend(seq![f], spec_parse_object_fields_loop(ts, j))
            } else {
                Err(spec_stuck(ts, i))
            },
            Err(d) => Err(d),
        }
    }
}

/// One `name: value` field of an object value.
pub open spec fn spec_parse_object_field(ts: Seq<SpecToken>, i: int) -> Result<
    (SpecObjectField, int),
    SpecDiagnostic,
>
    decreases ts.len() - i, 2int,
{
    match spec_parse_name(ts, i) {
        Ok((n, _)) => match spec_expect_punct(ts, i + 1, Punctuator::Colon) {
            Ok(_) => match spec_parse_value(ts, i + 2) {
                Ok((v, j)) => Ok(
                    (SpecObjectField { name: n, value: v, position: spec_span(ts, i, j) }, j),
                ),
                Err(d) => Err(d),
            },
            Err(d) => Err(d),
        },
        Err(d) => Err(d),
    }
}

/// Wraps a finished type in a non-null marker when a `!` follows it.
pub open spec fn spec_wrap_if_non_null(ts: Seq<SpecToken>, i: int, t: SpecType) -> Result<
    (SpecType, int),
    SpecDiagnostic,
> {
    if i < 0 || i >= ts.len() {
        Err(spec_eof_error(ts, i))
    } else if ts[i].token_type != SpecTokenType::Punctuator(Punctuator::ExclamationMark) {
        Ok((t, i))
    } else {
        Ok(
            (
                SpecType::NonNullType(
                    SpecNonNullType {
                        wrapped_type: Box::new(t),
                        position: spec_span(ts, i, i + 1),
                    },
                ),
                i + 1,
            ),
        )
    }
}

/// A type reference: a named type or a bracketed list type, either one
/// optionally followed by `!`.
pub open spec fn spec_parse_type(ts: Seq<SpecToken>, i: int) -> Result<
    (SpecType, int),
    SpecDiagnostic,
>
    decreases ts.len() - i, 3int,
{
    if i < 0 || i >= ts.len() {
        Err(spec_eof_error(ts, i))
    } else if ts[i].token_type == SpecTokenType::Punctuator(Punctuator::LeftBracket) {
        match spec_parse_list_type(ts, i) {
            Ok((t, j)) => if i < j <= ts.len() {
                spec_wrap_if_non_null(ts, j, t)
            } else {
                Err(spec_stuck(ts, i))
            },
            Err(d) => Err(d),
        }
    } else {
        match spec_parse_name(ts, i) {
            Ok((n, j)) => spec_wrap_if_non_null(
                ts,
                j,
                SpecType::NamedType(SpecNamedType { name: n, position: spec_span(ts, i, j) }),
            ),
            Err(d) => Err(d),
        }
    }
}

/// A list type `[T]`.
pub open spec fn spec_parse_list_type(ts: Seq<SpecToken>, i: int) -> Result<
    (SpecType, int),
    SpecDiagnostic,
>
    decreases ts.len() - i, 2int,
{
    if i < 0 || i >= ts.len() {
        Err(spec_eof_error(ts, i))
    } else {
        match spec_parse_type(ts, i + 1) {
        Ok((t, j)) => if i < j <= ts.len() {
            if j >= ts.len() {
                Err(spec_eof_error(ts, j))
            } else if ts[j].token_type != SpecTokenType::Punctuator(Punctuator::RightBracket) {
                Err(spec_error("Expected \"]\""@, ts[j].position))
            } else {
                Ok(
                    (
                        SpecType::ListType(
                            SpecListType {
                                wrapped_type: Box::new(t),
                                position: spec_span(ts, i, j + 1),
                            },
                        ),
                        j + 1,
                    ),
                )
            }
        } else {
            Err(spec_stuck(ts, i))
        },
        Err(d) => Err(d),
        }
    }
}

/// The variable list of an operation: absent parentheses mean an empty
/// list.
pub open spec fn spec_parse_variable_definitions(ts: Seq<SpecToken>, i: int) -> Result<
    (Seq<SpecVariableDefinition>, int),
    SpecDiagnostic,
>
    decreases ts.len() - i, 2int,
{
    if i < 0 || i >= ts.len() {
        Err(spec_eof_error(ts, i))
    } else if ts[i].token_type != SpecTokenType::Punctuator(Punctuator::LeftParenthesis) {
        Ok((Seq::empty(), i))
    } else {
        spec_parse_var_defs_loop(ts, i + 1)
    }
}

pub open spec fn spec_parse_var_defs_loop(ts: Seq<SpecToken>, i: int) -> Result<
    (Seq<SpecVariableDefinition>, int),
    SpecDiagnostic,
>
    decreases ts.len() - i, 4int,
{
    if i < 0 || i >= ts.len() {
        Err(spec_eof_error(ts, i))
    } else if ts[i].token_type == SpecTokenType::Punctuator(Punctuator::RightParenthesis) {
        Ok((Seq::empty(), i + 1))
    } else {
        match spec_parse_variable_definition(ts, i) {
            Ok((vd, j)) => if i < j <= ts.len() {
                spec_prepend(seq![vd], spec_parse_var_defs_loop(ts, j))
            } else {
                Err(spec_stuck(ts, i))
            },
            Err(d) => Err(d),
        }
    }
}

/// One `$name: Type = default` variable definition.
pub open spec fn spec_parse_variable_definition(ts: Seq<SpecToken>, i: int) -> Result<
    (SpecVariableDefinition, int),
    SpecDiagnostic,
>
    decreases ts.len() - i, 2int,
{
    if i < 0 || i >= ts.len() {
        Err(spec_eof_error(ts, i))
    } else if ts[i].token_type != SpecTokenType::Punctuator(Punctuator::DollarSign) {
        Err(spec_error("Expected \"$\""@, ts[i].position))
    } else {
        match spec_parse_name(ts, i + 1) {
            Ok((n, _)) => if i + 2 >= ts.len() {
                Err(spec_eof_error(ts, i + 2))
            } else if ts[i + 2].token_type != SpecTokenType::Punctuator(Punctuator::Colon) {
                Err(spec_error("Expected \":\""@, ts[i + 2].position))
            } else {
                match spec_parse_type(ts, i + 3) {
                    Ok((t, j)) => if i < j <= ts.len() {
                        if j >= ts.len() {
                            Err(spec_eof_error(ts, j))
                        } else if ts[j].token_type == SpecTokenType::Punctuator(
                            Punctuator::EqualSign,
                        ) {
                            match spec_parse_value(ts, j + 1) {
                                Ok((dv, j2)) => Ok(
                                    (
                                        SpecVariableDefinition {
                                            variable: SpecVariable {
                                                name: n,
                                                position: spec_span(ts, i, j2),
                                            },
                                            variable_type: t,
                                            default_value: Some(dv),
                                            position: spec_span(ts, i, j2),
                                        },
                                        j2,
                                    ),
                                ),
                                Err(d) => Err(d),
                            }
                        } else {
                            Ok(
                                (
                                    SpecVariableDefinition {
                                        variable: SpecVariable {
                                            name: n,
                                            position: spec_span(ts, i, j),
                                        },
                                        variable_type: t,
                                        default_value: None,
                                        position: spec_span(ts, i, j),
                                    },
                                    j,
                                ),
                            )
                        }
                    } else {
                        Err(spec_stuck(ts, i))
                    },
                    Err(d) => Err(d),
                }
            },
            Err(d) => Err(d),
        }
    }
}

/// A braced selection set.
pub open spec fn spec_parse_selection_set(ts: Seq<SpecToken>, i: int) -> Result<
    (SpecSelectionSet, int),
    SpecDiagnostic,
>
    decreases ts.len() - i, 2int,
{
    match spec_expect_punct(ts, i, Punctuator::LeftBrace) {
        Ok(_) => match spec_parse_selections_loop(ts, i + 1) {
            Ok((ss, j)) => Ok(
                (SpecSelectionSet { selections: ss, position: spec_span(ts, i, j) }, j),
            ),
            Err(d) => Err(d),
        },
        Err(d) => Err(d),
    }
}

pub open spec fn spec_parse_selections_loop(ts: Seq<SpecToken>, i: int) -> Result<
    (Seq<SpecSelection>, int),
    SpecDiagnostic,
>
    decreases ts.len() - i, 6int,
{
    if i < 0 || i >= ts.len() {
        Err(spec_eof_error(ts, i))
    } else if ts[i].token_type == SpecTokenType::Punctuator(Punctuator::RightBrace) {
        Ok((Seq::empty(), i + 1))
    } else {
        match spec_parse_selection(ts, i) {
            Ok((s, j)) => if i < j <= ts.len() {
                spec_prepend(seq![s], spec_parse_selections_loop(ts, j))
            } else {
                Err(spec_stuck(ts, i))
            },
            Err(d) => Err(d),
        }
    }
}

/// One selection: a field, or `...` introducing a fragment spread or an
/// inline fragment.
pub open spec fn spec_parse_selection(ts: Seq<SpecToken>, i: int) -> Result<
    (SpecSelection, int),
    SpecDiagnostic,
>
    decreases ts.len() - i, 5int,
{
    if i < 0 || i >= ts.len() {
        Err(spec_eof_error(ts, i))
    } else {
        let position = spec_cur_range(ts, i);
        match ts[i].token_type {
            SpecTokenType::Punctuator(Punctuator::Ellipsis) => if i + 1 >= ts.len() {
                Err(spec_eof_error(ts, i + 1))
            } else {
                match ts[i + 1].token_type {
                    SpecTokenType::Name(s) => if s == "on"@ {
                        match spec_parse_inline_fragment(ts, i + 1) {
                            Ok((f, j)) => Ok((SpecSelection::InlineFragment(f), j)),
                            Err(d) => Err(d),
                        }
                    } else {
                        match spec_parse_fragment_spread(ts, i + 1) {
                            Ok((f, j)) => Ok((SpecSelection::FragmentSpread(f), j)),
                            Err(d) => Err(d),
                        }
                    },
                    _ => Err(
                        spec_error(
                            "Expected Fragment Spread or Inline Fragment"@,
                            spec_cur_range(ts, i + 1),
                        ),
                    ),
                }
            },
            SpecTokenType::Name(_) => spec_parse_field(ts, i),
            _ => Err(spec_error("Expected Selection"@, spec_cur_range(ts, i))),
        }
    }
}

/// A field selection: `alias: name(args) @directives { selections }`, where
/// everything but the name is optional.
pub open spec fn spec_parse_field(ts: Seq<SpecToken>, i: int) -> Result<
    (SpecSelection, int),
    SpecDiagnostic,
>
    decreases ts.len() - i, 4int,
{
    match spec_parse_name_maybe(ts, i) {
        Ok((first, i1)) => if !(i <= i1 <= ts.len()) {
            Err(spec_stuck(ts, i))
        } else {
            if spec_at_punct(ts, i1, Punctuator::Colon) {
                match spec_parse_name(ts, i1 + 1) {
                    Ok((name, i2)) => if i < i2 <= ts.len() {
                        spec_parse_field_rest(ts, i, first, name, i2)
                    } else {
                        Err(spec_stuck(ts, i))
                    },
                    Err(d) => Err(d),
                }
            } else {
                match first {
                    Some(name) => if i < i1 {
                        spec_parse_field_rest(ts, i, None, name, i1)
                    } else {
                        Err(spec_stuck(ts, i))
                    },
                    None => Err(spec_error("Expected Name"@, spec_cur_range(ts, i1))),
                }
            }
        },
        Err(d) => Err(d),
    }
}

/// The remainder of a field selection after its alias and name: arguments,
/// directives, and an optional nested selection set. `start` is where the
/// field began; its range spans from there.
pub open spec fn spec_parse_field_rest(
    ts: Seq<SpecToken>,
    start: int,
    alias: Option<SpecName>,
    name: SpecName,
    i: int,
) -> Result<(SpecSelection, int), SpecDiagnostic>
    decreases ts.len() - i, 3int,
{
    match spec_parse_arguments(ts, i) {
        Ok((args, j1)) => if i <= j1 <= ts.len() {
            match spec_parse_directives(ts, j1) {
                Ok((dirs, j2)) => if i <= j2 <= ts.len() {
                    if spec_at_punct(ts, j2, Punctuator::LeftBrace) {
                        match spec_parse_selection_set(ts, j2) {
                            Ok((ss, j3)) => Ok(
                                (
                                    SpecSelection::Field(
                                        SpecField {
                                            alias,
                                            name,
                                            arguments: args,
                                            directives: dirs,
                                            selection_set: Some(ss),
                                            position: spec_span(ts, start, j3),
                                        },
                                    ),
                                    j3,
                                ),
                            ),
                            Err(d) => Err(d),
                        }
                    } else if j2 >= ts.len() {
                        Err(spec_eof_error(ts, j2))
                    } else {
                        Ok(
                            (
                                SpecSelection::Field(
                                    SpecField {
                                        alias,
                                        name,
                                        arguments: args,
                                        directives: dirs,
                                        selection_set: None,
                                        position: spec_span(ts, start, j2),
                                    },
                                ),
                                j2,
                            ),
                        )
                    }
                } else {
                    Err(spec_stuck(ts, i))
                },
                Err(d) => Err(d),
            }
        } else {
            Err(spec_stuck(ts, i))
        },
        Err(d) => Err(d),
    }
}

/// A fragment spread `...Name @directives` (the `...` is already consumed).
pub open spec fn spec_parse_fragment_spread(ts: Seq<SpecToken>, i: int) -> Result<
    (SpecFragmentSpread, int),
    SpecDiagnostic,
>
    decreases ts.len() - i, 2int,
{
    match spec_parse_name(ts, i) {
        Ok((n, j0)) => if !(i < j0 <= ts.len()) {
            Err(spec_stuck(ts, i))
        } else {
            match spec_parse_directives(ts, j0) {
                Ok((dirs, j)) => Ok(
                    (
                        SpecFragmentSpread {
                            name: n,
                            directives: dirs,
                            position: spec_span(ts, i, j),
                        },
                        j,
                    ),
                ),
                Err(d) => Err(d),
            }
        },
        Err(d) => Err(d),
    }
}

/// An inline fragment `... on Type @directives { selections }` (the `...`
/// is already consumed; the type condition is optional).
pub open spec fn spec_parse_inline_fragment(ts: Seq<SpecToken>, i: int) -> Result<
    (SpecInlineFragment, int),
    SpecDiagnostic,
>
    decreases ts.len() - i, 3int,
{
    if i < 0 || i >= ts.len() {
        Err(spec_eof_error(ts, i))
    } else {
        let tc_r: Result<(Option<SpecNamedType>, int), SpecDiagnostic> = if spec_at_keyword(
            ts,
            i,
            "on"@,
        ) {
            match spec_parse_type_condition(ts, i) {
                Ok((tc, j)) => Ok((Some(tc), j)),
                Err(d) => Err(d),
            }
        } else {
            Ok((None, i))
        };
        match tc_r {
            Ok((tc, j1)) => if i <= j1 <= ts.len() {
                match spec_parse_directives(ts, j1) {
                    Ok((dirs, j2)) => if i <= j2 <= ts.len() {
                        match spec_parse_selection_set(ts, j2) {
                            Ok((ss, j3)) => Ok(
                                (
                                    SpecInlineFragment {
                                        type_condition: tc,
                                        directives: dirs,
                                        selection_set: ss,
                                        position: spec_span(ts, i, j3),
                                    },
                                    j3,
                                ),
                            ),
                            Err(d) => Err(d),
                        }
                    } else {
                        Err(spec_stuck(ts, i))
                    },
                    Err(d) => Err(d),
                }
            } else {
                Err(spec_stuck(ts, i))
            },
            Err(d) => Err(d),
        }
    }
}

/// An operation definition. For a named operation the leading keyword stands
/// at the cursor and is consumed first; an anonymous one starts directly at
/// its selection set.
pub open spec fn spec_parse_operation_definition(
    ts: Seq<SpecToken>,
    i: int,
    operation_type: OperationType,
    anonymous: bool,
) -> Result<(SpecOperationDefinition, int), SpecDiagnostic>
    decreases ts.len() - i, 3int,
{
    let i1 = if anonymous {
        i
    } else {
        i + 1
    };
    if i < 0 || i1 > ts.len() {
        Err(spec_stuck(ts, i))
    } else {
        match spec_parse_name_maybe(ts, i1) {
            Ok((name, i2)) => if i <= i2 <= ts.len() {
                match spec_parse_variable_definitions(ts, i2) {
                    Ok((vds, j1)) => if i <= j1 <= ts.len() {
                        match spec_parse_directives(ts, j1) {
                            Ok((dirs, j2)) => if i <= j2 <= ts.len() {
                                match spec_parse_selection_set(ts, j2) {
                                    Ok((ss, j3)) => Ok(
                                        (
                                            SpecOperationDefinition {
                                                name,
                                                operation: operation_type,
                                                variable_definitions: vds,
                                                selection_set: ss,
                                                directives: dirs,
                                                position: spec_span(ts, i, j3),
                                                anonymous,
                                            },
                                            j3,
                                        ),
                                    ),
                                    Err(d) => Err(d),
                                }
                            } else {
                                Err(spec_stuck(ts, i))
                            },
                            Err(d) => Err(d),
                        }
                    } else {
                        Err(spec_stuck(ts, i))
                    },
                    Err(d) => Err(d),
                }
            } else {
                Err(spec_stuck(ts, i))
            },
            Err(d) => Err(d),
        }
    }
}

/// A fragment definition `fragment Name on Type @directives { selections }`.
pub open spec fn spec_parse_fragment_definition(ts: Seq<SpecToken>, i: int) -> Result<
    (SpecFragmentDefinition, int),
    SpecDiagnostic,
>
    decreases ts.len() - i, 3int,
{
    match spec_expect_keyword(ts, i, "fragment"@) {
        Ok(_) => match spec_parse_name(ts, i + 1) {
            Ok((n, j0)) => if !(i < j0 <= ts.len()) {
                Err(spec_stuck(ts, i))
            } else {
                match spec_parse_type_condition(ts, j0) {
                Ok((tc, j1)) => if i < j1 <= ts.len() {
                    match spec_parse_directives(ts, j1) {
                        Ok((dirs, j2)) => if i < j2 <= ts.len() {
                            match spec_parse_selection_set(ts, j2) {
                                Ok((ss, j3)) => Ok(
                                    (
                                        SpecFragmentDefinition {
                                            name: n,
                                            type_condition: tc,
                                            directives: dirs,
                                            selection_set: ss,
                                            position: spec_span(ts, i, j3),
                                        },
                                        j3,
                                    ),
                                ),
                                Err(d) => Err(d),
                            }
                        } else {
                            Err(spec_stuck(ts, i))
                        },
                        Err(d) => Err(d),
                    }
                } else {
                    Err(spec_stuck(ts, i))
                },
                Err(d) => Err(d),
            }
            },
            Err(d) => Err(d),
        },
        Err(d) => Err(d),
    }
}

/// A leading string literal read as the description of the definition that
/// follows it; consumed only when present.
pub open spec fn spec_parse_description(ts: Seq<SpecToken>, i: int) -> (Option<SpecStringValue>, int) {
    if 0 <= i < ts.len() {
        match ts[i].token_type {
            SpecTokenType::StringValue(s) => (
                Some(SpecStringValue { value: s, block: false, position: ts[i].position }),
                i + 1,
            ),
            _ => (None, i),
        }
    } else {
        (None, i)
    }
}

/// A `scalar Name @directives` definition, with any description read before
/// its keyword.
pub open spec fn spec_parse_scalar_type_definition(
    ts: Seq<SpecToken>,
    i: int,
    description: Option<SpecStringValue>,
) -> Result<(SpecScalarTypeDefinition, int), SpecDiagnostic>
    decreases ts.len() - i, 3int,
{
    match spec_expect_keyword(ts, i, "scalar"@) {
        Ok(_) => match spec_parse_name(ts, i + 1) {
            Ok((n, j0)) => if i < j0 <= ts.len() {
                match spec_parse_directives(ts, j0) {
                    Ok((dirs, j)) => Ok(
                        (
                            SpecScalarTypeDefinition {
                                description,
                                name: n,
                                directives: dirs,
                                position: spec_span(ts, i, j),
                            },
                            j,
                        ),
                    ),
                    Err(d) => Err(d),
                }
            } else {
                Err(spec_stuck(ts, i))
            },
            Err(d) => Err(d),
        },
        Err(d) => Err(d),
    }
}

/// One `operation: NamedType` entry of a schema block, then the rest of the
/// block up to and including its closing brace.
pub open spec fn spec_parse_root_operation_types(ts: Seq<SpecToken>, i: int) -> Result<
    (Seq<SpecRootOperationTypeDefinition>, int),
    SpecDiagnostic,
>
    decreases ts.len() - i, 2int,
{
    if i < 0 || i >= ts.len() {
        Err(spec_eof_error(ts, i))
    } else if ts[i].token_type == SpecTokenType::Punctuator(Punctuator::RightBrace) {
        Ok((Seq::empty(), i + 1))
    } else {
        match spec_parse_name(ts, i) {
            Ok((n, j0)) => if i < j0 <= ts.len() {
                match spec_operation_type_of(n.value) {
                    None => Err(spec_error("Expected operation type"@, n.position)),
                    Some(ot) => match spec_expect_punct(ts, j0, Punctuator::Colon) {
                        Ok(_) => match spec_parse_named_type(ts, j0 + 1) {
                            Ok((nt, j1)) => if i < j1 <= ts.len() {
                                spec_prepend(
                                    seq![
                                        SpecRootOperationTypeDefinition {
                                            operation_type: ot,
                                            named_type: nt,
                                            position: spec_span(ts, i, j1),
                                        },
                                    ],
                                    spec_parse_root_operation_types(ts, j1),
                                )
                            } else {
                                Err(spec_stuck(ts, i))
                            },
                            Err(d) => Err(d),
                        },
                        Err(d) => Err(d),
                    },
                }
            } else {
                Err(spec_stuck(ts, i))
            },
            Err(d) => Err(d),
        }
    }
}

/// A `schema @directives { operation: NamedType ... }` definition; a name
/// in the block that is not an operation keyword is rejected.
pub open spec fn spec_parse_schema_definition(
    ts: Seq<SpecToken>,
    i: int,
    description: Option<SpecStringValue>,
) -> Result<(SpecSchemaDefinition, int), SpecDiagnostic>
    decreases ts.len() - i, 3int,
{
    match spec_expect_keyword(ts, i, "schema"@) {
        Ok(_) => match spec_parse_directives(ts, i + 1) {
            Ok((dirs, j1)) => if i < j1 <= ts.len() {
                match spec_expect_punct(ts, j1, Punctuator::LeftBrace) {
                    Ok(_) => match spec_parse_root_operation_types(ts, j1 + 1) {
                        Ok((ops, j2)) => Ok(
                            (
                                SpecSchemaDefinition {
                                    description,
                                    operation_types: ops,
                                    directives: dirs,
                                    position: spec_span(ts, i, j2),
                                },
                                j2,
                            ),
                        ),
                        Err(d) => Err(d),
                    },
                    Err(d) => Err(d),
                }
            } else {
                Err(spec_stuck(ts, i))
            },
            Err(d) => Err(d),
        },
        Err(d) => Err(d),
    }
}

/// The `implements A & B` clause of an object or interface definition;
/// absent keyword means an empty list.
pub open spec fn spec_parse_interfaces(ts: Seq<SpecToken>, i: int) -> Result<
    (Seq<SpecNamedType>, int),
    SpecDiagnostic,
>
    decreases ts.len() - i, 2int,
{
    if !spec_at_keyword(ts, i, "implements"@) {
        Ok((Seq::empty(), i))
    } else {
        spec_parse_interfaces_loop(ts, i + 1)
    }
}

pub open spec fn spec_parse_interfaces_loop(ts: Seq<SpecToken>, i: int) -> Result<
    (Seq<SpecNamedType>, int),
    SpecDiagnostic,
>
    decreases ts.len() - i, 3int,
{
    match spec_parse_named_type(ts, i) {
        Ok((nt, j0)) => if i < j0 <= ts.len() {
            if spec_at_punct(ts, j0, Punctuator::Ampersand) {
                spec_prepend(seq![nt], spec_parse_interfaces_loop(ts, j0 + 1))
            } else {
                Ok((seq![nt], j0))
            }
        } else {
            Err(spec_stuck(ts, i))
        },
        Err(d) => Err(d),
    }
}

/// A braced list of field definitions.
pub open spec fn spec_parse_fields(ts: Seq<SpecToken>, i: int) -> Result<
    (Seq<SpecFieldDefinition>, int),
    SpecDiagnostic,
>
    decreases ts.len() - i, 3int,
{
    match spec_expect_punct(ts, i, Punctuator::LeftBrace) {
        Ok(_) => spec_parse_fields_loop(ts, i + 1),
        Err(d) => Err(d),
    }
}

pub open spec fn spec_parse_fields_loop(ts: Seq<SpecToken>, i: int) -> Result<
    (Seq<SpecFieldDefinition>, int),
    SpecDiagnostic,
>
    decreases ts.len() - i, 3int,
{
    if spec_at_punct(ts, i, Punctuator::RightBrace) {
        Ok((Seq::empty(), i + 1))
    } else {
        match spec_parse_field_definition(ts, i) {
            Ok((fd, j)) => if i < j <= ts.len() {
                spec_prepend(seq![fd], spec_parse_fields_loop(ts, j))
            } else {
                Err(spec_stuck(ts, i))
            },
            Err(d) => Err(d),
        }
    }
}

/// One field definition `"desc" name(args): Type @directives`.
pub open spec fn spec_parse_field_definition(ts: Seq<SpecToken>, i: int) -> Result<
    (SpecFieldDefinition, int),
    SpecDiagnostic,
>
    decreases ts.len() - i, 2int,
{
    let (description, i_d) = spec_parse_description(ts, i);
    match spec_parse_name(ts, i_d) {
        Ok((n, j0)) => if i < j0 <= ts.len() {
            match spec_parse_field_arguments(ts, j0) {
                Ok((args, j1)) => if i < j1 <= ts.len() {
                    match spec_expect_punct(ts, j1, Punctuator::Colon) {
                        Ok(_) => match spec_parse_type(ts, j1 + 1) {
                            Ok((t, j2)) => if i < j2 <= ts.len() {
                                match spec_parse_directives(ts, j2) {
                                    Ok((dirs, j3)) => Ok(
                                        (
                                            SpecFieldDefinition {
                                                description,
                                                name: n,
                                                arguments: args,
                                                field_type: t,
                                                directives: dirs,
                                                position: spec_span(ts, i, j3),
                                            },
                                            j3,
                                        ),
                                    ),
                                    Err(d) => Err(d),
                                }
                            } else {
                                Err(spec_stuck(ts, i))
                            },
                            Err(d) => Err(d),
                        },
                        Err(d) => Err(d),
                    }
                } else {
                    Err(spec_stuck(ts, i))
                },
                Err(d) => Err(d),
            }
        } else {
            Err(spec_stuck(ts, i))
        },
        Err(d) => Err(d),
    }
}

/// The parenthesised argument declarations of a field definition; absent
/// parentheses mean an empty list.
pub open spec fn spec_parse_field_arguments(ts: Seq<SpecToken>, i: int) -> Result<
    (Seq<SpecInputValueDefinition>, int),
    SpecDiagnostic,
>
    decreases ts.len() - i, 2int,
{
    if !spec_at_punct(ts, i, Punctuator::LeftParenthesis) {
        Ok((Seq::empty(), i))
    } else {
        spec_parse_field_args_loop(ts, i + 1)
    }
}

pub open spec fn spec_parse_field_args_loop(ts: Seq<SpecToken>, i: int) -> Result<
    (Seq<SpecInputValueDefinition>, int),
    SpecDiagnostic,
>
    decreases ts.len() - i, 3int,
{
    if spec_at_punct(ts, i, Punctuator::RightParenthesis) {
        Ok((Seq::empty(), i + 1))
    } else {
        match spec_parse_input_value_definition(ts, i) {
            Ok((iv, j)) => if i < j <= ts.len() {
                spec_prepend(seq![iv], spec_parse_field_args_loop(ts, j))
            } else {
                Err(spec_stuck(ts, i))
            },
            Err(d) => Err(d),
        }
    }
}

/// One input value definition `"desc" name: Type = default @directives`.
pub open spec fn spec_parse_input_value_definition(ts: Seq<SpecToken>, i: int) -> Result<
    (SpecInputValueDefinition, int),
    SpecDiagnostic,
>
    decreases ts.len() - i, 2int,
{
    let (description, i_d) = spec_parse_description(ts, i);
    match spec_parse_name(ts, i_d) {
        Ok((n, j0)) => if i < j0 <= ts.len() {
            match spec_expect_punct(ts, j0, Punctuator::Colon) {
                Ok(_) => match spec_parse_type(ts, j0 + 1) {
                    Ok((t, j1)) => if i < j1 <= ts.len() {
                        match spec_parse_default_value(ts, j1) {
                            Ok((dv, j2)) => if i < j2 <= ts.len() {
                                match spec_parse_directives(ts, j2) {
                                    Ok((dirs, j3)) => Ok(
                                        (
                                            SpecInputValueDefinition {
                                                description,
                                                name: n,
                                                input_type: t,
                                                default_value: dv,
                                                directives: dirs,
                                                position: spec_span(ts, i, j3),
                                            },
                                            j3,
                                        ),
                                    ),
                                    Err(d) => Err(d),
                                }
                            } else {
                                Err(spec_stuck(ts, i))
                            },
                            Err(d) => Err(d),
                        }
                    } else {
                        Err(spec_stuck(ts, i))
                    },
                    Err(d) => Err(d),
                },
                Err(d) => Err(d),
            }
        } else {
            Err(spec_stuck(ts, i))
        },
        Err(d) => Err(d),
    }
}

/// A default value, present only after an equals sign.
pub open spec fn spec_parse_default_value(ts: Seq<SpecToken>, i: int) -> Result<
    (Option<SpecValue>, int),
    SpecDiagnostic,
>
    decreases ts.len() - i, 2int,
{
    if !spec_at_punct(ts, i, Punctuator::EqualSign) {
        Ok((None, i))
    } else {
        match spec_parse_value(ts, i + 1) {
            Ok((v, j)) => Ok((Some(v), j)),
            Err(d) => Err(d),
        }
    }
}

/// A `type Name implements ... @directives { fields }` definition.
pub open spec fn spec_parse_object_type_definition(
    ts: Seq<SpecToken>,
    i: int,
    description: Option<SpecStringValue>,
) -> Result<(SpecObjectTypeDefinition, int), SpecDiagnostic>
    decreases ts.len() - i, 3int,
{
    match spec_expect_keyword(ts, i, "type"@) {
        Ok(_) => match spec_parse_name(ts, i + 1) {
            Ok((n, j0)) => if i < j0 <= ts.len() {
                match spec_parse_interfaces(ts, j0) {
                    Ok((ifs, j1)) => if i < j1 <= ts.len() {
                        match spec_parse_directives(ts, j1) {
                            Ok((dirs, j2)) => if i < j2 <= ts.len() {
                                match spec_parse_fields(ts, j2) {
                                    Ok((fs, j3)) => Ok(
                                        (
                                            SpecObjectTypeDefinition {
                                                description,
                                                name: n,
                                                interfaces: ifs,
                                                directives: dirs,
                                                fields: fs,
                                                position: spec_span(ts, i, j3),
                                            },
                                            j3,
                                        ),
                                    ),
                                    Err(d) => Err(d),
                                }
                            } else {
                                Err(spec_stuck(ts, i))
                            },
                            Err(d) => Err(d),
                        }
                    } else {
                        Err(spec_stuck(ts, i))
                    },
                    Err(d) => Err(d),
                }
            } else {
                Err(spec_stuck(ts, i))
            },
            Err(d) => Err(d),
        },
        Err(d) => Err(d),
    }
}

/// An `interface Name implements ... @directives { fields }` definition.
pub open spec fn spec_parse_interface_type_definition(
    ts: Seq<SpecToken>,
    i: int,
    description: Option<SpecStringValue>,
) -> Result<(SpecInterfaceTypeDefinition, int), SpecDiagnostic>
    decreases ts.len() - i, 3int,
{
    match spec_expect_keyword(ts, i, "interface"@) {
        Ok(_) => match spec_parse_name(ts, i + 1) {
            Ok((n, j0)) => if i < j0 <= ts.len() {
                match spec_parse_interfaces(ts, j0) {
                    Ok((ifs, j1)) => if i < j1 <= ts.len() {
                        match spec_parse_directives(ts, j1) {
                            Ok((dirs, j2)) => if i < j2 <= ts.len() {
                                match spec_parse_fields(ts, j2) {
                                    Ok((fs, j3)) => Ok(
                                        (
                                            SpecInterfaceTypeDefinition {
                                                description,
                                                name: n,
                                                interfaces: ifs,
                                                directives: dirs,
                                                fields: fs,
                                                position: spec_span(ts, i, j3),
                                            },
                                            j3,
                                        ),
                                    ),
                                    Err(d) => Err(d),
                                }
                            } else {
                                Err(spec_stuck(ts, i))
                            },
                            Err(d) => Err(d),
                        }
                    } else {
                        Err(spec_stuck(ts, i))
                    },
                    Err(d) => Err(d),
                }
            } else {
                Err(spec_stuck(ts, i))
            },
            Err(d) => Err(d),
        },
        Err(d) => Err(d),
    }
}

/// A `union Name @directives = A | B` definition.
pub open spec fn spec_parse_union_type_definition(
    ts: Seq<SpecToken>,
    i: int,
    description: Option<SpecStringValue>,
) -> Result<(SpecUnionTypeDefinition, int), SpecDiagnostic>
    decreases ts.len() - i, 3int,
{
    match spec_expect_keyword(ts, i, "union"@) {
        Ok(_) => match spec_parse_name(ts, i + 1) {
            Ok((n, j0)) => if i < j0 <= ts.len() {
                match spec_parse_directives(ts, j0) {
                    Ok((dirs, j1)) => if i < j1 <= ts.len() {
                        match spec_parse_union_member_types(ts, j1) {
                            Ok((ms, j2)) => Ok(
                                (
                                    SpecUnionTypeDefinition {
                                        description,
                                        name: n,
                                        directives: dirs,
                                        member_types: ms,
                                        position: spec_span(ts, i, j2),
                                    },
                                    j2,
                                ),
                            ),
                            Err(d) => Err(d),
                        }
                    } else {
                        Err(spec_stuck(ts, i))
                    },
                    Err(d) => Err(d),
                }
            } else {
                Err(spec_stuck(ts, i))
            },
            Err(d) => Err(d),
        },
        Err(d) => Err(d),
    }
}

/// The member list of a union: `= NamedType (| NamedType)*`.
pub open spec fn spec_parse_union_member_types(ts: Seq<SpecToken>, i: int) -> Result<
    (Seq<SpecNamedType>, int),
    SpecDiagnostic,
>
    decreases ts.len() - i, 2int,
{
    match spec_expect_punct(ts, i, Punctuator::EqualSign) {
        Ok(_) => match spec_parse_named_type(ts, i + 1) {
            Ok((nt, j0)) => if i < j0 <= ts.len() {
                spec_prepend(seq![nt], spec_parse_union_members_rest(ts, j0))
            } else {
                Err(spec_stuck(ts, i))
            },
            Err(d) => Err(d),
        },
        Err(d) => Err(d),
    }
}

pub open spec fn spec_parse_union_members_rest(ts: Seq<SpecToken>, i: int) -> Result<
    (Seq<SpecNamedType>, int),
    SpecDiagnostic,
>
    decreases ts.len() - i, 2int,
{
    if !spec_at_punct(ts, i, Punctuator::VerticalBar) {
        Ok((Seq::empty(), i))
    } else {
        match spec_parse_named_type(ts, i + 1) {
            Ok((nt, j0)) => if i < j0 <= ts.len() {
                spec_prepend(seq![nt], spec_parse_union_members_rest(ts, j0))
            } else {
                Err(spec_stuck(ts, i))
            },
            Err(d) => Err(d),
        }
    }
}

/// An `enum Name @directives { VALUES }` definition.
pub open spec fn spec_parse_enum_type_definition(
    ts: Seq<SpecToken>,
    i: int,
    description: Option<SpecStringValue>,
) -> Result<(SpecEnumTypeDefinition, int), SpecDiagnostic>
    decreases ts.len() - i, 4int,
{
    match spec_expect_keyword(ts, i, "enum"@) {
        Ok(_) => match spec_parse_name(ts, i + 1) {
            Ok((n, j0)) => if i < j0 <= ts.len() {
                match spec_parse_directives(ts, j0) {
                    Ok((dirs, j1)) => if i < j1 <= ts.len() {
                        match spec_parse_enum_values(ts, j1) {
                            Ok((vs, j2)) => Ok(
                                (
                                    SpecEnumTypeDefinition {
                                        description,
                                        name: n,
                                        directives: dirs,
                                        values: vs,
                                        position: spec_span(ts, i, j2),
                                    },
                                    j2,
                                ),
                            ),
                            Err(d) => Err(d),
                        }
                    } else {
                        Err(spec_stuck(ts, i))
                    },
                    Err(d) => Err(d),
                }
            } else {
                Err(spec_stuck(ts, i))
            },
            Err(d) => Err(d),
        },
        Err(d) => Err(d),
    }
}

/// The braced value list of an enum definition: at least one value.
pub open spec fn spec_parse_enum_values(ts: Seq<SpecToken>, i: int) -> Result<
    (Seq<SpecEnumValueDefinition>, int),
    SpecDiagnostic,
>
    decreases ts.len() - i, 3int,
{
    match spec_expect_punct(ts, i, Punctuator::LeftBrace) {
        Ok(_) => match spec_parse_enum_value_definition(ts, i + 1) {
            Ok((v0, j0)) => if i < j0 <= ts.len() {
                match spec_parse_enum_values_loop(ts, j0) {
                    Ok((vs, j1)) => if i < j1 <= ts.len() {
                        match spec_expect_punct(ts, j1, Punctuator::RightBrace) {
                            Ok(_) => Ok((seq![v0] + vs, j1 + 1)),
                            Err(d) => Err(d),
                        }
                    } else {
                        Err(spec_stuck(ts, i))
                    },
                    Err(d) => Err(d),
                }
            } else {
                Err(spec_stuck(ts, i))
            },
            Err(d) => Err(d),
        },
        Err(d) => Err(d),
    }
}

pub open spec fn spec_parse_enum_values_loop(ts: Seq<SpecToken>, i: int) -> Result<
    (Seq<SpecEnumValueDefinition>, int),
    SpecDiagnostic,
>
    decreases ts.len() - i, 3int,
{
    if spec_at_punct(ts, i, Punctuator::RightBrace) {
        Ok((Seq::empty(), i))
    } else {
        match spec_parse_enum_value_definition(ts, i) {
            Ok((v, j)) => if i < j <= ts.len() {
                spec_prepend(seq![v], spec_parse_enum_values_loop(ts, j))
            } else {
                Err(spec_stuck(ts, i))
            },
            Err(d) => Err(d),
        }
    }
}

/// One enum value `"desc" NAME @directives`.
pub open spec fn spec_parse_enum_value_definition(ts: Seq<SpecToken>, i: int) -> Result<
    (SpecEnumValueDefinition, int),
    SpecDiagnostic,
>
    decreases ts.len() - i, 2int,
{
    let (description, i_d) = spec_parse_description(ts, i);
    match spec_parse_name(ts, i_d) {
        Ok((n, j0)) => if i < j0 <= ts.len() {
            match spec_parse_directives(ts, j0) {
                Ok((dirs, j1)) => Ok(
                    (
                        SpecEnumValueDefinition {
                            description,
                            name: n,
                            directives: dirs,
                            position: spec_span(ts, i, j1),
                        },
                        j1,
                    ),
                ),
                Err(d) => Err(d),
            }
        } else {
            Err(spec_stuck(ts, i))
        },
        Err(d) => Err(d),
    }
}

/// An `input Name @directives { fields }` definition.
pub open spec fn spec_parse_input_object_type_definition(
    ts: Seq<SpecToken>,
    i: int,
    description: Option<SpecStringValue>,
) -> Result<(SpecInputObjectTypeDefinition, int), SpecDiagnostic>
    decreases ts.len() - i, 4int,
{
    match spec_expect_keyword(ts, i, "input"@) {
        Ok(_) => match spec_parse_name(ts, i + 1) {
            Ok((n, j0)) => if i < j0 <= ts.len() {
                match spec_parse_directives(ts, j0) {
                    Ok((dirs, j1)) => if i < j1 <= ts.len() {
                        match spec_parse_input_fields(ts, j1) {
                            Ok((fs, j2)) => Ok(
                                (
                                    SpecInputObjectTypeDefinition {
                                        description,
                                        name: n,
                                        directives: dirs,
                                        fields: fs,
                                        position: spec_span(ts, i, j2),
                                    },
                                    j2,
                                ),
                            ),
                            Err(d) => Err(d),
                        }
                    } else {
                        Err(spec_stuck(ts, i))
                    },
                    Err(d) => Err(d),
                }
            } else {
                Err(spec_stuck(ts, i))
            },
            Err(d) => Err(d),
        },
        Err(d) => Err(d),
    }
}

/// The braced field list of an input object definition.
pub open spec fn spec_parse_input_fields(ts: Seq<SpecToken>, i: int) -> Result<
    (Seq<SpecInputValueDefinition>, int),
    SpecDiagnostic,
>
    decreases ts.len() - i, 4int,
{
    match spec_expect_punct(ts, i, Punctuator::LeftBrace) {
        Ok(_) => match spec_parse_input_fields_loop(ts, i + 1) {
            Ok((fs, j)) => if i < j <= ts.len() {
                match spec_expect_punct(ts, j, Punctuator::RightBrace) {
                    Ok(_) => Ok((fs, j + 1)),
                    Err(d) => Err(d),
                }
            } else {
                Err(spec_stuck(ts, i))
            },
            Err(d) => Err(d),
        },
        Err(d) => Err(d),
    }
}

pub open spec fn spec_parse_input_fields_loop(ts: Seq<SpecToken>, i: int) -> Result<
    (Seq<SpecInputValueDefinition>, int),
    SpecDiagnostic,
>
    decreases ts.len() - i, 3int,
{
    if spec_at_punct(ts, i, Punctuator::RightBrace) {
        Ok((Seq::empty(), i))
    } else {
        match spec_parse_input_value_definition(ts, i) {
            Ok((f, j)) => if i < j <= ts.len() {
                spec_prepend(seq![f], spec_parse_input_fields_loop(ts, j))
            } else {
                Err(spec_stuck(ts, i))
            },
            Err(d) => Err(d),
        }
    }
}

/// The next definition at the cursor. A leading `{` opens an anonymous
/// query; a leading operation keyword a named operation; `fragment` a
/// fragment; a leading string is read as a description, after which a
/// type-system keyword must follow; anything else is rejected.
pub open spec fn spec_parse_next_definition(ts: Seq<SpecToken>, i: int) -> Result<
    (SpecDefinition, int),
    SpecDiagnostic,
>
    decreases ts.len() - i, 5int,
{
    if i < 0 || i >= ts.len() {
        Err(spec_eof_error(ts, i))
    } else {
        if spec_at_punct(ts, i, Punctuator::LeftBrace) {
            match spec_parse_operation_definition(ts, i, OperationType::Query, true) {
                Ok((d, j)) => Ok((SpecDefinition::OperationDefinition(d), j)),
                Err(d) => Err(d),
            }
        } else if (ts[i].token_type matches SpecTokenType::Name(s)
            && spec_operation_type_of(s) is Some) {
            let ot = spec_operation_type_of(ts[i].token_type->Name_0)->Some_0;
            match spec_parse_operation_definition(ts, i, ot, false) {
                Ok((d, j)) => Ok((SpecDefinition::OperationDefinition(d), j)),
                Err(d) => Err(d),
            }
        } else if spec_at_keyword(ts, i, "fragment"@) {
            match spec_parse_fragment_definition(ts, i) {
                Ok((d, j)) => Ok((SpecDefinition::FragmentDefinition(d), j)),
                Err(d) => Err(d),
            }
        } else {
            spec_parse_type_system_definition(ts, i)
        }
    }
}

/// A type-system definition, optionally preceded by a description: a
/// description not followed by a type-system keyword is rejected.
pub open spec fn spec_parse_type_system_definition(ts: Seq<SpecToken>, i: int) -> Result<
    (SpecDefinition, int),
    SpecDiagnostic,
>
    decreases ts.len() - i, 4int,
{
    let position = spec_cur_range(ts, i);
    let (description, i_d) = spec_parse_description(ts, i);
    if i < 0 || i_d >= ts.len() {
        Err(spec_eof_error(ts, i_d))
    } else if spec_at_keyword(ts, i_d, "schema"@) {
        match spec_parse_schema_definition(ts, i_d, description) {
            Ok((d, j)) => Ok((SpecDefinition::SchemaDefinition(d), j)),
            Err(d) => Err(d),
        }
    } else if spec_at_keyword(ts, i_d, "scalar"@) {
        match spec_parse_scalar_type_definition(ts, i_d, description) {
            Ok((d, j)) => Ok((SpecDefinition::ScalarTypeDefinition(d), j)),
            Err(d) => Err(d),
        }
    } else if spec_at_keyword(ts, i_d, "type"@) {
        match spec_parse_object_type_definition(ts, i_d, description) {
            Ok((d, j)) => Ok((SpecDefinition::ObjectTypeDefinition(d), j)),
            Err(d) => Err(d),
        }
    } else if spec_at_keyword(ts, i_d, "interface"@) {
        match spec_parse_interface_type_definition(ts, i_d, description) {
            Ok((d, j)) => Ok((SpecDefinition::InterfaceTypeDefinition(d), j)),
            Err(d) => Err(d),
        }
    } else if spec_at_keyword(ts, i_d, "union"@) {
        match spec_parse_union_type_definition(ts, i_d, description) {
            Ok((d, j)) => Ok((SpecDefinition::UnionTypeDefinition(d), j)),
            Err(d) => Err(d),
        }
    } else if spec_at_keyword(ts, i_d, "enum"@) {
        match spec_parse_enum_type_definition(ts, i_d, description) {
            Ok((d, j)) => Ok((SpecDefinition::EnumTypeDefinition(d), j)),
            Err(d) => Err(d),
        }
    } else if spec_at_keyword(ts, i_d, "input"@) {
        match spec_parse_input_object_type_definition(ts, i_d, description) {
            Ok((d, j)) => Ok((SpecDefinition::InputObjectTypeDefinition(d), j)),
            Err(d) => Err(d),
        }
    } else {
        Err(spec_error("Expected operation definition"@, position))
    }
}

/// The top-level loop: definitions until the `EOF` token.
pub open spec fn spec_parse_definitions(ts: Seq<SpecToken>, i: int) -> Result<
    (Seq<SpecDefinition>, int),
    SpecDiagnostic,
>
    decreases ts.len() - i, 6int,
{
    if i < 0 || i >= ts.len() || ts[i].token_type == SpecTokenType::EOF {
        Ok((Seq::empty(), i))
    } else {
        match spec_parse_next_definition(ts, i) {
            Ok((d, j)) => if i < j <= ts.len() {
                spec_prepend(seq![d], spec_parse_definitions(ts, j))
            } else {
                Err(spec_stuck(ts, i))
            },
            Err(d) => Err(d),
        }
    }
}

/// A whole document: every definition up to the end of the token buffer.
pub open spec fn spec_parse_document(ts: Seq<SpecToken>, i: int) -> Result<
    (SpecDocument, int),
    SpecDiagnostic,
>
    decreases ts.len() - i, 7int,
{
    match spec_parse_definitions(ts, i) {
        Ok((defs, j)) => Ok(
            (SpecDocument { definitions: defs, position: spec_span(ts, i, j) }, j),
        ),
        Err(d) => Err(d),
    }
}

/// What parsing a whole source yields: tokenize, then read a document from
/// the tokens; the first error of either stage is the result.
pub open spec fn spec_parse(src: Seq<char>) -> Result<SpecDocument, SpecDiagnostic> {
    match spec_lex(src) {
        Ok(ts) => match spec_parse_document(ts, 0) {
            Ok((d, _)) => Ok(d),
            Err(e) => Err(e),
        },
        Err(e) => Err(e),
    }
}

// ---------------------------------------------------------------------------
// Lemmas shared by the parser's loop proofs
// ---------------------------------------------------------------------------
proof fn lemma_prepend_nest<T>(pre: Seq<T>, x: T, r: Result<(Seq<T>, int), SpecDiagnostic>)
    ensures
        spec_prepend(pre, spec_prepend(seq![x], r)) == spec_prepend(pre.push(x), r),
{
    match r {
        Ok((s, j)) => {
            assert(pre + (seq![x] + s) =~= pre.push(x) + s);
        },
        Err(_) => {},
    }
}

proof fn lemma_prepend_empty<T>(pre: Seq<T>, j: int)
    ensures
        spec_prepend(pre, Ok::<_, SpecDiagnostic>((Seq::<T>::empty(), j))) == Ok::<
            _,
            SpecDiagnostic,
        >((pre, j)),
{
    assert(pre + Seq::<T>::empty() =~= pre);
}

proof fn lemma_view_map_push<A: View>(s: Seq<A>, x: A)
    ensures
        s.push(x).map_values(|a: A| a@) == s.map_values(|a: A| a@).push(x@),
{
    assert(s.push(x).map_values(|a: A| a@) =~= s.map_values(|a: A| a@).push(x@));
}

// ---------------------------------------------------------------------------
// The parser: a one-token-lookahead cursor over an immutable token buffer.
// ---------------------------------------------------------------------------
pub struct Parser {
    tokens: Vec<LexicalToken>,
    ptr: usize,
}

/// The glyphs a punctuator is written with.
fn punct_text(p: Punctuator) -> (r: &'static str)
    ensures
        r@ == spec_punct_text(p),
{
    match p {
        Punctuator::ExclamationMark => "!",
        Punctuator::DollarSign => "$",
        Punctuator::Ampersand => "&",
        Punctuator::LeftParenthesis => "(",
        Punctuator::RightParenthesis => ")",
        Punctuator::Ellipsis => "...",
        Punctuator::Colon => ":",
        Punctuator::EqualSign => "=",
        Punctuator::AtSign => "@",
        Punctuator::LeftBracket => "[",
        Punctuator::RightBracket => "]",
        Punctuator::LeftBrace => "{",
        Punctuator::RightBrace => "}",
        Punctuator::VerticalBar => "|",
    }
}

impl Parser {
    /// The model of the token buffer.
    pub closed spec fn toks(&self) -> Seq<SpecToken> {
        spec_tokens(self.tokens@)
    }

    /// The cursor.
    pub closed spec fn idx(&self) -> int {
        self.ptr as int
    }

    pub closed spec fn wf(&self) -> bool {
        self.ptr <= self.tokens@.len()
    }

    pub fn new(tokens: Vec<LexicalToken>) -> (r: Parser)
        ensures
            r.wf(),
            r.toks() == spec_tokens(tokens@),
            r.idx() == 0,
    {
        Parser { ptr: 0, tokens }
    }

    /// Whether the cursor stands past the end of the buffer.
    fn at_end(&self) -> (r: bool)
        ensures
            r == (self.idx() >= self.toks().len()),
    {
        self.ptr >= self.tokens.len()
    }

    /// The range of the current token, or a zero range past the end.
    fn get_current_position(&self) -> (r: Range)
        ensures
            r@ == spec_cur_range(self.toks(), self.idx()),
    {
        if self.ptr < self.tokens.len() {
            self.tokens[self.ptr].position
        } else {
            Range::new(Position::new(0, 0), Position::new(0, 0))
        }
    }

    /// Whether the current token is the given punctuator.
    fn at_punct(&self, p: Punctuator) -> (r: bool)
        ensures
            r == spec_at_punct(self.toks(), self.idx(), p),
    {
        if self.ptr < self.tokens.len() {
            match &self.tokens[self.ptr].token_type {
                LexicalTokenType::Punctuator(q) => *q == p,
                _ => false,
            }
        } else {
            false
        }
    }

    /// Whether the current token is the given keyword.
    fn at_keyword(&self, kw: &str) -> (r: bool)
        ensures
            r == spec_at_keyword(self.toks(), self.idx(), kw@),
    {
        if self.ptr < self.tokens.len() {
            match &self.tokens[self.ptr].token_type {
                LexicalTokenType::Name(s) => str_eq(s.as_str(), kw),
                _ => false,
            }
        } else {
            false
        }
    }

    /// Whether the current token is the synthetic end-of-input token.
    fn at_eof_token(&self) -> (r: bool)
        ensures
            r == (0 <= self.idx() < self.toks().len() && self.toks()[self.idx()].token_type
                == SpecTokenType::EOF),
    {
        if self.ptr < self.tokens.len() {
            match &self.tokens[self.ptr].token_type {
                LexicalTokenType::EOF => true,
                _ => false,
            }
        } else {
            false
        }
    }

    /// The current token's name text, when it is a name token.
    fn current_name_value(&self) -> (r: Option<String>)
        ensures
            match r {
                Some(s) => 0 <= self.idx() < self.toks().len() && self.toks()[self.idx()].token_type
                    == SpecTokenType::Name(s@),
                None => self.idx() >= self.toks().len() || !(self.toks()[self.idx()].token_type
                    matches SpecTokenType::Name(_)),
            },
    {
        if self.ptr < self.tokens.len() {
            match &self.tokens[self.ptr].token_type {
                LexicalTokenType::Name(s) => Some(s.clone()),
                _ => None,
            }
        } else {
            None
        }
    }

    /// The error reported on reading past the end of the buffer.
    fn eof_diag(&self) -> (r: Diagnostic)
        ensures
            r@ == spec_eof_error(self.toks(), self.idx()),
    {
        Diagnostic::new(
            DiagnosticSeverity::Error,
            String::from_str("Unexpected EOF"),
            self.get_current_position(),
        )
    }

    /// The error reported when a required punctuator or keyword is missing,
    /// naming what was expected.
    fn unexpected_token_diag(&self, expected: &str) -> (r: Diagnostic)
        ensures
            r@ == spec_error(
                spec_unexpected_token_msg(expected@),
                spec_cur_range(self.toks(), self.idx()),
            ),
    {
        let mut m = String::from_str("Unexpected token. Expected \"");
        m.append(expected);
        m.append("\"");
        proof {
            assert(m@ =~= spec_unexpected_token_msg(expected@));
        }
        Diagnostic::new(DiagnosticSeverity::Error, m, self.get_current_position())
    }

    /// A one-off error at the current token.
    fn error_here(&self, message: &str) -> (r: Diagnostic)
        ensures
            r@ == spec_error(message@, spec_cur_range(self.toks(), self.idx())),
    {
        Diagnostic::new(
            DiagnosticSeverity::Error,
            String::from_str(message),
            self.get_current_position(),
        )
    }

    /// Advances past the current token.
    fn next(&mut self)
        requires
            old(self).wf(),
            old(self).idx() < old(self).toks().len(),
        ensures
            final(self).wf(),
            final(self).toks() == old(self).toks(),
            final(self).idx() == old(self).idx() + 1,
    {
        let n = self.tokens.len();
        proof {
            assert(self.toks().len() == self.tokens@.len());
        }
        self.ptr = self.ptr + 1;
    }

    /// Consumes the current token, which must be the given punctuator.
    fn expect_punct(&mut self, p: Punctuator) -> (r: Result<(), Diagnostic>)
        requires
            old(self).wf(),
        ensures
            final(self).wf(),
            final(self).toks() == old(self).toks(),
            match r {
                Ok(_) => spec_expect_punct(old(self).toks(), old(self).idx(), p) == Ok::<
                    _,
                    SpecDiagnostic,
                >(final(self).idx()) && final(self).idx() == old(self).idx() + 1,
                Err(d) => spec_expect_punct(old(self).toks(), old(self).idx(), p) == Err::<
                    int,
                    _,
                >(d@) && final(self).idx() == old(self).idx(),
            },
    {
        if self.at_end() {
            Err(self.eof_diag())
        } else if self.at_punct(p) {
            self.next();
            Ok(())
        } else {
            Err(self.unexpected_token_diag(punct_text(p)))
        }
    }

    /// Consumes the current token, which must be the given keyword.
    fn expect_keyword(&mut self, kw: &str) -> (r: Result<(), Diagnostic>)
        requires
            old(self).wf(),
        ensures
            final(self).wf(),
            final(self).toks() == old(self).toks(),
            match r {
                Ok(_) => spec_expect_keyword(old(self).toks(), old(self).idx(), kw@) == Ok::<
                    _,
                    SpecDiagnostic,
                >(final(self).idx()) && final(self).idx() == old(self).idx() + 1,
                Err(d) => spec_expect_keyword(old(self).toks(), old(self).idx(), kw@) == Err::<
                    int,
                    _,
                >(d@) && final(self).idx() == old(self).idx(),
            },
    {
        if self.at_end() {
            Err(self.eof_diag())
        } else if self.at_keyword(kw) {
            self.next();
            Ok(())
        } else {
            Err(self.unexpected_token_diag(kw))
        }
    }

    /// A name token, consumed only when present.
    fn parse_name_maybe(&mut self) -> (r: Result<Option<Name>, Diagnostic>)
        requires
            old(self).wf(),
        ensures
            final(self).wf(),
            final(self).toks() == old(self).toks(),
            old(self).idx() <= final(self).idx() <= final(self).toks().len(),
            match r {
                Ok(n) => spec_parse_name_maybe(old(self).toks(), old(self).idx()) == Ok::<
                    _,
                    SpecDiagnostic,
                >((crate::parser::types::view_opt_name(n), final(self).idx())) && (n matches Some(
                    _,
                ) ==> final(self).idx() == old(self).idx() + 1) && (n is None ==> final(self).idx()
                    == old(self).idx()),
                Err(d) => spec_parse_name_maybe(old(self).toks(), old(self).idx()) == Err::<
                    (Option<SpecName>, int),
                    _,
                >(d@),
            },
    {
        let position = self.get_current_position();
        if self.at_end() {
            return Err(self.eof_diag());
        }
        match self.current_name_value() {
            Some(name) => {
                if crate::helpers::is_valid_name(&name) {
                    self.next();
                    Ok(Some(Name { value: name, position }))
                } else {
                    Err(
                        Diagnostic::new(
                            DiagnosticSeverity::Error,
                            String::from_str("Invalid name"),
                            position,
                        ),
                    )
                }
            },
            None => Ok(None),
        }
    }

    /// A required name token.
    fn parse_name(&mut self) -> (r: Result<Name, Diagnostic>)
        requires
            old(self).wf(),
        ensures
            final(self).wf(),
            final(self).toks() == old(self).toks(),
            old(self).idx() <= final(self).idx() <= final(self).toks().len(),
            match r {
                Ok(n) => spec_parse_name(old(self).toks(), old(self).idx()) == Ok::<
                    _,
                    SpecDiagnostic,
                >((n@, final(self).idx())) && final(self).idx() == old(self).idx() + 1,
                Err(d) => spec_parse_name(old(self).toks(), old(self).idx()) == Err::<
                    (SpecName, int),
                    _,
                >(d@),
            },
    {
        match self.parse_name_maybe() {
            Ok(Some(n)) => Ok(n),
            Ok(None) => Err(
                Diagnostic::new(
                    DiagnosticSeverity::Error,
                    String::from_str("Expected Name"),
                    self.get_current_position(),
                ),
            ),
            Err(d) => Err(d),
        }
    }

    /// A named type: a single name.
    fn parse_named_type(&mut self) -> (r: Result<NamedType, Diagnostic>)
        requires
            old(self).wf(),
        ensures
            final(self).wf(),
            final(self).toks() == old(self).toks(),
            old(self).idx() <= final(self).idx() <= final(self).toks().len(),
            match r {
                Ok(nt) => spec_parse_named_type(old(self).toks(), old(self).idx()) == Ok::<
                    _,
                    SpecDiagnostic,
                >((nt@, final(self).idx())) && final(self).idx() == old(self).idx() + 1,
                Err(d) => spec_parse_named_type(old(self).toks(), old(self).idx()) == Err::<
                    (SpecNamedType, int),
                    _,
                >(d@),
            },
    {
        let start_position = self.get_current_position();
        match self.parse_name() {
            Ok(name) => {
                let end = self.get_current_position();
                Ok(NamedType { name, position: Range::new(start_position.start, end.end) })
            },
            Err(d) => Err(d),
        }
    }

    /// A type condition: the keyword `on` followed by a named type.
    fn parse_type_condition(&mut self) -> (r: Result<NamedType, Diagnostic>)
        requires
            old(self).wf(),
        ensures
            final(self).wf(),
            final(self).toks() == old(self).toks(),
            old(self).idx() <= final(self).idx() <= final(self).toks().len(),
            match r {
                Ok(nt) => spec_parse_type_condition(old(self).toks(), old(self).idx()) == Ok::<
                    _,
                    SpecDiagnostic,
                >((nt@, final(self).idx())) && old(self).idx() < final(self).idx(),
                Err(d) => spec_parse_type_condition(old(self).toks(), old(self).idx()) == Err::<
                    (SpecNamedType, int),
                    _,
                >(d@),
            },
    {
        let start_position = self.get_current_position();
        match self.expect_keyword("on") {
            Ok(_) => {},
            Err(d) => {
                return Err(d);
            },
        }
        match self.parse_name() {
            Ok(name) => {
                let end = self.get_current_position();
                Ok(NamedType { name, position: Range::new(start_position.start, end.end) })
            },
            Err(d) => Err(d),
        }
    }
}

proof fn lemma_view_values_push(s: Seq<Value>, x: Value)
    ensures
        crate::parser::types::view_values(s.push(x)) == crate::parser::types::view_values(s).push(
            crate::parser::types::view_value(x),
        ),
{
    assert(s.push(x).subrange(0, s.push(x).len() - 1) =~= s);
}

proof fn lemma_view_object_fields_push(s: Seq<ObjectField>, x: ObjectField)
    ensures
        crate::parser::types::view_object_fields(s.push(x))
            == crate::parser::types::view_object_fields(s).push(
            SpecObjectField {
                name: x.name@,
                value: crate::parser::types::view_value(x.value),
                position: x.position@,
            },
        ),
{
    assert(s.push(x).subrange(0, s.push(x).len() - 1) =~= s);
}

proof fn lemma_view_selections_push(s: Seq<Selection>, x: Selection)
    ensures
        crate::parser::types::view_selections(s.push(x))
            == crate::parser::types::view_selections(s).push(
            crate::parser::types::view_selection(x),
        ),
{
    assert(s.push(x).subrange(0, s.push(x).len() - 1) =~= s);
}

/// A copy of a token's kind, payload included.
fn copy_token_type(t: &LexicalTokenType) -> (r: LexicalTokenType)
    ensures
        r@ == t@,
{
    match t {
        LexicalTokenType::Punctuator(p) => LexicalTokenType::Punctuator(*p),
        LexicalTokenType::Name(s) => LexicalTokenType::Name(s.clone()),
        LexicalTokenType::IntValue(v) => LexicalTokenType::IntValue(*v),
        LexicalTokenType::FloatValue(s) => LexicalTokenType::FloatValue(s.clone()),
        LexicalTokenType::StringValue(s) => LexicalTokenType::StringValue(s.clone()),
        LexicalTokenType::EOF => LexicalTokenType::EOF,
    }
}

impl Parser {
    /// Zero or more directives `@name(args)`.
    fn parse_directives(&mut self) -> (r: Result<Vec<Directive>, Diagnostic>)
        requires
            old(self).wf(),
        ensures
            final(self).wf(),
            final(self).toks() == old(self).toks(),
            old(self).idx() <= final(self).idx() <= final(self).toks().len(),
            match r {
                Ok(v) => spec_parse_directives(old(self).toks(), old(self).idx()) == Ok::<
                    _,
                    SpecDiagnostic,
                >((v@.map_values(|d: Directive| d@), final(self).idx())),
                Err(d) => spec_parse_directives(old(self).toks(), old(self).idx()) == Err::<
                    (Seq<SpecDirective>, int),
                    _,
                >(d@),
            },
    {
        let ghost ts = self.toks();
        let ghost i0 = self.idx();
        let mut directives: Vec<Directive> = Vec::new();
        proof {
            assert(directives@.map_values(|d: Directive| d@) =~= Seq::<SpecDirective>::empty());
        }
        loop
            invariant
                self.wf(),
                self.toks() == ts,
                ts == old(self).toks(),
                i0 == old(self).idx(),
                i0 <= self.idx() <= ts.len(),
                spec_parse_directives(ts, i0) == spec_prepend(
                    directives@.map_values(|d: Directive| d@),
                    spec_parse_directives(ts, self.idx()),
                ),
            decreases ts.len() - self.idx(),
        {
            if self.at_end() {
                return Err(self.eof_diag());
            }
            if !self.at_punct(Punctuator::AtSign) {
                proof {
                    lemma_prepend_empty(directives@.map_values(|d: Directive| d@), self.idx());
                }
                return Ok(directives);
            }
            let start_position = self.get_current_position();
            self.next();
            let name = match self.parse_name() {
                Ok(n) => n,
                Err(d) => {
                    return Err(d);
                },
            };
            let arguments = match self.parse_arguments() {
                Ok(a) => a,
                Err(d) => {
                    return Err(d);
                },
            };
            let end = self.get_current_position();
            let directive = Directive {
                name,
                arguments,
                position: Range::new(start_position.start, end.end),
            };
            proof {
                lemma_view_map_push(directives@, directive);
                lemma_prepend_nest(
                    directives@.map_values(|d: Directive| d@),
                    directive@,
                    spec_parse_directives(ts, self.idx()),
                );
            }
            directives.push(directive);
        }
    }

    /// A parenthesised argument list; absent parentheses mean an empty one.
    fn parse_arguments(&mut self) -> (r: Result<Vec<Argument>, Diagnostic>)
        requires
            old(self).wf(),
        ensures
            final(self).wf(),
            final(self).toks() == old(self).toks(),
            old(self).idx() <= final(self).idx() <= final(self).toks().len(),
            match r {
                Ok(v) => spec_parse_arguments(old(self).toks(), old(self).idx()) == Ok::<
                    _,
                    SpecDiagnostic,
                >((v@.map_values(|a: Argument| a@), final(self).idx())),
                Err(d) => spec_parse_arguments(old(self).toks(), old(self).idx()) == Err::<
                    (Seq<SpecArgument>, int),
                    _,
                >(d@),
            },
    {
        let ghost ts = self.toks();
        let ghost i0 = self.idx();
        let mut arguments: Vec<Argument> = Vec::new();
        proof {
            assert(arguments@.map_values(|a: Argument| a@) =~= Seq::<SpecArgument>::empty());
        }
        if self.at_end() {
            return Err(self.eof_diag());
        }
        if !self.at_punct(Punctuator::LeftParenthesis) {
            return Ok(arguments);
        }
        self.next();
        loop
            invariant
                self.wf(),
                self.toks() == ts,
                ts == old(self).toks(),
                i0 == old(self).idx(),
                i0 < self.idx() <= ts.len(),
                spec_parse_arguments(ts, i0) == spec_prepend(
                    arguments@.map_values(|a: Argument| a@),
                    spec_parse_args_loop(ts, self.idx()),
                ),
            decreases ts.len() - self.idx(),
        {
            if self.at_end() {
                return Err(self.eof_diag());
            }
            if self.at_punct(Punctuator::RightParenthesis) {
                self.next();
                proof {
                    lemma_prepend_empty(arguments@.map_values(|a: Argument| a@), self.idx());
                }
                return Ok(arguments);
            }
            let argument = match self.parse_argument() {
                Ok(a) => a,
                Err(d) => {
                    return Err(d);
                },
            };
            proof {
                lemma_view_map_push(arguments@, argument);
                lemma_prepend_nest(
                    arguments@.map_values(|a: Argument| a@),
                    argument@,
                    spec_parse_args_loop(ts, self.idx()),
                );
            }
            arguments.push(argument);
        }
    }

    /// One `name: value` argument.
    fn parse_argument(&mut self) -> (r: Result<Argument, Diagnostic>)
        requires
            old(self).wf(),
        ensures
            final(self).wf(),
            final(self).toks() == old(self).toks(),
            old(self).idx() <= final(self).idx() <= final(self).toks().len(),
            match r {
                Ok(a) => spec_parse_argument(old(self).toks(), old(self).idx()) == Ok::<
                    _,
                    SpecDiagnostic,
                >((a@, final(self).idx())) && old(self).idx() < final(self).idx(),
                Err(d) => spec_parse_argument(old(self).toks(), old(self).idx()) == Err::<
                    (SpecArgument, int),
                    _,
                >(d@),
            },
    {
        let start_position = self.get_current_position();
        let name = match self.parse_name() {
            Ok(n) => n,
            Err(d) => {
                return Err(d);
            },
        };
        match self.expect_punct(Punctuator::Colon) {
            Ok(_) => {},
            Err(d) => {
                return Err(d);
            },
        }
        let value = match self.parse_value() {
            Ok(v) => v,
            Err(d) => {
                return Err(d);
            },
        };
        let end = self.get_current_position();
        Ok(Argument { name, value, position: Range::new(start_position.start, end.end) })
    }

    /// One input value.
    fn parse_value(&mut self) -> (r: Result<Value, Diagnostic>)
        requires
            old(self).wf(),
        ensures
            final(self).wf(),
            final(self).toks() == old(self).toks(),
            old(self).idx() <= final(self).idx() <= final(self).toks().len(),
            match r {
                Ok(v) => spec_parse_value(old(self).toks(), old(self).idx()) == Ok::<
                    _,
                    SpecDiagnostic,
                >((v@, final(self).idx())) && old(self).idx() < final(self).idx(),
                Err(d) => spec_parse_value(old(self).toks(), old(self).idx()) == Err::<
                    (SpecValue, int),
                    _,
                >(d@),
            },
        decreases old(self).toks().len() - old(self).idx(), 2int,
    {
        if self.at_end() {
            return Err(self.eof_diag());
        }
        let position = self.get_current_position();
        let tt = copy_token_type(&self.tokens[self.ptr].token_type);
        proof {
            assert(tt@ == old(self).toks()[old(self).idx()].token_type);
        }
        match tt {
            LexicalTokenType::IntValue(value) => {
                self.next();
                Ok(Value::IntValue(IntValue { value, position }))
            },
            LexicalTokenType::FloatValue(value) => {
                self.next();
                Ok(Value::FloatValue(FloatValue { value, position }))
            },
            LexicalTokenType::StringValue(value) => {
                self.next();
                Ok(Value::StringValue(StringValue { value, block: false, position }))
            },
            LexicalTokenType::Name(name) => {
                if str_eq(name.as_str(), "true") {
                    self.next();
                    Ok(Value::BooleanValue(BooleanValue { value: true, position }))
                } else if str_eq(name.as_str(), "false") {
                    self.next();
                    Ok(Value::BooleanValue(BooleanValue { value: false, position }))
                } else if str_eq(name.as_str(), "null") {
                    self.next();
                    Ok(Value::NullValue(NullValue { position }))
                } else {
                    self.next();
                    Ok(Value::EnumValue(EnumValue { value: name, position }))
                }
            },
            LexicalTokenType::Punctuator(Punctuator::LeftBracket) => self.parse_list_value(),
            LexicalTokenType::Punctuator(Punctuator::LeftBrace) => self.parse_object_value(),
            LexicalTokenType::Punctuator(Punctuator::DollarSign) => {
                self.next();
                match self.parse_name() {
                    Ok(name) => Ok(Value::Variable(Variable { name, position })),
                    Err(d) => Err(d),
                }
            },
            _ => Err(self.error_here("Expected Value")),
        }
    }

    /// A bracketed list value; the cursor stands on the `[`.
    fn parse_list_value(&mut self) -> (r: Result<Value, Diagnostic>)
        requires
            old(self).wf(),
            spec_at_punct(old(self).toks(), old(self).idx(), Punctuator::LeftBracket),
        ensures
            final(self).wf(),
            final(self).toks() == old(self).toks(),
            old(self).idx() <= final(self).idx() <= final(self).toks().len(),
            match r {
                Ok(v) => spec_parse_list_value(old(self).toks(), old(self).idx()) == Ok::<
                    _,
                    SpecDiagnostic,
                >((v@, final(self).idx())) && old(self).idx() < final(self).idx(),
                Err(d) => spec_parse_list_value(old(self).toks(), old(self).idx()) == Err::<
                    (SpecValue, int),
                    _,
                >(d@),
            },
        decreases old(self).toks().len() - old(self).idx(), 1int,
    {
        let ghost ts = self.toks();
        let ghost i0 = self.idx();
        let start_position = self.get_current_position();
        self.next();
        let mut values: Vec<Value> = Vec::new();
        loop
            invariant
                self.wf(),
                self.toks() == ts,
                ts == old(self).toks(),
                i0 == old(self).idx(),
                i0 < self.idx() <= ts.len(),
                start_position@ == spec_cur_range(ts, i0),
                spec_parse_values_loop(ts, i0 + 1) == spec_prepend(
                    crate::parser::types::view_values(values@),
                    spec_parse_values_loop(ts, self.idx()),
                ),
            decreases ts.len() - self.idx(),
        {
            if self.at_end() {
                return Err(self.eof_diag());
            }
            if self.at_punct(Punctuator::RightBracket) {
                self.next();
                let end = self.get_current_position();
                proof {
                    lemma_prepend_empty(crate::parser::types::view_values(values@), self.idx());
                }
                return Ok(
                    Value::ListValue(
                        ListValue {
                            values,
                            position: Range::new(start_position.start, end.end),
                        },
                    ),
                );
            }
            let value = match self.parse_value() {
                Ok(v) => v,
                Err(d) => {
                    return Err(d);
                },
            };
            proof {
                lemma_view_values_push(values@, value);
                lemma_prepend_nest(
                    crate::parser::types::view_values(values@),
                    crate::parser::types::view_value(value),
                    spec_parse_values_loop(ts, self.idx()),
                );
            }
            values.push(value);
        }
    }

    /// A braced object value; the cursor stands on the `{`.
    fn parse_object_value(&mut self) -> (r: Result<Value, Diagnostic>)
        requires
            old(self).wf(),
            spec_at_punct(old(self).toks(), old(self).idx(), Punctuator::LeftBrace),
        ensures
            final(self).wf(),
            final(self).toks() == old(self).toks(),
            old(self).idx() <= final(self).idx() <= final(self).toks().len(),
            match r {
                Ok(v) => spec_parse_object_value(old(self).toks(), old(self).idx()) == Ok::<
                    _,
                    SpecDiagnostic,
                >((v@, final(self).idx())) && old(self).idx() < final(self).idx(),
                Err(d) => spec_parse_object_value(old(self).toks(), old(self).idx()) == Err::<
                    (SpecValue, int),
                    _,
                >(d@),
            },
        decreases old(self).toks().len() - old(self).idx(), 1int,
    {
        let ghost ts = self.toks();
        let ghost i0 = self.idx();
        let start_position = self.get_current_position();
        self.next();
        let mut object_fields: Vec<ObjectField> = Vec::new();
        loop
            invariant
                self.wf(),
                self.toks() == ts,
                ts == old(self).toks(),
                i0 == old(self).idx(),
                i0 < self.idx() <= ts.len(),
                start_position@ == spec_cur_range(ts, i0),
                spec_parse_object_fields_loop(ts, i0 + 1) == spec_prepend(
                    crate::parser::types::view_object_fields(object_fields@),
                    spec_parse_object_fields_loop(ts, self.idx()),
                ),
            decreases ts.len() - self.idx(),
        {
            if self.at_end() {
                return Err(self.eof_diag());
            }
            if self.at_punct(Punctuator::RightBrace) {
                self.next();
                let end = self.get_current_position();
                proof {
                    lemma_prepend_empty(
                        crate::parser::types::view_object_fields(object_fields@),
                        self.idx(),
                    );
                }
                return Ok(
                    Value::ObjectValue(
                        ObjectValue {
                            fields: object_fields,
                            position: Range::new(start_position.start, end.end),
                        },
                    ),
                );
            }
            let object_field = match self.parse_object_field() {
                Ok(f) => f,
                Err(d) => {
                    return Err(d);
                },
            };
            proof {
                lemma_view_object_fields_push(object_fields@, object_field);
                lemma_prepend_nest(
                    crate::parser::types::view_object_fields(object_fields@),
                    object_field@,
                    spec_parse_object_fields_loop(ts, self.idx()),
                );
            }
            object_fields.push(object_field);
        }
    }

    /// One `name: value` field of an object value.
    fn parse_object_field(&mut self) -> (r: Result<ObjectField, Diagnostic>)
        requires
            old(self).wf(),
        ensures
            final(self).wf(),
            final(self).toks() == old(self).toks(),
            old(self).idx() <= final(self).idx() <= final(self).toks().len(),
            match r {
                Ok(f) => spec_parse_object_field(old(self).toks(), old(self).idx()) == Ok::<
                    _,
                    SpecDiagnostic,
                >((f@, final(self).idx())) && old(self).idx() < final(self).idx(),
                Err(d) => spec_parse_object_field(old(self).toks(), old(self).idx()) == Err::<
                    (SpecObjectField, int),
                    _,
                >(d@),
            },
        decreases old(self).toks().len() - old(self).idx(), 1int,
    {
        let start_position = self.get_current_position();
        let name = match self.parse_name() {
            Ok(n) => n,
            Err(d) => {
                return Err(d);
            },
        };
        match self.expect_punct(Punctuator::Colon) {
            Ok(_) => {},
            Err(d) => {
                return Err(d);
            },
        }
        let value = match self.parse_value() {
            Ok(v) => v,
            Err(d) => {
                return Err(d);
            },
        };
        let end = self.get_current_position();
        Ok(ObjectField { name, value, position: Range::new(start_position.start, end.end) })
    }

    /// A type reference.
    fn parse_type(&mut self) -> (r: Result<Type, Diagnostic>)
        requires
            old(self).wf(),
        ensures
            final(self).wf(),
            final(self).toks() == old(self).toks(),
            old(self).idx() <= final(self).idx() <= final(self).toks().len(),
            match r {
                Ok(t) => spec_parse_type(old(self).toks(), old(self).idx()) == Ok::<
                    _,
                    SpecDiagnostic,
                >((t@, final(self).idx())) && old(self).idx() < final(self).idx(),
                Err(d) => spec_parse_type(old(self).toks(), old(self).idx()) == Err::<
                    (SpecType, int),
                    _,
                >(d@),
            },
        decreases old(self).toks().len() - old(self).idx(), 2int,
    {
        if self.at_end() {
            return Err(self.eof_diag());
        }
        let start_position = self.get_current_position();
        if self.at_punct(Punctuator::LeftBracket) {
            let list_type = match self.parse_list_type() {
                Ok(t) => t,
                Err(d) => {
                    return Err(d);
                },
            };
            self.wrap_if_non_null(list_type)
        } else {
            let name = match self.parse_name() {
                Ok(n) => n,
                Err(d) => {
                    return Err(d);
                },
            };
            let end = self.get_current_position();
            let named = Type::NamedType(
                NamedType { name, position: Range::new(start_position.start, end.end) },
            );
            self.wrap_if_non_null(named)
        }
    }

    /// Wraps a finished type in a non-null marker when a `!` follows.
    fn wrap_if_non_null(&mut self, wrapped_type: Type) -> (r: Result<Type, Diagnostic>)
        requires
            old(self).wf(),
        ensures
            final(self).wf(),
            final(self).toks() == old(self).toks(),
            old(self).idx() <= final(self).idx() <= final(self).toks().len(),
            match r {
                Ok(t) => spec_wrap_if_non_null(old(self).toks(), old(self).idx(), wrapped_type@)
                    == Ok::<_, SpecDiagnostic>((t@, final(self).idx())),
                Err(d) => spec_wrap_if_non_null(old(self).toks(), old(self).idx(), wrapped_type@)
                    == Err::<(SpecType, int), _>(d@),
            },
    {
        let start_position = self.get_current_position();
        if self.at_end() {
            return Err(self.eof_diag());
        }
        if !self.at_punct(Punctuator::ExclamationMark) {
            return Ok(wrapped_type);
        }
        self.next();
        let end = self.get_current_position();
        Ok(
            Type::NonNullType(
                NonNullType {
                    wrapped_type: Box::new(wrapped_type),
                    position: Range::new(start_position.start, end.end),
                },
            ),
        )
    }

    /// A list type `[T]`; the cursor stands on the `[`.
    fn parse_list_type(&mut self) -> (r: Result<Type, Diagnostic>)
        requires
            old(self).wf(),
            spec_at_punct(old(self).toks(), old(self).idx(), Punctuator::LeftBracket),
        ensures
            final(self).wf(),
            final(self).toks() == old(self).toks(),
            old(self).idx() <= final(self).idx() <= final(self).toks().len(),
            match r {
                Ok(t) => spec_parse_list_type(old(self).toks(), old(self).idx()) == Ok::<
                    _,
                    SpecDiagnostic,
                >((t@, final(self).idx())) && old(self).idx() < final(self).idx(),
                Err(d) => spec_parse_list_type(old(self).toks(), old(self).idx()) == Err::<
                    (SpecType, int),
                    _,
                >(d@),
            },
        decreases old(self).toks().len() - old(self).idx(), 1int,
    {
        let start_position = self.get_current_position();
        self.next();
        let wrapped_type = match self.parse_type() {
            Ok(t) => t,
            Err(d) => {
                return Err(d);
            },
        };
        if self.at_end() {
            return Err(self.eof_diag());
        }
        if !self.at_punct(Punctuator::RightBracket) {
            return Err(self.error_here("Expected \"]\""));
        }
        self.next();
        let end = self.get_current_position();
        Ok(
            Type::ListType(
                ListType {
                    wrapped_type: Box::new(wrapped_type),
                    position: Range::new(start_position.start, end.end),
                },
            ),
        )
    }

    /// The parenthesised variable list of an operation; absent parentheses
    /// mean an empty one.
    fn parse_variable_definitions(&mut self) -> (r: Result<Vec<VariableDefinition>, Diagnostic>)
        requires
            old(self).wf(),
        ensures
            final(self).wf(),
            final(self).toks() == old(self).toks(),
            old(self).idx() <= final(self).idx() <= final(self).toks().len(),
            match r {
                Ok(v) => spec_parse_variable_definitions(old(self).toks(), old(self).idx()) == Ok::<
                    _,
                    SpecDiagnostic,
                >((v@.map_values(|x: VariableDefinition| x@), final(self).idx())),
                Err(d) => spec_parse_variable_definitions(old(self).toks(), old(self).idx())
                    == Err::<(Seq<SpecVariableDefinition>, int), _>(d@),
            },
    {
        let ghost ts = self.toks();
        let ghost i0 = self.idx();
        let mut variable_definitions: Vec<VariableDefinition> = Vec::new();
        proof {
            assert(variable_definitions@.map_values(|x: VariableDefinition| x@)
                =~= Seq::<SpecVariableDefinition>::empty());
        }
        if self.at_end() {
            return Err(self.eof_diag());
        }
        if !self.at_punct(Punctuator::LeftParenthesis) {
            return Ok(variable_definitions);
        }
        self.next();
        loop
            invariant
                self.wf(),
                self.toks() == ts,
                ts == old(self).toks(),
                i0 == old(self).idx(),
                i0 < self.idx() <= ts.len(),
                spec_parse_variable_definitions(ts, i0) == spec_prepend(
                    variable_definitions@.map_values(|x: VariableDefinition| x@),
                    spec_parse_var_defs_loop(ts, self.idx()),
                ),
            decreases ts.len() - self.idx(),
        {
            if self.at_end() {
                return Err(self.eof_diag());
            }
            if self.at_punct(Punctuator::RightParenthesis) {
                self.next();
                proof {
                    lemma_prepend_empty(
                        variable_definitions@.map_values(|x: VariableDefinition| x@),
                        self.idx(),
                    );
                }
                return Ok(variable_definitions);
            }
            let variable_definition = match self.parse_variable_definition() {
                Ok(v) => v,
                Err(d) => {
                    return Err(d);
                },
            };
            proof {
                lemma_view_map_push(variable_definitions@, variable_definition);
                lemma_prepend_nest(
                    variable_definitions@.map_values(|x: VariableDefinition| x@),
                    variable_definition@,
                    spec_parse_var_defs_loop(ts, self.idx()),
                );
            }
            variable_definitions.push(variable_definition);
        }
    }

    /// One `$name: Type = default` variable definition.
    fn parse_variable_definition(&mut self) -> (r: Result<VariableDefinition, Diagnostic>)
        requires
            old(self).wf(),
        ensures
            final(self).wf(),
            final(self).toks() == old(self).toks(),
            old(self).idx() <= final(self).idx() <= final(self).toks().len(),
            match r {
                Ok(v) => spec_parse_variable_definition(old(self).toks(), old(self).idx()) == Ok::<
                    _,
                    SpecDiagnostic,
                >((v@, final(self).idx())) && old(self).idx() < final(self).idx(),
                Err(d) => spec_parse_variable_definition(old(self).toks(), old(self).idx())
                    == Err::<(SpecVariableDefinition, int), _>(d@),
            },
    {
        if self.at_end() {
            return Err(self.eof_diag());
        }
        let position = self.get_current_position();
        if !self.at_punct(Punctuator::DollarSign) {
            return Err(self.error_here("Expected \"$\""));
        }
        self.next();
        let name = match self.parse_name() {
            Ok(n) => n,
            Err(d) => {
                return Err(d);
            },
        };
        if self.at_end() {
            return Err(self.eof_diag());
        }
        if !self.at_punct(Punctuator::Colon) {
            return Err(self.error_here("Expected \":\""));
        }
        self.next();
        let variable_type = match self.parse_type() {
            Ok(t) => t,
            Err(d) => {
                return Err(d);
            },
        };
        if self.at_end() {
            return Err(self.eof_diag());
        }
        let mut default_value: Option<Value> = None;
        if self.at_punct(Punctuator::EqualSign) {
            self.next();
            default_value = match self.parse_value() {
                Ok(v) => Some(v),
                Err(d) => {
                    return Err(d);
                },
            };
        }
        let end = self.get_current_position();
        Ok(
            VariableDefinition {
                variable: Variable {
                    name,
                    position: Range::new(position.start, end.end),
                },
                variable_type,
                default_value,
                position: Range::new(position.start, end.end),
            },
        )
    }
}

impl Parser {
    /// The current token's string-literal text, when it is a string token.
    fn current_string_value(&self) -> (r: Option<String>)
        ensures
            match r {
                Some(v) => 0 <= self.idx() < self.toks().len() && self.toks()[self.idx()].token_type
                    == SpecTokenType::StringValue(v@),
                None => self.idx() >= self.toks().len() || !(self.toks()[self.idx()].token_type
                    matches SpecTokenType::StringValue(_)),
            },
    {
        if self.ptr < self.tokens.len() {
            match &self.tokens[self.ptr].token_type {
                LexicalTokenType::StringValue(s) => Some(s.clone()),
                _ => None,
            }
        } else {
            None
        }
    }

    /// A leading string literal read as a description; consumed only when
    /// present.
    fn parse_description(&mut self) -> (r: Option<StringValue>)
        requires
            old(self).wf(),
        ensures
            final(self).wf(),
            final(self).toks() == old(self).toks(),
            old(self).idx() <= final(self).idx() <= final(self).toks().len(),
            crate::parser::types::view_description(r) == spec_parse_description(
                old(self).toks(),
                old(self).idx(),
            ).0,
            final(self).idx() == spec_parse_description(old(self).toks(), old(self).idx()).1,
    {
        let position = self.get_current_position();
        match self.current_string_value() {
            Some(value) => {
                self.next();
                Some(StringValue { value, block: false, position })
            },
            None => None,
        }
    }

    /// A braced selection set.
    fn parse_selection_set(&mut self) -> (r: Result<SelectionSet, Diagnostic>)
        requires
            old(self).wf(),
        ensures
            final(self).wf(),
            final(self).toks() == old(self).toks(),
            old(self).idx() <= final(self).idx() <= final(self).toks().len(),
            match r {
                Ok(ss) => spec_parse_selection_set(old(self).toks(), old(self).idx()) == Ok::<
                    _,
                    SpecDiagnostic,
                >((ss@, final(self).idx())) && old(self).idx() < final(self).idx(),
                Err(d) => spec_parse_selection_set(old(self).toks(), old(self).idx()) == Err::<
                    (SpecSelectionSet, int),
                    _,
                >(d@),
            },
        decreases old(self).toks().len() - old(self).idx(), 1int,
    {
        let ghost ts = self.toks();
        let ghost i0 = self.idx();
        let position = self.get_current_position();
        match self.expect_punct(Punctuator::LeftBrace) {
            Ok(_) => {},
            Err(d) => {
                return Err(d);
            },
        }
        let mut selections: Vec<Selection> = Vec::new();
        loop
            invariant
                self.wf(),
                self.toks() == ts,
                ts == old(self).toks(),
                i0 == old(self).idx(),
                i0 < self.idx() <= ts.len(),
                position@ == spec_cur_range(ts, i0),
                spec_expect_punct(ts, i0, Punctuator::LeftBrace) == Ok::<_, SpecDiagnostic>(
                    i0 + 1,
                ),
                spec_parse_selections_loop(ts, i0 + 1) == spec_prepend(
                    crate::parser::types::view_selections(selections@),
                    spec_parse_selections_loop(ts, self.idx()),
                ),
            decreases ts.len() - self.idx(),
        {
            if self.at_end() {
                return Err(self.eof_diag());
            }
            if self.at_punct(Punctuator::RightBrace) {
                self.next();
                let end = self.get_current_position();
                proof {
                    lemma_prepend_empty(
                        crate::parser::types::view_selections(selections@),
                        self.idx(),
                    );
                }
                return Ok(
                    SelectionSet {
                        selections,
                        position: Range::new(position.start, end.end),
                    },
                );
            }
            let selection = match self.parse_selection() {
                Ok(se) => se,
                Err(d) => {
                    return Err(d);
                },
            };
            proof {
                lemma_view_selections_push(selections@, selection);
                lemma_prepend_nest(
                    crate::parser::types::view_selections(selections@),
                    crate::parser::types::view_selection(selection),
                    spec_parse_selections_loop(ts, self.idx()),
                );
            }
            selections.push(selection);
        }
    }

    /// One selection: a field, or `...` introducing a fragment spread or an
    /// inline fragment.
    fn parse_selection(&mut self) -> (r: Result<Selection, Diagnostic>)
        requires
            old(self).wf(),
        ensures
            final(self).wf(),
            final(self).toks() == old(self).toks(),
            old(self).idx() <= final(self).idx() <= final(self).toks().len(),
            match r {
                Ok(se) => spec_parse_selection(old(self).toks(), old(self).idx()) == Ok::<
                    _,
                    SpecDiagnostic,
                >((se@, final(self).idx())) && old(self).idx() < final(self).idx(),
                Err(d) => spec_parse_selection(old(self).toks(), old(self).idx()) == Err::<
                    (SpecSelection, int),
                    _,
                >(d@),
            },
        decreases old(self).toks().len() - old(self).idx(), 3int,
    {
        if self.at_end() {
            return Err(self.eof_diag());
        }
        let position = self.get_current_position();
        if self.at_punct(Punctuator::Ellipsis) {
            self.next();
            if self.at_end() {
                return Err(self.eof_diag());
            }
            match self.current_name_value() {
                Some(name) => {
                    if str_eq(name.as_str(), "on") {
                        match self.parse_inline_fragment() {
                            Ok(f) => Ok(Selection::InlineFragment(f)),
                            Err(d) => Err(d),
                        }
                    } else {
                        match self.parse_fragment_spread() {
                            Ok(f) => Ok(Selection::FragmentSpread(f)),
                            Err(d) => Err(d),
                        }
                    }
                },
                None => Err(self.error_here("Expected Fragment Spread or Inline Fragment")),
            }
        } else {
            match self.current_name_value() {
                Some(_) => {
                    let first = match self.parse_name_maybe() {
                        Ok(o) => o,
                        Err(d) => {
                            return Err(d);
                        },
                    };
                    let mut alias: Option<Name> = None;
                    let name: Name;
                    if self.at_punct(Punctuator::Colon) {
                        self.next();
                        alias = first;
                        name = match self.parse_name() {
                            Ok(n) => n,
                            Err(d) => {
                                return Err(d);
                            },
                        };
                    } else {
                        match first {
                            Some(n) => {
                                name = n;
                            },
                            None => {
                                return Err(self.error_here("Expected Name"));
                            },
                        }
                    }
                    let arguments = match self.parse_arguments() {
                        Ok(a) => a,
                        Err(d) => {
                            return Err(d);
                        },
                    };
                    let directives = match self.parse_directives() {
                        Ok(ds) => ds,
                        Err(d) => {
                            return Err(d);
                        },
                    };
                    let mut selection_set: Option<SelectionSet> = None;
                    if self.at_punct(Punctuator::LeftBrace) {
                        selection_set = match self.parse_selection_set() {
                            Ok(ss) => Some(ss),
                            Err(d) => {
                                return Err(d);
                            },
                        };
                    } else if self.at_end() {
                        return Err(self.eof_diag());
                    }
                    let end = self.get_current_position();
                    Ok(
                        Selection::Field(
                            Field {
                                alias,
                                name,
                                arguments,
                                directives,
                                selection_set,
                                position: Range::new(position.start, end.end),
                            },
                        ),
                    )
                },
                None => Err(self.error_here("Expected Selection")),
            }
        }
    }

    /// A fragment spread `...Name @directives` (the `...` is already
    /// consumed).
    fn parse_fragment_spread(&mut self) -> (r: Result<FragmentSpread, Diagnostic>)
        requires
            old(self).wf(),
        ensures
            final(self).wf(),
            final(self).toks() == old(self).toks(),
            old(self).idx() <= final(self).idx() <= final(self).toks().len(),
            match r {
                Ok(f) => spec_parse_fragment_spread(old(self).toks(), old(self).idx()) == Ok::<
                    _,
                    SpecDiagnostic,
                >((f@, final(self).idx())) && old(self).idx() < final(self).idx(),
                Err(d) => spec_parse_fragment_spread(old(self).toks(), old(self).idx()) == Err::<
                    (SpecFragmentSpread, int),
                    _,
                >(d@),
            },
    {
        let position = self.get_current_position();
        let name = match self.parse_name() {
            Ok(n) => n,
            Err(d) => {
                return Err(d);
            },
        };
        let directives = match self.parse_directives() {
            Ok(ds) => ds,
            Err(d) => {
                return Err(d);
            },
        };
        let end = self.get_current_position();
        Ok(
            FragmentSpread {
                name,
                directives,
                position: Range::new(position.start, end.end),
            },
        )
    }

    /// An inline fragment `... on Type @directives { selections }` (the
    /// `...` is already consumed; the type condition is optional).
    fn parse_inline_fragment(&mut self) -> (r: Result<InlineFragment, Diagnostic>)
        requires
            old(self).wf(),
        ensures
            final(self).wf(),
            final(self).toks() == old(self).toks(),
            old(self).idx() <= final(self).idx() <= final(self).toks().len(),
            match r {
                Ok(f) => spec_parse_inline_fragment(old(self).toks(), old(self).idx()) == Ok::<
                    _,
                    SpecDiagnostic,
                >((f@, final(self).idx())) && old(self).idx() < final(self).idx(),
                Err(d) => spec_parse_inline_fragment(old(self).toks(), old(self).idx()) == Err::<
                    (SpecInlineFragment, int),
                    _,
                >(d@),
            },
        decreases old(self).toks().len() - old(self).idx(), 2int,
    {
        if self.at_end() {
            return Err(self.eof_diag());
        }
        let position = self.get_current_position();
        let mut type_condition: Option<NamedType> = None;
        if self.at_keyword("on") {
            type_condition = match self.parse_type_condition() {
                Ok(tc) => Some(tc),
                Err(d) => {
                    return Err(d);
                },
            };
        }
        let directives = match self.parse_directives() {
            Ok(ds) => ds,
            Err(d) => {
                return Err(d);
            },
        };
        let selection_set = match self.parse_selection_set() {
            Ok(ss) => ss,
            Err(d) => {
                return Err(d);
            },
        };
        let end = self.get_current_position();
        Ok(
            InlineFragment {
                type_condition,
                directives,
                selection_set,
                position: Range::new(position.start, end.end),
            },
        )
    }

    /// An operation definition; a named operation's leading keyword stands
    /// at the cursor and is consumed first.
    fn parse_operation_definition(
        &mut self,
        operation_type: OperationType,
        anonymous: bool,
    ) -> (r: Result<OperationDefinition, Diagnostic>)
        requires
            old(self).wf(),
            !anonymous ==> old(self).idx() < old(self).toks().len(),
        ensures
            final(self).wf(),
            final(self).toks() == old(self).toks(),
            old(self).idx() <= final(self).idx() <= final(self).toks().len(),
            match r {
                Ok(o) => spec_parse_operation_definition(
                    old(self).toks(),
                    old(self).idx(),
                    operation_type,
                    anonymous,
                ) == Ok::<_, SpecDiagnostic>((o@, final(self).idx())) && old(self).idx()
                    < final(self).idx(),
                Err(d) => spec_parse_operation_definition(
                    old(self).toks(),
                    old(self).idx(),
                    operation_type,
                    anonymous,
                ) == Err::<(SpecOperationDefinition, int), _>(d@),
            },
    {
        proof {
            assert(self.toks().len() == self.tokens@.len());
        }
        let start_position = self.get_current_position();
        if !anonymous {
            self.next();
        }
        let name = match self.parse_name_maybe() {
            Ok(n) => n,
            Err(d) => {
                return Err(d);
            },
        };
        let variable_definitions = match self.parse_variable_definitions() {
            Ok(v) => v,
            Err(d) => {
                return Err(d);
            },
        };
        let directives = match self.parse_directives() {
            Ok(ds) => ds,
            Err(d) => {
                return Err(d);
            },
        };
        let selection_set = match self.parse_selection_set() {
            Ok(ss) => ss,
            Err(d) => {
                return Err(d);
            },
        };
        let end = self.get_current_position();
        Ok(
            OperationDefinition {
                name,
                operation: operation_type,
                variable_definitions,
                directives,
                selection_set,
                anonymous,
                position: Range::new(start_position.start, end.end),
            },
        )
    }

    /// A fragment definition `fragment Name on Type @dirs { selections }`.
    fn parse_fragment_definition(&mut self) -> (r: Result<FragmentDefinition, Diagnostic>)
        requires
            old(self).wf(),
        ensures
            final(self).wf(),
            final(self).toks() == old(self).toks(),
            old(self).idx() <= final(self).idx() <= final(self).toks().len(),
            match r {
                Ok(f) => spec_parse_fragment_definition(old(self).toks(), old(self).idx()) == Ok::<
                    _,
                    SpecDiagnostic,
                >((f@, final(self).idx())) && old(self).idx() < final(self).idx(),
                Err(d) => spec_parse_fragment_definition(old(self).toks(), old(self).idx())
                    == Err::<(SpecFragmentDefinition, int), _>(d@),
            },
    {
        let start_position = self.get_current_position();
        match self.expect_keyword("fragment") {
            Ok(_) => {},
            Err(d) => {
                return Err(d);
            },
        }
        let name = match self.parse_name() {
            Ok(n) => n,
            Err(d) => {
                return Err(d);
            },
        };
        let type_condition = match self.parse_type_condition() {
            Ok(tc) => tc,
            Err(d) => {
                return Err(d);
            },
        };
        let directives = match self.parse_directives() {
            Ok(ds) => ds,
            Err(d) => {
                return Err(d);
            },
        };
        let selection_set = match self.parse_selection_set() {
            Ok(ss) => ss,
            Err(d) => {
                return Err(d);
            },
        };
        let end = self.get_current_position();
        Ok(
            FragmentDefinition {
                name,
                type_condition,
                directives,
                selection_set,
                position: Range::new(start_position.start, end.end),
            },
        )
    }
}

impl Parser {
    /// A `scalar Name @directives` definition.
    fn parse_scalar_type_definition(&mut self, description: Option<StringValue>) -> (r: Result<
        ScalarTypeDefinition,
        Diagnostic,
    >)
        requires
            old(self).wf(),
        ensures
            final(self).wf(),
            final(self).toks() == old(self).toks(),
            old(self).idx() <= final(self).idx() <= final(self).toks().len(),
            match r {
                Ok(d) => spec_parse_scalar_type_definition(
                    old(self).toks(),
                    old(self).idx(),
                    crate::parser::types::view_description(description),
                ) == Ok::<_, SpecDiagnostic>((d@, final(self).idx())) && old(self).idx()
                    < final(self).idx(),
                Err(d) => spec_parse_scalar_type_definition(
                    old(self).toks(),
                    old(self).idx(),
                    crate::parser::types::view_description(description),
                ) == Err::<(SpecScalarTypeDefinition, int), _>(d@),
            },
    {
        let start_position = self.get_current_position();
        match self.expect_keyword("scalar") {
            Ok(_) => {},
            Err(d) => {
                return Err(d);
            },
        }
        let name = match self.parse_name() {
            Ok(n) => n,
            Err(d) => {
                return Err(d);
            },
        };
        let directives = match self.parse_directives() {
            Ok(ds) => ds,
            Err(d) => {
                return Err(d);
            },
        };
        let end = self.get_current_position();
        Ok(
            ScalarTypeDefinition {
                name,
                description,
                directives,
                position: Range::new(start_position.start, end.end),
            },
        )
    }

    /// A `schema @directives { operation: NamedType ... }` definition.
    fn parse_schema_definition(&mut self, description: Option<StringValue>) -> (r: Result<
        SchemaDefinition,
        Diagnostic,
    >)
        requires
            old(self).wf(),
        ensures
            final(self).wf(),
            final(self).toks() == old(self).toks(),
            old(self).idx() <= final(self).idx() <= final(self).toks().len(),
            match r {
                Ok(d) => spec_parse_schema_definition(
                    old(self).toks(),
                    old(self).idx(),
                    crate::parser::types::view_description(description),
                ) == Ok::<_, SpecDiagnostic>((d@, final(self).idx())) && old(self).idx()
                    < final(self).idx(),
                Err(d) => spec_parse_schema_definition(
                    old(self).toks(),
                    old(self).idx(),
                    crate::parser::types::view_description(description),
                ) == Err::<(SpecSchemaDefinition, int), _>(d@),
            },
    {
        let ghost ts = self.toks();
        let ghost i0 = self.idx();
        let start_position = self.get_current_position();
        match self.expect_keyword("schema") {
            Ok(_) => {},
            Err(d) => {
                return Err(d);
            },
        }
        let directives = match self.parse_directives() {
            Ok(ds) => ds,
            Err(d) => {
                return Err(d);
            },
        };
        match self.expect_punct(Punctuator::LeftBrace) {
            Ok(_) => {},
            Err(d) => {
                return Err(d);
            },
        }
        let ghost j1 = self.idx() - 1;
        let mut operation_types: Vec<RootOperationTypeDefinition> = Vec::new();
        proof {
            assert(operation_types@.map_values(|x: RootOperationTypeDefinition| x@)
                =~= Seq::<SpecRootOperationTypeDefinition>::empty());
        }
        loop
            invariant
                self.wf(),
                self.toks() == ts,
                ts == old(self).toks(),
                i0 == old(self).idx(),
                i0 < self.idx() <= ts.len(),
                start_position@ == spec_cur_range(ts, i0),
                spec_parse_root_operation_types(ts, j1 + 1) == spec_prepend(
                    operation_types@.map_values(|x: RootOperationTypeDefinition| x@),
                    spec_parse_root_operation_types(ts, self.idx()),
                ),
                spec_parse_schema_definition(
                    ts,
                    i0,
                    crate::parser::types::view_description(description),
                ) == (match spec_parse_root_operation_types(ts, j1 + 1) {
                    Ok((ops, j2)) => Ok::<_, SpecDiagnostic>(
                        (
                            SpecSchemaDefinition {
                                description: crate::parser::types::view_description(description),
                                operation_types: ops,
                                directives: directives@.map_values(|d: Directive| d@),
                                position: spec_span(ts, i0, j2),
                            },
                            j2,
                        ),
                    ),
                    Err(e) => Err(e),
                }),
            decreases ts.len() - self.idx(),
        {
            if self.at_end() {
                return Err(self.eof_diag());
            }
            if self.at_punct(Punctuator::RightBrace) {
                self.next();
                let end = self.get_current_position();
                proof {
                    lemma_prepend_empty(
                        operation_types@.map_values(|x: RootOperationTypeDefinition| x@),
                        self.idx(),
                    );
                }
                return Ok(
                    SchemaDefinition {
                        description,
                        operation_types,
                        directives,
                        position: Range::new(start_position.start, end.end),
                    },
                );
            }
            let entry_start = self.get_current_position();
            let operation_type_name = match self.parse_name() {
                Ok(n) => n,
                Err(d) => {
                    return Err(d);
                },
            };
            let operation_type = match OperationType::parse(operation_type_name.value.as_str()) {
                Some(ot) => ot,
                None => {
                    return Err(
                        Diagnostic::new(
                            DiagnosticSeverity::Error,
                            String::from_str("Expected operation type"),
                            operation_type_name.position,
                        ),
                    );
                },
            };
            match self.expect_punct(Punctuator::Colon) {
                Ok(_) => {},
                Err(d) => {
                    return Err(d);
                },
            }
            let named_type = match self.parse_named_type() {
                Ok(nt) => nt,
                Err(d) => {
                    return Err(d);
                },
            };
            let entry_end = self.get_current_position();
            let entry = RootOperationTypeDefinition {
                operation_type,
                named_type,
                position: Range::new(entry_start.start, entry_end.end),
            };
            proof {
                lemma_view_map_push(operation_types@, entry);
                lemma_prepend_nest(
                    operation_types@.map_values(|x: RootOperationTypeDefinition| x@),
                    entry@,
                    spec_parse_root_operation_types(ts, self.idx()),
                );
            }
            operation_types.push(entry);
        }
    }

    /// The `implements A & B` clause; absent keyword means an empty list.
    fn parse_interfaces(&mut self) -> (r: Result<Vec<NamedType>, Diagnostic>)
        requires
            old(self).wf(),
        ensures
            final(self).wf(),
            final(self).toks() == old(self).toks(),
            old(self).idx() <= final(self).idx() <= final(self).toks().len(),
            match r {
                Ok(v) => spec_parse_interfaces(old(self).toks(), old(self).idx()) == Ok::<
                    _,
                    SpecDiagnostic,
                >((v@.map_values(|x: NamedType| x@), final(self).idx())),
                Err(d) => spec_parse_interfaces(old(self).toks(), old(self).idx()) == Err::<
                    (Seq<SpecNamedType>, int),
                    _,
                >(d@),
            },
    {
        let ghost ts = self.toks();
        let ghost i0 = self.idx();
        let mut interfaces: Vec<NamedType> = Vec::new();
        proof {
            assert(interfaces@.map_values(|x: NamedType| x@) =~= Seq::<SpecNamedType>::empty());
        }
        if !self.at_keyword("implements") {
            return Ok(interfaces);
        }
        self.next();
        loop
            invariant
                self.wf(),
                self.toks() == ts,
                ts == old(self).toks(),
                i0 == old(self).idx(),
                i0 < self.idx() <= ts.len(),
                spec_parse_interfaces(ts, i0) == spec_prepend(
                    interfaces@.map_values(|x: NamedType| x@),
                    spec_parse_interfaces_loop(ts, self.idx()),
                ),
            decreases ts.len() - self.idx(),
        {
            let named_type = match self.parse_named_type() {
                Ok(nt) => nt,
                Err(d) => {
                    return Err(d);
                },
            };
            if self.at_punct(Punctuator::Ampersand) {
                proof {
                    lemma_view_map_push(interfaces@, named_type);
                    lemma_prepend_nest(
                        interfaces@.map_values(|x: NamedType| x@),
                        named_type@,
                        spec_parse_interfaces_loop(ts, self.idx() + 1),
                    );
                }
                interfaces.push(named_type);
                self.next();
            } else {
                proof {
                    lemma_view_map_push(interfaces@, named_type);
                    assert(interfaces@.map_values(|x: NamedType| x@) + seq![named_type@]
                        =~= interfaces@.map_values(|x: NamedType| x@).push(named_type@));
                }
                interfaces.push(named_type);
                return Ok(interfaces);
            }
        }
    }

    /// A braced list of field definitions.
    fn parse_fields(&mut self) -> (r: Result<Vec<FieldDefinition>, Diagnostic>)
        requires
            old(self).wf(),
        ensures
            final(self).wf(),
            final(self).toks() == old(self).toks(),
            old(self).idx() <= final(self).idx() <= final(self).toks().len(),
            match r {
                Ok(v) => spec_parse_fields(old(self).toks(), old(self).idx()) == Ok::<
                    _,
                    SpecDiagnostic,
                >((v@.map_values(|x: FieldDefinition| x@), final(self).idx())) && old(self).idx()
                    < final(self).idx(),
                Err(d) => spec_parse_fields(old(self).toks(), old(self).idx()) == Err::<
                    (Seq<SpecFieldDefinition>, int),
                    _,
                >(d@),
            },
    {
        let ghost ts = self.toks();
        let ghost i0 = self.idx();
        match self.expect_punct(Punctuator::LeftBrace) {
            Ok(_) => {},
            Err(d) => {
                return Err(d);
            },
        }
        let mut fields: Vec<FieldDefinition> = Vec::new();
        proof {
            assert(fields@.map_values(|x: FieldDefinition| x@)
                =~= Seq::<SpecFieldDefinition>::empty());
        }
        loop
            invariant
                self.wf(),
                self.toks() == ts,
                ts == old(self).toks(),
                i0 == old(self).idx(),
                i0 < self.idx() <= ts.len(),
                spec_parse_fields(ts, i0) == spec_prepend(
                    fields@.map_values(|x: FieldDefinition| x@),
                    spec_parse_fields_loop(ts, self.idx()),
                ),
            decreases ts.len() - self.idx(),
        {
            if self.at_punct(Punctuator::RightBrace) {
                self.next();
                proof {
                    lemma_prepend_empty(fields@.map_values(|x: FieldDefinition| x@), self.idx());
                }
                return Ok(fields);
            }
            let field = match self.parse_field_definition() {
                Ok(f) => f,
                Err(d) => {
                    return Err(d);
                },
            };
            proof {
                lemma_view_map_push(fields@, field);
                lemma_prepend_nest(
                    fields@.map_values(|x: FieldDefinition| x@),
                    field@,
                    spec_parse_fields_loop(ts, self.idx()),
                );
            }
            fields.push(field);
        }
    }

    /// One field definition.
    fn parse_field_definition(&mut self) -> (r: Result<FieldDefinition, Diagnostic>)
        requires
            old(self).wf(),
        ensures
            final(self).wf(),
            final(self).toks() == old(self).toks(),
            old(self).idx() <= final(self).idx() <= final(self).toks().len(),
            match r {
                Ok(f) => spec_parse_field_definition(old(self).toks(), old(self).idx()) == Ok::<
                    _,
                    SpecDiagnostic,
                >((f@, final(self).idx())) && old(self).idx() < final(self).idx(),
                Err(d) => spec_parse_field_definition(old(self).toks(), old(self).idx()) == Err::<
                    (SpecFieldDefinition, int),
                    _,
                >(d@),
            },
    {
        let start_position = self.get_current_position();
        let description = self.parse_description();
        let name = match self.parse_name() {
            Ok(n) => n,
            Err(d) => {
                return Err(d);
            },
        };
        let arguments = match self.parse_field_arguments() {
            Ok(a) => a,
            Err(d) => {
                return Err(d);
            },
        };
        match self.expect_punct(Punctuator::Colon) {
            Ok(_) => {},
            Err(d) => {
                return Err(d);
            },
        }
        let field_type = match self.parse_type() {
            Ok(t) => t,
            Err(d) => {
                return Err(d);
            },
        };
        let directives = match self.parse_directives() {
            Ok(ds) => ds,
            Err(d) => {
                return Err(d);
            },
        };
        let end = self.get_current_position();
        Ok(
            FieldDefinition {
                description,
                name,
                arguments,
                field_type,
                directives,
                position: Range::new(start_position.start, end.end),
            },
        )
    }

    /// The parenthesised argument declarations of a field definition.
    fn parse_field_arguments(&mut self) -> (r: Result<Vec<InputValueDefinition>, Diagnostic>)
        requires
            old(self).wf(),
        ensures
            final(self).wf(),
            final(self).toks() == old(self).toks(),
            old(self).idx() <= final(self).idx() <= final(self).toks().len(),
            match r {
                Ok(v) => spec_parse_field_arguments(old(self).toks(), old(self).idx()) == Ok::<
                    _,
                    SpecDiagnostic,
                >((v@.map_values(|x: InputValueDefinition| x@), final(self).idx())),
                Err(d) => spec_parse_field_arguments(old(self).toks(), old(self).idx()) == Err::<
                    (Seq<SpecInputValueDefinition>, int),
                    _,
                >(d@),
            },
    {
        let ghost ts = self.toks();
        let ghost i0 = self.idx();
        let mut arguments: Vec<InputValueDefinition> = Vec::new();
        proof {
            assert(arguments@.map_values(|x: InputValueDefinition| x@)
                =~= Seq::<SpecInputValueDefinition>::empty());
        }
        if !self.at_punct(Punctuator::LeftParenthesis) {
            return Ok(arguments);
        }
        self.next();
        loop
            invariant
                self.wf(),
                self.toks() == ts,
                ts == old(self).toks(),
                i0 == old(self).idx(),
                i0 < self.idx() <= ts.len(),
                spec_parse_field_arguments(ts, i0) == spec_prepend(
                    arguments@.map_values(|x: InputValueDefinition| x@),
                    spec_parse_field_args_loop(ts, self.idx()),
                ),
            decreases ts.len() - self.idx(),
        {
            if self.at_punct(Punctuator::RightParenthesis) {
                self.next();
                proof {
                    lemma_prepend_empty(
                        arguments@.map_values(|x: InputValueDefinition| x@),
                        self.idx(),
                    );
                }
                return Ok(arguments);
            }
            let argument = match self.parse_input_value_definition() {
                Ok(a) => a,
                Err(d) => {
                    return Err(d);
                },
            };
            proof {
                lemma_view_map_push(arguments@, argument);
                lemma_prepend_nest(
                    arguments@.map_values(|x: InputValueDefinition| x@),
                    argument@,
                    spec_parse_field_args_loop(ts, self.idx()),
                );
            }
            arguments.push(argument);
        }
    }

    /// One input value definition.
    fn parse_input_value_definition(&mut self) -> (r: Result<InputValueDefinition, Diagnostic>)
        requires
            old(self).wf(),
        ensures
            final(self).wf(),
            final(self).toks() == old(self).toks(),
            old(self).idx() <= final(self).idx() <= final(self).toks().len(),
            match r {
                Ok(f) => spec_parse_input_value_definition(old(self).toks(), old(self).idx())
                    == Ok::<_, SpecDiagnostic>((f@, final(self).idx())) && old(self).idx()
                    < final(self).idx(),
                Err(d) => spec_parse_input_value_definition(old(self).toks(), old(self).idx())
                    == Err::<(SpecInputValueDefinition, int), _>(d@),
            },
    {
        let start_position = self.get_current_position();
        let description = self.parse_description();
        let name = match self.parse_name() {
            Ok(n) => n,
            Err(d) => {
                return Err(d);
            },
        };
        match self.expect_punct(Punctuator::Colon) {
            Ok(_) => {},
            Err(d) => {
                return Err(d);
            },
        }
        let input_type = match self.parse_type() {
            Ok(t) => t,
            Err(d) => {
                return Err(d);
            },
        };
        let default_value = match self.parse_default_value() {
            Ok(v) => v,
            Err(d) => {
                return Err(d);
            },
        };
        let directives = match self.parse_directives() {
            Ok(ds) => ds,
            Err(d) => {
                return Err(d);
            },
        };
        let end = self.get_current_position();
        Ok(
            InputValueDefinition {
                description,
                name,
                input_type,
                default_value,
                directives,
                position: Range::new(start_position.start, end.end),
            },
        )
    }

    /// A default value, present only after an equals sign.
    fn parse_default_value(&mut self) -> (r: Result<Option<Value>, Diagnostic>)
        requires
            old(self).wf(),
        ensures
            final(self).wf(),
            final(self).toks() == old(self).toks(),
            old(self).idx() <= final(self).idx() <= final(self).toks().len(),
            match r {
                Ok(v) => spec_parse_default_value(old(self).toks(), old(self).idx()) == Ok::<
                    _,
                    SpecDiagnostic,
                >((
                    match v {
                        Some(x) => Some(crate::parser::types::view_value(x)),
                        None => None,
                    },
                    final(self).idx(),
                )),
                Err(d) => spec_parse_default_value(old(self).toks(), old(self).idx()) == Err::<
                    (Option<SpecValue>, int),
                    _,
                >(d@),
            },
    {
        if !self.at_punct(Punctuator::EqualSign) {
            return Ok(None);
        }
        self.next();
        match self.parse_value() {
            Ok(v) => Ok(Some(v)),
            Err(d) => Err(d),
        }
    }
}

impl Parser {
    /// A `type Name implements ... @directives { fields }` definition.
    fn parse_object_type_definition(&mut self, description: Option<StringValue>) -> (r: Result<
        ObjectTypeDefinition,
        Diagnostic,
    >)
        requires
            old(self).wf(),
        ensures
            final(self).wf(),
            final(self).toks() == old(self).toks(),
            old(self).idx() <= final(self).idx() <= final(self).toks().len(),
            match r {
                Ok(d) => spec_parse_object_type_definition(
                    old(self).toks(),
                    old(self).idx(),
                    crate::parser::types::view_description(description),
                ) == Ok::<_, SpecDiagnostic>((d@, final(self).idx())) && old(self).idx()
                    < final(self).idx(),
                Err(d) => spec_parse_object_type_definition(
                    old(self).toks(),
                    old(self).idx(),
                    crate::parser::types::view_description(description),
                ) == Err::<(SpecObjectTypeDefinition, int), _>(d@),
            },
    {
        let start_position = self.get_current_position();
        match self.expect_keyword("type") {
            Ok(_) => {},
            Err(d) => {
                return Err(d);
            },
        }
        let name = match self.parse_name() {
            Ok(n) => n,
            Err(d) => {
                return Err(d);
            },
        };
        let interfaces = match self.parse_interfaces() {
            Ok(v) => v,
            Err(d) => {
                return Err(d);
            },
        };
        let directives = match self.parse_directives() {
            Ok(ds) => ds,
            Err(d) => {
                return Err(d);
            },
        };
        let fields = match self.parse_fields() {
            Ok(fs) => fs,
            Err(d) => {
                return Err(d);
            },
        };
        let end = self.get_current_position();
        Ok(
            ObjectTypeDefinition {
                name,
                description,
                interfaces,
                directives,
                fields,
                position: Range::new(start_position.start, end.end),
            },
        )
    }

    /// An `interface Name implements ... @directives { fields }` definition.
    fn parse_interface_type_definition(&mut self, description: Option<StringValue>) -> (r: Result<
        InterfaceTypeDefinition,
        Diagnostic,
    >)
        requires
            old(self).wf(),
        ensures
            final(self).wf(),
            final(self).toks() == old(self).toks(),
            old(self).idx() <= final(self).idx() <= final(self).toks().len(),
            match r {
                Ok(d) => spec_parse_interface_type_definition(
                    old(self).toks(),
                    old(self).idx(),
                    crate::parser::types::view_description(description),
                ) == Ok::<_, SpecDiagnostic>((d@, final(self).idx())) && old(self).idx()
                    < final(self).idx(),
                Err(d) => spec_parse_interface_type_definition(
                    old(self).toks(),
                    old(self).idx(),
                    crate::parser::types::view_description(description),
                ) == Err::<(SpecInterfaceTypeDefinition, int), _>(d@),
            },
    {
        let start_position = self.get_current_position();
        match self.expect_keyword("interface") {
            Ok(_) => {},
            Err(d) => {
                return Err(d);
            },
        }
        let name = match self.parse_name() {
            Ok(n) => n,
            Err(d) => {
                return Err(d);
            },
        };
        let interfaces = match self.parse_interfaces() {
            Ok(v) => v,
            Err(d) => {
                return Err(d);
            },
        };
        let directives = match self.parse_directives() {
            Ok(ds) => ds,
            Err(d) => {
                return Err(d);
            },
        };
        let fields = match self.parse_fields() {
            Ok(fs) => fs,
            Err(d) => {
                return Err(d);
            },
        };
        let end = self.get_current_position();
        Ok(
            InterfaceTypeDefinition {
                name,
                description,
                interfaces,
                directives,
                fields,
                position: Range::new(start_position.start, end.end),
            },
        )
    }

    /// A `union Name @directives = A | B` definition.
    fn parse_union_type_definition(&mut self, description: Option<StringValue>) -> (r: Result<
        UnionTypeDefinition,
        Diagnostic,
    >)
        requires
            old(self).wf(),
        ensures
            final(self).wf(),
            final(self).toks() == old(self).toks(),
            old(self).idx() <= final(self).idx() <= final(self).toks().len(),
            match r {
                Ok(d) => spec_parse_union_type_definition(
                    old(self).toks(),
                    old(self).idx(),
                    crate::parser::types::view_description(description),
                ) == Ok::<_, SpecDiagnostic>((d@, final(self).idx())) && old(self).idx()
                    < final(self).idx(),
                Err(d) => spec_parse_union_type_definition(
                    old(self).toks(),
                    old(self).idx(),
                    crate::parser::types::view_description(description),
                ) == Err::<(SpecUnionTypeDefinition, int), _>(d@),
            },
    {
        let start_position = self.get_current_position();
        match self.expect_keyword("union") {
            Ok(_) => {},
            Err(d) => {
                return Err(d);
            },
        }
        let name = match self.parse_name() {
            Ok(n) => n,
            Err(d) => {
                return Err(d);
            },
        };
        let directives = match self.parse_directives() {
            Ok(ds) => ds,
            Err(d) => {
                return Err(d);
            },
        };
        let member_types = match self.parse_union_member_types() {
            Ok(ms) => ms,
            Err(d) => {
                return Err(d);
            },
        };
        let end = self.get_current_position();
        Ok(
            UnionTypeDefinition {
                name,
                description,
                directives,
                member_types,
                position: Range::new(start_position.start, end.end),
            },
        )
    }

    /// The member list of a union: `= NamedType (| NamedType)*`.
    fn parse_union_member_types(&mut self) -> (r: Result<Vec<NamedType>, Diagnostic>)
        requires
            old(self).wf(),
        ensures
            final(self).wf(),
            final(self).toks() == old(self).toks(),
            old(self).idx() <= final(self).idx() <= final(self).toks().len(),
            match r {
                Ok(v) => spec_parse_union_member_types(old(self).toks(), old(self).idx()) == Ok::<
                    _,
                    SpecDiagnostic,
                >((v@.map_values(|x: NamedType| x@), final(self).idx())) && old(self).idx()
                    < final(self).idx(),
                Err(d) => spec_parse_union_member_types(old(self).toks(), old(self).idx())
                    == Err::<(Seq<SpecNamedType>, int), _>(d@),
            },
    {
        let ghost ts = self.toks();
        let ghost i0 = self.idx();
        let mut member_types: Vec<NamedType> = Vec::new();
        match self.expect_punct(Punctuator::EqualSign) {
            Ok(_) => {},
            Err(d) => {
                return Err(d);
            },
        }
        let first = match self.parse_named_type() {
            Ok(nt) => nt,
            Err(d) => {
                return Err(d);
            },
        };
        proof {
            assert(member_types@.map_values(|x: NamedType| x@) =~= Seq::<SpecNamedType>::empty());
            lemma_view_map_push(member_types@, first);
        }
        member_types.push(first);
        loop
            invariant
                self.wf(),
                self.toks() == ts,
                ts == old(self).toks(),
                i0 == old(self).idx(),
                i0 < self.idx() <= ts.len(),
                member_types@.len() > 0,
                spec_parse_union_member_types(ts, i0) == spec_prepend(
                    member_types@.map_values(|x: NamedType| x@),
                    spec_parse_union_members_rest(ts, self.idx()),
                ),
            decreases ts.len() - self.idx(),
        {
            if !self.at_punct(Punctuator::VerticalBar) {
                proof {
                    lemma_prepend_empty(
                        member_types@.map_values(|x: NamedType| x@),
                        self.idx(),
                    );
                }
                return Ok(member_types);
            }
            self.next();
            let named_type = match self.parse_named_type() {
                Ok(nt) => nt,
                Err(d) => {
                    return Err(d);
                },
            };
            proof {
                lemma_view_map_push(member_types@, named_type);
                lemma_prepend_nest(
                    member_types@.map_values(|x: NamedType| x@),
                    named_type@,
                    spec_parse_union_members_rest(ts, self.idx()),
                );
            }
            member_types.push(named_type);
        }
    }

    /// An `enum Name @directives { VALUES }` definition.
    fn parse_enum_type_definition(&mut self, description: Option<StringValue>) -> (r: Result<
        EnumTypeDefinition,
        Diagnostic,
    >)
        requires
            old(self).wf(),
        ensures
            final(self).wf(),
            final(self).toks() == old(self).toks(),
            old(self).idx() <= final(self).idx() <= final(self).toks().len(),
            match r {
                Ok(d) => spec_parse_enum_type_definition(
                    old(self).toks(),
                    old(self).idx(),
                    crate::parser::types::view_description(description),
                ) == Ok::<_, SpecDiagnostic>((d@, final(self).idx())) && old(self).idx()
                    < final(self).idx(),
                Err(d) => spec_parse_enum_type_definition(
                    old(self).toks(),
                    old(self).idx(),
                    crate::parser::types::view_description(description),
                ) == Err::<(SpecEnumTypeDefinition, int), _>(d@),
            },
    {
        let start_position = self.get_current_position();
        match self.expect_keyword("enum") {
            Ok(_) => {},
            Err(d) => {
                return Err(d);
            },
        }
        let name = match self.parse_name() {
            Ok(n) => n,
            Err(d) => {
                return Err(d);
            },
        };
        let directives = match self.parse_directives() {
            Ok(ds) => ds,
            Err(d) => {
                return Err(d);
            },
        };
        let values = match self.parse_enum_values() {
            Ok(vs) => vs,
            Err(d) => {
                return Err(d);
            },
        };
        let end = self.get_current_position();
        Ok(
            EnumTypeDefinition {
                name,
                description,
                directives,
                values,
                position: Range::new(start_position.start, end.end),
            },
        )
    }

    /// The braced value list of an enum definition: at least one value.
    fn parse_enum_values(&mut self) -> (r: Result<Vec<EnumValueDefinition>, Diagnostic>)
        requires
            old(self).wf(),
        ensures
            final(self).wf(),
            final(self).toks() == old(self).toks(),
            old(self).idx() <= final(self).idx() <= final(self).toks().len(),
            match r {
                Ok(v) => spec_parse_enum_values(old(self).toks(), old(self).idx()) == Ok::<
                    _,
                    SpecDiagnostic,
                >((v@.map_values(|x: EnumValueDefinition| x@), final(self).idx())) && old(
                    self,
                ).idx() < final(self).idx(),
                Err(d) => spec_parse_enum_values(old(self).toks(), old(self).idx()) == Err::<
                    (Seq<SpecEnumValueDefinition>, int),
                    _,
                >(d@),
            },
    {
        let ghost ts = self.toks();
        let ghost i0 = self.idx();
        let mut values: Vec<EnumValueDefinition> = Vec::new();
        match self.expect_punct(Punctuator::LeftBrace) {
            Ok(_) => {},
            Err(d) => {
                return Err(d);
            },
        }
        let first = match self.parse_enum_value_definition() {
            Ok(v) => v,
            Err(d) => {
                return Err(d);
            },
        };
        let ghost j0 = self.idx();
        let ghost rest_target = spec_parse_enum_values_loop(ts, j0);
        proof {
            assert(values@.map_values(|x: EnumValueDefinition| x@)
                =~= Seq::<SpecEnumValueDefinition>::empty());
            lemma_view_map_push(values@, first);
        }
        values.push(first);
        proof {
            assert(values@.map_values(|x: EnumValueDefinition| x@) =~= seq![first@]);
        }
        loop
            invariant
                self.wf(),
                self.toks() == ts,
                ts == old(self).toks(),
                i0 == old(self).idx(),
                i0 < j0 <= ts.len(),
                i0 < self.idx() <= ts.len(),
                spec_parse_enum_values_loop(ts, j0) == spec_prepend(
                    values@.map_values(|x: EnumValueDefinition| x@).subrange(
                        1,
                        values@.len() as int,
                    ),
                    spec_parse_enum_values_loop(ts, self.idx()),
                ),
                values@.len() >= 1,
                values@.map_values(|x: EnumValueDefinition| x@)[0] == first@,
                spec_parse_enum_values(ts, i0) == (match spec_parse_enum_values_loop(ts, j0) {
                    Ok((vs, j1)) => if i0 < j1 <= ts.len() {
                        match spec_expect_punct(ts, j1, Punctuator::RightBrace) {
                            Ok(_) => Ok::<_, SpecDiagnostic>((seq![first@] + vs, j1 + 1)),
                            Err(e) => Err(e),
                        }
                    } else {
                        Err(spec_stuck(ts, i0))
                    },
                    Err(e) => Err(e),
                }),
            decreases ts.len() - self.idx(),
        {
            if self.at_punct(Punctuator::RightBrace) {
                let ghost pre = values@.map_values(|x: EnumValueDefinition| x@);
                self.next();
                proof {
                    assert(spec_parse_enum_values_loop(ts, self.idx() - 1) == Ok::<
                        _,
                        SpecDiagnostic,
                    >((Seq::<SpecEnumValueDefinition>::empty(), self.idx() - 1)));
                    assert(pre.subrange(1, pre.len() as int) + Seq::<
                        SpecEnumValueDefinition,
                    >::empty() =~= pre.subrange(1, pre.len() as int));
                    assert(seq![first@] + pre.subrange(1, pre.len() as int) =~= pre);
                }
                return Ok(values);
            }
            let v = match self.parse_enum_value_definition() {
                Ok(v) => v,
                Err(d) => {
                    return Err(d);
                },
            };
            let ghost pre = values@.map_values(|x: EnumValueDefinition| x@);
            proof {
                lemma_view_map_push(values@, v);
                assert(pre.push(v@).subrange(1, pre.push(v@).len() as int) =~= pre.subrange(
                    1,
                    pre.len() as int,
                ).push(v@));
                lemma_prepend_nest(
                    pre.subrange(1, pre.len() as int),
                    v@,
                    spec_parse_enum_values_loop(ts, self.idx()),
                );
            }
            values.push(v);
        }
    }

    /// One enum value `"desc" NAME @directives`.
    fn parse_enum_value_definition(&mut self) -> (r: Result<EnumValueDefinition, Diagnostic>)
        requires
            old(self).wf(),
        ensures
            final(self).wf(),
            final(self).toks() == old(self).toks(),
            old(self).idx() <= final(self).idx() <= final(self).toks().len(),
            match r {
                Ok(v) => spec_parse_enum_value_definition(old(self).toks(), old(self).idx())
                    == Ok::<_, SpecDiagnostic>((v@, final(self).idx())) && old(self).idx()
                    < final(self).idx(),
                Err(d) => spec_parse_enum_value_definition(old(self).toks(), old(self).idx())
                    == Err::<(SpecEnumValueDefinition, int), _>(d@),
            },
    {
        let start_position = self.get_current_position();
        let description = self.parse_description();
        let name = match self.parse_name() {
            Ok(n) => n,
            Err(d) => {
                return Err(d);
            },
        };
        let directives = match self.parse_directives() {
            Ok(ds) => ds,
            Err(d) => {
                return Err(d);
            },
        };
        let end = self.get_current_position();
        Ok(
            EnumValueDefinition {
                description,
                name,
                directives,
                position: Range::new(start_position.start, end.end),
            },
        )
    }

    /// An `input Name @directives { fields }` definition.
    fn parse_input_object_type_definition(
        &mut self,
        description: Option<StringValue>,
    ) -> (r: Result<InputObjectTypeDefinition, Diagnostic>)
        requires
            old(self).wf(),
        ensures
            final(self).wf(),
            final(self).toks() == old(self).toks(),
            old(self).idx() <= final(self).idx() <= final(self).toks().len(),
            match r {
                Ok(d) => spec_parse_input_object_type_definition(
                    old(self).toks(),
                    old(self).idx(),
                    crate::parser::types::view_description(description),
                ) == Ok::<_, SpecDiagnostic>((d@, final(self).idx())) && old(self).idx()
                    < final(self).idx(),
                Err(d) => spec_parse_input_object_type_definition(
                    old(self).toks(),
                    old(self).idx(),
                    crate::parser::types::view_description(description),
                ) == Err::<(SpecInputObjectTypeDefinition, int), _>(d@),
            },
    {
        let start_position = self.get_current_position();
        match self.expect_keyword("input") {
            Ok(_) => {},
            Err(d) => {
                return Err(d);
            },
        }
        let name = match self.parse_name() {
            Ok(n) => n,
            Err(d) => {
                return Err(d);
            },
        };
        let directives = match self.parse_directives() {
            Ok(ds) => ds,
            Err(d) => {
                return Err(d);
            },
        };
        let fields = match self.parse_input_fields() {
            Ok(fs) => fs,
            Err(d) => {
                return Err(d);
            },
        };
        let end = self.get_current_position();
        Ok(
            InputObjectTypeDefinition {
                name,
                description,
                directives,
                fields,
                position: Range::new(start_position.start, end.end),
            },
        )
    }

    /// The braced field list of an input object definition.
    fn parse_input_fields(&mut self) -> (r: Result<Vec<InputValueDefinition>, Diagnostic>)
        requires
            old(self).wf(),
        ensures
            final(self).wf(),
            final(self).toks() == old(self).toks(),
            old(self).idx() <= final(self).idx() <= final(self).toks().len(),
            match r {
                Ok(v) => spec_parse_input_fields(old(self).toks(), old(self).idx()) == Ok::<
                    _,
                    SpecDiagnostic,
                >((v@.map_values(|x: InputValueDefinition| x@), final(self).idx())) && old(
                    self,
                ).idx() < final(self).idx(),
                Err(d) => spec_parse_input_fields(old(self).toks(), old(self).idx()) == Err::<
                    (Seq<SpecInputValueDefinition>, int),
                    _,
                >(d@),
            },
    {
        let ghost ts = self.toks();
        let ghost i0 = self.idx();
        let mut fields: Vec<InputValueDefinition> = Vec::new();
        match self.expect_punct(Punctuator::LeftBrace) {
            Ok(_) => {},
            Err(d) => {
                return Err(d);
            },
        }
        proof {
            assert(fields@.map_values(|x: InputValueDefinition| x@)
                =~= Seq::<SpecInputValueDefinition>::empty());
        }
        loop
            invariant
                self.wf(),
                self.toks() == ts,
                ts == old(self).toks(),
                i0 == old(self).idx(),
                i0 < self.idx() <= ts.len(),
                spec_expect_punct(ts, i0, Punctuator::LeftBrace) == Ok::<_, SpecDiagnostic>(
                    i0 + 1,
                ),
                spec_parse_input_fields_loop(ts, i0 + 1) == spec_prepend(
                    fields@.map_values(|x: InputValueDefinition| x@),
                    spec_parse_input_fields_loop(ts, self.idx()),
                ),
            decreases ts.len() - self.idx(),
        {
            if self.at_punct(Punctuator::RightBrace) {
                proof {
                    lemma_prepend_empty(
                        fields@.map_values(|x: InputValueDefinition| x@),
                        self.idx(),
                    );
                }
                self.next();
                return Ok(fields);
            }
            let field = match self.parse_input_value_definition() {
                Ok(f) => f,
                Err(d) => {
                    return Err(d);
                },
            };
            proof {
                lemma_view_map_push(fields@, field);
                lemma_prepend_nest(
                    fields@.map_values(|x: InputValueDefinition| x@),
                    field@,
                    spec_parse_input_fields_loop(ts, self.idx()),
                );
            }
            fields.push(field);
        }
    }

    /// One step of the top-level loop: `None` at the end of input, or the
    /// next definition.
    #[verifier::rlimit(100)]
    #[verifier::spinoff_prover]
    fn parse_one_definition(&mut self) -> (r: Result<Option<Definition>, Diagnostic>)
        requires
            old(self).wf(),
        ensures
            final(self).wf(),
            final(self).toks() == old(self).toks(),
            old(self).idx() <= final(self).idx() <= final(self).toks().len(),
            match r {
                Ok(None) => (old(self).idx() >= old(self).toks().len() || old(self).toks()[old(
                    self,
                ).idx()].token_type == SpecTokenType::EOF) && final(self).idx() == old(self).idx(),
                Ok(Some(def)) => spec_parse_next_definition(old(self).toks(), old(self).idx())
                    == Ok::<_, SpecDiagnostic>((def@, final(self).idx())) && old(self).idx()
                    < final(self).idx() && !(old(self).idx() >= old(self).toks().len() || old(
                    self,
                ).toks()[old(self).idx()].token_type == SpecTokenType::EOF),
                Err(d) => spec_parse_next_definition(old(self).toks(), old(self).idx()) == Err::<
                    (SpecDefinition, int),
                    _,
                >(d@) && !(old(self).idx() >= old(self).toks().len() || old(self).toks()[old(
                    self,
                ).idx()].token_type == SpecTokenType::EOF),
            },
    {
        if self.at_end() || self.at_eof_token() {
            return Ok(None);
        }
        if self.at_punct(Punctuator::LeftBrace) {
            let od = match self.parse_operation_definition(OperationType::Query, true) {
                Ok(o) => o,
                Err(d) => {
                    return Err(d);
                },
            };
            return Ok(Some(Definition::OperationDefinition(od)));
        }
        let op_kind: Option<OperationType> = match self.current_name_value() {
            Some(nv) => OperationType::parse(nv.as_str()),
            None => None,
        };
        match op_kind {
            Some(operation_type) => {
                let od = match self.parse_operation_definition(operation_type, false) {
                    Ok(o) => o,
                    Err(d) => {
                        return Err(d);
                    },
                };
                return Ok(Some(Definition::OperationDefinition(od)));
            },
            None => {},
        }
        if self.at_keyword("fragment") {
            let fd = match self.parse_fragment_definition() {
                Ok(f) => f,
                Err(d) => {
                    return Err(d);
                },
            };
            return Ok(Some(Definition::FragmentDefinition(fd)));
        }
        match self.parse_type_system_definition() {
            Ok(d) => Ok(Some(d)),
            Err(d) => Err(d),
        }
    }

    /// A type-system definition, optionally preceded by a description.
    #[verifier::rlimit(100)]
    #[verifier::spinoff_prover]
    fn parse_type_system_definition(&mut self) -> (r: Result<Definition, Diagnostic>)
        requires
            old(self).wf(),
        ensures
            final(self).wf(),
            final(self).toks() == old(self).toks(),
            old(self).idx() <= final(self).idx() <= final(self).toks().len(),
            match r {
                Ok(def) => spec_parse_type_system_definition(old(self).toks(), old(self).idx())
                    == Ok::<_, SpecDiagnostic>((def@, final(self).idx())) && old(self).idx()
                    < final(self).idx(),
                Err(d) => spec_parse_type_system_definition(old(self).toks(), old(self).idx())
                    == Err::<(SpecDefinition, int), _>(d@),
            },
    {
        let position = self.get_current_position();
        let description = self.parse_description();
        if self.at_end() {
            return Err(self.eof_diag());
        }
        if self.at_keyword("schema") {
            match self.parse_schema_definition(description) {
                Ok(d0) => Ok(Definition::SchemaDefinition(d0)),
                Err(d) => Err(d),
            }
        } else if self.at_keyword("scalar") {
            match self.parse_scalar_type_definition(description) {
                Ok(d0) => Ok(Definition::ScalarTypeDefinition(d0)),
                Err(d) => Err(d),
            }
        } else if self.at_keyword("type") {
            match self.parse_object_type_definition(description) {
                Ok(d0) => Ok(Definition::ObjectTypeDefinition(d0)),
                Err(d) => Err(d),
            }
        } else if self.at_keyword("interface") {
            match self.parse_interface_type_definition(description) {
                Ok(d0) => Ok(Definition::InterfaceTypeDefinition(d0)),
                Err(d) => Err(d),
            }
        } else if self.at_keyword("union") {
            match self.parse_union_type_definition(description) {
                Ok(d0) => Ok(Definition::UnionTypeDefinition(d0)),
                Err(d) => Err(d),
            }
        } else if self.at_keyword("enum") {
            match self.parse_enum_type_definition(description) {
                Ok(d0) => Ok(Definition::EnumTypeDefinition(d0)),
                Err(d) => Err(d),
            }
        } else if self.at_keyword("input") {
            match self.parse_input_object_type_definition(description) {
                Ok(d0) => Ok(Definition::InputObjectTypeDefinition(d0)),
                Err(d) => Err(d),
            }
        } else {
            Err(
                Diagnostic::new(
                    DiagnosticSeverity::Error,
                    String::from_str("Expected operation definition"),
                    position,
                ),
            )
        }
    }


    /// The top-level loop: definitions until the end-of-input token.
    fn parse_definitions(&mut self) -> (r: Result<Vec<Definition>, Diagnostic>)
        requires
            old(self).wf(),
        ensures
            final(self).wf(),
            final(self).toks() == old(self).toks(),
            old(self).idx() <= final(self).idx() <= final(self).toks().len(),
            match r {
                Ok(v) => spec_parse_definitions(old(self).toks(), old(self).idx()) == Ok::<
                    _,
                    SpecDiagnostic,
                >((v@.map_values(|x: Definition| x@), final(self).idx())),
                Err(d) => spec_parse_definitions(old(self).toks(), old(self).idx()) == Err::<
                    (Seq<SpecDefinition>, int),
                    _,
                >(d@),
            },
    {
        let ghost ts = self.toks();
        let ghost i0 = self.idx();
        let mut definitions: Vec<Definition> = Vec::new();
        proof {
            assert(definitions@.map_values(|x: Definition| x@) =~= Seq::<SpecDefinition>::empty());
        }
        loop
            invariant
                self.wf(),
                self.toks() == ts,
                ts == old(self).toks(),
                i0 == old(self).idx(),
                i0 <= self.idx() <= ts.len(),
                spec_parse_definitions(ts, i0) == spec_prepend(
                    definitions@.map_values(|x: Definition| x@),
                    spec_parse_definitions(ts, self.idx()),
                ),
            decreases ts.len() - self.idx(),
        {
            match self.parse_one_definition() {
                Ok(None) => {
                    proof {
                        lemma_prepend_empty(
                            definitions@.map_values(|x: Definition| x@),
                            self.idx(),
                        );
                    }
                    return Ok(definitions);
                },
                Ok(Some(def)) => {
                    proof {
                        lemma_view_map_push(definitions@, def);
                        lemma_prepend_nest(
                            definitions@.map_values(|x: Definition| x@),
                            def@,
                            spec_parse_definitions(ts, self.idx()),
                        );
                    }
                    definitions.push(def);
                },
                Err(d) => {
                    return Err(d);
                },
            }
        }
    }

    /// A whole document.
    fn parse_document(&mut self) -> (r: Result<Document, Diagnostic>)
        requires
            old(self).wf(),
        ensures
            final(self).wf(),
            final(self).toks() == old(self).toks(),
            old(self).idx() <= final(self).idx() <= final(self).toks().len(),
            match r {
                Ok(doc) => spec_parse_document(old(self).toks(), old(self).idx()) == Ok::<
                    _,
                    SpecDiagnostic,
                >((doc@, final(self).idx())),
                Err(d) => spec_parse_document(old(self).toks(), old(self).idx()) == Err::<
                    (SpecDocument, int),
                    _,
                >(d@),
            },
    {
        let start_position = self.get_current_position();
        let definitions = match self.parse_definitions() {
            Ok(ds) => ds,
            Err(d) => {
                return Err(d);
            },
        };
        let end_position = self.get_current_position();
        Ok(
            Document {
                definitions,
                position: Range::new(start_position.start, end_position.end),
            },
        )
    }

    /// Parses the buffer as one document.
    pub fn parse(&mut self) -> (r: Result<Document, Diagnostic>)
        requires
            old(self).wf(),
        ensures
            final(self).wf(),
            match r {
                Ok(doc) => spec_parse_document(old(self).toks(), old(self).idx()) == Ok::<
                    _,
                    SpecDiagnostic,
                >((doc@, final(self).idx())),
                Err(d) => spec_parse_document(old(self).toks(), old(self).idx()) == Err::<
                    (SpecDocument, int),
                    _,
                >(d@),
            },
    {
        self.parse_document()
    }
}

/// Turns a whole source text into a document, or reports the first lexical
/// or syntactic error.
pub fn parse(source: String) -> (r: Result<Document, Diagnostic>)
    requires
        source@.len() < usize::MAX / 2,
    ensures
        match r {
            Ok(doc) => spec_parse(source@) == Ok::<_, SpecDiagnostic>(doc@),
            Err(d) => spec_parse(source@) == Err::<SpecDocument, _>(d@),
        },
{
    match lex(source) {
        Ok(tokens) => {
            let mut parser = Parser::new(tokens);
            parser.parse()
        },
        Err(d) => Err(d),
    }
}


} // verus!
