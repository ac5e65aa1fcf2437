use vstd::prelude::*;

use crate::helpers::str_eq;
use crate::lsp_types::{Range, SpecRange};

verus! {

// ---------------------------------------------------------------------------
// Names and operation types
// ---------------------------------------------------------------------------
/// The three kinds of operation a document may define.
#[derive(Debug, Clone, Copy, PartialEq, Eq, Structural)]
pub enum OperationType {
    Query,
    Mutation,
    Subscription,
}

/// The operation type a keyword names, if any.
pub open spec fn spec_operation_type_of(s: Seq<char>) -> Option<OperationType> {
    if s == "query"@ {
        Some(OperationType::Query)
    } else if s == "mutation"@ {
        Some(OperationType::Mutation)
    } else if s == "subscription"@ {
        Some(OperationType::Subscription)
    } else {
        None
    }
}

impl OperationType {
    pub fn parse(value: &str) -> (r: Option<OperationType>)
        ensures
            r == spec_operation_type_of(value@),
    {
        if str_eq(value, "query") {
            Some(OperationType::Query)
        } else if str_eq(value, "mutation") {
            Some(OperationType::Mutation)
        } else if str_eq(value, "subscription") {
            Some(OperationType::Subscription)
        } else {
            None
        }
    }
}

/// An identifier together with the range it was read from.
#[derive(Debug, Clone, PartialEq)]
pub struct Name {
    pub value: String,
    pub position: Range,
}

pub struct SpecName {
    pub value: Seq<char>,
    pub position: SpecRange,
}

impl View for Name {
    type V = SpecName;

    open spec fn view(&self) -> SpecName {
        SpecName { value: self.value@, position: self.position@ }
    }
}

// ---------------------------------------------------------------------------
// Type references
// ---------------------------------------------------------------------------
/// The three recursive forms a type reference may take.
#[derive(Debug, PartialEq)]
pub enum Type {
    NamedType(NamedType),
    ListType(ListType),
    NonNullType(NonNullType),
}

#[derive(Debug, Clone, PartialEq)]
pub struct NamedType {
    pub name: Name,
    pub position: Range,
}

#[derive(Debug, PartialEq)]
pub struct ListType {
    pub wrapped_type: Box<Type>,
    pub position: Range,
}

#[derive(Debug, PartialEq)]
pub struct NonNullType {
    pub wrapped_type: Box<Type>,
    pub position: Range,
}

pub enum SpecType {
    NamedType(SpecNamedType),
    ListType(SpecListType),
    NonNullType(SpecNonNullType),
}

pub struct SpecNamedType {
    pub name: SpecName,
    pub position: SpecRange,
}

pub struct SpecListType {
    pub wrapped_type: Box<SpecType>,
    pub position: SpecRange,
}

pub struct SpecNonNullType {
    pub wrapped_type: Box<SpecType>,
    pub position: SpecRange,
}

pub open spec fn view_type(t: Type) -> SpecType
    decreases t,
{
    match t {
        Type::NamedType(n) => SpecType::NamedType(n@),
        Type::ListType(l) => SpecType::ListType(
            SpecListType {
                wrapped_type: Box::new(view_type(*l.wrapped_type)),
                position: l.position@,
            },
        ),
        Type::NonNullType(n) => SpecType::NonNullType(
            SpecNonNullType {
                wrapped_type: Box::new(view_type(*n.wrapped_type)),
                position: n.position@,
            },
        ),
    }
}

impl View for NamedType {
    type V = SpecNamedType;

    open spec fn view(&self) -> SpecNamedType {
        SpecNamedType { name: self.name@, position: self.position@ }
    }
}

impl View for Type {
    type V = SpecType;

    open spec fn view(&self) -> SpecType {
        view_type(*self)
    }
}

// ---------------------------------------------------------------------------
// Values
// ---------------------------------------------------------------------------
/// A variable reference `$name`.
#[derive(Debug, Clone, PartialEq)]
pub struct Variable {
    pub name: Name,
    pub position: Range,
}

pub struct SpecVariable {
    pub name: SpecName,
    pub position: SpecRange,
}

impl View for Variable {
    type V = SpecVariable;

    open spec fn view(&self) -> SpecVariable {
        SpecVariable { name: self.name@, position: self.position@ }
    }
}

/// The input value forms. A float value carries the literal text it was
/// read from.
#[derive(Debug, PartialEq)]
pub enum Value {
    Variable(Variable),
    IntValue(IntValue),
    FloatValue(FloatValue),
    StringValue(StringValue),
    BooleanValue(BooleanValue),
    NullValue(NullValue),
    EnumValue(EnumValue),
    ListValue(ListValue),
    ObjectValue(ObjectValue),
}

#[derive(Debug, Clone, PartialEq)]
pub struct IntValue {
    pub value: i32,
    pub position: Range,
}

#[derive(Debug, Clone, PartialEq)]
pub struct FloatValue {
    pub value: String,
    pub position: Range,
}

#[derive(Debug, Clone, PartialEq)]
pub struct StringValue {
    pub value: String,
    pub block: bool,
    pub position: Range,
}

#[derive(Debug, Clone, PartialEq)]
pub struct BooleanValue {
    pub value: bool,
    pub position: Range,
}

#[derive(Debug, Clone, PartialEq)]
pub struct NullValue {
    pub position: Range,
}

#[derive(Debug, Clone, PartialEq)]
pub struct EnumValue {
    pub value: String,
    pub position: Range,
}

#[derive(Debug, PartialEq)]
pub struct ListValue {
    pub values: Vec<Value>,
    pub position: Range,
}

#[derive(Debug, PartialEq)]
pub struct ObjectValue {
    pub fields: Vec<ObjectField>,
    pub position: Range,
}

#[derive(Debug, PartialEq)]
pub struct ObjectField {
    pub name: Name,
    pub value: Value,
    pub position: Range,
}

pub enum SpecValue {
    Variable(SpecVariable),
    IntValue(SpecIntValue),
    FloatValue(SpecFloatValue),
    StringValue(SpecStringValue),
    BooleanValue(SpecBooleanValue),
    NullValue(SpecNullValue),
    EnumValue(SpecEnumValue),
    ListValue(SpecListValue),
    ObjectValue(SpecObjectValue),
}

pub struct SpecIntValue {
    pub value: int,
    pub position: SpecRange,
}

pub struct SpecFloatValue {
    pub value: Seq<char>,
    pub position: SpecRange,
}

pub struct SpecStringValue {
    pub value: Seq<char>,
    pub block: bool,
    pub position: SpecRange,
}

pub struct SpecBooleanValue {
    pub value: bool,
    pub position: SpecRange,
}

pub struct SpecNullValue {
    pub position: SpecRange,
}

pub struct SpecEnumValue {
    pub value: Seq<char>,
    pub position: SpecRange,
}

pub struct SpecListValue {
    pub values: Seq<SpecValue>,
    pub position: SpecRange,
}

pub struct SpecObjectValue {
    pub fields: Seq<SpecObjectField>,
    pub position: SpecRange,
}

pub struct SpecObjectField {
    pub name: SpecName,
    pub value: SpecValue,
    pub position: SpecRange,
}

pub open spec fn view_value(v: Value) -> SpecValue
    decreases v,
{
    match v {
        Value::Variable(x) => SpecValue::Variable(x@),
        Value::IntValue(x) => SpecValue::IntValue(
            SpecIntValue { value: x.value as int, position: x.position@ },
        ),
        Value::FloatValue(x) => SpecValue::FloatValue(
            SpecFloatValue { value: x.value@, position: x.position@ },
        ),
        Value::StringValue(x) => SpecValue::StringValue(
            SpecStringValue { value: x.value@, block: x.block, position: x.position@ },
        ),
        Value::BooleanValue(x) => SpecValue::BooleanValue(
            SpecBooleanValue { value: x.value, position: x.position@ },
        ),
        Value::NullValue(x) => SpecValue::NullValue(SpecNullValue { position: x.position@ }),
        Value::EnumValue(x) => SpecValue::EnumValue(
            SpecEnumValue { value: x.value@, position: x.position@ },
        ),
        Value::ListValue(x) => SpecValue::ListValue(
            SpecListValue { values: view_values(x.values@), position: x.position@ },
        ),
        Value::ObjectValue(x) => SpecValue::ObjectValue(
            SpecObjectValue { fields: view_object_fields(x.fields@), position: x.position@ },
        ),
    }
}

pub open spec fn view_values(s: Seq<Value>) -> Seq<SpecValue>
    decreases s,
{
    if s.len() == 0 {
        Seq::empty()
    } else {
        view_values(s.subrange(0, s.len() - 1)).push(view_value(s[s.len() - 1]))
    }
}

pub open spec fn view_object_fields(s: Seq<ObjectField>) -> Seq<SpecObjectField>
    decreases s,
{
    if s.len() == 0 {
        Seq::empty()
    } else {
        view_object_fields(s.subrange(0, s.len() - 1)).push(
            SpecObjectField {
                name: s[s.len() - 1].name@,
                value: view_value(s[s.len() - 1].value),
                position: s[s.len() - 1].position@,
            },
        )
    }
}

impl View for Value {
    type V = SpecValue;

    open spec fn view(&self) -> SpecValue {
        view_value(*self)
    }
}

impl View for ObjectField {
    type V = SpecObjectField;

    open spec fn view(&self) -> SpecObjectField {
        SpecObjectField { name: self.name@, value: view_value(self.value), position: self.position@ }
    }
}

// ---------------------------------------------------------------------------
// Arguments and directives
// ---------------------------------------------------------------------------
/// One `name: value` pair of an argument list.
#[derive(Debug, PartialEq)]
pub struct Argument {
    pub name: Name,
    pub value: Value,
    pub position: Range,
}

pub struct SpecArgument {
    pub name: SpecName,
    pub value: SpecValue,
    pub position: SpecRange,
}

impl View for Argument {
    type V = SpecArgument;

    open spec fn view(&self) -> SpecArgument {
        SpecArgument { name: self.name@, value: view_value(self.value), position: self.position@ }
    }
}

/// A directive `@name(args)`.
#[derive(Debug, PartialEq)]
pub struct Directive {
    pub name: Name,
    pub position: Range,
    pub arguments: Vec<Argument>,
}

pub struct SpecDirective {
    pub name: SpecName,
    pub position: SpecRange,
    pub arguments: Seq<SpecArgument>,
}

impl View for Directive {
    type V = SpecDirective;

    open spec fn view(&self) -> SpecDirective {
        SpecDirective {
            name: self.name@,
            position: self.position@,
            arguments: self.arguments@.map_values(|a: Argument| a@),
        }
    }
}

// ---------------------------------------------------------------------------
// Selections
// ---------------------------------------------------------------------------
/// One requested item of a selection set.
#[derive(Debug, PartialEq)]
pub enum Selection {
    Field(Field),
    FragmentSpread(FragmentSpread),
    InlineFragment(InlineFragment),
}

#[derive(Debug, PartialEq)]
pub struct Field {
    pub alias: Option<Name>,
    pub name: Name,
    pub arguments: Vec<Argument>,
    pub directives: Vec<Directive>,
    pub selection_set: Option<SelectionSet>,
    pub position: Range,
}

#[derive(Debug, PartialEq)]
pub struct FragmentSpread {
    pub name: Name,
    pub directives: Vec<Directive>,
    pub position: Range,
}

#[derive(Debug, PartialEq)]
pub struct InlineFragment {
    pub type_condition: Option<NamedType>,
    pub directives: Vec<Directive>,
    pub selection_set: SelectionSet,
    pub position: Range,
}

/// A brace-delimited list of selections.
#[derive(Debug, PartialEq)]
pub struct SelectionSet {
    pub selections: Vec<Selection>,
    pub position: Range,
}

pub enum SpecSelection {
    Field(SpecField),
    FragmentSpread(SpecFragmentSpread),
    InlineFragment(SpecInlineFragment),
}

pub struct SpecField {
    pub alias: Option<SpecName>,
    pub name: SpecName,
    pub arguments: Seq<SpecArgument>,
    pub directives: Seq<SpecDirective>,
    pub selection_set: Option<SpecSelectionSet>,
    pub position: SpecRange,
}

pub struct SpecFragmentSpread {
    pub name: SpecName,
    pub directives: Seq<SpecDirective>,
    pub position: SpecRange,
}

pub struct SpecInlineFragment {
    pub type_condition: Option<SpecNamedType>,
    pub directives: Seq<SpecDirective>,
    pub selection_set: SpecSelectionSet,
    pub position: SpecRange,
}

pub struct SpecSelectionSet {
    pub selections: Seq<SpecSelection>,
    pub position: SpecRange,
}

pub open spec fn view_opt_name(n: Option<Name>) -> Option<SpecName> {
    match n {
        Some(x) => Some(x@),
        None => None,
    }
}

pub open spec fn view_selection(s: Selection) -> SpecSelection
    decreases s,
{
    match s {
        Selection::Field(f) => SpecSelection::Field(
            SpecField {
                alias: view_opt_name(f.alias),
                name: f.name@,
                arguments: f.arguments@.map_values(|a: Argument| a@),
                directives: f.directives@.map_values(|d: Directive| d@),
                selection_set: match f.selection_set {
                    Some(ss) => Some(
                        SpecSelectionSet {
                            selections: view_selections(ss.selections@),
                            position: ss.position@,
                        },
                    ),
                    None => None,
                },
                position: f.position@,
            },
        ),
        Selection::FragmentSpread(f) => SpecSelection::FragmentSpread(
            SpecFragmentSpread {
                name: f.name@,
                directives: f.directives@.map_values(|d: Directive| d@),
                position: f.position@,
            },
        ),
        Selection::InlineFragment(f) => SpecSelection::InlineFragment(
            SpecInlineFragment {
                type_condition: match f.type_condition {
                    Some(t) => Some(t@),
                    None => None,
                },
                directives: f.directives@.map_values(|d: Directive| d@),
                selection_set: SpecSelectionSet {
                    selections: view_selections(f.selection_set.selections@),
                    position: f.selection_set.position@,
                },
                position: f.position@,
            },
        ),
    }
}

pub open spec fn view_selections(s: Seq<Selection>) -> Seq<SpecSelection>
    decreases s,
{
    if s.len() == 0 {
        Seq::empty()
    } else {
        view_selections(s.subrange(0, s.len() - 1)).push(view_selection(s[s.len() - 1]))
    }
}

impl View for Field {
    type V = SpecField;

    open spec fn view(&self) -> SpecField {
        SpecField {
            alias: view_opt_name(self.alias),
            name: self.name@,
            arguments: self.arguments@.map_values(|a: Argument| a@),
            directives: self.directives@.map_values(|d: Directive| d@),
            selection_set: match self.selection_set {
                Some(ss) => Some(
                    SpecSelectionSet {
                        selections: view_selections(ss.selections@),
                        position: ss.position@,
                    },
                ),
                None => None,
            },
            position: self.position@,
        }
    }
}

impl View for FragmentSpread {
    type V = SpecFragmentSpread;

    open spec fn view(&self) -> SpecFragmentSpread {
        SpecFragmentSpread {
            name: self.name@,
            directives: self.directives@.map_values(|d: Directive| d@),
            position: self.position@,
        }
    }
}

impl View for InlineFragment {
    type V = SpecInlineFragment;

    open spec fn view(&self) -> SpecInlineFragment {
        SpecInlineFragment {
            type_condition: match self.type_condition {
                Some(t) => Some(t@),
                None => None,
            },
            directives: self.directives@.map_values(|d: Directive| d@),
            selection_set: SpecSelectionSet {
                selections: view_selections(self.selection_set.selections@),
                position: self.selection_set.position@,
            },
            position: self.position@,
        }
    }
}

impl View for Selection {
    type V = SpecSelection;

    open spec fn view(&self) -> SpecSelection {
        view_selection(*self)
    }
}

impl View for SelectionSet {
    type V = SpecSelectionSet;

    open spec fn view(&self) -> SpecSelectionSet {
        SpecSelectionSet {
            selections: view_selections(self.selections@),
            position: self.position@,
        }
    }
}

// ---------------------------------------------------------------------------
// Variable definitions and executable definitions
// ---------------------------------------------------------------------------
/// One `$name: Type = default` entry of an operation's variable list.
#[derive(Debug, PartialEq)]
pub struct VariableDefinition {
    pub variable: Variable,
    pub variable_type: Type,
    pub default_value: Option<Value>,
    pub position: Range,
}

pub struct SpecVariableDefinition {
    pub variable: SpecVariable,
    pub variable_type: SpecType,
    pub default_value: Option<SpecValue>,
    pub position: SpecRange,
}

impl View for VariableDefinition {
    type V = SpecVariableDefinition;

    open spec fn view(&self) -> SpecVariableDefinition {
        SpecVariableDefinition {
            variable: self.variable@,
            variable_type: view_type(self.variable_type),
            default_value: match self.default_value {
                Some(v) => Some(view_value(v)),
                None => None,
            },
            position: self.position@,
        }
    }
}

/// A query, mutation or subscription, named or anonymous.
#[derive(Debug, PartialEq)]
pub struct OperationDefinition {
    pub name: Option<Name>,
    pub operation: OperationType,
    pub variable_definitions: Vec<VariableDefinition>,
    pub selection_set: SelectionSet,
    pub directives: Vec<Directive>,
    pub position: Range,
    pub anonymous: bool,
}

pub struct SpecOperationDefinition {
    pub name: Option<SpecName>,
    pub operation: OperationType,
    pub variable_definitions: Seq<SpecVariableDefinition>,
    pub selection_set: SpecSelectionSet,
    pub directives: Seq<SpecDirective>,
    pub position: SpecRange,
    pub anonymous: bool,
}

impl View for OperationDefinition {
    type V = SpecOperationDefinition;

    open spec fn view(&self) -> SpecOperationDefinition {
        SpecOperationDefinition {
            name: view_opt_name(self.name),
            operation: self.operation,
            variable_definitions: self.variable_definitions@.map_values(
                |v: VariableDefinition| v@,
            ),
            selection_set: self.selection_set@,
            directives: self.directives@.map_values(|d: Directive| d@),
            position: self.position@,
            anonymous: self.anonymous,
        }
    }
}

/// A named fragment with its type condition.
#[derive(Debug, PartialEq)]
pub struct FragmentDefinition {
    pub name: Name,
    pub type_condition: NamedType,
    pub directives: Vec<Directive>,
    pub selection_set: SelectionSet,
    pub position: Range,
}

pub struct SpecFragmentDefinition {
    pub name: SpecName,
    pub type_condition: SpecNamedType,
    pub directives: Seq<SpecDirective>,
    pub selection_set: SpecSelectionSet,
    pub position: SpecRange,
}

impl View for FragmentDefinition {
    type V = SpecFragmentDefinition;

    open spec fn view(&self) -> SpecFragmentDefinition {
        SpecFragmentDefinition {
            name: self.name@,
            type_condition: self.type_condition@,
            directives: self.directives@.map_values(|d: Directive| d@),
            selection_set: self.selection_set@,
            position: self.position@,
        }
    }
}

// ---------------------------------------------------------------------------
// Type-system definitions
// ---------------------------------------------------------------------------
/// One `operation: NamedType` entry of a schema definition.
#[derive(Debug, Clone, PartialEq)]
pub struct RootOperationTypeDefinition {
    pub operation_type: OperationType,
    pub named_type: NamedType,
    pub position: Range,
}

pub struct SpecRootOperationTypeDefinition {
    pub operation_type: OperationType,
    pub named_type: SpecNamedType,
    pub position: SpecRange,
}

impl View for RootOperationTypeDefinition {
    type V = SpecRootOperationTypeDefinition;

    open spec fn view(&self) -> SpecRootOperationTypeDefinition {
        SpecRootOperationTypeDefinition {
            operation_type: self.operation_type,
            named_type: self.named_type@,
            position: self.position@,
        }
    }
}

/// A `schema { ... }` block naming the root operation types.
#[derive(Debug, PartialEq)]
pub struct SchemaDefinition {
    pub description: Option<StringValue>,
    pub operation_types: Vec<RootOperationTypeDefinition>,
    pub directives: Vec<Directive>,
    pub position: Range,
}

pub struct SpecSchemaDefinition {
    pub description: Option<SpecStringValue>,
    pub operation_types: Seq<SpecRootOperationTypeDefinition>,
    pub directives: Seq<SpecDirective>,
    pub position: SpecRange,
}

pub open spec fn view_description(d: Option<StringValue>) -> Option<SpecStringValue> {
    match d {
        Some(s) => Some(
            SpecStringValue { value: s.value@, block: s.block, position: s.position@ },
        ),
        None => None,
    }
}

impl View for SchemaDefinition {
    type V = SpecSchemaDefinition;

    open spec fn view(&self) -> SpecSchemaDefinition {
        SpecSchemaDefinition {
            description: view_description(self.description),
            operation_types: self.operation_types@.map_values(
                |r: RootOperationTypeDefinition| r@,
            ),
            directives: self.directives@.map_values(|d: Directive| d@),
            position: self.position@,
        }
    }
}

/// A `scalar Name` definition.
#[derive(Debug, PartialEq)]
pub struct ScalarTypeDefinition {
    pub description: Option<StringValue>,
    pub name: Name,
    pub directives: Vec<Directive>,
    pub position: Range,
}

pub struct SpecScalarTypeDefinition {
    pub description: Option<SpecStringValue>,
    pub name: SpecName,
    pub directives: Seq<SpecDirective>,
    pub position: SpecRange,
}

impl View for ScalarTypeDefinition {
    type V = SpecScalarTypeDefinition;

    open spec fn view(&self) -> SpecScalarTypeDefinition {
        SpecScalarTypeDefinition {
            description: view_description(self.description),
            name: self.name@,
            directives: self.directives@.map_values(|d: Directive| d@),
            position: self.position@,
        }
    }
}

/// One `name(args): Type = default @directives` input value.
#[derive(Debug, PartialEq)]
pub struct InputValueDefinition {
    pub description: Option<StringValue>,
    pub name: Name,
    pub input_type: Type,
    pub default_value: Option<Value>,
    pub directives: Vec<Directive>,
    pub position: Range,
}

pub struct SpecInputValueDefinition {
    pub description: Option<SpecStringValue>,
    pub name: SpecName,
    pub input_type: SpecType,
    pub default_value: Option<SpecValue>,
    pub directives: Seq<SpecDirective>,
    pub position: SpecRange,
}

impl View for InputValueDefinition {
    type V = SpecInputValueDefinition;

    open spec fn view(&self) -> SpecInputValueDefinition {
        SpecInputValueDefinition {
            description: view_description(self.description),
            name: self.name@,
            input_type: view_type(self.input_type),
            default_value: match self.default_value {
                Some(v) => Some(view_value(v)),
                None => None,
            },
            directives: self.directives@.map_values(|d: Directive| d@),
            position: self.position@,
        }
    }
}

/// One field of an object or interface type.
#[derive(Debug, PartialEq)]
pub struct FieldDefinition {
    pub description: Option<StringValue>,
    pub name: Name,
    pub arguments: Vec<InputValueDefinition>,
    pub field_type: Type,
    pub directives: Vec<Directive>,
    pub position: Range,
}

pub struct SpecFieldDefinition {
    pub description: Option<SpecStringValue>,
    pub name: SpecName,
    pub arguments: Seq<SpecInputValueDefinition>,
    pub field_type: SpecType,
    pub directives: Seq<SpecDirective>,
    pub position: SpecRange,
}

impl View for FieldDefinition {
    type V = SpecFieldDefinition;

    open spec fn view(&self) -> SpecFieldDefinition {
        SpecFieldDefinition {
            description: view_description(self.description),
            name: self.name@,
            arguments: self.arguments@.map_values(|a: InputValueDefinition| a@),
            field_type: view_type(self.field_type),
            directives: self.directives@.map_values(|d: Directive| d@),
            position: self.position@,
        }
    }
}

/// A `type Name implements ... { fields }` definition.
#[derive(Debug, PartialEq)]
pub struct ObjectTypeDefinition {
    pub description: Option<StringValue>,
    pub name: Name,
    pub interfaces: Vec<NamedType>,
    pub directives: Vec<Directive>,
    pub fields: Vec<FieldDefinition>,
    pub position: Range,
}

pub struct SpecObjectTypeDefinition {
    pub description: Option<SpecStringValue>,
    pub name: SpecName,
    pub interfaces: Seq<SpecNamedType>,
    pub directives: Seq<SpecDirective>,
    pub fields: Seq<SpecFieldDefinition>,
    pub position: SpecRange,
}

impl View for ObjectTypeDefinition {
    type V = SpecObjectTypeDefinition;

    open spec fn view(&self) -> SpecObjectTypeDefinition {
        SpecObjectTypeDefinition {
            description: view_description(self.description),
            name: self.name@,
            interfaces: self.interfaces@.map_values(|n: NamedType| n@),
            directives: self.directives@.map_values(|d: Directive| d@),
            fields: self.fields@.map_values(|f: FieldDefinition| f@),
            position: self.position@,
        }
    }
}

/// An `interface Name { fields }` definition.
#[derive(Debug, PartialEq)]
pub struct InterfaceTypeDefinition {
    pub description: Option<StringValue>,
    pub name: Name,
    pub interfaces: Vec<NamedType>,
    pub directives: Vec<Directive>,
    pub fields: Vec<FieldDefinition>,
    pub position: Range,
}

pub struct SpecInterfaceTypeDefinition {
    pub description: Option<SpecStringValue>,
    pub name: SpecName,
    pub interfaces: Seq<SpecNamedType>,
    pub directives: Seq<SpecDirective>,
    pub fields: Seq<SpecFieldDefinition>,
    pub position: SpecRange,
}

impl View for InterfaceTypeDefinition {
    type V = SpecInterfaceTypeDefinition;

    open spec fn view(&self) -> SpecInterfaceTypeDefinition {
        SpecInterfaceTypeDefinition {
            description: view_description(self.description),
            name: self.name@,
            interfaces: self.interfaces@.map_values(|n: NamedType| n@),
            directives: self.directives@.map_values(|d: Directive| d@),
            fields: self.fields@.map_values(|f: FieldDefinition| f@),
            position: self.position@,
        }
    }
}

/// A `union Name = A | B` definition.
#[derive(Debug, PartialEq)]
pub struct UnionTypeDefinition {
    pub description: Option<StringValue>,
    pub name: Name,
    pub directives: Vec<Directive>,
    pub member_types: Vec<NamedType>,
    pub position: Range,
}

pub struct SpecUnionTypeDefinition {
    pub description: Option<SpecStringValue>,
    pub name: SpecName,
    pub directives: Seq<SpecDirective>,
    pub member_types: Seq<SpecNamedType>,
    pub position: SpecRange,
}

impl View for UnionTypeDefinition {
    type V = SpecUnionTypeDefinition;

    open spec fn view(&self) -> SpecUnionTypeDefinition {
        SpecUnionTypeDefinition {
            description: view_description(self.description),
            name: self.name@,
            directives: self.directives@.map_values(|d: Directive| d@),
            member_types: self.member_types@.map_values(|n: NamedType| n@),
            position: self.position@,
        }
    }
}

/// One value of an enum type definition.
#[derive(Debug, PartialEq)]
pub struct EnumValueDefinition {
    pub description: Option<StringValue>,
    pub name: Name,
    pub directives: Vec<Directive>,
    pub position: Range,
}

pub struct SpecEnumValueDefinition {
    pub description: Option<SpecStringValue>,
    pub name: SpecName,
    pub directives: Seq<SpecDirective>,
    pub position: SpecRange,
}

impl View for EnumValueDefinition {
    type V = SpecEnumValueDefinition;

    open spec fn view(&self) -> SpecEnumValueDefinition {
        SpecEnumValueDefinition {
            description: view_description(self.description),
            name: self.name@,
            directives: self.directives@.map_values(|d: Directive| d@),
            position: self.position@,
        }
    }
}

/// An `enum Name { VALUES }` definition.
#[derive(Debug, PartialEq)]
pub struct EnumTypeDefinition {
    pub description: Option<StringValue>,
    pub name: Name,
    pub directives: Vec<Directive>,
    pub values: Vec<EnumValueDefinition>,
    pub position: Range,
}

pub struct SpecEnumTypeDefinition {
    pub description: Option<SpecStringValue>,
    pub name: SpecName,
    pub directives: Seq<SpecDirective>,
    pub values: Seq<SpecEnumValueDefinition>,
    pub position: SpecRange,
}

impl View for EnumTypeDefinition {
    type V = SpecEnumTypeDefinition;

    open spec fn view(&self) -> SpecEnumTypeDefinition {
        SpecEnumTypeDefinition {
            description: view_description(self.description),
            name: self.name@,
            directives: self.directives@.map_values(|d: Directive| d@),
            values: self.values@.map_values(|v: EnumValueDefinition| v@),
            position: self.position@,
        }
    }
}

/// An `input Name { fields }` definition.
#[derive(Debug, PartialEq)]
pub struct InputObjectTypeDefinition {
    pub description: Option<StringValue>,
    pub name: Name,
    pub directives: Vec<Directive>,
    pub fields: Vec<InputValueDefinition>,
    pub position: Range,
}

pub struct SpecInputObjectTypeDefinition {
    pub description: Option<SpecStringValue>,
    pub name: SpecName,
    pub directives: Seq<SpecDirective>,
    pub fields: Seq<SpecInputValueDefinition>,
    pub position: SpecRange,
}

impl View for InputObjectTypeDefinition {
    type V = SpecInputObjectTypeDefinition;

    open spec fn view(&self) -> SpecInputObjectTypeDefinition {
        SpecInputObjectTypeDefinition {
            description: view_description(self.description),
            name: self.name@,
            directives: self.directives@.map_values(|d: Directive| d@),
            fields: self.fields@.map_values(|f: InputValueDefinition| f@),
            position: self.position@,
        }
    }
}

// ---------------------------------------------------------------------------
// Documents
// ---------------------------------------------------------------------------
/// A top-level construct of a document.
#[derive(Debug, PartialEq)]
pub enum Definition {
    OperationDefinition(OperationDefinition),
    FragmentDefinition(FragmentDefinition),
    SchemaDefinition(SchemaDefinition),
    ScalarTypeDefinition(ScalarTypeDefinition),
    ObjectTypeDefinition(ObjectTypeDefinition),
    InterfaceTypeDefinition(InterfaceTypeDefinition),
    UnionTypeDefinition(UnionTypeDefinition),
    EnumTypeDefinition(EnumTypeDefinition),
    InputObjectTypeDefinition(InputObjectTypeDefinition),
}

pub enum SpecDefinition {
    OperationDefinition(SpecOperationDefinition),
    FragmentDefinition(SpecFragmentDefinition),
    SchemaDefinition(SpecSchemaDefinition),
    ScalarTypeDefinition(SpecScalarTypeDefinition),
    ObjectTypeDefinition(SpecObjectTypeDefinition),
    InterfaceTypeDefinition(SpecInterfaceTypeDefinition),
    UnionTypeDefinition(SpecUnionTypeDefinition),
    EnumTypeDefinition(SpecEnumTypeDefinition),
    InputObjectTypeDefinition(SpecInputObjectTypeDefinition),
}

impl View for Definition {
    type V = SpecDefinition;

    open spec fn view(&self) -> SpecDefinition {
        match self {
            Definition::OperationDefinition(d) => SpecDefinition::OperationDefinition(d@),
            Definition::FragmentDefinition(d) => SpecDefinition::FragmentDefinition(d@),
            Definition::SchemaDefinition(d) => SpecDefinition::SchemaDefinition(d@),
            Definition::ScalarTypeDefinition(d) => SpecDefinition::ScalarTypeDefinition(d@),
            Definition::ObjectTypeDefinition(d) => SpecDefinition::ObjectTypeDefinition(d@),
            Definition::InterfaceTypeDefinition(d) => SpecDefinition::InterfaceTypeDefinition(d@),
            Definition::UnionTypeDefinition(d) => SpecDefinition::UnionTypeDefinition(d@),
            Definition::EnumTypeDefinition(d) => SpecDefinition::EnumTypeDefinition(d@),
            Definition::InputObjectTypeDefinition(d) => SpecDefinition::InputObjectTypeDefinition(
                d@,
            ),
        }
    }
}

/// The root of the syntax tree: an ordered sequence of definitions.
#[derive(Debug, PartialEq)]
pub struct Document {
    pub definitions: Vec<Definition>,
    pub position: Range,
}

pub struct SpecDocument {
    pub definitions: Seq<SpecDefinition>,
    pub position: SpecRange,
}

impl View for Document {
    type V = SpecDocument;

    open spec fn view(&self) -> SpecDocument {
        SpecDocument {
            definitions: self.definitions@.map_values(|d: Definition| d@),
            position: self.position@,
        }
    }
}

// ---------------------------------------------------------------------------
// Directive locations
// ---------------------------------------------------------------------------
/// The places an executable document may attach a directive.
#[derive(Debug, Clone, PartialEq, Eq, Structural)]
pub enum ExecutableDirectiveLocation {
    Query,
    Mutation,
    Subscription,
    Field,
    FragmentDefinition,
    FragmentSpread,
    InlineFragment,
    VariableDefinition,
}

pub open spec fn spec_executable_directive_location_of(s: Seq<char>) -> Option<
    ExecutableDirectiveLocation,
> {
    if s == "QUERY"@ {
        Some(ExecutableDirectiveLocation::Query)
    } else if s == "MUTATION"@ {
        Some(ExecutableDirectiveLocation::Mutation)
    } else if s == "SUBSCRIPTION"@ {
        Some(ExecutableDirectiveLocation::Subscription)
    } else if s == "FIELD"@ {
        Some(ExecutableDirectiveLocation::Field)
    } else if s == "FRAGMENT_DEFINITION"@ {
        Some(ExecutableDirectiveLocation::FragmentDefinition)
    } else if s == "FRAGMENT_SPREAD"@ {
        Some(ExecutableDirectiveLocation::FragmentSpread)
    } else if s == "INLINE_FRAGMENT"@ {
        Some(ExecutableDirectiveLocation::InlineFragment)
    } else if s == "VARIABLE_DEFINITION"@ {
        Some(ExecutableDirectiveLocation::VariableDefinition)
    } else {
        None
    }
}

impl ExecutableDirectiveLocation {
    pub fn parse(value: &str) -> (r: Option<ExecutableDirectiveLocation>)
        ensures
            r == spec_executable_directive_location_of(value@),
    {
        if str_eq(value, "QUERY") {
            Some(ExecutableDirectiveLocation::Query)
        } else if str_eq(value, "MUTATION") {
            Some(ExecutableDirectiveLocation::Mutation)
        } else if str_eq(value, "SUBSCRIPTION") {
            Some(ExecutableDirectiveLocation::Subscription)
        } else if str_eq(value, "FIELD") {
            Some(ExecutableDirectiveLocation::Field)
        } else if str_eq(value, "FRAGMENT_DEFINITION") {
            Some(ExecutableDirectiveLocation::FragmentDefinition)
        } else if str_eq(value, "FRAGMENT_SPREAD") {
            Some(ExecutableDirectiveLocation::FragmentSpread)
        } else if str_eq(value, "INLINE_FRAGMENT") {
            Some(ExecutableDirectiveLocation::InlineFragment)
        } else if str_eq(value, "VARIABLE_DEFINITION") {
            Some(ExecutableDirectiveLocation::VariableDefinition)
        } else {
            None
        }
    }
}

/// The places a type-system document may attach a directive.
#[derive(Debug, Clone, PartialEq, Eq, Structural)]
pub enum TypeSystemDirectiveLocation {
    Schema,
    Scalar,
    Object,
    FieldDefinition,
    ArgumentDefinition,
    Interface,
    Union,
    Enum,
    EnumValue,
    InputObject,
    InputFieldDefinition,
}

pub open spec fn spec_type_system_directive_location_of(s: Seq<char>) -> Option<
    TypeSystemDirectiveLocation,
> {
    if s == "SCHEMA"@ {
        Some(TypeSystemDirectiveLocation::Schema)
    } else if s == "SCALAR"@ {
        Some(TypeSystemDirectiveLocation::Scalar)
    } else if s == "OBJECT"@ {
        Some(TypeSystemDirectiveLocation::Object)
    } else if s == "FIELD_DEFINITION"@ {
        Some(TypeSystemDirectiveLocation::FieldDefinition)
    } else if s == "ARGUMENT_DEFINITION"@ {
        Some(TypeSystemDirectiveLocation::ArgumentDefinition)
    } else if s == "INTERFACE"@ {
        Some(TypeSystemDirectiveLocation::Interface)
    } else if s == "UNION"@ {
        Some(TypeSystemDirectiveLocation::Union)
    } else if s == "ENUM"@ {
        Some(TypeSystemDirectiveLocation::Enum)
    } else if s == "ENUM_VALUE"@ {
        Some(TypeSystemDirectiveLocation::EnumValue)
    } else if s == "INPUT_OBJECT"@ {
        Some(TypeSystemDirectiveLocation::InputObject)
    } else if s == "INPUT_FIELD_DEFINITION"@ {
        Some(TypeSystemDirectiveLocation::InputFieldDefinition)
    } else {
        None
    }
}

impl TypeSystemDirectiveLocation {
    pub fn parse(value: &str) -> (r: Option<TypeSystemDirectiveLocation>)
        ensures
            r == spec_type_system_directive_location_of(value@),
    {
        if str_eq(value, "SCHEMA") {
            Some(TypeSystemDirectiveLocation::Schema)
        } else if str_eq(value, "SCALAR") {
            Some(TypeSystemDirectiveLocation::Scalar)
        } else if str_eq(value, "OBJECT") {
            Some(TypeSystemDirectiveLocation::Object)
        } else if str_eq(value, "FIELD_DEFINITION") {
            Some(TypeSystemDirectiveLocation::FieldDefinition)
        } else if str_eq(value, "ARGUMENT_DEFINITION") {
            Some(TypeSystemDirectiveLocation::ArgumentDefinition)
        } else if str_eq(value, "INTERFACE") {
            Some(TypeSystemDirectiveLocation::Interface)
        } else if str_eq(value, "UNION") {
            Some(TypeSystemDirectiveLocation::Union)
        } else if str_eq(value, "ENUM") {
            Some(TypeSystemDirectiveLocation::Enum)
        } else if str_eq(value, "ENUM_VALUE") {
            Some(TypeSystemDirectiveLocation::EnumValue)
        } else if str_eq(value, "INPUT_OBJECT") {
            Some(TypeSystemDirectiveLocation::InputObject)
        } else if str_eq(value, "INPUT_FIELD_DEFINITION") {
            Some(TypeSystemDirectiveLocation::InputFieldDefinition)
        } else {
            None
        }
    }
}

} // verus!
