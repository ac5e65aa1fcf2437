use vstd::prelude::*;

use crate::parser::types::{
    view_value, view_values, Argument, ListValue, Definition, Directive, Document, Field, Name,
    OperationDefinition, OperationType, Selection, SpecArgument, SpecDefinition, SpecDirective,
    SpecDocument, SpecField, SpecName, SpecOperationDefinition, SpecSelection, SpecValue, Value,
};

verus! {

// ---------------------------------------------------------------------------
// What the renderer prints, stated over the tree's model. The renderer is a
// read-only consumer of the tree: operations print as the operation keyword,
// the optional name, the directives and a braced, line-broken selection
// block; other definition kinds print as nothing.
// ---------------------------------------------------------------------------
/// The decimal digit character for `d`.
pub open spec fn spec_digit_char(d: int) -> char {
    ((48 + d) as u8) as char
}

/// The decimal digits of a non-negative number, most significant first.
pub open spec fn spec_nat_digits(n: nat) -> Seq<char>
    decreases n,
{
    if n < 10 {
        seq![spec_digit_char(n as int)]
    } else {
        spec_nat_digits(n / 10).push(spec_digit_char((n % 10) as int))
    }
}

/// The decimal rendering of a signed number.
pub open spec fn spec_int_str(v: int) -> Seq<char> {
    if v < 0 {
        seq!['-'] + spec_nat_digits((-v) as nat)
    } else {
        spec_nat_digits(v as nat)
    }
}

/// Two spaces of padding per nesting level.
pub open spec fn spec_indent(depth: nat) -> Seq<char> {
    Seq::new(depth * 2, |k: int| ' ')
}

/// The bounded successor the renderer uses for nesting depths.
pub open spec fn spec_deeper(depth: nat) -> nat {
    if depth < usize::MAX {
        (depth + 1) as nat
    } else {
        depth
    }
}

/// What one value prints as. A variable prints as its bare name, an object
/// value prints as nothing, and a list as its comma-separated elements in
/// brackets.
pub open spec fn spec_print_value(v: SpecValue) -> Seq<char>
    decreases v,
{
    match v {
        SpecValue::IntValue(x) => spec_int_str(x.value),
        SpecValue::FloatValue(x) => x.value,
        SpecValue::StringValue(x) => seq!['"'] + x.value + seq!['"'],
        SpecValue::BooleanValue(x) => if x.value {
            "true"@
        } else {
            "false"@
        },
        SpecValue::NullValue(_) => "null"@,
        SpecValue::EnumValue(x) => x.value,
        SpecValue::Variable(x) => x.name.value,
        SpecValue::ListValue(x) => seq!['['] + spec_print_values_commas(x.values) + seq![']'],
        SpecValue::ObjectValue(_) => Seq::empty(),
    }
}

/// Values joined by `, `.
pub open spec fn spec_print_values_commas(s: Seq<SpecValue>) -> Seq<char>
    decreases s,
{
    if s.len() == 0 {
        Seq::empty()
    } else if s.len() == 1 {
        spec_print_value(s[0])
    } else {
        spec_print_values_commas(s.subrange(0, s.len() - 1)) + ", "@ + spec_print_value(
            s[s.len() - 1],
        )
    }
}

/// What one argument prints as.
pub open spec fn spec_print_argument(a: SpecArgument) -> Seq<char> {
    a.name.value + ": "@ + spec_print_value(a.value)
}

/// Arguments joined by `, `.
pub open spec fn spec_print_arguments_commas(s: Seq<SpecArgument>) -> Seq<char>
    decreases s.len(),
{
    if s.len() == 0 {
        Seq::empty()
    } else if s.len() == 1 {
        spec_print_argument(s[0])
    } else {
        spec_print_arguments_commas(s.subrange(0, s.len() - 1)) + ", "@ + spec_print_argument(
            s[s.len() - 1],
        )
    }
}

/// What one directive prints as.
pub open spec fn spec_print_directive(d: SpecDirective) -> Seq<char> {
    seq!['@'] + d.name.value + (if d.arguments.len() > 0 {
        seq!['('] + spec_print_arguments_commas(d.arguments) + seq![')']
    } else {
        Seq::empty()
    })
}

/// Directives joined by a single space.
pub open spec fn spec_print_directives_spaces(s: Seq<SpecDirective>) -> Seq<char>
    decreases s.len(),
{
    if s.len() == 0 {
        Seq::empty()
    } else if s.len() == 1 {
        spec_print_directive(s[0])
    } else {
        spec_print_directives_spaces(s.subrange(0, s.len() - 1)) + " "@ + spec_print_directive(
            s[s.len() - 1],
        )
    }
}

/// What one selection prints as; only fields render, the fragment forms
/// print as a placeholder.
pub open spec fn spec_print_selection(s: SpecSelection, depth: nat) -> Seq<char>
    decreases s,
{
    match s {
        SpecSelection::Field(f) => spec_print_field(f, depth),
        _ => "TODO"@,
    }
}

/// One line per selection, each preceded by a line break.
pub open spec fn spec_print_selection_lines(s: Seq<SpecSelection>, depth: nat) -> Seq<char>
    decreases s,
{
    if s.len() == 0 {
        Seq::empty()
    } else {
        spec_print_selection_lines(s.subrange(0, s.len() - 1), depth) + seq!['\u{000A}']
            + spec_print_selection(s[s.len() - 1], depth)
    }
}

/// What one field prints as: optional `alias: `, the name, the optional
/// parenthesised arguments, the optional directives between spaces, and the
/// optional nested braced block, all indented by the depth.
pub open spec fn spec_print_field(f: SpecField, depth: nat) -> Seq<char>
    decreases f,
{
    spec_print_field_head(f, depth) + (match f.selection_set {
        Some(ss) => if ss.selections.len() > 0 {
            seq!['{'] + spec_print_selection_lines(ss.selections, spec_deeper(depth)) + seq![
                '\u{000A}',
            ] + spec_indent(depth) + seq!['}']
        } else {
            Seq::empty()
        },
        None => Seq::empty(),
    })
}

/// Everything of a field before its optional nested block.
pub open spec fn spec_print_field_head(f: SpecField, depth: nat) -> Seq<char> {
    spec_indent(depth) + (match f.alias {
        Some(a) => a.value + ": "@,
        None => Seq::empty(),
    }) + f.name.value + (if f.arguments.len() > 0 {
        seq!['('] + spec_print_arguments_commas(f.arguments) + seq![')']
    } else {
        Seq::empty()
    }) + (if f.directives.len() > 0 {
        seq![' '] + spec_print_directives_spaces(f.directives) + seq![' ']
    } else {
        Seq::empty()
    })
}

/// What one operation prints as: the keyword, the optional name and the
/// directives separated by spaces, then the braced selection block.
pub open spec fn spec_print_operation(od: SpecOperationDefinition) -> Seq<char> {
    (match od.operation {
        OperationType::Query => "query"@,
        OperationType::Mutation => "mutation"@,
        OperationType::Subscription => "subscription"@,
    }) + (match od.name {
        Some(n) => seq![' '] + n.value,
        None => Seq::empty(),
    }) + spec_print_directives_spaced_prefix(od.directives) + seq![' ', '{']
        + spec_print_selection_lines(od.selection_set.selections, 1) + seq!['\u{000A}', '}']
}

/// Each directive preceded by one space.
pub open spec fn spec_print_directives_spaced_prefix(s: Seq<SpecDirective>) -> Seq<char>
    decreases s.len(),
{
    if s.len() == 0 {
        Seq::empty()
    } else {
        spec_print_directives_spaced_prefix(s.subrange(0, s.len() - 1)) + seq![' ']
            + spec_print_directive(s[s.len() - 1])
    }
}

/// What one definition prints as: operations render, every other kind
/// prints as nothing.
pub open spec fn spec_print_definition(d: SpecDefinition) -> Seq<char> {
    match d {
        SpecDefinition::OperationDefinition(od) => spec_print_operation(od),
        _ => Seq::empty(),
    }
}

/// What a whole document prints as: each definition followed by a line
/// break.
pub open spec fn spec_print_definitions(s: Seq<SpecDefinition>) -> Seq<char>
    decreases s.len(),
{
    if s.len() == 0 {
        Seq::empty()
    } else {
        spec_print_definitions(s.subrange(0, s.len() - 1)) + spec_print_definition(s[s.len() - 1])
            + seq!['\u{000A}']
    }
}

pub open spec fn spec_print_document(d: SpecDocument) -> Seq<char> {
    spec_print_definitions(d.definitions)
}

// ---------------------------------------------------------------------------
// The renderer.
// ---------------------------------------------------------------------------
/// Appends the decimal digits of `m`.
fn push_digits(out: &mut String, m: u32)
    ensures
        final(out)@ == old(out)@ + spec_nat_digits(m as nat),
    decreases m,
{
    if m < 10 {
        out.push(((48 + m) as u8) as char);
    } else {
        push_digits(out, m / 10);
        out.push(((48 + (m % 10)) as u8) as char);
    }
}

/// Appends the decimal rendering of `v`.
fn push_int(out: &mut String, v: i32)
    ensures
        final(out)@ == old(out)@ + spec_int_str(v as int),
{
    if v < 0 {
        out.push('-');
        let m: u32 = if v == i32::MIN {
            2147483648
        } else {
            (-v) as u32
        };
        push_digits(out, m);
    } else {
        push_digits(out, v as u32);
    }
}

/// Appends two spaces of padding per nesting level.
#[verifier::loop_isolation(false)]
fn push_indent(out: &mut String, depth: usize)
    ensures
        final(out)@ == old(out)@ + spec_indent(depth as nat),
{
    let mut i: usize = 0;
    while i < depth
        invariant
            i <= depth,
            out@ =~= old(out)@ + Seq::new((i * 2) as nat, |k: int| ' '),
        decreases depth - i,
    {
        out.push(' ');
        out.push(' ');
        i = i + 1;
        proof {
            assert(out@ =~= old(out)@ + Seq::new((i * 2) as nat, |k: int| ' '));
        }
    }
    proof {
        assert(old(out)@ + Seq::new((depth * 2) as nat, |k: int| ' ') =~= old(out)@ + spec_indent(
            depth as nat,
        ));
    }
}

/// Appends what one value prints as.
fn push_value(out: &mut String, v: &Value)
    ensures
        final(out)@ == old(out)@ + spec_print_value(view_value(*v)),
    decreases v,
{
    match v {
        Value::IntValue(x) => push_int(out, x.value),
        Value::FloatValue(x) => out.append(x.value.as_str()),
        Value::StringValue(x) => {
            out.push('"');
            out.append(x.value.as_str());
            out.push('"');
        },
        Value::BooleanValue(x) => {
            if x.value {
                out.append("true");
            } else {
                out.append("false");
            }
        },
        Value::NullValue(_) => out.append("null"),
        Value::EnumValue(x) => out.append(x.value.as_str()),
        Value::Variable(x) => out.append(x.name.value.as_str()),
        Value::ObjectValue(_) => {},
        Value::ListValue(x) => push_list_items(out, x),
    }
}

/// Appends a list value: its elements joined by `, ` in brackets.
#[verifier::loop_isolation(false)]
fn push_list_items(out: &mut String, x: &ListValue)
    ensures
        final(out)@ == old(out)@ + spec_print_value(
            SpecValue::ListValue(
                crate::parser::types::SpecListValue {
                    values: view_values(x.values@),
                    position: x.position@,
                },
            ),
        ),
    decreases *x,
{
    out.push('[');
    let ghost vs = x.values@;
    let ghost base = out@;
    let n = x.values.len();
    let mut i: usize = 0;
    proof {
        assert(view_values(vs.subrange(0, 0)) =~= Seq::<SpecValue>::empty());
    }
    while i < n
        invariant
            i <= n,
            n == vs.len(),
            x.values@ == vs,
            out@ =~= base + spec_print_values_commas(view_values(vs.subrange(0, i as int))),
        decreases n - i,
    {
        if i > 0 {
            out.append(", ");
        }
        push_value(out, &x.values[i]);
        i = i + 1;
        proof {
            lemma_print_values_commas_step(vs, i as int);
        }
    }
    out.push(']');
    proof {
        assert(vs.subrange(0, vs.len() as int) =~= vs);
    }
}

proof fn lemma_view_values_len(s: Seq<Value>)
    ensures
        view_values(s).len() == s.len(),
    decreases s.len(),
{
    if s.len() > 0 {
        lemma_view_values_len(s.subrange(0, s.len() - 1));
    }
}

/// `view_values` taken one element at a time.
proof fn lemma_view_values_index(s: Seq<Value>, k: int)
    requires
        0 <= k < s.len(),
    ensures
        view_values(s.subrange(0, k + 1)) == view_values(s.subrange(0, k)).push(
            view_value(s[k]),
        ),
{
    assert(s.subrange(0, k + 1).subrange(0, k) =~= s.subrange(0, k));
}

/// The comma-joined rendering extended by one more value.
proof fn lemma_print_values_commas_step(s: Seq<Value>, k: int)
    requires
        1 <= k <= s.len(),
    ensures
        spec_print_values_commas(view_values(s.subrange(0, k))) == if k == 1 {
            spec_print_value(view_value(s[0]))
        } else {
            spec_print_values_commas(view_values(s.subrange(0, k - 1))) + ", "@ + spec_print_value(
                view_value(s[k - 1]),
            )
        },
{
    lemma_view_values_index(s, k - 1);
    lemma_view_values_len(s.subrange(0, k - 1));
    let vv = view_values(s.subrange(0, k));
    let prev = view_values(s.subrange(0, k - 1));
    assert(prev.len() == k - 1);
    assert(vv == prev.push(view_value(s[k - 1])));
    if k == 1 {
        assert(vv.len() == 1);
        assert(vv[0] == view_value(s[0]));
    } else {
        assert(vv.subrange(0, vv.len() - 1) =~= prev);
    }
}

/// Appends what one argument prints as.
fn push_argument(out: &mut String, a: &Argument)
    ensures
        final(out)@ == old(out)@ + spec_print_argument(a@),
{
    out.append(a.name.value.as_str());
    out.append(": ");
    push_value(out, &a.value);
}

/// Appends the comma-joined arguments.
#[verifier::loop_isolation(false)]
fn push_arguments_commas(out: &mut String, args: &Vec<Argument>)
    ensures
        final(out)@ == old(out)@ + spec_print_arguments_commas(
            args@.map_values(|a: Argument| a@),
        ),
{
    let ghost vs = args@.map_values(|a: Argument| a@);
    let n = args.len();
    let mut i: usize = 0;
    proof {
        assert(vs.subrange(0, 0) =~= Seq::<SpecArgument>::empty());
    }
    while i < n
        invariant
            i <= n,
            n == vs.len(),
            args@.map_values(|a: Argument| a@) == vs,
            out@ =~= old(out)@ + spec_print_arguments_commas(vs.subrange(0, i as int)),
        decreases n - i,
    {
        if i > 0 {
            out.append(", ");
        }
        push_argument(out, &args[i]);
        i = i + 1;
        proof {
            let pre = vs.subrange(0, i - 1);
            assert(vs.subrange(0, i as int).subrange(0, i - 1) =~= pre);
            assert(vs.subrange(0, i as int)[i - 1] == vs[i - 1]);
        }
    }
    proof {
        assert(vs.subrange(0, vs.len() as int) =~= vs);
    }
}

/// Appends what one directive prints as.
fn push_directive(out: &mut String, d: &Directive)
    ensures
        final(out)@ == old(out)@ + spec_print_directive(d@),
{
    out.push('@');
    out.append(d.name.value.as_str());
    if d.arguments.len() > 0 {
        out.push('(');
        push_arguments_commas(out, &d.arguments);
        out.push(')');
    }
}

/// Appends the space-joined directives.
#[verifier::loop_isolation(false)]
fn push_directives_spaces(out: &mut String, dirs: &Vec<Directive>)
    ensures
        final(out)@ == old(out)@ + spec_print_directives_spaces(
            dirs@.map_values(|d: Directive| d@),
        ),
{
    let ghost vs = dirs@.map_values(|d: Directive| d@);
    let n = dirs.len();
    let mut i: usize = 0;
    proof {
        assert(vs.subrange(0, 0) =~= Seq::<SpecDirective>::empty());
    }
    while i < n
        invariant
            i <= n,
            n == vs.len(),
            dirs@.map_values(|d: Directive| d@) == vs,
            out@ =~= old(out)@ + spec_print_directives_spaces(vs.subrange(0, i as int)),
        decreases n - i,
    {
        if i > 0 {
            out.append(" ");
        }
        push_directive(out, &dirs[i]);
        i = i + 1;
        proof {
            let pre = vs.subrange(0, i - 1);
            assert(vs.subrange(0, i as int).subrange(0, i - 1) =~= pre);
            assert(vs.subrange(0, i as int)[i - 1] == vs[i - 1]);
        }
    }
    proof {
        assert(vs.subrange(0, vs.len() as int) =~= vs);
    }
}

/// Appends each directive preceded by one space.
#[verifier::loop_isolation(false)]
fn push_directives_spaced_prefix(out: &mut String, dirs: &Vec<Directive>)
    ensures
        final(out)@ == old(out)@ + spec_print_directives_spaced_prefix(
            dirs@.map_values(|d: Directive| d@),
        ),
{
    let ghost vs = dirs@.map_values(|d: Directive| d@);
    let n = dirs.len();
    let mut i: usize = 0;
    proof {
        assert(vs.subrange(0, 0) =~= Seq::<SpecDirective>::empty());
    }
    while i < n
        invariant
            i <= n,
            n == vs.len(),
            dirs@.map_values(|d: Directive| d@) == vs,
            out@ =~= old(out)@ + spec_print_directives_spaced_prefix(vs.subrange(0, i as int)),
        decreases n - i,
    {
        out.push(' ');
        push_directive(out, &dirs[i]);
        i = i + 1;
        proof {
            let pre = vs.subrange(0, i - 1);
            assert(vs.subrange(0, i as int).subrange(0, i - 1) =~= pre);
            assert(vs.subrange(0, i as int)[i - 1] == vs[i - 1]);
        }
    }
    proof {
        assert(vs.subrange(0, vs.len() as int) =~= vs);
    }
}

/// Appends one line per selection, each preceded by a line break.
#[verifier::loop_isolation(false)]
fn push_selection_lines(out: &mut String, sels: &Vec<Selection>, depth: usize)
    ensures
        final(out)@ == old(out)@ + spec_print_selection_lines(
            crate::parser::types::view_selections(sels@),
            depth as nat,
        ),
    decreases sels@, 1int,
{
    let ghost vs = sels@;
    let n = sels.len();
    let mut i: usize = 0;
    proof {
        assert(crate::parser::types::view_selections(vs.subrange(0, 0)) =~= Seq::<
            SpecSelection,
        >::empty());
    }
    while i < n
        invariant
            i <= n,
            n == vs.len(),
            sels@ == vs,
            out@ =~= old(out)@ + spec_print_selection_lines(
                crate::parser::types::view_selections(vs.subrange(0, i as int)),
                depth as nat,
            ),
        decreases n - i,
    {
        out.push('\u{000A}');
        push_selection(out, &sels[i], depth);
        i = i + 1;
        proof {
            lemma_view_selections_index(vs, i - 1);
            let prev = crate::parser::types::view_selections(vs.subrange(0, i - 1));
            let cur = crate::parser::types::view_selections(vs.subrange(0, i as int));
            assert(cur == prev.push(crate::parser::types::view_selection(vs[i - 1])));
            assert(cur.subrange(0, cur.len() - 1) =~= prev);
        }
    }
    proof {
        assert(vs.subrange(0, vs.len() as int) =~= vs);
    }
}

proof fn lemma_view_selections_index(s: Seq<Selection>, k: int)
    requires
        0 <= k < s.len(),
    ensures
        crate::parser::types::view_selections(s.subrange(0, k + 1))
            == crate::parser::types::view_selections(s.subrange(0, k)).push(
            crate::parser::types::view_selection(s[k]),
        ),
{
    assert(s.subrange(0, k + 1).subrange(0, k) =~= s.subrange(0, k));
}

/// Appends what one selection prints as.
fn push_selection(out: &mut String, s: &Selection, depth: usize)
    ensures
        final(out)@ == old(out)@ + spec_print_selection(
            crate::parser::types::view_selection(*s),
            depth as nat,
        ),
    decreases s, 2int,
{
    match s {
        Selection::Field(f) => push_field(out, f, depth),
        _ => out.append("TODO"),
    }
}

/// Appends everything of a field before its optional nested block.
fn push_field_head(out: &mut String, f: &Field, depth: usize)
    ensures
        final(out)@ == old(out)@ + spec_print_field_head(f@, depth as nat),
{
    push_indent(out, depth);
    match &f.alias {
        Some(a) => {
            out.append(a.value.as_str());
            out.append(": ");
        },
        None => {},
    }
    out.append(f.name.value.as_str());
    if f.arguments.len() > 0 {
        out.push('(');
        push_arguments_commas(out, &f.arguments);
        out.push(')');
    }
    if f.directives.len() > 0 {
        out.push(' ');
        push_directives_spaces(out, &f.directives);
        out.push(' ');
    }
}

/// Appends what one field prints as.
#[verifier::rlimit(100)]
#[verifier::spinoff_prover]
fn push_field(out: &mut String, f: &Field, depth: usize)
    ensures
        final(out)@ == old(out)@ + spec_print_field(f@, depth as nat),
    decreases f, 1int,
{
    push_field_head(out, f, depth);
    match &f.selection_set {
        Some(ss) => {
            if ss.selections.len() > 0 {
                out.push('{');
                let next_depth: usize = if depth < usize::MAX {
                    depth + 1
                } else {
                    depth
                };
                push_selection_lines(out, &ss.selections, next_depth);
                out.push('\u{000A}');
                push_indent(out, depth);
                out.push('}');
            }
        },
        None => {},
    }
}

/// Appends what one operation prints as.
#[verifier::rlimit(100)]
#[verifier::spinoff_prover]
fn push_operation(out: &mut String, od: &OperationDefinition)
    ensures
        final(out)@ == old(out)@ + spec_print_operation(od@),
{
    match od.operation {
        OperationType::Query => out.append("query"),
        OperationType::Mutation => out.append("mutation"),
        OperationType::Subscription => out.append("subscription"),
    }
    match &od.name {
        Some(n) => {
            out.push(' ');
            out.append(n.value.as_str());
        },
        None => {},
    }
    push_directives_spaced_prefix(out, &od.directives);
    out.push(' ');
    out.push('{');
    push_selection_lines(out, &od.selection_set.selections, 1);
    out.push('\u{000A}');
    out.push('}');
}

/// Appends what one definition prints as.
fn push_definition(out: &mut String, d: &Definition)
    ensures
        final(out)@ == old(out)@ + spec_print_definition(d@),
{
    match d {
        Definition::OperationDefinition(od) => push_operation(out, od),
        _ => {},
    }
}

/// Renders a document as text: each definition on its own line, operations
/// rendered in full and other definition kinds left blank.
#[verifier::loop_isolation(false)]
pub fn print(document: &Document) -> (r: String)
    ensures
        r@ == spec_print_document(document@),
{
    let ghost vs = document.definitions@.map_values(|d: Definition| d@);
    let mut output = String::new();
    let n = document.definitions.len();
    let mut i: usize = 0;
    proof {
        assert(vs.subrange(0, 0) =~= Seq::<SpecDefinition>::empty());
    }
    while i < n
        invariant
            i <= n,
            n == vs.len(),
            document.definitions@.map_values(|d: Definition| d@) == vs,
            output@ =~= spec_print_definitions(vs.subrange(0, i as int)),
        decreases n - i,
    {
        push_definition(&mut output, &document.definitions[i]);
        output.push('\u{000A}');
        i = i + 1;
        proof {
            let pre = vs.subrange(0, i - 1);
            assert(vs.subrange(0, i as int).subrange(0, i - 1) =~= pre);
            assert(vs.subrange(0, i as int)[i - 1] == vs[i - 1]);
        }
    }
    proof {
        assert(vs.subrange(0, vs.len() as int) =~= vs);
    }
    output
}

} // verus!
