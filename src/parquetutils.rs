use vstd::prelude::*;

use crate::schema::{
    fields_depth, lemma_field_depth, map_type, same_text, spec_map_type, ClickhouseType, ConvertError,
    ConvertedType, Repetition, SchemaNode,
};

verus! {

/// Spaces added to the indentation for each nested level.
pub const INDENT_STEP: usize = 4;

/// Where in the tree the visitor stands, as far as the emitted syntax depends on it.
#[derive(Clone, Copy, Debug, PartialEq, Eq, Structural)]
pub enum Marker {
    Outside,
    /// Below a map's key/value pair: leaves are written without their names.
    InsideMap,
    /// Inside a record that is a map's value: its fields keep their names.
    InsideMapTupleValue,
}

/// What each recursive call of the visitor is handed.
pub struct ParquetVisitorContext {
    pub primary_key: String,
    pub indent: usize,
    pub marker: Marker,
}

impl ParquetVisitorContext {
    pub fn new(primary_key: &str, indent: usize) -> (r: Self)
        ensures
            r.primary_key@ == primary_key@,
            r.indent == indent,
            r.marker == Marker::Outside,
    {
        ParquetVisitorContext { primary_key: String::from_str(primary_key), indent, marker: Marker::Outside }
    }

    fn nested(&self, indent: usize, marker: Marker) -> (r: Self)
        ensures
            r.primary_key@ == self.primary_key@,
            r.indent == indent,
            r.marker == marker,
    {
        ParquetVisitorContext { primary_key: self.primary_key.clone(), indent, marker }
    }
}

pub open spec fn spaces(n: nat) -> Seq<char> {
    Seq::new(n, |i: int| ' ')
}

/// Names of the wrapper groups that lists introduce; they add no level of their own.
pub open spec fn is_wrapper_name(name: Seq<char>) -> bool {
    name == "array"@ || name == "list"@ || name == "element"@ || name == "item"@
}

/// What precedes the i-th of a run of sibling fields.
pub open spec fn separator(prefix: Seq<char>, i: int) -> Seq<char> {
    if i == 0 {
        prefix
    } else {
        prefix + ", "@
    }
}

/// The line written for a leaf of column type `t`.
pub open spec fn primitive_text(
    name: Seq<char>,
    t: ClickhouseType,
    pk: Seq<char>,
    indent: nat,
    marker: Marker,
) -> Seq<char> {
    if marker == Marker::InsideMap {
        if name == pk {
            t.spec_name() + "\n"@
        } else {
            "Nullable("@ + t.spec_name() + ")\n"@
        }
    } else if name == pk {
        name + " "@ + t.spec_name() + "\n"@
    } else if name == "array"@ || name == "element"@ {
        spaces(indent) + name + " "@ + "Nullable("@ + t.spec_name() + ")\n"@
    } else {
        name + " "@ + "Nullable("@ + t.spec_name() + ")\n"@
    }
}

/// Text of a leaf; a group is no leaf.
pub open spec fn leaf_text(node: SchemaNode, pk: Seq<char>, indent: nat, marker: Marker) -> Result<
    Seq<char>,
    ConvertError,
> {
    match node {
        SchemaNode::Primitive { name, physical_type, converted_type, .. } => match spec_map_type(
            physical_type,
            converted_type,
        ) {
            Ok(t) => Ok(primitive_text(name@, t, pk, indent, marker)),
            Err(e) => Err(e),
        },
        SchemaNode::Group { .. } => Err(ConvertError::UnsupportedSchema),
    }
}

/// Text of any node: leaves, lists, maps and records each by their own rule.
pub open spec fn node_text(node: SchemaNode, pk: Seq<char>, indent: nat, marker: Marker) -> Result<
    Seq<char>,
    ConvertError,
>
    decreases node, 2nat,
{
    match node {
        SchemaNode::Primitive { .. } => leaf_text(node, pk, indent, marker),
        SchemaNode::Group { name, converted_type, .. } => {
            if converted_type == ConvertedType::List {
                list_text(node, pk, indent, marker)
            } else if converted_type == ConvertedType::MapGroup || converted_type
                == ConvertedType::MapKeyValue || name@ == "key_value"@ {
                map_text(node, pk, indent, marker)
            } else {
                struct_text(node, pk, indent, marker)
            }
        },
    }
}

/// Text of the first `n` of a run of sibling fields, each after its separator.
pub open spec fn fields_text(
    fields: Seq<SchemaNode>,
    n: int,
    prefix: Seq<char>,
    pk: Seq<char>,
    indent: nat,
    marker: Marker,
) -> Result<Seq<char>, ConvertError>
    decreases fields, n,
{
    if n <= 0 || n > fields.len() {
        Ok(Seq::empty())
    } else {
        match fields_text(fields, n - 1, prefix, pk, indent, marker) {
            Err(e) => Err(e),
            Ok(a) => match node_text(fields[n - 1], pk, indent, marker) {
                Err(e) => Err(e),
                Ok(b) => Ok(a + separator(prefix, n - 1) + b),
            },
        }
    }
}

/// A record: `name Tuple(`, its fields one level deeper, and `)`; a wrapper
/// group writes its fields alone.
pub open spec fn struct_text(node: SchemaNode, pk: Seq<char>, indent: nat, marker: Marker) -> Result<
    Seq<char>,
    ConvertError,
>
    decreases node, 1nat,
{
    match node {
        SchemaNode::Primitive { .. } => Err(ConvertError::UnsupportedSchema),
        SchemaNode::Group { name, fields, .. } => {
            let wrapper = is_wrapper_name(name@);
            let inner: nat = if wrapper { indent } else { (indent + INDENT_STEP) as nat };
            let inner_marker = if !wrapper && marker == Marker::InsideMap {
                Marker::InsideMapTupleValue
            } else {
                marker
            };
            let header = if wrapper {
                Seq::empty()
            } else if marker == Marker::InsideMap {
                "Tuple(\n"@
            } else {
                name@ + " Tuple(\n"@
            };
            let prefix = if name@ == "list"@ { Seq::empty() } else { spaces(inner) };
            let footer = if wrapper { Seq::empty() } else { spaces(indent) + ")\n"@ };
            match fields_text(fields@, fields@.len() as int, prefix, pk, inner, inner_marker) {
                Ok(b) => Ok(header + b + footer),
                Err(e) => Err(e),
            }
        },
    }
}

/// A map: `name Map (` on an annotated map group, and its key/value pair
/// one level deeper, with leaves written without names.
pub open spec fn map_text(node: SchemaNode, pk: Seq<char>, indent: nat, marker: Marker) -> Result<
    Seq<char>,
    ConvertError,
>
    decreases node, 1nat,
{
    match node {
        SchemaNode::Primitive { .. } => Err(ConvertError::UnsupportedSchema),
        SchemaNode::Group { name, converted_type, fields, .. } => {
            let pair = name@ == "key_value"@;
            let header = if converted_type == ConvertedType::MapGroup {
                name@ + " Map (\n"@
            } else {
                Seq::empty()
            };
            let inner: nat = if pair { (indent + INDENT_STEP) as nat } else { indent };
            let prefix = if pair { spaces(inner) } else { Seq::empty() };
            let footer = if pair { spaces(indent) + ")\n"@ } else { Seq::empty() };
            match fields_text(fields@, fields@.len() as int, prefix, pk, inner, Marker::InsideMap) {
                Ok(b) => Ok(header + b + footer),
                Err(e) => Err(e),
            }
        },
    }
}

/// The item of a list group: its one child, or that child's one field where
/// the child is a wrapper group not named `array` nor `<list name>_tuple`.
pub open spec fn list_text(node: SchemaNode, pk: Seq<char>, indent: nat, marker: Marker) -> Result<
    Seq<char>,
    ConvertError,
>
    decreases node, 1nat,
{
    match node {
        SchemaNode::Primitive { .. } => Err(ConvertError::UnsupportedSchema),
        SchemaNode::Group { name, fields, .. } => {
            if fields@.len() != 1 {
                Err(ConvertError::MalformedList)
            } else {
                match fields@[0] {
                    SchemaNode::Primitive { repetition, .. } => {
                        if repetition != Repetition::Repeated {
                            Err(ConvertError::MalformedList)
                        } else {
                            list_item_text(node, fields@[0], pk, indent, marker)
                        }
                    },
                    SchemaNode::Group { name: child_name, fields: child_fields, .. } => {
                        if child_fields@.len() == 1 && child_name@ != "array"@ && child_name@
                            != name@ + "_tuple"@ {
                            list_item_text(node, child_fields@[0], pk, indent, marker)
                        } else {
                            list_item_text(node, fields@[0], pk, indent, marker)
                        }
                    },
                }
            }
        },
    }
}

/// `name Nested (`, the item one level deeper, and `)`.
pub open spec fn list_item_text(
    list: SchemaNode,
    item: SchemaNode,
    pk: Seq<char>,
    indent: nat,
    marker: Marker,
) -> Result<Seq<char>, ConvertError>
    decreases item, 3nat,
{
    if list.spec_converted_type() != ConvertedType::List {
        Err(ConvertError::UnsupportedSchema)
    } else {
        match node_text(item, pk, (indent + INDENT_STEP) as nat, marker) {
            Ok(b) => Ok(list.spec_name() + " Nested (\n"@ + b + spaces(indent) + ")\n"@),
            Err(e) => Err(e),
        }
    }
}

/// Once a field of a run fails, the whole run fails with the same error.
pub proof fn lemma_fields_error_persists(
    fields: Seq<SchemaNode>,
    k: int,
    m: int,
    prefix: Seq<char>,
    pk: Seq<char>,
    indent: nat,
    marker: Marker,
    e: ConvertError,
)
    requires
        0 <= k <= m <= fields.len(),
        fields_text(fields, k, prefix, pk, indent, marker) == Err::<Seq<char>, ConvertError>(e),
    ensures
        fields_text(fields, m, prefix, pk, indent, marker) == Err::<Seq<char>, ConvertError>(e),
    decreases m - k,
{
    if k < m {
        lemma_fields_error_persists(fields, k, m - 1, prefix, pk, indent, marker, e);
    }
}

/// `after` is `before` followed by `text` when `text` is had, and `r` is its error when not.
pub open spec fn emitted(
    r: Result<(), ConvertError>,
    before: Seq<char>,
    after: Seq<char>,
    text: Result<Seq<char>, ConvertError>,
) -> bool {
    match text {
        Ok(t) => r is Ok && after == before + t,
        Err(e) => r == Err::<(), ConvertError>(e),
    }
}

fn push_spaces(out: &mut String, n: usize)
    ensures
        final(out)@ == old(out)@ + spaces(n as nat),
{
    let ghost start = out@;
    let mut i: usize = 0;
    while i < n
        invariant
            i <= n,
            out@ == start + spaces(i as nat),
        decreases n - i,
    {
        out.append(" ");
        proof {
            reveal_strlit(" ");
        }
        assert(out@ =~= start + spaces((i + 1) as nat));
        i += 1;
    }
}

/// The whole statement: drop and create the table, one definition per
/// top-level field, and the engine and primary key clause.
pub open spec fn ddl_text(fields: Seq<SchemaNode>, table: Seq<char>, pk: Seq<char>) -> Result<
    Seq<char>,
    ConvertError,
> {
    match fields_text(
        fields,
        fields.len() as int,
        spaces(INDENT_STEP as nat),
        pk,
        INDENT_STEP as nat,
        Marker::Outside,
    ) {
        Ok(b) => Ok(
            "drop table if exists "@ + table + ";\n"@ + "create table "@ + table + " (\n"@ + b
                + ") engine = MergeTree() primary key ("@ + pk + ");\n"@,
        ),
        Err(e) => Err(e),
    }
}

/// `r` is the statement for `fields`, or the error that prevents it.
pub open spec fn converted(
    r: Result<String, ConvertError>,
    fields: Seq<SchemaNode>,
    table: Seq<char>,
    pk: Seq<char>,
) -> bool {
    match r {
        Ok(s) => ddl_text(fields, table, pk) == Ok::<Seq<char>, ConvertError>(s@),
        Err(e) => ddl_text(fields, table, pk) == Err::<Seq<char>, ConvertError>(e),
    }
}

/// Whether a node can be visited at `indent` without the indentation
/// overflowing a `usize`.
pub fn node_fits(node: &SchemaNode, indent: usize) -> (r: bool)
    ensures
        r == (indent + INDENT_STEP * node.depth() <= usize::MAX),
    decreases node,
{
    match node {
        SchemaNode::Primitive { .. } => true,
        SchemaNode::Group { fields, .. } => {
            if indent > usize::MAX - INDENT_STEP {
                false
            } else {
                fields_fit(fields, indent + INDENT_STEP)
            }
        },
    }
}

/// Whether every field of a run can be visited at `indent` without the
/// indentation overflowing a `usize`.
pub fn fields_fit(fields: &Vec<SchemaNode>, indent: usize) -> (r: bool)
    ensures
        r == (indent + INDENT_STEP * fields_depth(fields@, fields@.len() as int) <= usize::MAX),
    decreases fields,
{
    let mut i: usize = 0;
    while i < fields.len()
        invariant
            i <= fields@.len(),
            indent + INDENT_STEP * fields_depth(fields@, i as int) <= usize::MAX,
        decreases fields@.len() - i,
    {
        if !node_fits(&fields[i], indent) {
            proof {
                lemma_field_depth(fields@, fields@.len() as int, i as int);
            }
            return false;
        }
        i += 1;
    }
    true
}

/// Writes the column definitions of a schema into `out`.
pub struct ParquetVisitor {
    pub out: String,
}

impl ParquetVisitor {
    pub fn new() -> (r: Self)
        ensures
            r.out@ == Seq::<char>::empty(),
    {
        ParquetVisitor { out: String::new() }
    }

    /// Writes the line of a leaf.
    pub fn visit_primitive(&mut self, node: &SchemaNode, context: &ParquetVisitorContext) -> (r:
        Result<(), ConvertError>)
        ensures
            emitted(
                r,
                old(self).out@,
                final(self).out@,
                leaf_text(*node, context.primary_key@, context.indent as nat, context.marker),
            ),
    {
        match node {
            SchemaNode::Group { .. } => Err(ConvertError::UnsupportedSchema),
            SchemaNode::Primitive { name, physical_type, converted_type, .. } => {
                let t = match map_type(*physical_type, *converted_type) {
                    Ok(t) => t,
                    Err(e) => return Err(e),
                };
                let ghost start = self.out@;
                let ghost text = primitive_text(
                    name@,
                    t,
                    context.primary_key@,
                    context.indent as nat,
                    context.marker,
                );
                let is_key = name.eq(&context.primary_key);
                let column_type = t.name();
                if context.marker == Marker::InsideMap {
                    if is_key {
                        self.out.append(column_type);
                        self.out.append("\n");
                    } else {
                        self.out.append("Nullable(");
                        self.out.append(column_type);
                        self.out.append(")\n");
                    }
                } else if is_key {
                    self.out.append(name.as_str());
                    self.out.append(" ");
                    self.out.append(column_type);
                    self.out.append("\n");
                } else if same_text(name, "array") || same_text(name, "element") {
                    push_spaces(&mut self.out, context.indent);
                    self.out.append(name.as_str());
                    self.out.append(" ");
                    self.out.append("Nullable(");
                    self.out.append(column_type);
                    self.out.append(")\n");
                } else {
                    self.out.append(name.as_str());
                    self.out.append(" ");
                    self.out.append("Nullable(");
                    self.out.append(column_type);
                    self.out.append(")\n");
                }
                assert(self.out@ =~= start + text);
                Ok(())
            },
        }
    }

    /// Routes a node to the handler of its shape: leaf, list, map or record.
    pub fn dispatch(&mut self, node: &SchemaNode, context: &ParquetVisitorContext) -> (r: Result<
        (),
        ConvertError,
    >)
        requires
            context.indent + INDENT_STEP * node.depth() <= usize::MAX,
        ensures
            emitted(
                r,
                old(self).out@,
                final(self).out@,
                node_text(*node, context.primary_key@, context.indent as nat, context.marker),
            ),
        decreases node, 2nat,
    {
        match node {
            SchemaNode::Primitive { .. } => self.visit_primitive(node, context),
            SchemaNode::Group { name, converted_type, .. } => {
                if *converted_type == ConvertedType::List {
                    self.visit_list(node, context)
                } else if *converted_type == ConvertedType::MapGroup || *converted_type
                    == ConvertedType::MapKeyValue || same_text(name, "key_value") {
                    self.visit_map(node, context)
                } else {
                    self.visit_struct(node, context)
                }
            },
        }
    }

    /// Writes a run of sibling fields, each after its separator.
    fn visit_fields(
        &mut self,
        fields: &Vec<SchemaNode>,
        prefix: &String,
        context: &ParquetVisitorContext,
    ) -> (r: Result<(), ConvertError>)
        requires
            context.indent + INDENT_STEP * fields_depth(fields@, fields@.len() as int)
                <= usize::MAX,
        ensures
            emitted(
                r,
                old(self).out@,
                final(self).out@,
                fields_text(
                    fields@,
                    fields@.len() as int,
                    prefix@,
                    context.primary_key@,
                    context.indent as nat,
                    context.marker,
                ),
            ),
        decreases fields,
    {
        let ghost pk = context.primary_key@;
        let ghost indent = context.indent as nat;
        let ghost start = self.out@;
        let ghost mut acc: Seq<char> = Seq::empty();
        let mut i: usize = 0;
        while i < fields.len()
            invariant
                i <= fields@.len(),
                pk == context.primary_key@,
                indent == context.indent as nat,
                context.indent + INDENT_STEP * fields_depth(fields@, fields@.len() as int)
                    <= usize::MAX,
                fields_text(fields@, i as int, prefix@, pk, indent, context.marker) == Ok::<
                    Seq<char>,
                    ConvertError,
                >(acc),
                self.out@ == start + acc,
            decreases fields@.len() - i,
        {
            let ghost before = self.out@;
            self.out.append(prefix.as_str());
            if i > 0 {
                self.out.append(", ");
            }
            assert(self.out@ =~= before + separator(prefix@, i as int));
            proof {
                lemma_field_depth(fields@, fields@.len() as int, i as int);
            }
            match self.dispatch(&fields[i], context) {
                Err(e) => {
                    proof {
                        lemma_fields_error_persists(
                            fields@,
                            i + 1,
                            fields@.len() as int,
                            prefix@,
                            pk,
                            indent,
                            context.marker,
                            e,
                        );
                    }
                    return Err(e);
                },
                Ok(()) => {},
            }
            proof {
                let b = node_text(fields@[i as int], pk, indent, context.marker)->Ok_0;
                acc = acc + separator(prefix@, i as int) + b;
                assert(self.out@ =~= start + acc);
            }
            i += 1;
        }
        Ok(())
    }

    /// Writes a record, or the fields of a list's wrapper group.
    pub fn visit_struct(&mut self, node: &SchemaNode, context: &ParquetVisitorContext) -> (r:
        Result<(), ConvertError>)
        requires
            context.indent + INDENT_STEP * node.depth() <= usize::MAX,
        ensures
            emitted(
                r,
                old(self).out@,
                final(self).out@,
                struct_text(*node, context.primary_key@, context.indent as nat, context.marker),
            ),
        decreases node, 1nat,
    {
        match node {
            SchemaNode::Primitive { .. } => Err(ConvertError::UnsupportedSchema),
            SchemaNode::Group { name, fields, .. } => {
                let ghost start = self.out@;
                let wrapper = same_text(name, "array") || same_text(name, "list") || same_text(
                    name,
                    "element",
                ) || same_text(name, "item");
                let inner: usize = if wrapper {
                    context.indent
                } else {
                    context.indent + INDENT_STEP
                };
                let inner_marker = if !wrapper && context.marker == Marker::InsideMap {
                    Marker::InsideMapTupleValue
                } else {
                    context.marker
                };
                if !wrapper {
                    if context.marker == Marker::InsideMap {
                        self.out.append("Tuple(\n");
                    } else {
                        self.out.append(name.as_str());
                        self.out.append(" Tuple(\n");
                    }
                }
                let mut prefix = String::new();
                if !same_text(name, "list") {
                    push_spaces(&mut prefix, inner);
                }
                let inner_context = context.nested(inner, inner_marker);
                let ghost mid = self.out@;
                match self.visit_fields(fields, &prefix, &inner_context) {
                    Err(e) => return Err(e),
                    Ok(()) => {},
                }
                let ghost after_fields = self.out@;
                if !wrapper {
                    push_spaces(&mut self.out, context.indent);
                    self.out.append(")\n");
                }
                proof {
                    let ft = fields_text(
                        fields@,
                        fields@.len() as int,
                        prefix@,
                        context.primary_key@,
                        inner as nat,
                        inner_marker,
                    );
                    let b = ft->Ok_0;
                    let spec_header = if wrapper {
                        Seq::<char>::empty()
                    } else if context.marker == Marker::InsideMap {
                        "Tuple(\n"@
                    } else {
                        name@ + " Tuple(\n"@
                    };
                    let spec_footer = if wrapper {
                        Seq::<char>::empty()
                    } else {
                        spaces(context.indent as nat) + ")\n"@
                    };
                    let spec_prefix = if name@ == "list"@ {
                        Seq::<char>::empty()
                    } else {
                        spaces(inner as nat)
                    };
                    assert(wrapper == is_wrapper_name(name@));
                    assert(prefix@ =~= spec_prefix);
                    assert(mid =~= start + spec_header);
                    assert(after_fields == mid + b);
                    assert(self.out@ =~= after_fields + spec_footer);
                    assert(self.out@ =~= start + (spec_header + b + spec_footer));
                }
                Ok(())
            },
        }
    }

    /// Writes a map, or the key/value pair group inside it.
    pub fn visit_map(&mut self, node: &SchemaNode, context: &ParquetVisitorContext) -> (r: Result<
        (),
        ConvertError,
    >)
        requires
            context.indent + INDENT_STEP * node.depth() <= usize::MAX,
        ensures
            emitted(
                r,
                old(self).out@,
                final(self).out@,
                map_text(*node, context.primary_key@, context.indent as nat, context.marker),
            ),
        decreases node, 1nat,
    {
        match node {
            SchemaNode::Primitive { .. } => Err(ConvertError::UnsupportedSchema),
            SchemaNode::Group { name, converted_type, fields, .. } => {
                let ghost start = self.out@;
                if *converted_type == ConvertedType::MapGroup {
                    self.out.append(name.as_str());
                    self.out.append(" Map (\n");
                }
                let pair = same_text(name, "key_value");
                let inner: usize = if pair {
                    context.indent + INDENT_STEP
                } else {
                    context.indent
                };
                let mut prefix = String::new();
                if pair {
                    push_spaces(&mut prefix, inner);
                }
                let inner_context = context.nested(inner, Marker::InsideMap);
                let ghost mid = self.out@;
                match self.visit_fields(fields, &prefix, &inner_context) {
                    Err(e) => return Err(e),
                    Ok(()) => {},
                }
                let ghost after_fields = self.out@;
                if pair {
                    push_spaces(&mut self.out, context.indent);
                    self.out.append(")\n");
                }
                proof {
                    let ft = fields_text(
                        fields@,
                        fields@.len() as int,
                        prefix@,
                        context.primary_key@,
                        inner as nat,
                        Marker::InsideMap,
                    );
                    let b = ft->Ok_0;
                    let spec_header = if *converted_type == ConvertedType::MapGroup {
                        name@ + " Map (\n"@
                    } else {
                        Seq::<char>::empty()
                    };
                    let spec_footer = if pair {
                        spaces(context.indent as nat) + ")\n"@
                    } else {
                        Seq::<char>::empty()
                    };
                    let spec_prefix = if pair {
                        spaces(inner as nat)
                    } else {
                        Seq::<char>::empty()
                    };
                    assert(prefix@ =~= spec_prefix);
                    assert(mid =~= start + spec_header);
                    assert(after_fields == mid + b);
                    assert(self.out@ =~= after_fields + spec_footer);
                    assert(self.out@ =~= start + (spec_header + b + spec_footer));
                }
                Ok(())
            },
        }
    }

    /// Checks the list group's shape and finds its item.
    pub fn visit_list(&mut self, node: &SchemaNode, context: &ParquetVisitorContext) -> (r: Result<
        (),
        ConvertError,
    >)
        requires
            context.indent + INDENT_STEP * node.depth() <= usize::MAX,
        ensures
            emitted(
                r,
                old(self).out@,
                final(self).out@,
                list_text(*node, context.primary_key@, context.indent as nat, context.marker),
            ),
        decreases node, 1nat,
    {
        match node {
            SchemaNode::Primitive { .. } => Err(ConvertError::UnsupportedSchema),
            SchemaNode::Group { name, fields, .. } => {
                if fields.len() != 1 {
                    return Err(ConvertError::MalformedList);
                }
                proof {
                    lemma_field_depth(fields@, 1, 0);
                }
                let child = &fields[0];
                match child {
                    SchemaNode::Primitive { repetition, .. } => {
                        if *repetition != Repetition::Repeated {
                            Err(ConvertError::MalformedList)
                        } else {
                            self.visit_list_with_item(node, child, context)
                        }
                    },
                    SchemaNode::Group { name: child_name, fields: child_fields, .. } => {
                        let tuple_name = name.clone().concat("_tuple");
                        if child_fields.len() == 1 && !same_text(child_name, "array")
                            && !child_name.eq(&tuple_name) {
                            proof {
                                lemma_field_depth(child_fields@, 1, 0);
                            }
                            self.visit_list_with_item(node, &child_fields[0], context)
                        } else {
                            self.visit_list_with_item(node, child, context)
                        }
                    },
                }
            },
        }
    }

    /// Writes `name Nested (`, the item one level deeper, and `)`.
    pub fn visit_list_with_item(
        &mut self,
        list: &SchemaNode,
        item: &SchemaNode,
        context: &ParquetVisitorContext,
    ) -> (r: Result<(), ConvertError>)
        requires
            context.indent + INDENT_STEP + INDENT_STEP * item.depth() <= usize::MAX,
        ensures
            emitted(
                r,
                old(self).out@,
                final(self).out@,
                list_item_text(
                    *list,
                    *item,
                    context.primary_key@,
                    context.indent as nat,
                    context.marker,
                ),
            ),
        decreases item, 3nat,
    {
        if list.converted_type() != ConvertedType::List {
            return Err(ConvertError::UnsupportedSchema);
        }
        let ghost start = self.out@;
        self.out.append(list.name().as_str());
        self.out.append(" Nested (\n");
        let inner_context = context.nested(context.indent + INDENT_STEP, context.marker);
        match self.dispatch(item, &inner_context) {
            Err(e) => return Err(e),
            Ok(()) => {},
        }
        push_spaces(&mut self.out, context.indent);
        self.out.append(")\n");
        proof {
            let b = node_text(
                *item,
                context.primary_key@,
                (context.indent + INDENT_STEP) as nat,
                context.marker,
            )->Ok_0;
            assert(self.out@ =~= start + (list.spec_name() + " Nested (\n"@ + b + spaces(
                context.indent as nat,
            ) + ")\n"@));
        }
        Ok(())
    }
}

/// Whether `s` ends with `suffix`.
pub open spec fn ends_with(s: Seq<char>, suffix: Seq<char>) -> bool {
    suffix.len() <= s.len() && s.subrange(s.len() - suffix.len(), s.len() as int) == suffix
}

/// A leaf other than the primary key is written with its column type inside
/// `Nullable(...)`; the primary-key leaf is written with its bare type.
pub proof fn lemma_nullable_unless_primary_key(
    node: SchemaNode,
    pk: Seq<char>,
    indent: nat,
    marker: Marker,
)
    requires
        node is Primitive,
        node.leaf_type() is Ok,
    ensures
        ({
            let t = node.leaf_type()->Ok_0;
            let text = node_text(node, pk, indent, marker);
            &&& text is Ok
            &&& node.spec_name() != pk ==> ends_with(
                text->Ok_0,
                "Nullable("@ + t.spec_name() + ")\n"@,
            )
            &&& node.spec_name() == pk ==> text->Ok_0 == if marker == Marker::InsideMap {
                t.spec_name() + "\n"@
            } else {
                pk + " "@ + t.spec_name() + "\n"@
            }
        }),
{
    let t = node.leaf_type()->Ok_0;
    let name = node.spec_name();
    let text = primitive_text(name, t, pk, indent, marker);
    let wrapped = "Nullable("@ + t.spec_name() + ")\n"@;
    assert(node_text(node, pk, indent, marker) == Ok::<Seq<char>, ConvertError>(text));
    if name != pk {
        if marker == Marker::InsideMap {
            assert(text.subrange(text.len() - wrapped.len(), text.len() as int) =~= wrapped);
        } else if name == "array"@ || name == "element"@ {
            assert(text =~= (spaces(indent) + name + " "@) + wrapped);
            assert(text.subrange(text.len() - wrapped.len(), text.len() as int) =~= wrapped);
        } else {
            assert(text =~= (name + " "@) + wrapped);
            assert(text.subrange(text.len() - wrapped.len(), text.len() as int) =~= wrapped);
        }
    }
}

/// A list group that does not hold exactly one child fails with `MalformedList`.
pub proof fn lemma_malformed_list(node: SchemaNode, pk: Seq<char>, indent: nat, marker: Marker)
    requires
        node is Group,
        node.spec_converted_type() == ConvertedType::List,
        node.spec_fields().len() != 1,
    ensures
        node_text(node, pk, indent, marker) == Err::<Seq<char>, ConvertError>(
            ConvertError::MalformedList,
        ),
{
}

/// A map whose key/value pair holds two leaves, neither of them the primary
/// key, is written as `name Map (`, the two column types in `Nullable(...)`
/// one level deeper, and `)`.
pub proof fn lemma_map_of_leaves(map: SchemaNode, pk: Seq<char>, indent: nat, marker: Marker)
    requires
        map is Group,
        map.spec_converted_type() == ConvertedType::MapGroup,
        map.spec_name() != "key_value"@,
        map.spec_fields().len() == 1,
        map.spec_fields()[0] is Group,
        map.spec_fields()[0].spec_name() == "key_value"@,
        map.spec_fields()[0].spec_converted_type() != ConvertedType::List,
        map.spec_fields()[0].spec_converted_type() != ConvertedType::MapGroup,
        map.spec_fields()[0].spec_fields().len() == 2,
        map.spec_fields()[0].spec_fields()[0] is Primitive,
        map.spec_fields()[0].spec_fields()[1] is Primitive,
        map.spec_fields()[0].spec_fields()[0].leaf_type() is Ok,
        map.spec_fields()[0].spec_fields()[1].leaf_type() is Ok,
        map.spec_fields()[0].spec_fields()[0].spec_name() != pk,
        map.spec_fields()[0].spec_fields()[1].spec_name() != pk,
    ensures
        ({
            let pair = map.spec_fields()[0];
            let key_type = pair.spec_fields()[0].leaf_type()->Ok_0;
            let value_type = pair.spec_fields()[1].leaf_type()->Ok_0;
            let inner = spaces((indent + INDENT_STEP) as nat);
            node_text(map, pk, indent, marker) == Ok::<Seq<char>, ConvertError>(
                map.spec_name() + " Map (\n"@ + inner + "Nullable("@ + key_type.spec_name()
                    + ")\n"@ + inner + ", "@ + "Nullable("@ + value_type.spec_name() + ")\n"@
                    + spaces(indent) + ")\n"@,
            )
        }),
{
    let pair = map.spec_fields()[0];
    let key = pair.spec_fields()[0];
    let value = pair.spec_fields()[1];
    let inner_indent = (indent + INDENT_STEP) as nat;
    let inner = spaces(inner_indent);
    let key_text = "Nullable("@ + key.leaf_type()->Ok_0.spec_name() + ")\n"@;
    let value_text = "Nullable("@ + value.leaf_type()->Ok_0.spec_name() + ")\n"@;
    let m = Marker::InsideMap;
    assert(node_text(key, pk, inner_indent, m) == Ok::<Seq<char>, ConvertError>(key_text));
    assert(node_text(value, pk, inner_indent, m) == Ok::<Seq<char>, ConvertError>(value_text));
    let e = Seq::<char>::empty();
    assert(fields_text(pair.spec_fields(), 0, inner, pk, inner_indent, m) == Ok::<
        Seq<char>,
        ConvertError,
    >(e));
    assert(fields_text(pair.spec_fields(), 1, inner, pk, inner_indent, m) == Ok::<
        Seq<char>,
        ConvertError,
    >(e + inner + key_text));
    let body = e + inner + key_text + (inner + ", "@) + value_text;
    assert(fields_text(pair.spec_fields(), 2, inner, pk, inner_indent, m) == Ok::<
        Seq<char>,
        ConvertError,
    >(body));
    let pair_text = e + body + (spaces(indent) + ")\n"@);
    assert(map_text(pair, pk, indent, m) == Ok::<Seq<char>, ConvertError>(pair_text));
    assert(node_text(pair, pk, indent, m) == Ok::<Seq<char>, ConvertError>(pair_text));
    assert(fields_text(map.spec_fields(), 0, e, pk, indent, m) == Ok::<Seq<char>, ConvertError>(
        e,
    ));
    assert(fields_text(map.spec_fields(), 1, e, pk, indent, m) == Ok::<Seq<char>, ConvertError>(
        e + e + pair_text,
    ));
    let full = map.spec_name() + " Map (\n"@ + (e + e + pair_text) + e;
    assert(map_text(map, pk, indent, marker) == Ok::<Seq<char>, ConvertError>(full));
    assert(full =~= map.spec_name() + " Map (\n"@ + inner + "Nullable("@
        + key.leaf_type()->Ok_0.spec_name() + ")\n"@ + inner + ", "@ + "Nullable("@
        + value.leaf_type()->Ok_0.spec_name() + ")\n"@ + spaces(indent) + ")\n"@);
}

/// Converting the same fields with the same table name and primary key
/// twice gives the same text, or the same error.
pub proof fn lemma_conversion_idempotent(
    fields: Seq<SchemaNode>,
    table: Seq<char>,
    pk: Seq<char>,
    first: Result<String, ConvertError>,
    second: Result<String, ConvertError>,
)
    requires
        converted(first, fields, table, pk),
        converted(second, fields, table, pk),
    ensures
        first is Ok <==> second is Ok,
        first is Ok ==> first->Ok_0@ == second->Ok_0@,
        first is Err ==> first == second,
{
}

/// Turns a schema's top-level fields into a table definition.
pub struct ParquetUtils {}

impl ParquetUtils {
    /// The statement that drops and creates `table_name` with one column per
    /// top-level field and `primary_key` as its primary key.
    pub fn parquet_schema_to_clickhouse(
        fields: &Vec<SchemaNode>,
        table_name: &str,
        primary_key: &str,
    ) -> (r: Result<String, ConvertError>)
        requires
            INDENT_STEP + INDENT_STEP * fields_depth(fields@, fields@.len() as int) <= usize::MAX,
        ensures
            converted(r, fields@, table_name@, primary_key@),
    {
        let context = ParquetVisitorContext::new(primary_key, INDENT_STEP);
        let mut visitor = ParquetVisitor::new();
        visitor.out.append("drop table if exists ");
        visitor.out.append(table_name);
        visitor.out.append(";\n");
        visitor.out.append("create table ");
        visitor.out.append(table_name);
        visitor.out.append(" (\n");
        let mut prefix = String::new();
        push_spaces(&mut prefix, INDENT_STEP);
        match visitor.visit_fields(fields, &prefix, &context) {
            Err(e) => return Err(e),
            Ok(()) => {},
        }
        visitor.out.append(") engine = MergeTree() primary key (");
        visitor.out.append(primary_key);
        visitor.out.append(");\n");
        proof {
            let b = fields_text(
                fields@,
                fields@.len() as int,
                spaces(INDENT_STEP as nat),
                primary_key@,
                INDENT_STEP as nat,
                Marker::Outside,
            )->Ok_0;
            assert(prefix@ =~= spaces(INDENT_STEP as nat));
            assert(visitor.out@ =~= "drop table if exists "@ + table_name@ + ";\n"@
                + "create table "@ + table_name@ + " (\n"@ + b
                + ") engine = MergeTree() primary key ("@ + primary_key@ + ");\n"@);
        }
        Ok(visitor.out)
    }
}

} // verus!
