use parquet_to_clickhouse_schema::parquetutils::{
    fields_fit, node_fits, Marker, ParquetUtils, ParquetVisitor, ParquetVisitorContext,
};
use parquet_to_clickhouse_schema::schema::{
    map_type, ClickhouseType, ConvertError, ConvertedType, PhysicalType, Repetition, SchemaNode,
};

fn leaf(name: &str, repetition: Repetition, physical_type: PhysicalType, converted_type: ConvertedType) -> SchemaNode {
    SchemaNode::Primitive { name: name.to_string(), repetition, physical_type, converted_type }
}

fn text(name: &str) -> SchemaNode {
    leaf(name, Repetition::Optional, PhysicalType::ByteArray, ConvertedType::Utf8)
}

fn group(name: &str, repetition: Repetition, converted_type: ConvertedType, fields: Vec<SchemaNode>) -> SchemaNode {
    SchemaNode::Group { name: name.to_string(), repetition, converted_type, fields }
}

/// The schema that a columnar writer gives to a batch with an `int32`, a
/// nullable string, a record of two strings and a list of records of one string.
fn sample_fields() -> Vec<SchemaNode> {
    let item = group("item", Repetition::Optional, ConvertedType::Unannotated, vec![text("a")]);
    let list = group("list", Repetition::Repeated, ConvertedType::Unannotated, vec![item]);
    vec![
        leaf("a", Repetition::Optional, PhysicalType::Int32, ConvertedType::Unannotated),
        text("b"),
        group("c", Repetition::Optional, ConvertedType::Unannotated, vec![text("a"), text("b")]),
        group("d", Repetition::Optional, ConvertedType::List, vec![list]),
    ]
}

fn emit(node: &SchemaNode, primary_key: &str, indent: usize) -> Result<String, ConvertError> {
    let context = ParquetVisitorContext::new(primary_key, indent);
    let mut visitor = ParquetVisitor::new();
    visitor.dispatch(node, &context).map(|()| visitor.out)
}

#[test]
fn test_parquet_schema_to_clickhouse() {
    let fields = sample_fields();
    let schema = ParquetUtils::parquet_schema_to_clickhouse(&fields, "T", "foo").unwrap();
    let expected_schema = "\
        drop table if exists T;\n\
        create table T (\n\
        \x20   a Nullable(Int32)\n\
        \x20   , b Nullable(String)\n\
        \x20   , c Tuple(\n\
        \x20       a Nullable(String)\n\
        \x20       , b Nullable(String)\n\
        \x20   )\n\
        \x20   , d Nested (\n\
        \x20       a Nullable(String)\n\
        \x20   )\n\
        ) engine = MergeTree() primary key (foo);\n\
        ";
    assert_eq!(expected_schema, schema);
}

#[test]
fn primary_key_column_has_bare_type() {
    let fields = sample_fields();
    let schema = ParquetUtils::parquet_schema_to_clickhouse(&fields, "T", "a").unwrap();
    let expected = "drop table if exists T;\ncreate table T (\n    a Int32\n    , b Nullable(String)\n    , c Tuple(\n        a String\n        , b Nullable(String)\n    )\n    , d Nested (\n        a String\n    )\n) engine = MergeTree() primary key (a);\n";
    assert_eq!(expected, schema);
}

#[test]
fn leaves_are_nullable_unless_primary_key() {
    let id = leaf("id", Repetition::Required, PhysicalType::Int64, ConvertedType::Unannotated);
    assert_eq!(emit(&id, "id", 4).unwrap(), "id Int64\n");
    assert_eq!(emit(&id, "other", 4).unwrap(), "id Nullable(Int64)\n");
}

#[test]
fn conversion_is_idempotent() {
    let fields = sample_fields();
    let first = ParquetUtils::parquet_schema_to_clickhouse(&fields, "T", "foo").unwrap();
    let second = ParquetUtils::parquet_schema_to_clickhouse(&fields, "T", "foo").unwrap();
    assert_eq!(first, second);
}

#[test]
fn struct_of_two_strings() {
    let c = group("c", Repetition::Optional, ConvertedType::Unannotated, vec![text("a"), text("b")]);
    assert_eq!(
        emit(&c, "foo", 4).unwrap(),
        "c Tuple(\n        a Nullable(String)\n        , b Nullable(String)\n    )\n"
    );
}

#[test]
fn list_of_single_field_struct() {
    let fields = sample_fields();
    assert_eq!(emit(&fields[3], "foo", 4).unwrap(), "d Nested (\n        a Nullable(String)\n    )\n");
}

#[test]
fn map_of_scalars() {
    let pair = group(
        "key_value",
        Repetition::Repeated,
        ConvertedType::Unannotated,
        vec![
            leaf("key", Repetition::Required, PhysicalType::ByteArray, ConvertedType::Utf8),
            leaf("value", Repetition::Optional, PhysicalType::Int32, ConvertedType::Unannotated),
        ],
    );
    let m = group("m", Repetition::Optional, ConvertedType::MapGroup, vec![pair]);
    assert_eq!(
        emit(&m, "foo", 4).unwrap(),
        "m Map (\n        Nullable(String)\n        , Nullable(Int32)\n    )\n"
    );
}

#[test]
fn map_with_record_value() {
    let value = group("value", Repetition::Optional, ConvertedType::Unannotated, vec![text("x")]);
    let pair = group(
        "key_value",
        Repetition::Repeated,
        ConvertedType::MapKeyValue,
        vec![leaf("key", Repetition::Required, PhysicalType::Int32, ConvertedType::Unannotated), value],
    );
    let m = group("m", Repetition::Optional, ConvertedType::MapGroup, vec![pair]);
    assert_eq!(
        emit(&m, "foo", 0).unwrap(),
        "m Map (\n    Nullable(Int32)\n    , Tuple(\n        x Nullable(String)\n    )\n)\n"
    );
}

#[test]
fn malformed_list_fails() {
    let bad = group("d", Repetition::Optional, ConvertedType::List, vec![text("a"), text("b")]);
    assert_eq!(emit(&bad, "foo", 4), Err(ConvertError::MalformedList));
    let fields = vec![text("a"), bad];
    assert_eq!(
        ParquetUtils::parquet_schema_to_clickhouse(&fields, "T", "foo"),
        Err(ConvertError::MalformedList)
    );
}

#[test]
fn list_with_non_repeated_leaf_fails() {
    let bad = group("d", Repetition::Optional, ConvertedType::List, vec![text("a")]);
    assert_eq!(emit(&bad, "foo", 4), Err(ConvertError::MalformedList));
}

#[test]
fn legacy_list_of_repeated_leaf() {
    let list = group(
        "d",
        Repetition::Optional,
        ConvertedType::List,
        vec![leaf("array", Repetition::Repeated, PhysicalType::Int32, ConvertedType::Unannotated)],
    );
    assert_eq!(emit(&list, "foo", 4).unwrap(), "d Nested (\n        array Nullable(Int32)\n    )\n");
}

#[test]
fn standard_list_of_leaves() {
    let element = leaf("element", Repetition::Optional, PhysicalType::Int64, ConvertedType::Unannotated);
    let wrapper = group("list", Repetition::Repeated, ConvertedType::Unannotated, vec![element]);
    let list = group("d", Repetition::Optional, ConvertedType::List, vec![wrapper]);
    assert_eq!(emit(&list, "foo", 4).unwrap(), "d Nested (\n        element Nullable(Int64)\n    )\n");
}

#[test]
fn array_wrapper_is_not_unwrapped() {
    let wrapper = group("array", Repetition::Repeated, ConvertedType::Unannotated, vec![text("s")]);
    let list = group("d", Repetition::Optional, ConvertedType::List, vec![wrapper]);
    assert_eq!(emit(&list, "foo", 4).unwrap(), "d Nested (\n        s Nullable(String)\n    )\n");
}

#[test]
fn tuple_wrapper_is_not_unwrapped() {
    let wrapper = group("d_tuple", Repetition::Repeated, ConvertedType::Unannotated, vec![text("s")]);
    let list = group("d", Repetition::Optional, ConvertedType::List, vec![wrapper]);
    assert_eq!(
        emit(&list, "foo", 4).unwrap(),
        "d Nested (\nd_tuple Tuple(\n            s Nullable(String)\n        )\n    )\n"
    );
}

#[test]
fn list_item_needs_list_group() {
    let plain = group("g", Repetition::Optional, ConvertedType::Unannotated, vec![text("s")]);
    let context = ParquetVisitorContext::new("foo", 4);
    let mut visitor = ParquetVisitor::new();
    assert_eq!(
        visitor.visit_list_with_item(&plain, &text("s"), &context),
        Err(ConvertError::UnsupportedSchema)
    );
}

#[test]
fn unsupported_types_fail() {
    let old = leaf("t", Repetition::Optional, PhysicalType::Int96, ConvertedType::Unannotated);
    assert_eq!(
        emit(&old, "foo", 4),
        Err(ConvertError::UnsupportedType {
            physical_type: PhysicalType::Int96,
            converted_type: ConvertedType::Unannotated
        })
    );
    assert_eq!(
        map_type(PhysicalType::Int32, ConvertedType::Decimal),
        Err(ConvertError::UnsupportedType {
            physical_type: PhysicalType::Int32,
            converted_type: ConvertedType::Decimal
        })
    );
    assert_eq!(
        map_type(PhysicalType::FixedLenByteArray, ConvertedType::Unannotated),
        Err(ConvertError::UnsupportedType {
            physical_type: PhysicalType::FixedLenByteArray,
            converted_type: ConvertedType::Unannotated
        })
    );
}

#[test]
fn type_mapping() {
    assert_eq!(map_type(PhysicalType::Boolean, ConvertedType::Unannotated), Ok(ClickhouseType::Bool));
    assert_eq!(map_type(PhysicalType::Int32, ConvertedType::Unannotated), Ok(ClickhouseType::Int32));
    assert_eq!(map_type(PhysicalType::Int64, ConvertedType::Unannotated), Ok(ClickhouseType::Int64));
    assert_eq!(map_type(PhysicalType::Float, ConvertedType::Unannotated), Ok(ClickhouseType::Float32));
    assert_eq!(map_type(PhysicalType::Double, ConvertedType::Unannotated), Ok(ClickhouseType::Float64));
    assert_eq!(map_type(PhysicalType::ByteArray, ConvertedType::Unannotated), Ok(ClickhouseType::String));
    assert_eq!(map_type(PhysicalType::Int96, ConvertedType::Utf8), Ok(ClickhouseType::String));
    assert_eq!(map_type(PhysicalType::Int64, ConvertedType::Date), Ok(ClickhouseType::Int32));
    assert_eq!(map_type(PhysicalType::Boolean, ConvertedType::TimestampMillis), Ok(ClickhouseType::Int64));
    assert_eq!(ClickhouseType::Float64.name(), "Float64");
}

#[test]
fn context_starts_outside() {
    let context = ParquetVisitorContext::new("foo", 8);
    assert_eq!(context.primary_key, "foo");
    assert_eq!(context.indent, 8);
    assert_eq!(context.marker, Marker::Outside);
}

#[test]
fn depth_bounds() {
    let fields = sample_fields();
    assert!(fields_fit(&fields, 4));
    assert!(node_fits(&fields[3], 4));
    assert!(!node_fits(&fields[3], usize::MAX - 4));
    assert!(node_fits(&fields[0], usize::MAX));
}

#[test]
fn list_of_maps() {
    let pair = group(
        "key_value",
        Repetition::Repeated,
        ConvertedType::Unannotated,
        vec![
            leaf("key", Repetition::Required, PhysicalType::ByteArray, ConvertedType::Utf8),
            leaf("value", Repetition::Optional, PhysicalType::Int32, ConvertedType::Unannotated),
        ],
    );
    let element = group("element", Repetition::Optional, ConvertedType::MapGroup, vec![pair]);
    let wrapper = group("list", Repetition::Repeated, ConvertedType::Unannotated, vec![element]);
    let list = group("d", Repetition::Optional, ConvertedType::List, vec![wrapper]);
    assert_eq!(
        emit(&list, "foo", 4).unwrap(),
        "d Nested (\nelement Map (\n            Nullable(String)\n            , Nullable(Int32)\n        )\n    )\n"
    );
}

#[test]
fn map_of_lists() {
    let element = leaf("element", Repetition::Optional, PhysicalType::Int32, ConvertedType::Unannotated);
    let wrapper = group("list", Repetition::Repeated, ConvertedType::Unannotated, vec![element]);
    let value = group("value", Repetition::Optional, ConvertedType::List, vec![wrapper]);
    let pair = group(
        "key_value",
        Repetition::Repeated,
        ConvertedType::Unannotated,
        vec![leaf("key", Repetition::Required, PhysicalType::ByteArray, ConvertedType::Utf8), value],
    );
    let m = group("m", Repetition::Optional, ConvertedType::MapGroup, vec![pair]);
    assert_eq!(
        emit(&m, "foo", 4).unwrap(),
        "m Map (\n        Nullable(String)\n        , value Nested (\nNullable(Int32)\n        )\n    )\n"
    );
}
