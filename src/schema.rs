use vstd::prelude::*;

verus! {

/// The on-disk primitive type of a schema leaf.
#[derive(Clone, Copy, Debug, PartialEq, Eq, Structural)]
pub enum PhysicalType {
    Boolean,
    Int32,
    Int64,
    Int96,
    Float,
    Double,
    ByteArray,
    FixedLenByteArray,
}

/// The semantic annotation that refines a physical type, or tags a group
/// as a list or a map.
#[derive(Clone, Copy, Debug, PartialEq, Eq, Structural)]
pub enum ConvertedType {
    Unannotated,
    Utf8,
    MapGroup,
    MapKeyValue,
    List,
    Enum,
    Decimal,
    Date,
    TimeMillis,
    TimeMicros,
    TimestampMillis,
    TimestampMicros,
    Uint8,
    Uint16,
    Uint32,
    Uint64,
    Int8,
    Int16,
    Int32,
    Int64,
    Json,
    Bson,
    Interval,
}

/// Cardinality of a field.
#[derive(Clone, Copy, Debug, PartialEq, Eq, Structural)]
pub enum Repetition {
    Required,
    Optional,
    Repeated,
}

/// A node of a columnar schema tree: a leaf with a primitive type, or a
/// group of ordered child fields (a record, a list or a map, told apart
/// by its converted type and its name).
#[derive(Debug)]
pub enum SchemaNode {
    Primitive {
        name: String,
        repetition: Repetition,
        physical_type: PhysicalType,
        converted_type: ConvertedType,
    },
    Group {
        name: String,
        repetition: Repetition,
        converted_type: ConvertedType,
        fields: Vec<SchemaNode>,
    },
}

impl SchemaNode {
    pub open spec fn spec_name(self) -> Seq<char> {
        match self {
            SchemaNode::Primitive { name, .. } => name@,
            SchemaNode::Group { name, .. } => name@,
        }
    }

    pub open spec fn spec_converted_type(self) -> ConvertedType {
        match self {
            SchemaNode::Primitive { converted_type, .. } => converted_type,
            SchemaNode::Group { converted_type, .. } => converted_type,
        }
    }

    pub open spec fn spec_repetition(self) -> Repetition {
        match self {
            SchemaNode::Primitive { repetition, .. } => repetition,
            SchemaNode::Group { repetition, .. } => repetition,
        }
    }

    pub open spec fn spec_fields(self) -> Seq<SchemaNode> {
        match self {
            SchemaNode::Primitive { .. } => Seq::empty(),
            SchemaNode::Group { fields, .. } => fields@,
        }
    }

    /// Column type of a leaf; a group has none.
    pub open spec fn leaf_type(self) -> Result<ClickhouseType, ConvertError> {
        match self {
            SchemaNode::Primitive { physical_type, converted_type, .. } => spec_map_type(
                physical_type,
                converted_type,
            ),
            SchemaNode::Group { .. } => Err(ConvertError::UnsupportedSchema),
        }
    }

    /// Nesting depth: zero for a leaf, one more than its deepest child for a group.
    pub open spec fn depth(self) -> nat
        decreases self,
    {
        match self {
            SchemaNode::Primitive { .. } => 0,
            SchemaNode::Group { fields, .. } => 1 + fields_depth(fields@, fields@.len() as int),
        }
    }
}

/// The greatest depth among the first `n` fields.
pub open spec fn fields_depth(fields: Seq<SchemaNode>, n: int) -> nat
    decreases fields, n,
{
    if n <= 0 || n > fields.len() {
        0
    } else {
        let d = fields[n - 1].depth();
        let rest = fields_depth(fields, n - 1);
        if d > rest { d } else { rest }
    }
}

/// No field among the first `n` is deeper than their greatest depth.
pub proof fn lemma_field_depth(fields: Seq<SchemaNode>, n: int, i: int)
    requires
        0 <= i < n <= fields.len(),
    ensures
        fields[i].depth() <= fields_depth(fields, n),
    decreases n,
{
    if i < n - 1 {
        lemma_field_depth(fields, n - 1, i);
    }
}

impl SchemaNode {
    /// The node's name.
    pub fn name(&self) -> (r: &String)
        ensures
            r@ == self.spec_name(),
    {
        match self {
            SchemaNode::Primitive { name, .. } => name,
            SchemaNode::Group { name, .. } => name,
        }
    }

    /// The node's converted type.
    pub fn converted_type(&self) -> (r: ConvertedType)
        ensures
            r == self.spec_converted_type(),
    {
        match self {
            SchemaNode::Primitive { converted_type, .. } => *converted_type,
            SchemaNode::Group { converted_type, .. } => *converted_type,
        }
    }
}

/// Why a schema cannot be converted.
#[derive(Clone, Copy, Debug, PartialEq, Eq, Structural)]
pub enum ConvertError {
    /// A leaf whose physical or converted type has no column type.
    UnsupportedType { physical_type: PhysicalType, converted_type: ConvertedType },
    /// A list group that does not hold exactly one child, or whose leaf child is not repeated.
    MalformedList,
    /// A node that the visitor cannot classify.
    UnsupportedSchema,
}

/// Column type of the target database.
#[derive(Clone, Copy, Debug, PartialEq, Eq, Structural)]
pub enum ClickhouseType {
    Bool,
    Float32,
    Float64,
    Int32,
    Int64,
    String,
}

impl ClickhouseType {
    pub open spec fn spec_name(self) -> Seq<char> {
        match self {
            ClickhouseType::Bool => "Bool"@,
            ClickhouseType::Float32 => "Float32"@,
            ClickhouseType::Float64 => "Float64"@,
            ClickhouseType::Int32 => "Int32"@,
            ClickhouseType::Int64 => "Int64"@,
            ClickhouseType::String => "String"@,
        }
    }

    /// The type's name as it is written in a column definition.
    pub fn name(&self) -> (r: &'static str)
        ensures
            r@ == self.spec_name(),
    {
        match self {
            ClickhouseType::Bool => "Bool",
            ClickhouseType::Float32 => "Float32",
            ClickhouseType::Float64 => "Float64",
            ClickhouseType::Int32 => "Int32",
            ClickhouseType::Int64 => "Int64",
            ClickhouseType::String => "String",
        }
    }
}

/// Column type of a leaf: an annotation other than `Unannotated` decides,
/// else the physical type does.
pub open spec fn spec_map_type(physical_type: PhysicalType, converted_type: ConvertedType) -> Result<
    ClickhouseType,
    ConvertError,
> {
    let unsupported = ConvertError::UnsupportedType { physical_type, converted_type };
    match converted_type {
        ConvertedType::Unannotated => match physical_type {
            PhysicalType::Boolean => Ok(ClickhouseType::Bool),
            PhysicalType::Int32 => Ok(ClickhouseType::Int32),
            PhysicalType::Int64 => Ok(ClickhouseType::Int64),
            PhysicalType::Float => Ok(ClickhouseType::Float32),
            PhysicalType::Double => Ok(ClickhouseType::Float64),
            PhysicalType::ByteArray => Ok(ClickhouseType::String),
            _ => Err(unsupported),
        },
        ConvertedType::Utf8 => Ok(ClickhouseType::String),
        ConvertedType::Date => Ok(ClickhouseType::Int32),
        ConvertedType::TimestampMillis => Ok(ClickhouseType::Int64),
        _ => Err(unsupported),
    }
}

/// Maps a leaf's physical and converted type to a column type.
pub fn map_type(physical_type: PhysicalType, converted_type: ConvertedType) -> (r: Result<
    ClickhouseType,
    ConvertError,
>)
    ensures
        r == spec_map_type(physical_type, converted_type),
{
    match converted_type {
        ConvertedType::Unannotated => match physical_type {
            PhysicalType::Boolean => Ok(ClickhouseType::Bool),
            PhysicalType::Int32 => Ok(ClickhouseType::Int32),
            PhysicalType::Int64 => Ok(ClickhouseType::Int64),
            PhysicalType::Float => Ok(ClickhouseType::Float32),
            PhysicalType::Double => Ok(ClickhouseType::Float64),
            PhysicalType::ByteArray => Ok(ClickhouseType::String),
            _ => Err(ConvertError::UnsupportedType { physical_type, converted_type }),
        },
        ConvertedType::Utf8 => Ok(ClickhouseType::String),
        ConvertedType::Date => Ok(ClickhouseType::Int32),
        ConvertedType::TimestampMillis => Ok(ClickhouseType::Int64),
        _ => Err(ConvertError::UnsupportedType { physical_type, converted_type }),
    }
}

/// Whether a leaf of these types has a column type.
pub open spec fn supported(physical_type: PhysicalType, converted_type: ConvertedType) -> bool {
    converted_type == ConvertedType::Utf8 || converted_type == ConvertedType::Date
        || converted_type == ConvertedType::TimestampMillis || (converted_type
        == ConvertedType::Unannotated && physical_type != PhysicalType::Int96 && physical_type
        != PhysicalType::FixedLenByteArray)
}

/// The type mapping is total on the supported pairs, where an annotation
/// overrides the physical type, and fails with `UnsupportedType` naming the
/// pair on every other.
pub proof fn lemma_map_type_total(physical_type: PhysicalType, converted_type: ConvertedType)
    ensures
        spec_map_type(physical_type, converted_type) is Ok <==> supported(
            physical_type,
            converted_type,
        ),
        !supported(physical_type, converted_type) ==> spec_map_type(physical_type, converted_type)
            == Err::<ClickhouseType, ConvertError>(
            ConvertError::UnsupportedType { physical_type, converted_type },
        ),
        converted_type == ConvertedType::Utf8 ==> spec_map_type(physical_type, converted_type)
            == Ok::<ClickhouseType, ConvertError>(ClickhouseType::String),
        converted_type == ConvertedType::Date ==> spec_map_type(physical_type, converted_type)
            == Ok::<ClickhouseType, ConvertError>(ClickhouseType::Int32),
        converted_type == ConvertedType::TimestampMillis ==> spec_map_type(
            physical_type,
            converted_type,
        ) == Ok::<ClickhouseType, ConvertError>(ClickhouseType::Int64),
{
}

pub(crate) fn same_text(a: &String, lit: &str) -> (r: bool)
    ensures
        r == (a@ == lit@),
{
    let b = String::from_str(lit);
    a.eq(&b)
}

} // verus!
