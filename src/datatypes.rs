//! The arrow2 type system as plain values: data types, fields and their
//! metadata.
use vstd::prelude::*;

verus! {

broadcast use {vstd::std_specs::vec::axiom_vec_decreases_to_view, vstd::seq::axiom_seq_index_decreases};

/// Time units of the backend.
#[derive(Debug, Clone, Copy, PartialEq, Eq)]
pub enum TimeUnit {
    Second,
    Millisecond,
    Microsecond,
    Nanosecond,
}

/// Integer types usable as dictionary keys.
#[derive(Debug, Clone, Copy, PartialEq, Eq)]
pub enum IntegerType {
    Int8,
    Int16,
    Int32,
    Int64,
    UInt8,
    UInt16,
    UInt32,
    UInt64,
}

/// Physical layout of a union.
#[derive(Debug, Clone, Copy, PartialEq, Eq)]
pub enum UnionMode {
    Dense,
    Sparse,
}

impl UnionMode {
    /// Whether this is the dense layout.
    pub fn is_dense(&self) -> (r: bool)
        ensures
            r == (*self is Dense),
    {
        match self {
            UnionMode::Dense => true,
            UnionMode::Sparse => false,
        }
    }
}

/// Logical types of the backend.
#[derive(Debug, PartialEq)]
pub enum DataType {
    Null,
    Boolean,
    Int8,
    Int16,
    Int32,
    Int64,
    UInt8,
    UInt16,
    UInt32,
    UInt64,
    Float16,
    Float32,
    Float64,
    Timestamp(TimeUnit, Option<String>),
    Date32,
    Date64,
    Time32(TimeUnit),
    Time64(TimeUnit),
    Duration(TimeUnit),
    Binary,
    FixedSizeBinary(usize),
    LargeBinary,
    Utf8,
    LargeUtf8,
    List(Box<Field>),
    FixedSizeList(Box<Field>, usize),
    LargeList(Box<Field>),
    Struct(Vec<Field>),
    Union(Vec<Field>, Option<Vec<i32>>, UnionMode),
    MapType(Box<Field>, bool),
    Dictionary(IntegerType, Box<DataType>, bool),
    Decimal(usize, usize),
    Decimal256(usize, usize),
}

/// A named, possibly nullable column of the backend, with string metadata.
///
/// The metadata is a list of key/value entries in which nothing keeps keys
/// unique. Lookups read the first entry with a key, and decoding refuses a
/// field whose metadata holds the strategy key more than once, so that no
/// entry is silently dropped.
#[derive(Debug, PartialEq)]
pub struct Field {
    pub name: String,
    pub data_type: DataType,
    pub is_nullable: bool,
    pub metadata: Vec<(String, String)>,
}

/// The mathematical value of a backend data type.
pub enum DataTypeModel {
    Null,
    Boolean,
    Int8,
    Int16,
    Int32,
    Int64,
    UInt8,
    UInt16,
    UInt32,
    UInt64,
    Float16,
    Float32,
    Float64,
    Timestamp(TimeUnit, Option<String>),
    Date32,
    Date64,
    Time32(TimeUnit),
    Time64(TimeUnit),
    Duration(TimeUnit),
    Binary,
    FixedSizeBinary(usize),
    LargeBinary,
    Utf8,
    LargeUtf8,
    List(Box<FieldModel>),
    FixedSizeList(Box<FieldModel>, usize),
    LargeList(Box<FieldModel>),
    Struct(Seq<FieldModel>),
    Union(Seq<FieldModel>, Option<Seq<i32>>, UnionMode),
    MapType(Box<FieldModel>, bool),
    Dictionary(IntegerType, Box<DataTypeModel>, bool),
    Decimal(usize, usize),
    Decimal256(usize, usize),
}

/// The mathematical value of a backend field.
pub struct FieldModel {
    pub name: Seq<char>,
    pub data_type: DataTypeModel,
    pub nullable: bool,
    pub metadata: Seq<(Seq<char>, Seq<char>)>,
}

pub open spec fn metadata_view(m: Seq<(String, String)>) -> Seq<(Seq<char>, Seq<char>)> {
    Seq::new(m.len(), |i: int| (m[i].0@, m[i].1@))
}

pub open spec fn field_view(f: Field) -> FieldModel
    decreases f,
{
    FieldModel {
        name: f.name@,
        data_type: data_type_view(f.data_type),
        nullable: f.is_nullable,
        metadata: metadata_view(f.metadata@),
    }
}

pub open spec fn fields_view(s: Seq<Field>) -> Seq<FieldModel>
    decreases s,
{
    Seq::new(
        s.len(),
        |i: int|
            if 0 <= i < s.len() {
                field_view(s[i])
            } else {
                arbitrary()
            },
    )
}

pub open spec fn data_type_view(t: DataType) -> DataTypeModel
    decreases t,
{
    match t {
        DataType::Null => DataTypeModel::Null,
        DataType::Boolean => DataTypeModel::Boolean,
        DataType::Int8 => DataTypeModel::Int8,
        DataType::Int16 => DataTypeModel::Int16,
        DataType::Int32 => DataTypeModel::Int32,
        DataType::Int64 => DataTypeModel::Int64,
        DataType::UInt8 => DataTypeModel::UInt8,
        DataType::UInt16 => DataTypeModel::UInt16,
        DataType::UInt32 => DataTypeModel::UInt32,
        DataType::UInt64 => DataTypeModel::UInt64,
        DataType::Float16 => DataTypeModel::Float16,
        DataType::Float32 => DataTypeModel::Float32,
        DataType::Float64 => DataTypeModel::Float64,
        DataType::Timestamp(u, tz) => DataTypeModel::Timestamp(u, tz),
        DataType::Date32 => DataTypeModel::Date32,
        DataType::Date64 => DataTypeModel::Date64,
        DataType::Time32(u) => DataTypeModel::Time32(u),
        DataType::Time64(u) => DataTypeModel::Time64(u),
        DataType::Duration(u) => DataTypeModel::Duration(u),
        DataType::Binary => DataTypeModel::Binary,
        DataType::FixedSizeBinary(n) => DataTypeModel::FixedSizeBinary(n),
        DataType::LargeBinary => DataTypeModel::LargeBinary,
        DataType::Utf8 => DataTypeModel::Utf8,
        DataType::LargeUtf8 => DataTypeModel::LargeUtf8,
        DataType::List(f) => DataTypeModel::List(Box::new(field_view(*f))),
        DataType::FixedSizeList(f, n) => DataTypeModel::FixedSizeList(Box::new(field_view(*f)), n),
        DataType::LargeList(f) => DataTypeModel::LargeList(Box::new(field_view(*f))),
        DataType::Struct(fs) => DataTypeModel::Struct(fields_view(fs@)),
        DataType::Union(fs, ids, mode) => DataTypeModel::Union(
            fields_view(fs@),
            match ids {
                Some(v) => Some(v@),
                None => None,
            },
            mode,
        ),
        DataType::MapType(f, sorted) => DataTypeModel::MapType(Box::new(field_view(*f)), sorted),
        DataType::Dictionary(k, v, sorted) => DataTypeModel::Dictionary(
            k,
            Box::new(data_type_view(*v)),
            sorted,
        ),
        DataType::Decimal(p, s) => DataTypeModel::Decimal(p, s),
        DataType::Decimal256(p, s) => DataTypeModel::Decimal256(p, s),
    }
}

impl View for Field {
    type V = FieldModel;

    open spec fn view(&self) -> FieldModel {
        field_view(*self)
    }
}

impl View for DataType {
    type V = DataTypeModel;

    open spec fn view(&self) -> DataTypeModel {
        data_type_view(*self)
    }
}

/// The value stored under `key` by the first entry that has it.
pub open spec fn metadata_lookup(m: Seq<(Seq<char>, Seq<char>)>, key: Seq<char>) -> Option<
    Seq<char>,
>
    decreases m.len(),
{
    if m.len() == 0 {
        None
    } else if m[0].0 == key {
        Some(m[0].1)
    } else {
        metadata_lookup(m.drop_first(), key)
    }
}

/// How many entries of `m` have the key `key`.
pub open spec fn metadata_count(m: Seq<(Seq<char>, Seq<char>)>, key: Seq<char>) -> nat
    decreases m.len(),
{
    if m.len() == 0 {
        0
    } else {
        (if m[0].0 == key {
            1nat
        } else {
            0nat
        }) + metadata_count(m.drop_first(), key)
    }
}

impl Field {
    /// Whether more than one metadata entry has the key `key`.
    pub fn metadata_key_repeated(&self, key: &str) -> (r: bool)
        ensures
            r == (metadata_count(self@.metadata, key@) > 1),
    {
        let wanted = key.to_owned();
        let n = self.metadata.len();
        let mut seen: usize = 0;
        let mut i: usize = 0;
        assert(self@.metadata.subrange(0, n as int) =~= self@.metadata);
        while i < n
            invariant
                n == self.metadata@.len(),
                n == self@.metadata.len(),
                wanted@ == key@,
                0 <= i <= n,
                seen <= 1,
                metadata_count(self@.metadata, key@) == seen + metadata_count(
                    self@.metadata.subrange(i as int, n as int),
                    key@,
                ),
            decreases n - i,
        {
            let ghost rest = self@.metadata.subrange(i as int, n as int);
            assert(rest.drop_first() =~= self@.metadata.subrange(i + 1, n as int));
            assert(rest[0] == (self.metadata@[i as int].0@, self.metadata@[i as int].1@));
            if self.metadata[i].0 == wanted {
                if seen == 1 {
                    return true;
                }
                seen = 1;
            }
            i += 1;
        }
        false
    }

    /// A field without metadata.
    pub fn new(name: &str, data_type: DataType, is_nullable: bool) -> (r: Field)
        ensures
            r@ == (FieldModel {
                name: name@,
                data_type: data_type@,
                nullable: is_nullable,
                metadata: Seq::empty(),
            }),
    {
        let r = Field { name: name.to_owned(), data_type, is_nullable, metadata: Vec::new() };
        assert(r@.metadata =~= Seq::empty());
        r
    }

    /// The value stored under `key` in this field's metadata, if any.
    pub fn metadata_get(&self, key: &str) -> (r: Option<&String>)
        ensures
            match r {
                Some(v) => metadata_lookup(self@.metadata, key@) == Some(v@),
                None => metadata_lookup(self@.metadata, key@) is None,
            },
    {
        let wanted = key.to_owned();
        let n = self.metadata.len();
        let mut i: usize = 0;
        assert(self@.metadata.subrange(0, n as int) =~= self@.metadata);
        while i < n
            invariant
                n == self.metadata@.len(),
                n == self@.metadata.len(),
                wanted@ == key@,
                0 <= i <= n,
                metadata_lookup(self@.metadata, wanted@) == metadata_lookup(
                    self@.metadata.subrange(i as int, n as int),
                    wanted@,
                ),
            decreases n - i,
        {
            let ghost rest = self@.metadata.subrange(i as int, n as int);
            assert(rest.drop_first() =~= self@.metadata.subrange(i + 1, n as int));
            assert(rest[0] == (self.metadata@[i as int].0@, self.metadata@[i as int].1@));
            if self.metadata[i].0 == wanted {
                assert(rest.len() > 0 && rest[0].0 == wanted@);
                assert(metadata_lookup(rest, wanted@) == Some(rest[0].1));
                let found = &self.metadata[i].1;
                assert(found@ == rest[0].1);
                return Some(found);
            }
            i += 1;
        }
        None
    }
}

} // verus!
