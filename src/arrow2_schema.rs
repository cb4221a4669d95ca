//! The mapping between canonical fields and arrow2 fields, in both directions.
use vstd::prelude::*;

use crate::datatypes::{
    fields_view, metadata_count, metadata_lookup, DataType, DataTypeModel, Field, FieldModel, IntegerType, TimeUnit,
    UnionMode,
};
use crate::error::{field_message, Error, Result};
use crate::schema::{
    field_valid, generic_fields_view, lemma_strategy_name_parses, nesting_within, parse_strategy,
    strategy_name, validate_error, GenericDataType, GenericField, GenericFieldModel, GenericTimeUnit,
    SerdeArrowSchema, Strategy, MAX_NESTING, STRATEGY_KEY,
};

verus! {

broadcast use {vstd::std_specs::vec::axiom_vec_decreases_to_view, vstd::seq::axiom_seq_index_decreases};

pub open spec fn generic_time_unit(u: TimeUnit) -> GenericTimeUnit {
    match u {
        TimeUnit::Second => GenericTimeUnit::Second,
        TimeUnit::Millisecond => GenericTimeUnit::Millisecond,
        TimeUnit::Microsecond => GenericTimeUnit::Microsecond,
        TimeUnit::Nanosecond => GenericTimeUnit::Nanosecond,
    }
}

pub open spec fn backend_time_unit(u: GenericTimeUnit) -> TimeUnit {
    match u {
        GenericTimeUnit::Second => TimeUnit::Second,
        GenericTimeUnit::Millisecond => TimeUnit::Millisecond,
        GenericTimeUnit::Microsecond => TimeUnit::Microsecond,
        GenericTimeUnit::Nanosecond => TimeUnit::Nanosecond,
    }
}

/// The canonical integer kind of a dictionary key type.
pub open spec fn key_data_type(k: IntegerType) -> GenericDataType {
    match k {
        IntegerType::Int8 => GenericDataType::I8,
        IntegerType::Int16 => GenericDataType::I16,
        IntegerType::Int32 => GenericDataType::I32,
        IntegerType::Int64 => GenericDataType::I64,
        IntegerType::UInt8 => GenericDataType::U8,
        IntegerType::UInt16 => GenericDataType::U16,
        IntegerType::UInt32 => GenericDataType::U32,
        IntegerType::UInt64 => GenericDataType::U64,
    }
}

/// The backend key type of a canonical integer kind; `None` for other types.
pub open spec fn key_integer_type(t: GenericDataType) -> Option<IntegerType> {
    match t {
        GenericDataType::I8 => Some(IntegerType::Int8),
        GenericDataType::I16 => Some(IntegerType::Int16),
        GenericDataType::I32 => Some(IntegerType::Int32),
        GenericDataType::I64 => Some(IntegerType::Int64),
        GenericDataType::U8 => Some(IntegerType::UInt8),
        GenericDataType::U16 => Some(IntegerType::UInt16),
        GenericDataType::U32 => Some(IntegerType::UInt32),
        GenericDataType::U64 => Some(IntegerType::UInt64),
        _ => None,
    }
}

/// The canonical type of a backend type without children; `None` where the
/// backend type is nested or has no canonical counterpart.
pub open spec fn scalar_from_backend(t: DataTypeModel) -> Option<GenericDataType> {
    match t {
        DataTypeModel::Null => Some(GenericDataType::Null),
        DataTypeModel::Boolean => Some(GenericDataType::Bool),
        DataTypeModel::Int8 => Some(GenericDataType::I8),
        DataTypeModel::Int16 => Some(GenericDataType::I16),
        DataTypeModel::Int32 => Some(GenericDataType::I32),
        DataTypeModel::Int64 => Some(GenericDataType::I64),
        DataTypeModel::UInt8 => Some(GenericDataType::U8),
        DataTypeModel::UInt16 => Some(GenericDataType::U16),
        DataTypeModel::UInt32 => Some(GenericDataType::U32),
        DataTypeModel::UInt64 => Some(GenericDataType::U64),
        DataTypeModel::Float16 => Some(GenericDataType::F16),
        DataTypeModel::Float32 => Some(GenericDataType::F32),
        DataTypeModel::Float64 => Some(GenericDataType::F64),
        DataTypeModel::Utf8 => Some(GenericDataType::Utf8),
        DataTypeModel::LargeUtf8 => Some(GenericDataType::LargeUtf8),
        DataTypeModel::Date32 => Some(GenericDataType::Date32),
        DataTypeModel::Date64 => Some(GenericDataType::Date64),
        DataTypeModel::Time64(u) => if u is Microsecond || u is Nanosecond {
            Some(GenericDataType::Time64(generic_time_unit(u)))
        } else {
            None
        },
        DataTypeModel::Timestamp(u, tz) => Some(GenericDataType::Timestamp(generic_time_unit(u), tz)),
        DataTypeModel::Decimal(p, s) => if p <= 255 && s <= 127 {
            Some(GenericDataType::Decimal128(p as u8, s as i8))
        } else {
            None
        },
        _ => None,
    }
}

/// The backend type of a canonical type without children; `None` where the
/// canonical type is nested or cannot be expressed by the backend.
pub open spec fn scalar_to_backend(t: GenericDataType) -> Option<DataTypeModel> {
    match t {
        GenericDataType::Null => Some(DataTypeModel::Null),
        GenericDataType::Bool => Some(DataTypeModel::Boolean),
        GenericDataType::I8 => Some(DataTypeModel::Int8),
        GenericDataType::I16 => Some(DataTypeModel::Int16),
        GenericDataType::I32 => Some(DataTypeModel::Int32),
        GenericDataType::I64 => Some(DataTypeModel::Int64),
        GenericDataType::U8 => Some(DataTypeModel::UInt8),
        GenericDataType::U16 => Some(DataTypeModel::UInt16),
        GenericDataType::U32 => Some(DataTypeModel::UInt32),
        GenericDataType::U64 => Some(DataTypeModel::UInt64),
        GenericDataType::F16 => Some(DataTypeModel::Float16),
        GenericDataType::F32 => Some(DataTypeModel::Float32),
        GenericDataType::F64 => Some(DataTypeModel::Float64),
        GenericDataType::Utf8 => Some(DataTypeModel::Utf8),
        GenericDataType::LargeUtf8 => Some(DataTypeModel::LargeUtf8),
        GenericDataType::Date32 => Some(DataTypeModel::Date32),
        GenericDataType::Date64 => Some(DataTypeModel::Date64),
        GenericDataType::Time64(u) => if u is Microsecond || u is Nanosecond {
            Some(DataTypeModel::Time64(backend_time_unit(u)))
        } else {
            None
        },
        GenericDataType::Timestamp(u, tz) => Some(DataTypeModel::Timestamp(backend_time_unit(u), tz)),
        GenericDataType::Decimal128(p, s) => if s >= 0 {
            Some(DataTypeModel::Decimal(p as usize, s as usize))
        } else {
            None
        },
        _ => None,
    }
}

/// The canonical field that a top-level backend field decodes to; `None`
/// where decoding fails.
pub open spec fn decode_field(f: FieldModel) -> Option<GenericFieldModel> {
    decode_field_at(f, 0)
}

/// The canonical field that a backend field at nesting level `level` decodes
/// to; `None` where decoding fails.
pub open spec fn decode_field_at(f: FieldModel, level: nat) -> Option<GenericFieldModel>
    decreases f, 1nat,
{
    if metadata_count(f.metadata, STRATEGY_KEY@) > 1 {
        None
    } else {
        decode_with_metadata(f, level)
    }
}

/// Decoding of a field whose metadata holds the strategy key at most once.
pub open spec fn decode_with_metadata(f: FieldModel, level: nat) -> Option<GenericFieldModel>
    decreases f, 0nat,
{
    match metadata_lookup(f.metadata, STRATEGY_KEY@) {
        Some(text) => match parse_strategy(text) {
            Some(st) => decode_parts(f.name, f.data_type, f.nullable, Some(st), level),
            None => None,
        },
        None => decode_parts(f.name, f.data_type, f.nullable, None, level),
    }
}

/// Whether every field of `fs` decodes.
pub open spec fn decodes_all(fs: Seq<FieldModel>, level: nat) -> bool
    decreases fs, 0nat,
{
    forall|i: int| 0 <= i < fs.len() ==> decode_field_at(#[trigger] fs[i], level) is Some
}

/// The canonical fields that the fields of `fs` decode to.
pub open spec fn decode_all(fs: Seq<FieldModel>, level: nat) -> Seq<GenericFieldModel>
    decreases fs, 0nat,
{
    Seq::new(
        fs.len(),
        |i: int|
            if 0 <= i < fs.len() {
                decode_field_at(fs[i], level)->Some_0
            } else {
                arbitrary()
            },
    )
}

/// The key child of a canonical dictionary.
pub open spec fn dictionary_key_field(k: IntegerType) -> GenericFieldModel {
    GenericFieldModel {
        name: Seq::empty(),
        data_type: key_data_type(k),
        nullable: false,
        children: Seq::empty(),
        strategy: None,
    }
}

/// The canonical node built from a backend type, before validation.
pub open spec fn build_node(
    name: Seq<char>,
    t: DataTypeModel,
    nullable: bool,
    strategy: Option<Strategy>,
    level: nat,
) -> Option<GenericFieldModel>
    decreases t, 0nat,
{
    let node = |data_type: GenericDataType, children: Seq<GenericFieldModel>|
        GenericFieldModel { name, data_type, nullable, children, strategy };
    match t {
        DataTypeModel::List(f) => match decode_field_at(*f, level + 1) {
            Some(c) => Some(node(GenericDataType::List, seq![c])),
            None => None,
        },
        DataTypeModel::LargeList(f) => match decode_field_at(*f, level + 1) {
            Some(c) => Some(node(GenericDataType::LargeList, seq![c])),
            None => None,
        },
        DataTypeModel::Struct(fs) => if decodes_all(fs, level + 1) {
            Some(node(GenericDataType::Struct, decode_all(fs, level + 1)))
        } else {
            None
        },
        DataTypeModel::MapType(f, sorted) => if sorted {
            None
        } else {
            match decode_field_at(*f, level + 1) {
                Some(c) => Some(node(GenericDataType::MapType, seq![c])),
                None => None,
            }
        },
        DataTypeModel::Union(fs, ids, mode) => if ids is None && mode is Dense && decodes_all(fs, level + 1) {
            Some(node(GenericDataType::Union, decode_all(fs, level + 1)))
        } else {
            None
        },
        DataTypeModel::Dictionary(k, v, sorted) => if sorted {
            None
        } else {
            match decode_parts(Seq::empty(), *v, false, None, level + 1) {
                Some(c) => Some(node(GenericDataType::Dictionary, seq![dictionary_key_field(k), c])),
                None => None,
            }
        },
        _ => match scalar_from_backend(t) {
            Some(dt) => Some(node(dt, Seq::empty())),
            None => None,
        },
    }
}

/// The canonical field decoded from a name, a backend type, a nullability and
/// a strategy; `None` where the type is unsupported or the result is invalid.
pub open spec fn decode_parts(
    name: Seq<char>,
    t: DataTypeModel,
    nullable: bool,
    strategy: Option<Strategy>,
    level: nat,
) -> Option<GenericFieldModel>
    decreases t, 1nat,
{
    if level > MAX_NESTING {
        None
    } else {
        match build_node(name, t, nullable, strategy, level) {
            Some(g) => if field_valid(g) && nesting_within(g, level) {
                Some(g)
            } else {
                None
            },
            None => None,
        }
    }
}

/// The message of the error that decoding a top-level backend field reports.
pub open spec fn decode_error(f: FieldModel) -> Seq<char> {
    decode_error_at(f, 0)
}

/// The message of the error that decoding `f` at nesting level `level`
/// reports.
pub open spec fn decode_error_at(f: FieldModel, level: nat) -> Seq<char>
    decreases f, 0nat, 0int,
{
    if metadata_count(f.metadata, STRATEGY_KEY@) > 1 {
        field_message("the strategy key appears more than once"@, f.name)
    } else {
        match metadata_lookup(f.metadata, STRATEGY_KEY@) {
        Some(text) => match parse_strategy(text) {
            Some(st) => parts_error(f.name, f.data_type, f.nullable, Some(st), level),
            None => field_message("Unknown strategy"@, f.name),
        },
        None => parts_error(f.name, f.data_type, f.nullable, None, level),
    }
    }
}

/// The decoding error of the first of `fs[i..]` that does not decode.
pub open spec fn first_decode_error(fs: Seq<FieldModel>, level: nat, i: int) -> Seq<char>
    decreases fs, 1nat, fs.len() - i,
{
    if i < 0 || i >= fs.len() {
        Seq::empty()
    } else if decode_field_at(fs[i], level) is None {
        decode_error_at(fs[i], level)
    } else {
        first_decode_error(fs, level, i + 1)
    }
}

/// The error met while building the node for a backend type, before
/// validation; `None` where the node is built.
pub open spec fn build_error(name: Seq<char>, t: DataTypeModel, level: nat) -> Option<Seq<char>>
    decreases t, 1nat, 0int,
{
    match t {
        DataTypeModel::List(f) | DataTypeModel::LargeList(f) => if decode_field_at(*f, level + 1) is None {
            Some(decode_error_at(*f, level + 1))
        } else {
            None
        },
        DataTypeModel::Struct(fs) => if decodes_all(fs, level + 1) {
            None
        } else {
            Some(first_decode_error(fs, level + 1, 0))
        },
        DataTypeModel::MapType(f, sorted) => if sorted {
            Some(field_message("maps with sorted keys are not supported"@, name))
        } else if decode_field_at(*f, level + 1) is None {
            Some(decode_error_at(*f, level + 1))
        } else {
            None
        },
        DataTypeModel::Union(fs, ids, mode) => if ids is Some {
            Some(
                field_message("Union types with explicit field indices are not supported"@, name),
            )
        } else if mode is Sparse {
            Some(field_message("Only dense unions are supported"@, name))
        } else if decodes_all(fs, level + 1) {
            None
        } else {
            Some(first_decode_error(fs, level + 1, 0))
        },
        DataTypeModel::Dictionary(_, v, sorted) => if sorted {
            Some(field_message("Sorted dictionaries are not supported"@, name))
        } else if decode_parts(Seq::empty(), *v, false, None, level + 1) is None {
            Some(parts_error(Seq::empty(), *v, false, None, level + 1))
        } else {
            None
        },
        DataTypeModel::Decimal(p, s) => if p > 255 || s > 127 {
            Some(field_message("cannot represent precision / scale of the decimal"@, name))
        } else {
            None
        },
        DataTypeModel::Time64(u) => if u is Microsecond || u is Nanosecond {
            None
        } else {
            Some(field_message("invalid time unit for Time64"@, name))
        },
        _ => if scalar_from_backend(t) is Some {
            None
        } else {
            Some(field_message("Cannot convert data type"@, name))
        },
    }
}

/// The message of the error that decoding a backend type under a name,
/// nullability and strategy at nesting level `level` reports.
pub open spec fn parts_error(
    name: Seq<char>,
    t: DataTypeModel,
    nullable: bool,
    strategy: Option<Strategy>,
    level: nat,
) -> Seq<char>
    decreases t, 2nat, 0int,
{
    if level > MAX_NESTING {
        field_message("the field is nested too deeply"@, name)
    } else {
        match build_error(name, t, level) {
            Some(e) => e,
            None => validate_error(build_node(name, t, nullable, strategy, level)->Some_0, level),
        }
    }
}

/// The backend metadata that records a strategy.
pub open spec fn strategy_metadata(strategy: Option<Strategy>) -> Seq<(Seq<char>, Seq<char>)> {
    match strategy {
        Some(st) => seq![(STRATEGY_KEY@, strategy_name(st))],
        None => Seq::empty(),
    }
}

/// Whether every field of `gs` encodes.
pub open spec fn encodes_all(gs: Seq<GenericFieldModel>, level: nat) -> bool
    decreases gs, 2nat,
{
    forall|i: int| 0 <= i < gs.len() ==> encode_field_at(#[trigger] gs[i], level) is Some
}

/// The backend fields that the fields of `gs` encode to.
pub open spec fn encode_all(gs: Seq<GenericFieldModel>, level: nat) -> Seq<FieldModel>
    decreases gs, 2nat,
{
    Seq::new(
        gs.len(),
        |i: int|
            if 0 <= i < gs.len() {
                encode_field_at(gs[i], level)->Some_0
            } else {
                arbitrary()
            },
    )
}

/// The backend type of a canonical node; `None` where encoding fails.
pub open spec fn encode_data_type(g: GenericFieldModel, level: nat) -> Option<DataTypeModel>
    decreases g, 0nat,
{
    match g.data_type {
        GenericDataType::List => if g.children.len() > 0 && encode_field_at(g.children[0], level + 1) is Some {
            Some(DataTypeModel::List(Box::new(encode_field_at(g.children[0], level + 1)->Some_0)))
        } else {
            None
        },
        GenericDataType::LargeList => if g.children.len() > 0 && encode_field_at(g.children[0], level + 1) is Some {
            Some(DataTypeModel::LargeList(Box::new(encode_field_at(g.children[0], level + 1)->Some_0)))
        } else {
            None
        },
        GenericDataType::Struct => if encodes_all(g.children, level + 1) {
            Some(DataTypeModel::Struct(encode_all(g.children, level + 1)))
        } else {
            None
        },
        GenericDataType::MapType => if g.children.len() > 0 && encode_field_at(g.children[0], level + 1) is Some {
            Some(DataTypeModel::MapType(Box::new(encode_field_at(g.children[0], level + 1)->Some_0), false))
        } else {
            None
        },
        GenericDataType::Union => if encodes_all(g.children, level + 1) {
            Some(DataTypeModel::Union(encode_all(g.children, level + 1), None, UnionMode::Dense))
        } else {
            None
        },
        GenericDataType::Dictionary => if g.children.len() > 1 && encode_field_at(g.children[1], level + 1) is Some
            && key_integer_type(g.children[0].data_type) is Some {
            Some(
                DataTypeModel::Dictionary(
                    key_integer_type(g.children[0].data_type)->Some_0,
                    Box::new(encode_field_at(g.children[1], level + 1)->Some_0.data_type),
                    false,
                ),
            )
        } else {
            None
        },
        _ => scalar_to_backend(g.data_type),
    }
}

/// Whether a top-level canonical field is valid and inside the subset that
/// the backend expresses exactly.
pub open spec fn encodable(g: GenericFieldModel) -> bool {
    field_valid(g) && nesting_within(g, 0) && representable(g)
}

/// The backend field that a top-level canonical field encodes to; `None`
/// where the field is invalid or the backend cannot express it.
pub open spec fn encode_field(g: GenericFieldModel) -> Option<FieldModel> {
    if encodable(g) {
        encode_field_at(g, 0)
    } else {
        None
    }
}

/// The message of the error that encoding a top-level canonical field
/// reports: the validation error, else the first representability error.
pub open spec fn encode_error(g: GenericFieldModel) -> Seq<char> {
    if !(field_valid(g) && nesting_within(g, 0)) {
        validate_error(g, 0)
    } else {
        representable_error(g)
    }
}

/// The first reason why `g` lies outside the representable subset, the node
/// itself before its children and the children in order.
pub open spec fn representable_error(g: GenericFieldModel) -> Seq<char>
    decreases g, 0nat, 0int,
{
    if g.data_type matches GenericDataType::Decimal128(_, scale) && scale < 0 {
        field_message("decimals with negative scale are not supported"@, g.name)
    } else if g.data_type is Dictionary && !(plain_child(g.children[0]) && plain_child(
        g.children[1],
    )) {
        field_message("dictionary children must be unnamed, non-nullable and plain"@, g.name)
    } else {
        first_representable_error(g.children, 0)
    }
}

/// The representability error of the first of `gs[i..]` outside the subset.
pub open spec fn first_representable_error(gs: Seq<GenericFieldModel>, i: int) -> Seq<char>
    decreases gs, 1nat, gs.len() - i,
{
    if i < 0 || i >= gs.len() {
        Seq::empty()
    } else if !representable(gs[i]) {
        representable_error(gs[i])
    } else {
        first_representable_error(gs, i + 1)
    }
}

/// The backend field that a canonical field at nesting level `level` encodes
/// to; `None` where the backend cannot express it or the level is too deep.
pub open spec fn encode_field_at(g: GenericFieldModel, level: nat) -> Option<FieldModel>
    decreases g, 1nat,
{
    if level > MAX_NESTING {
        None
    } else {
        match encode_data_type(g, level) {
            Some(t) => Some(
                FieldModel {
                    name: g.name,
                    data_type: t,
                    nullable: g.nullable,
                    metadata: strategy_metadata(g.strategy),
                },
            ),
            None => None,
        }
    }
}

fn generic_unit(u: &TimeUnit) -> (r: GenericTimeUnit)
    ensures
        r == generic_time_unit(*u),
{
    match u {
        TimeUnit::Second => GenericTimeUnit::Second,
        TimeUnit::Millisecond => GenericTimeUnit::Millisecond,
        TimeUnit::Microsecond => GenericTimeUnit::Microsecond,
        TimeUnit::Nanosecond => GenericTimeUnit::Nanosecond,
    }
}

fn backend_unit(u: &GenericTimeUnit) -> (r: TimeUnit)
    ensures
        r == backend_time_unit(*u),
{
    match u {
        GenericTimeUnit::Second => TimeUnit::Second,
        GenericTimeUnit::Millisecond => TimeUnit::Millisecond,
        GenericTimeUnit::Microsecond => TimeUnit::Microsecond,
        GenericTimeUnit::Nanosecond => TimeUnit::Nanosecond,
    }
}

fn clone_timezone(tz: &Option<String>) -> (r: Option<String>)
    ensures
        r == *tz,
{
    match tz {
        Some(s) => Some(s.clone()),
        None => None,
    }
}

/// Decode `fields` in order; the first failure is returned unchanged.
fn decode_fields(fields: &Vec<Field>, level: usize) -> (r: Result<Vec<GenericField>>)
    requires
        level <= MAX_NESTING + 1,
    ensures
        r is Ok <==> decodes_all(fields_view(fields@), level as nat),
        r matches Ok(v) ==> generic_fields_view(v@) == decode_all(fields_view(fields@), level as nat),
        r matches Err(e) ==> e.message@ == first_decode_error(fields_view(fields@), level as nat, 0),
    decreases fields,
{
    let n = fields.len();
    let ghost models = fields_view(fields@);
    assert(forall|j: int| 0 <= j < n ==> models[j] == #[trigger] fields@[j]@);
    let mut out: Vec<GenericField> = Vec::new();
    let mut i: usize = 0;
    while i < n
        invariant
            n == fields@.len(),
            models == fields_view(fields@),
            forall|j: int| 0 <= j < n ==> models[j] == #[trigger] fields@[j]@,
            0 <= i <= n,
            level <= MAX_NESTING + 1,
            first_decode_error(models, level as nat, 0) == first_decode_error(
                models,
                level as nat,
                i as int,
            ),
            out@.len() == i,
            forall|j: int| 0 <= j < i ==> decode_field_at(models[j], level as nat) == Some(#[trigger] out@[j]@),
        decreases n - i,
    {
        match decode_field_exec(&fields[i], level) {
            Ok(g) => {
                out.push(g);
            },
            Err(e) => {
                assert(decode_field_at(models[i as int], level as nat) is None);
                return Err(e);
            },
        }
        i += 1;
    }
    assert forall|j: int| 0 <= j < n implies decode_field_at(#[trigger] models[j], level as nat) is Some by {
        assert(decode_field_at(models[j], level as nat) == Some(out@[j]@));
    }
    assert forall|j: int| 0 <= j < n implies #[trigger] generic_fields_view(out@)[j] == decode_all(models, level as nat)[j] by {
        assert(decode_field_at(models[j], level as nat) == Some(out@[j]@));
    }
    assert(generic_fields_view(out@) =~= decode_all(models, level as nat));
    Ok(out)
}

/// Decode a backend type under the given name, nullability and strategy.
fn decode_parts_exec(
    name: String,
    data_type: &DataType,
    nullable: bool,
    strategy: Option<Strategy>,
    level: usize,
) -> (r: Result<GenericField>)
    requires
        level <= MAX_NESTING + 1,
    ensures
        r is Ok <==> decode_parts(name@, data_type@, nullable, strategy, level as nat) is Some,
        r matches Ok(g) ==> decode_parts(name@, data_type@, nullable, strategy, level as nat) == Some(
            g@,
        ),
        r matches Err(e) ==> e.message@ == parts_error(
            name@,
            data_type@,
            nullable,
            strategy,
            level as nat,
        ),
    decreases data_type,
{
    if level > MAX_NESTING {
        return Err(Error::for_field("the field is nested too deeply", name.as_str()));
    }
    let mut children: Vec<GenericField> = Vec::new();
    let dt = match data_type {
        DataType::Boolean => GenericDataType::Bool,
        DataType::Null => GenericDataType::Null,
        DataType::Int8 => GenericDataType::I8,
        DataType::Int16 => GenericDataType::I16,
        DataType::Int32 => GenericDataType::I32,
        DataType::Int64 => GenericDataType::I64,
        DataType::UInt8 => GenericDataType::U8,
        DataType::UInt16 => GenericDataType::U16,
        DataType::UInt32 => GenericDataType::U32,
        DataType::UInt64 => GenericDataType::U64,
        DataType::Float16 => GenericDataType::F16,
        DataType::Float32 => GenericDataType::F32,
        DataType::Float64 => GenericDataType::F64,
        DataType::Utf8 => GenericDataType::Utf8,
        DataType::LargeUtf8 => GenericDataType::LargeUtf8,
        DataType::Date32 => GenericDataType::Date32,
        DataType::Date64 => GenericDataType::Date64,
        DataType::Decimal(precision, scale) => {
            if *precision > 255 || *scale > 127 {
                return Err(
                    Error::for_field(
                        "cannot represent precision / scale of the decimal",
                        name.as_str(),
                    ),
                );
            }
            GenericDataType::Decimal128(*precision as u8, *scale as i8)
        },
        DataType::Time64(TimeUnit::Microsecond) => GenericDataType::Time64(
            GenericTimeUnit::Microsecond,
        ),
        DataType::Time64(TimeUnit::Nanosecond) => GenericDataType::Time64(
            GenericTimeUnit::Nanosecond,
        ),
        DataType::Time64(_) => {
            return Err(Error::for_field("invalid time unit for Time64", name.as_str()));
        },
        DataType::Timestamp(unit, tz) => GenericDataType::Timestamp(
            generic_unit(unit),
            clone_timezone(tz),
        ),
        DataType::List(field) => {
            match decode_field_exec(field, level + 1) {
                Ok(c) => children.push(c),
                Err(e) => return Err(e),
            }
            GenericDataType::List
        },
        DataType::LargeList(field) => {
            match decode_field_exec(field, level + 1) {
                Ok(c) => children.push(c),
                Err(e) => return Err(e),
            }
            GenericDataType::LargeList
        },
        DataType::Struct(fields) => {
            match decode_fields(fields, level + 1) {
                Ok(v) => children = v,
                Err(e) => return Err(e),
            }
            GenericDataType::Struct
        },
        DataType::MapType(field, sorted) => {
            if *sorted {
                return Err(
                    Error::for_field("maps with sorted keys are not supported", name.as_str()),
                );
            }
            match decode_field_exec(field, level + 1) {
                Ok(c) => children.push(c),
                Err(e) => return Err(e),
            }
            GenericDataType::MapType
        },
        DataType::Union(fields, field_indices, mode) => {
            if field_indices.is_some() {
                return Err(
                    Error::for_field(
                        "Union types with explicit field indices are not supported",
                        name.as_str(),
                    ),
                );
            }
            if !mode.is_dense() {
                return Err(Error::for_field("Only dense unions are supported", name.as_str()));
            }
            match decode_fields(fields, level + 1) {
                Ok(v) => children = v,
                Err(e) => return Err(e),
            }
            GenericDataType::Union
        },
        DataType::Dictionary(int_type, value_type, sorted) => {
            if *sorted {
                return Err(
                    Error::for_field("Sorted dictionaries are not supported", name.as_str()),
                );
            }
            let key_type = match int_type {
                IntegerType::Int8 => GenericDataType::I8,
                IntegerType::Int16 => GenericDataType::I16,
                IntegerType::Int32 => GenericDataType::I32,
                IntegerType::Int64 => GenericDataType::I64,
                IntegerType::UInt8 => GenericDataType::U8,
                IntegerType::UInt16 => GenericDataType::U16,
                IntegerType::UInt32 => GenericDataType::U32,
                IntegerType::UInt64 => GenericDataType::U64,
            };
            let key = GenericField {
                name: String::new(),
                data_type: key_type,
                nullable: false,
                children: Vec::new(),
                strategy: None,
            };
            assert(key@ == dictionary_key_field(*int_type)) by {
                assert(key@.children =~= Seq::<GenericFieldModel>::empty());
            }
            let value = match decode_parts_exec(String::new(), value_type, false, None, level + 1) {
                Ok(v) => v,
                Err(e) => return Err(e),
            };
            children.push(key);
            children.push(value);
            GenericDataType::Dictionary
        },
        _ => {
            return Err(Error::for_field("Cannot convert data type", name.as_str()));
        },
    };
    proof {
        if children@.len() == 0 {
            assert(generic_fields_view(children@) =~= Seq::empty());
        }
        if children@.len() == 1 {
            assert(generic_fields_view(children@) =~= seq![children@[0]@]);
        }
        if children@.len() == 2 {
            assert(generic_fields_view(children@) =~= seq![children@[0]@, children@[1]@]);
        }
    }
    let field = GenericField { name, data_type: dt, nullable, children, strategy };
    assert(build_node(name@, data_type@, nullable, strategy, level as nat) == Some(field@));
    match field.validate_at(level) {
        Ok(()) => Ok(field),
        Err(e) => Err(e),
    }
}

/// Decode a backend field at nesting level `level`.
fn decode_field_exec(field: &Field, level: usize) -> (r: Result<GenericField>)
    requires
        level <= MAX_NESTING + 1,
    ensures
        r is Ok <==> decode_field_at(field@, level as nat) is Some,
        r matches Ok(g) ==> decode_field_at(field@, level as nat) == Some(g@),
        r matches Err(e) ==> e.message@ == decode_error_at(field@, level as nat),
    decreases field,
{
    if field.metadata_key_repeated(STRATEGY_KEY) {
        return Err(
            Error::for_field("the strategy key appears more than once", field.name.as_str()),
        );
    }
    let strategy = match field.metadata_get(STRATEGY_KEY) {
        Some(text) => match Strategy::parse(text.as_str()) {
            Ok(st) => Some(st),
            Err(_) => return Err(Error::for_field("Unknown strategy", field.name.as_str())),
        },
        None => None,
    };
    decode_parts_exec(field.name.clone(), &field.data_type, field.is_nullable, strategy, level)
}

impl GenericField {
    /// Decode a backend field into a canonical field.
    pub fn try_from(field: &Field) -> (r: Result<GenericField>)
        ensures
            r is Ok <==> decode_field(field@) is Some,
            r matches Ok(g) ==> decode_field(field@) == Some(g@),
            r matches Err(e) ==> e.message@ == decode_error(field@),
    {
        decode_field_exec(field, 0)
    }
}

/// Encode `fields` in order; the first failure is returned unchanged.
fn encode_fields(fields: &Vec<GenericField>, level: usize) -> (r: Result<Vec<Field>>)
    requires
        level <= MAX_NESTING + 1,
    ensures
        r is Ok <==> encodes_all(generic_fields_view(fields@), level as nat),
        r matches Ok(v) ==> fields_view(v@) == encode_all(generic_fields_view(fields@), level as nat),
    decreases fields,
{
    let n = fields.len();
    let ghost models = generic_fields_view(fields@);
    assert(forall|j: int| 0 <= j < n ==> models[j] == #[trigger] fields@[j]@);
    let mut out: Vec<Field> = Vec::new();
    let mut i: usize = 0;
    while i < n
        invariant
            n == fields@.len(),
            models == generic_fields_view(fields@),
            forall|j: int| 0 <= j < n ==> models[j] == #[trigger] fields@[j]@,
            0 <= i <= n,
            level <= MAX_NESTING + 1,
            out@.len() == i,
            forall|j: int| 0 <= j < i ==> encode_field_at(models[j], level as nat) == Some(#[trigger] out@[j]@),
        decreases n - i,
    {
        match encode_field_exec(&fields[i], level) {
            Ok(f) => {
                out.push(f);
            },
            Err(e) => {
                assert(encode_field_at(models[i as int], level as nat) is None);
                return Err(e);
            },
        }
        i += 1;
    }
    assert forall|j: int| 0 <= j < n implies encode_field_at(#[trigger] models[j], level as nat) is Some by {
        assert(encode_field_at(models[j], level as nat) == Some(out@[j]@));
    }
    assert forall|j: int| 0 <= j < n implies #[trigger] fields_view(out@)[j] == encode_all(models, level as nat)[j] by {
        assert(encode_field_at(models[j], level as nat) == Some(out@[j]@));
    }
    assert(fields_view(out@) =~= encode_all(models, level as nat));
    Ok(out)
}

/// Encode a canonical field at nesting level `level`.
fn encode_field_exec(value: &GenericField, level: usize) -> (r: Result<Field>)
    requires
        level <= MAX_NESTING + 1,
    ensures
        r is Ok <==> encode_field_at(value@, level as nat) is Some,
        r matches Ok(f) ==> encode_field_at(value@, level as nat) == Some(f@),
    decreases value,
{
    if level > MAX_NESTING {
        return Err(Error::for_field("the field is nested too deeply", value.name.as_str()));
    }
    let ghost g = value@;
    assert(g.children.len() == value.children@.len());
    assert(forall|j: int| 0 <= j < g.children.len() ==> g.children[j] == #[trigger] value.children@[j]@);
    let data_type = match &value.data_type {
        GenericDataType::Null => DataType::Null,
        GenericDataType::Bool => DataType::Boolean,
        GenericDataType::I8 => DataType::Int8,
        GenericDataType::I16 => DataType::Int16,
        GenericDataType::I32 => DataType::Int32,
        GenericDataType::I64 => DataType::Int64,
        GenericDataType::U8 => DataType::UInt8,
        GenericDataType::U16 => DataType::UInt16,
        GenericDataType::U32 => DataType::UInt32,
        GenericDataType::U64 => DataType::UInt64,
        GenericDataType::F16 => DataType::Float16,
        GenericDataType::F32 => DataType::Float32,
        GenericDataType::F64 => DataType::Float64,
        GenericDataType::Date32 => DataType::Date32,
        GenericDataType::Date64 => DataType::Date64,
        GenericDataType::Time64(GenericTimeUnit::Microsecond) => DataType::Time64(
            TimeUnit::Microsecond,
        ),
        GenericDataType::Time64(GenericTimeUnit::Nanosecond) => DataType::Time64(
            TimeUnit::Nanosecond,
        ),
        GenericDataType::Time64(_) => {
            return Err(Error::for_field("invalid time unit for Time64", value.name.as_str()));
        },
        GenericDataType::Timestamp(unit, tz) => DataType::Timestamp(
            backend_unit(unit),
            clone_timezone(tz),
        ),
        GenericDataType::Decimal128(precision, scale) => {
            if *scale < 0 {
                return Err(
                    Error::for_field(
                        "decimals with negative scale are not supported",
                        value.name.as_str(),
                    ),
                );
            }
            DataType::Decimal(*precision as usize, *scale as usize)
        },
        GenericDataType::Utf8 => DataType::Utf8,
        GenericDataType::LargeUtf8 => DataType::LargeUtf8,
        GenericDataType::List => {
            if value.children.len() == 0 {
                return Err(Error::for_field("List must have a single child", value.name.as_str()));
            }
            match encode_field_exec(&value.children[0], level + 1) {
                Ok(f) => DataType::List(Box::new(f)),
                Err(e) => return Err(e),
            }
        },
        GenericDataType::LargeList => {
            if value.children.len() == 0 {
                return Err(
                    Error::for_field("LargeList must have a single child", value.name.as_str()),
                );
            }
            match encode_field_exec(&value.children[0], level + 1) {
                Ok(f) => DataType::LargeList(Box::new(f)),
                Err(e) => return Err(e),
            }
        },
        GenericDataType::Struct => match encode_fields(&value.children, level + 1) {
            Ok(fields) => DataType::Struct(fields),
            Err(e) => return Err(e),
        },
        GenericDataType::MapType => {
            if value.children.len() == 0 {
                return Err(Error::for_field("Map must have an entries child", value.name.as_str()));
            }
            match encode_field_exec(&value.children[0], level + 1) {
                Ok(f) => DataType::MapType(Box::new(f), false),
                Err(e) => return Err(e),
            }
        },
        GenericDataType::Union => match encode_fields(&value.children, level + 1) {
            Ok(fields) => DataType::Union(fields, None, UnionMode::Dense),
            Err(e) => return Err(e),
        },
        GenericDataType::Dictionary => {
            if value.children.len() < 2 {
                return Err(
                    Error::for_field("Dictionary must have two children", value.name.as_str()),
                );
            }
            let val_field = match encode_field_exec(&value.children[1], level + 1) {
                Ok(f) => f,
                Err(e) => return Err(e),
            };
            assert(g.children[0] == value.children@[0]@);
            let key_type = match &value.children[0].data_type {
                GenericDataType::U8 => IntegerType::UInt8,
                GenericDataType::U16 => IntegerType::UInt16,
                GenericDataType::U32 => IntegerType::UInt32,
                GenericDataType::U64 => IntegerType::UInt64,
                GenericDataType::I8 => IntegerType::Int8,
                GenericDataType::I16 => IntegerType::Int16,
                GenericDataType::I32 => IntegerType::Int32,
                GenericDataType::I64 => IntegerType::Int64,
                _ => {
                    return Err(
                        Error::for_field("Invalid key type for dictionary", value.name.as_str()),
                    );
                },
            };
            DataType::Dictionary(key_type, Box::new(val_field.data_type), false)
        },
    };
    assert(encode_data_type(g, level as nat) == Some(data_type@));
    let mut field = Field::new(value.name.as_str(), data_type, value.nullable);
    match &value.strategy {
        Some(strategy) => {
            field.metadata = vec![(STRATEGY_KEY.to_owned(), strategy.as_str().to_owned())];
            assert(field@.metadata =~= strategy_metadata(g.strategy));
        },
        None => {},
    }
    Ok(field)
}

/// Check that a valid canonical field lies inside the representable subset.
fn check_representable(value: &GenericField) -> (r: Result<()>)
    requires
        field_valid(value@),
    ensures
        r is Ok <==> representable(value@),
        r matches Err(e) ==> e.message@ == representable_error(value@),
    decreases value,
{
    let ghost g = value@;
    let n = value.children.len();
    assert(g.children.len() == n);
    assert(forall|j: int| 0 <= j < n ==> g.children[j] == #[trigger] value.children@[j]@);
    match &value.data_type {
        GenericDataType::Decimal128(_, scale) => {
            if *scale < 0 {
                return Err(
                    Error::for_field(
                        "decimals with negative scale are not supported",
                        value.name.as_str(),
                    ),
                );
            }
        },
        GenericDataType::Dictionary => {
            assert(g.children[0] == value.children@[0]@);
            assert(g.children[1] == value.children@[1]@);
            let key = &value.children[0];
            let val = &value.children[1];
            let plain = key.name.as_str().is_empty() && !key.nullable && key.strategy.is_none()
                && val.name.as_str().is_empty() && !val.nullable && val.strategy.is_none();
            if !plain {
                return Err(
                    Error::for_field(
                        "dictionary children must be unnamed, non-nullable and plain",
                        value.name.as_str(),
                    ),
                );
            }
        },
        _ => {},
    }
    let mut i: usize = 0;
    while i < n
        invariant
            n == value.children@.len(),
            n == g.children.len(),
            g == value@,
            field_valid(g),
            forall|j: int| 0 <= j < n ==> g.children[j] == #[trigger] value.children@[j]@,
            0 <= i <= n,
            !(g.data_type matches GenericDataType::Decimal128(_, scale) && scale < 0),
            g.data_type is Dictionary ==> (plain_child(g.children[0]) && plain_child(g.children[1])),
            representable_error(g) == first_representable_error(g.children, i as int),
            forall|j: int| 0 <= j < i ==> representable(#[trigger] g.children[j]),
        decreases n - i,
    {
        assert(g.children[i as int] == value.children@[i as int]@);
        assert(field_valid(g.children[i as int]));
        match check_representable(&value.children[i]) {
            Ok(()) => {},
            Err(e) => {
                return Err(e);
            },
        }
        i += 1;
    }
    Ok(())
}

impl Field {
    /// Encode a canonical field as a backend field. The field must be valid
    /// and inside the subset that the backend expresses exactly.
    pub fn try_from(value: &GenericField) -> (r: Result<Field>)
        ensures
            r is Ok <==> encodable(value@),
            r is Ok <==> encode_field(value@) is Some,
            r matches Ok(f) ==> encode_field(value@) == Some(f@),
            r matches Err(e) ==> e.message@ == encode_error(value@),
    {
        match value.validate() {
            Ok(()) => {},
            Err(e) => return Err(e),
        }
        match check_representable(value) {
            Ok(()) => {},
            Err(e) => return Err(e),
        }
        proof {
            lemma_reverse_round_trip_at(value@, 0);
        }
        encode_field_exec(value, 0)
    }
}

impl SerdeArrowSchema {
    /// Build a schema from backend fields, decoding each in order.
    pub fn from_arrow2_fields(fields: &[Field]) -> (r: Result<SerdeArrowSchema>)
        ensures
            r is Ok <==> decodes_all(fields_view(fields@), 0),
            r matches Ok(schema) ==> generic_fields_view(schema.fields@) == decode_all(fields_view(fields@), 0),
            r matches Err(e) ==> e.message@ == first_decode_error(fields_view(fields@), 0, 0),
    {
        let n = fields.len();
        let ghost models = fields_view(fields@);
        assert(forall|j: int| 0 <= j < n ==> models[j] == #[trigger] fields@[j]@);
        let mut out: Vec<GenericField> = Vec::new();
        let mut i: usize = 0;
        while i < n
            invariant
                n == fields@.len(),
                models == fields_view(fields@),
                forall|j: int| 0 <= j < n ==> models[j] == #[trigger] fields@[j]@,
                0 <= i <= n,
                first_decode_error(models, 0, 0) == first_decode_error(models, 0, i as int),
                out@.len() == i,
                forall|j: int| 0 <= j < i ==> decode_field(models[j]) == Some(#[trigger] out@[j]@),
            decreases n - i,
        {
            match GenericField::try_from(&fields[i]) {
                Ok(g) => {
                    out.push(g);
                },
                Err(e) => {
                    assert(decode_field(models[i as int]) is None);
                    return Err(e);
                },
            }
            i += 1;
        }
        assert forall|j: int| 0 <= j < n implies decode_field(#[trigger] models[j]) is Some by {
            assert(decode_field(models[j]) == Some(out@[j]@));
        }
        assert forall|j: int| 0 <= j < n implies #[trigger] generic_fields_view(out@)[j]
            == decode_all(models, 0)[j] by {
            assert(decode_field(models[j]) == Some(out@[j]@));
        }
        assert(generic_fields_view(out@) =~= decode_all(models, 0));
        Ok(SerdeArrowSchema { fields: out })
    }

    /// Deprecated name of [`SerdeArrowSchema::to_arrow2_fields`], with the
    /// same result.
    pub fn get_arrow2_fields(&self) -> (r: Result<Vec<Field>>)
        ensures
            r is Ok <==> encodes_each(generic_fields_view(self.fields@)),
            r matches Ok(v) ==> fields_view(v@) == encode_each(generic_fields_view(self.fields@)),
            r matches Err(e) ==> e.message@ == first_encode_error(
                generic_fields_view(self.fields@),
                0,
            ),
    {
        self.to_arrow2_fields()
    }

    /// Encode every field of the schema, in order, as a backend field; the
    /// error of the first field that does not encode is returned unchanged.
    pub fn to_arrow2_fields(&self) -> (r: Result<Vec<Field>>)
        ensures
            r is Ok <==> encodes_each(generic_fields_view(self.fields@)),
            r matches Ok(v) ==> fields_view(v@) == encode_each(generic_fields_view(self.fields@)),
            r matches Err(e) ==> e.message@ == first_encode_error(
                generic_fields_view(self.fields@),
                0,
            ),
    {
        let n = self.fields.len();
        let ghost models = generic_fields_view(self.fields@);
        assert(forall|j: int| 0 <= j < n ==> models[j] == #[trigger] self.fields@[j]@);
        let mut out: Vec<Field> = Vec::new();
        let mut i: usize = 0;
        while i < n
            invariant
                n == self.fields@.len(),
                models == generic_fields_view(self.fields@),
                forall|j: int| 0 <= j < n ==> models[j] == #[trigger] self.fields@[j]@,
                0 <= i <= n,
                first_encode_error(models, 0) == first_encode_error(models, i as int),
                out@.len() == i,
                forall|j: int| 0 <= j < i ==> encode_field(models[j]) == Some(#[trigger] out@[j]@),
            decreases n - i,
        {
            match Field::try_from(&self.fields[i]) {
                Ok(f) => {
                    out.push(f);
                },
                Err(e) => {
                    assert(encode_field(models[i as int]) is None);
                    return Err(e);
                },
            }
            i += 1;
        }
        assert forall|j: int| 0 <= j < n implies encode_field(#[trigger] models[j]) is Some by {
            assert(encode_field(models[j]) == Some(out@[j]@));
        }
        assert forall|j: int| 0 <= j < n implies #[trigger] fields_view(out@)[j] == encode_each(
            models,
        )[j] by {
            assert(encode_field(models[j]) == Some(out@[j]@));
        }
        assert(fields_view(out@) =~= encode_each(models));
        Ok(out)
    }
}

impl TryFrom<SerdeArrowSchema> for Vec<Field> {
    type Error = Error;

    /// The fields of the schema encoded in order, exactly as
    /// [`SerdeArrowSchema::to_arrow2_fields`] returns them.
    fn try_from(value: SerdeArrowSchema) -> (r: Result<Vec<Field>>)
        ensures
            r is Ok <==> encodes_each(generic_fields_view(value.fields@)),
            r matches Ok(v) ==> fields_view(v@) == encode_each(generic_fields_view(value.fields@)),
            r matches Err(e) ==> e.message@ == first_encode_error(
                generic_fields_view(value.fields@),
                0,
            ),
    {
        value.to_arrow2_fields()
    }
}

impl vstd::std_specs::convert::TryFromSpecImpl<SerdeArrowSchema> for Vec<Field> {
    /// No closed form is given here: what the conversion returns is stated by
    /// the `ensures` of its `try_from`.
    open spec fn obeys_try_from_spec() -> bool {
        false
    }

    open spec fn try_from_spec(v: SerdeArrowSchema) -> Result<Vec<Field>> {
        arbitrary()
    }
}

impl<'a> TryFrom<&'a Field> for GenericField {
    type Error = Error;

    /// Decode a backend field, as [`GenericField::try_from`] does.
    fn try_from(field: &'a Field) -> (r: Result<GenericField>)
        ensures
            r is Ok <==> decode_field(field@) is Some,
            r matches Ok(g) ==> decode_field(field@) == Some(g@),
            r matches Err(e) ==> e.message@ == decode_error(field@),
    {
        GenericField::try_from(field)
    }
}

impl<'a> vstd::std_specs::convert::TryFromSpecImpl<&'a Field> for GenericField {
    /// No closed form is given here: what the conversion returns is stated by
    /// the `ensures` of its `try_from`.
    open spec fn obeys_try_from_spec() -> bool {
        false
    }

    open spec fn try_from_spec(v: &'a Field) -> Result<GenericField> {
        arbitrary()
    }
}

impl<'a> TryFrom<&'a GenericField> for Field {
    type Error = Error;

    /// Encode a canonical field, as [`Field::try_from`] does.
    fn try_from(value: &'a GenericField) -> (r: Result<Field>)
        ensures
            r is Ok <==> encodable(value@),
            r matches Ok(f) ==> encode_field(value@) == Some(f@),
            r matches Err(e) ==> e.message@ == encode_error(value@),
    {
        Field::try_from(value)
    }
}

impl<'a> vstd::std_specs::convert::TryFromSpecImpl<&'a GenericField> for Field {
    /// No closed form is given here: what the conversion returns is stated by
    /// the `ensures` of its `try_from`.
    open spec fn obeys_try_from_spec() -> bool {
        false
    }

    open spec fn try_from_spec(v: &'a GenericField) -> Result<Field> {
        arbitrary()
    }
}

/// Whether every top-level canonical field of `gs` encodes.
pub open spec fn encodes_each(gs: Seq<GenericFieldModel>) -> bool {
    forall|i: int| 0 <= i < gs.len() ==> encode_field(#[trigger] gs[i]) is Some
}

/// The backend fields that the top-level canonical fields of `gs` encode to.
pub open spec fn encode_each(gs: Seq<GenericFieldModel>) -> Seq<FieldModel> {
    Seq::new(gs.len(), |i: int| encode_field(gs[i])->Some_0)
}

/// The encoding error of the first of `gs[i..]` that does not encode.
pub open spec fn first_encode_error(gs: Seq<GenericFieldModel>, i: int) -> Seq<char>
    decreases gs.len() - i,
{
    if i < 0 || i >= gs.len() {
        Seq::empty()
    } else if encode_field(gs[i]) is None {
        encode_error(gs[i])
    } else {
        first_encode_error(gs, i + 1)
    }
}

/// The metadata entries that the mapping manages: the strategy entry alone.
pub open spec fn managed_metadata(m: Seq<(Seq<char>, Seq<char>)>) -> Seq<(Seq<char>, Seq<char>)> {
    match metadata_lookup(m, STRATEGY_KEY@) {
        Some(text) => seq![(STRATEGY_KEY@, text)],
        None => Seq::empty(),
    }
}

/// A backend field with every metadata entry that the mapping does not manage
/// dropped, throughout the tree.
pub open spec fn managed_field(f: FieldModel) -> FieldModel
    decreases f, 1nat,
{
    FieldModel {
        name: f.name,
        data_type: managed_type(f.data_type),
        nullable: f.nullable,
        metadata: managed_metadata(f.metadata),
    }
}

pub open spec fn managed_all(fs: Seq<FieldModel>) -> Seq<FieldModel>
    decreases fs, 2nat,
{
    Seq::new(
        fs.len(),
        |i: int|
            if 0 <= i < fs.len() {
                managed_field(fs[i])
            } else {
                arbitrary()
            },
    )
}

/// A backend type with unmanaged metadata dropped from all nested fields.
pub open spec fn managed_type(t: DataTypeModel) -> DataTypeModel
    decreases t, 0nat,
{
    match t {
        DataTypeModel::List(f) => DataTypeModel::List(Box::new(managed_field(*f))),
        DataTypeModel::LargeList(f) => DataTypeModel::LargeList(Box::new(managed_field(*f))),
        DataTypeModel::FixedSizeList(f, n) => DataTypeModel::FixedSizeList(
            Box::new(managed_field(*f)),
            n,
        ),
        DataTypeModel::Struct(fs) => DataTypeModel::Struct(managed_all(fs)),
        DataTypeModel::Union(fs, ids, mode) => DataTypeModel::Union(managed_all(fs), ids, mode),
        DataTypeModel::MapType(f, sorted) => DataTypeModel::MapType(
            Box::new(managed_field(*f)),
            sorted,
        ),
        DataTypeModel::Dictionary(k, v, sorted) => DataTypeModel::Dictionary(
            k,
            Box::new(managed_type(*v)),
            sorted,
        ),
        _ => t,
    }
}

/// Encoding what a backend type decodes to under a name, nullability,
/// strategy and nesting level gives that type back, with the strategy as its
/// only metadata.
pub proof fn lemma_decode_parts_round_trip(
    name: Seq<char>,
    t: DataTypeModel,
    nullable: bool,
    strategy: Option<Strategy>,
    level: nat,
)
    requires
        decode_parts(name, t, nullable, strategy, level) is Some,
    ensures
        encode_field_at(decode_parts(name, t, nullable, strategy, level)->Some_0, level) == Some(
            FieldModel {
                name,
                data_type: managed_type(t),
                nullable,
                metadata: strategy_metadata(strategy),
            },
        ),
    decreases t, 1nat,
{
    match t {
        DataTypeModel::List(f) => {
            lemma_round_trip_at(*f, level + 1);
        },
        DataTypeModel::LargeList(f) => {
            lemma_round_trip_at(*f, level + 1);
        },
        DataTypeModel::MapType(f, _) => {
            lemma_round_trip_at(*f, level + 1);
        },
        DataTypeModel::Struct(fs) => {
            lemma_decode_all_round_trip(fs, level + 1);
        },
        DataTypeModel::Union(fs, _, _) => {
            lemma_decode_all_round_trip(fs, level + 1);
        },
        DataTypeModel::Dictionary(k, v, _) => {
            lemma_decode_parts_round_trip(Seq::empty(), *v, false, None, level + 1);
            assert(key_integer_type(key_data_type(k)) == Some(k));
        },
        DataTypeModel::Decimal(p, s) => {
            assert((p as u8) as usize == p);
            assert((s as i8) as usize == s);
        },
        _ => {},
    }
}

/// Encoding what a sequence of backend fields decodes to gives the fields
/// back, with unmanaged metadata dropped.
pub proof fn lemma_decode_all_round_trip(fs: Seq<FieldModel>, level: nat)
    requires
        decodes_all(fs, level),
    ensures
        encodes_all(decode_all(fs, level), level),
        encode_all(decode_all(fs, level), level) == managed_all(fs),
    decreases fs, 0nat,
{
    let gs = decode_all(fs, level);
    assert forall|i: int| 0 <= i < fs.len() implies #[trigger] encode_field_at(gs[i], level) == Some(
        managed_field(fs[i]),
    ) by {
        assert(decode_field_at(fs[i], level) is Some);
        lemma_round_trip_at(fs[i], level);
    }
    assert forall|i: int| 0 <= i < gs.len() implies encode_field_at(#[trigger] gs[i], level) is Some by {
        assert(encode_field_at(gs[i], level) == Some(managed_field(fs[i])));
    }
    assert(encode_all(gs, level) =~= managed_all(fs));
}

/// Round trip at any nesting level: a backend field that decodes encodes back
/// to itself, apart from metadata entries that the mapping does not manage.
pub proof fn lemma_round_trip_at(x: FieldModel, level: nat)
    requires
        decode_field_at(x, level) is Some,
    ensures
        encode_field_at(decode_field_at(x, level)->Some_0, level) == Some(managed_field(x)),
    decreases x, 2nat,
{
    let strategy = match metadata_lookup(x.metadata, STRATEGY_KEY@) {
        Some(text) => parse_strategy(text),
        None => None,
    };
    lemma_decode_parts_round_trip(x.name, x.data_type, x.nullable, strategy, level);
    assert(strategy_metadata(strategy) == managed_metadata(x.metadata));
}

/// Round trip: for every backend field that decodes, encoding the result gives
/// the field back, apart from metadata entries that the mapping does not
/// manage.
pub proof fn lemma_decode_encode_round_trip(x: FieldModel)
    requires
        decode_field(x) is Some,
    ensures
        encode_field(decode_field(x)->Some_0) == Some(managed_field(x)),
{
    lemma_round_trip_at(x, 0);
    lemma_decoded_field_representable(x, 0);
}

/// What a backend type decodes to keeps the given name, nullability and
/// strategy, and lies inside the representable subset.
proof fn lemma_decoded_parts_representable(
    name: Seq<char>,
    t: DataTypeModel,
    nullable: bool,
    strategy: Option<Strategy>,
    level: nat,
)
    requires
        decode_parts(name, t, nullable, strategy, level) is Some,
    ensures
        decode_parts(name, t, nullable, strategy, level)->Some_0.name == name,
        decode_parts(name, t, nullable, strategy, level)->Some_0.nullable == nullable,
        decode_parts(name, t, nullable, strategy, level)->Some_0.strategy == strategy,
        representable(decode_parts(name, t, nullable, strategy, level)->Some_0),
    decreases t, 1nat,
{
    let g = decode_parts(name, t, nullable, strategy, level)->Some_0;
    match t {
        DataTypeModel::List(f) | DataTypeModel::LargeList(f) | DataTypeModel::MapType(f, _) => {
            lemma_decoded_field_representable(*f, level + 1);
        },
        DataTypeModel::Struct(fs) => {
            assert(decodes_all(fs, level + 1));
            assert(g.children == decode_all(fs, level + 1));
            assert forall|i: int| 0 <= i < g.children.len() implies representable(
                #[trigger] g.children[i],
            ) by {
                assert(decode_field_at(fs[i], level + 1) is Some);
                lemma_decoded_field_representable(fs[i], level + 1);
            }
        },
        DataTypeModel::Union(fs, _, _) => {
            assert(decodes_all(fs, level + 1));
            assert(g.children == decode_all(fs, level + 1));
            assert forall|i: int| 0 <= i < g.children.len() implies representable(
                #[trigger] g.children[i],
            ) by {
                assert(decode_field_at(fs[i], level + 1) is Some);
                lemma_decoded_field_representable(fs[i], level + 1);
            }
        },
        DataTypeModel::Dictionary(k, v, _) => {
            lemma_decoded_parts_representable(Seq::empty(), *v, false, None, level + 1);
            assert(representable(g.children[0]));
        },
        _ => {},
    }
}

/// What a backend field decodes to lies inside the representable subset.
proof fn lemma_decoded_field_representable(x: FieldModel, level: nat)
    requires
        decode_field_at(x, level) is Some,
    ensures
        representable(decode_field_at(x, level)->Some_0),
    decreases x, 2nat,
{
    let strategy = match metadata_lookup(x.metadata, STRATEGY_KEY@) {
        Some(text) => parse_strategy(text),
        None => None,
    };
    lemma_decoded_parts_representable(x.name, x.data_type, x.nullable, strategy, level);
}

/// Strategies: a field whose strategy entry holds an unrecognized text does not
/// decode; one that decodes carries the strategy named by that entry, and
/// encoding it writes the same entry back.
pub proof fn lemma_strategy_round_trip(x: FieldModel)
    ensures
        metadata_lookup(x.metadata, STRATEGY_KEY@) matches Some(text) && parse_strategy(text) is None
            ==> decode_field(x) is None,
        decode_field(x) is Some ==> decode_field(x)->Some_0.strategy == match metadata_lookup(
            x.metadata,
            STRATEGY_KEY@,
        ) {
            Some(text) => parse_strategy(text),
            None => None,
        },
        decode_field(x) is Some ==> encode_field(decode_field(x)->Some_0) is Some && metadata_lookup(
            encode_field(decode_field(x)->Some_0)->Some_0.metadata,
            STRATEGY_KEY@,
        ) == metadata_lookup(x.metadata, STRATEGY_KEY@),
{
    if decode_field(x) is Some {
        lemma_decode_encode_round_trip(x);
        let m = managed_metadata(x.metadata);
        if let Some(text) = metadata_lookup(x.metadata, STRATEGY_KEY@) {
            assert(m[0].0 == STRATEGY_KEY@);
        }
    }
}

/// A child of a canonical dictionary as decoding builds it: unnamed,
/// non-nullable and without strategy.
pub open spec fn plain_child(c: GenericFieldModel) -> bool {
    c.name.len() == 0 && !c.nullable && c.strategy is None
}

/// Canonical fields inside the subset that the backend expresses exactly:
/// decimal scales are non-negative and dictionary children are plain.
pub open spec fn representable(g: GenericFieldModel) -> bool
    decreases g,
{
    &&& g.data_type matches GenericDataType::Decimal128(_, scale) ==> scale >= 0
    &&& g.data_type is Dictionary ==> (plain_child(g.children[0]) && plain_child(g.children[1]))
    &&& forall|i: int| 0 <= i < g.children.len() ==> representable(#[trigger] g.children[i])
}

/// Reverse round trip at any nesting level.
pub proof fn lemma_reverse_round_trip_at(y: GenericFieldModel, level: nat)
    requires
        field_valid(y),
        nesting_within(y, level),
        representable(y),
    ensures
        encode_field_at(y, level) is Some,
        decode_field_at(encode_field_at(y, level)->Some_0, level) == Some(y),
    decreases y, 1nat,
{
    let t = encode_data_type_after(y, level);
    let f = encode_field_at(y, level)->Some_0;
    assert(f.metadata.len() == 0 ==> metadata_count(f.metadata, STRATEGY_KEY@) == 0);
    if let Some(st) = y.strategy {
        assert(f.metadata.drop_first() =~= Seq::<(Seq<char>, Seq<char>)>::empty());
        assert(metadata_count(f.metadata.drop_first(), STRATEGY_KEY@) == 0);
        assert(metadata_count(f.metadata, STRATEGY_KEY@) == 1);
        lemma_strategy_name_parses(st);
        assert(metadata_lookup(f.metadata, STRATEGY_KEY@) == Some(strategy_name(st))) by {
            assert(f.metadata.drop_first() =~= Seq::<(Seq<char>, Seq<char>)>::empty());
        }
    }
    assert(decode_field_at(f, level) == decode_parts(y.name, t, y.nullable, y.strategy, level));
    assert(build_node(y.name, t, y.nullable, y.strategy, level) == Some(y));
}

/// Reverse round trip: every valid canonical field inside the representable
/// subset encodes, and decoding the result gives the field back.
pub proof fn lemma_encode_decode_round_trip(y: GenericFieldModel)
    requires
        field_valid(y),
        nesting_within(y, 0),
        representable(y),
    ensures
        encode_field(y) is Some,
        decode_field(encode_field(y)->Some_0) == Some(y),
{
    lemma_reverse_round_trip_at(y, 0);
}

/// The backend type that a valid, representable canonical field encodes to,
/// together with the fact that decoding it rebuilds the field's node.
proof fn encode_data_type_after(y: GenericFieldModel, level: nat) -> (t: DataTypeModel)
    requires
        field_valid(y),
        nesting_within(y, level),
        representable(y),
    ensures
        encode_data_type(y, level) == Some(t),
        build_node(y.name, t, y.nullable, y.strategy, level) == Some(y),
    decreases y, 0nat,
{
    let t = encode_data_type(y, level)->Some_0;
    match y.data_type {
        GenericDataType::List | GenericDataType::LargeList | GenericDataType::MapType => {
            assert(field_valid(y.children[0]) && representable(y.children[0]));
            assert(nesting_within(y.children[0], level + 1));
            lemma_reverse_round_trip_at(y.children[0], level + 1);
            assert(seq![y.children[0]] =~= y.children);
        },
        GenericDataType::Struct | GenericDataType::Union => {
            assert forall|i: int| 0 <= i < y.children.len() implies encode_field_at(
                #[trigger] y.children[i],
                level + 1,
            ) is Some && decode_field_at(encode_field_at(y.children[i], level + 1)->Some_0, level + 1)
                == Some(y.children[i]) by {
                assert(field_valid(y.children[i]) && representable(y.children[i]));
                assert(nesting_within(y.children[i], level + 1));
                lemma_reverse_round_trip_at(y.children[i], level + 1);
            }
            let fs = encode_all(y.children, level + 1);
            assert forall|i: int| 0 <= i < fs.len() implies decode_field_at(
                #[trigger] fs[i],
                level + 1,
            ) is Some by {
                assert(decode_field_at(encode_field_at(y.children[i], level + 1)->Some_0, level + 1)
                    == Some(y.children[i]));
            }
            assert(decode_all(fs, level + 1) =~= y.children);
        },
        GenericDataType::Dictionary => {
            let key = y.children[0];
            let value = y.children[1];
            assert(field_valid(key) && field_valid(value) && representable(value));
            assert(nesting_within(value, level + 1));
            lemma_reverse_round_trip_at(value, level + 1);
            let fv = encode_field_at(value, level + 1)->Some_0;
            assert(value.name =~= Seq::<char>::empty());
            assert(fv.metadata =~= Seq::<(Seq<char>, Seq<char>)>::empty());
            assert(decode_field_at(fv, level + 1) == decode_parts(
                Seq::empty(),
                fv.data_type,
                false,
                None,
                level + 1,
            ));
            assert(key.children =~= Seq::<GenericFieldModel>::empty());
            assert(key.name =~= Seq::<char>::empty());
            assert(dictionary_key_field(key_integer_type(key.data_type)->Some_0) == key);
            assert(seq![key, value] =~= y.children);
        },
        GenericDataType::Decimal128(p, s) => {
            assert((p as usize) as u8 == p);
            assert((s as usize) as i8 == s);
            assert(y.children =~= Seq::<GenericFieldModel>::empty());
        },
        _ => {
            assert(y.children =~= Seq::<GenericFieldModel>::empty());
        },
    }
    t
}

} // verus!
