use serde_arrow::datatypes::{DataType, Field, IntegerType, TimeUnit, UnionMode};
use serde_arrow::schema::{
    GenericDataType, GenericField, GenericTimeUnit, SerdeArrowSchema, Strategy, MAX_NESTING,
    STRATEGY_KEY,
};

fn field(name: &str, data_type: DataType, nullable: bool) -> Field {
    Field::new(name, data_type, nullable)
}

fn generic(name: &str, data_type: GenericDataType, children: Vec<GenericField>) -> GenericField {
    GenericField {
        name: name.to_string(),
        data_type,
        nullable: false,
        children,
        strategy: None,
    }
}

fn round_trip(f: &Field) -> Field {
    let g = GenericField::try_from(f).expect("decode");
    Field::try_from(&g).expect("encode")
}

#[test]
fn decimal_precision_too_large_fails() {
    let f = field("d", DataType::Decimal(256, 0), false);
    assert!(GenericField::try_from(&f).is_err());
}

#[test]
fn decimal_scale_too_large_fails() {
    let f = field("d", DataType::Decimal(10, 128), false);
    assert!(GenericField::try_from(&f).is_err());
}

#[test]
fn decimal_round_trip() {
    let f = field("d", DataType::Decimal(38, 2), true);
    let g = GenericField::try_from(&f).unwrap();
    assert_eq!(g.data_type, GenericDataType::Decimal128(38, 2));
    assert!(g.nullable);
    assert_eq!(Field::try_from(&g).unwrap(), f);
}

#[test]
fn decimal_largest_bounds_round_trip() {
    let f = field("d", DataType::Decimal(255, 127), false);
    let g = GenericField::try_from(&f).unwrap();
    assert_eq!(g.data_type, GenericDataType::Decimal128(255, 127));
    assert_eq!(round_trip(&f), f);
}

#[test]
fn negative_decimal_scale_fails_encode() {
    let g = generic("d", GenericDataType::Decimal128(10, -2), vec![]);
    assert!(g.validate().is_ok());
    assert!(Field::try_from(&g).is_err());
}

fn three_variants() -> Vec<Field> {
    vec![
        field("a", DataType::Int32, false),
        field("b", DataType::Utf8, true),
        field("c", DataType::Boolean, false),
    ]
}

#[test]
fn union_with_explicit_indices_fails() {
    let f = field(
        "u",
        DataType::Union(three_variants(), Some(vec![0, 1, 2]), UnionMode::Dense),
        false,
    );
    let err = GenericField::try_from(&f).unwrap_err();
    assert!(err.message().contains("explicit field indices"));
    assert!(err.message().ends_with(": field u"));
}

#[test]
fn sparse_union_fails() {
    let f = field("u", DataType::Union(three_variants(), None, UnionMode::Sparse), false);
    assert!(GenericField::try_from(&f).is_err());
}

#[test]
fn dense_union_round_trip() {
    let f = field("u", DataType::Union(three_variants(), None, UnionMode::Dense), false);
    let g = GenericField::try_from(&f).unwrap();
    assert_eq!(g.data_type, GenericDataType::Union);
    assert_eq!(g.children.len(), 3);
    assert_eq!(g.children[0].name, "a");
    assert_eq!(g.children[0].data_type, GenericDataType::I32);
    assert_eq!(g.children[1].name, "b");
    assert_eq!(g.children[1].data_type, GenericDataType::Utf8);
    assert_eq!(g.children[2].name, "c");
    assert_eq!(g.children[2].data_type, GenericDataType::Bool);
    assert_eq!(Field::try_from(&g).unwrap(), f);
}

#[test]
fn sorted_dictionary_fails() {
    let f = field(
        "d",
        DataType::Dictionary(IntegerType::Int32, Box::new(DataType::Utf8), true),
        false,
    );
    assert!(GenericField::try_from(&f).is_err());
}

#[test]
fn dictionary_round_trip() {
    let f = field(
        "d",
        DataType::Dictionary(IntegerType::Int32, Box::new(DataType::Utf8), false),
        true,
    );
    let g = GenericField::try_from(&f).unwrap();
    assert_eq!(g.data_type, GenericDataType::Dictionary);
    assert_eq!(g.children.len(), 2);
    assert_eq!(g.children[0].data_type, GenericDataType::I32);
    assert_eq!(g.children[1].data_type, GenericDataType::Utf8);
    assert_eq!(Field::try_from(&g).unwrap(), f);
}

#[test]
fn dictionary_with_every_key_type_round_trips() {
    let keys = [
        IntegerType::Int8,
        IntegerType::Int16,
        IntegerType::Int32,
        IntegerType::Int64,
        IntegerType::UInt8,
        IntegerType::UInt16,
        IntegerType::UInt32,
        IntegerType::UInt64,
    ];
    for key in keys {
        let f = field("d", DataType::Dictionary(key, Box::new(DataType::LargeUtf8), false), false);
        assert_eq!(round_trip(&f), f);
    }
}

#[test]
fn dictionary_with_string_key_fails_encode() {
    let g = generic(
        "d",
        GenericDataType::Dictionary,
        vec![generic("", GenericDataType::Utf8, vec![]), generic("", GenericDataType::Utf8, vec![])],
    );
    assert!(g.validate().is_err());
    assert!(Field::try_from(&g).is_err());
}

#[test]
fn strategy_round_trip() {
    let mut f = field("s", DataType::Date64, false);
    f.metadata = vec![(STRATEGY_KEY.to_string(), "UtcStrAsDate64".to_string())];
    let g = GenericField::try_from(&f).unwrap();
    assert_eq!(g.strategy, Some(Strategy::UtcStrAsDate64));
    let back = Field::try_from(&g).unwrap();
    assert_eq!(back.metadata, vec![(STRATEGY_KEY.to_string(), "UtcStrAsDate64".to_string())]);
    assert_eq!(back, f);
}

#[test]
fn unknown_strategy_fails() {
    let mut f = field("s", DataType::Date64, false);
    f.metadata = vec![(STRATEGY_KEY.to_string(), "NoSuchStrategy".to_string())];
    assert!(GenericField::try_from(&f).is_err());
}

#[test]
fn unmanaged_metadata_is_dropped() {
    let mut f = field("s", DataType::Int64, false);
    f.metadata = vec![
        ("owner".to_string(), "someone".to_string()),
        (STRATEGY_KEY.to_string(), "InconsistentTypes".to_string()),
    ];
    let back = round_trip(&f);
    assert_eq!(back.metadata, vec![(STRATEGY_KEY.to_string(), "InconsistentTypes".to_string())]);
    assert_eq!(back.name, "s");
    assert_eq!(back.data_type, DataType::Int64);
}

#[test]
fn no_strategy_writes_no_metadata() {
    let g = generic("x", GenericDataType::U16, vec![]);
    let f = Field::try_from(&g).unwrap();
    assert!(f.metadata.is_empty());
    assert_eq!(f.data_type, DataType::UInt16);
}

#[test]
fn struct_scenario_round_trip() {
    let f = field(
        "s",
        DataType::Struct(vec![field("a", DataType::Int32, false), field("b", DataType::Utf8, true)]),
        false,
    );
    let g = GenericField::try_from(&f).unwrap();
    assert_eq!(g.data_type, GenericDataType::Struct);
    assert_eq!(g.children.len(), 2);
    assert_eq!(g.children[0].name, "a");
    assert_eq!(g.children[0].data_type, GenericDataType::I32);
    assert!(!g.children[0].nullable);
    assert_eq!(g.children[1].name, "b");
    assert_eq!(g.children[1].data_type, GenericDataType::Utf8);
    assert!(g.children[1].nullable);
    assert_eq!(Field::try_from(&g).unwrap(), f);
}

#[test]
fn empty_struct_round_trips() {
    let f = field("s", DataType::Struct(vec![]), true);
    let g = GenericField::try_from(&f).unwrap();
    assert!(g.children.is_empty());
    assert_eq!(round_trip(&f), f);
}

#[test]
fn list_and_large_list_round_trip() {
    let f = field("l", DataType::List(Box::new(field("element", DataType::Float32, true))), false);
    let g = GenericField::try_from(&f).unwrap();
    assert_eq!(g.data_type, GenericDataType::List);
    assert_eq!(g.children[0].data_type, GenericDataType::F32);
    assert_eq!(Field::try_from(&g).unwrap(), f);
    let f = field("l", DataType::LargeList(Box::new(field("element", DataType::Float64, false))), true);
    assert_eq!(round_trip(&f), f);
}

fn entries() -> Field {
    field(
        "entries",
        DataType::Struct(vec![field("key", DataType::Utf8, false), field("value", DataType::Int64, true)]),
        false,
    )
}

#[test]
fn map_round_trip() {
    let f = field("m", DataType::MapType(Box::new(entries()), false), false);
    let g = GenericField::try_from(&f).unwrap();
    assert_eq!(g.data_type, GenericDataType::MapType);
    assert_eq!(g.children.len(), 1);
    assert_eq!(Field::try_from(&g).unwrap(), f);
}

#[test]
fn sorted_map_fails() {
    let f = field("m", DataType::MapType(Box::new(entries()), true), false);
    assert!(GenericField::try_from(&f).is_err());
}

#[test]
fn map_with_scalar_entries_fails() {
    let f = field("m", DataType::MapType(Box::new(field("entries", DataType::Int8, false)), false), false);
    assert!(GenericField::try_from(&f).is_err());
}

#[test]
fn time64_units() {
    let f = field("t", DataType::Time64(TimeUnit::Nanosecond), false);
    let g = GenericField::try_from(&f).unwrap();
    assert_eq!(g.data_type, GenericDataType::Time64(GenericTimeUnit::Nanosecond));
    assert_eq!(Field::try_from(&g).unwrap(), f);
    let f = field("t", DataType::Time64(TimeUnit::Second), false);
    assert!(GenericField::try_from(&f).is_err());
    let g = generic("t", GenericDataType::Time64(GenericTimeUnit::Millisecond), vec![]);
    assert!(g.validate().is_err());
    assert!(Field::try_from(&g).is_err());
}

#[test]
fn timestamp_with_timezone_round_trip() {
    let f = field(
        "ts",
        DataType::Timestamp(TimeUnit::Millisecond, Some("Europe/Berlin".to_string())),
        true,
    );
    let g = GenericField::try_from(&f).unwrap();
    assert_eq!(
        g.data_type,
        GenericDataType::Timestamp(GenericTimeUnit::Millisecond, Some("Europe/Berlin".to_string()))
    );
    assert_eq!(Field::try_from(&g).unwrap(), f);
}

#[test]
fn unsupported_types_fail() {
    for dt in [
        DataType::Binary,
        DataType::LargeBinary,
        DataType::Time32(TimeUnit::Second),
        DataType::Duration(TimeUnit::Second),
        DataType::FixedSizeBinary(4),
        DataType::Decimal256(10, 2),
    ] {
        assert!(GenericField::try_from(&field("x", dt, false)).is_err());
    }
}

#[test]
fn nested_failure_propagates() {
    let f = field(
        "s",
        DataType::Struct(vec![field("a", DataType::Int32, false), field("b", DataType::Binary, true)]),
        false,
    );
    let err = GenericField::try_from(&f).unwrap_err();
    assert_eq!(err.message(), "Cannot convert data type: field b");
}

#[test]
fn arity_of_list_and_dictionary() {
    let leaf = || generic("", GenericDataType::I32, vec![]);
    assert!(generic("l", GenericDataType::List, vec![]).validate().is_err());
    assert!(generic("l", GenericDataType::LargeList, vec![leaf(), leaf()]).validate().is_err());
    assert!(generic("l", GenericDataType::List, vec![leaf()]).validate().is_ok());
    assert!(generic("d", GenericDataType::Dictionary, vec![leaf()]).validate().is_err());
    assert!(generic("d", GenericDataType::Dictionary, vec![leaf(), leaf(), leaf()]).validate().is_err());
    let value = generic("", GenericDataType::Utf8, vec![]);
    assert!(generic("d", GenericDataType::Dictionary, vec![leaf(), value]).validate().is_ok());
}

#[test]
fn scalar_with_children_is_invalid() {
    let g = generic("x", GenericDataType::Bool, vec![generic("c", GenericDataType::Null, vec![])]);
    assert!(g.validate().is_err());
}

#[test]
fn schema_round_trip() {
    let fields = vec![
        field("a", DataType::UInt8, false),
        field("b", DataType::List(Box::new(field("element", DataType::Boolean, true))), true),
    ];
    let schema = SerdeArrowSchema::from_arrow2_fields(&fields).unwrap();
    assert_eq!(schema.fields.len(), 2);
    assert_eq!(schema.fields[0].data_type, GenericDataType::U8);
    assert_eq!(schema.to_arrow2_fields().unwrap(), fields);
    assert_eq!(schema.get_arrow2_fields().unwrap(), fields);
}

#[test]
fn schema_with_unsupported_field_fails() {
    let fields = vec![field("a", DataType::UInt8, false), field("b", DataType::Binary, true)];
    assert!(SerdeArrowSchema::from_arrow2_fields(&fields).is_err());
    let schema = SerdeArrowSchema {
        fields: vec![generic("d", GenericDataType::Decimal128(5, -1), vec![])],
    };
    assert!(schema.to_arrow2_fields().is_err());
}

#[test]
fn strategy_texts() {
    assert_eq!(Strategy::parse("TupleAsStruct").unwrap(), Strategy::TupleAsStruct);
    assert_eq!(Strategy::MapAsStruct.as_str(), "MapAsStruct");
    assert_eq!(Strategy::parse(Strategy::NaiveStrAsDate64.as_str()).unwrap(), Strategy::NaiveStrAsDate64);
    assert!(Strategy::parse("mapasstruct").is_err());
}

fn nested_lists(depth: usize) -> Field {
    let mut f = field("leaf", DataType::Int32, false);
    for _ in 0..depth {
        f = field("list", DataType::List(Box::new(f)), true);
    }
    f
}

#[test]
fn nesting_up_to_the_limit_round_trips() {
    let f = nested_lists(MAX_NESTING);
    let g = GenericField::try_from(&f).unwrap();
    assert!(g.validate().is_ok());
    assert_eq!(Field::try_from(&g).unwrap(), f);
}

#[test]
fn nesting_beyond_the_limit_fails() {
    let f = nested_lists(MAX_NESTING + 1);
    let err = GenericField::try_from(&f).unwrap_err();
    assert!(err.message().contains("nested too deeply"));
    let mut g = generic("leaf", GenericDataType::I8, vec![]);
    for _ in 0..MAX_NESTING + 1 {
        g = generic("list", GenericDataType::List, vec![g]);
    }
    assert!(g.validate().is_err());
    assert!(Field::try_from(&g).is_err());
    assert!(g.children[0].validate().is_ok());
}

#[test]
fn list_with_two_children_fails_encode() {
    let leaf = || generic("", GenericDataType::I32, vec![]);
    for dt in [GenericDataType::List, GenericDataType::LargeList] {
        let g = generic("l", dt, vec![leaf(), leaf()]);
        let err = Field::try_from(&g).unwrap_err();
        assert_eq!(err.message(), "invalid number of children for the data type: field l");
    }
}

#[test]
fn dictionary_with_wrong_arity_fails_encode() {
    let key = || generic("", GenericDataType::I32, vec![]);
    let value = || generic("", GenericDataType::Utf8, vec![]);
    assert!(Field::try_from(&generic("d", GenericDataType::Dictionary, vec![key()])).is_err());
    let three = generic("d", GenericDataType::Dictionary, vec![key(), value(), value()]);
    assert!(Field::try_from(&three).is_err());
    let two = generic("d", GenericDataType::Dictionary, vec![key(), value()]);
    assert!(Field::try_from(&two).is_ok());
}

#[test]
fn scalar_with_children_fails_encode() {
    let g = generic("x", GenericDataType::U8, vec![generic("c", GenericDataType::Null, vec![])]);
    assert!(Field::try_from(&g).is_err());
}

#[test]
fn map_with_scalar_entries_fails_encode() {
    let g = generic("m", GenericDataType::MapType, vec![generic("entries", GenericDataType::I8, vec![])]);
    let err = Field::try_from(&g).unwrap_err();
    assert_eq!(err.message(), "map entries must be a struct with two members: field m");
}

#[test]
fn dictionary_with_named_child_fails_encode() {
    let key = generic("key", GenericDataType::I32, vec![]);
    let value = generic("", GenericDataType::Utf8, vec![]);
    let g = generic("d", GenericDataType::Dictionary, vec![key, value]);
    assert!(g.validate().is_ok());
    let err = Field::try_from(&g).unwrap_err();
    assert_eq!(
        err.message(),
        "dictionary children must be unnamed, non-nullable and plain: field d"
    );
}

#[test]
fn nested_negative_scale_names_the_inner_field() {
    let inner = generic("price", GenericDataType::Decimal128(10, -2), vec![]);
    let g = generic("s", GenericDataType::Struct, vec![generic("a", GenericDataType::I8, vec![]), inner]);
    let err = Field::try_from(&g).unwrap_err();
    assert_eq!(err.message(), "decimals with negative scale are not supported: field price");
}

#[test]
fn repeated_strategy_key_fails_decode() {
    let mut f = field("s", DataType::Date64, false);
    f.metadata = vec![
        (STRATEGY_KEY.to_string(), "UtcStrAsDate64".to_string()),
        (STRATEGY_KEY.to_string(), "NaiveStrAsDate64".to_string()),
    ];
    let err = GenericField::try_from(&f).unwrap_err();
    assert_eq!(err.message(), "the strategy key appears more than once: field s");
}

#[test]
fn schema_errors_come_from_the_first_failing_field() {
    let fields = vec![
        field("a", DataType::UInt8, false),
        field("b", DataType::Binary, true),
        field("c", DataType::Decimal(300, 0), true),
    ];
    let err = SerdeArrowSchema::from_arrow2_fields(&fields).unwrap_err();
    assert_eq!(err.message(), "Cannot convert data type: field b");
    let schema = SerdeArrowSchema {
        fields: vec![
            generic("a", GenericDataType::U8, vec![]),
            generic("b", GenericDataType::Decimal128(5, -1), vec![]),
            generic("c", GenericDataType::List, vec![]),
        ],
    };
    let err = schema.to_arrow2_fields().unwrap_err();
    assert_eq!(err.message(), "decimals with negative scale are not supported: field b");
    assert_eq!(schema.get_arrow2_fields().unwrap_err(), err);
}

#[test]
fn schema_converts_into_fields() {
    let fields = vec![field("a", DataType::Int16, true), field("b", DataType::LargeUtf8, false)];
    let schema = SerdeArrowSchema::from_arrow2_fields(&fields).unwrap();
    let converted: Vec<Field> = Vec::try_from(schema).unwrap();
    assert_eq!(converted, fields);
}

#[test]
fn unknown_strategy_names_the_field() {
    let mut f = field("when", DataType::Date64, false);
    f.metadata = vec![(STRATEGY_KEY.to_string(), "Bogus".to_string())];
    assert_eq!(GenericField::try_from(&f).unwrap_err().message(), "Unknown strategy: field when");
}

#[test]
fn conversions_through_the_std_traits() {
    let f = field("a", DataType::Struct(vec![field("x", DataType::Int32, false)]), true);
    let g: GenericField = (&f).try_into().unwrap();
    assert_eq!(g.children[0].data_type, GenericDataType::I32);
    let back: Field = (&g).try_into().unwrap();
    assert_eq!(back, f);
    let bad = generic("l", GenericDataType::List, vec![]);
    let err = <Field as TryFrom<&GenericField>>::try_from(&bad).unwrap_err();
    assert_eq!(err.message(), "invalid number of children for the data type: field l");
    let unsupported = field("b", DataType::Binary, false);
    let err = <GenericField as TryFrom<&Field>>::try_from(&unsupported).unwrap_err();
    assert_eq!(err.message(), "Cannot convert data type: field b");
}

#[test]
fn schema_conversion_fails_like_to_arrow2_fields() {
    let schema = SerdeArrowSchema {
        fields: vec![
            generic("a", GenericDataType::U8, vec![]),
            generic("b", GenericDataType::Time64(GenericTimeUnit::Second), vec![]),
        ],
    };
    let expected = schema.to_arrow2_fields().unwrap_err();
    let err = Vec::<Field>::try_from(schema).unwrap_err();
    assert_eq!(err, expected);
    assert_eq!(err.message(), "invalid time unit for Time64: field b");
}
