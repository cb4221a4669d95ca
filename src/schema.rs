//! The canonical schema model: field trees, their strategies and validation.
use vstd::prelude::*;

use crate::error::{field_message, Error, Result};

verus! {

broadcast use {vstd::std_specs::vec::axiom_vec_decreases_to_view, vstd::seq::axiom_seq_index_decreases};

/// The metadata key under which a field's strategy is stored.
pub const STRATEGY_KEY: &'static str = "SERDE_ARROW:strategy";

/// The deepest nesting level that validation, decoding and encoding accept;
/// the top-level field sits at level zero.
pub const MAX_NESTING: usize = 64;

/// Semantic intent of a field beyond its plain columnar type.
#[derive(Debug, Clone, Copy, PartialEq, Eq)]
pub enum Strategy {
    InconsistentTypes,
    TupleAsStruct,
    MapAsStruct,
    NaiveStrAsDate64,
    UtcStrAsDate64,
    UnknownVariant,
}

/// The textual form of a strategy, as stored in metadata.
pub open spec fn strategy_name(s: Strategy) -> Seq<char> {
    match s {
        Strategy::InconsistentTypes => "InconsistentTypes"@,
        Strategy::TupleAsStruct => "TupleAsStruct"@,
        Strategy::MapAsStruct => "MapAsStruct"@,
        Strategy::NaiveStrAsDate64 => "NaiveStrAsDate64"@,
        Strategy::UtcStrAsDate64 => "UtcStrAsDate64"@,
        Strategy::UnknownVariant => "UnknownVariant"@,
    }
}

/// The strategy whose textual form is `s`, if any.
pub open spec fn parse_strategy(s: Seq<char>) -> Option<Strategy> {
    if s == "InconsistentTypes"@ {
        Some(Strategy::InconsistentTypes)
    } else if s == "TupleAsStruct"@ {
        Some(Strategy::TupleAsStruct)
    } else if s == "MapAsStruct"@ {
        Some(Strategy::MapAsStruct)
    } else if s == "NaiveStrAsDate64"@ {
        Some(Strategy::NaiveStrAsDate64)
    } else if s == "UtcStrAsDate64"@ {
        Some(Strategy::UtcStrAsDate64)
    } else if s == "UnknownVariant"@ {
        Some(Strategy::UnknownVariant)
    } else {
        None
    }
}

impl Strategy {
    /// The textual form of this strategy.
    pub fn as_str(&self) -> (r: &'static str)
        ensures
            r@ == strategy_name(*self),
    {
        match self {
            Strategy::InconsistentTypes => "InconsistentTypes",
            Strategy::TupleAsStruct => "TupleAsStruct",
            Strategy::MapAsStruct => "MapAsStruct",
            Strategy::NaiveStrAsDate64 => "NaiveStrAsDate64",
            Strategy::UtcStrAsDate64 => "UtcStrAsDate64",
            Strategy::UnknownVariant => "UnknownVariant",
        }
    }

    /// Parse the textual form of a strategy; any other text is an error.
    pub fn parse(s: &str) -> (r: Result<Strategy>)
        ensures
            r is Ok <==> parse_strategy(s@) is Some,
            r matches Ok(st) ==> parse_strategy(s@) == Some(st),
    {
        let s = s.to_owned();
        if s == "InconsistentTypes".to_owned() {
            Ok(Strategy::InconsistentTypes)
        } else if s == "TupleAsStruct".to_owned() {
            Ok(Strategy::TupleAsStruct)
        } else if s == "MapAsStruct".to_owned() {
            Ok(Strategy::MapAsStruct)
        } else if s == "NaiveStrAsDate64".to_owned() {
            Ok(Strategy::NaiveStrAsDate64)
        } else if s == "UtcStrAsDate64".to_owned() {
            Ok(Strategy::UtcStrAsDate64)
        } else if s == "UnknownVariant".to_owned() {
            Ok(Strategy::UnknownVariant)
        } else {
            Err(Error::new("Unknown strategy"))
        }
    }
}

/// Parsing the textual form of a strategy gives that strategy back.
pub proof fn lemma_strategy_name_parses(s: Strategy)
    ensures
        parse_strategy(strategy_name(s)) == Some(s),
{
    reveal_strlit("InconsistentTypes");
    reveal_strlit("TupleAsStruct");
    reveal_strlit("MapAsStruct");
    reveal_strlit("NaiveStrAsDate64");
    reveal_strlit("UtcStrAsDate64");
    reveal_strlit("UnknownVariant");
    assert("UtcStrAsDate64"@[1] != "UnknownVariant"@[1]);
    assert("InconsistentTypes"@.len() == 17);
    assert("TupleAsStruct"@.len() == 13);
    assert("MapAsStruct"@.len() == 11);
    assert("NaiveStrAsDate64"@.len() == 16);
    assert("UtcStrAsDate64"@.len() == 14);
}

/// Time units of the canonical model.
#[derive(Debug, Clone, Copy, PartialEq, Eq)]
pub enum GenericTimeUnit {
    Second,
    Millisecond,
    Microsecond,
    Nanosecond,
}

/// Logical column types of the canonical model.
#[derive(Debug, Clone, PartialEq)]
pub enum GenericDataType {
    Null,
    Bool,
    I8,
    I16,
    I32,
    I64,
    U8,
    U16,
    U32,
    U64,
    F16,
    F32,
    F64,
    Utf8,
    LargeUtf8,
    Date32,
    Date64,
    Time64(GenericTimeUnit),
    Timestamp(GenericTimeUnit, Option<String>),
    Decimal128(u8, i8),
    List,
    LargeList,
    Struct,
    MapType,
    Union,
    Dictionary,
}

/// Whether `t` is one of the eight integer kinds.
pub open spec fn is_integer_type(t: GenericDataType) -> bool {
    match t {
        GenericDataType::I8 | GenericDataType::I16 | GenericDataType::I32 | GenericDataType::I64
        | GenericDataType::U8 | GenericDataType::U16 | GenericDataType::U32
        | GenericDataType::U64 => true,
        _ => false,
    }
}

/// A node of the canonical field tree.
#[derive(Debug, PartialEq)]
pub struct GenericField {
    pub name: String,
    pub data_type: GenericDataType,
    pub nullable: bool,
    pub children: Vec<GenericField>,
    pub strategy: Option<Strategy>,
}

/// The mathematical value of a canonical field tree.
pub struct GenericFieldModel {
    pub name: Seq<char>,
    pub data_type: GenericDataType,
    pub nullable: bool,
    pub children: Seq<GenericFieldModel>,
    pub strategy: Option<Strategy>,
}

pub open spec fn generic_field_view(f: GenericField) -> GenericFieldModel
    decreases f,
{
    GenericFieldModel {
        name: f.name@,
        data_type: f.data_type,
        nullable: f.nullable,
        children: generic_fields_view(f.children@),
        strategy: f.strategy,
    }
}

pub open spec fn generic_fields_view(s: Seq<GenericField>) -> Seq<GenericFieldModel>
    decreases s,
{
    Seq::new(
        s.len(),
        |i: int|
            if 0 <= i < s.len() {
                generic_field_view(s[i])
            } else {
                arbitrary()
            },
    )
}

impl View for GenericField {
    type V = GenericFieldModel;

    open spec fn view(&self) -> GenericFieldModel {
        generic_field_view(*self)
    }
}

/// The number of children a node of type `t` must have, where it is fixed.
pub open spec fn required_arity(t: GenericDataType) -> Option<nat> {
    match t {
        GenericDataType::List | GenericDataType::LargeList | GenericDataType::MapType => Some(1),
        GenericDataType::Dictionary => Some(2),
        GenericDataType::Struct | GenericDataType::Union => None,
        _ => Some(0),
    }
}

/// The constraints that a single node places on itself and its direct
/// children.
pub open spec fn node_valid(f: GenericFieldModel) -> bool {
    &&& required_arity(f.data_type) matches Some(n) ==> f.children.len() == n
    &&& f.data_type is Time64 ==> (f.data_type->Time64_0 is Microsecond
        || f.data_type->Time64_0 is Nanosecond)
    &&& f.data_type is Dictionary ==> is_integer_type(f.children[0].data_type)
    &&& f.data_type is MapType ==> (f.children[0].data_type is Struct && f.children[0].children.len()
        == 2)
}

/// A field tree is valid when every node in it is.
pub open spec fn field_valid(f: GenericFieldModel) -> bool
    decreases f,
{
    &&& node_valid(f)
    &&& forall|i: int| 0 <= i < f.children.len() ==> field_valid(#[trigger] f.children[i])
}

/// Whether no node of `f`, placed at nesting level `level`, lies deeper than
/// the nesting limit.
pub open spec fn nesting_within(f: GenericFieldModel, level: nat) -> bool
    decreases f,
{
    &&& level <= MAX_NESTING
    &&& forall|i: int| 0 <= i < f.children.len() ==> nesting_within(#[trigger] f.children[i], level + 1)
}

/// Whether a node has the number of children its type requires.
pub open spec fn arity_ok(f: GenericFieldModel) -> bool {
    required_arity(f.data_type) matches Some(n) ==> f.children.len() == n
}

/// The message of the error that validation of `f`, placed at nesting level
/// `level`, reports: the first violated constraint, where the node itself is
/// checked before its children and the children in order.
pub open spec fn validate_error(f: GenericFieldModel, level: nat) -> Seq<char>
    decreases f, 0nat, 0int,
{
    if level > MAX_NESTING {
        field_message("the field is nested too deeply"@, f.name)
    } else if !arity_ok(f) {
        field_message("invalid number of children for the data type"@, f.name)
    } else if f.data_type is Time64 && !(f.data_type->Time64_0 is Microsecond
        || f.data_type->Time64_0 is Nanosecond) {
        field_message("invalid time unit for Time64"@, f.name)
    } else if f.data_type is Dictionary && !is_integer_type(f.children[0].data_type) {
        field_message("dictionary keys must be of an integer type"@, f.name)
    } else if f.data_type is MapType && !(f.children[0].data_type is Struct
        && f.children[0].children.len() == 2) {
        field_message("map entries must be a struct with two members"@, f.name)
    } else {
        first_child_error(f.children, level + 1, 0)
    }
}

/// The validation error of the first of `gs[i..]` that is invalid at level
/// `level`.
pub open spec fn first_child_error(gs: Seq<GenericFieldModel>, level: nat, i: int) -> Seq<char>
    decreases gs, 1nat, gs.len() - i,
{
    if i < 0 || i >= gs.len() {
        Seq::empty()
    } else if !(field_valid(gs[i]) && nesting_within(gs[i], level)) {
        validate_error(gs[i], level)
    } else {
        first_child_error(gs, level, i + 1)
    }
}

impl GenericField {
    /// Check the structural invariants of this field and all its descendants,
    /// and that the tree is no deeper than the nesting limit.
    pub fn validate(&self) -> (r: Result<()>)
        ensures
            r is Ok <==> field_valid(self@) && nesting_within(self@, 0),
            r matches Err(e) ==> e.message@ == validate_error(self@, 0),
    {
        self.validate_at(0)
    }

    /// Validation of a field placed at nesting level `level`.
    pub fn validate_at(&self, level: usize) -> (r: Result<()>)
        ensures
            r is Ok <==> field_valid(self@) && nesting_within(self@, level as nat),
            r matches Err(e) ==> e.message@ == validate_error(self@, level as nat),
        decreases self,
    {
        if level > MAX_NESTING {
            return Err(Error::for_field("the field is nested too deeply", self.name.as_str()));
        }
        let n = self.children.len();
        assert(self@.children.len() == n);
        assert(forall|j: int| 0 <= j < n ==> self@.children[j] == #[trigger] self.children@[j]@);
        let children_count_ok = match &self.data_type {
            GenericDataType::List | GenericDataType::LargeList | GenericDataType::MapType => n == 1,
            GenericDataType::Dictionary => n == 2,
            GenericDataType::Struct | GenericDataType::Union => true,
            _ => n == 0,
        };
        if !children_count_ok {
            return Err(
                Error::for_field(
                    "invalid number of children for the data type",
                    self.name.as_str(),
                ),
            );
        }
        match &self.data_type {
            GenericDataType::Time64(GenericTimeUnit::Second)
            | GenericDataType::Time64(GenericTimeUnit::Millisecond) => {
                return Err(Error::for_field("invalid time unit for Time64", self.name.as_str()));
            },
            GenericDataType::Dictionary => {
                let key_ok = match &self.children[0].data_type {
                    GenericDataType::I8 | GenericDataType::I16 | GenericDataType::I32
                    | GenericDataType::I64 | GenericDataType::U8 | GenericDataType::U16
                    | GenericDataType::U32 | GenericDataType::U64 => true,
                    _ => false,
                };
                assert(self@.children[0] == self.children@[0]@);
                if !key_ok {
                    return Err(
                        Error::for_field(
                            "dictionary keys must be of an integer type",
                            self.name.as_str(),
                        ),
                    );
                }
            },
            GenericDataType::MapType => {
                let entries = &self.children[0];
                assert(self@.children[0] == self.children@[0]@);
                assert(self@.children[0].children.len() == entries.children@.len());
                let shape_ok = match &entries.data_type {
                    GenericDataType::Struct => entries.children.len() == 2,
                    _ => false,
                };
                if !shape_ok {
                    return Err(
                        Error::for_field(
                            "map entries must be a struct with two members",
                            self.name.as_str(),
                        ),
                    );
                }
            },
            _ => {},
        }
        assert(node_valid(self@));
        let mut i: usize = 0;
        while i < n
            invariant
                n == self.children@.len(),
                n == self@.children.len(),
                0 <= i <= n,
                node_valid(self@),
                level <= MAX_NESTING,
                arity_ok(self@),
                validate_error(self@, level as nat) == first_child_error(
                    self@.children,
                    (level + 1) as nat,
                    i as int,
                ),
                forall|j: int|
                    0 <= j < i ==> field_valid(#[trigger] self@.children[j]) && nesting_within(
                        self@.children[j],
                        (level + 1) as nat,
                    ),
            decreases n - i,
        {
            match self.children[i].validate_at(level + 1) {
                Ok(()) => {},
                Err(e) => {
                    assert(self@.children[i as int] == self.children@[i as int]@);
                    assert(!field_valid(self@.children[i as int]) || !nesting_within(
                        self@.children[i as int],
                        (level + 1) as nat,
                    ));
                    return Err(e);
                },
            }
            i += 1;
        }
        Ok(())
    }
}

/// An ordered collection of top-level fields: the columns of a record.
#[derive(Debug, PartialEq)]
pub struct SerdeArrowSchema {
    pub fields: Vec<GenericField>,
}

/// Arity: a list or large list needs exactly one child and a dictionary
/// exactly two; a dictionary with two valid children whose key is of an
/// integer kind is valid.
pub proof fn lemma_arity(f: GenericFieldModel)
    ensures
        (f.data_type is List || f.data_type is LargeList) && f.children.len() != 1 ==> !field_valid(
            f,
        ),
        f.data_type is Dictionary && f.children.len() != 2 ==> !field_valid(f),
        f.data_type is Dictionary && f.children.len() == 2 && is_integer_type(
            f.children[0].data_type,
        ) && field_valid(f.children[0]) && field_valid(f.children[1]) ==> field_valid(f),
{
}

} // verus!
