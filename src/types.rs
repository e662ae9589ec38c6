use vstd::prelude::*;

use crate::json::{json_kind, same_text, JsonValue};
use crate::number::{
    append_decimal, decimal, lemma_decimal_round_trip, parse_decimal, parse_decimal_in, IntParseError,
};

verus! {

/// The wire width and signedness of an integer.
#[derive(Clone, Copy, Debug, PartialEq, Eq)]
pub enum IntFormat {
    Int8,
    Int16,
    Int32,
    Int64,
    Uint8,
    Uint16,
    Uint32,
    Uint64,
}

pub open spec fn format_min(f: IntFormat) -> int {
    match f {
        IntFormat::Int8 => -128,
        IntFormat::Int16 => -32768,
        IntFormat::Int32 => -2147483648,
        IntFormat::Int64 => -9223372036854775808,
        _ => 0,
    }
}

pub open spec fn format_max(f: IntFormat) -> int {
    match f {
        IntFormat::Int8 => 127,
        IntFormat::Int16 => 32767,
        IntFormat::Int32 => 2147483647,
        IntFormat::Int64 => 9223372036854775807,
        IntFormat::Uint8 => 255,
        IntFormat::Uint16 => 65535,
        IntFormat::Uint32 => 4294967295,
        IntFormat::Uint64 => 18446744073709551615,
    }
}

pub open spec fn format_name(f: IntFormat) -> Seq<char> {
    match f {
        IntFormat::Int8 => "int8"@,
        IntFormat::Int16 => "int16"@,
        IntFormat::Int32 => "int32"@,
        IntFormat::Int64 => "int64"@,
        IntFormat::Uint8 => "uint8"@,
        IntFormat::Uint16 => "uint16"@,
        IntFormat::Uint32 => "uint32"@,
        IntFormat::Uint64 => "uint64"@,
    }
}

impl IntFormat {
    pub fn min_value(&self) -> (r: i128)
        ensures
            r == format_min(*self),
    {
        match self {
            IntFormat::Int8 => -128,
            IntFormat::Int16 => -32768,
            IntFormat::Int32 => -2147483648,
            IntFormat::Int64 => -9223372036854775808,
            _ => 0,
        }
    }

    pub fn max_value(&self) -> (r: i128)
        ensures
            r == format_max(*self),
    {
        match self {
            IntFormat::Int8 => 127,
            IntFormat::Int16 => 32767,
            IntFormat::Int32 => 2147483647,
            IntFormat::Int64 => 9223372036854775807,
            IntFormat::Uint8 => 255,
            IntFormat::Uint16 => 65535,
            IntFormat::Uint32 => 4294967295,
            IntFormat::Uint64 => 18446744073709551615,
        }
    }

    /// The format's name in a schema (`int32`, `uint8`, ...).
    pub fn name(&self) -> (r: &'static str)
        ensures
            r@ == format_name(*self),
    {
        match self {
            IntFormat::Int8 => "int8",
            IntFormat::Int16 => "int16",
            IntFormat::Int32 => "int32",
            IntFormat::Int64 => "int64",
            IntFormat::Uint8 => "uint8",
            IntFormat::Uint16 => "uint16",
            IntFormat::Uint32 => "uint32",
            IntFormat::Uint64 => "uint64",
        }
    }
}

/// A type whose values are read from one JSON value or one parameter string.
#[derive(Clone, Copy, Debug, PartialEq, Eq)]
pub enum ScalarType {
    Integer(IntFormat),
    Str,
    Bool,
}

/// A value of a scalar type.
#[derive(Clone, Debug, PartialEq, Eq)]
pub enum Scalar {
    Integer(i128),
    Str(String),
    Bool(bool),
}

/// The type of a field or a parameter.
#[derive(Debug)]
pub enum FieldType {
    Scalar(ScalarType),
    /// A sequence of scalars.
    List(ScalarType),
    /// A value that may be absent.
    Optional(Box<FieldType>),
}

/// A decoded value of a field or a parameter.
#[derive(Debug)]
pub enum Value {
    Scalar(Scalar),
    List(Vec<Scalar>),
    /// The empty value of an optional type.
    Absent,
    /// The present value of an optional type.
    Present(Box<Value>),
}

/// The mathematical value of a scalar.
pub enum ScalarModel {
    Integer(int),
    Str(Seq<char>),
    Bool(bool),
}

/// The mathematical value of a field or a parameter.
pub enum ValueModel {
    Scalar(ScalarModel),
    List(Seq<ScalarModel>),
    Absent,
    Present(Box<ValueModel>),
}

impl View for Scalar {
    type V = ScalarModel;

    open spec fn view(&self) -> ScalarModel {
        match self {
            Scalar::Integer(n) => ScalarModel::Integer(*n as int),
            Scalar::Str(s) => ScalarModel::Str(s@),
            Scalar::Bool(b) => ScalarModel::Bool(*b),
        }
    }
}

pub open spec fn scalars_model(vs: Seq<Scalar>) -> Seq<ScalarModel> {
    vs.map_values(|s: Scalar| s@)
}

pub open spec fn value_model(v: Value) -> ValueModel
    decreases v,
{
    match v {
        Value::Scalar(s) => ValueModel::Scalar(s@),
        Value::List(vs) => ValueModel::List(scalars_model(vs@)),
        Value::Absent => ValueModel::Absent,
        Value::Present(b) => ValueModel::Present(Box::new(value_model(*b))),
    }
}

impl View for Value {
    type V = ValueModel;

    open spec fn view(&self) -> ValueModel {
        value_model(*self)
    }
}

/// A decode failure, with its rendered message.
#[derive(Clone, Debug, PartialEq, Eq)]
pub struct ParseError {
    pub message: String,
}

impl ParseError {
    pub fn into_message(self) -> (r: String)
        ensures
            r@ == self.message@,
    {
        self.message
    }
}

pub open spec fn scalar_type_name(st: ScalarType) -> Seq<char> {
    match st {
        ScalarType::Integer(f) => "integer("@ + format_name(f) + ")"@,
        ScalarType::Str => "string"@,
        ScalarType::Bool => "boolean"@,
    }
}

pub open spec fn list_type_name(st: ScalarType) -> Seq<char> {
    "["@ + scalar_type_name(st) + "]"@
}

pub open spec fn quoted(s: Seq<char>) -> Seq<char> {
    "\""@ + s + "\""@
}

/// The message of a failure to read a value of the type named `ty_name`.
pub open spec fn failed_to_parse(ty_name: Seq<char>, reason: Seq<char>) -> Seq<char> {
    "failed to parse "@ + quoted(ty_name) + ": "@ + reason
}

/// The message of a failure inside a value of the type named `parent`.
pub open spec fn propagated(message: Seq<char>, parent: Seq<char>) -> Seq<char> {
    message + " (occurred while parsing "@ + quoted(parent) + ")"@
}

pub open spec fn expected_type(ty_name: Seq<char>, found: Seq<char>) -> Seq<char> {
    failed_to_parse(ty_name, "Expected input type "@ + quoted(ty_name) + ", found "@ + found)
}

pub open spec fn expected_input(ty_name: Seq<char>) -> Seq<char> {
    failed_to_parse(ty_name, "Type "@ + quoted(ty_name) + " expects an input value."@)
}

pub open spec fn range_message(f: IntFormat) -> Seq<char> {
    failed_to_parse(
        scalar_type_name(ScalarType::Integer(f)),
        "Only integers from "@ + decimal(format_min(f)) + " to "@ + decimal(format_max(f))
            + " are accepted."@,
    )
}

pub open spec fn invalid_integer_message(f: IntFormat, s: Seq<char>) -> Seq<char> {
    failed_to_parse(
        scalar_type_name(ScalarType::Integer(f)),
        if s.len() == 0 {
            "cannot parse integer from empty string"@
        } else {
            "invalid digit found in string"@
        },
    )
}

pub open spec fn invalid_bool_message() -> Seq<char> {
    failed_to_parse("boolean"@, "provided string was not `true` or `false`"@)
}

/// Whether an executable decode result agrees with its mathematical definition: the same
/// value, or a failure with the same message.
pub open spec fn agrees<T: View>(r: Result<T, ParseError>, s: Result<T::V, Seq<char>>) -> bool {
    match r {
        Ok(v) => s == Ok::<T::V, Seq<char>>(v@),
        Err(e) => s == Err::<T::V, Seq<char>>(e.message@),
    }
}

/// What a JSON value decodes to as a scalar of type `st`, or the failure message.
pub open spec fn scalar_from_json(st: ScalarType, j: JsonValue) -> Result<ScalarModel, Seq<char>> {
    match (st, j) {
        (ScalarType::Integer(f), JsonValue::Number(n)) => if format_min(f) <= n <= format_max(f) {
            Ok(ScalarModel::Integer(n as int))
        } else {
            Err(range_message(f))
        },
        (ScalarType::Str, JsonValue::String(s)) => Ok(ScalarModel::Str(s@)),
        (ScalarType::Bool, JsonValue::Bool(b)) => Ok(ScalarModel::Bool(b)),
        _ => Err(expected_type(scalar_type_name(st), json_kind(j))),
    }
}

/// The failure message of the first element of `items` that does not decode, if any.
pub open spec fn list_from_json_error(st: ScalarType, items: Seq<JsonValue>) -> Option<Seq<char>>
    decreases items.len(),
{
    if items.len() == 0 {
        None
    } else {
        match scalar_from_json(st, items[0]) {
            Err(m) => Some(m),
            Ok(_) => list_from_json_error(st, items.drop_first()),
        }
    }
}

/// What `j` decodes to as a value of `ty` (`None`: the key is missing), or the failure message.
/// A missing key and `null` both give the empty value of an optional type.
pub open spec fn json_decode(ty: FieldType, j: Option<JsonValue>) -> Result<ValueModel, Seq<char>>
    decreases ty,
{
    match ty {
        FieldType::Scalar(st) => match scalar_from_json(st, j.unwrap_or(JsonValue::Null)) {
            Ok(x) => Ok(ValueModel::Scalar(x)),
            Err(m) => Err(m),
        },
        FieldType::List(st) => match j {
            Some(JsonValue::Array(items)) => match list_from_json_error(st, items@) {
                Some(m) => Err(propagated(m, list_type_name(st))),
                None => Ok(
                    ValueModel::List(
                        items@.map_values(|x: JsonValue| scalar_from_json(st, x)->Ok_0),
                    ),
                ),
            },
            _ => Err(expected_type(list_type_name(st), json_kind(j.unwrap_or(JsonValue::Null)))),
        },
        FieldType::Optional(inner) => match j {
            None => Ok(ValueModel::Absent),
            Some(JsonValue::Null) => Ok(ValueModel::Absent),
            _ => match json_decode(*inner, j) {
                Ok(v) => Ok(ValueModel::Present(Box::new(v))),
                Err(m) => Err(m),
            },
        },
    }
}

/// For an optional type, at any depth of nesting, `null` and a missing key both decode to
/// the empty value.
pub proof fn lemma_null_same_as_missing(inner: FieldType)
    ensures
        json_decode(FieldType::Optional(Box::new(inner)), Some(JsonValue::Null)) == Ok::<
            ValueModel,
            Seq<char>,
        >(ValueModel::Absent),
        json_decode(FieldType::Optional(Box::new(inner)), None) == Ok::<ValueModel, Seq<char>>(
            ValueModel::Absent,
        ),
{
}

/// The JSON value that a key maps to, as an optional value.
pub open spec fn opt_json(j: Option<&JsonValue>) -> Option<JsonValue> {
    match j {
        Some(v) => Some(*v),
        None => None,
    }
}

fn text(s: &str) -> (r: String)
    ensures
        r@ == s@,
{
    String::from_str(s)
}

fn quoted_into(out: &mut String, s: &str)
    ensures
        final(out)@ == old(out)@ + quoted(s@),
{
    out.append("\"");
    out.append(s);
    out.append("\"");
    assert(final(out)@ =~= old(out)@ + quoted(s@));
}

/// Builds the error `failed to parse "<ty_name>": <reason>`.
pub fn fail(ty_name: &str, reason: &str) -> (r: ParseError)
    ensures
        r.message@ == failed_to_parse(ty_name@, reason@),
{
    let mut m = text("failed to parse ");
    quoted_into(&mut m, ty_name);
    m.append(": ");
    m.append(reason);
    assert(m@ =~= failed_to_parse(ty_name@, reason@));
    ParseError { message: m }
}

/// Adds the note that the failure occurred inside a value of the type named `parent`.
pub fn propagate(e: ParseError, parent: &str) -> (r: ParseError)
    ensures
        r.message@ == propagated(e.message@, parent@),
{
    let mut m = e.message;
    m.append(" (occurred while parsing ");
    quoted_into(&mut m, parent);
    m.append(")");
    assert(m@ =~= propagated(e.message@, parent@));
    ParseError { message: m }
}

/// Builds the error of a JSON value of the wrong kind for the type named `ty_name`.
pub fn expected_type_error(ty_name: &str, found: &str) -> (r: ParseError)
    ensures
        r.message@ == expected_type(ty_name@, found@),
{
    let mut reason = text("Expected input type ");
    quoted_into(&mut reason, ty_name);
    reason.append(", found ");
    reason.append(found);
    assert(reason@ =~= "Expected input type "@ + quoted(ty_name@) + ", found "@ + found@);
    fail(ty_name, reason.as_str())
}

fn expected_input_error(ty_name: &str) -> (r: ParseError)
    ensures
        r.message@ == expected_input(ty_name@),
{
    let mut reason = text("Type ");
    quoted_into(&mut reason, ty_name);
    reason.append(" expects an input value.");
    assert(reason@ =~= "Type "@ + quoted(ty_name@) + " expects an input value."@);
    fail(ty_name, reason.as_str())
}

fn range_error(f: IntFormat) -> (r: ParseError)
    ensures
        r.message@ == range_message(f),
{
    let mut reason = text("Only integers from ");
    append_decimal(&mut reason, f.min_value());
    reason.append(" to ");
    append_decimal(&mut reason, f.max_value());
    reason.append(" are accepted.");
    assert(reason@ =~= "Only integers from "@ + decimal(format_min(f)) + " to "@ + decimal(
        format_max(f),
    ) + " are accepted."@);
    let name = ScalarType::Integer(f).name();
    fail(name.as_str(), reason.as_str())
}


impl ScalarType {
    /// The type's name in messages (`integer(int32)`, `string`, `boolean`).
    pub fn name(&self) -> (r: String)
        ensures
            r@ == scalar_type_name(*self),
    {
        match self {
            ScalarType::Integer(f) => {
                let mut s = text("integer(");
                s.append(f.name());
                s.append(")");
                s
            },
            ScalarType::Str => text("string"),
            ScalarType::Bool => text("boolean"),
        }
    }

    /// Decodes a scalar from a JSON value.
    pub fn parse_from_json(&self, j: &JsonValue) -> (r: Result<Scalar, ParseError>)
        ensures
            agrees(r, scalar_from_json(*self, *j)),
    {
        match (self, j) {
            (ScalarType::Integer(f), JsonValue::Number(n)) => {
                if f.min_value() <= *n && *n <= f.max_value() {
                    Ok(Scalar::Integer(*n))
                } else {
                    Err(range_error(*f))
                }
            },
            (ScalarType::Str, JsonValue::String(s)) => Ok(Scalar::Str(s.clone())),
            (ScalarType::Bool, JsonValue::Bool(b)) => Ok(Scalar::Bool(*b)),
            _ => {
                let name = self.name();
                Err(expected_type_error(name.as_str(), j.kind_name()))
            },
        }
    }
}

impl FieldType {
    /// Decodes a value of this type from a JSON value; `None` stands for a missing key.
    pub fn parse_from_json(&self, j: Option<&JsonValue>) -> (r: Result<Value, ParseError>)
        ensures
            agrees(r, json_decode(*self, opt_json(j))),
        decreases *self,
    {
        match self {
            FieldType::Scalar(st) => {
                let null = JsonValue::Null;
                let v = match j {
                    Some(v) => v,
                    None => &null,
                };
                match st.parse_from_json(v) {
                    Ok(x) => Ok(Value::Scalar(x)),
                    Err(e) => Err(e),
                }
            },
            FieldType::List(st) => match j {
                Some(JsonValue::Array(items)) => {
                    let mut vs: Vec<Scalar> = Vec::new();
                    let mut i: usize = 0;
                    assert(items@ =~= items@.subrange(0, items@.len() as int));
                    while i < items.len()
                        invariant
                            opt_json(j) == Some(JsonValue::Array(*items)),
                            *self == FieldType::List(*st),
                            i <= items@.len(),
                            vs@.len() == i,
                            forall|k: int|
                                0 <= k < i ==> scalar_from_json(*st, #[trigger] items@[k]) == Ok::<
                                    ScalarModel,
                                    Seq<char>,
                                >(vs@[k]@),
                            list_from_json_error(*st, items@) == list_from_json_error(
                                *st,
                                items@.subrange(i as int, items@.len() as int),
                            ),
                        decreases items@.len() - i,
                    {
                        let ghost rest = items@.subrange(i as int, items@.len() as int);
                        assert(rest.drop_first() =~= items@.subrange(i + 1, items@.len() as int));
                        assert(rest[0] == items@[i as int]);
                        match st.parse_from_json(&items[i]) {
                            Ok(x) => {
                                vs.push(x);
                            },
                            Err(e) => {
                                assert(list_from_json_error(*st, items@) == Some(e.message@));
                                let name = list_name(*st);
                                let err = propagate(e, name.as_str());
                                return Err(err);
                            },
                        }
                        i = i + 1;
                    }
                    proof {
                        assert(items@.subrange(i as int, items@.len() as int).len() == 0);
                        assert(scalars_model(vs@) =~= items@.map_values(
                            |x: JsonValue| scalar_from_json(*st, x)->Ok_0,
                        ));
                    }
                    Ok(Value::List(vs))
                },
                _ => {
                    let name = list_name(*st);
                    let kind = match j {
                        Some(v) => v.kind_name(),
                        None => JsonValue::Null.kind_name(),
                    };
                    Err(expected_type_error(name.as_str(), kind))
                },
            },
            FieldType::Optional(inner) => match j {
                None => Ok(Value::Absent),
                Some(JsonValue::Null) => Ok(Value::Absent),
                Some(_) => match inner.parse_from_json(j) {
                    Ok(v) => Ok(Value::Present(Box::new(v))),
                    Err(e) => Err(e),
                },
            },
        }
    }
}

/// Whether `j` is the JSON form of scalar `s`.
pub open spec fn scalar_encodes(s: ScalarModel, j: JsonValue) -> bool {
    match (s, j) {
        (ScalarModel::Integer(n), JsonValue::Number(x)) => x as int == n,
        (ScalarModel::Str(t), JsonValue::String(u)) => u@ == t,
        (ScalarModel::Bool(b), JsonValue::Bool(c)) => b == c,
        _ => false,
    }
}

/// Whether `j` is the JSON form of `v`.
pub open spec fn json_encodes(v: ValueModel, j: JsonValue) -> bool
    decreases v,
{
    match v {
        ValueModel::Scalar(s) => scalar_encodes(s, j),
        ValueModel::List(vs) => match j {
            JsonValue::Array(items) => items@.len() == vs.len() && forall|i: int|
                0 <= i < vs.len() ==> scalar_encodes(vs[i], #[trigger] items@[i]),
            _ => false,
        },
        ValueModel::Absent => j is Null,
        ValueModel::Present(b) => json_encodes(*b, j),
    }
}

/// Whether `s` is a value of `st`: of its kind and, for an integer, within its format's range.
pub open spec fn scalar_valid(st: ScalarType, s: ScalarModel) -> bool {
    match (st, s) {
        (ScalarType::Integer(f), ScalarModel::Integer(n)) => format_min(f) <= n <= format_max(f),
        (ScalarType::Str, ScalarModel::Str(_)) => true,
        (ScalarType::Bool, ScalarModel::Bool(_)) => true,
        _ => false,
    }
}

/// Whether `v` is a value of `ty`. An optional value is either absent or holds a
/// present value of the inner type: optionality collapses, so `Present(Absent)` is
/// not a value.
pub open spec fn valid_value(ty: FieldType, v: ValueModel) -> bool
    decreases ty,
{
    match ty {
        FieldType::Scalar(st) => v matches ValueModel::Scalar(s) && scalar_valid(st, s),
        FieldType::List(st) => v matches ValueModel::List(vs) && forall|i: int|
            0 <= i < vs.len() ==> scalar_valid(st, #[trigger] vs[i]),
        FieldType::Optional(inner) => match v {
            ValueModel::Absent => true,
            ValueModel::Present(b) => !(*b is Absent) && valid_value(*inner, *b),
            _ => false,
        },
    }
}

proof fn lemma_scalar_json_round_trip(st: ScalarType, s: ScalarModel, j: JsonValue)
    requires
        scalar_valid(st, s),
        scalar_encodes(s, j),
    ensures
        scalar_from_json(st, j) == Ok::<ScalarModel, Seq<char>>(s),
{
}

proof fn lemma_list_round_trip(st: ScalarType, items: Seq<JsonValue>, vs: Seq<ScalarModel>)
    requires
        items.len() == vs.len(),
        forall|i: int| 0 <= i < vs.len() ==> scalar_encodes(vs[i], #[trigger] items[i]),
        forall|i: int| 0 <= i < vs.len() ==> scalar_valid(st, #[trigger] vs[i]),
    ensures
        list_from_json_error(st, items) is None,
    decreases items.len(),
{
    if items.len() > 0 {
        assert(scalar_valid(st, vs[0]));
        assert(scalar_encodes(vs[0], items[0]));
        lemma_scalar_json_round_trip(st, vs[0], items[0]);
        assert forall|i: int| 0 <= i < vs.len() - 1 implies scalar_encodes(
            vs.drop_first()[i],
            #[trigger] items.drop_first()[i],
        ) by {
            assert(scalar_encodes(vs[i + 1], items[i + 1]));
        }
        assert forall|i: int| 0 <= i < vs.len() - 1 implies scalar_valid(
            st,
            #[trigger] vs.drop_first()[i],
        ) by {
            assert(scalar_valid(st, vs[i + 1]));
        }
        lemma_list_round_trip(st, items.drop_first(), vs.drop_first());
    }
}

proof fn lemma_null_is_absent(ty: FieldType, v: ValueModel)
    requires
        valid_value(ty, v),
        json_encodes(v, JsonValue::Null),
    ensures
        v is Absent,
    decreases ty,
{
    if let FieldType::Optional(inner) = ty {
        if let ValueModel::Present(b) = v {
            lemma_null_is_absent(*inner, *b);
        }
    }
}

/// Decoding the JSON form of a value of `ty` gives that value back.
pub proof fn lemma_json_round_trip(ty: FieldType, v: ValueModel, j: JsonValue)
    requires
        valid_value(ty, v),
        json_encodes(v, j),
    ensures
        json_decode(ty, Some(j)) == Ok::<ValueModel, Seq<char>>(v),
    decreases ty,
{
    match ty {
        FieldType::Scalar(st) => {
            lemma_scalar_json_round_trip(st, v->Scalar_0, j);
        },
        FieldType::List(st) => {
            let vs = v->List_0;
            let items = j->Array_0@;
            lemma_list_round_trip(st, items, vs);
            assert forall|i: int| 0 <= i < items.len() implies scalar_from_json(
                st,
                #[trigger] items[i],
            ) == Ok::<ScalarModel, Seq<char>>(vs[i]) by {
                assert(scalar_encodes(vs[i], items[i]));
                assert(scalar_valid(st, vs[i]));
                lemma_scalar_json_round_trip(st, vs[i], items[i]);
            }
            assert(items.map_values(|x: JsonValue| scalar_from_json(st, x)->Ok_0) =~= vs);
        },
        FieldType::Optional(inner) => {
            if let ValueModel::Present(b) = v {
                if j is Null {
                    lemma_null_is_absent(*inner, *b);
                } else {
                    lemma_json_round_trip(*inner, *b, j);
                }
            }
        },
    }
}

impl Scalar {
    pub fn to_json(&self) -> (r: JsonValue)
        ensures
            scalar_encodes(self@, r),
    {
        match self {
            Scalar::Integer(n) => JsonValue::Number(*n),
            Scalar::Str(t) => JsonValue::String(t.clone()),
            Scalar::Bool(b) => JsonValue::Bool(*b),
        }
    }
}

impl Value {
    /// The JSON form of this value.
    pub fn to_json(&self) -> (r: JsonValue)
        ensures
            json_encodes(self@, r),
        decreases *self,
    {
        match self {
            Value::Scalar(s) => s.to_json(),
            Value::List(vs) => {
                let mut items: Vec<JsonValue> = Vec::new();
                let mut i: usize = 0;
                while i < vs.len()
                    invariant
                        i <= vs@.len(),
                        items@.len() == i,
                        forall|k: int| 0 <= k < i ==> scalar_encodes(vs@[k]@, #[trigger] items@[k]),
                    decreases vs@.len() - i,
                {
                    items.push(vs[i].to_json());
                    i = i + 1;
                }
                assert(self@ == ValueModel::List(scalars_model(vs@)));
                JsonValue::Array(items)
            },
            Value::Absent => JsonValue::Null,
            Value::Present(b) => b.to_json(),
        }
    }
}

/// What `s` reads as, as a scalar of type `st`, or the failure message.
pub open spec fn scalar_from_param(st: ScalarType, s: Seq<char>) -> Result<ScalarModel, Seq<char>> {
    match st {
        ScalarType::Integer(f) => match parse_decimal(s) {
            None => Err(invalid_integer_message(f, s)),
            Some(n) => if format_min(f) <= n <= format_max(f) {
                Ok(ScalarModel::Integer(n))
            } else {
                Err(range_message(f))
            },
        },
        ScalarType::Str => Ok(ScalarModel::Str(s)),
        ScalarType::Bool => if s == "true"@ {
            Ok(ScalarModel::Bool(true))
        } else if s == "false"@ {
            Ok(ScalarModel::Bool(false))
        } else {
            Err(invalid_bool_message())
        },
    }
}

/// What parameter text `p` (`None`: not given) reads as, as a value of `ty`, or the
/// failure message. A list reads one parameter as a list of one element.
pub open spec fn param_decode(ty: FieldType, p: Option<Seq<char>>) -> Result<ValueModel, Seq<char>>
    decreases ty,
{
    match ty {
        FieldType::Scalar(st) => match p {
            None => Err(expected_input(scalar_type_name(st))),
            Some(s) => match scalar_from_param(st, s) {
                Ok(x) => Ok(ValueModel::Scalar(x)),
                Err(m) => Err(m),
            },
        },
        FieldType::List(st) => match p {
            None => Err(expected_input(list_type_name(st))),
            Some(s) => match scalar_from_param(st, s) {
                Ok(x) => Ok(ValueModel::List(seq![x])),
                Err(m) => Err(propagated(m, list_type_name(st))),
            },
        },
        FieldType::Optional(inner) => match p {
            None => Ok(ValueModel::Absent),
            Some(_) => match param_decode(*inner, p) {
                Ok(v) => Ok(ValueModel::Present(Box::new(v))),
                Err(m) => Err(m),
            },
        },
    }
}

/// The parameter text of a scalar.
pub open spec fn scalar_param(s: ScalarModel) -> Seq<char> {
    match s {
        ScalarModel::Integer(n) => decimal(n),
        ScalarModel::Str(t) => t,
        ScalarModel::Bool(b) => if b {
            "true"@
        } else {
            "false"@
        },
    }
}

/// Reading back the parameter text of a value of `st` gives that value.
pub proof fn lemma_param_round_trip(st: ScalarType, s: ScalarModel)
    requires
        scalar_valid(st, s),
    ensures
        scalar_from_param(st, scalar_param(s)) == Ok::<ScalarModel, Seq<char>>(s),
{
    reveal_strlit("true");
    reveal_strlit("false");
    assert("true"@ != "false"@) by {
        assert("true"@.len() != "false"@.len());
    }
    if let ScalarModel::Integer(n) = s {
        lemma_decimal_round_trip(n);
    }
}

impl Scalar {
    /// The parameter text of this scalar.
    pub fn to_parameter(&self) -> (r: String)
        ensures
            r@ == scalar_param(self@),
    {
        match self {
            Scalar::Integer(n) => {
                let mut out = String::new();
                append_decimal(&mut out, *n);
                assert(out@ =~= decimal(*n as int));
                out
            },
            Scalar::Str(t) => t.clone(),
            Scalar::Bool(b) => if *b {
                text("true")
            } else {
                text("false")
            },
        }
    }
}

impl ScalarType {
    /// Reads a scalar from one parameter's text.
    pub fn parse_from_parameter(&self, s: &str) -> (r: Result<Scalar, ParseError>)
        ensures
            agrees(r, scalar_from_param(*self, s@)),
    {
        match self {
            ScalarType::Integer(f) => match parse_decimal_in(s, f.min_value(), f.max_value()) {
                Ok(n) => Ok(Scalar::Integer(n)),
                Err(IntParseError::OutOfRange) => Err(range_error(*f)),
                Err(IntParseError::Empty) => {
                    let name = self.name();
                    Err(fail(name.as_str(), "cannot parse integer from empty string"))
                },
                Err(IntParseError::InvalidDigit) => {
                    let name = self.name();
                    Err(fail(name.as_str(), "invalid digit found in string"))
                },
            },
            ScalarType::Str => Ok(Scalar::Str(text(s))),
            ScalarType::Bool => {
                if same_text(s, "true") {
                    Ok(Scalar::Bool(true))
                } else if same_text(s, "false") {
                    Ok(Scalar::Bool(false))
                } else {
                    Err(fail("boolean", "provided string was not `true` or `false`"))
                }
            },
        }
    }
}

impl FieldType {
    /// Reads a value of this type from a parameter's text; `None`: the parameter is not given.
    pub fn parse_from_parameter(&self, p: Option<&str>) -> (r: Result<Value, ParseError>)
        ensures
            agrees(r, param_decode(*self, opt_view(p))),
        decreases *self,
    {
        match self {
            FieldType::Scalar(st) => match p {
                None => {
                    let name = st.name();
                    Err(expected_input_error(name.as_str()))
                },
                Some(s) => match st.parse_from_parameter(s) {
                    Ok(x) => Ok(Value::Scalar(x)),
                    Err(e) => Err(e),
                },
            },
            FieldType::List(st) => {
                let name = list_name(*st);
                match p {
                    None => Err(expected_input_error(name.as_str())),
                    Some(s) => match st.parse_from_parameter(s) {
                        Ok(x) => {
                            let mut vs: Vec<Scalar> = Vec::new();
                            vs.push(x);
                            let r = Value::List(vs);
                            assert(r@ == ValueModel::List(seq![x@])) by {
                                assert(scalars_model(vs@) =~= seq![x@]);
                            }
                            Ok(r)
                        },
                        Err(e) => Err(propagate(e, name.as_str())),
                    },
                }
            },
            FieldType::Optional(inner) => match p {
                None => Ok(Value::Absent),
                Some(_) => match inner.parse_from_parameter(p) {
                    Ok(v) => Ok(Value::Present(Box::new(v))),
                    Err(e) => Err(e),
                },
            },
        }
    }
}

/// The first failure message among texts read as scalars of type `st`, if any.
pub open spec fn list_from_param_error(st: ScalarType, texts: Seq<Seq<char>>) -> Option<Seq<char>>
    decreases texts.len(),
{
    if texts.len() == 0 {
        None
    } else {
        match scalar_from_param(st, texts[0]) {
            Err(m) => Some(m),
            Ok(_) => list_from_param_error(st, texts.drop_first()),
        }
    }
}

/// What the texts of the multipart parts named for a field read as, as a value of `ty`,
/// or the failure message. A list takes every part, in order; a scalar takes the first;
/// an optional value is absent when there is no part.
pub open spec fn parts_decode(ty: FieldType, texts: Seq<Seq<char>>) -> Result<ValueModel, Seq<char>>
    decreases ty,
{
    match ty {
        FieldType::Scalar(st) => if texts.len() == 0 {
            Err(expected_input(scalar_type_name(st)))
        } else {
            match scalar_from_param(st, texts[0]) {
                Ok(x) => Ok(ValueModel::Scalar(x)),
                Err(m) => Err(m),
            }
        },
        FieldType::List(st) => match list_from_param_error(st, texts) {
            Some(m) => Err(propagated(m, list_type_name(st))),
            None => Ok(
                ValueModel::List(texts.map_values(|t: Seq<char>| scalar_from_param(st, t)->Ok_0)),
            ),
        },
        FieldType::Optional(inner) => if texts.len() == 0 {
            Ok(ValueModel::Absent)
        } else {
            match parts_decode(*inner, texts) {
                Ok(v) => Ok(ValueModel::Present(Box::new(v))),
                Err(m) => Err(m),
            }
        },
    }
}

pub open spec fn texts_model(texts: Seq<String>) -> Seq<Seq<char>> {
    texts.map_values(|t: String| t@)
}

impl FieldType {
    /// Reads a value of this type from the texts of the multipart parts named for it.
    pub fn parse_from_parts(&self, texts: &Vec<String>) -> (r: Result<Value, ParseError>)
        ensures
            agrees(r, parts_decode(*self, texts_model(texts@))),
        decreases *self,
    {
        let ghost ts = texts_model(texts@);
        match self {
            FieldType::Scalar(st) => {
                if texts.len() == 0 {
                    let name = st.name();
                    Err(expected_input_error(name.as_str()))
                } else {
                    match st.parse_from_parameter(texts[0].as_str()) {
                        Ok(x) => Ok(Value::Scalar(x)),
                        Err(e) => Err(e),
                    }
                }
            },
            FieldType::List(st) => {
                let mut vs: Vec<Scalar> = Vec::new();
                let mut i: usize = 0;
                assert(ts =~= ts.subrange(0, ts.len() as int));
                while i < texts.len()
                    invariant
                        ts == texts_model(texts@),
                        *self == FieldType::List(*st),
                        i <= texts@.len(),
                        vs@.len() == i,
                        forall|k: int|
                            0 <= k < i ==> scalar_from_param(*st, #[trigger] ts[k]) == Ok::<
                                ScalarModel,
                                Seq<char>,
                            >(vs@[k]@),
                        list_from_param_error(*st, ts) == list_from_param_error(
                            *st,
                            ts.subrange(i as int, ts.len() as int),
                        ),
                    decreases texts@.len() - i,
                {
                    let ghost rest = ts.subrange(i as int, ts.len() as int);
                    assert(rest.drop_first() =~= ts.subrange(i + 1, ts.len() as int));
                    assert(rest[0] == texts@[i as int]@);
                    match st.parse_from_parameter(texts[i].as_str()) {
                        Ok(x) => {
                            vs.push(x);
                        },
                        Err(e) => {
                            assert(list_from_param_error(*st, ts) == Some(e.message@));
                            let name = list_name(*st);
                            return Err(propagate(e, name.as_str()));
                        },
                    }
                    i = i + 1;
                }
                proof {
                    assert(ts.subrange(i as int, ts.len() as int).len() == 0);
                    assert(scalars_model(vs@) =~= ts.map_values(
                        |t: Seq<char>| scalar_from_param(*st, t)->Ok_0,
                    ));
                }
                Ok(Value::List(vs))
            },
            FieldType::Optional(inner) => {
                if texts.len() == 0 {
                    Ok(Value::Absent)
                } else {
                    match inner.parse_from_parts(texts) {
                        Ok(v) => Ok(Value::Present(Box::new(v))),
                        Err(e) => Err(e),
                    }
                }
            },
        }
    }
}

/// The texts of the parts named `name`, in order.
pub open spec fn part_texts(parts: Seq<(String, String)>, name: Seq<char>) -> Seq<Seq<char>>
    decreases parts.len(),
{
    if parts.len() == 0 {
        Seq::empty()
    } else if parts.last().0@ == name {
        part_texts(parts.drop_last(), name).push(parts.last().1@)
    } else {
        part_texts(parts.drop_last(), name)
    }
}

/// Collects the texts of the parts named `name`, in order.
pub fn collect_parts(parts: &Vec<(String, String)>, name: &str) -> (r: Vec<String>)
    ensures
        texts_model(r@) == part_texts(parts@, name@),
{
    let mut r: Vec<String> = Vec::new();
    let mut i: usize = 0;
    while i < parts.len()
        invariant
            i <= parts@.len(),
            texts_model(r@) == part_texts(parts@.subrange(0, i as int), name@),
        decreases parts@.len() - i,
    {
        let ghost prefix = parts@.subrange(0, i + 1);
        assert(prefix.drop_last() =~= parts@.subrange(0, i as int));
        assert(prefix.last() == parts@[i as int]);
        if same_text(parts[i].0.as_str(), name) {
            let ghost before = r@;
            r.push(parts[i].1.clone());
            assert(texts_model(r@) =~= texts_model(before).push(parts@[i as int].1@));
        }
        i = i + 1;
    }
    assert(parts@.subrange(0, i as int) =~= parts@);
    r
}

/// The characters of an optional string.
pub open spec fn opt_view(p: Option<&str>) -> Option<Seq<char>> {
    match p {
        Some(s) => Some(s@),
        None => None,
    }
}

fn list_name(st: ScalarType) -> (r: String)
    ensures
        r@ == list_type_name(st),
{
    let mut s = text("[");
    let name = st.name();
    s.append(name.as_str());
    s.append("]");
    s
}

} // verus!
