use vstd::prelude::*;

use crate::json::{get_member, json_kind, member, JsonValue};
use crate::registry::{unconstrained, Registry, SchemaKind, SchemaMeta, SchemaRef};
use crate::types::{
    agrees, collect_parts, json_encodes, lemma_json_round_trip, valid_value, expected_type, expected_type_error, failed_to_parse, fail, json_decode,
    part_texts, parts_decode, propagate, propagated, FieldType, IntFormat, ParseError, ScalarType,
    Value, ValueModel,
};
use crate::validation::{
    apply_chain, apply_meta, chain_failure, each_failure, elements, first_failure,
    first_failure_each, update_meta_chain, validator_message, Validator,
};

verus! {

/// The schema `m` with its constraints cleared.
pub open spec fn reset(m: SchemaMeta) -> SchemaMeta {
    SchemaMeta {
        maximum: None,
        exclusive_maximum: None,
        minimum: None,
        exclusive_minimum: None,
        multiple_of: None,
        max_length: None,
        min_length: None,
        pattern: None,
        max_items: None,
        min_items: None,
        unique_items: None,
        ..m
    }
}

/// Whether `m` is the plain schema of scalar type `st`.
pub open spec fn scalar_schema_ok(m: SchemaMeta, st: ScalarType) -> bool {
    &&& m.ty == match st {
        ScalarType::Integer(_) => SchemaKind::Integer,
        ScalarType::Str => SchemaKind::String,
        ScalarType::Bool => SchemaKind::Boolean,
    }
    &&& m.format == match st {
        ScalarType::Integer(f) => Some(f),
        _ => None::<IntFormat>,
    }
    &&& unconstrained(m)
    &&& m.items is None
    &&& m.properties@.len() == 0
}

/// Whether `m` is the plain schema of type `ty`. An optional type has the schema of
/// what it holds, so nested optionals share one schema.
pub open spec fn type_schema_ok(m: SchemaMeta, ty: FieldType) -> bool
    decreases ty,
{
    match ty {
        FieldType::Scalar(st) => scalar_schema_ok(m, st),
        FieldType::List(st) => {
            &&& m.ty == SchemaKind::Array
            &&& m.format is None
            &&& unconstrained(m)
            &&& m.properties@.len() == 0
            &&& m.items matches Some(b) && *b matches SchemaRef::Inline(im) && scalar_schema_ok(
                *im,
                st,
            )
        },
        FieldType::Optional(inner) => type_schema_ok(m, *inner),
    }
}

/// Whether `ty` is a list, possibly optional.
pub open spec fn is_list_type(ty: FieldType) -> bool
    decreases ty,
{
    match ty {
        FieldType::Scalar(_) => false,
        FieldType::List(_) => true,
        FieldType::Optional(inner) => is_list_type(*inner),
    }
}

/// A member of an object: its name, type and validator chain. With `list` set, the chain
/// applies to each element of a list instead of the list itself.
pub struct FieldDef {
    pub name: String,
    pub ty: FieldType,
    pub validators: Vec<Validator>,
    pub list: bool,
}

/// Whether the chain of `f` applies to the elements of its list.
pub open spec fn per_element(f: FieldDef) -> bool {
    f.list && is_list_type(f.ty)
}

/// Whether `m` is the schema of field `f`: the plain schema of its type with the chain's
/// constraints, recorded on the element schema when the chain applies per element.
pub open spec fn field_schema_ok(m: SchemaMeta, f: FieldDef) -> bool {
    if per_element(f) {
        &&& m.items matches Some(b) && *b matches SchemaRef::Inline(im) && *im == apply_chain(
            f.validators@,
            reset(*im),
        ) && type_schema_ok(
            SchemaMeta { items: Some(Box::new(SchemaRef::Inline(Box::new(reset(*im))))), ..m },
            f.ty,
        )
    } else {
        m == apply_chain(f.validators@, reset(m)) && type_schema_ok(reset(m), f.ty)
    }
}

/// Clearing the constraints after a chain gives the constraints-cleared start.
pub proof fn lemma_reset_chain(chain: Seq<Validator>, m: SchemaMeta)
    ensures
        reset(apply_chain(chain, m)) == reset(m),
    decreases chain.len(),
{
    if chain.len() > 0 {
        lemma_reset_chain(chain.drop_first(), apply_meta(chain[0], m));
    }
}

/// An optional type has the schema of what it holds, so `Option<Option<X>>`, `Option<X>`
/// and `X` share one schema.
pub proof fn lemma_optional_schema(inner: FieldType, m: SchemaMeta)
    ensures
        type_schema_ok(m, FieldType::Optional(Box::new(inner))) == type_schema_ok(m, inner),
{
}

/// A chain that applies per element leaves the list's own schema without constraints and
/// records its constraints on the element schema.
pub proof fn lemma_list_constraints_on_items(m: SchemaMeta, f: FieldDef)
    requires
        per_element(f),
        field_schema_ok(m, f),
    ensures
        unconstrained(m),
        m.items matches Some(b) && *b matches SchemaRef::Inline(im) && *im == apply_chain(
            f.validators@,
            reset(*im),
        ),
{
    let b = m.items->Some_0;
    let im = b->Inline_0;
    let plain = SchemaMeta { items: Some(Box::new(SchemaRef::Inline(Box::new(reset(*im))))), ..m };
    lemma_type_schema_unconstrained(plain, f.ty);
}

impl ScalarType {
    /// The plain schema of this type.
    pub fn schema(&self) -> (r: SchemaMeta)
        ensures
            scalar_schema_ok(r, *self),
    {
        match self {
            ScalarType::Integer(f) => {
                let mut m = SchemaMeta::new(SchemaKind::Integer);
                m.format = Some(*f);
                m
            },
            ScalarType::Str => SchemaMeta::new(SchemaKind::String),
            ScalarType::Bool => SchemaMeta::new(SchemaKind::Boolean),
        }
    }
}

impl FieldType {
    /// The plain schema of this type, a function of the type alone.
    pub fn schema(&self) -> (r: SchemaMeta)
        ensures
            type_schema_ok(r, *self),
        decreases *self,
    {
        match self {
            FieldType::Scalar(st) => st.schema(),
            FieldType::List(st) => {
                let mut m = SchemaMeta::new(SchemaKind::Array);
                m.items = Some(Box::new(SchemaRef::Inline(Box::new(st.schema()))));
                m
            },
            FieldType::Optional(inner) => inner.schema(),
        }
    }

    pub fn is_list(&self) -> (r: bool)
        ensures
            r == is_list_type(*self),
        decreases *self,
    {
        match self {
            FieldType::Scalar(_) => false,
            FieldType::List(_) => true,
            FieldType::Optional(inner) => inner.is_list(),
        }
    }
}

/// Where an object's fields are read from: the members of a JSON object, or the
/// (name, text) parts of a multipart form.
pub enum SourceModel {
    Json(Seq<(String, JsonValue)>),
    Parts(Seq<(String, String)>),
}

/// The executable counterpart of `SourceModel`.
pub enum FieldSource<'a> {
    Json(&'a Vec<(String, JsonValue)>),
    Parts(&'a Vec<(String, String)>),
}

pub open spec fn source_model(src: FieldSource) -> SourceModel {
    match src {
        FieldSource::Json(m) => SourceModel::Json(m@),
        FieldSource::Parts(p) => SourceModel::Parts(p@),
    }
}

/// What field `f` decodes to from the source, before validation.
pub open spec fn decoded(f: FieldDef, src: SourceModel) -> Result<ValueModel, Seq<char>> {
    match src {
        SourceModel::Json(members) => json_decode(f.ty, member(members, f.name@)),
        SourceModel::Parts(parts) => parts_decode(f.ty, part_texts(parts, f.name@)),
    }
}

/// What field `f` decodes to from the source, validated; or the failure message within the
/// object named `parent`.
pub open spec fn field_result(f: FieldDef, src: SourceModel, parent: Seq<char>) -> Result<
    ValueModel,
    Seq<char>,
> {
    match decoded(f, src) {
        Err(m) => Err(propagated(m, parent)),
        Ok(v) => match (if f.list {
            each_failure(f.validators@, elements(v))
        } else {
            chain_failure(f.validators@, v)
        }) {
            Some(k) => Err(verification_failed(parent, f.name@, f.validators@[k])),
            None => Ok(v),
        },
    }
}

/// The message of a validator failure on field `name` of the object named `parent`.
pub open spec fn verification_failed(parent: Seq<char>, name: Seq<char>, v: Validator) -> Seq<
    char,
> {
    failed_to_parse(
        parent,
        "field `"@ + name + "` verification failed. "@ + validator_message(v),
    )
}

/// `r` with `pre` put in front of its values.
pub open spec fn prepend(pre: Seq<ValueModel>, r: Result<Seq<ValueModel>, Seq<char>>) -> Result<
    Seq<ValueModel>,
    Seq<char>,
> {
    match r {
        Ok(vs) => Ok(pre + vs),
        Err(m) => Err(m),
    }
}

/// The values of `fields` in order, or the failure of the first field that fails.
pub open spec fn fields_result(fields: Seq<FieldDef>, src: SourceModel, parent: Seq<char>) -> Result<Seq<ValueModel>, Seq<char>>
    decreases fields.len(),
{
    if fields.len() == 0 {
        Ok(Seq::empty())
    } else {
        match field_result(fields[0], src, parent) {
            Err(m) => Err(m),
            Ok(v) => prepend(seq![v], fields_result(fields.drop_first(), src, parent)),
        }
    }
}

/// An object type: its name and its fields in declaration order.
pub struct ObjectDef {
    pub name: String,
    pub fields: Vec<FieldDef>,
}

/// What a JSON value decodes to as an object of `def`: the value of each field in order.
pub open spec fn object_decode(def: ObjectDef, j: JsonValue) -> Result<Seq<ValueModel>, Seq<char>> {
    match j {
        JsonValue::Object(members) => fields_result(
            def.fields@,
            SourceModel::Json(members@),
            def.name@,
        ),
        _ => Err(expected_type(def.name@, json_kind(j))),
    }
}

/// Whether `m` is the schema of `def`: an object with one property per field, in order.
pub open spec fn object_schema_ok(m: SchemaMeta, def: ObjectDef) -> bool {
    &&& m.ty == SchemaKind::Object
    &&& m.format is None
    &&& unconstrained(m)
    &&& m.items is None
    &&& m.properties@.len() == def.fields@.len()
    &&& forall|i: int|
        0 <= i < def.fields@.len() ==> {
            &&& (#[trigger] m.properties@[i]).0@ == def.fields@[i].name@
            &&& m.properties@[i].1 matches SchemaRef::Inline(b) && field_schema_ok(
                *b,
                def.fields@[i],
            )
        }
}

pub open spec fn values_model(vs: Seq<Value>) -> Seq<ValueModel> {
    vs.map_values(|v: Value| v@)
}

/// No two fields share a name.
pub open spec fn names_distinct(fields: Seq<FieldDef>) -> bool {
    forall|i: int, j: int|
        0 <= i < j < fields.len() ==> #[trigger] fields[i].name@ != #[trigger] fields[j].name@
}

/// Whether `v` passes the validator chain of `f`.
pub open spec fn passes(f: FieldDef, v: ValueModel) -> bool {
    (if f.list {
        each_failure(f.validators@, elements(v))
    } else {
        chain_failure(f.validators@, v)
    }) is None
}

/// Whether `members` is the JSON form of an object whose fields hold `vs`: one member per
/// field, in order, named after it.
pub open spec fn object_encodes(
    fields: Seq<FieldDef>,
    vs: Seq<ValueModel>,
    members: Seq<(String, JsonValue)>,
) -> bool {
    &&& members.len() == fields.len()
    &&& vs.len() == fields.len()
    &&& forall|i: int|
        0 <= i < fields.len() ==> (#[trigger] members[i]).0@ == fields[i].name@ && json_encodes(
            vs[i],
            members[i].1,
        )
}

proof fn lemma_member_at(members: Seq<(String, JsonValue)>, i: int)
    requires
        0 <= i < members.len(),
        forall|j: int| 0 <= j < i ==> (#[trigger] members[j]).0@ != members[i].0@,
    ensures
        member(members, members[i].0@) == Some(members[i].1),
    decreases i,
{
    if i > 0 {
        let rest = members.drop_first();
        assert(rest[i - 1] == members[i]);
        assert forall|j: int| 0 <= j < i - 1 implies (#[trigger] rest[j]).0@ != rest[i - 1].0@ by {
            assert(rest[j] == members[j + 1]);
        }
        lemma_member_at(rest, i - 1);
    }
}

proof fn lemma_fields_round_trip(
    fields: Seq<FieldDef>,
    vs: Seq<ValueModel>,
    members: Seq<(String, JsonValue)>,
    parent: Seq<char>,
    k: int,
)
    requires
        0 <= k <= fields.len(),
        names_distinct(fields),
        object_encodes(fields, vs, members),
        forall|i: int|
            0 <= i < fields.len() ==> valid_value(#[trigger] fields[i].ty, vs[i]) && passes(
                fields[i],
                vs[i],
            ),
    ensures
        fields_result(
            fields.subrange(k, fields.len() as int),
            SourceModel::Json(members),
            parent,
        ) == Ok::<Seq<ValueModel>, Seq<char>>(vs.subrange(k, fields.len() as int)),
    decreases fields.len() - k,
{
    let n = fields.len() as int;
    if k < n {
        lemma_fields_round_trip(fields, vs, members, parent, k + 1);
        let sub = fields.subrange(k, n);
        assert(sub.drop_first() =~= fields.subrange(k + 1, n));
        assert(sub[0] == fields[k]);
        assert forall|j: int| 0 <= j < k implies (#[trigger] members[j]).0@ != members[k].0@ by {
            assert(members[j].0@ == fields[j].name@);
            assert(members[k].0@ == fields[k].name@);
        }
        lemma_member_at(members, k);
        assert(valid_value(fields[k].ty, vs[k]));
        lemma_json_round_trip(fields[k].ty, vs[k], members[k].1);
        assert(seq![vs[k]] + vs.subrange(k + 1, n) =~= vs.subrange(k, n));
    } else {
        assert(fields.subrange(k, n) =~= Seq::<FieldDef>::empty());
        assert(vs.subrange(k, n) =~= Seq::<ValueModel>::empty());
    }
}

/// An object whose field names are distinct and whose values are valid for their fields
/// and pass their validators decodes from its JSON form to the same values.
pub proof fn lemma_object_round_trip(
    def: ObjectDef,
    vs: Seq<ValueModel>,
    members: Seq<(String, JsonValue)>,
)
    requires
        names_distinct(def.fields@),
        object_encodes(def.fields@, vs, members),
        forall|i: int|
            0 <= i < def.fields@.len() ==> valid_value(#[trigger] def.fields@[i].ty, vs[i])
                && passes(def.fields@[i], vs[i]),
    ensures
        fields_result(def.fields@, SourceModel::Json(members), def.name@) == Ok::<
            Seq<ValueModel>,
            Seq<char>,
        >(vs),
{
    lemma_fields_round_trip(def.fields@, vs, members, def.name@, 0);
    assert(def.fields@.subrange(0, def.fields@.len() as int) =~= def.fields@);
    assert(vs.subrange(0, def.fields@.len() as int) =~= vs);
}

impl FieldDef {
    /// The schema of this field.
    pub fn schema(&self) -> (r: SchemaMeta)
        ensures
            field_schema_ok(r, *self),
    {
        let mut m = self.ty.schema();
        if self.list && self.ty.is_list() {
            proof {
                lemma_list_schema(self.ty, m);
            }
            let ghost base = m;
            let items = m.items;
            m.items = None;
            match items {
                Some(b) => match *b {
                    SchemaRef::Inline(im) => {
                        let ghost plain = *im;
                        let mut im = *im;
                        update_meta_chain(&self.validators, &mut im);
                        m.items = Some(Box::new(SchemaRef::Inline(Box::new(im))));
                        proof {
                            lemma_reset_chain(self.validators@, plain);
                            assert(reset(plain) == plain);
                            assert(SchemaMeta {
                                items: Some(Box::new(SchemaRef::Inline(Box::new(plain)))),
                                ..m
                            } == base);
                        }
                    },
                    SchemaRef::Reference(_) => unreached(),
                },
                None => unreached(),
            }
            m
        } else {
            let ghost plain = m;
            update_meta_chain(&self.validators, &mut m);
            proof {
                lemma_reset_chain(self.validators@, plain);
                lemma_type_schema_unconstrained(plain, self.ty);
                assert(reset(plain) == plain);
            }
            m
        }
    }

    /// Decodes and validates this field from the source.
    pub fn parse(&self, src: &FieldSource, parent: &str) -> (r: Result<Value, ParseError>)
        ensures
            agrees(r, field_result(*self, source_model(*src), parent@)),
    {
        let d = match src {
            FieldSource::Json(members) => {
                let j = get_member(members, self.name.as_str());
                self.ty.parse_from_json(j)
            },
            FieldSource::Parts(parts) => {
                let texts = collect_parts(parts, self.name.as_str());
                self.ty.parse_from_parts(&texts)
            },
        };
        let v = match d {
            Ok(v) => v,
            Err(e) => {
                return Err(propagate(e, parent));
            },
        };
        let failure = if self.list {
            first_failure_each(&self.validators, &v)
        } else {
            first_failure(&self.validators, &v)
        };
        match failure {
            Some(k) => {
                let mut reason = String::from_str("field `");
                reason.append(self.name.as_str());
                reason.append("` verification failed. ");
                let msg = self.validators[k].message();
                reason.append(msg.as_str());
                assert(reason@ =~= "field `"@ + self.name@ + "` verification failed. "@
                    + validator_message(self.validators@[k as int]));
                Err(fail(parent, reason.as_str()))
            },
            None => Ok(v),
        }
    }
}

proof fn lemma_list_schema(ty: FieldType, m: SchemaMeta)
    requires
        is_list_type(ty),
        type_schema_ok(m, ty),
    ensures
        m.items matches Some(b) && *b matches SchemaRef::Inline(im) && unconstrained(*im),
    decreases ty,
{
    if let FieldType::Optional(inner) = ty {
        lemma_list_schema(*inner, m);
    }
}

/// The plain schema of a type has no constraint.
pub proof fn lemma_type_schema_unconstrained(m: SchemaMeta, ty: FieldType)
    requires
        type_schema_ok(m, ty),
    ensures
        unconstrained(m),
    decreases ty,
{
    if let FieldType::Optional(inner) = ty {
        lemma_type_schema_unconstrained(m, *inner);
    }
}

impl ObjectDef {
    /// Decodes an object of this type from JSON: each field in declaration order, stopping
    /// at the first field that fails.
    pub fn parse_from_json(&self, j: &JsonValue) -> (r: Result<Vec<Value>, ParseError>)
        ensures
            match r {
                Ok(vs) => object_decode(*self, *j) == Ok::<Seq<ValueModel>, Seq<char>>(
                    values_model(vs@),
                ),
                Err(e) => object_decode(*self, *j) == Err::<Seq<ValueModel>, Seq<char>>(
                    e.message@,
                ),
            },
    {
        match j {
            JsonValue::Object(members) => self.parse_fields(&FieldSource::Json(members)),
            _ => Err(expected_type_error(self.name.as_str(), j.kind_name())),
        }
    }

    /// Decodes a multipart form of this type from its (name, text) parts: each field in
    /// declaration order, stopping at the first field that fails.
    pub fn parse_from_parts(&self, parts: &Vec<(String, String)>) -> (r: Result<
        Vec<Value>,
        ParseError,
    >)
        ensures
            match r {
                Ok(vs) => fields_result(self.fields@, SourceModel::Parts(parts@), self.name@)
                    == Ok::<Seq<ValueModel>, Seq<char>>(values_model(vs@)),
                Err(e) => fields_result(self.fields@, SourceModel::Parts(parts@), self.name@)
                    == Err::<Seq<ValueModel>, Seq<char>>(e.message@),
            },
    {
        self.parse_fields(&FieldSource::Parts(parts))
    }

    fn parse_fields(&self, src: &FieldSource) -> (r: Result<Vec<Value>, ParseError>)
        ensures
            match r {
                Ok(vs) => fields_result(self.fields@, source_model(*src), self.name@) == Ok::<
                    Seq<ValueModel>,
                    Seq<char>,
                >(values_model(vs@)),
                Err(e) => fields_result(self.fields@, source_model(*src), self.name@) == Err::<
                    Seq<ValueModel>,
                    Seq<char>,
                >(e.message@),
            },
    {
        let ghost fs = self.fields@;
        let ghost sm = source_model(*src);
        let n = self.fields.len();
        let mut vs: Vec<Value> = Vec::new();
        let mut i: usize = 0;
        assert(fs =~= fs.subrange(0, n as int));
        assert(values_model(vs@) =~= Seq::<ValueModel>::empty());
        while i < n
            invariant
                n == fs.len(),
                fs == self.fields@,
                sm == source_model(*src),
                i <= n,
                fields_result(fs, sm, self.name@) == prepend(
                    values_model(vs@),
                    fields_result(fs.subrange(i as int, n as int), sm, self.name@),
                ),
            decreases n - i,
        {
            let ghost rest = fs.subrange(i as int, n as int);
            assert(rest.drop_first() =~= fs.subrange(i + 1, n as int));
            assert(rest[0] == fs[i as int]);
            match self.fields[i].parse(src, self.name.as_str()) {
                Ok(v) => {
                    let ghost before = values_model(vs@);
                    vs.push(v);
                    proof {
                        assert(values_model(vs@) =~= before.push(v@));
                        let tail = fields_result(fs.subrange(i + 1, n as int), sm, self.name@);
                        if let Ok(t) = tail {
                            assert(before + (seq![v@] + t) =~= before.push(v@) + t);
                        }
                    }
                },
                Err(e) => {
                    return Err(e);
                },
            }
            i = i + 1;
        }
        proof {
            assert(fs.subrange(i as int, n as int).len() == 0);
            assert(values_model(vs@) + Seq::<ValueModel>::empty() =~= values_model(vs@));
        }
        Ok(vs)
    }

    /// The JSON form of an object of this type holding `values`, one per field.
    pub fn to_json(&self, values: &Vec<Value>) -> (r: JsonValue)
        requires
            values@.len() == self.fields@.len(),
        ensures
            r matches JsonValue::Object(m) && object_encodes(self.fields@, values_model(values@), m@),
    {
        let mut members: Vec<(String, JsonValue)> = Vec::new();
        let mut i: usize = 0;
        while i < self.fields.len()
            invariant
                values@.len() == self.fields@.len(),
                i <= self.fields@.len(),
                members@.len() == i,
                forall|k: int|
                    0 <= k < i ==> (#[trigger] members@[k]).0@ == self.fields@[k].name@
                        && json_encodes(values@[k]@, members@[k].1),
            decreases self.fields@.len() - i,
        {
            members.push((self.fields[i].name.clone(), values[i].to_json()));
            i = i + 1;
        }
        JsonValue::Object(members)
    }

    /// The schema of this object: one property per field, in order.
    pub fn schema(&self) -> (r: SchemaMeta)
        ensures
            object_schema_ok(r, *self),
    {
        let mut m = SchemaMeta::new(SchemaKind::Object);
        let mut i: usize = 0;
        while i < self.fields.len()
            invariant
                i <= self.fields@.len(),
                m.ty == SchemaKind::Object,
                m.format is None,
                unconstrained(m),
                m.items is None,
                m.properties@.len() == i,
                forall|k: int|
                    0 <= k < i ==> {
                        &&& (#[trigger] m.properties@[k]).0@ == self.fields@[k].name@
                        &&& m.properties@[k].1 matches SchemaRef::Inline(b) && field_schema_ok(
                            *b,
                            self.fields@[k],
                        )
                    },
            decreases self.fields@.len() - i,
        {
            let f = &self.fields[i];
            let s = f.schema();
            m.properties.push((f.name.clone(), SchemaRef::Inline(Box::new(s))));
            i = i + 1;
        }
        m
    }

    /// A reference to this object's registry entry.
    pub fn schema_ref(&self) -> (r: SchemaRef)
        ensures
            r matches SchemaRef::Reference(n) && n@ == self.name@,
    {
        SchemaRef::Reference(self.name.clone())
    }

    /// This object's schema written out in place, as a multipart form has it.
    pub fn inline_schema_ref(&self) -> (r: SchemaRef)
        ensures
            r matches SchemaRef::Inline(m) && object_schema_ok(*m, *self),
    {
        SchemaRef::Inline(Box::new(self.schema()))
    }

    /// Registers this object's schema under its name, unless the name is taken.
    pub fn register(&self, registry: &mut Registry)
        requires
            old(registry).wf(),
        ensures
            final(registry).wf(),
            old(registry).spec_get(self.name@) is Some ==> *final(registry) == *old(registry),
            old(registry).spec_get(self.name@) is None ==> (final(registry).spec_get(
                self.name@,
            ) matches Some(m) && object_schema_ok(m, *self)),
            forall|n: Seq<char>|
                n != self.name@ ==> final(registry).spec_get(n) == old(registry).spec_get(n),
    {
        if !registry.contains(self.name.as_str()) {
            let m = self.schema();
            registry.insert(self.name.clone(), m);
        }
    }
}

} // verus!
