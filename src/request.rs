use vstd::prelude::*;

use crate::error::ParseRequestError;
use crate::json::{same_text, JsonValue};
use crate::object::{
    fields_result, object_decode, object_schema_ok, values_model, ObjectDef, SourceModel,
};
use crate::registry::{Registry, SchemaKind, SchemaMeta, SchemaRef};
use crate::types::{Value, ValueModel};

verus! {

/// The payload of one alternative of a request body, bound to one content type.
pub enum Payload {
    /// A JSON object.
    Json(ObjectDef),
    /// A multipart form of named text parts.
    Multipart(ObjectDef),
    /// UTF-8 text.
    PlainText,
    /// Raw bytes.
    Binary,
}

pub open spec fn payload_content_type(p: Payload) -> Seq<char> {
    match p {
        Payload::Json(_) => "application/json"@,
        Payload::Multipart(_) => "multipart/form-data"@,
        Payload::PlainText => "text/plain"@,
        Payload::Binary => "application/octet-stream"@,
    }
}

impl Payload {
    pub fn content_type(&self) -> (r: &'static str)
        ensures
            r@ == payload_content_type(*self),
    {
        match self {
            Payload::Json(_) => "application/json",
            Payload::Multipart(_) => "multipart/form-data",
            Payload::PlainText => "text/plain",
            Payload::Binary => "application/octet-stream",
        }
    }

    /// The payload's schema: a reference to a JSON object's entry, a form's object schema
    /// in place, or a string.
    pub fn schema_ref(&self) -> (r: SchemaRef)
        ensures
            match *self {
                Payload::Json(def) => r matches SchemaRef::Reference(n) && n@ == def.name@,
                Payload::Multipart(def) => r matches SchemaRef::Inline(m) && object_schema_ok(
                    *m,
                    def,
                ),
                _ => r matches SchemaRef::Inline(m) && m.ty == SchemaKind::String,
            },
    {
        match self {
            Payload::Json(def) => def.schema_ref(),
            Payload::Multipart(def) => def.inline_schema_ref(),
            _ => SchemaRef::Inline(Box::new(SchemaMeta::new(SchemaKind::String))),
        }
    }
}

/// A request body as read for the alternative chosen by its content type.
pub enum Body {
    Json(JsonValue),
    /// The (name, text) parts of a multipart form, in order.
    Parts(Vec<(String, String)>),
    Text(String),
    Bytes(Vec<u8>),
}

/// The decoded payload of a request.
pub enum PayloadValue {
    /// The values of the object's fields, in order.
    Json(Vec<Value>),
    /// The values of the form's fields, in order.
    Form(Vec<Value>),
    Text(String),
    Bytes(Vec<u8>),
}

/// A request decoded into one of its alternatives.
pub struct RequestValue {
    /// The index of the alternative.
    pub variant: usize,
    pub value: PayloadValue,
}

/// A media type of a request body and its schema.
pub struct MediaType {
    pub content_type: String,
    pub schema: SchemaRef,
}

/// The description of a request body. Bodies are always required.
pub struct RequestMeta {
    pub content: Vec<MediaType>,
    pub required: bool,
}

/// A request type: alternatives, each with one payload, chosen by content type.
pub struct RequestDef {
    pub alternatives: Vec<Payload>,
}

/// The index of the first alternative bound to content type `ct`.
pub open spec fn first_alternative(alts: Seq<Payload>, ct: Seq<char>) -> Option<int>
    decreases alts.len(),
{
    if alts.len() == 0 {
        None
    } else if payload_content_type(alts[0]) == ct {
        Some(0)
    } else {
        match first_alternative(alts.drop_first(), ct) {
            Some(i) => Some(i + 1),
            None => None,
        }
    }
}

/// Whether `r` is the outcome of selecting an alternative of `alts` for content type `ct`.
pub open spec fn selects(alts: Seq<Payload>, ct: Option<Seq<char>>, r: Result<usize, ParseRequestError>) -> bool {
    match ct {
        None => r matches Err(ParseRequestError::ExpectContentType),
        Some(c) => match first_alternative(alts, c) {
            Some(i) => r matches Ok(v) && v as int == i,
            None => r matches Err(ParseRequestError::ContentTypeNotSupported { content_type })
                && content_type@ == c,
        },
    }
}

/// Whether `r` is the outcome of decoding `body` for payload `p`.
pub open spec fn decodes(p: Payload, body: Body, r: Result<PayloadValue, ParseRequestError>) -> bool {
    match (p, body) {
        (Payload::Json(def), Body::Json(j)) => match object_decode(def, j) {
            Ok(vs) => r matches Ok(PayloadValue::Json(xs)) && values_model(xs@) == vs,
            Err(m) => r matches Err(ParseRequestError::ParseRequestBody { reason }) && reason@ == m,
        },
        (Payload::Multipart(def), Body::Parts(parts)) => match fields_result(
            def.fields@,
            SourceModel::Parts(parts@),
            def.name@,
        ) {
            Ok(vs) => r matches Ok(PayloadValue::Form(xs)) && values_model(xs@) == vs,
            Err(m) => r matches Err(ParseRequestError::ParseRequestBody { reason }) && reason@ == m,
        },
        (Payload::PlainText, Body::Text(t)) => r == Ok::<PayloadValue, ParseRequestError>(
            PayloadValue::Text(t),
        ),
        (Payload::Binary, Body::Bytes(b)) => r == Ok::<PayloadValue, ParseRequestError>(
            PayloadValue::Bytes(b),
        ),
        _ => r matches Err(ParseRequestError::ParseRequestBody { .. }),
    }
}

proof fn lemma_first_alternative_in_range(alts: Seq<Payload>, ct: Seq<char>)
    ensures
        first_alternative(alts, ct) matches Some(i) ==> 0 <= i < alts.len(),
    decreases alts.len(),
{
    if alts.len() > 0 {
        lemma_first_alternative_in_range(alts.drop_first(), ct);
    }
}

pub open spec fn opt_text(ct: Option<&str>) -> Option<Seq<char>> {
    match ct {
        Some(c) => Some(c@),
        None => None,
    }
}

impl RequestDef {
    /// Chooses the alternative for the request's content type (`None`: no header).
    pub fn select(&self, content_type: Option<&str>) -> (r: Result<usize, ParseRequestError>)
        ensures
            selects(self.alternatives@, opt_text(content_type), r),
            r matches Ok(i) ==> i < self.alternatives@.len(),
    {
        let ct = match content_type {
            None => {
                return Err(ParseRequestError::ExpectContentType);
            },
            Some(c) => c,
        };
        let ghost alts = self.alternatives@;
        let mut i: usize = 0;
        assert(alts =~= alts.subrange(0, alts.len() as int));
        while i < self.alternatives.len()
            invariant
                opt_text(content_type) == Some(ct@),
                alts == self.alternatives@,
                i <= alts.len(),
                first_alternative(alts, ct@) == match first_alternative(
                    alts.subrange(i as int, alts.len() as int),
                    ct@,
                ) {
                    Some(k) => Some(k + i),
                    None => None,
                },
            decreases alts.len() - i,
        {
            let ghost rest = alts.subrange(i as int, alts.len() as int);
            assert(rest.drop_first() =~= alts.subrange(i + 1, alts.len() as int));
            if same_text(self.alternatives[i].content_type(), ct) {
                return Ok(i);
            }
            i = i + 1;
        }
        Err(ParseRequestError::ContentTypeNotSupported { content_type: String::from_str(ct) })
    }

    /// Decodes `body` for alternative `variant`.
    pub fn decode(&self, variant: usize, body: Body) -> (r: Result<PayloadValue, ParseRequestError>)
        requires
            variant < self.alternatives@.len(),
        ensures
            decodes(self.alternatives@[variant as int], body, r),
    {
        match (&self.alternatives[variant], body) {
            (Payload::Json(def), Body::Json(j)) => match def.parse_from_json(&j) {
                Ok(vs) => Ok(PayloadValue::Json(vs)),
                Err(e) => Err(ParseRequestError::ParseRequestBody { reason: e.into_message() }),
            },
            (Payload::Multipart(def), Body::Parts(parts)) => match def.parse_from_parts(&parts) {
                Ok(vs) => Ok(PayloadValue::Form(vs)),
                Err(e) => Err(ParseRequestError::ParseRequestBody { reason: e.into_message() }),
            },
            (Payload::PlainText, Body::Text(t)) => Ok(PayloadValue::Text(t)),
            (Payload::Binary, Body::Bytes(b)) => Ok(PayloadValue::Bytes(b)),
            _ => Err(
                ParseRequestError::ParseRequestBody {
                    reason: String::from_str("the body was not read for its content type"),
                },
            ),
        }
    }

    /// Extracts the request: selects the alternative by content type, then decodes the body
    /// for it.
    pub fn from_request(&self, content_type: Option<&str>, body: Body) -> (r: Result<
        RequestValue,
        ParseRequestError,
    >)
        ensures
            match opt_text(content_type) {
                None => r matches Err(ParseRequestError::ExpectContentType),
                Some(c) => match first_alternative(self.alternatives@, c) {
                    None => r matches Err(ParseRequestError::ContentTypeNotSupported { content_type })
                        && content_type@ == c,
                    Some(i) => decodes(
                        self.alternatives@[i],
                        body,
                        match r {
                            Ok(rv) => Ok(rv.value),
                            Err(e) => Err(e),
                        },
                    ) && (r matches Ok(rv) ==> rv.variant == i),
                },
            },
    {
        proof {
            if let Some(c) = opt_text(content_type) {
                lemma_first_alternative_in_range(self.alternatives@, c);
            }
        }
        let variant = match self.select(content_type) {
            Ok(i) => i,
            Err(e) => {
                return Err(e);
            },
        };
        let ghost c = opt_text(content_type)->Some_0;
        assert(first_alternative(self.alternatives@, c) == Some(variant as int));
        let decoded = self.decode(variant, body);
        match decoded {
            Ok(value) => {
                let r = RequestValue { variant, value };
                assert(decodes(self.alternatives@[variant as int], body, Ok(r.value)));
                Ok(r)
            },
            Err(e) => Err(e),
        }
    }

    /// The description of the body: one media type per alternative, in order; required.
    pub fn request_meta(&self) -> (r: RequestMeta)
        ensures
            r.required,
            r.content@.len() == self.alternatives@.len(),
            forall|i: int|
                0 <= i < self.alternatives@.len() ==> (#[trigger] r.content@[i]).content_type@
                    == payload_content_type(self.alternatives@[i]),
    {
        let mut content: Vec<MediaType> = Vec::new();
        let mut i: usize = 0;
        while i < self.alternatives.len()
            invariant
                i <= self.alternatives@.len(),
                content@.len() == i,
                forall|k: int|
                    0 <= k < i ==> (#[trigger] content@[k]).content_type@ == payload_content_type(
                        self.alternatives@[k],
                    ),
            decreases self.alternatives@.len() - i,
        {
            let p = &self.alternatives[i];
            content.push(
                MediaType { content_type: String::from_str(p.content_type()), schema: p.schema_ref() },
            );
            i = i + 1;
        }
        RequestMeta { content, required: true }
    }

    /// Registers the schema of every JSON alternative's object.
    pub fn register(&self, registry: &mut Registry)
        requires
            old(registry).wf(),
        ensures
            final(registry).wf(),
            forall|i: int|
                0 <= i < self.alternatives@.len() && (#[trigger] self.alternatives@[i]) is Json
                    ==> final(registry).spec_get(self.alternatives@[i]->Json_0.name@) is Some,
            forall|n: Seq<char>|
                old(registry).spec_get(n) is Some ==> final(registry).spec_get(n) == old(
                    registry,
                ).spec_get(n),
    {
        let mut i: usize = 0;
        while i < self.alternatives.len()
            invariant
                i <= self.alternatives@.len(),
                registry.wf(),
                forall|k: int|
                    0 <= k < i && (#[trigger] self.alternatives@[k]) is Json ==> registry.spec_get(
                        self.alternatives@[k]->Json_0.name@,
                    ) is Some,
                forall|n: Seq<char>|
                    old(registry).spec_get(n) is Some ==> registry.spec_get(n) == old(
                        registry,
                    ).spec_get(n),
            decreases self.alternatives@.len() - i,
        {
            if let Payload::Json(def) = &self.alternatives[i] {
                def.register(registry);
            }
            i = i + 1;
        }
    }
}

} // verus!
