use vstd::prelude::*;

use crate::error::ParseRequestError;
use crate::json::same_text;
use crate::object::{lemma_reset_chain, lemma_type_schema_unconstrained, reset, type_schema_ok};
use crate::registry::{Registry, SchemaMeta, SchemaRef};
use crate::types::{opt_view, param_decode, FieldType, Value, ValueModel};
use crate::validation::{
    apply_chain, chain_failure, first_failure, update_meta_chain, validator_message, Validator,
};

verus! {

/// Where a parameter is read from.
#[derive(Clone, Copy, Debug, PartialEq, Eq)]
pub enum ParamIn {
    Query,
    Path,
    Header,
    Cookie,
}

/// The configuration of one parameter: its wire name, its type, the value it takes when
/// the request does not give it, and its validator chain.
pub struct ParamOptions {
    pub name: String,
    pub ty: FieldType,
    pub default_value: Option<Value>,
    pub validators: Vec<Validator>,
}

/// The value of the first pair named `name`: a repeated key takes its first occurrence.
pub open spec fn query_lookup(pairs: Seq<(String, String)>, name: Seq<char>) -> Option<Seq<char>>
    decreases pairs.len(),
{
    if pairs.len() == 0 {
        None
    } else if pairs[0].0@ == name {
        Some(pairs[0].1@)
    } else {
        query_lookup(pairs.drop_first(), name)
    }
}

/// What parameter text `p` gives under `opts`: the decoded and validated value, or the
/// reason of the failure.
pub open spec fn param_outcome(opts: ParamOptions, p: Option<Seq<char>>) -> Result<
    ValueModel,
    Seq<char>,
> {
    match param_decode(opts.ty, p) {
        Err(m) => Err(m),
        Ok(v) => match chain_failure(opts.validators@, v) {
            Some(k) => Err("verification failed. "@ + validator_message(opts.validators@[k])),
            None => Ok(v),
        },
    }
}

/// What the query string gives under `opts`. A missing parameter with a default takes the
/// default; otherwise the text found, or its absence, is decoded and validated.
pub open spec fn query_outcome(opts: ParamOptions, pairs: Seq<(String, String)>) -> Result<
    ValueModel,
    Seq<char>,
> {
    match query_lookup(pairs, opts.name@) {
        None => match opts.default_value {
            Some(d) => Ok(d@),
            None => param_outcome(opts, None),
        },
        Some(s) => param_outcome(opts, Some(s)),
    }
}

fn find_query<'a>(pairs: &'a Vec<(String, String)>, name: &str) -> (r: Option<&'a str>)
    ensures
        opt_view(r) == query_lookup(pairs@, name@),
{
    let mut i: usize = 0;
    assert(pairs@ =~= pairs@.subrange(0, pairs@.len() as int));
    while i < pairs.len()
        invariant
            i <= pairs@.len(),
            query_lookup(pairs@, name@) == query_lookup(
                pairs@.subrange(i as int, pairs@.len() as int),
                name@,
            ),
        decreases pairs@.len() - i,
    {
        let ghost rest = pairs@.subrange(i as int, pairs@.len() as int);
        assert(rest.drop_first() =~= pairs@.subrange(i + 1, pairs@.len() as int));
        if same_text(pairs[i].0.as_str(), name) {
            return Some(pairs[i].1.as_str());
        }
        i = i + 1;
    }
    None
}

impl ParamOptions {
    /// Decodes parameter text `p` (`None`: not given) and runs the validator chain on it.
    pub fn parse(&self, p: Option<&str>) -> (r: Result<Value, String>)
        ensures
            match r {
                Ok(v) => param_outcome(*self, opt_view(p)) == Ok::<ValueModel, Seq<char>>(v@),
                Err(m) => param_outcome(*self, opt_view(p)) == Err::<ValueModel, Seq<char>>(m@),
            },
    {
        let v = match self.ty.parse_from_parameter(p) {
            Ok(v) => v,
            Err(e) => {
                return Err(e.into_message());
            },
        };
        match first_failure(&self.validators, &v) {
            Some(k) => {
                let mut reason = String::from_str("verification failed. ");
                let msg = self.validators[k].message();
                reason.append(msg.as_str());
                Err(reason)
            },
            None => Ok(v),
        }
    }

    /// The parameter's schema: the plain schema of its type with the chain's constraints.
    pub fn schema(&self) -> (r: SchemaMeta)
        ensures
            r == apply_chain(self.validators@, reset(r)),
            type_schema_ok(reset(r), self.ty),
    {
        let mut m = self.ty.schema();
        let ghost plain = m;
        update_meta_chain(&self.validators, &mut m);
        proof {
            lemma_reset_chain(self.validators@, plain);
            lemma_type_schema_unconstrained(plain, self.ty);
            assert(reset(plain) == plain);
        }
        m
    }
}

/// A parameter read from the query string.
pub struct Query<T>(pub T);

impl<T> Query<T> {
    /// The value held.
    pub fn deref(&self) -> (r: &T)
        ensures
            *r == self.0,
    {
        &self.0
    }

    /// The raw value that the parameter was read as.
    pub fn param_raw_type(&self) -> (r: Option<&T>)
        ensures
            r == Some(&self.0),
    {
        Some(&self.0)
    }
}

impl Query<Value> {
    /// Query parameters are read from the query string.
    pub fn param_in() -> (r: ParamIn)
        ensures
            r == ParamIn::Query,
    {
        ParamIn::Query
    }

    /// The parameter's schema, written out in place.
    pub fn param_schema_ref(opts: &ParamOptions) -> (r: SchemaRef)
        ensures
            r matches SchemaRef::Inline(m) && *m == apply_chain(opts.validators@, reset(*m))
                && type_schema_ok(reset(*m), opts.ty),
    {
        SchemaRef::Inline(Box::new(opts.schema()))
    }

    /// Parameter types have no named schema: the registry is left as it is.
    pub fn register(registry: &mut Registry)
        ensures
            *final(registry) == *old(registry),
    {
    }

    /// Reads the parameter that `opts` describes from the query string's pairs.
    pub fn from_request(query: &Vec<(String, String)>, opts: ParamOptions) -> (r: Result<
        Query<Value>,
        ParseRequestError,
    >)
        ensures
            match r {
                Ok(q) => query_outcome(opts, query@) == Ok::<ValueModel, Seq<char>>(q.0@),
                Err(e) => e matches ParseRequestError::ParseParam { name, reason } && name@
                    == opts.name@ && query_outcome(opts, query@) == Err::<ValueModel, Seq<char>>(
                    reason@,
                ),
            },
    {
        let found = find_query(query, opts.name.as_str());
        let p = match found {
            Some(s) => Some(s),
            None => {
                let ParamOptions { name, ty, default_value, validators } = opts;
                match default_value {
                    Some(d) => {
                        return Ok(Query(d));
                    },
                    None => {
                        let opts = ParamOptions { name, ty, default_value: None, validators };
                        return Self::finish(opts, None);
                    },
                }
            },
        };
        Self::finish(opts, p)
    }

    fn finish(opts: ParamOptions, p: Option<&str>) -> (r: Result<Query<Value>, ParseRequestError>)
        ensures
            match r {
                Ok(q) => param_outcome(opts, opt_view(p)) == Ok::<ValueModel, Seq<char>>(q.0@),
                Err(e) => e matches ParseRequestError::ParseParam { name, reason } && name@
                    == opts.name@ && param_outcome(opts, opt_view(p)) == Err::<
                    ValueModel,
                    Seq<char>,
                >(reason@),
            },
    {
        match opts.parse(p) {
            Ok(v) => Ok(Query(v)),
            Err(reason) => Err(ParseRequestError::ParseParam { name: opts.name, reason }),
        }
    }
}

} // verus!
