use vstd::prelude::*;

use crate::number::{append_decimal, decimal};
use crate::registry::SchemaMeta;
use crate::types::{Scalar, ScalarModel, Value, ValueModel};

verus! {

/// Whether regular expression `pattern` compiles (`Some`) and then matches somewhere in `text`.
pub uninterp spec fn regex_match(pattern: Seq<char>, text: Seq<char>) -> Option<bool>;

/// Relies on regex::Regex::new, which fails on a pattern that is not a valid regular
/// expression, and on Regex::is_match, which tells whether the pattern matches anywhere in
/// the text. Both depend on their arguments alone.
#[verifier::external_body]
fn pattern_matches(pattern: &str, text: &str) -> (r: Option<bool>)
    ensures
        r == regex_match(pattern@, text@),
{
    match regex::Regex::new(pattern) {
        Ok(re) => Some(re.is_match(text)),
        Err(_) => None,
    }
}

/// A declarative constraint on a value, with a runtime check and a schema contribution.
#[derive(Clone, Debug, PartialEq, Eq)]
pub enum Validator {
    /// The number is a multiple of the factor.
    MultipleOf(i128),
    /// The number is at most the bound (below it, when exclusive).
    Maximum(i128, bool),
    /// The number is at least the bound (above it, when exclusive).
    Minimum(i128, bool),
    /// The string has at most this many characters.
    MaxLength(usize),
    /// The string has at least this many characters.
    MinLength(usize),
    /// The string matches this regular expression somewhere.
    Pattern(String),
    /// The list has at most this many elements.
    MaxItems(usize),
    /// The list has at least this many elements.
    MinItems(usize),
    /// The list holds no element twice.
    UniqueItems,
}

pub open spec fn abs(n: int) -> int {
    if n < 0 {
        -n
    } else {
        n
    }
}

/// The check of a validator on a scalar; a validator of another kind of value holds.
pub open spec fn check_scalar(v: Validator, s: ScalarModel) -> bool {
    match (v, s) {
        (Validator::MultipleOf(k), ScalarModel::Integer(n)) => k != 0 && abs(n) % abs(k as int) == 0,
        (Validator::Maximum(b, ex), ScalarModel::Integer(n)) => if ex {
            n < b
        } else {
            n <= b
        },
        (Validator::Minimum(b, ex), ScalarModel::Integer(n)) => if ex {
            n > b
        } else {
            n >= b
        },
        (Validator::MaxLength(l), ScalarModel::Str(t)) => t.len() <= l,
        (Validator::MinLength(l), ScalarModel::Str(t)) => t.len() >= l,
        (Validator::Pattern(p), ScalarModel::Str(t)) => regex_match(p@, t) == Some(true),
        _ => true,
    }
}

pub open spec fn distinct(vs: Seq<ScalarModel>) -> bool {
    forall|i: int, j: int| 0 <= i < j < vs.len() ==> vs[i] != vs[j]
}

/// The check of a validator on a list; a validator of another kind of value holds.
pub open spec fn check_list(v: Validator, vs: Seq<ScalarModel>) -> bool {
    match v {
        Validator::MaxItems(l) => vs.len() <= l,
        Validator::MinItems(l) => vs.len() >= l,
        Validator::UniqueItems => distinct(vs),
        _ => true,
    }
}

/// The check of a validator on a value: an absent value passes, a present one is checked
/// for what it holds.
pub open spec fn check(v: Validator, x: ValueModel) -> bool
    decreases x,
{
    match x {
        ValueModel::Scalar(s) => check_scalar(v, s),
        ValueModel::List(vs) => check_list(v, vs),
        ValueModel::Absent => true,
        ValueModel::Present(b) => check(v, *b),
    }
}

/// The scalars that a value holds: one for a scalar, the elements of a list, none when absent.
pub open spec fn elements(x: ValueModel) -> Seq<ScalarModel>
    decreases x,
{
    match x {
        ValueModel::Scalar(s) => seq![s],
        ValueModel::List(vs) => vs,
        ValueModel::Absent => Seq::empty(),
        ValueModel::Present(b) => elements(*b),
    }
}

/// The index of the first validator of `chain` that `x` fails.
pub open spec fn chain_failure(chain: Seq<Validator>, x: ValueModel) -> Option<int>
    decreases chain.len(),
{
    if chain.len() == 0 {
        None
    } else if !check(chain[0], x) {
        Some(0)
    } else {
        match chain_failure(chain.drop_first(), x) {
            Some(i) => Some(i + 1),
            None => None,
        }
    }
}

/// The index of the validator that first fails when the chain is run on each element in turn.
pub open spec fn each_failure(chain: Seq<Validator>, elems: Seq<ScalarModel>) -> Option<int>
    decreases elems.len(),
{
    if elems.len() == 0 {
        None
    } else {
        match chain_failure(chain, ValueModel::Scalar(elems[0])) {
            Some(i) => Some(i),
            None => each_failure(chain, elems.drop_first()),
        }
    }
}

pub open spec fn bool_text(b: bool) -> Seq<char> {
    if b {
        "true"@
    } else {
        "false"@
    }
}

/// The rendering of a validator in error messages.
pub open spec fn validator_message(v: Validator) -> Seq<char> {
    match v {
        Validator::MultipleOf(k) => "multipleOf("@ + decimal(k as int) + ")"@,
        Validator::Maximum(b, ex) => "maximum("@ + decimal(b as int) + ", exclusive: "@ + bool_text(
            ex,
        ) + ")"@,
        Validator::Minimum(b, ex) => "minimum("@ + decimal(b as int) + ", exclusive: "@ + bool_text(
            ex,
        ) + ")"@,
        Validator::MaxLength(l) => "maxLength("@ + decimal(l as int) + ")"@,
        Validator::MinLength(l) => "minLength("@ + decimal(l as int) + ")"@,
        Validator::Pattern(p) => "pattern(\""@ + p@ + "\")"@,
        Validator::MaxItems(l) => "maxItems("@ + decimal(l as int) + ")"@,
        Validator::MinItems(l) => "minItems("@ + decimal(l as int) + ")"@,
        Validator::UniqueItems => "uniqueItems()"@,
    }
}

/// The schema `m` with the validator's constraint recorded.
pub open spec fn apply_meta(v: Validator, m: SchemaMeta) -> SchemaMeta {
    match v {
        Validator::MultipleOf(k) => SchemaMeta { multiple_of: Some(k), ..m },
        Validator::Maximum(b, ex) => SchemaMeta {
            maximum: Some(b),
            exclusive_maximum: if ex {
                Some(true)
            } else {
                None
            },
            ..m
        },
        Validator::Minimum(b, ex) => SchemaMeta {
            minimum: Some(b),
            exclusive_minimum: if ex {
                Some(true)
            } else {
                None
            },
            ..m
        },
        Validator::MaxLength(l) => SchemaMeta { max_length: Some(l), ..m },
        Validator::MinLength(l) => SchemaMeta { min_length: Some(l), ..m },
        Validator::Pattern(p) => SchemaMeta { pattern: Some(p), ..m },
        Validator::MaxItems(l) => SchemaMeta { max_items: Some(l), ..m },
        Validator::MinItems(l) => SchemaMeta { min_items: Some(l), ..m },
        Validator::UniqueItems => SchemaMeta { unique_items: Some(true), ..m },
    }
}

/// The schema `m` with the constraints of the chain recorded, left to right.
pub open spec fn apply_chain(chain: Seq<Validator>, m: SchemaMeta) -> SchemaMeta
    decreases chain.len(),
{
    if chain.len() == 0 {
        m
    } else {
        apply_chain(chain.drop_first(), apply_meta(chain[0], m))
    }
}

/// In a chain of two validators the first is reported whenever it fails; the second only
/// when the first passes. So for a value that fails both, swapping the two changes which
/// one is reported.
pub proof fn lemma_chain_order(a: Validator, b: Validator, x: ValueModel)
    ensures
        !check(a, x) ==> chain_failure(seq![a, b], x) == Some(0int),
        check(a, x) && !check(b, x) ==> chain_failure(seq![a, b], x) == Some(1int),
        check(a, x) && check(b, x) ==> chain_failure(seq![a, b], x) is None,
        !check(a, x) && !check(b, x) ==> chain_failure(seq![b, a], x) == Some(0int),
{
    assert(seq![a, b].drop_first() =~= seq![b]);
    assert(seq![b].drop_first() =~= Seq::<Validator>::empty());
    assert(chain_failure(Seq::<Validator>::empty(), x) is None);
    assert(seq![b][0] == b);
    assert(seq![a, b][0] == a);
    assert(seq![b, a][0] == b);
    if check(b, x) {
        assert(chain_failure(seq![b], x) is None);
    } else {
        assert(chain_failure(seq![b], x) == Some(0int));
    }
}

/// The validator that fails first on the elements of a list is the one that the chain
/// reports on the first failing element, checked as a scalar on its own.
pub proof fn lemma_each_failure_is_scalar_failure(chain: Seq<Validator>, elems: Seq<ScalarModel>)
    ensures
        each_failure(chain, elems) matches Some(k) ==> exists|i: int|
            0 <= i < elems.len() && chain_failure(chain, ValueModel::Scalar(#[trigger] elems[i]))
                == Some(k),
        each_failure(chain, elems) is None ==> forall|i: int|
            0 <= i < elems.len() ==> chain_failure(chain, ValueModel::Scalar(#[trigger] elems[i]))
                is None,
    decreases elems.len(),
{
    if elems.len() > 0 {
        lemma_each_failure_is_scalar_failure(chain, elems.drop_first());
        if let Some(k) = each_failure(chain, elems) {
            if chain_failure(chain, ValueModel::Scalar(elems[0])) is None {
                let i = choose|i: int|
                    0 <= i < elems.len() - 1 && chain_failure(
                        chain,
                        ValueModel::Scalar(#[trigger] elems.drop_first()[i]),
                    ) == Some(k);
                assert(elems.drop_first()[i] == elems[i + 1]);
            }
        } else {
            assert forall|i: int| 0 <= i < elems.len() implies chain_failure(
                chain,
                ValueModel::Scalar(#[trigger] elems[i]),
            ) is None by {
                if i > 0 {
                    assert(elems.drop_first()[i - 1] == elems[i]);
                }
            }
        }
    }
}

fn magnitude(n: i128) -> (r: u128)
    ensures
        r as int == abs(n as int),
{
    if n >= 0 {
        n as u128
    } else {
        (-(n + 1)) as u128 + 1
    }
}

fn same_scalar(a: &Scalar, b: &Scalar) -> (r: bool)
    ensures
        r == (a@ == b@),
{
    match (a, b) {
        (Scalar::Integer(x), Scalar::Integer(y)) => *x == *y,
        (Scalar::Str(x), Scalar::Str(y)) => *x == *y,
        (Scalar::Bool(x), Scalar::Bool(y)) => *x == *y,
        _ => false,
    }
}

fn all_distinct(vs: &Vec<Scalar>) -> (r: bool)
    ensures
        r == distinct(vs@.map_values(|s: Scalar| s@)),
{
    let ghost m = vs@.map_values(|s: Scalar| s@);
    let n = vs.len();
    let mut i: usize = 0;
    while i < n
        invariant
            n == vs@.len(),
            m == vs@.map_values(|s: Scalar| s@),
            i <= n,
            forall|p: int, q: int| 0 <= p < q < n && p < i ==> m[p] != m[q],
        decreases n - i,
    {
        let mut j: usize = i + 1;
        while j < n
            invariant
                n == vs@.len(),
                m == vs@.map_values(|s: Scalar| s@),
                i < n,
                i + 1 <= j <= n,
                forall|p: int, q: int| 0 <= p < q < n && p < i ==> m[p] != m[q],
                forall|q: int| i < q < j ==> m[i as int] != m[q],
            decreases n - j,
        {
            if same_scalar(&vs[i], &vs[j]) {
                assert(m[i as int] == m[j as int]);
                assert(!distinct(m));
                return false;
            }
            j = j + 1;
        }
        i = i + 1;
    }
    true
}

impl Validator {
    fn check_scalar(&self, s: &Scalar) -> (r: bool)
        ensures
            r == check_scalar(*self, s@),
    {
        match (self, s) {
            (Validator::MultipleOf(k), Scalar::Integer(n)) => {
                if *k == 0 {
                    false
                } else {
                    magnitude(*n) % magnitude(*k) == 0
                }
            },
            (Validator::Maximum(b, ex), Scalar::Integer(n)) => if *ex {
                *n < *b
            } else {
                *n <= *b
            },
            (Validator::Minimum(b, ex), Scalar::Integer(n)) => if *ex {
                *n > *b
            } else {
                *n >= *b
            },
            (Validator::MaxLength(l), Scalar::Str(t)) => t.as_str().unicode_len() <= *l,
            (Validator::MinLength(l), Scalar::Str(t)) => t.as_str().unicode_len() >= *l,
            (Validator::Pattern(p), Scalar::Str(t)) => match pattern_matches(p.as_str(), t.as_str()) {
                Some(b) => b,
                None => false,
            },
            _ => true,
        }
    }

    /// Whether `value` satisfies this validator.
    pub fn check(&self, value: &Value) -> (r: bool)
        ensures
            r == check(*self, value@),
        decreases *value,
    {
        match value {
            Value::Scalar(s) => self.check_scalar(s),
            Value::List(vs) => match self {
                Validator::MaxItems(l) => vs.len() <= *l,
                Validator::MinItems(l) => vs.len() >= *l,
                Validator::UniqueItems => all_distinct(vs),
                _ => true,
            },
            Value::Absent => true,
            Value::Present(b) => self.check(b),
        }
    }

    /// The rendering of this validator in error messages (`maximum(500, exclusive: true)`).
    pub fn message(&self) -> (r: String)
        ensures
            r@ == validator_message(*self),
    {
        let mut out = String::new();
        match self {
            Validator::MultipleOf(k) => {
                out.append("multipleOf(");
                append_decimal(&mut out, *k);
                out.append(")");
            },
            Validator::Maximum(b, ex) => {
                out.append("maximum(");
                append_decimal(&mut out, *b);
                out.append(", exclusive: ");
                out.append(if *ex { "true" } else { "false" });
                out.append(")");
            },
            Validator::Minimum(b, ex) => {
                out.append("minimum(");
                append_decimal(&mut out, *b);
                out.append(", exclusive: ");
                out.append(if *ex { "true" } else { "false" });
                out.append(")");
            },
            Validator::MaxLength(l) => {
                out.append("maxLength(");
                append_decimal(&mut out, *l as i128);
                out.append(")");
            },
            Validator::MinLength(l) => {
                out.append("minLength(");
                append_decimal(&mut out, *l as i128);
                out.append(")");
            },
            Validator::Pattern(p) => {
                out.append("pattern(\"");
                out.append(p.as_str());
                out.append("\")");
            },
            Validator::MaxItems(l) => {
                out.append("maxItems(");
                append_decimal(&mut out, *l as i128);
                out.append(")");
            },
            Validator::MinItems(l) => {
                out.append("minItems(");
                append_decimal(&mut out, *l as i128);
                out.append(")");
            },
            Validator::UniqueItems => {
                out.append("uniqueItems()");
            },
        }
        assert(out@ =~= validator_message(*self));
        out
    }

    /// Records this validator's constraint in a schema.
    pub fn update_meta(&self, meta: &mut SchemaMeta)
        ensures
            *final(meta) == apply_meta(*self, *old(meta)),
    {
        match self {
            Validator::MultipleOf(k) => {
                meta.multiple_of = Some(*k);
            },
            Validator::Maximum(b, ex) => {
                meta.maximum = Some(*b);
                meta.exclusive_maximum = if *ex {
                    Some(true)
                } else {
                    None
                };
            },
            Validator::Minimum(b, ex) => {
                meta.minimum = Some(*b);
                meta.exclusive_minimum = if *ex {
                    Some(true)
                } else {
                    None
                };
            },
            Validator::MaxLength(l) => {
                meta.max_length = Some(*l);
            },
            Validator::MinLength(l) => {
                meta.min_length = Some(*l);
            },
            Validator::Pattern(p) => {
                meta.pattern = Some(p.clone());
            },
            Validator::MaxItems(l) => {
                meta.max_items = Some(*l);
            },
            Validator::MinItems(l) => {
                meta.min_items = Some(*l);
            },
            Validator::UniqueItems => {
                meta.unique_items = Some(true);
            },
        }
    }
}

pub open spec fn opt_index(r: Option<usize>) -> Option<int> {
    match r {
        Some(i) => Some(i as int),
        None => None,
    }
}

/// Runs the chain left to right on `value`; the index of the first validator that fails.
pub fn first_failure(chain: &Vec<Validator>, value: &Value) -> (r: Option<usize>)
    ensures
        opt_index(r) == chain_failure(chain@, value@),
        r matches Some(k) ==> k < chain@.len(),
{
    let mut i: usize = 0;
    assert(chain@ =~= chain@.subrange(0, chain@.len() as int));
    while i < chain.len()
        invariant
            i <= chain@.len(),
            chain_failure(chain@, value@) == match chain_failure(
                chain@.subrange(i as int, chain@.len() as int),
                value@,
            ) {
                Some(k) => Some(k + i),
                None => None,
            },
        decreases chain@.len() - i,
    {
        let ghost rest = chain@.subrange(i as int, chain@.len() as int);
        assert(rest.drop_first() =~= chain@.subrange(i + 1, chain@.len() as int));
        if !chain[i].check(value) {
            return Some(i);
        }
        i = i + 1;
    }
    None
}

fn first_failure_scalar(chain: &Vec<Validator>, s: &Scalar) -> (r: Option<usize>)
    ensures
        opt_index(r) == chain_failure(chain@, ValueModel::Scalar(s@)),
        r matches Some(k) ==> k < chain@.len(),
{
    let mut i: usize = 0;
    assert(chain@ =~= chain@.subrange(0, chain@.len() as int));
    while i < chain.len()
        invariant
            i <= chain@.len(),
            chain_failure(chain@, ValueModel::Scalar(s@)) == match chain_failure(
                chain@.subrange(i as int, chain@.len() as int),
                ValueModel::Scalar(s@),
            ) {
                Some(k) => Some(k + i),
                None => None,
            },
        decreases chain@.len() - i,
    {
        let ghost rest = chain@.subrange(i as int, chain@.len() as int);
        assert(rest.drop_first() =~= chain@.subrange(i + 1, chain@.len() as int));
        if !chain[i].check_scalar(s) {
            return Some(i);
        }
        i = i + 1;
    }
    None
}

/// Runs the chain on each scalar that `value` holds, in order; the index of the first
/// validator that fails.
pub fn first_failure_each(chain: &Vec<Validator>, value: &Value) -> (r: Option<usize>)
    ensures
        opt_index(r) == each_failure(chain@, elements(value@)),
        r matches Some(k) ==> k < chain@.len(),
    decreases *value,
{
    match value {
        Value::Scalar(s) => {
            let r = first_failure_scalar(chain, s);
            assert(elements(value@) == seq![s@]);
            assert(seq![s@].drop_first() =~= Seq::<ScalarModel>::empty());
            assert(each_failure(chain@, Seq::<ScalarModel>::empty()) is None);
            r
        },
        Value::List(vs) => {
            let ghost m = vs@.map_values(|s: Scalar| s@);
            let mut i: usize = 0;
            assert(m =~= m.subrange(0, m.len() as int));
            while i < vs.len()
                invariant
                    m == vs@.map_values(|s: Scalar| s@),
                    elements(value@) == m,
                    i <= vs@.len(),
                    each_failure(chain@, m) == each_failure(
                        chain@,
                        m.subrange(i as int, m.len() as int),
                    ),
                decreases vs@.len() - i,
            {
                let ghost rest = m.subrange(i as int, m.len() as int);
                assert(rest.drop_first() =~= m.subrange(i + 1, m.len() as int));
                assert(rest[0] == vs@[i as int]@);
                match first_failure_scalar(chain, &vs[i]) {
                    Some(k) => {
                        return Some(k);
                    },
                    None => {},
                }
                i = i + 1;
            }
            None
        },
        Value::Absent => None,
        Value::Present(b) => first_failure_each(chain, b),
    }
}

/// Records the constraints of the chain in a schema, left to right.
pub fn update_meta_chain(chain: &Vec<Validator>, meta: &mut SchemaMeta)
    ensures
        *final(meta) == apply_chain(chain@, *old(meta)),
{
    let mut i: usize = 0;
    assert(chain@ =~= chain@.subrange(0, chain@.len() as int));
    while i < chain.len()
        invariant
            i <= chain@.len(),
            apply_chain(chain@, *old(meta)) == apply_chain(
                chain@.subrange(i as int, chain@.len() as int),
                *meta,
            ),
        decreases chain@.len() - i,
    {
        let ghost rest = chain@.subrange(i as int, chain@.len() as int);
        assert(rest.drop_first() =~= chain@.subrange(i + 1, chain@.len() as int));
        chain[i].update_meta(meta);
        i = i + 1;
    }
}

} // verus!
