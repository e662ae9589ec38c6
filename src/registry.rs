use vstd::prelude::*;

use crate::json::same_text;
use crate::types::IntFormat;

verus! {

/// The kind tag of a schema.
#[derive(Clone, Copy, Debug, PartialEq, Eq)]
pub enum SchemaKind {
    String,
    Integer,
    Number,
    Boolean,
    Object,
    Array,
}

pub open spec fn kind_name(k: SchemaKind) -> Seq<char> {
    match k {
        SchemaKind::String => "string"@,
        SchemaKind::Integer => "integer"@,
        SchemaKind::Number => "number"@,
        SchemaKind::Boolean => "boolean"@,
        SchemaKind::Object => "object"@,
        SchemaKind::Array => "array"@,
    }
}

impl SchemaKind {
    pub fn name(&self) -> (r: &'static str)
        ensures
            r@ == kind_name(*self),
    {
        match self {
            SchemaKind::String => "string",
            SchemaKind::Integer => "integer",
            SchemaKind::Number => "number",
            SchemaKind::Boolean => "boolean",
            SchemaKind::Object => "object",
            SchemaKind::Array => "array",
        }
    }
}

/// The description of a type's shape and constraints.
pub struct SchemaMeta {
    pub ty: SchemaKind,
    pub format: Option<IntFormat>,
    pub maximum: Option<i128>,
    pub exclusive_maximum: Option<bool>,
    pub minimum: Option<i128>,
    pub exclusive_minimum: Option<bool>,
    pub multiple_of: Option<i128>,
    pub max_length: Option<usize>,
    pub min_length: Option<usize>,
    pub pattern: Option<String>,
    pub max_items: Option<usize>,
    pub min_items: Option<usize>,
    pub unique_items: Option<bool>,
    /// The element schema of an array.
    pub items: Option<Box<SchemaRef>>,
    /// The members of an object, in declaration order.
    pub properties: Vec<(String, SchemaRef)>,
}

/// A schema written out in place, or the name of a registry entry.
pub enum SchemaRef {
    Inline(Box<SchemaMeta>),
    Reference(String),
}

/// Whether `m` has no constraint set.
pub open spec fn unconstrained(m: SchemaMeta) -> bool {
    &&& m.maximum is None
    &&& m.exclusive_maximum is None
    &&& m.minimum is None
    &&& m.exclusive_minimum is None
    &&& m.multiple_of is None
    &&& m.max_length is None
    &&& m.min_length is None
    &&& m.pattern is None
    &&& m.max_items is None
    &&& m.min_items is None
    &&& m.unique_items is None
}

/// Whether `m` is the bare schema of kind `ty`: no format, constraint, items or properties.
pub open spec fn is_bare(m: SchemaMeta, ty: SchemaKind) -> bool {
    &&& m.ty == ty
    &&& m.format is None
    &&& unconstrained(m)
    &&& m.items is None
    &&& m.properties@.len() == 0
}

impl SchemaMeta {
    pub fn new(ty: SchemaKind) -> (r: SchemaMeta)
        ensures
            is_bare(r, ty),
    {
        SchemaMeta {
            ty,
            format: None,
            maximum: None,
            exclusive_maximum: None,
            minimum: None,
            exclusive_minimum: None,
            multiple_of: None,
            max_length: None,
            min_length: None,
            pattern: None,
            max_items: None,
            min_items: None,
            unique_items: None,
            items: None,
            properties: Vec::new(),
        }
    }
}

impl SchemaRef {
    /// The inline schema; the reference must be inline.
    pub fn unwrap_inline(&self) -> (r: &SchemaMeta)
        requires
            self is Inline,
        ensures
            *r == *self->Inline_0,
    {
        match self {
            SchemaRef::Inline(m) => m,
            SchemaRef::Reference(_) => unreached(),
        }
    }
}

/// The first entry named `name`.
pub open spec fn lookup(entries: Seq<(String, SchemaMeta)>, name: Seq<char>) -> Option<SchemaMeta>
    decreases entries.len(),
{
    if entries.len() == 0 {
        None
    } else if entries[0].0@ == name {
        Some(entries[0].1)
    } else {
        lookup(entries.drop_first(), name)
    }
}

/// The table of named schemas. Each name occurs once.
pub struct Registry {
    pub schemas: Vec<(String, SchemaMeta)>,
}

impl Registry {
    /// Each name occurs at most once.
    pub open spec fn wf(&self) -> bool {
        forall|i: int, j: int|
            0 <= i < j < self.schemas@.len() ==> #[trigger] self.schemas@[i].0@
                != #[trigger] self.schemas@[j].0@
    }

    /// The schema registered under `name`.
    pub open spec fn spec_get(&self, name: Seq<char>) -> Option<SchemaMeta> {
        lookup(self.schemas@, name)
    }

    pub fn new() -> (r: Registry)
        ensures
            r.wf(),
            forall|n: Seq<char>| r.spec_get(n) is None,
    {
        Registry { schemas: Vec::new() }
    }

    fn position(&self, name: &str) -> (r: Option<usize>)
        ensures
            r matches Some(i) ==> i < self.schemas@.len() && self.spec_get(name@) == Some(
                self.schemas@[i as int].1,
            ),
            r is None ==> self.spec_get(name@) is None,
    {
        let mut i: usize = 0;
        assert(self.schemas@ =~= self.schemas@.subrange(0, self.schemas@.len() as int));
        while i < self.schemas.len()
            invariant
                i <= self.schemas@.len(),
                lookup(self.schemas@, name@) == lookup(
                    self.schemas@.subrange(i as int, self.schemas@.len() as int),
                    name@,
                ),
            decreases self.schemas@.len() - i,
        {
            let ghost rest = self.schemas@.subrange(i as int, self.schemas@.len() as int);
            assert(rest.drop_first() =~= self.schemas@.subrange(i + 1, self.schemas@.len() as int));
            if same_text(self.schemas[i].0.as_str(), name) {
                return Some(i);
            }
            i = i + 1;
        }
        None
    }

    /// The schema registered under `name`.
    pub fn get(&self, name: &str) -> (r: Option<&SchemaMeta>)
        ensures
            r matches Some(m) ==> self.spec_get(name@) == Some(*m),
            r is None ==> self.spec_get(name@) is None,
    {
        match self.position(name) {
            Some(i) => Some(&self.schemas[i].1),
            None => None,
        }
    }

    /// The schema that `r` stands for: itself when inline, else the entry it names, which
    /// must be registered.
    pub fn resolve<'a>(&'a self, r: &'a SchemaRef) -> (m: &'a SchemaMeta)
        requires
            r matches SchemaRef::Reference(n) ==> self.spec_get(n@) is Some,
        ensures
            match r {
                SchemaRef::Inline(b) => *m == **b,
                SchemaRef::Reference(n) => self.spec_get(n@) == Some(*m),
            },
    {
        match r {
            SchemaRef::Inline(b) => b,
            SchemaRef::Reference(n) => match self.get(n.as_str()) {
                Some(m) => m,
                None => unreached(),
            },
        }
    }

    pub fn contains(&self, name: &str) -> (r: bool)
        ensures
            r == self.spec_get(name@) is Some,
    {
        self.position(name).is_some()
    }

    /// Registers `meta` under `name` unless the name is taken; a taken name keeps its schema.
    pub fn insert(&mut self, name: String, meta: SchemaMeta)
        requires
            old(self).wf(),
        ensures
            final(self).wf(),
            old(self).spec_get(name@) is Some ==> *final(self) == *old(self),
            old(self).spec_get(name@) is None ==> final(self).spec_get(name@) == Some(meta),
            forall|n: Seq<char>| n != name@ ==> final(self).spec_get(n) == old(self).spec_get(n),
    {
        if self.contains(name.as_str()) {
            return;
        }
        let ghost before = self.schemas@;
        let ghost key = name@;
        let entry = (name, meta);
        let ghost added = entry;
        self.schemas.push(entry);
        proof {
            assert(self.schemas@ == before.push(added));
            assert forall|n: Seq<char>| #[trigger] lookup(self.schemas@, n) == (if n == key {
                Some(meta)
            } else {
                lookup(before, n)
            }) by {
                lemma_lookup_push(before, added, n);
            }
            assert forall|i: int, j: int|
                0 <= i < j < self.schemas@.len() implies #[trigger] self.schemas@[i].0@
                != #[trigger] self.schemas@[j].0@ by {
                if j == before.len() {
                    lemma_lookup_absent(before, key, i);
                } else {
                    assert(self.schemas@[i] == before[i]);
                    assert(self.schemas@[j] == before[j]);
                }
            }
        }
    }
}

proof fn lemma_lookup_absent(entries: Seq<(String, SchemaMeta)>, name: Seq<char>, i: int)
    requires
        lookup(entries, name) is None,
        0 <= i < entries.len(),
    ensures
        entries[i].0@ != name,
    decreases entries.len(),
{
    if i > 0 {
        lemma_lookup_absent(entries.drop_first(), name, i - 1);
    }
}

proof fn lemma_lookup_push(
    entries: Seq<(String, SchemaMeta)>,
    entry: (String, SchemaMeta),
    n: Seq<char>,
)
    requires
        lookup(entries, entry.0@) is None,
    ensures
        lookup(entries.push(entry), n) == (if n == entry.0@ {
            Some(entry.1)
        } else {
            lookup(entries, n)
        }),
    decreases entries.len(),
{
    if entries.len() > 0 {
        assert(entries.push(entry).drop_first() =~= entries.drop_first().push(entry));
        lemma_lookup_push(entries.drop_first(), entry, n);
        assert(entries.push(entry)[0] == entries[0]);
    } else {
        let rest = entries.push(entry).drop_first();
        assert(rest =~= Seq::<(String, SchemaMeta)>::empty());
        assert(lookup(rest, n) is None);
        assert(lookup(entries, n) is None);
    }
}

} // verus!
