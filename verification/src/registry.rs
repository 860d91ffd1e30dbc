//! Schema descriptors and the registry of named schemas.

use vstd::prelude::*;

verus! {

/// The description of the JSON encoding of a shape.
#[derive(Debug)]
pub struct MetaSchema {
    /// The kind of the shape: "array", "object", "string", "integer", ...
    pub ty: String,
    /// A refinement of the kind, such as "int32".
    pub format: Option<String>,
    /// The schema of the elements of a homogeneous container.
    pub items: Option<Box<MetaSchemaRef>>,
    /// The greatest length allowed.
    pub max_length: Option<usize>,
    /// The least length allowed.
    pub min_length: Option<usize>,
}

/// A schema at its point of use: written out in place, or the name of an
/// entry of the registry.
#[derive(Debug)]
pub enum MetaSchemaRef {
    Inline(Box<MetaSchema>),
    Reference(String),
}

/// The model of a [`MetaSchema`].
pub struct SchemaData {
    pub ty: Seq<char>,
    pub format: Option<Seq<char>>,
    pub items: Option<Box<SchemaRefData>>,
    pub max_length: Option<nat>,
    pub min_length: Option<nat>,
}

/// The model of a [`MetaSchemaRef`].
pub enum SchemaRefData {
    Inline(Box<SchemaData>),
    Reference(Seq<char>),
}

impl SchemaData {
    /// The schema of kind `ty` with nothing else set.
    pub open spec fn new(ty: Seq<char>) -> SchemaData {
        SchemaData { ty, format: None, items: None, max_length: None, min_length: None }
    }
}

impl View for MetaSchema {
    type V = SchemaData;

    open spec fn view(&self) -> SchemaData
        decreases self,
    {
        SchemaData {
            ty: self.ty@,
            format: match self.format {
                Some(f) => Some(f@),
                None => None,
            },
            items: match self.items {
                Some(r) => Some(Box::new((*r)@)),
                None => None,
            },
            max_length: match self.max_length {
                Some(n) => Some(n as nat),
                None => None,
            },
            min_length: match self.min_length {
                Some(n) => Some(n as nat),
                None => None,
            },
        }
    }
}

impl View for MetaSchemaRef {
    type V = SchemaRefData;

    open spec fn view(&self) -> SchemaRefData
        decreases self,
    {
        match self {
            MetaSchemaRef::Inline(schema) => SchemaRefData::Inline(Box::new((**schema)@)),
            MetaSchemaRef::Reference(name) => SchemaRefData::Reference(name@),
        }
    }
}

impl MetaSchema {
    /// The schema of kind `ty` with nothing else set.
    pub fn new(ty: &str) -> (r: MetaSchema)
        ensures
            r@ == SchemaData::new(ty@),
    {
        MetaSchema {
            ty: ty.to_owned(),
            format: None,
            items: None,
            max_length: None,
            min_length: None,
        }
    }

    /// The schema of kind `ty` refined by `format`.
    pub fn new_with_format(ty: &str, format: &str) -> (r: MetaSchema)
        ensures
            r@ == (SchemaData { format: Some(format@), ..SchemaData::new(ty@) }),
    {
        MetaSchema {
            ty: ty.to_owned(),
            format: Some(format.to_owned()),
            items: None,
            max_length: None,
            min_length: None,
        }
    }

    /// Whether the two schemas describe the same shape.
    pub fn same_as(&self, other: &MetaSchema) -> (r: bool)
        ensures
            r == (self@ == other@),
        decreases self,
    {
        let formats = match (&self.format, &other.format) {
            (Some(a), Some(b)) => *a == *b,
            (None, None) => true,
            _ => false,
        };
        let items = match (&self.items, &other.items) {
            (Some(a), Some(b)) => a.same_as(b),
            (None, None) => true,
            _ => false,
        };
        let max_lengths = match (self.max_length, other.max_length) {
            (Some(a), Some(b)) => a == b,
            (None, None) => true,
            _ => false,
        };
        let min_lengths = match (self.min_length, other.min_length) {
            (Some(a), Some(b)) => a == b,
            (None, None) => true,
            _ => false,
        };
        self.ty == other.ty && formats && items && max_lengths && min_lengths
    }
}

impl MetaSchemaRef {
    /// Whether the two describe the same shape in the same way.
    pub fn same_as(&self, other: &MetaSchemaRef) -> (r: bool)
        ensures
            r == (self@ == other@),
        decreases self,
    {
        match (self, other) {
            (MetaSchemaRef::Inline(a), MetaSchemaRef::Inline(b)) => a.same_as(b),
            (MetaSchemaRef::Reference(a), MetaSchemaRef::Reference(b)) => *a == *b,
            _ => false,
        }
    }
}

impl PartialEq for MetaSchema {
    fn eq(&self, other: &MetaSchema) -> (r: bool) {
        self.same_as(other)
    }
}

impl vstd::std_specs::cmp::PartialEqSpecImpl for MetaSchema {
    open spec fn obeys_eq_spec() -> bool {
        true
    }

    open spec fn eq_spec(&self, other: &MetaSchema) -> bool {
        self@ == other@
    }
}

impl PartialEq for MetaSchemaRef {
    fn eq(&self, other: &MetaSchemaRef) -> (r: bool) {
        self.same_as(other)
    }
}

impl vstd::std_specs::cmp::PartialEqSpecImpl for MetaSchemaRef {
    open spec fn obeys_eq_spec() -> bool {
        true
    }

    open spec fn eq_spec(&self, other: &MetaSchemaRef) -> bool {
        self@ == other@
    }
}

/// What a registration found: the name was free and the entry was added, or
/// the name held an equal schema already.
#[derive(Clone, Copy, Debug, PartialEq, Eq, Structural)]
pub enum Registration {
    Added,
    Present,
}

/// Two different schemas were given the same name.
#[derive(Debug)]
pub struct SchemaConflict {
    /// The name that both claim.
    pub name: String,
}

/// Whether registering `schema` under `name` in `entries` is refused: the
/// name is taken by a different schema.
pub open spec fn conflicts(
    entries: Map<Seq<char>, SchemaData>,
    name: Seq<char>,
    schema: SchemaData,
) -> bool {
    entries.contains_key(name) && entries[name] != schema
}

/// The entries after `schema` was registered under `name`: a new entry where
/// the name was free, no change where it was taken.
pub open spec fn registered(
    entries: Map<Seq<char>, SchemaData>,
    name: Seq<char>,
    schema: SchemaData,
) -> Map<Seq<char>, SchemaData> {
    if entries.contains_key(name) {
        entries
    } else {
        entries.insert(name, schema)
    }
}

/// Registering a schema a second time under its name is accepted and changes
/// nothing: the name has one entry, which holds the schema.
pub proof fn lemma_register_twice(
    entries: Map<Seq<char>, SchemaData>,
    name: Seq<char>,
    schema: SchemaData,
)
    requires
        !conflicts(entries, name, schema),
    ensures
        !conflicts(registered(entries, name, schema), name, schema),
        registered(registered(entries, name, schema), name, schema) == registered(
            entries,
            name,
            schema,
        ),
        registered(entries, name, schema).dom() == entries.dom().insert(name),
        registered(entries, name, schema)[name] == schema,
        entries == Map::<Seq<char>, SchemaData>::empty() ==> registered(
            registered(entries, name, schema),
            name,
            schema,
        ).len() == 1,
{
    let once = registered(entries, name, schema);
    assert(once.dom() =~= entries.dom().insert(name));
    if entries == Map::<Seq<char>, SchemaData>::empty() {
        assert(once.dom() =~= Set::<Seq<char>>::empty().insert(name));
    }
}

/// Where a name holds one schema, registering a different schema under it is
/// refused, and the entry keeps the first schema.
pub proof fn lemma_conflict_is_reported(
    entries: Map<Seq<char>, SchemaData>,
    name: Seq<char>,
    first: SchemaData,
    second: SchemaData,
)
    requires
        !conflicts(entries, name, first),
        first != second,
    ensures
        conflicts(registered(entries, name, first), name, second),
        registered(registered(entries, name, first), name, second) == registered(
            entries,
            name,
            first,
        ),
        registered(registered(entries, name, first), name, second)[name] == first,
{
}

/// The store of named schemas, keyed by canonical name. Entries are added and
/// never removed or replaced.
pub struct Registry {
    schemas: Vec<(String, MetaSchema)>,
}

impl Registry {
    /// No name occurs twice.
    #[verifier::type_invariant]
    spec fn names_distinct(self) -> bool {
        forall|i: int, j: int|
            0 <= i < j < self.schemas@.len() ==> self.schemas@[i].0@ != self.schemas@[j].0@
    }

    /// Whether the entry at `i` is the one named `name`.
    spec fn holds_at(self, name: Seq<char>, i: int) -> bool {
        0 <= i < self.schemas@.len() && self.schemas@[i].0@ == name
    }

    /// The position of the entry named `name`.
    spec fn position(self, name: Seq<char>) -> int {
        choose|i: int| self.holds_at(name, i)
    }

    /// An empty registry.
    pub fn new() -> (r: Registry)
        ensures
            r@ == Map::<Seq<char>, SchemaData>::empty(),
    {
        let r = Registry { schemas: Vec::new() };
        assert(r@ =~= Map::<Seq<char>, SchemaData>::empty());
        r
    }

    /// The number of entries.
    pub fn len(&self) -> (r: usize)
        ensures
            self@.dom().finite(),
            r == self@.len(),
    {
        proof {
            use_type_invariant(self);
            self.lemma_count(self.schemas@.len() as int);
            assert(self.names_upto(self.schemas@.len() as int) =~= self@.dom());
        }
        self.schemas.len()
    }

    /// The schema registered under `name`, if there is one.
    pub fn lookup(&self, name: &String) -> (r: Option<&MetaSchema>)
        ensures
            match r {
                Some(schema) => self@.contains_key(name@) && schema@ == self@[name@],
                None => !self@.contains_key(name@),
            },
    {
        let mut i: usize = 0;
        while i < self.schemas.len()
            invariant
                0 <= i <= self.schemas@.len(),
                forall|j: int| 0 <= j < i ==> self.schemas@[j].0@ != name@,
            decreases self.schemas@.len() - i,
        {
            if self.schemas[i].0 == *name {
                proof {
                    use_type_invariant(self);
                    self.lemma_entry(i as int);
                }
                return Some(&self.schemas[i].1);
            }
            i += 1;
        }
        assert(!self@.contains_key(name@)) by {
            if self@.contains_key(name@) {
                assert(self.holds_at(name@, self.position(name@)));
            }
        }
        None
    }

    /// Registers `schema` under `name`. Where the name is free the entry is
    /// added. Where it is taken by an equal schema nothing changes. Where it
    /// is taken by a different schema the registry stays as it was and the
    /// conflict is reported.
    pub fn register(&mut self, name: String, schema: MetaSchema) -> (r: Result<
        Registration,
        SchemaConflict,
    >)
        ensures
            final(self)@ == registered(old(self)@, name@, schema@),
            match r {
                Ok(Registration::Added) => !old(self)@.contains_key(name@),
                Ok(Registration::Present) => old(self)@.contains_key(name@) && old(self)@[name@]
                    == schema@,
                Err(conflict) => conflicts(old(self)@, name@, schema@) && conflict.name@ == name@,
            },
    {
        let mut i: usize = 0;
        while i < self.schemas.len()
            invariant
                *self == *old(self),
                0 <= i <= self.schemas@.len(),
                forall|j: int| 0 <= j < i ==> self.schemas@[j].0@ != name@,
            decreases self.schemas@.len() - i,
        {
            if self.schemas[i].0 == name {
                proof {
                    use_type_invariant(&*self);
                    self.lemma_entry(i as int);
                }
                if self.schemas[i].1.same_as(&schema) {
                    return Ok(Registration::Present);
                } else {
                    return Err(SchemaConflict { name });
                }
            }
            i += 1;
        }
        assert(!self@.contains_key(name@)) by {
            if self@.contains_key(name@) {
                assert(self.holds_at(name@, self.position(name@)));
            }
        }
        proof {
            use_type_invariant(&*self);
        }
        let ghost before = *self;
        let ghost added = (name@, schema@);
        let mut schemas: Vec<(String, MetaSchema)> = Vec::new();
        core::mem::swap(&mut self.schemas, &mut schemas);
        schemas.push((name, schema));
        *self = Registry { schemas };
        proof {
            before.lemma_pushed(*self, added.0, added.1);
        }
        Ok(Registration::Added)
    }

    /// The names of the entries, in the order in which they were added.
    pub fn names(&self) -> (r: Vec<String>)
        ensures
            r@.len() == self@.len(),
            forall|i: int| 0 <= i < r@.len() ==> self@.contains_key(#[trigger] r@[i]@),
            forall|i: int, j: int| 0 <= i < j < r@.len() ==> r@[i]@ != r@[j]@,
            forall|name: Seq<char>| #[trigger]
                self@.contains_key(name) ==> exists|i: int| 0 <= i < r@.len() && r@[i]@ == name,
    {
        proof {
            use_type_invariant(self);
            self.lemma_count(self.schemas@.len() as int);
            assert(self.names_upto(self.schemas@.len() as int) =~= self@.dom());
        }
        let mut names: Vec<String> = Vec::with_capacity(self.schemas.len());
        let mut i: usize = 0;
        while i < self.schemas.len()
            invariant
                0 <= i <= self.schemas@.len(),
                names@.len() == i,
                forall|j: int| 0 <= j < i ==> (#[trigger] names@[j])@ == self.schemas@[j].0@,
            decreases self.schemas@.len() - i,
        {
            names.push(self.schemas[i].0.clone());
            i += 1;
        }
        proof {
            assert forall|j: int| 0 <= j < names@.len() implies self@.contains_key(
                #[trigger] names@[j]@,
            ) by {
                assert(self.holds_at(names@[j]@, j));
            }
            assert forall|name: Seq<char>| #[trigger] self@.contains_key(name) implies exists|
                j: int,
            |
                0 <= j < names@.len() && names@[j]@ == name by {
                let p = self.position(name);
                assert(self.holds_at(name, p));
                assert(names@[p]@ == name);
            }
        }
        names
    }

    /// The names of the first `n` entries.
    spec fn names_upto(self, n: int) -> Set<Seq<char>> {
        Set::new(|k: Seq<char>| exists|i: int| 0 <= i < n && self.holds_at(k, i))
    }

    /// The first `n` entries have `n` names.
    proof fn lemma_count(self, n: int)
        requires
            self.names_distinct(),
            0 <= n <= self.schemas@.len(),
        ensures
            self.names_upto(n).finite(),
            self.names_upto(n).len() == n,
        decreases n,
    {
        if n == 0 {
            assert(self.names_upto(0) =~= Set::<Seq<char>>::empty());
        } else {
            self.lemma_count(n - 1);
            let last = self.schemas@[n - 1].0@;
            assert(self.holds_at(last, n - 1));
            assert(self.names_upto(n) =~= self.names_upto(n - 1).insert(last));
            assert(!self.names_upto(n - 1).contains(last));
        }
    }

    /// With one entry more, under a name that was free, the view has that one
    /// entry more.
    proof fn lemma_pushed(self, after: Registry, name: Seq<char>, schema: SchemaData)
        requires
            self.names_distinct(),
            after.names_distinct(),
            !self@.contains_key(name),
            after.schemas@ == self.schemas@.push(after.schemas@.last()),
            after.schemas@.last().0@ == name,
            after.schemas@.last().1@ == schema,
        ensures
            after@ == self@.insert(name, schema),
    {
        let n = self.schemas@.len() as int;
        assert forall|k: Seq<char>| after@.contains_key(k) <==> self@.insert(
            name,
            schema,
        ).contains_key(k) by {
            if after@.contains_key(k) {
                let p = after.position(k);
                assert(after.holds_at(k, p));
                if p < n {
                    assert(self.holds_at(k, p));
                }
            }
            if self@.contains_key(k) {
                let p = self.position(k);
                assert(self.holds_at(k, p));
                assert(after.holds_at(k, p));
            }
            if k == name {
                assert(after.holds_at(k, n));
            }
        }
        assert forall|k: Seq<char>| after@.contains_key(k) implies after@[k] == self@.insert(
            name,
            schema,
        )[k] by {
            let p = after.position(k);
            assert(after.holds_at(k, p));
            if k == name {
                assert(after.holds_at(k, n));
            } else {
                assert(self.holds_at(k, p));
                assert(self.holds_at(k, self.position(k)));
            }
        }
        assert(after@ =~= self@.insert(name, schema));
    }

    /// The entry at `i` is what the view holds under its name.
    proof fn lemma_entry(self, i: int)
        requires
            self.names_distinct(),
            0 <= i < self.schemas@.len(),
        ensures
            self@.contains_key(self.schemas@[i].0@),
            self@[self.schemas@[i].0@] == self.schemas@[i].1@,
    {
        let name = self.schemas@[i].0@;
        assert(self.holds_at(name, i));
        let p = self.position(name);
        assert(self.holds_at(name, p));
        assert(p == i);
    }
}

impl Default for Registry {
    fn default() -> (r: Registry)
        ensures
            r@ == Map::<Seq<char>, SchemaData>::empty(),
    {
        Registry::new()
    }
}

impl View for Registry {
    type V = Map<Seq<char>, SchemaData>;

    closed spec fn view(&self) -> Map<Seq<char>, SchemaData> {
        Map::new(
            |name: Seq<char>| exists|i: int| self.holds_at(name, i),
            |name: Seq<char>| self.schemas@[self.position(name)].1@,
        )
    }
}

} // verus!
