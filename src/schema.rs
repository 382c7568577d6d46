use vstd::prelude::*;
use crate::selection::{DirectiveName, QueryError, Value};
use crate::stub::{Document, SubscriptionRoot, SubscriptionStub, compile_subscription, stub_types};

verus! {

/// A root object type of the schema: its name, and whether it is the empty
/// placeholder used when the schema has no such root.
#[derive(Debug)]
pub struct RootType {
    pub name: String,
    pub is_empty: bool,
}

/// The static type registry: the names of the root types and the directives the
/// executor understands.
#[derive(Debug)]
pub struct TypeRegistry {
    pub query_type: String,
    pub mutation_type: Option<String>,
    pub subscription_type: Option<String>,
    pub directives: Vec<DirectiveName>,
}

/// Everything a schema holds.
#[derive(Debug)]
pub struct SchemaInner {
    pub query: RootType,
    pub mutation: RootType,
    pub subscription: SubscriptionRoot,
    pub registry: TypeRegistry,
    pub disable_introspection: bool,
    pub data: Vec<(String, String)>,
    pub complexity: Option<usize>,
    pub depth: Option<usize>,
    pub extensions: Vec<String>,
}

/// Schema builder.
#[derive(Debug)]
pub struct SchemaBuilder(pub SchemaInner);

/// GraphQL schema, immutable once built.
#[derive(Debug)]
pub struct Schema(pub SchemaInner);

/// A query about to run: a fresh instance of every extension, the query text, and
/// no operation name or variables yet.
#[derive(Debug)]
pub struct QueryBuilder {
    pub extensions: Vec<String>,
    pub source: String,
    pub operation_name: Option<String>,
    pub variables: Option<Vec<(String, Value)>>,
}

/// The global data after binding `key` to `value`: an existing binding of the key is
/// replaced in place, otherwise the binding is appended.
pub open spec fn data_insert(d: Seq<(String, String)>, key: String, value: String) -> Seq<(String, String)> {
    if exists|i: int| 0 <= i < d.len() && #[trigger] d[i].0@ == key@ {
        let i = choose|i: int| 0 <= i < d.len() && #[trigger] d[i].0@ == key@ && (forall|j: int| 0 <= j < i ==> d[j].0@ != key@);
        d.update(i, (d[i].0, value))
    } else {
        d.push((key, value))
    }
}

fn copy_names(v: &Vec<String>) -> (r: Vec<String>)
    ensures
        r@ == v@,
{
    let mut out: Vec<String> = Vec::new();
    let mut i: usize = 0;
    while i < v.len()
        invariant
            i <= v@.len(),
            out@ == v@.subrange(0, i as int),
        decreases v@.len() - i,
    {
        out.push(v[i].clone());
        i = i + 1;
        assert(out@ =~= v@.subrange(0, i as int));
    }
    assert(v@.subrange(0, v@.len() as int) =~= v@);
    out
}

impl SchemaBuilder {
    /// Disable introspection queries.
    pub fn disable_introspection(self) -> (r: SchemaBuilder)
        ensures
            r.0 == (SchemaInner { disable_introspection: true, ..self.0 }),
    {
        let mut b = self;
        b.0.disable_introspection = true;
        b
    }

    /// Limit query complexity; by default there is no limit.
    pub fn limit_complexity(self, complexity: usize) -> (r: SchemaBuilder)
        ensures
            r.0 == (SchemaInner { complexity: Some(complexity), ..self.0 }),
    {
        let mut b = self;
        b.0.complexity = Some(complexity);
        b
    }

    /// Limit query depth; by default there is no limit.
    pub fn limit_depth(self, depth: usize) -> (r: SchemaBuilder)
        ensures
            r.0 == (SchemaInner { depth: Some(depth), ..self.0 }),
    {
        let mut b = self;
        b.0.depth = Some(depth);
        b
    }

    /// Add an extension; every query gets a fresh instance of each.
    pub fn extension(self, extension: String) -> (r: SchemaBuilder)
        ensures
            r.0.extensions@ == self.0.extensions@.push(extension),
            r.0.query == self.0.query,
            r.0.mutation == self.0.mutation,
            r.0.subscription == self.0.subscription,
            r.0.registry == self.0.registry,
            r.0.data == self.0.data,
            r.0.complexity == self.0.complexity,
            r.0.depth == self.0.depth,
            r.0.disable_introspection == self.0.disable_introspection,
    {
        let mut b = self;
        b.0.extensions.push(extension);
        b
    }

    /// Add global data that every query can read, replacing earlier data of the same key.
    pub fn data(self, key: String, value: String) -> (r: SchemaBuilder)
        ensures
            r.0.data@ == data_insert(self.0.data@, key, value),
            r.0.query == self.0.query,
            r.0.mutation == self.0.mutation,
            r.0.subscription == self.0.subscription,
            r.0.registry == self.0.registry,
            r.0.extensions == self.0.extensions,
            r.0.complexity == self.0.complexity,
            r.0.depth == self.0.depth,
            r.0.disable_introspection == self.0.disable_introspection,
    {
        let mut b = self;
        let ghost d0 = b.0.data@;
        let mut i: usize = 0;
        while i < b.0.data.len()
            invariant
                i <= d0.len(),
                b.0.data@ == d0,
                b.0.extensions == self.0.extensions,
                b.0.query == self.0.query,
                b.0.mutation == self.0.mutation,
                b.0.subscription == self.0.subscription,
                b.0.registry == self.0.registry,
                b.0.complexity == self.0.complexity,
                b.0.depth == self.0.depth,
                b.0.disable_introspection == self.0.disable_introspection,
                d0 == self.0.data@,
                forall|j: int| 0 <= j < i ==> d0[j].0@ != key@,
            decreases d0.len() - i,
        {
            if b.0.data[i].0 == key {
                let k = b.0.data[i].0.clone();
                b.0.data.set(i, (k, value));
                proof {
                    let c = choose|c: int| 0 <= c < d0.len() && #[trigger] d0[c].0@ == key@ && (forall|j: int| 0 <= j < c ==> d0[j].0@ != key@);
                    assert(c == i) by {
                        if c < i {
                        } else if c > i {
                            assert(d0[i as int].0@ == key@);
                        }
                    }
                }
                return b;
            }
            i = i + 1;
        }
        b.0.data.push((key, value));
        b
    }

    /// Build the schema.
    pub fn finish(self) -> (r: Schema)
        ensures
            r.0 == self.0,
    {
        Schema(self.0)
    }
}

impl Schema {
    /// Create a schema builder from the three roots. An empty mutation root or a
    /// subscription root without fields registers no type.
    pub fn build(query: RootType, mutation: RootType, subscription: SubscriptionRoot) -> (r: SchemaBuilder)
        ensures
            r.0.registry.query_type@ == query.name@,
            r.0.registry.mutation_type == (if mutation.is_empty { None } else { Some(mutation.name) }),
            r.0.registry.subscription_type == (if subscription.fields@.len() == 0 {
                None
            } else {
                Some(subscription.name)
            }),
            r.0.registry.directives@ == seq![DirectiveName::Include, DirectiveName::Skip],
            r.0.query == query,
            r.0.mutation == mutation,
            r.0.subscription == subscription,
            !r.0.disable_introspection,
            r.0.data@.len() == 0,
            r.0.complexity is None,
            r.0.depth is None,
            r.0.extensions@.len() == 0,
    {
        let mutation_type = if mutation.is_empty {
            None
        } else {
            Some(mutation.name.clone())
        };
        let subscription_type = if subscription.fields.len() == 0 {
            None
        } else {
            Some(subscription.name.clone())
        };
        let directives = vec![DirectiveName::Include, DirectiveName::Skip];
        let registry = TypeRegistry {
            query_type: query.name.clone(),
            mutation_type,
            subscription_type,
            directives,
        };
        SchemaBuilder(SchemaInner {
            query,
            mutation,
            subscription,
            registry,
            disable_introspection: false,
            data: Vec::new(),
            complexity: None,
            depth: None,
            extensions: Vec::new(),
        })
    }

    /// Create a schema with the default configuration.
    pub fn new(query: RootType, mutation: RootType, subscription: SubscriptionRoot) -> (r: Schema)
        ensures
            r.0.registry.query_type@ == query.name@,
            r.0.registry.mutation_type == (if mutation.is_empty { None } else { Some(mutation.name) }),
            r.0.registry.subscription_type == (if subscription.fields@.len() == 0 {
                None
            } else {
                Some(subscription.name)
            }),
            r.0.registry.directives@ == seq![DirectiveName::Include, DirectiveName::Skip],
            r.0.query == query,
            r.0.mutation == mutation,
            r.0.subscription == subscription,
            !r.0.disable_introspection,
            r.0.data@.len() == 0,
            r.0.complexity is None,
            r.0.depth is None,
            r.0.extensions@.len() == 0,
    {
        Self::build(query, mutation, subscription).finish()
    }

    /// Start a query.
    pub fn query(&self, source: String) -> (r: QueryBuilder)
        ensures
            r.extensions@ == self.0.extensions@,
            r.source == source,
            r.operation_name is None,
            r.variables is None,
    {
        QueryBuilder {
            extensions: copy_names(&self.0.extensions),
            source,
            operation_name: None,
            variables: None,
        }
    }

    /// Compile a subscription request against this schema's subscription root.
    pub fn create_subscription_stub(
        &self,
        doc: Document,
        operation_name: Option<String>,
        variables: Vec<(String, Value)>,
    ) -> (r: Result<SubscriptionStub, QueryError>)
        ensures
            match stub_types(self.0.subscription.fields@, doc, operation_name, variables@) {
                Ok(m) => r is Ok && r->Ok_0.types@ == m && r->Ok_0.variables@ == variables@,
                Err(e) => r is Err && r->Err_0 == e,
            },
    {
        compile_subscription(&self.0.subscription, doc, operation_name, variables)
    }
}

} // verus!
