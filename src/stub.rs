use vstd::prelude::*;
use std::collections::HashMap;
use crate::registry::lists_entries;
use crate::selection::{
    Directive, DirectiveName, Field, QueryError, Selection, Value, skip_spec, is_skip,
};

verus! {

broadcast use vstd::std_specs::hash::group_hash_axioms;

/// A named fragment and the index of its selection set.
#[derive(Debug)]
pub struct FragmentDefinition {
    pub name: String,
    pub selection_set: usize,
}

/// A top-level definition of a parsed document.
#[derive(Debug)]
pub enum Definition {
    Subscription { name: Option<String>, selection_set: usize },
    Fragment(FragmentDefinition),
    Other,
}

/// A parsed document: its definitions and the arena of selection sets they refer to.
#[derive(Debug)]
pub struct Document {
    pub sets: Vec<Vec<Selection>>,
    pub definitions: Vec<Definition>,
}

/// The subscription root type: for each of its fields, the event type that satisfies it.
#[derive(Debug)]
pub struct SubscriptionRoot {
    pub name: String,
    pub fields: Vec<(String, u64)>,
}

/// The first fragment named `name`.
pub open spec fn find_fragment(frags: Seq<FragmentDefinition>, name: Seq<char>) -> Option<FragmentDefinition>
    decreases frags.len(),
{
    if frags.len() == 0 {
        None
    } else if frags[0].name@ == name {
        Some(frags[0])
    } else {
        find_fragment(frags.subrange(1, frags.len() as int), name)
    }
}

/// The event type of the first root field named `name`.
pub open spec fn event_type_of(fields: Seq<(String, u64)>, name: Seq<char>) -> Option<u64>
    decreases fields.len(),
{
    if fields.len() == 0 {
        None
    } else if fields[0].0@ == name {
        Some(fields[0].1)
    } else {
        event_type_of(fields.subrange(1, fields.len() as int), name)
    }
}

/// Records `f` under `id` unless a field is already recorded there.
pub open spec fn record(acc: Map<u64, Field>, id: u64, f: Field) -> Map<u64, Field> {
    if acc.contains_key(id) {
        acc
    } else {
        acc.insert(id, f)
    }
}

/// What compiling the selections of set `set`, from position `i` on, does to the map
/// `acc`: fields are recorded under their event type, omitted selections are passed
/// over, fragments are entered; `budget` bounds how deep fragments may nest.
pub open spec fn compile_from(
    root: Seq<(String, u64)>,
    sets: Seq<Vec<Selection>>,
    frags: Seq<FragmentDefinition>,
    vars: Seq<(String, Value)>,
    set: int,
    i: int,
    budget: nat,
    acc: Map<u64, Field>,
) -> Result<Map<u64, Field>, QueryError>
    decreases budget, sets[set]@.len() - i,
{
    if set < 0 || set >= sets.len() {
        Err(QueryError::DanglingSelectionSet)
    } else if i < 0 || i >= sets[set]@.len() {
        Ok(acc)
    } else {
        match sets[set]@[i] {
            Selection::Field { field, directives } => match skip_spec(vars, directives@) {
                Err(e) => Err(e),
                Ok(true) => compile_from(root, sets, frags, vars, set, i + 1, budget, acc),
                Ok(false) => match event_type_of(root, field.name@) {
                    None => Err(QueryError::FieldNotFound { name: field.name }),
                    Some(id) => compile_from(
                        root, sets, frags, vars, set, i + 1, budget, record(acc, id, field)),
                },
            },
            Selection::FragmentSpread { fragment_name, directives } => match skip_spec(vars, directives@) {
                Err(e) => Err(e),
                Ok(true) => compile_from(root, sets, frags, vars, set, i + 1, budget, acc),
                Ok(false) => match find_fragment(frags, fragment_name@) {
                    None => Err(QueryError::UnknownFragment { name: fragment_name }),
                    Some(fd) => if budget == 0 {
                        Err(QueryError::FragmentCycle { name: fragment_name })
                    } else {
                        match compile_from(
                            root, sets, frags, vars, fd.selection_set as int, 0, (budget - 1) as nat, acc)
                        {
                            Err(e) => Err(e),
                            Ok(m) => compile_from(root, sets, frags, vars, set, i + 1, budget, m),
                        }
                    },
                },
            },
            Selection::InlineFragment { directives, selection_set } => match skip_spec(vars, directives@) {
                Err(e) => Err(e),
                Ok(true) => compile_from(root, sets, frags, vars, set, i + 1, budget, acc),
                Ok(false) => if budget == 0 {
                    Err(QueryError::SelectionCycle)
                } else {
                    match compile_from(
                        root, sets, frags, vars, selection_set as int, 0, (budget - 1) as nat, acc)
                    {
                        Err(e) => Err(e),
                        Ok(m) => compile_from(root, sets, frags, vars, set, i + 1, budget, m),
                    }
                },
            },
        }
    }
}

/// Finds the first fragment named `name`.
pub fn lookup_fragment<'a>(frags: &'a Vec<FragmentDefinition>, name: &String) -> (r: Option<&'a FragmentDefinition>)
    ensures
        r is None <==> find_fragment(frags@, name@) is None,
        r is Some ==> find_fragment(frags@, name@) == Some(*r->0),
{
    let mut i: usize = 0;
    assert(frags@.subrange(0, frags@.len() as int) =~= frags@);
    while i < frags.len()
        invariant
            i <= frags@.len(),
            find_fragment(frags@, name@) == find_fragment(frags@.subrange(i as int, frags@.len() as int), name@),
        decreases frags@.len() - i,
    {
        let ghost rest = frags@.subrange(i as int, frags@.len() as int);
        assert(rest.subrange(1, rest.len() as int) =~= frags@.subrange(i + 1, frags@.len() as int));
        if frags[i].name == *name {
            return Some(&frags[i]);
        }
        i = i + 1;
    }
    None
}

impl SubscriptionRoot {
    /// The event type that satisfies the root field `name`.
    pub fn event_type(&self, name: &String) -> (r: Option<u64>)
        ensures
            r == event_type_of(self.fields@, name@),
    {
        let mut i: usize = 0;
        assert(self.fields@.subrange(0, self.fields@.len() as int) =~= self.fields@);
        while i < self.fields.len()
            invariant
                i <= self.fields@.len(),
                event_type_of(self.fields@, name@) == event_type_of(
                    self.fields@.subrange(i as int, self.fields@.len() as int), name@),
            decreases self.fields@.len() - i,
        {
            let ghost rest = self.fields@.subrange(i as int, self.fields@.len() as int);
            assert(rest.subrange(1, rest.len() as int) =~= self.fields@.subrange(i + 1, self.fields@.len() as int));
            if self.fields[i].0 == *name {
                return Some(self.fields[i].1);
            }
            i = i + 1;
        }
        None
    }
}

/// A read-only view over one selection set of a document, with the document's
/// selection sets, its fragment table and the request's variable bindings.
pub struct SelectionContext<'a> {
    pub sets: &'a Vec<Vec<Selection>>,
    pub fragments: &'a Vec<FragmentDefinition>,
    pub variables: &'a Vec<(String, Value)>,
    pub set: usize,
}

impl<'a> SelectionContext<'a> {
    /// Evaluates `@skip(if:)` / `@include(if:)` against the variable bindings.
    pub fn is_skip(&self, ds: &Vec<Directive>) -> (r: Result<bool, QueryError>)
        ensures
            r == skip_spec(self.variables@, ds@),
    {
        is_skip(self.variables, ds)
    }

    /// The same context, pointed at another selection set.
    pub fn with_selection_set(&self, set: usize) -> (r: SelectionContext<'a>)
        ensures
            r.sets == self.sets,
            r.fragments == self.fragments,
            r.variables == self.variables,
            r.set == set,
    {
        SelectionContext { sets: self.sets, fragments: self.fragments, variables: self.variables, set }
    }
}

/// Walks the context's selection set depth first and records, for every event type
/// the subscription reacts to, the field to render for it. Fragments may nest at
/// most `budget` deep.
pub fn create_subscription_types(
    root: &SubscriptionRoot,
    ctx: &SelectionContext,
    budget: usize,
    types: &mut HashMap<u64, Field>,
) -> (r: Result<(), QueryError>)
    ensures
        match compile_from(
            root.fields@, ctx.sets@, ctx.fragments@, ctx.variables@, ctx.set as int, 0, budget as nat,
            old(types)@)
        {
            Ok(m) => r is Ok && final(types)@ == m,
            Err(e) => r is Err && r->Err_0 == e,
        },
    decreases budget,
{
    let sets = ctx.sets;
    let frags = ctx.fragments;
    let vars = ctx.variables;
    let set = ctx.set;
    if set >= sets.len() {
        return Err(QueryError::DanglingSelectionSet);
    }
    let items = &sets[set];
    let mut i: usize = 0;
    while i < items.len()
        invariant
            sets == ctx.sets,
            frags == ctx.fragments,
            vars == ctx.variables,
            set == ctx.set,
            set < sets@.len(),
            items == sets@[set as int],
            i <= items@.len(),
            compile_from(root.fields@, sets@, frags@, vars@, set as int, 0, budget as nat, old(types)@)
                == compile_from(root.fields@, sets@, frags@, vars@, set as int, i as int, budget as nat, types@),
        decreases items@.len() - i,
    {
        match &items[i] {
            Selection::Field { field, directives } => {
                match ctx.is_skip(directives) {
                    Err(e) => {
                        return Err(e);
                    },
                    Ok(true) => {},
                    Ok(false) => match root.event_type(&field.name) {
                        None => {
                            return Err(QueryError::FieldNotFound { name: field.name.clone() });
                        },
                        Some(id) => {
                            if !types.contains_key(&id) {
                                types.insert(id, field.duplicate());
                            }
                        },
                    },
                }
            },
            Selection::FragmentSpread { fragment_name, directives } => {
                match ctx.is_skip(directives) {
                    Err(e) => {
                        return Err(e);
                    },
                    Ok(true) => {},
                    Ok(false) => match lookup_fragment(frags, fragment_name) {
                        None => {
                            return Err(QueryError::UnknownFragment { name: fragment_name.clone() });
                        },
                        Some(fd) => {
                            if budget == 0 {
                                return Err(QueryError::FragmentCycle { name: fragment_name.clone() });
                            }
                            let inner = ctx.with_selection_set(fd.selection_set);
                            let sub = create_subscription_types(root, &inner, budget - 1, types);
                            if let Err(e) = sub {
                                return Err(e);
                            }
                        },
                    },
                }
            },
            Selection::InlineFragment { directives, selection_set } => {
                match ctx.is_skip(directives) {
                    Err(e) => {
                        return Err(e);
                    },
                    Ok(true) => {},
                    Ok(false) => {
                        if budget == 0 {
                            return Err(QueryError::SelectionCycle);
                        }
                        let inner = ctx.with_selection_set(*selection_set);
                        let sub = create_subscription_types(root, &inner, budget - 1, types);
                        if let Err(e) = sub {
                            return Err(e);
                        }
                    },
                }
            },
        }
        i = i + 1;
    }
    Ok(())
}

/// The fragment definitions of a document, in order.
pub open spec fn fragments_of(defs: Seq<Definition>) -> Seq<FragmentDefinition>
    decreases defs.len(),
{
    if defs.len() == 0 {
        Seq::empty()
    } else {
        let prev = fragments_of(defs.drop_last());
        match defs.last() {
            Definition::Fragment(f) => prev.push(f),
            _ => prev,
        }
    }
}

pub open spec fn opt_view(o: Option<String>) -> Option<Seq<char>> {
    match o {
        Some(s) => Some(s@),
        None => None,
    }
}

/// The selection set of the first subscription operation whose name is `name`.
pub open spec fn find_subscription(defs: Seq<Definition>, name: Option<Seq<char>>) -> Option<usize>
    decreases defs.len(),
{
    if defs.len() == 0 {
        None
    } else {
        match defs[0] {
            Definition::Subscription { name: n, selection_set } if opt_view(n) == name => Some(selection_set),
            _ => find_subscription(defs.subrange(1, defs.len() as int), name),
        }
    }
}

/// The event-type mapping that a subscription request compiles to, or its error.
pub open spec fn stub_types(
    root: Seq<(String, u64)>,
    doc: Document,
    operation_name: Option<String>,
    vars: Seq<(String, Value)>,
) -> Result<Map<u64, Field>, QueryError> {
    match find_subscription(doc.definitions@, opt_view(operation_name)) {
        None => match operation_name {
            Some(n) => Err(QueryError::UnknownOperationNamed { name: n }),
            None => Err(QueryError::MissingOperation),
        },
        Some(set) => compile_from(
            root, doc.sets@, fragments_of(doc.definitions@), vars, set as int, 0,
            doc.sets@.len(), Map::empty()),
    }
}

/// The field an event of type `ty` is rendered with, or `None` when no frame is produced.
pub open spec fn rendered(types: Map<u64, Field>, ty: u64) -> Option<Field> {
    if types.contains_key(ty) {
        Some(types[ty])
    } else {
        None
    }
}

/// A compiled subscription operation: for each event type it reacts to, the field
/// to render when an event of that type arrives.
pub struct SubscriptionStub {
    pub types: HashMap<u64, Field>,
    pub variables: Vec<(String, Value)>,
    pub fragments: Vec<FragmentDefinition>,
    pub sets: Vec<Vec<Selection>>,
}

fn same_name(a: &Option<String>, b: &Option<String>) -> (r: bool)
    ensures
        r == (opt_view(*a) == opt_view(*b)),
{
    match a {
        None => match b {
            None => true,
            Some(_) => false,
        },
        Some(x) => match b {
            Some(y) => *x == *y,
            None => false,
        },
    }
}

/// Collects the fragment definitions of a document.
pub fn collect_fragments(defs: &Vec<Definition>) -> (r: Vec<FragmentDefinition>)
    ensures
        r@ == fragments_of(defs@),
{
    let mut out: Vec<FragmentDefinition> = Vec::new();
    let mut i: usize = 0;
    while i < defs.len()
        invariant
            i <= defs@.len(),
            out@ == fragments_of(defs@.subrange(0, i as int)),
        decreases defs@.len() - i,
    {
        assert(defs@.subrange(0, i + 1).drop_last() =~= defs@.subrange(0, i as int));
        if let Definition::Fragment(f) = &defs[i] {
            out.push(FragmentDefinition { name: f.name.clone(), selection_set: f.selection_set });
        }
        i = i + 1;
    }
    assert(defs@.subrange(0, defs@.len() as int) =~= defs@);
    out
}

/// Finds the selection set of the subscription operation named `name`.
pub fn select_subscription(defs: &Vec<Definition>, name: &Option<String>) -> (r: Option<usize>)
    ensures
        r == find_subscription(defs@, opt_view(*name)),
{
    let mut i: usize = 0;
    assert(defs@.subrange(0, defs@.len() as int) =~= defs@);
    while i < defs.len()
        invariant
            i <= defs@.len(),
            find_subscription(defs@, opt_view(*name)) == find_subscription(
                defs@.subrange(i as int, defs@.len() as int), opt_view(*name)),
        decreases defs@.len() - i,
    {
        let ghost rest = defs@.subrange(i as int, defs@.len() as int);
        assert(rest.subrange(1, rest.len() as int) =~= defs@.subrange(i + 1, defs@.len() as int));
        if let Definition::Subscription { name: n, selection_set } = &defs[i] {
            if same_name(n, name) {
                return Some(*selection_set);
            }
        }
        i = i + 1;
    }
    None
}

/// Compiles a subscription request against the subscription root: picks the
/// operation by name and maps each event type it reacts to onto its field.
pub fn compile_subscription(
    root: &SubscriptionRoot,
    doc: Document,
    operation_name: Option<String>,
    variables: Vec<(String, Value)>,
) -> (r: Result<SubscriptionStub, QueryError>)
    ensures
        match stub_types(root.fields@, doc, operation_name, variables@) {
            Ok(m) => r is Ok && r->Ok_0.types@ == m && r->Ok_0.variables@ == variables@,
            Err(e) => r is Err && r->Err_0 == e,
        },
{
    let found = select_subscription(&doc.definitions, &operation_name);
    let set = match found {
        None => {
            return match operation_name {
                Some(n) => Err(QueryError::UnknownOperationNamed { name: n }),
                None => Err(QueryError::MissingOperation),
            };
        },
        Some(set) => set,
    };
    let fragments = collect_fragments(&doc.definitions);
    let mut types: HashMap<u64, Field> = HashMap::new();
    let ctx = SelectionContext { sets: &doc.sets, fragments: &fragments, variables: &variables, set };
    let res = create_subscription_types(root, &ctx, doc.sets.len(), &mut types);
    match res {
        Err(e) => Err(e),
        Ok(()) => Ok(SubscriptionStub { types, variables, fragments, sets: doc.sets }),
    }
}

impl SubscriptionStub {
    /// The field to render for an event of type `event_type`; `None` when the
    /// subscription does not react to that type and the event is dropped.
    pub fn field_for(&self, event_type: u64) -> (r: Option<&Field>)
        ensures
            r is Some <==> rendered(self.types@, event_type) is Some,
            r is Some ==> Some(*r->0) == rendered(self.types@, event_type),
    {
        self.types.get(&event_type)
    }
}

/// Whether a directive list is the single `@skip(if: true)` or `@include(if: false)`.
pub open spec fn omits(ds: Seq<Directive>) -> bool {
    ds.len() == 1 && (
        (ds[0].name == DirectiveName::Skip && ds[0].condition == Some(Value::Boolean(true)))
        || (ds[0].name == DirectiveName::Include && ds[0].condition == Some(Value::Boolean(false))))
}

/// Whether a directive list is the single `@skip(if: false)` or `@include(if: true)`.
pub open spec fn keeps(ds: Seq<Directive>) -> bool {
    ds.len() == 1 && (
        (ds[0].name == DirectiveName::Skip && ds[0].condition == Some(Value::Boolean(false)))
        || (ds[0].name == DirectiveName::Include && ds[0].condition == Some(Value::Boolean(true))))
}

/// A field under `@skip(if: true)` or `@include(if: false)` adds nothing to the
/// compiled mapping: compiling from it on gives what compiling from the next
/// selection gives.
pub proof fn lemma_omitted_field_absent(
    root: Seq<(String, u64)>,
    sets: Seq<Vec<Selection>>,
    frags: Seq<FragmentDefinition>,
    vars: Seq<(String, Value)>,
    set: int,
    i: int,
    budget: nat,
    acc: Map<u64, Field>,
)
    requires
        0 <= set < sets.len(),
        0 <= i < sets[set]@.len(),
        sets[set]@[i] is Field,
        omits(sets[set]@[i]->Field_directives@),
    ensures
        compile_from(root, sets, frags, vars, set, i, budget, acc)
            == compile_from(root, sets, frags, vars, set, i + 1, budget, acc),
{
    let ds = sets[set]@[i]->Field_directives@;
    assert(ds.subrange(1, ds.len() as int) =~= Seq::<Directive>::empty());
}

/// A field under `@skip(if: false)` or `@include(if: true)` of a known root field is
/// recorded under its event type, unless that type already has a field.
pub proof fn lemma_kept_field_present(
    root: Seq<(String, u64)>,
    sets: Seq<Vec<Selection>>,
    frags: Seq<FragmentDefinition>,
    vars: Seq<(String, Value)>,
    set: int,
    i: int,
    budget: nat,
    acc: Map<u64, Field>,
    id: u64,
)
    requires
        0 <= set < sets.len(),
        0 <= i < sets[set]@.len(),
        sets[set]@[i] is Field,
        keeps(sets[set]@[i]->Field_directives@),
        event_type_of(root, sets[set]@[i]->Field_field.name@) == Some(id),
    ensures
        compile_from(root, sets, frags, vars, set, i, budget, acc)
            == compile_from(root, sets, frags, vars, set, i + 1, budget, record(acc, id, sets[set]@[i]->Field_field)),
{
    let ds = sets[set]@[i]->Field_directives@;
    assert(ds.subrange(1, ds.len() as int) =~= Seq::<Directive>::empty());
    assert(skip_spec(vars, ds.subrange(1, ds.len() as int)) is Ok);
    assert(skip_spec(vars, ds) == skip_spec(vars, ds.subrange(1, ds.len() as int)));
}

/// Spreading a fragment that the document does not define fails with an error that
/// names the fragment, whatever has been recorded so far.
pub proof fn lemma_unknown_fragment(
    root: Seq<(String, u64)>,
    sets: Seq<Vec<Selection>>,
    frags: Seq<FragmentDefinition>,
    vars: Seq<(String, Value)>,
    set: int,
    i: int,
    budget: nat,
    acc: Map<u64, Field>,
)
    requires
        0 <= set < sets.len(),
        0 <= i < sets[set]@.len(),
        sets[set]@[i] is FragmentSpread,
        sets[set]@[i]->FragmentSpread_directives@.len() == 0,
        find_fragment(frags, sets[set]@[i]->fragment_name@) is None,
    ensures
        compile_from(root, sets, frags, vars, set, i, budget, acc)
            == Err::<Map<u64, Field>, QueryError>(QueryError::UnknownFragment { name: sets[set]@[i]->fragment_name }),
{
}

/// A selection set whose only selection is a spread of a fragment that holds two
/// undirected fields of two different event types compiles to a mapping of exactly
/// two entries, each holding its own field.
pub proof fn lemma_fragment_resolution(
    root: Seq<(String, u64)>,
    sets: Seq<Vec<Selection>>,
    frags: Seq<FragmentDefinition>,
    vars: Seq<(String, Value)>,
    set: int,
    budget: nat,
    fd: FragmentDefinition,
    t1: u64,
    t2: u64,
)
    requires
        0 <= set < sets.len(),
        sets[set]@.len() == 1,
        sets[set]@[0] is FragmentSpread,
        sets[set]@[0]->FragmentSpread_directives@.len() == 0,
        find_fragment(frags, sets[set]@[0]->fragment_name@) == Some(fd),
        fd.selection_set < sets.len(),
        sets[fd.selection_set as int]@.len() == 2,
        sets[fd.selection_set as int]@[0] is Field,
        sets[fd.selection_set as int]@[0]->Field_directives@.len() == 0,
        sets[fd.selection_set as int]@[1] is Field,
        sets[fd.selection_set as int]@[1]->Field_directives@.len() == 0,
        event_type_of(root, sets[fd.selection_set as int]@[0]->Field_field.name@) == Some(t1),
        event_type_of(root, sets[fd.selection_set as int]@[1]->Field_field.name@) == Some(t2),
        t1 != t2,
        budget >= 1,
    ensures
        compile_from(root, sets, frags, vars, set, 0, budget, Map::empty())
            == Ok::<Map<u64, Field>, QueryError>(map![
                t1 => sets[fd.selection_set as int]@[0]->Field_field,
                t2 => sets[fd.selection_set as int]@[1]->Field_field,
            ]),
{
    let fs = fd.selection_set as int;
    let f1 = sets[fs]@[0]->Field_field;
    let f2 = sets[fs]@[1]->Field_field;
    let b = (budget - 1) as nat;
    let m1 = record(Map::empty(), t1, f1);
    let m2 = record(m1, t2, f2);
    assert(compile_from(root, sets, frags, vars, fs, 2, b, m2) == Ok::<Map<u64, Field>, QueryError>(m2));
    assert(compile_from(root, sets, frags, vars, fs, 1, b, m1) == compile_from(root, sets, frags, vars, fs, 2, b, m2));
    assert(compile_from(root, sets, frags, vars, fs, 0, b, Map::empty())
        == compile_from(root, sets, frags, vars, fs, 1, b, m1));
    assert(compile_from(root, sets, frags, vars, set, 1, budget, m2) == Ok::<Map<u64, Field>, QueryError>(m2));
    assert(m2 =~= map![t1 => f1, t2 => f2]);
}

/// A request whose selected subscription spreads, first and without directives, a
/// fragment that the document does not define is refused with an error naming that
/// fragment, so no mapping comes out of it.
pub proof fn lemma_unknown_fragment_refused(
    root: Seq<(String, u64)>,
    doc: Document,
    operation_name: Option<String>,
    vars: Seq<(String, Value)>,
    set: usize,
)
    requires
        find_subscription(doc.definitions@, opt_view(operation_name)) == Some(set),
        set < doc.sets@.len(),
        doc.sets@[set as int]@.len() > 0,
        doc.sets@[set as int]@[0] is FragmentSpread,
        doc.sets@[set as int]@[0]->FragmentSpread_directives@.len() == 0,
        find_fragment(fragments_of(doc.definitions@), doc.sets@[set as int]@[0]->fragment_name@) is None,
    ensures
        stub_types(root, doc, operation_name, vars)
            == Err::<Map<u64, Field>, QueryError>(QueryError::UnknownFragment {
                name: doc.sets@[set as int]@[0]->fragment_name,
            }),
{
    lemma_unknown_fragment(
        root, doc.sets@, fragments_of(doc.definitions@), vars, set as int, 0, doc.sets@.len(), Map::empty());
}

/// A published event reaches every subscriber registered when it is published, and a
/// subscriber renders it, with the field its subscription recorded for the event's
/// type, exactly when that type is one its subscription reacts to.
pub proof fn lemma_publish_reaches_matching(
    reg: Map<usize, u64>,
    targets: Seq<(usize, u64)>,
    types: Map<u64, Field>,
    ty: u64,
    slot: usize,
)
    requires
        lists_entries(targets, reg),
        reg.contains_key(slot),
    ensures
        exists|i: int| 0 <= i < targets.len() && #[trigger] targets[i] == (slot, reg[slot]),
        rendered(types, ty) is Some <==> types.contains_key(ty),
        types.contains_key(ty) ==> rendered(types, ty) == Some(types[ty]),
{
    let i = choose|i: int| 0 <= i < targets.len() && #[trigger] targets[i].0 == slot;
    assert(targets[i] == (slot, reg[slot]));
}

} // verus!
