use vstd::prelude::*;

verus! {

/// A literal or variable reference used as a directive argument.
#[derive(Debug)]
pub enum Value {
    Null,
    Boolean(bool),
    Int(i64),
    Str(String),
    Variable(String),
}

/// The name of a directive: the two standard ones, or any other.
#[derive(Debug)]
pub enum DirectiveName {
    Skip,
    Include,
    Other(String),
}

/// A directive with its optional `if` argument.
#[derive(Debug)]
pub struct Directive {
    pub name: DirectiveName,
    pub condition: Option<Value>,
}

/// A field selection: its name and, for an object field, the index of its
/// sub-selection in the document's arena of selection sets.
#[derive(Debug)]
pub struct Field {
    pub name: String,
    pub selection_set: Option<usize>,
}

/// One entry of a selection set. Nested selection sets are referred to by their
/// index in the document's arena.
#[derive(Debug)]
pub enum Selection {
    Field { field: Field, directives: Vec<Directive> },
    FragmentSpread { fragment_name: String, directives: Vec<Directive> },
    InlineFragment { directives: Vec<Directive>, selection_set: usize },
}

/// Errors raised while compiling a subscription operation.
#[derive(Debug)]
pub enum QueryError {
    UnknownFragment { name: String },
    FragmentCycle { name: String },
    SelectionCycle,
    DanglingSelectionSet,
    UnknownDirective { name: String },
    MissingDirectiveArgument,
    ExpectedBoolean,
    VarNotDefined { name: String },
    FieldNotFound { name: String },
    UnknownOperationNamed { name: String },
    MissingOperation,
}

/// The first binding of `name` among the variables, if any.
pub open spec fn lookup_var(vars: Seq<(String, Value)>, name: Seq<char>) -> Option<Value>
    decreases vars.len(),
{
    if vars.len() == 0 {
        None
    } else if vars[0].0@ == name {
        Some(vars[0].1)
    } else {
        lookup_var(vars.subrange(1, vars.len() as int), name)
    }
}

/// The boolean that a directive's `if` argument stands for after variable substitution.
pub open spec fn condition_value(vars: Seq<(String, Value)>, c: Option<Value>) -> Result<bool, QueryError> {
    match c {
        None => Err(QueryError::MissingDirectiveArgument),
        Some(Value::Variable(v)) => match lookup_var(vars, v@) {
            None => Err(QueryError::VarNotDefined { name: v }),
            Some(Value::Boolean(b)) => Ok(b),
            Some(_) => Err(QueryError::ExpectedBoolean),
        },
        Some(Value::Boolean(b)) => Ok(b),
        Some(_) => Err(QueryError::ExpectedBoolean),
    }
}

/// Whether a list of directives asks to omit what it annotates: the directives are read
/// in order, the first `@skip(if: true)` or `@include(if: false)` omits, the first
/// malformed or unknown directive is an error.
pub open spec fn skip_spec(vars: Seq<(String, Value)>, ds: Seq<Directive>) -> Result<bool, QueryError>
    decreases ds.len(),
{
    if ds.len() == 0 {
        Ok(false)
    } else {
        let rest = ds.subrange(1, ds.len() as int);
        match ds[0].name {
            DirectiveName::Other(n) => Err(QueryError::UnknownDirective { name: n }),
            DirectiveName::Skip => match condition_value(vars, ds[0].condition) {
                Err(e) => Err(e),
                Ok(true) => Ok(true),
                Ok(false) => skip_spec(vars, rest),
            },
            DirectiveName::Include => match condition_value(vars, ds[0].condition) {
                Err(e) => Err(e),
                Ok(false) => Ok(true),
                Ok(true) => skip_spec(vars, rest),
            },
        }
    }
}

impl Field {
    pub fn duplicate(&self) -> (r: Field)
        ensures
            r == *self,
    {
        Field { name: self.name.clone(), selection_set: self.selection_set }
    }
}

/// Looks up the first binding of `name` among the variables.
pub fn lookup_variable<'a>(vars: &'a Vec<(String, Value)>, name: &String) -> (r: Option<&'a Value>)
    ensures
        r is None <==> lookup_var(vars@, name@) is None,
        r is Some ==> lookup_var(vars@, name@) == Some(*r->0),
{
    let mut i: usize = 0;
    assert(vars@.subrange(0, vars@.len() as int) =~= vars@);
    while i < vars.len()
        invariant
            i <= vars@.len(),
            lookup_var(vars@, name@) == lookup_var(vars@.subrange(i as int, vars@.len() as int), name@),
        decreases vars@.len() - i,
    {
        let ghost rest = vars@.subrange(i as int, vars@.len() as int);
        assert(rest.subrange(1, rest.len() as int) =~= vars@.subrange(i + 1, vars@.len() as int));
        if vars[i].0 == *name {
            return Some(&vars[i].1);
        }
        i = i + 1;
    }
    None
}

/// Evaluates the `if` argument of a directive against the variable bindings.
pub fn eval_condition(vars: &Vec<(String, Value)>, c: &Option<Value>) -> (r: Result<bool, QueryError>)
    ensures
        r == condition_value(vars@, *c),
{
    match c {
        None => Err(QueryError::MissingDirectiveArgument),
        Some(Value::Variable(v)) => match lookup_variable(vars, v) {
            None => Err(QueryError::VarNotDefined { name: v.clone() }),
            Some(Value::Boolean(b)) => Ok(*b),
            Some(_) => Err(QueryError::ExpectedBoolean),
        },
        Some(Value::Boolean(b)) => Ok(*b),
        Some(_) => Err(QueryError::ExpectedBoolean),
    }
}

/// Evaluates `@skip(if:)` and `@include(if:)` over a directive list: `Ok(true)` when
/// the annotated selection must be omitted.
pub fn is_skip(vars: &Vec<(String, Value)>, ds: &Vec<Directive>) -> (r: Result<bool, QueryError>)
    ensures
        r == skip_spec(vars@, ds@),
{
    let mut i: usize = 0;
    assert(ds@.subrange(0, ds@.len() as int) =~= ds@);
    while i < ds.len()
        invariant
            i <= ds@.len(),
            skip_spec(vars@, ds@) == skip_spec(vars@, ds@.subrange(i as int, ds@.len() as int)),
        decreases ds@.len() - i,
    {
        let ghost rest = ds@.subrange(i as int, ds@.len() as int);
        assert(rest.subrange(1, rest.len() as int) =~= ds@.subrange(i + 1, ds@.len() as int));
        let d = &ds[i];
        match &d.name {
            DirectiveName::Other(n) => {
                return Err(QueryError::UnknownDirective { name: n.clone() });
            },
            DirectiveName::Skip => {
                let c = eval_condition(vars, &d.condition);
                match c {
                    Err(e) => {
                        return Err(e);
                    },
                    Ok(true) => {
                        return Ok(true);
                    },
                    Ok(false) => {},
                }
            },
            DirectiveName::Include => {
                let c = eval_condition(vars, &d.condition);
                match c {
                    Err(e) => {
                        return Err(e);
                    },
                    Ok(false) => {
                        return Ok(true);
                    },
                    Ok(true) => {},
                }
            },
        }
        i = i + 1;
    }
    assert(ds@.subrange(ds@.len() as int, ds@.len() as int) =~= Seq::<Directive>::empty());
    Ok(false)
}

} // verus!
