use graphql_subs::selection::{
    is_skip, Directive, DirectiveName, Field, QueryError, Selection, Value,
};
use graphql_subs::stub::{
    compile_subscription, create_subscription_types, Definition, Document, FragmentDefinition, SelectionContext,
    SubscriptionRoot,
};
use std::collections::HashMap;

fn root() -> SubscriptionRoot {
    SubscriptionRoot {
        name: "Subscription".to_string(),
        fields: vec![("books".to_string(), 1), ("authors".to_string(), 2), ("values".to_string(), 3)],
    }
}

fn field(name: &str, directives: Vec<Directive>) -> Selection {
    Selection::Field { field: Field { name: name.to_string(), selection_set: None }, directives }
}

fn dir(name: DirectiveName, condition: Option<Value>) -> Directive {
    Directive { name, condition }
}

fn op(sets: Vec<Vec<Selection>>, extra: Vec<Definition>) -> Document {
    let mut definitions = vec![Definition::Subscription { name: None, selection_set: 0 }];
    definitions.extend(extra);
    Document { sets, definitions }
}

fn keys(doc: Document, vars: Vec<(String, Value)>) -> Result<Vec<(u64, String)>, QueryError> {
    let stub = compile_subscription(&root(), doc, None, vars)?;
    let mut out: Vec<(u64, String)> = stub.types.iter().map(|(k, f)| (*k, f.name.clone())).collect();
    out.sort();
    Ok(out)
}

#[test]
fn skip_true_omits_field() {
    let doc = op(vec![vec![
        field("books", vec![dir(DirectiveName::Skip, Some(Value::Boolean(true)))]),
        field("authors", vec![]),
    ]], vec![]);
    assert_eq!(keys(doc, vec![]).unwrap(), vec![(2, "authors".to_string())]);
}

#[test]
fn include_false_omits_field() {
    let doc = op(vec![vec![field("books", vec![dir(DirectiveName::Include, Some(Value::Boolean(false)))])]], vec![]);
    assert_eq!(keys(doc, vec![]).unwrap(), vec![]);
}

#[test]
fn skip_false_and_include_true_keep_fields() {
    let doc = op(vec![vec![
        field("books", vec![dir(DirectiveName::Skip, Some(Value::Boolean(false)))]),
        field("authors", vec![dir(DirectiveName::Include, Some(Value::Boolean(true)))]),
    ]], vec![]);
    assert_eq!(keys(doc, vec![]).unwrap(), vec![(1, "books".to_string()), (2, "authors".to_string())]);
}

#[test]
fn skip_reads_variable() {
    let vars = vec![("hide".to_string(), Value::Boolean(true))];
    let doc = op(vec![vec![field("books", vec![dir(DirectiveName::Skip, Some(Value::Variable("hide".to_string())))])]], vec![]);
    assert_eq!(keys(doc, vars).unwrap(), vec![]);
}

#[test]
fn directive_errors() {
    let vars = vec![("n".to_string(), Value::Int(3))];
    assert!(matches!(
        is_skip(&vars, &vec![dir(DirectiveName::Skip, Some(Value::Variable("x".to_string())))]),
        Err(QueryError::VarNotDefined { name }) if name == "x"
    ));
    assert!(matches!(
        is_skip(&vars, &vec![dir(DirectiveName::Skip, Some(Value::Variable("n".to_string())))]),
        Err(QueryError::ExpectedBoolean)
    ));
    assert!(matches!(
        is_skip(&vars, &vec![dir(DirectiveName::Include, Some(Value::Str("yes".to_string())))]),
        Err(QueryError::ExpectedBoolean)
    ));
    assert!(matches!(is_skip(&vars, &vec![dir(DirectiveName::Skip, None)]), Err(QueryError::MissingDirectiveArgument)));
    assert!(matches!(
        is_skip(&vars, &vec![dir(DirectiveName::Other("deprecated".to_string()), None)]),
        Err(QueryError::UnknownDirective { name }) if name == "deprecated"
    ));
    assert!(matches!(is_skip(&vars, &vec![]), Ok(false)));
}

#[test]
fn fragment_spread_with_two_fields() {
    let doc = op(
        vec![
            vec![Selection::FragmentSpread { fragment_name: "F".to_string(), directives: vec![] }],
            vec![field("books", vec![]), field("authors", vec![])],
        ],
        vec![Definition::Fragment(FragmentDefinition { name: "F".to_string(), selection_set: 1 })],
    );
    assert_eq!(keys(doc, vec![]).unwrap(), vec![(1, "books".to_string()), (2, "authors".to_string())]);
}

#[test]
fn unknown_fragment_is_named() {
    let doc = op(
        vec![vec![
            field("books", vec![]),
            Selection::FragmentSpread { fragment_name: "Missing".to_string(), directives: vec![] },
        ]],
        vec![],
    );
    assert!(matches!(keys(doc, vec![]), Err(QueryError::UnknownFragment { name }) if name == "Missing"));
}

#[test]
fn inline_fragment_and_first_field_wins() {
    let doc = op(
        vec![
            vec![Selection::InlineFragment { directives: vec![], selection_set: 1 }, field("books", vec![])],
            vec![field("books", vec![])],
        ],
        vec![],
    );
    let stub = compile_subscription(&root(), doc, None, vec![]).unwrap();
    assert_eq!(stub.types.len(), 1);
    assert!(stub.field_for(1).is_some());
    assert!(stub.field_for(2).is_none());
}

#[test]
fn unknown_root_field() {
    let doc = op(vec![vec![field("nothing", vec![])]], vec![]);
    assert!(matches!(keys(doc, vec![]), Err(QueryError::FieldNotFound { name }) if name == "nothing"));
}

#[test]
fn fragment_cycle_is_refused() {
    let doc = op(
        vec![
            vec![Selection::FragmentSpread { fragment_name: "A".to_string(), directives: vec![] }],
            vec![Selection::FragmentSpread { fragment_name: "A".to_string(), directives: vec![] }],
        ],
        vec![Definition::Fragment(FragmentDefinition { name: "A".to_string(), selection_set: 1 })],
    );
    assert!(matches!(keys(doc, vec![]), Err(QueryError::FragmentCycle { name }) if name == "A"));
}

#[test]
fn inline_cycle_and_dangling_set() {
    let doc = op(vec![vec![Selection::InlineFragment { directives: vec![], selection_set: 0 }]], vec![]);
    assert!(matches!(keys(doc, vec![]), Err(QueryError::SelectionCycle)));
    let doc = op(vec![vec![Selection::InlineFragment { directives: vec![], selection_set: 7 }]], vec![]);
    assert!(matches!(keys(doc, vec![]), Err(QueryError::DanglingSelectionSet)));
}

#[test]
fn operation_selection() {
    let doc = Document {
        sets: vec![vec![field("books", vec![])], vec![field("authors", vec![])]],
        definitions: vec![
            Definition::Other,
            Definition::Subscription { name: Some("A".to_string()), selection_set: 0 },
            Definition::Subscription { name: Some("B".to_string()), selection_set: 1 },
        ],
    };
    let stub = compile_subscription(&root(), doc, Some("B".to_string()), vec![]).unwrap();
    assert!(stub.field_for(2).is_some());
    assert!(stub.field_for(1).is_none());
    let doc = op(vec![vec![]], vec![]);
    assert!(matches!(
        compile_subscription(&root(), doc, Some("C".to_string()), vec![]),
        Err(QueryError::UnknownOperationNamed { name }) if name == "C"
    ));
    let doc = Document { sets: vec![], definitions: vec![] };
    assert!(matches!(compile_subscription(&root(), doc, None, vec![]), Err(QueryError::MissingOperation)));
}

#[test]
fn context_walks_nested_set() {
    let sets = vec![
        vec![field("books", vec![])],
        vec![field("values", vec![dir(DirectiveName::Include, Some(Value::Variable("on".to_string())))])],
    ];
    let fragments: Vec<FragmentDefinition> = vec![];
    let variables = vec![("on".to_string(), Value::Boolean(true))];
    let ctx = SelectionContext { sets: &sets, fragments: &fragments, variables: &variables, set: 0 };
    let inner = ctx.with_selection_set(1);
    assert_eq!(inner.set, 1);
    assert!(matches!(inner.is_skip(&vec![dir(DirectiveName::Include, Some(Value::Variable("on".to_string())))]), Ok(false)));
    let mut types = HashMap::new();
    create_subscription_types(&root(), &inner, 2, &mut types).unwrap();
    assert_eq!(types.len(), 1);
    assert_eq!(types.get(&3).map(|f| f.name.clone()), Some("values".to_string()));
}
