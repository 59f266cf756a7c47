use query_ast::ast::Filter;
use query_ast::ast::FuncCall;
use query_ast::ast::IntoUnnested;
use query_ast::ast::Item;
use query_ast::ast::ListItem;
use query_ast::ast::Transformation;
use query_ast::error::Error;

fn atom() -> Item {
    Item::Ident("a".to_string())
}

#[test]
fn test_as_scalar() {
    // Gets the single item through one level of nesting.
    let item = Item::Terms(vec![atom()]);
    assert_eq!(item.as_scalar(), &atom());

    // No change when it's the same.
    let item = atom();
    assert_eq!(item.as_scalar(), &item);

    // No change when there are two items in the `terms`.
    let item = Item::Terms(vec![atom(), atom()]);
    assert_eq!(item.as_scalar(), &Item::Terms(vec![atom(), atom()]));

    // Gets the single item through two levels of nesting.
    let item = Item::Terms(vec![Item::Terms(vec![atom()])]);
    assert_eq!(item.as_scalar(), &atom());
}

#[test]
fn test_into_unnested() {
    // Gets the single item through one level of nesting.
    let item = Item::Terms(vec![atom()]);
    assert_eq!(item.into_unnested(), atom());

    // No change when it's the same.
    let item = atom();
    assert_eq!(item.into_unnested(), atom());

    // No change when there are two items in the `terms`.
    let item = Item::Terms(vec![atom(), atom()]);
    assert_eq!(item.into_unnested(), Item::Terms(vec![atom(), atom()]));

    // Gets the single item through two levels of nesting.
    let item = Item::Terms(vec![Item::Terms(vec![atom()])]);
    assert_eq!(item.into_unnested(), atom());

    // Gets a single item through a parent which isn't nested.
    let item = Item::Terms(vec![Item::Terms(vec![atom()]), Item::Terms(vec![atom()])]);
    assert_eq!(item.into_unnested(), Item::Terms(vec![atom(), atom()]));
}

#[test]
fn test_into_scalar_matches_as_scalar() {
    let item = Item::Terms(vec![Item::Items(vec![atom()])]);
    assert_eq!(item.into_scalar(), atom());

    let item = Item::Items(vec![atom(), atom()]);
    assert_eq!(item.into_scalar(), Item::Items(vec![atom(), atom()]));
}

#[test]
fn test_unnest_collapses_terms_through_items_wrapper() {
    // A singleton `Items` wrapper reached from a `Terms` node collapses
    // with it; a bare singleton `Items` node does not.
    let item = Item::Terms(vec![Item::Items(vec![atom()])]);
    assert_eq!(item.into_unnested(), atom());

    let item = Item::Items(vec![atom()]);
    assert_eq!(item.into_unnested(), Item::Items(vec![atom()]));
}

#[test]
fn test_unnest_never_collapses_lists() {
    // A one-entry list holding one element stays exactly that list.
    let item = Item::List(vec![ListItem(vec![atom()])]);
    assert_eq!(item.into_unnested(), Item::List(vec![ListItem(vec![atom()])]));

    // Nested singleton `Terms` inside a list entry still collapse.
    let item = Item::List(vec![ListItem(vec![Item::Terms(vec![atom()])])]);
    assert_eq!(item.into_unnested(), Item::List(vec![ListItem(vec![atom()])]));
}

#[test]
fn test_unnest_recurses_into_queries_and_pipelines() {
    let query = Item::Query(vec![Item::Terms(vec![atom()]), atom()]);
    assert_eq!(query.into_unnested(), Item::Query(vec![atom(), atom()]));

    let pipeline = Item::Pipeline(vec![
        Transformation::From("t".to_string()),
        Transformation::Select(vec![Item::Terms(vec![atom()])]),
        Transformation::Filter(Filter(vec![Item::Terms(vec![atom()])])),
        Transformation::Take(10),
    ]);
    assert_eq!(
        pipeline.into_unnested(),
        Item::Pipeline(vec![
            Transformation::From("t".to_string()),
            Transformation::Select(vec![atom()]),
            Transformation::Filter(Filter(vec![atom()])),
            Transformation::Take(10),
        ])
    );
}

#[test]
fn test_unnest_idempotent_on_samples() {
    // unnest(unnest(T)) == unnest(T), checked on concrete trees by
    // building unnest(T) literally and running the pass once more.
    let t = Item::Terms(vec![Item::Terms(vec![atom()]), Item::Terms(vec![atom()])]);
    assert_eq!(t.into_unnested(), Item::Terms(vec![atom(), atom()]));
    assert_eq!(
        Item::Terms(vec![atom(), atom()]).into_unnested(),
        Item::Terms(vec![atom(), atom()])
    );

    let t = Item::Query(vec![Item::Terms(vec![Item::Items(vec![atom()])])]);
    assert_eq!(t.into_unnested(), Item::Query(vec![atom()]));
    assert_eq!(Item::Query(vec![atom()]).into_unnested(), Item::Query(vec![atom()]));

    // An empty `Terms` is not a singleton: it stays as it is.
    assert_eq!(Item::Terms(vec![]).into_unnested(), Item::Terms(vec![]));
}

#[test]
fn test_into_inner_items() {
    let item = Item::Terms(vec![atom(), atom()]);
    assert_eq!(item.into_inner_items(), vec![atom(), atom()]);

    let item = Item::Query(vec![atom()]);
    assert_eq!(item.into_inner_items(), vec![atom()]);

    // A scalar is wrapped in a one-element vector.
    assert_eq!(atom().into_inner_items(), vec![atom()]);
}

#[test]
fn test_as_inner_items() {
    let item = Item::Items(vec![atom()]);
    assert_eq!(item.as_inner_items().unwrap(), &vec![atom()]);

    let err = atom().as_inner_items().unwrap_err();
    assert_eq!(err.message(), "expected container, got ident");
}

#[test]
fn test_into_inner_list_items() {
    let item = Item::List(vec![ListItem(vec![atom()]), ListItem(vec![atom(), atom()])]);
    assert_eq!(
        item.into_inner_list_items().unwrap(),
        vec![vec![atom()], vec![atom(), atom()]]
    );
}

#[test]
fn test_list_accessor_mismatch_names_actual_variant() {
    // The list-only accessor refuses any other node and names its kind.
    let err = atom().into_inner_list_items().unwrap_err();
    assert_eq!(err.message(), "expected list, got ident");

    let err = Item::Terms(vec![atom()]).into_inner_list_single_items().unwrap_err();
    assert_eq!(err.message(), "expected list, got terms");
}

#[test]
fn test_into_inner_list_single_items() {
    let item = Item::List(vec![ListItem(vec![atom()]), ListItem(vec![atom()])]);
    assert_eq!(item.into_inner_list_single_items().unwrap(), vec![atom(), atom()]);

    let item = Item::List(vec![ListItem(vec![atom(), atom()])]);
    let err = item.into_inner_list_single_items().unwrap_err();
    assert!(matches!(err, Error::ArityMismatch { found: 2 }));
    assert_eq!(err.message(), "expected exactly one element");

    let item = Item::List(vec![ListItem(vec![])]);
    let err = item.into_inner_list_single_items().unwrap_err();
    assert!(matches!(err, Error::ArityMismatch { found: 0 }));
}

#[test]
fn test_coerce_to_terms_idempotent() {
    let once = atom().coerce_to_terms();
    assert_eq!(once, Item::Terms(vec![atom()]));
    let twice = atom().coerce_to_terms().coerce_to_terms();
    assert_eq!(twice, Item::Terms(vec![atom()]));
}

#[test]
fn test_coerce_to_list_idempotent() {
    let once = atom().coerce_to_list();
    assert_eq!(once, Item::List(vec![ListItem(vec![atom()])]));
    let twice = atom().coerce_to_list().coerce_to_list();
    assert_eq!(twice, Item::List(vec![ListItem(vec![atom()])]));
}

#[test]
fn test_list_round_trip() {
    // Wrapping items as a list and reading the single element of each
    // entry returns the original items.
    let items = vec![atom(), Item::Raw("b".to_string())];
    let list = Item::into_list_of_items(items);
    assert_eq!(
        list.into_inner_list_single_items().unwrap(),
        vec![atom(), Item::Raw("b".to_string())]
    );

    let wrapped = atom().coerce_to_list();
    assert_eq!(wrapped.into_inner_list_single_items().unwrap(), vec![atom()]);
}

#[test]
fn test_transformation_name() {
    assert_eq!(Transformation::From("t".to_string()).name(), "from");
    assert_eq!(Transformation::Select(vec![]).name(), "select");
    assert_eq!(Transformation::Filter(Filter(vec![])).name(), "filter");
    assert_eq!(Transformation::Derive(vec![]).name(), "derive");
    assert_eq!(
        Transformation::Aggregate { by: vec![], calcs: vec![], assigns: vec![] }.name(),
        "aggregate"
    );
    assert_eq!(Transformation::Sort(vec![]).name(), "sort");
    assert_eq!(Transformation::Take(10).name(), "take");
    assert_eq!(Transformation::Join(vec![]).name(), "join");
    let call = FuncCall { name: "count".to_string(), args: vec![], named_args: vec![] };
    assert_eq!(Transformation::Func(call).name(), "count");
}

#[test]
fn test_list_item_into_inner() {
    let li = ListItem(vec![atom(), atom()]);
    assert_eq!(li.into_inner(), vec![atom(), atom()]);
}

#[test]
fn test_unimplemented_message() {
    let err = Error::Unimplemented { description: "window functions".to_string() };
    assert_eq!(err.message(), "not implemented: window functions");
}
