//! The node types of the syntax tree, and the coercion helpers that let
//! later passes treat "scalar vs list of one" uniformly.

use vstd::prelude::*;
use vstd::string::StringExecFns;

use crate::error::Error;
use crate::fold::AstFold;
use crate::fold::accepts_of;
use crate::fold::fold_item_with;
use crate::fold::lemma_non_expanding;
use crate::fold::lemma_ok_total_item;
use crate::fold::rewrite_of;
use crate::fold::unnest_of;
use crate::fold::unnest_rewrite;
use crate::fold::unnest_rewrite_fn;
use crate::model::AssignModel;
use crate::model::FuncCallModel;
use crate::model::FunctionModel;
use crate::model::ItemModel;
use crate::model::NamedArgModel;
use crate::model::SStringItemModel;
use crate::model::TableModel;
use crate::model::TransformationModel;
use crate::model::all_singletons;
use crate::model::coerce_to_list_model;
use crate::model::coerce_to_terms_model;
use crate::model::has_entry_of_len;
use crate::model::inner_items_of;
use crate::model::is_inner_container;
use crate::model::lemma_view_of_item_lists_push;
use crate::model::lemma_view_of_items_index;
use crate::model::lemma_view_of_items_push;
use crate::model::lemma_view_of_items_singleton;
use crate::model::lemma_view_of_list_items_index;
use crate::model::lemma_view_of_list_items_push;
use crate::model::lemma_view_of_list_items_singleton;
use crate::model::list_of_items_model;
use crate::model::scalar_of_item;
use crate::model::singles_of;
use crate::model::view_of_assign;
use crate::model::view_of_func_call;
use crate::model::view_of_function;
use crate::model::view_of_item;
use crate::model::view_of_item_lists;
use crate::model::view_of_items;
use crate::model::view_of_list_item;
use crate::model::view_of_list_items;
use crate::model::view_of_named_arg;
use crate::model::view_of_sstring_item;
use crate::model::view_of_table;
use crate::model::view_of_transformation;
use crate::model::view_of_transformations;

verus! {

/// Idents are generally column names.
pub type Ident = String;

pub type Items = Vec<Item>;

pub type Idents = Vec<Ident>;

pub type Pipeline = Vec<Transformation>;

/// The universal node type: exactly one variant holds at a time.
#[derive(Debug, PartialEq)]
pub enum Item {
    Transformation(Transformation),
    Ident(Ident),
    String(String),
    Raw(String),
    Assign(Assign),
    NamedArg(NamedArg),
    Query(Items),
    Pipeline(Pipeline),
    List(Vec<ListItem>),
    /// Tokens that were not separated by an explicit list boundary.
    /// A `Terms` holding exactly one element means the same as that
    /// element alone, so unnesting it preserves semantics.
    Terms(Items),
    /// A generic grouping container; unlike `Terms`, collapsing a
    /// singleton is not guaranteed to preserve semantics.
    Items(Items),
    Idents(Idents),
    Function(Function),
    Table(Table),
    SString(Vec<SStringItem>),
    /// A construct that is not implemented yet; it must be carried
    /// through, never silently dropped.
    Todo(String),
}

/// One entry of an explicit list literal.  Its boundaries are always
/// meaningful: a one-entry list stays a list.
#[derive(Debug, PartialEq)]
pub struct ListItem(pub Items);

/// One pipeline stage.
#[derive(Debug, PartialEq)]
pub enum Transformation {
    From(Ident),
    Select(Items),
    Filter(Filter),
    Derive(Vec<Assign>),
    Aggregate { by: Vec<Item>, calcs: Vec<Item>, assigns: Vec<Assign> },
    Sort(Items),
    Take(i64),
    Join(Items),
    Func(FuncCall),
}

/// A user-defined function.
#[derive(Debug, PartialEq)]
pub struct Function {
    pub name: Ident,
    pub args: Vec<Ident>,
    pub body: Items,
}

/// An unresolved function call.
#[derive(Debug, PartialEq)]
pub struct FuncCall {
    pub name: String,
    pub args: Items,
    pub named_args: Vec<NamedArg>,
}

/// A named pipeline definition.
#[derive(Debug, PartialEq)]
pub struct Table {
    pub name: Ident,
    pub pipeline: Pipeline,
}

/// A keyword argument to a call.
#[derive(Debug, PartialEq)]
pub struct NamedArg {
    pub name: Ident,
    pub arg: Box<Item>,
}

/// A binding, e.g. in `derive`.
#[derive(Debug, PartialEq)]
pub struct Assign {
    pub lvalue: Ident,
    pub rvalue: Box<Item>,
}

/// One fragment of an interpolated string.
#[derive(Debug, PartialEq)]
pub enum SStringItem {
    String(String),
    Expr(Item),
}

/// The payload of a `filter` stage.
#[derive(Debug, PartialEq)]
pub struct Filter(pub Items);

impl View for Item {
    type V = ItemModel;

    open spec fn view(&self) -> ItemModel {
        view_of_item(*self)
    }
}

impl View for ListItem {
    type V = Seq<ItemModel>;

    open spec fn view(&self) -> Seq<ItemModel> {
        view_of_list_item(*self)
    }
}

impl View for Transformation {
    type V = TransformationModel;

    open spec fn view(&self) -> TransformationModel {
        view_of_transformation(*self)
    }
}

impl View for Function {
    type V = FunctionModel;

    open spec fn view(&self) -> FunctionModel {
        view_of_function(*self)
    }
}

impl View for FuncCall {
    type V = FuncCallModel;

    open spec fn view(&self) -> FuncCallModel {
        view_of_func_call(*self)
    }
}

impl View for Table {
    type V = TableModel;

    open spec fn view(&self) -> TableModel {
        view_of_table(*self)
    }
}

impl View for NamedArg {
    type V = NamedArgModel;

    open spec fn view(&self) -> NamedArgModel {
        view_of_named_arg(*self)
    }
}

impl View for Assign {
    type V = AssignModel;

    open spec fn view(&self) -> AssignModel {
        view_of_assign(*self)
    }
}

impl View for SStringItem {
    type V = SStringItemModel;

    open spec fn view(&self) -> SStringItemModel {
        view_of_sstring_item(*self)
    }
}

impl View for Filter {
    type V = Seq<ItemModel>;

    open spec fn view(&self) -> Seq<ItemModel> {
        view_of_items(self.0@)
    }
}

impl ListItem {
    /// Hands out the items this list entry holds.
    pub fn into_inner(self) -> (r: Items)
        ensures
            view_of_items(r@) == self@,
    {
        self.0
    }
}

/// The canonical lowercase name of a pipeline stage; for `Func` it is the
/// call's own name.
pub open spec fn name_of_transformation(t: TransformationModel) -> Seq<char> {
    match t {
        TransformationModel::From(_) => "from"@,
        TransformationModel::Select(_) => "select"@,
        TransformationModel::Filter(_) => "filter"@,
        TransformationModel::Derive(_) => "derive"@,
        TransformationModel::Aggregate { .. } => "aggregate"@,
        TransformationModel::Sort(_) => "sort"@,
        TransformationModel::Take(_) => "take"@,
        TransformationModel::Join(_) => "join"@,
        TransformationModel::Func(c) => c.name,
    }
}

/// The tag of a node, as diagnostics render it.
pub open spec fn kind_name_of(m: ItemModel) -> Seq<char> {
    match m {
        ItemModel::Transformation(_) => "transformation"@,
        ItemModel::Ident(_) => "ident"@,
        ItemModel::Str(_) => "string"@,
        ItemModel::Raw(_) => "raw"@,
        ItemModel::Assign(_) => "assign"@,
        ItemModel::NamedArg(_) => "named arg"@,
        ItemModel::Query(_) => "query"@,
        ItemModel::Pipeline(_) => "pipeline"@,
        ItemModel::List(_) => "list"@,
        ItemModel::Terms(_) => "terms"@,
        ItemModel::Items(_) => "items"@,
        ItemModel::Idents(_) => "idents"@,
        ItemModel::Function(_) => "function"@,
        ItemModel::Table(_) => "table"@,
        ItemModel::SString(_) => "s-string"@,
        ItemModel::Todo(_) => "todo"@,
    }
}

impl Item {
    /// The tag of this node, for diagnostics.
    pub fn kind_name(&self) -> (r: &str)
        ensures
            r@ == kind_name_of(self@),
    {
        match self {
            Item::Transformation(_) => "transformation",
            Item::Ident(_) => "ident",
            Item::String(_) => "string",
            Item::Raw(_) => "raw",
            Item::Assign(_) => "assign",
            Item::NamedArg(_) => "named arg",
            Item::Query(_) => "query",
            Item::Pipeline(_) => "pipeline",
            Item::List(_) => "list",
            Item::Terms(_) => "terms",
            Item::Items(_) => "items",
            Item::Idents(_) => "idents",
            Item::Function(_) => "function",
            Item::Table(_) => "table",
            Item::SString(_) => "s-string",
            Item::Todo(_) => "todo",
        }
    }

    /// Either the contents of `Terms` / `Items` / `Query`, or the value
    /// itself in a one-element vector.  Useful when a caller has either a
    /// scalar or a container and wants to handle a single shape.
    pub fn into_inner_items(self) -> (r: Items)
        ensures
            view_of_items(r@) == inner_items_of(self@),
    {
        match self {
            Item::Terms(v) => v,
            Item::Items(v) => v,
            Item::Query(v) => v,
            other => {
                proof {
                    lemma_view_of_items_singleton(other);
                }
                let mut out: Items = Vec::new();
                out.push(other);
                assert(out@ =~= seq![other]);
                out
            },
        }
    }

    /// The contents of `Terms` / `Items` / `Query`, without consuming the
    /// node; any other kind is refused with a mismatch naming it.
    pub fn as_inner_items(&self) -> (r: Result<&Items, Error>)
        ensures
            r is Ok <==> is_inner_container(self@),
            r matches Ok(v) ==> view_of_items(v@) == inner_items_of(self@),
            r matches Err(e) ==> (e@ matches crate::error::ErrorModel::TypeMismatch {
                expected,
                actual,
            } && expected == "container"@ && actual == kind_name_of(self@)),
    {
        match self {
            Item::Terms(v) => Ok(v),
            Item::Items(v) => Ok(v),
            Item::Query(v) => Ok(v),
            _ => Err(
                Error::TypeMismatch {
                    expected: String::from_str("container"),
                    actual: String::from_str(self.kind_name()),
                },
            ),
        }
    }

    /// Requires a `List`; returns the items held by each of its entries.
    pub fn into_inner_list_items(self) -> (r: Result<Vec<Items>, Error>)
        ensures
            r is Ok <==> self@ is List,
            r matches Ok(v) ==> (self@ matches ItemModel::List(ls) && view_of_item_lists(v@)
                == ls),
            r matches Err(e) ==> (e@ matches crate::error::ErrorModel::TypeMismatch {
                expected,
                actual,
            } && expected == "list"@ && actual == kind_name_of(self@)),
    {
        match self {
            Item::List(mut entries) => {
                let ghost all = entries@;
                let mut out: Vec<Items> = Vec::new();
                while entries.len() > 0
                    invariant
                        out@.len() + entries@.len() == all.len(),
                        entries@ == all.skip(out@.len() as int),
                        view_of_item_lists(out@) == view_of_list_items(
                            all.take(out@.len() as int),
                        ),
                    decreases entries@.len(),
                {
                    let ghost k = out@.len() as int;
                    let li = entries.remove(0);
                    proof {
                        assert(li == all[k]);
                        assert(entries@ =~= all.skip(k + 1));
                    }
                    let inner = li.into_inner();
                    proof {
                        lemma_view_of_item_lists_push(out@, inner);
                        assert(all.take(k + 1) =~= all.take(k).push(all[k]));
                        lemma_view_of_list_items_push(all.take(k), all[k]);
                    }
                    out.push(inner);
                }
                proof {
                    assert(all.take(out@.len() as int) =~= all);
                }
                Ok(out)
            },
            other => Err(
                Error::TypeMismatch {
                    expected: String::from_str("list"),
                    actual: String::from_str(other.kind_name()),
                },
            ),
        }
    }

    /// For a `List` in which every entry holds exactly one item, returns
    /// those items; refuses anything else.
    pub fn into_inner_list_single_items(self) -> (r: Result<Items, Error>)
        ensures
            r is Ok <==> (self@ matches ItemModel::List(ls) && all_singletons(ls)),
            r matches Ok(v) ==> (self@ matches ItemModel::List(ls) && view_of_items(v@)
                == singles_of(ls)),
            (r is Err && !(self@ is List)) ==> (r matches Err(e)
                && e@ matches crate::error::ErrorModel::TypeMismatch { expected, actual }
                && expected == "list"@ && actual == kind_name_of(self@)),
            (r is Err && self@ is List) ==> (r matches Err(e)
                && e@ matches crate::error::ErrorModel::ArityMismatch { found }
                && (self@ matches ItemModel::List(ls) && has_entry_of_len(ls, found)
                && found != 1)),
    {
        match self {
            Item::List(mut entries) => {
                let ghost all = entries@;
                let ghost ls = view_of_list_items(all);
                proof {
                    lemma_view_of_list_items_index(all);
                    assert(self@ == ItemModel::List(ls));
                }
                let mut out: Items = Vec::new();
                while entries.len() > 0
                    invariant
                        out@.len() + entries@.len() == all.len(),
                        entries@ == all.skip(out@.len() as int),
                        self@ == ItemModel::List(ls),
                        ls == view_of_list_items(all),
                        ls.len() == all.len(),
                        forall|i: int| 0 <= i < all.len() ==> ls[i] == view_of_list_item(all[i]),
                        view_of_items(out@) == singles_of(ls.take(out@.len() as int)),
                        forall|i: int| 0 <= i < out@.len() ==> ls[i].len() == 1,
                    decreases entries@.len(),
                {
                    let ghost k = out@.len() as int;
                    let li = entries.remove(0);
                    proof {
                        assert(li == all[k]);
                        assert(entries@ =~= all.skip(k + 1));
                    }
                    let mut inner = li.into_inner();
                    proof {
                        lemma_view_of_items_index(inner@);
                    }
                    if inner.len() != 1 {
                        let found = inner.len();
                        proof {
                            assert(ls[k].len() == inner@.len());
                            assert(!all_singletons(ls)) by {
                                assert(0 <= k < ls.len() && ls[k].len() != 1);
                            }
                            assert(has_entry_of_len(ls, found as int)) by {
                                assert(0 <= k < ls.len() && ls[k].len() == found as int);
                            }
                        }
                        return Err(Error::ArityMismatch { found });
                    }
                    let x = inner.pop().unwrap();
                    proof {
                        assert(view_of_item(x) == ls[k].first());
                        assert(ls.take(k + 1) =~= ls.take(k).push(ls[k]));
                        assert(singles_of(ls.take(k).push(ls[k])) =~= singles_of(
                            ls.take(k),
                        ).push(ls[k].first()));
                        lemma_view_of_items_push(out@, x);
                    }
                    out.push(x);
                }
                proof {
                    assert(ls.take(out@.len() as int) =~= ls);
                }
                Ok(out)
            },
            other => Err(
                Error::TypeMismatch {
                    expected: String::from_str("list"),
                    actual: String::from_str(other.kind_name()),
                },
            ),
        }
    }

    /// Wraps in `Terms` unless the node already is one.
    pub fn coerce_to_terms(self) -> (r: Item)
        ensures
            r@ == coerce_to_terms_model(self@),
    {
        match self {
            Item::Terms(v) => Item::Terms(v),
            other => {
                proof {
                    lemma_view_of_items_singleton(other);
                }
                let mut inner: Items = Vec::new();
                inner.push(other);
                assert(inner@ =~= seq![other]);
                Item::Terms(inner)
            },
        }
    }

    /// Wraps as a one-entry `List` unless the node already is a `List`.
    pub fn coerce_to_list(self) -> (r: Item)
        ensures
            r@ == coerce_to_list_model(self@),
    {
        match self {
            Item::List(v) => Item::List(v),
            other => {
                proof {
                    lemma_view_of_items_singleton(other);
                }
                let mut inner: Items = Vec::new();
                inner.push(other);
                assert(inner@ =~= seq![other]);
                let li = ListItem(inner);
                proof {
                    lemma_view_of_list_items_singleton(li);
                }
                let mut entries: Vec<ListItem> = Vec::new();
                entries.push(li);
                assert(entries@ =~= seq![li]);
                Item::List(entries)
            },
        }
    }

    /// Builds a `List` in which every input item becomes its own
    /// one-element entry.
    pub fn into_list_of_items(items: Items) -> (r: Item)
        ensures
            r@ == list_of_items_model(view_of_items(items@)),
    {
        let ghost all = items@;
        let mut rest = items;
        let mut entries: Vec<ListItem> = Vec::new();
        while rest.len() > 0
            invariant
                entries@.len() + rest@.len() == all.len(),
                rest@ == all.skip(entries@.len() as int),
                view_of_list_items(entries@) == view_of_items(
                    all.take(entries@.len() as int),
                ).map_values(|m: ItemModel| seq![m]),
            decreases rest@.len(),
        {
            let ghost k = entries@.len() as int;
            let x = rest.remove(0);
            proof {
                assert(x == all[k]);
                assert(rest@ =~= all.skip(k + 1));
                lemma_view_of_items_singleton(x);
            }
            let mut inner: Items = Vec::new();
            inner.push(x);
            assert(inner@ =~= seq![x]);
            let li = ListItem(inner);
            proof {
                lemma_view_of_list_items_push(entries@, li);
                assert(all.take(k + 1) =~= all.take(k).push(all[k]));
                lemma_view_of_items_push(all.take(k), all[k]);
                assert(view_of_items(all.take(k + 1)).map_values(|m: ItemModel| seq![m])
                    =~= view_of_items(all.take(k)).map_values(|m: ItemModel| seq![m]).push(
                    seq![view_of_item(all[k])],
                ));
            }
            entries.push(li);
        }
        proof {
            assert(all.take(entries@.len() as int) =~= all);
        }
        Item::List(entries)
    }

    /// The owning counterpart of [`Item::as_scalar`]: consumes the value
    /// and hands back the scalar behind any singleton wrapper chain.
    pub fn into_scalar(self) -> (r: Item)
        ensures
            r@ == scalar_of_item(self@),
        decreases self,
    {
        match self {
            Item::Terms(mut v) => {
                let ghost va = v@;
                proof {
                    lemma_view_of_items_index(va);
                }
                if v.len() == 1 {
                    let x = v.pop().unwrap();
                    proof {
                        assert(x == va[0]);
                    }
                    x.into_scalar()
                } else {
                    Item::Terms(v)
                }
            },
            Item::Items(mut v) => {
                let ghost va = v@;
                proof {
                    lemma_view_of_items_index(va);
                }
                if v.len() == 1 {
                    let x = v.pop().unwrap();
                    proof {
                        assert(x == va[0]);
                    }
                    x.into_scalar()
                } else {
                    Item::Items(v)
                }
            },
            other => other,
        }
    }

    /// The scalar behind arbitrarily nested singleton `Terms` / `Items`
    /// wrappers: a pure projection, never a rebuild.
    pub fn as_scalar(&self) -> (r: &Item)
        ensures
            r@ == scalar_of_item(self@),
        decreases self,
    {
        match self {
            Item::Terms(v) => {
                proof {
                    lemma_view_of_items_index(v@);
                }
                if v.len() == 1 {
                    v[0].as_scalar()
                } else {
                    self
                }
            },
            Item::Items(v) => {
                proof {
                    lemma_view_of_items_index(v@);
                }
                if v.len() == 1 {
                    v[0].as_scalar()
                } else {
                    self
                }
            },
            _ => self,
        }
    }
}

impl Transformation {
    /// Returns the name of the transformation.
    pub fn name(&self) -> (r: &str)
        ensures
            r@ == name_of_transformation(self@),
    {
        match self {
            Transformation::From(_) => "from",
            Transformation::Select(_) => "select",
            Transformation::Filter(_) => "filter",
            Transformation::Derive(_) => "derive",
            Transformation::Aggregate { .. } => "aggregate",
            Transformation::Sort(_) => "sort",
            Transformation::Take(_) => "take",
            Transformation::Join(_) => "join",
            Transformation::Func(c) => c.name.as_str(),
        }
    }
}

/// The unnest pass: its handler replaces every `Terms` node it visits by
/// the scalar behind that node's singleton-wrapper chain, before the fold
/// descends; all other node kinds pass through untouched.
pub struct Unnest;

impl AstFold for Unnest {
    open spec fn rewrite(&self, m: ItemModel) -> ItemModel {
        unnest_rewrite(m)
    }

    open spec fn accepts(&self, m: ItemModel) -> bool {
        true
    }

    proof fn rewrite_non_expanding(&self, m: ItemModel) {
        crate::model::lemma_scalar_size(m);
    }

    fn fold_item(&mut self, item: Item) -> (r: Result<Item, Error>) {
        match item {
            Item::Terms(v) => Ok(Item::Terms(v).into_scalar()),
            other => Ok(other),
        }
    }
}

/// Transitive unnesting of a whole tree.
pub trait IntoUnnested where Self: Sized {
    fn into_unnested(self) -> Self;
}

impl IntoUnnested for Item {
    /// Transitively unnests the whole tree, walking even parents with
    /// more than one child.  Only `Terms` wrappers are removed (never
    /// `Items` or `List`), though the traversal enters every container.
    fn into_unnested(self) -> (r: Item)
        ensures
            r@ == unnest_of(self@),
    {
        let ghost m0 = self@;
        let mut pass = Unnest;
        let ghost p0 = pass;
        let folded = fold_item_with(&mut pass, self);
        proof {
            assert(rewrite_of(p0) =~= unnest_rewrite_fn());
            lemma_non_expanding::<Unnest>(p0);
            assert forall|x: ItemModel| #[trigger] accepts_of(p0)(x) by {
                assert(accepts_of(p0)(x) == p0.accepts(x));
            }
            lemma_ok_total_item(accepts_of(p0), rewrite_of(p0), m0);
        }
        match folded {
            Ok(r) => r,
            // The handler of this pass succeeds on every node, so the
            // fold cannot fail; this arm is unreachable.
            Err(_) => Item::Terms(Vec::new()),
        }
    }
}


} // verus!
