//! The generic tree traversal.
//!
//! A fold rebuilds a tree: at every item node it first consults the
//! pass's overridable per-node handler, then descends into the children
//! of whatever node the handler produced, leaving all non-recursive
//! fields unchanged.  A pass supplies the handler together with a ghost
//! description of it; every structural recursion point below the handler
//! is provided here once, so a new pass only decides what happens at one
//! node.  Failure of the handler at any node aborts the whole fold; no
//! partial tree is returned.

use vstd::prelude::*;

use crate::ast::Assign;
use crate::ast::Filter;
use crate::ast::FuncCall;
use crate::ast::Function;
use crate::ast::Item;
use crate::ast::ListItem;
use crate::ast::NamedArg;
use crate::ast::SStringItem;
use crate::ast::Table;
use crate::ast::Transformation;
use crate::error::Error;
use crate::model::AssignModel;
use crate::model::FuncCallModel;
use crate::model::FunctionModel;
use crate::model::ItemModel;
use crate::model::NamedArgModel;
use crate::model::SStringItemModel;
use crate::model::TableModel;
use crate::model::TransformationModel;
use crate::model::size_of_assign;
use crate::model::size_of_assigns;
use crate::model::size_of_func_call;
use crate::model::size_of_function;
use crate::model::size_of_item;
use crate::model::size_of_items;
use crate::model::size_of_list_items;
use crate::model::size_of_named_arg;
use crate::model::size_of_named_args;
use crate::model::size_of_sstring_item;
use crate::model::size_of_sstring_items;
use crate::model::size_of_table;
use crate::model::size_of_transformation;
use crate::model::size_of_transformations;
use crate::model::view_of_item;
use crate::model::view_of_items;

verus! {

/// A per-node rewrite that never makes a node larger; folds built on it
/// terminate.
pub open spec fn non_expanding(g: spec_fn(ItemModel) -> ItemModel) -> bool {
    forall|m: ItemModel| size_of_item(#[trigger] g(m)) <= size_of_item(m)
}

/// What one node of a fold's output is: the handler's rewrite of the
/// node, with every child item folded in turn.
pub open spec fn fold_item_model(g: spec_fn(ItemModel) -> ItemModel, m: ItemModel) -> ItemModel
    decreases size_of_item(m), 0int, 0int,
        when non_expanding(g)
{
    match g(m) {
        ItemModel::Transformation(t) => ItemModel::Transformation(
            fold_transformation_model(g, t),
        ),
        ItemModel::Ident(s) => ItemModel::Ident(s),
        ItemModel::Str(s) => ItemModel::Str(s),
        ItemModel::Raw(s) => ItemModel::Raw(s),
        ItemModel::Assign(a) => ItemModel::Assign(fold_assign_model(g, a)),
        ItemModel::NamedArg(n) => ItemModel::NamedArg(fold_named_arg_model(g, n)),
        ItemModel::Query(s) => ItemModel::Query(fold_items_model(g, s)),
        ItemModel::Pipeline(p) => ItemModel::Pipeline(fold_transformations_model(g, p)),
        ItemModel::List(l) => ItemModel::List(fold_list_items_model(g, l)),
        ItemModel::Terms(s) => ItemModel::Terms(fold_items_model(g, s)),
        ItemModel::Items(s) => ItemModel::Items(fold_items_model(g, s)),
        ItemModel::Idents(s) => ItemModel::Idents(s),
        ItemModel::Function(x) => ItemModel::Function(fold_function_model(g, x)),
        ItemModel::Table(t) => ItemModel::Table(fold_table_model(g, t)),
        ItemModel::SString(v) => ItemModel::SString(fold_sstring_items_model(g, v)),
        ItemModel::Todo(s) => ItemModel::Todo(s),
    }
}

pub open spec fn fold_items_model(g: spec_fn(ItemModel) -> ItemModel, s: Seq<ItemModel>) -> Seq<
    ItemModel,
>
    decreases size_of_items(s), 1int, s.len() as int,
        when non_expanding(g)
{
    if s.len() == 0 {
        Seq::empty()
    } else {
        fold_items_model(g, s.drop_last()).push(fold_item_model(g, s.last()))
    }
}

pub open spec fn fold_list_items_model(
    g: spec_fn(ItemModel) -> ItemModel,
    s: Seq<Seq<ItemModel>>,
) -> Seq<Seq<ItemModel>>
    decreases size_of_list_items(s), 2int, s.len() as int,
        when non_expanding(g)
{
    if s.len() == 0 {
        Seq::empty()
    } else {
        fold_list_items_model(g, s.drop_last()).push(fold_items_model(g, s.last()))
    }
}

pub open spec fn fold_transformation_model(
    g: spec_fn(ItemModel) -> ItemModel,
    t: TransformationModel,
) -> TransformationModel
    decreases size_of_transformation(t), 0int, 0int,
        when non_expanding(g)
{
    match t {
        TransformationModel::From(s) => TransformationModel::From(s),
        TransformationModel::Select(s) => TransformationModel::Select(fold_items_model(g, s)),
        TransformationModel::Filter(s) => TransformationModel::Filter(fold_items_model(g, s)),
        TransformationModel::Derive(a) => TransformationModel::Derive(fold_assigns_model(g, a)),
        TransformationModel::Aggregate { by, calcs, assigns } => TransformationModel::Aggregate {
            by: fold_items_model(g, by),
            calcs: fold_items_model(g, calcs),
            assigns: fold_assigns_model(g, assigns),
        },
        TransformationModel::Sort(s) => TransformationModel::Sort(fold_items_model(g, s)),
        TransformationModel::Take(n) => TransformationModel::Take(n),
        TransformationModel::Join(s) => TransformationModel::Join(fold_items_model(g, s)),
        TransformationModel::Func(c) => TransformationModel::Func(fold_func_call_model(g, c)),
    }
}

pub open spec fn fold_transformations_model(
    g: spec_fn(ItemModel) -> ItemModel,
    s: Seq<TransformationModel>,
) -> Seq<TransformationModel>
    decreases size_of_transformations(s), 1int, s.len() as int,
        when non_expanding(g)
{
    if s.len() == 0 {
        Seq::empty()
    } else {
        fold_transformations_model(g, s.drop_last()).push(
            fold_transformation_model(g, s.last()),
        )
    }
}

pub open spec fn fold_assign_model(g: spec_fn(ItemModel) -> ItemModel, a: AssignModel) -> AssignModel
    decreases size_of_assign(a), 0int, 0int,
        when non_expanding(g)
{
    AssignModel { lvalue: a.lvalue, rvalue: Box::new(fold_item_model(g, *a.rvalue)) }
}

pub open spec fn fold_assigns_model(g: spec_fn(ItemModel) -> ItemModel, s: Seq<AssignModel>) -> Seq<
    AssignModel,
>
    decreases size_of_assigns(s), 1int, s.len() as int,
        when non_expanding(g)
{
    if s.len() == 0 {
        Seq::empty()
    } else {
        fold_assigns_model(g, s.drop_last()).push(fold_assign_model(g, s.last()))
    }
}

pub open spec fn fold_named_arg_model(
    g: spec_fn(ItemModel) -> ItemModel,
    n: NamedArgModel,
) -> NamedArgModel
    decreases size_of_named_arg(n), 0int, 0int,
        when non_expanding(g)
{
    NamedArgModel { name: n.name, arg: Box::new(fold_item_model(g, *n.arg)) }
}

pub open spec fn fold_named_args_model(
    g: spec_fn(ItemModel) -> ItemModel,
    s: Seq<NamedArgModel>,
) -> Seq<NamedArgModel>
    decreases size_of_named_args(s), 1int, s.len() as int,
        when non_expanding(g)
{
    if s.len() == 0 {
        Seq::empty()
    } else {
        fold_named_args_model(g, s.drop_last()).push(fold_named_arg_model(g, s.last()))
    }
}

pub open spec fn fold_sstring_item_model(
    g: spec_fn(ItemModel) -> ItemModel,
    x: SStringItemModel,
) -> SStringItemModel
    decreases size_of_sstring_item(x), 0int, 0int,
        when non_expanding(g)
{
    match x {
        SStringItemModel::Str(s) => SStringItemModel::Str(s),
        SStringItemModel::Expr(i) => SStringItemModel::Expr(Box::new(fold_item_model(g, *i))),
    }
}

pub open spec fn fold_sstring_items_model(
    g: spec_fn(ItemModel) -> ItemModel,
    s: Seq<SStringItemModel>,
) -> Seq<SStringItemModel>
    decreases size_of_sstring_items(s), 1int, s.len() as int,
        when non_expanding(g)
{
    if s.len() == 0 {
        Seq::empty()
    } else {
        fold_sstring_items_model(g, s.drop_last()).push(fold_sstring_item_model(g, s.last()))
    }
}

pub open spec fn fold_func_call_model(
    g: spec_fn(ItemModel) -> ItemModel,
    c: FuncCallModel,
) -> FuncCallModel
    decreases size_of_func_call(c), 0int, 0int,
        when non_expanding(g)
{
    FuncCallModel {
        name: c.name,
        args: fold_items_model(g, c.args),
        named_args: fold_named_args_model(g, c.named_args),
    }
}

pub open spec fn fold_function_model(
    g: spec_fn(ItemModel) -> ItemModel,
    x: FunctionModel,
) -> FunctionModel
    decreases size_of_function(x), 0int, 0int,
        when non_expanding(g)
{
    FunctionModel { name: x.name, args: x.args, body: fold_items_model(g, x.body) }
}

pub open spec fn fold_table_model(g: spec_fn(ItemModel) -> ItemModel, t: TableModel) -> TableModel
    decreases size_of_table(t), 0int, 0int,
        when non_expanding(g)
{
    TableModel { name: t.name, pipeline: fold_transformations_model(g, t.pipeline) }
}

/// Whether a fold succeeds: the handler must accept every item node it is
/// consulted on, walking the same nodes the fold itself walks.
pub open spec fn fold_item_ok(
    ac: spec_fn(ItemModel) -> bool,
    g: spec_fn(ItemModel) -> ItemModel,
    m: ItemModel,
) -> bool
    decreases size_of_item(m), 0int, 0int,
        when non_expanding(g)
{
    ac(m) && match g(m) {
        ItemModel::Transformation(t) => fold_transformation_ok(ac, g, t),
        ItemModel::Ident(_) => true,
        ItemModel::Str(_) => true,
        ItemModel::Raw(_) => true,
        ItemModel::Assign(a) => fold_item_ok(ac, g, *a.rvalue),
        ItemModel::NamedArg(n) => fold_item_ok(ac, g, *n.arg),
        ItemModel::Query(s) => fold_items_ok(ac, g, s),
        ItemModel::Pipeline(p) => fold_transformations_ok(ac, g, p),
        ItemModel::List(l) => fold_list_items_ok(ac, g, l),
        ItemModel::Terms(s) => fold_items_ok(ac, g, s),
        ItemModel::Items(s) => fold_items_ok(ac, g, s),
        ItemModel::Idents(_) => true,
        ItemModel::Function(x) => fold_items_ok(ac, g, x.body),
        ItemModel::Table(t) => fold_transformations_ok(ac, g, t.pipeline),
        ItemModel::SString(v) => fold_sstring_items_ok(ac, g, v),
        ItemModel::Todo(_) => true,
    }
}

pub open spec fn fold_items_ok(
    ac: spec_fn(ItemModel) -> bool,
    g: spec_fn(ItemModel) -> ItemModel,
    s: Seq<ItemModel>,
) -> bool
    decreases size_of_items(s), 1int, s.len() as int,
        when non_expanding(g)
{
    if s.len() == 0 {
        true
    } else {
        fold_items_ok(ac, g, s.drop_last()) && fold_item_ok(ac, g, s.last())
    }
}

pub open spec fn fold_list_items_ok(
    ac: spec_fn(ItemModel) -> bool,
    g: spec_fn(ItemModel) -> ItemModel,
    s: Seq<Seq<ItemModel>>,
) -> bool
    decreases size_of_list_items(s), 2int, s.len() as int,
        when non_expanding(g)
{
    if s.len() == 0 {
        true
    } else {
        fold_list_items_ok(ac, g, s.drop_last()) && fold_items_ok(ac, g, s.last())
    }
}

pub open spec fn fold_transformation_ok(
    ac: spec_fn(ItemModel) -> bool,
    g: spec_fn(ItemModel) -> ItemModel,
    t: TransformationModel,
) -> bool
    decreases size_of_transformation(t), 0int, 0int,
        when non_expanding(g)
{
    match t {
        TransformationModel::From(_) => true,
        TransformationModel::Select(s) => fold_items_ok(ac, g, s),
        TransformationModel::Filter(s) => fold_items_ok(ac, g, s),
        TransformationModel::Derive(a) => fold_assigns_ok(ac, g, a),
        TransformationModel::Aggregate { by, calcs, assigns } => fold_items_ok(ac, g, by)
            && fold_items_ok(ac, g, calcs) && fold_assigns_ok(ac, g, assigns),
        TransformationModel::Sort(s) => fold_items_ok(ac, g, s),
        TransformationModel::Take(_) => true,
        TransformationModel::Join(s) => fold_items_ok(ac, g, s),
        TransformationModel::Func(c) => fold_items_ok(ac, g, c.args) && fold_named_args_ok(
            ac,
            g,
            c.named_args,
        ),
    }
}

pub open spec fn fold_transformations_ok(
    ac: spec_fn(ItemModel) -> bool,
    g: spec_fn(ItemModel) -> ItemModel,
    s: Seq<TransformationModel>,
) -> bool
    decreases size_of_transformations(s), 1int, s.len() as int,
        when non_expanding(g)
{
    if s.len() == 0 {
        true
    } else {
        fold_transformations_ok(ac, g, s.drop_last()) && fold_transformation_ok(ac, g, s.last())
    }
}

pub open spec fn fold_assign_ok(
    ac: spec_fn(ItemModel) -> bool,
    g: spec_fn(ItemModel) -> ItemModel,
    a: AssignModel,
) -> bool
    decreases size_of_assign(a), 0int, 0int,
        when non_expanding(g)
{
    fold_item_ok(ac, g, *a.rvalue)
}

pub open spec fn fold_named_arg_ok(
    ac: spec_fn(ItemModel) -> bool,
    g: spec_fn(ItemModel) -> ItemModel,
    n: NamedArgModel,
) -> bool
    decreases size_of_named_arg(n), 0int, 0int,
        when non_expanding(g)
{
    fold_item_ok(ac, g, *n.arg)
}

pub open spec fn fold_sstring_item_ok(
    ac: spec_fn(ItemModel) -> bool,
    g: spec_fn(ItemModel) -> ItemModel,
    x: SStringItemModel,
) -> bool
    decreases size_of_sstring_item(x), 0int, 0int,
        when non_expanding(g)
{
    match x {
        SStringItemModel::Str(_) => true,
        SStringItemModel::Expr(i) => fold_item_ok(ac, g, *i),
    }
}

pub open spec fn fold_assigns_ok(
    ac: spec_fn(ItemModel) -> bool,
    g: spec_fn(ItemModel) -> ItemModel,
    s: Seq<AssignModel>,
) -> bool
    decreases size_of_assigns(s), 1int, s.len() as int,
        when non_expanding(g)
{
    if s.len() == 0 {
        true
    } else {
        fold_assigns_ok(ac, g, s.drop_last()) && fold_assign_ok(ac, g, s.last())
    }
}

pub open spec fn fold_named_args_ok(
    ac: spec_fn(ItemModel) -> bool,
    g: spec_fn(ItemModel) -> ItemModel,
    s: Seq<NamedArgModel>,
) -> bool
    decreases size_of_named_args(s), 1int, s.len() as int,
        when non_expanding(g)
{
    if s.len() == 0 {
        true
    } else {
        fold_named_args_ok(ac, g, s.drop_last()) && fold_named_arg_ok(ac, g, s.last())
    }
}

pub open spec fn fold_sstring_items_ok(
    ac: spec_fn(ItemModel) -> bool,
    g: spec_fn(ItemModel) -> ItemModel,
    s: Seq<SStringItemModel>,
) -> bool
    decreases size_of_sstring_items(s), 1int, s.len() as int,
        when non_expanding(g)
{
    if s.len() == 0 {
        true
    } else {
        fold_sstring_items_ok(ac, g, s.drop_last()) && fold_sstring_item_ok(ac, g, s.last())
    }
}

/// The ghost meaning of a pass's handler, as a function value.
pub open spec fn rewrite_of<F: AstFold>(f: F) -> spec_fn(ItemModel) -> ItemModel {
    |m: ItemModel| f.rewrite(m)
}

/// The ghost success condition of a pass's handler, as a function value.
pub open spec fn accepts_of<F: AstFold>(f: F) -> spec_fn(ItemModel) -> bool {
    |m: ItemModel| f.accepts(m)
}

pub proof fn lemma_non_expanding<F: AstFold>(f: F)
    ensures
        non_expanding(rewrite_of(f)),
{
    assert forall|m: ItemModel| size_of_item(#[trigger] rewrite_of(f)(m)) <= size_of_item(m) by {
        f.rewrite_non_expanding(m);
        assert(rewrite_of(f)(m) == f.rewrite(m));
    }
}

/// A tree-rewriting pass.  The handler `fold_item` is consulted at every
/// item node before the fold descends; the two spec members describe the
/// handler, and the proof member keeps the fold terminating.  A handler
/// leaves the pass's state unchanged, so one fold means the same thing at
/// every node it visits.
pub trait AstFold where Self: Sized {
    /// What the handler makes of one node, before the fold descends into
    /// the result's children.
    spec fn rewrite(&self, m: ItemModel) -> ItemModel;

    /// On which nodes the handler succeeds.
    spec fn accepts(&self, m: ItemModel) -> bool;

    /// The handler never makes a node larger.
    proof fn rewrite_non_expanding(&self, m: ItemModel)
        ensures
            size_of_item(self.rewrite(m)) <= size_of_item(m),
    ;

    /// The overridable per-node handler.
    fn fold_item(&mut self, item: Item) -> (r: Result<Item, Error>)
        ensures
            *final(self) == *old(self),
            (r is Ok <==> old(self).accepts(item@)),
            (r matches Ok(p) ==> p@ == old(self).rewrite(item@)),
    ;
}

/// Folds one item: applies the pass's handler, then rebuilds the result
/// with every child folded.  The first failure aborts the fold.
pub fn fold_item_with<F: AstFold>(f: &mut F, item: Item) -> (r: Result<Item, Error>)
    ensures
        *final(f) == *old(f),
        (r matches Ok(out) ==> out@ == fold_item_model(rewrite_of(*old(f)), item@)),
        (r is Ok <==> fold_item_ok(accepts_of(*old(f)), rewrite_of(*old(f)), item@)),
    decreases size_of_item(item@), 0int, 0int,
{
    let ghost f0 = *f;
    let ghost m0 = item@;
    let ghost g = rewrite_of(f0);
    let ghost ac = accepts_of(f0);
    proof {
        lemma_non_expanding::<F>(f0);
        assert(g(m0) == f0.rewrite(m0));
        assert(ac(m0) == f0.accepts(m0));
    }
    let pre = match f.fold_item(item) {
        Ok(p) => p,
        Err(e) => {
            return Err(e);
        },
    };
    proof {
        assert(size_of_item(pre@) <= size_of_item(m0));
    }
    match pre {
        Item::Transformation(t) => {
            match fold_transformation_with(f, t) {
                Ok(t2) => Ok(Item::Transformation(t2)),
                Err(e) => Err(e),
            }
        },
        Item::Ident(s) => Ok(Item::Ident(s)),
        Item::String(s) => Ok(Item::String(s)),
        Item::Raw(s) => Ok(Item::Raw(s)),
        Item::Assign(a) => {
            match fold_assign_with(f, a) {
                Ok(a2) => Ok(Item::Assign(a2)),
                Err(e) => Err(e),
            }
        },
        Item::NamedArg(n) => {
            match fold_named_arg_with(f, n) {
                Ok(n2) => Ok(Item::NamedArg(n2)),
                Err(e) => Err(e),
            }
        },
        Item::Query(v) => {
            match fold_items_with(f, v) {
                Ok(v2) => Ok(Item::Query(v2)),
                Err(e) => Err(e),
            }
        },
        Item::Pipeline(p) => {
            match fold_transformations_with(f, p) {
                Ok(p2) => Ok(Item::Pipeline(p2)),
                Err(e) => Err(e),
            }
        },
        Item::List(l) => {
            match fold_list_entries_with(f, l) {
                Ok(l2) => Ok(Item::List(l2)),
                Err(e) => Err(e),
            }
        },
        Item::Terms(v) => {
            match fold_items_with(f, v) {
                Ok(v2) => Ok(Item::Terms(v2)),
                Err(e) => Err(e),
            }
        },
        Item::Items(v) => {
            match fold_items_with(f, v) {
                Ok(v2) => Ok(Item::Items(v2)),
                Err(e) => Err(e),
            }
        },
        Item::Idents(v) => Ok(Item::Idents(v)),
        Item::Function(x) => {
            match fold_function_with(f, x) {
                Ok(x2) => Ok(Item::Function(x2)),
                Err(e) => Err(e),
            }
        },
        Item::Table(t) => {
            match fold_table_with(f, t) {
                Ok(t2) => Ok(Item::Table(t2)),
                Err(e) => Err(e),
            }
        },
        Item::SString(v) => {
            match fold_sstring_items_with(f, v) {
                Ok(v2) => Ok(Item::SString(v2)),
                Err(e) => Err(e),
            }
        },
        Item::Todo(s) => Ok(Item::Todo(s)),
    }
}

/// Folds a sequence of items, in order.
pub fn fold_items_with<F: AstFold>(f: &mut F, v: Vec<Item>) -> (r: Result<Vec<Item>, Error>)
    ensures
        *final(f) == *old(f),
        (r matches Ok(out) ==> view_of_items(out@) == fold_items_model(
            rewrite_of(*old(f)),
            view_of_items(v@),
        )),
        (r is Ok <==> fold_items_ok(
            accepts_of(*old(f)),
            rewrite_of(*old(f)),
            view_of_items(v@),
        )),
    decreases size_of_items(view_of_items(v@)), 1int, v@.len() as int,
{
    let ghost f0 = *f;
    proof {
        lemma_non_expanding::<F>(f0);
    }
    let ghost vs = view_of_items(v@);
    let ghost va = v@;
    let mut v = v;
    let last = match v.pop() {
        None => {
            return Ok(Vec::new());
        },
        Some(x) => x,
    };
    proof {
        assert(v@ =~= va.drop_last());
        assert(vs == view_of_items(v@).push(view_of_item(last)));
        assert(vs.drop_last() =~= view_of_items(v@));
        assert(vs.last() == view_of_item(last));
    }
    let mut rest = match fold_items_with(f, v) {
        Ok(r) => r,
        Err(e) => {
            return Err(e);
        },
    };
    let x2 = match fold_item_with(f, last) {
        Ok(r) => r,
        Err(e) => {
            return Err(e);
        },
    };
    proof {
        crate::model::lemma_view_of_items_push(rest@, x2);
    }
    rest.push(x2);
    Ok(rest)
}

/// Folds the entries of a list; each entry keeps its own boundary.
pub fn fold_list_entries_with<F: AstFold>(f: &mut F, l: Vec<ListItem>) -> (r: Result<
    Vec<ListItem>,
    Error,
>)
    ensures
        *final(f) == *old(f),
        (r matches Ok(out) ==> crate::model::view_of_list_items(out@) == fold_list_items_model(
            rewrite_of(*old(f)),
            crate::model::view_of_list_items(l@),
        )),
        (r is Ok <==> fold_list_items_ok(
            accepts_of(*old(f)),
            rewrite_of(*old(f)),
            crate::model::view_of_list_items(l@),
        )),
    decreases size_of_list_items(crate::model::view_of_list_items(l@)), 2int, l@.len() as int,
{
    let ghost f0 = *f;
    proof {
        lemma_non_expanding::<F>(f0);
    }
    let ghost ls = crate::model::view_of_list_items(l@);
    let ghost la = l@;
    let mut l = l;
    let last = match l.pop() {
        None => {
            return Ok(Vec::new());
        },
        Some(x) => x,
    };
    proof {
        assert(l@ =~= la.drop_last());
        assert(ls == crate::model::view_of_list_items(l@).push(
            crate::model::view_of_list_item(last),
        ));
        assert(ls.drop_last() =~= crate::model::view_of_list_items(l@));
        assert(ls.last() == crate::model::view_of_list_item(last));
    }
    let mut rest = match fold_list_entries_with(f, l) {
        Ok(r) => r,
        Err(e) => {
            return Err(e);
        },
    };
    let ListItem(inner) = last;
    let inner2 = match fold_items_with(f, inner) {
        Ok(r) => r,
        Err(e) => {
            return Err(e);
        },
    };
    let entry = ListItem(inner2);
    proof {
        crate::model::lemma_view_of_list_items_push(rest@, entry);
    }
    rest.push(entry);
    Ok(rest)
}

/// Folds one pipeline stage by folding the items it holds.
pub fn fold_transformation_with<F: AstFold>(f: &mut F, t: Transformation) -> (r: Result<
    Transformation,
    Error,
>)
    ensures
        *final(f) == *old(f),
        (r matches Ok(out) ==> out@ == fold_transformation_model(rewrite_of(*old(f)), t@)),
        (r is Ok <==> fold_transformation_ok(
            accepts_of(*old(f)),
            rewrite_of(*old(f)),
            t@,
        )),
    decreases size_of_transformation(t@), 0int, 0int,
{
    let ghost f0 = *f;
    proof {
        lemma_non_expanding::<F>(f0);
    }
    match t {
        Transformation::From(s) => Ok(Transformation::From(s)),
        Transformation::Select(v) => {
            match fold_items_with(f, v) {
                Ok(v2) => Ok(Transformation::Select(v2)),
                Err(e) => Err(e),
            }
        },
        Transformation::Filter(Filter(v)) => {
            match fold_items_with(f, v) {
                Ok(v2) => Ok(Transformation::Filter(Filter(v2))),
                Err(e) => Err(e),
            }
        },
        Transformation::Derive(a) => {
            match fold_assigns_with(f, a) {
                Ok(a2) => Ok(Transformation::Derive(a2)),
                Err(e) => Err(e),
            }
        },
        Transformation::Aggregate { by, calcs, assigns } => {
            let by2 = match fold_items_with(f, by) {
                Ok(r) => r,
                Err(e) => {
                    return Err(e);
                },
            };
            let calcs2 = match fold_items_with(f, calcs) {
                Ok(r) => r,
                Err(e) => {
                    return Err(e);
                },
            };
            let assigns2 = match fold_assigns_with(f, assigns) {
                Ok(r) => r,
                Err(e) => {
                    return Err(e);
                },
            };
            Ok(Transformation::Aggregate { by: by2, calcs: calcs2, assigns: assigns2 })
        },
        Transformation::Sort(v) => {
            match fold_items_with(f, v) {
                Ok(v2) => Ok(Transformation::Sort(v2)),
                Err(e) => Err(e),
            }
        },
        Transformation::Take(n) => Ok(Transformation::Take(n)),
        Transformation::Join(v) => {
            match fold_items_with(f, v) {
                Ok(v2) => Ok(Transformation::Join(v2)),
                Err(e) => Err(e),
            }
        },
        Transformation::Func(c) => {
            match fold_func_call_with(f, c) {
                Ok(c2) => Ok(Transformation::Func(c2)),
                Err(e) => Err(e),
            }
        },
    }
}

/// Folds a pipeline, stage by stage, keeping the order.
pub fn fold_transformations_with<F: AstFold>(f: &mut F, v: Vec<Transformation>) -> (r: Result<
    Vec<Transformation>,
    Error,
>)
    ensures
        *final(f) == *old(f),
        (r matches Ok(out) ==> crate::model::view_of_transformations(out@)
            == fold_transformations_model(
            rewrite_of(*old(f)),
            crate::model::view_of_transformations(v@),
        )),
        (r is Ok <==> fold_transformations_ok(
            accepts_of(*old(f)),
            rewrite_of(*old(f)),
            crate::model::view_of_transformations(v@),
        )),
    decreases size_of_transformations(crate::model::view_of_transformations(v@)), 1int, v@.len() as int,
{
    let ghost f0 = *f;
    proof {
        lemma_non_expanding::<F>(f0);
    }
    let ghost vs = crate::model::view_of_transformations(v@);
    let ghost va = v@;
    let mut v = v;
    let last = match v.pop() {
        None => {
            return Ok(Vec::new());
        },
        Some(x) => x,
    };
    proof {
        assert(v@ =~= va.drop_last());
        assert(vs == crate::model::view_of_transformations(v@).push(crate::model::view_of_transformation(last)));
        assert(vs.drop_last() =~= crate::model::view_of_transformations(v@));
        assert(vs.last() == crate::model::view_of_transformation(last));
    }
    let mut rest = match fold_transformations_with(f, v) {
        Ok(r) => r,
        Err(e) => {
            return Err(e);
        },
    };
    let x2 = match fold_transformation_with(f, last) {
        Ok(r) => r,
        Err(e) => {
            return Err(e);
        },
    };
    proof {
        crate::model::lemma_view_of_transformations_push(rest@, x2);
    }
    rest.push(x2);
    Ok(rest)
}

/// Folds a binding by folding its right-hand side.
pub fn fold_assign_with<F: AstFold>(f: &mut F, a: Assign) -> (r: Result<Assign, Error>)
    ensures
        *final(f) == *old(f),
        (r matches Ok(out) ==> out@ == fold_assign_model(rewrite_of(*old(f)), a@)),
        (r is Ok <==> fold_assign_ok(accepts_of(*old(f)), rewrite_of(*old(f)), a@)),
    decreases size_of_assign(a@), 0int, 0int,
{
    let ghost f0 = *f;
    proof {
        lemma_non_expanding::<F>(f0);
    }
    let Assign { lvalue, rvalue } = a;
    match fold_item_with(f, *rvalue) {
        Ok(x) => Ok(Assign { lvalue, rvalue: Box::new(x) }),
        Err(e) => Err(e),
    }
}

/// Folds a sequence of bindings, in order.
pub fn fold_assigns_with<F: AstFold>(f: &mut F, v: Vec<Assign>) -> (r: Result<Vec<Assign>, Error>)
    ensures
        *final(f) == *old(f),
        (r matches Ok(out) ==> crate::model::view_of_assigns(out@) == fold_assigns_model(
            rewrite_of(*old(f)),
            crate::model::view_of_assigns(v@),
        )),
        (r is Ok <==> fold_assigns_ok(
            accepts_of(*old(f)),
            rewrite_of(*old(f)),
            crate::model::view_of_assigns(v@),
        )),
    decreases size_of_assigns(crate::model::view_of_assigns(v@)), 1int, v@.len() as int,
{
    let ghost f0 = *f;
    proof {
        lemma_non_expanding::<F>(f0);
    }
    let ghost vs = crate::model::view_of_assigns(v@);
    let ghost va = v@;
    let mut v = v;
    let last = match v.pop() {
        None => {
            return Ok(Vec::new());
        },
        Some(x) => x,
    };
    proof {
        assert(v@ =~= va.drop_last());
        assert(vs == crate::model::view_of_assigns(v@).push(crate::model::view_of_assign(last)));
        assert(vs.drop_last() =~= crate::model::view_of_assigns(v@));
        assert(vs.last() == crate::model::view_of_assign(last));
    }
    let mut rest = match fold_assigns_with(f, v) {
        Ok(r) => r,
        Err(e) => {
            return Err(e);
        },
    };
    let x2 = match fold_assign_with(f, last) {
        Ok(r) => r,
        Err(e) => {
            return Err(e);
        },
    };
    proof {
        crate::model::lemma_view_of_assigns_push(rest@, x2);
    }
    rest.push(x2);
    Ok(rest)
}

/// Folds a keyword argument by folding its value.
pub fn fold_named_arg_with<F: AstFold>(f: &mut F, n: NamedArg) -> (r: Result<NamedArg, Error>)
    ensures
        *final(f) == *old(f),
        (r matches Ok(out) ==> out@ == fold_named_arg_model(rewrite_of(*old(f)), n@)),
        (r is Ok <==> fold_named_arg_ok(accepts_of(*old(f)), rewrite_of(*old(f)), n@)),
    decreases size_of_named_arg(n@), 0int, 0int,
{
    let ghost f0 = *f;
    proof {
        lemma_non_expanding::<F>(f0);
    }
    let NamedArg { name, arg } = n;
    match fold_item_with(f, *arg) {
        Ok(x) => Ok(NamedArg { name, arg: Box::new(x) }),
        Err(e) => Err(e),
    }
}

/// Folds a sequence of keyword arguments, in order.
pub fn fold_named_args_with<F: AstFold>(f: &mut F, v: Vec<NamedArg>) -> (r: Result<
    Vec<NamedArg>,
    Error,
>)
    ensures
        *final(f) == *old(f),
        (r matches Ok(out) ==> crate::model::view_of_named_args(out@) == fold_named_args_model(
            rewrite_of(*old(f)),
            crate::model::view_of_named_args(v@),
        )),
        (r is Ok <==> fold_named_args_ok(
            accepts_of(*old(f)),
            rewrite_of(*old(f)),
            crate::model::view_of_named_args(v@),
        )),
    decreases size_of_named_args(crate::model::view_of_named_args(v@)), 1int, v@.len() as int,
{
    let ghost f0 = *f;
    proof {
        lemma_non_expanding::<F>(f0);
    }
    let ghost vs = crate::model::view_of_named_args(v@);
    let ghost va = v@;
    let mut v = v;
    let last = match v.pop() {
        None => {
            return Ok(Vec::new());
        },
        Some(x) => x,
    };
    proof {
        assert(v@ =~= va.drop_last());
        assert(vs == crate::model::view_of_named_args(v@).push(crate::model::view_of_named_arg(last)));
        assert(vs.drop_last() =~= crate::model::view_of_named_args(v@));
        assert(vs.last() == crate::model::view_of_named_arg(last));
    }
    let mut rest = match fold_named_args_with(f, v) {
        Ok(r) => r,
        Err(e) => {
            return Err(e);
        },
    };
    let x2 = match fold_named_arg_with(f, last) {
        Ok(r) => r,
        Err(e) => {
            return Err(e);
        },
    };
    proof {
        crate::model::lemma_view_of_named_args_push(rest@, x2);
    }
    rest.push(x2);
    Ok(rest)
}

/// Folds one interpolated-string fragment.
pub fn fold_sstring_item_with<F: AstFold>(f: &mut F, x: SStringItem) -> (r: Result<
    SStringItem,
    Error,
>)
    ensures
        *final(f) == *old(f),
        (r matches Ok(out) ==> out@ == fold_sstring_item_model(rewrite_of(*old(f)), x@)),
        (r is Ok <==> fold_sstring_item_ok(accepts_of(*old(f)), rewrite_of(*old(f)), x@)),
    decreases size_of_sstring_item(x@), 0int, 0int,
{
    let ghost f0 = *f;
    proof {
        lemma_non_expanding::<F>(f0);
    }
    match x {
        SStringItem::String(s) => Ok(SStringItem::String(s)),
        SStringItem::Expr(i) => {
            match fold_item_with(f, i) {
                Ok(i2) => Ok(SStringItem::Expr(i2)),
                Err(e) => Err(e),
            }
        },
    }
}

/// Folds the fragments of an interpolated string, in order.
pub fn fold_sstring_items_with<F: AstFold>(f: &mut F, v: Vec<SStringItem>) -> (r: Result<
    Vec<SStringItem>,
    Error,
>)
    ensures
        *final(f) == *old(f),
        (r matches Ok(out) ==> crate::model::view_of_sstring_items(out@)
            == fold_sstring_items_model(
            rewrite_of(*old(f)),
            crate::model::view_of_sstring_items(v@),
        )),
        (r is Ok <==> fold_sstring_items_ok(
            accepts_of(*old(f)),
            rewrite_of(*old(f)),
            crate::model::view_of_sstring_items(v@),
        )),
    decreases size_of_sstring_items(crate::model::view_of_sstring_items(v@)), 1int, v@.len() as int,
{
    let ghost f0 = *f;
    proof {
        lemma_non_expanding::<F>(f0);
    }
    let ghost vs = crate::model::view_of_sstring_items(v@);
    let ghost va = v@;
    let mut v = v;
    let last = match v.pop() {
        None => {
            return Ok(Vec::new());
        },
        Some(x) => x,
    };
    proof {
        assert(v@ =~= va.drop_last());
        assert(vs == crate::model::view_of_sstring_items(v@).push(crate::model::view_of_sstring_item(last)));
        assert(vs.drop_last() =~= crate::model::view_of_sstring_items(v@));
        assert(vs.last() == crate::model::view_of_sstring_item(last));
    }
    let mut rest = match fold_sstring_items_with(f, v) {
        Ok(r) => r,
        Err(e) => {
            return Err(e);
        },
    };
    let x2 = match fold_sstring_item_with(f, last) {
        Ok(r) => r,
        Err(e) => {
            return Err(e);
        },
    };
    proof {
        crate::model::lemma_view_of_sstring_items_push(rest@, x2);
    }
    rest.push(x2);
    Ok(rest)
}

/// Folds an unresolved call: its positional and keyword arguments.
pub fn fold_func_call_with<F: AstFold>(f: &mut F, c: FuncCall) -> (r: Result<FuncCall, Error>)
    ensures
        *final(f) == *old(f),
        (r matches Ok(out) ==> out@ == fold_func_call_model(rewrite_of(*old(f)), c@)),
        (r is Ok <==> (fold_items_ok(accepts_of(*old(f)), rewrite_of(*old(f)), c@.args)
            && fold_named_args_ok(
            accepts_of(*old(f)),
            rewrite_of(*old(f)),
            c@.named_args,
        ))),
    decreases size_of_func_call(c@), 0int, 0int,
{
    let ghost f0 = *f;
    proof {
        lemma_non_expanding::<F>(f0);
    }
    let FuncCall { name, args, named_args } = c;
    let args2 = match fold_items_with(f, args) {
        Ok(r) => r,
        Err(e) => {
            return Err(e);
        },
    };
    let named2 = match fold_named_args_with(f, named_args) {
        Ok(r) => r,
        Err(e) => {
            return Err(e);
        },
    };
    Ok(FuncCall { name, args: args2, named_args: named2 })
}

/// Folds a function definition: its body; name and parameters stay.
pub fn fold_function_with<F: AstFold>(f: &mut F, x: Function) -> (r: Result<Function, Error>)
    ensures
        *final(f) == *old(f),
        (r matches Ok(out) ==> out@ == fold_function_model(rewrite_of(*old(f)), x@)),
        (r is Ok <==> fold_items_ok(accepts_of(*old(f)), rewrite_of(*old(f)), x@.body)),
    decreases size_of_function(x@), 0int, 0int,
{
    let ghost f0 = *f;
    proof {
        lemma_non_expanding::<F>(f0);
    }
    let Function { name, args, body } = x;
    match fold_items_with(f, body) {
        Ok(body2) => Ok(Function { name, args, body: body2 }),
        Err(e) => Err(e),
    }
}

/// The per-node rewrite of the unnest pass: a `Terms` node is replaced
/// by the scalar behind its singleton-wrapper chain; every other node is
/// left as it is.
pub open spec fn unnest_rewrite(m: ItemModel) -> ItemModel {
    match m {
        ItemModel::Terms(_) => crate::model::scalar_of_item(m),
        _ => m,
    }
}

/// The unnest rewrite as a function value, for the fold's contracts.
pub open spec fn unnest_rewrite_fn() -> spec_fn(ItemModel) -> ItemModel {
    |m: ItemModel| unnest_rewrite(m)
}

/// What unnesting a tree produces: the fold driven by `unnest_rewrite`.
pub open spec fn unnest_of(m: ItemModel) -> ItemModel {
    fold_item_model(unnest_rewrite_fn(), m)
}

pub proof fn lemma_unnest_non_expanding()
    ensures
        non_expanding(unnest_rewrite_fn()),
{
    assert forall|m: ItemModel|
        size_of_item(#[trigger] unnest_rewrite_fn()(m)) <= size_of_item(m) by {
        crate::model::lemma_scalar_size(m);
    }
}

pub proof fn lemma_ok_total_item(
    ac: spec_fn(ItemModel) -> bool,
    g: spec_fn(ItemModel) -> ItemModel,
    m: ItemModel,
)
    requires
        non_expanding(g),
        forall|x: ItemModel| #[trigger] ac(x),
    ensures
        fold_item_ok(ac, g, m),
    decreases size_of_item(m), 0int, 0int,
{
    match g(m) {
        ItemModel::Transformation(t) => {
            lemma_ok_total_transformation(ac, g, t);
        },
        ItemModel::Assign(a) => {
            lemma_ok_total_item(ac, g, *a.rvalue);
        },
        ItemModel::NamedArg(n) => {
            lemma_ok_total_item(ac, g, *n.arg);
        },
        ItemModel::Query(s) => {
            lemma_ok_total_items(ac, g, s);
        },
        ItemModel::Pipeline(p) => {
            lemma_ok_total_transformations(ac, g, p);
        },
        ItemModel::List(l) => {
            lemma_ok_total_list_items(ac, g, l);
        },
        ItemModel::Terms(s) => {
            lemma_ok_total_items(ac, g, s);
        },
        ItemModel::Items(s) => {
            lemma_ok_total_items(ac, g, s);
        },
        ItemModel::Function(x) => {
            lemma_ok_total_items(ac, g, x.body);
        },
        ItemModel::Table(t) => {
            lemma_ok_total_transformations(ac, g, t.pipeline);
        },
        ItemModel::SString(v) => {
            lemma_ok_total_sstring_items(ac, g, v);
        },
        _ => {},
    }
}

pub proof fn lemma_ok_total_items(
    ac: spec_fn(ItemModel) -> bool,
    g: spec_fn(ItemModel) -> ItemModel,
    s: Seq<ItemModel>,
)
    requires
        non_expanding(g),
        forall|x: ItemModel| #[trigger] ac(x),
    ensures
        fold_items_ok(ac, g, s),
    decreases size_of_items(s), 1int, s.len() as int,
{
    if s.len() > 0 {
        lemma_ok_total_items(ac, g, s.drop_last());
        lemma_ok_total_item(ac, g, s.last());
    }
}

pub proof fn lemma_ok_total_list_items(
    ac: spec_fn(ItemModel) -> bool,
    g: spec_fn(ItemModel) -> ItemModel,
    s: Seq<Seq<ItemModel>>,
)
    requires
        non_expanding(g),
        forall|x: ItemModel| #[trigger] ac(x),
    ensures
        fold_list_items_ok(ac, g, s),
    decreases size_of_list_items(s), 2int, s.len() as int,
{
    if s.len() > 0 {
        lemma_ok_total_list_items(ac, g, s.drop_last());
        lemma_ok_total_items(ac, g, s.last());
    }
}

pub proof fn lemma_ok_total_transformation(
    ac: spec_fn(ItemModel) -> bool,
    g: spec_fn(ItemModel) -> ItemModel,
    t: TransformationModel,
)
    requires
        non_expanding(g),
        forall|x: ItemModel| #[trigger] ac(x),
    ensures
        fold_transformation_ok(ac, g, t),
    decreases size_of_transformation(t), 0int, 0int,
{
    match t {
        TransformationModel::Select(s) => {
            lemma_ok_total_items(ac, g, s);
        },
        TransformationModel::Filter(s) => {
            lemma_ok_total_items(ac, g, s);
        },
        TransformationModel::Derive(a) => {
            lemma_ok_total_assigns(ac, g, a);
        },
        TransformationModel::Aggregate { by, calcs, assigns } => {
            lemma_ok_total_items(ac, g, by);
            lemma_ok_total_items(ac, g, calcs);
            lemma_ok_total_assigns(ac, g, assigns);
        },
        TransformationModel::Sort(s) => {
            lemma_ok_total_items(ac, g, s);
        },
        TransformationModel::Join(s) => {
            lemma_ok_total_items(ac, g, s);
        },
        TransformationModel::Func(c) => {
            lemma_ok_total_items(ac, g, c.args);
            lemma_ok_total_named_args(ac, g, c.named_args);
        },
        _ => {},
    }
}

pub proof fn lemma_ok_total_transformations(
    ac: spec_fn(ItemModel) -> bool,
    g: spec_fn(ItemModel) -> ItemModel,
    s: Seq<TransformationModel>,
)
    requires
        non_expanding(g),
        forall|x: ItemModel| #[trigger] ac(x),
    ensures
        fold_transformations_ok(ac, g, s),
    decreases size_of_transformations(s), 1int, s.len() as int,
{
    if s.len() > 0 {
        lemma_ok_total_transformations(ac, g, s.drop_last());
        lemma_ok_total_transformation(ac, g, s.last());
    }
}

pub proof fn lemma_ok_total_assigns(
    ac: spec_fn(ItemModel) -> bool,
    g: spec_fn(ItemModel) -> ItemModel,
    s: Seq<AssignModel>,
)
    requires
        non_expanding(g),
        forall|x: ItemModel| #[trigger] ac(x),
    ensures
        fold_assigns_ok(ac, g, s),
    decreases size_of_assigns(s), 1int, s.len() as int,
{
    if s.len() > 0 {
        lemma_ok_total_assigns(ac, g, s.drop_last());
        lemma_ok_total_assign(ac, g, s.last());
    }
}

pub proof fn lemma_ok_total_assign(
    ac: spec_fn(ItemModel) -> bool,
    g: spec_fn(ItemModel) -> ItemModel,
    a: AssignModel,
)
    requires
        non_expanding(g),
        forall|x: ItemModel| #[trigger] ac(x),
    ensures
        fold_assign_ok(ac, g, a),
    decreases size_of_assign(a), 0int, 0int,
{
    lemma_ok_total_item(ac, g, *a.rvalue);
}

pub proof fn lemma_ok_total_named_args(
    ac: spec_fn(ItemModel) -> bool,
    g: spec_fn(ItemModel) -> ItemModel,
    s: Seq<NamedArgModel>,
)
    requires
        non_expanding(g),
        forall|x: ItemModel| #[trigger] ac(x),
    ensures
        fold_named_args_ok(ac, g, s),
    decreases size_of_named_args(s), 1int, s.len() as int,
{
    if s.len() > 0 {
        lemma_ok_total_named_args(ac, g, s.drop_last());
        lemma_ok_total_named_arg(ac, g, s.last());
    }
}

pub proof fn lemma_ok_total_named_arg(
    ac: spec_fn(ItemModel) -> bool,
    g: spec_fn(ItemModel) -> ItemModel,
    n: NamedArgModel,
)
    requires
        non_expanding(g),
        forall|x: ItemModel| #[trigger] ac(x),
    ensures
        fold_named_arg_ok(ac, g, n),
    decreases size_of_named_arg(n), 0int, 0int,
{
    lemma_ok_total_item(ac, g, *n.arg);
}

pub proof fn lemma_ok_total_sstring_items(
    ac: spec_fn(ItemModel) -> bool,
    g: spec_fn(ItemModel) -> ItemModel,
    s: Seq<SStringItemModel>,
)
    requires
        non_expanding(g),
        forall|x: ItemModel| #[trigger] ac(x),
    ensures
        fold_sstring_items_ok(ac, g, s),
    decreases size_of_sstring_items(s), 1int, s.len() as int,
{
    if s.len() > 0 {
        lemma_ok_total_sstring_items(ac, g, s.drop_last());
        lemma_ok_total_sstring_item(ac, g, s.last());
    }
}

pub proof fn lemma_ok_total_sstring_item(
    ac: spec_fn(ItemModel) -> bool,
    g: spec_fn(ItemModel) -> ItemModel,
    x: SStringItemModel,
)
    requires
        non_expanding(g),
        forall|y: ItemModel| #[trigger] ac(y),
    ensures
        fold_sstring_item_ok(ac, g, x),
    decreases size_of_sstring_item(x), 0int, 0int,
{
    match x {
        SStringItemModel::Expr(i) => {
            lemma_ok_total_item(ac, g, *i);
        },
        _ => {},
    }
}

/// Folds a table definition: its pipeline; the name stays.
pub fn fold_table_with<F: AstFold>(f: &mut F, t: Table) -> (r: Result<Table, Error>)
    ensures
        *final(f) == *old(f),
        (r matches Ok(out) ==> out@ == fold_table_model(rewrite_of(*old(f)), t@)),
        (r is Ok <==> fold_transformations_ok(
            accepts_of(*old(f)),
            rewrite_of(*old(f)),
            t@.pipeline,
        )),
    decreases size_of_table(t@), 0int, 0int,
{
    let ghost f0 = *f;
    proof {
        lemma_non_expanding::<F>(f0);
    }
    let Table { name, pipeline } = t;
    match fold_transformations_with(f, pipeline) {
        Ok(p2) => Ok(Table { name, pipeline: p2 }),
        Err(e) => Err(e),
    }
}

pub proof fn lemma_fold_items_len(g: spec_fn(ItemModel) -> ItemModel, s: Seq<ItemModel>)
    requires
        non_expanding(g),
    ensures
        fold_items_model(g, s).len() == s.len(),
    decreases s,
{
    if s.len() > 0 {
        lemma_fold_items_len(g, s.drop_last());
    }
}

/// The scalar projection never stops on a singleton wrapper: if it yields
/// a `Terms` or `Items` node, that node does not hold exactly one element.
pub proof fn lemma_scalar_not_singleton(m: ItemModel)
    ensures
        (crate::model::scalar_of_item(m) matches ItemModel::Terms(s) ==> s.len() != 1),
        (crate::model::scalar_of_item(m) matches ItemModel::Items(s) ==> s.len() != 1),
    decreases size_of_item(m),
{
    match m {
        ItemModel::Terms(s) => {
            if s.len() == 1 {
                crate::model::lemma_size_of_items_index(s, 0);
                lemma_scalar_not_singleton(s.first());
            }
        },
        ItemModel::Items(s) => {
            if s.len() == 1 {
                crate::model::lemma_size_of_items_index(s, 0);
                lemma_scalar_not_singleton(s.first());
            }
        },
        _ => {},
    }
}

proof fn lemma_unnest_idem_item(m: ItemModel)
    ensures
        fold_item_model(unnest_rewrite_fn(), fold_item_model(unnest_rewrite_fn(), m))
            == fold_item_model(unnest_rewrite_fn(), m),
    decreases size_of_item(m), 0int, 0int,
{
    lemma_unnest_non_expanding();
    let u = unnest_rewrite_fn();
    let p = u(m);
    assert(p == unnest_rewrite(m));
    assert(size_of_item(p) <= size_of_item(m));
    let r = fold_item_model(u, m);
    match p {
        ItemModel::Transformation(t) => {
            lemma_unnest_idem_transformation(t);
        },
        ItemModel::Assign(a) => {
            lemma_unnest_idem_assign(a);
        },
        ItemModel::NamedArg(n) => {
            lemma_unnest_idem_named_arg(n);
        },
        ItemModel::Query(s) => {
            lemma_unnest_idem_items(s);
        },
        ItemModel::Pipeline(ts) => {
            lemma_unnest_idem_transformations(ts);
        },
        ItemModel::List(l) => {
            lemma_unnest_idem_list_items(l);
        },
        ItemModel::Terms(s) => {
            assert(m is Terms);
            lemma_scalar_not_singleton(m);
            assert(s.len() != 1);
            lemma_fold_items_len(u, s);
            assert(r == ItemModel::Terms(fold_items_model(u, s)));
            assert(u(r) == r);
            lemma_unnest_idem_items(s);
        },
        ItemModel::Items(s) => {
            lemma_unnest_idem_items(s);
        },
        ItemModel::Function(x) => {
            lemma_unnest_idem_items(x.body);
        },
        ItemModel::Table(t) => {
            lemma_unnest_idem_transformations(t.pipeline);
        },
        ItemModel::SString(v) => {
            lemma_unnest_idem_sstring_items(v);
        },
        _ => {},
    }
}

proof fn lemma_unnest_idem_items(s: Seq<ItemModel>)
    ensures
        fold_items_model(unnest_rewrite_fn(), fold_items_model(unnest_rewrite_fn(), s))
            == fold_items_model(unnest_rewrite_fn(), s),
    decreases size_of_items(s), 1int, s.len() as int,
{
    lemma_unnest_non_expanding();
    let u = unnest_rewrite_fn();
    if s.len() > 0 {
        lemma_unnest_idem_items(s.drop_last());
        lemma_unnest_idem_item(s.last());
        let x = fold_items_model(u, s);
        assert(x == fold_items_model(u, s.drop_last()).push(fold_item_model(u, s.last())));
        assert(x.drop_last() =~= fold_items_model(u, s.drop_last()));
        assert(x.last() == fold_item_model(u, s.last()));
    }
}

proof fn lemma_unnest_idem_list_items(s: Seq<Seq<ItemModel>>)
    ensures
        fold_list_items_model(
            unnest_rewrite_fn(),
            fold_list_items_model(unnest_rewrite_fn(), s),
        ) == fold_list_items_model(unnest_rewrite_fn(), s),
    decreases size_of_list_items(s), 2int, s.len() as int,
{
    lemma_unnest_non_expanding();
    let u = unnest_rewrite_fn();
    if s.len() > 0 {
        lemma_unnest_idem_list_items(s.drop_last());
        lemma_unnest_idem_items(s.last());
        let x = fold_list_items_model(u, s);
        assert(x == fold_list_items_model(u, s.drop_last()).push(fold_items_model(u, s.last())));
        assert(x.drop_last() =~= fold_list_items_model(u, s.drop_last()));
        assert(x.last() == fold_items_model(u, s.last()));
    }
}

proof fn lemma_unnest_idem_transformation(t: TransformationModel)
    ensures
        fold_transformation_model(
            unnest_rewrite_fn(),
            fold_transformation_model(unnest_rewrite_fn(), t),
        ) == fold_transformation_model(unnest_rewrite_fn(), t),
    decreases size_of_transformation(t), 0int, 0int,
{
    lemma_unnest_non_expanding();
    match t {
        TransformationModel::Select(s) => {
            lemma_unnest_idem_items(s);
        },
        TransformationModel::Filter(s) => {
            lemma_unnest_idem_items(s);
        },
        TransformationModel::Derive(a) => {
            lemma_unnest_idem_assigns(a);
        },
        TransformationModel::Aggregate { by, calcs, assigns } => {
            lemma_unnest_idem_items(by);
            lemma_unnest_idem_items(calcs);
            lemma_unnest_idem_assigns(assigns);
        },
        TransformationModel::Sort(s) => {
            lemma_unnest_idem_items(s);
        },
        TransformationModel::Join(s) => {
            lemma_unnest_idem_items(s);
        },
        TransformationModel::Func(c) => {
            lemma_unnest_idem_items(c.args);
            lemma_unnest_idem_named_args(c.named_args);
        },
        _ => {},
    }
}

proof fn lemma_unnest_idem_transformations(s: Seq<TransformationModel>)
    ensures
        fold_transformations_model(
            unnest_rewrite_fn(),
            fold_transformations_model(unnest_rewrite_fn(), s),
        ) == fold_transformations_model(unnest_rewrite_fn(), s),
    decreases size_of_transformations(s), 1int, s.len() as int,
{
    lemma_unnest_non_expanding();
    let u = unnest_rewrite_fn();
    if s.len() > 0 {
        lemma_unnest_idem_transformations(s.drop_last());
        lemma_unnest_idem_transformation(s.last());
        let x = fold_transformations_model(u, s);
        assert(x == fold_transformations_model(u, s.drop_last()).push(
            fold_transformation_model(u, s.last()),
        ));
        assert(x.drop_last() =~= fold_transformations_model(u, s.drop_last()));
        assert(x.last() == fold_transformation_model(u, s.last()));
    }
}

proof fn lemma_unnest_idem_assign(a: AssignModel)
    ensures
        fold_assign_model(unnest_rewrite_fn(), fold_assign_model(unnest_rewrite_fn(), a))
            == fold_assign_model(unnest_rewrite_fn(), a),
    decreases size_of_assign(a), 0int, 0int,
{
    lemma_unnest_non_expanding();
    lemma_unnest_idem_item(*a.rvalue);
}

proof fn lemma_unnest_idem_assigns(s: Seq<AssignModel>)
    ensures
        fold_assigns_model(unnest_rewrite_fn(), fold_assigns_model(unnest_rewrite_fn(), s))
            == fold_assigns_model(unnest_rewrite_fn(), s),
    decreases size_of_assigns(s), 1int, s.len() as int,
{
    lemma_unnest_non_expanding();
    let u = unnest_rewrite_fn();
    if s.len() > 0 {
        lemma_unnest_idem_assigns(s.drop_last());
        lemma_unnest_idem_assign(s.last());
        let x = fold_assigns_model(u, s);
        assert(x == fold_assigns_model(u, s.drop_last()).push(fold_assign_model(u, s.last())));
        assert(x.drop_last() =~= fold_assigns_model(u, s.drop_last()));
        assert(x.last() == fold_assign_model(u, s.last()));
    }
}

proof fn lemma_unnest_idem_named_arg(n: NamedArgModel)
    ensures
        fold_named_arg_model(unnest_rewrite_fn(), fold_named_arg_model(unnest_rewrite_fn(), n))
            == fold_named_arg_model(unnest_rewrite_fn(), n),
    decreases size_of_named_arg(n), 0int, 0int,
{
    lemma_unnest_non_expanding();
    lemma_unnest_idem_item(*n.arg);
}

proof fn lemma_unnest_idem_named_args(s: Seq<NamedArgModel>)
    ensures
        fold_named_args_model(
            unnest_rewrite_fn(),
            fold_named_args_model(unnest_rewrite_fn(), s),
        ) == fold_named_args_model(unnest_rewrite_fn(), s),
    decreases size_of_named_args(s), 1int, s.len() as int,
{
    lemma_unnest_non_expanding();
    let u = unnest_rewrite_fn();
    if s.len() > 0 {
        lemma_unnest_idem_named_args(s.drop_last());
        lemma_unnest_idem_named_arg(s.last());
        let x = fold_named_args_model(u, s);
        assert(x == fold_named_args_model(u, s.drop_last()).push(
            fold_named_arg_model(u, s.last()),
        ));
        assert(x.drop_last() =~= fold_named_args_model(u, s.drop_last()));
        assert(x.last() == fold_named_arg_model(u, s.last()));
    }
}

proof fn lemma_unnest_idem_sstring_item(x: SStringItemModel)
    ensures
        fold_sstring_item_model(
            unnest_rewrite_fn(),
            fold_sstring_item_model(unnest_rewrite_fn(), x),
        ) == fold_sstring_item_model(unnest_rewrite_fn(), x),
    decreases size_of_sstring_item(x), 0int, 0int,
{
    lemma_unnest_non_expanding();
    match x {
        SStringItemModel::Expr(i) => {
            lemma_unnest_idem_item(*i);
        },
        _ => {},
    }
}

proof fn lemma_unnest_idem_sstring_items(s: Seq<SStringItemModel>)
    ensures
        fold_sstring_items_model(
            unnest_rewrite_fn(),
            fold_sstring_items_model(unnest_rewrite_fn(), s),
        ) == fold_sstring_items_model(unnest_rewrite_fn(), s),
    decreases size_of_sstring_items(s), 1int, s.len() as int,
{
    lemma_unnest_non_expanding();
    let u = unnest_rewrite_fn();
    if s.len() > 0 {
        lemma_unnest_idem_sstring_items(s.drop_last());
        lemma_unnest_idem_sstring_item(s.last());
        let x = fold_sstring_items_model(u, s);
        assert(x == fold_sstring_items_model(u, s.drop_last()).push(
            fold_sstring_item_model(u, s.last()),
        ));
        assert(x.drop_last() =~= fold_sstring_items_model(u, s.drop_last()));
        assert(x.last() == fold_sstring_item_model(u, s.last()));
    }
}

/// Unnesting is idempotent: running the pass on its own output returns
/// that output unchanged, for every tree.
pub proof fn lemma_unnest_idempotent(m: ItemModel)
    ensures
        unnest_of(unnest_of(m)) == unnest_of(m),
{
    lemma_unnest_idem_item(m);
}

/// Unnesting never collapses a list: a `List` stays a `List`, with the
/// same number of entries, each entry folded in place.
pub proof fn lemma_unnest_keeps_list(ls: Seq<Seq<ItemModel>>)
    ensures
        unnest_of(ItemModel::List(ls)) == ItemModel::List(
            fold_list_items_model(unnest_rewrite_fn(), ls),
        ),
        unnest_of(ItemModel::List(ls)) matches ItemModel::List(ls2) && ls2.len() == ls.len(),
{
    lemma_unnest_non_expanding();
    lemma_fold_list_items_len(unnest_rewrite_fn(), ls);
}

pub proof fn lemma_fold_list_items_len(g: spec_fn(ItemModel) -> ItemModel, s: Seq<Seq<ItemModel>>)
    requires
        non_expanding(g),
    ensures
        fold_list_items_model(g, s).len() == s.len(),
    decreases s,
{
    if s.len() > 0 {
        lemma_fold_list_items_len(g, s.drop_last());
    }
}

} // verus!
