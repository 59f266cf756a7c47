//! Mathematical model of the syntax tree.
//!
//! Every executable node type has a ghost counterpart in which every
//! `Vec` is a `Seq`, every `String` is a `Seq<char>` and every box is
//! transparent.  Contracts throughout the crate speak about these models;
//! the `view_of_*` functions map an executable value to its model.

use vstd::prelude::*;

use crate::ast::Assign;
use crate::ast::FuncCall;
use crate::ast::Function;
use crate::ast::Item;
use crate::ast::ListItem;
use crate::ast::NamedArg;
use crate::ast::SStringItem;
use crate::ast::Table;
use crate::ast::Transformation;

verus! {

/// Model of an [`Item`]: one variant per node kind.
#[verifier::ext_equal]
pub enum ItemModel {
    Transformation(TransformationModel),
    Ident(Seq<char>),
    Str(Seq<char>),
    Raw(Seq<char>),
    Assign(AssignModel),
    NamedArg(NamedArgModel),
    Query(Seq<ItemModel>),
    Pipeline(Seq<TransformationModel>),
    List(Seq<Seq<ItemModel>>),
    Terms(Seq<ItemModel>),
    Items(Seq<ItemModel>),
    Idents(Seq<Seq<char>>),
    Function(FunctionModel),
    Table(TableModel),
    SString(Seq<SStringItemModel>),
    Todo(Seq<char>),
}

/// Model of a [`Transformation`]: one pipeline stage.
#[verifier::ext_equal]
pub enum TransformationModel {
    From(Seq<char>),
    Select(Seq<ItemModel>),
    Filter(Seq<ItemModel>),
    Derive(Seq<AssignModel>),
    Aggregate { by: Seq<ItemModel>, calcs: Seq<ItemModel>, assigns: Seq<AssignModel> },
    Sort(Seq<ItemModel>),
    Take(int),
    Join(Seq<ItemModel>),
    Func(FuncCallModel),
}

/// Model of an [`Assign`] binding.
#[verifier::ext_equal]
pub struct AssignModel {
    pub lvalue: Seq<char>,
    pub rvalue: Box<ItemModel>,
}

/// Model of a [`NamedArg`] keyword argument.
#[verifier::ext_equal]
pub struct NamedArgModel {
    pub name: Seq<char>,
    pub arg: Box<ItemModel>,
}

/// Model of a [`Function`] definition.
#[verifier::ext_equal]
pub struct FunctionModel {
    pub name: Seq<char>,
    pub args: Seq<Seq<char>>,
    pub body: Seq<ItemModel>,
}

/// Model of a [`FuncCall`].
#[verifier::ext_equal]
pub struct FuncCallModel {
    pub name: Seq<char>,
    pub args: Seq<ItemModel>,
    pub named_args: Seq<NamedArgModel>,
}

/// Model of a [`Table`] definition.
#[verifier::ext_equal]
pub struct TableModel {
    pub name: Seq<char>,
    pub pipeline: Seq<TransformationModel>,
}

/// Model of an [`SStringItem`]: literal fragment or embedded expression.
#[verifier::ext_equal]
pub enum SStringItemModel {
    Str(Seq<char>),
    Expr(Box<ItemModel>),
}

pub open spec fn view_of_item(i: Item) -> ItemModel
    decreases i,
{
    match i {
        Item::Transformation(t) => ItemModel::Transformation(view_of_transformation(t)),
        Item::Ident(s) => ItemModel::Ident(s@),
        Item::String(s) => ItemModel::Str(s@),
        Item::Raw(s) => ItemModel::Raw(s@),
        Item::Assign(a) => ItemModel::Assign(view_of_assign(a)),
        Item::NamedArg(n) => ItemModel::NamedArg(view_of_named_arg(n)),
        Item::Query(v) => ItemModel::Query(view_of_items(v@)),
        Item::Pipeline(p) => ItemModel::Pipeline(view_of_transformations(p@)),
        Item::List(l) => ItemModel::List(view_of_list_items(l@)),
        Item::Terms(v) => ItemModel::Terms(view_of_items(v@)),
        Item::Items(v) => ItemModel::Items(view_of_items(v@)),
        Item::Idents(v) => ItemModel::Idents(view_of_strings(v@)),
        Item::Function(f) => ItemModel::Function(view_of_function(f)),
        Item::Table(t) => ItemModel::Table(view_of_table(t)),
        Item::SString(v) => ItemModel::SString(view_of_sstring_items(v@)),
        Item::Todo(s) => ItemModel::Todo(s@),
    }
}

pub open spec fn view_of_items(v: Seq<Item>) -> Seq<ItemModel>
    decreases v,
{
    if v.len() == 0 {
        Seq::empty()
    } else {
        view_of_items(v.drop_last()).push(view_of_item(v.last()))
    }
}

pub open spec fn view_of_list_item(li: ListItem) -> Seq<ItemModel>
    decreases li,
{
    view_of_items(li.0@)
}

pub open spec fn view_of_list_items(v: Seq<ListItem>) -> Seq<Seq<ItemModel>>
    decreases v,
{
    if v.len() == 0 {
        Seq::empty()
    } else {
        view_of_list_items(v.drop_last()).push(view_of_list_item(v.last()))
    }
}

pub open spec fn view_of_strings(v: Seq<String>) -> Seq<Seq<char>>
    decreases v,
{
    if v.len() == 0 {
        Seq::empty()
    } else {
        view_of_strings(v.drop_last()).push(v.last()@)
    }
}

pub open spec fn view_of_transformation(t: Transformation) -> TransformationModel
    decreases t,
{
    match t {
        Transformation::From(s) => TransformationModel::From(s@),
        Transformation::Select(v) => TransformationModel::Select(view_of_items(v@)),
        Transformation::Filter(f) => TransformationModel::Filter(view_of_items(f.0@)),
        Transformation::Derive(v) => TransformationModel::Derive(view_of_assigns(v@)),
        Transformation::Aggregate { by, calcs, assigns } => TransformationModel::Aggregate {
            by: view_of_items(by@),
            calcs: view_of_items(calcs@),
            assigns: view_of_assigns(assigns@),
        },
        Transformation::Sort(v) => TransformationModel::Sort(view_of_items(v@)),
        Transformation::Take(n) => TransformationModel::Take(n as int),
        Transformation::Join(v) => TransformationModel::Join(view_of_items(v@)),
        Transformation::Func(c) => TransformationModel::Func(view_of_func_call(c)),
    }
}

pub open spec fn view_of_transformations(v: Seq<Transformation>) -> Seq<TransformationModel>
    decreases v,
{
    if v.len() == 0 {
        Seq::empty()
    } else {
        view_of_transformations(v.drop_last()).push(view_of_transformation(v.last()))
    }
}

pub open spec fn view_of_assign(a: Assign) -> AssignModel
    decreases a,
{
    AssignModel { lvalue: a.lvalue@, rvalue: Box::new(view_of_item(*a.rvalue)) }
}

pub open spec fn view_of_assigns(v: Seq<Assign>) -> Seq<AssignModel>
    decreases v,
{
    if v.len() == 0 {
        Seq::empty()
    } else {
        view_of_assigns(v.drop_last()).push(view_of_assign(v.last()))
    }
}

pub open spec fn view_of_named_arg(n: NamedArg) -> NamedArgModel
    decreases n,
{
    NamedArgModel { name: n.name@, arg: Box::new(view_of_item(*n.arg)) }
}

pub open spec fn view_of_named_args(v: Seq<NamedArg>) -> Seq<NamedArgModel>
    decreases v,
{
    if v.len() == 0 {
        Seq::empty()
    } else {
        view_of_named_args(v.drop_last()).push(view_of_named_arg(v.last()))
    }
}

pub open spec fn view_of_sstring_item(s: SStringItem) -> SStringItemModel
    decreases s,
{
    match s {
        SStringItem::String(t) => SStringItemModel::Str(t@),
        SStringItem::Expr(i) => SStringItemModel::Expr(Box::new(view_of_item(i))),
    }
}

pub open spec fn view_of_sstring_items(v: Seq<SStringItem>) -> Seq<SStringItemModel>
    decreases v,
{
    if v.len() == 0 {
        Seq::empty()
    } else {
        view_of_sstring_items(v.drop_last()).push(view_of_sstring_item(v.last()))
    }
}

pub open spec fn view_of_func_call(c: FuncCall) -> FuncCallModel
    decreases c,
{
    FuncCallModel {
        name: c.name@,
        args: view_of_items(c.args@),
        named_args: view_of_named_args(c.named_args@),
    }
}

pub open spec fn view_of_function(f: Function) -> FunctionModel
    decreases f,
{
    FunctionModel { name: f.name@, args: view_of_strings(f.args@), body: view_of_items(f.body@) }
}

pub open spec fn view_of_table(t: Table) -> TableModel
    decreases t,
{
    TableModel { name: t.name@, pipeline: view_of_transformations(t.pipeline@) }
}

/// The models of a sequence of item vectors, e.g. the payloads of the
/// entries of a list.
pub open spec fn view_of_item_lists(v: Seq<Vec<Item>>) -> Seq<Seq<ItemModel>>
    decreases v,
{
    if v.len() == 0 {
        Seq::empty()
    } else {
        view_of_item_lists(v.drop_last()).push(view_of_items(v.last()@))
    }
}

/// The number of nodes of an item, counting every substructure; always at
/// least one.  Folds terminate because every step moves to a node of a
/// smaller size.
pub open spec fn size_of_item(m: ItemModel) -> nat
    decreases m,
{
    match m {
        ItemModel::Transformation(t) => 1 + size_of_transformation(t),
        ItemModel::Ident(_) => 1,
        ItemModel::Str(_) => 1,
        ItemModel::Raw(_) => 1,
        ItemModel::Assign(a) => 1 + size_of_assign(a),
        ItemModel::NamedArg(n) => 1 + size_of_named_arg(n),
        ItemModel::Query(s) => 1 + size_of_items(s),
        ItemModel::Pipeline(p) => 1 + size_of_transformations(p),
        ItemModel::List(l) => 1 + size_of_list_items(l),
        ItemModel::Terms(s) => 1 + size_of_items(s),
        ItemModel::Items(s) => 1 + size_of_items(s),
        ItemModel::Idents(_) => 1,
        ItemModel::Function(f) => 1 + size_of_function(f),
        ItemModel::Table(t) => 1 + size_of_table(t),
        ItemModel::SString(v) => 1 + size_of_sstring_items(v),
        ItemModel::Todo(_) => 1,
    }
}

pub open spec fn size_of_items(s: Seq<ItemModel>) -> nat
    decreases s,
{
    if s.len() == 0 {
        0
    } else {
        size_of_items(s.drop_last()) + size_of_item(s.last())
    }
}

pub open spec fn size_of_list_items(s: Seq<Seq<ItemModel>>) -> nat
    decreases s,
{
    if s.len() == 0 {
        0
    } else {
        size_of_list_items(s.drop_last()) + 1 + size_of_items(s.last())
    }
}

pub open spec fn size_of_transformation(t: TransformationModel) -> nat
    decreases t,
{
    match t {
        TransformationModel::From(_) => 1,
        TransformationModel::Select(s) => 1 + size_of_items(s),
        TransformationModel::Filter(s) => 1 + size_of_items(s),
        TransformationModel::Derive(a) => 1 + size_of_assigns(a),
        TransformationModel::Aggregate { by, calcs, assigns } => 1 + size_of_items(by)
            + size_of_items(calcs) + size_of_assigns(assigns),
        TransformationModel::Sort(s) => 1 + size_of_items(s),
        TransformationModel::Take(_) => 1,
        TransformationModel::Join(s) => 1 + size_of_items(s),
        TransformationModel::Func(c) => 1 + size_of_func_call(c),
    }
}

pub open spec fn size_of_transformations(s: Seq<TransformationModel>) -> nat
    decreases s,
{
    if s.len() == 0 {
        0
    } else {
        size_of_transformations(s.drop_last()) + size_of_transformation(s.last())
    }
}

pub open spec fn size_of_assign(a: AssignModel) -> nat
    decreases a,
{
    1 + size_of_item(*a.rvalue)
}

pub open spec fn size_of_assigns(s: Seq<AssignModel>) -> nat
    decreases s,
{
    if s.len() == 0 {
        0
    } else {
        size_of_assigns(s.drop_last()) + size_of_assign(s.last())
    }
}

pub open spec fn size_of_named_arg(n: NamedArgModel) -> nat
    decreases n,
{
    1 + size_of_item(*n.arg)
}

pub open spec fn size_of_named_args(s: Seq<NamedArgModel>) -> nat
    decreases s,
{
    if s.len() == 0 {
        0
    } else {
        size_of_named_args(s.drop_last()) + size_of_named_arg(s.last())
    }
}

pub open spec fn size_of_sstring_item(s: SStringItemModel) -> nat
    decreases s,
{
    match s {
        SStringItemModel::Str(_) => 1,
        SStringItemModel::Expr(i) => 1 + size_of_item(*i),
    }
}

pub open spec fn size_of_sstring_items(s: Seq<SStringItemModel>) -> nat
    decreases s,
{
    if s.len() == 0 {
        0
    } else {
        size_of_sstring_items(s.drop_last()) + size_of_sstring_item(s.last())
    }
}

pub open spec fn size_of_func_call(c: FuncCallModel) -> nat
    decreases c,
{
    1 + size_of_items(c.args) + size_of_named_args(c.named_args)
}

pub open spec fn size_of_function(f: FunctionModel) -> nat
    decreases f,
{
    1 + size_of_items(f.body)
}

pub open spec fn size_of_table(t: TableModel) -> nat
    decreases t,
{
    1 + size_of_transformations(t.pipeline)
}

/// The "true" value inside arbitrarily nested singleton `Terms`/`Items`
/// wrappers: unwraps while the node is such a singleton wrapper and stops
/// at the first node that is not.
pub open spec fn scalar_of_item(m: ItemModel) -> ItemModel
    decreases size_of_item(m),
{
    match m {
        ItemModel::Terms(s) => if s.len() == 1 {
            scalar_of_item(s.first())
        } else {
            m
        },
        ItemModel::Items(s) => if s.len() == 1 {
            scalar_of_item(s.first())
        } else {
            m
        },
        _ => m,
    }
}

/// The contents of `Terms`, `Items` or `Query`; any other node becomes a
/// one-element sequence holding the node itself.
pub open spec fn inner_items_of(m: ItemModel) -> Seq<ItemModel> {
    match m {
        ItemModel::Terms(s) => s,
        ItemModel::Items(s) => s,
        ItemModel::Query(s) => s,
        _ => seq![m],
    }
}

/// The node kinds whose contents `inner_items_of` hands out directly.
pub open spec fn is_inner_container(m: ItemModel) -> bool {
    ||| m is Terms
    ||| m is Items
    ||| m is Query
}

/// Wrapping in `Terms` unless the node already is one.
pub open spec fn coerce_to_terms_model(m: ItemModel) -> ItemModel {
    if m is Terms {
        m
    } else {
        ItemModel::Terms(seq![m])
    }
}

/// Wrapping as a one-entry list unless the node already is a `List`.
pub open spec fn coerce_to_list_model(m: ItemModel) -> ItemModel {
    if m is List {
        m
    } else {
        ItemModel::List(seq![seq![m]])
    }
}

/// A list in which every input item becomes its own one-element entry.
pub open spec fn list_of_items_model(s: Seq<ItemModel>) -> ItemModel {
    ItemModel::List(s.map_values(|m: ItemModel| seq![m]))
}

/// Whether every entry of a list holds exactly one element.
pub open spec fn all_singletons(ls: Seq<Seq<ItemModel>>) -> bool {
    forall|i: int| 0 <= i < ls.len() ==> ls[i].len() == 1
}

/// Whether some entry of a list holds exactly `n` elements.
pub open spec fn has_entry_of_len(ls: Seq<Seq<ItemModel>>, n: int) -> bool {
    exists|i: int| 0 <= i < ls.len() && ls[i].len() == n
}

/// The single element of each entry of a list whose entries all hold
/// exactly one element.
pub open spec fn singles_of(ls: Seq<Seq<ItemModel>>) -> Seq<ItemModel> {
    ls.map_values(|e: Seq<ItemModel>| e.first())
}

pub proof fn lemma_view_of_items_index(v: Seq<Item>)
    ensures
        view_of_items(v).len() == v.len(),
        forall|i: int| 0 <= i < v.len() ==> view_of_items(v)[i] == view_of_item(v[i]),
    decreases v,
{
    if v.len() > 0 {
        lemma_view_of_items_index(v.drop_last());
    }
}

pub proof fn lemma_view_of_list_items_index(v: Seq<ListItem>)
    ensures
        view_of_list_items(v).len() == v.len(),
        forall|i: int| 0 <= i < v.len() ==> view_of_list_items(v)[i] == view_of_list_item(v[i]),
    decreases v,
{
    if v.len() > 0 {
        lemma_view_of_list_items_index(v.drop_last());
    }
}






pub proof fn lemma_view_of_items_push(s: Seq<Item>, x: Item)
    ensures
        view_of_items(s.push(x)) == view_of_items(s).push(view_of_item(x)),
{
    assert(s.push(x).drop_last() =~= s);
    assert(s.push(x).last() == x);
}

pub proof fn lemma_view_of_list_items_push(s: Seq<ListItem>, x: ListItem)
    ensures
        view_of_list_items(s.push(x)) == view_of_list_items(s).push(view_of_list_item(x)),
{
    assert(s.push(x).drop_last() =~= s);
    assert(s.push(x).last() == x);
}

pub proof fn lemma_view_of_transformations_push(s: Seq<Transformation>, x: Transformation)
    ensures
        view_of_transformations(s.push(x)) == view_of_transformations(s).push(
            view_of_transformation(x),
        ),
{
    assert(s.push(x).drop_last() =~= s);
    assert(s.push(x).last() == x);
}

pub proof fn lemma_view_of_assigns_push(s: Seq<Assign>, x: Assign)
    ensures
        view_of_assigns(s.push(x)) == view_of_assigns(s).push(view_of_assign(x)),
{
    assert(s.push(x).drop_last() =~= s);
    assert(s.push(x).last() == x);
}

pub proof fn lemma_view_of_named_args_push(s: Seq<NamedArg>, x: NamedArg)
    ensures
        view_of_named_args(s.push(x)) == view_of_named_args(s).push(view_of_named_arg(x)),
{
    assert(s.push(x).drop_last() =~= s);
    assert(s.push(x).last() == x);
}

pub proof fn lemma_view_of_sstring_items_push(s: Seq<SStringItem>, x: SStringItem)
    ensures
        view_of_sstring_items(s.push(x)) == view_of_sstring_items(s).push(view_of_sstring_item(x)),
{
    assert(s.push(x).drop_last() =~= s);
    assert(s.push(x).last() == x);
}


pub proof fn lemma_view_of_item_lists_push(s: Seq<Vec<Item>>, x: Vec<Item>)
    ensures
        view_of_item_lists(s.push(x)) == view_of_item_lists(s).push(view_of_items(x@)),
{
    assert(s.push(x).drop_last() =~= s);
    assert(s.push(x).last() == x);
}

pub proof fn lemma_view_of_items_singleton(x: Item)
    ensures
        view_of_items(seq![x]) == seq![view_of_item(x)],
{
    let s = seq![x];
    assert(s.drop_last() =~= Seq::<Item>::empty());
    assert(s.last() == x);
    assert(view_of_items(s.drop_last()) == Seq::<ItemModel>::empty());
    assert(view_of_items(s) =~= seq![view_of_item(x)]);
}

pub proof fn lemma_view_of_list_items_singleton(li: ListItem)
    ensures
        view_of_list_items(seq![li]) == seq![view_of_list_item(li)],
{
    let s = seq![li];
    assert(s.drop_last() =~= Seq::<ListItem>::empty());
    assert(s.last() == li);
    assert(view_of_list_items(s.drop_last()) == Seq::<Seq<ItemModel>>::empty());
    assert(view_of_list_items(s) =~= seq![view_of_list_item(li)]);
}

pub proof fn lemma_size_of_items_index(s: Seq<ItemModel>, i: int)
    requires
        0 <= i < s.len(),
    ensures
        size_of_item(s[i]) <= size_of_items(s),
    decreases s,
{
    if i == s.len() - 1 {
    } else {
        lemma_size_of_items_index(s.drop_last(), i);
    }
}






/// Wrapping in `Terms` twice is the same as wrapping once.
pub proof fn lemma_coerce_to_terms_idempotent(m: ItemModel)
    ensures
        coerce_to_terms_model(coerce_to_terms_model(m)) == coerce_to_terms_model(m),
{
}

/// Wrapping as a one-entry list twice is the same as wrapping once.
pub proof fn lemma_coerce_to_list_idempotent(m: ItemModel)
    ensures
        coerce_to_list_model(coerce_to_list_model(m)) == coerce_to_list_model(m),
{
}

/// Building a list out of items and reading back the single element of
/// each entry returns the original items.
pub proof fn lemma_list_of_items_round_trip(s: Seq<ItemModel>)
    ensures
        list_of_items_model(s) matches ItemModel::List(ls) && all_singletons(ls)
            && singles_of(ls) == s,
{
    let ls = s.map_values(|m: ItemModel| seq![m]);
    assert forall|i: int| 0 <= i < ls.len() implies ls[i].len() == 1 by {
        assert(ls[i] == seq![s[i]]);
    }
    assert(singles_of(ls) =~= s);
}

/// A value that is not a list, wrapped by the list coercion, reads back
/// as the single element of a one-entry list.
pub proof fn lemma_coerce_to_list_round_trip(m: ItemModel)
    ensures
        !(m is List) ==> (coerce_to_list_model(m) matches ItemModel::List(ls)
            && all_singletons(ls) && singles_of(ls) == seq![m]),
{
    if !(m is List) {
        let ls = seq![seq![m]];
        assert forall|i: int| 0 <= i < ls.len() implies ls[i].len() == 1 by {
            assert(ls[i] == seq![m]);
        }
        assert(singles_of(ls) =~= seq![m]);
    }
}

/// Projecting out the scalar never makes a node larger.
pub proof fn lemma_scalar_size(m: ItemModel)
    ensures
        size_of_item(scalar_of_item(m)) <= size_of_item(m),
    decreases size_of_item(m),
{
    match m {
        ItemModel::Terms(s) => {
            if s.len() == 1 {
                lemma_size_of_items_index(s, 0);
                lemma_scalar_size(s.first());
            }
        },
        ItemModel::Items(s) => {
            if s.len() == 1 {
                lemma_size_of_items_index(s, 0);
                lemma_scalar_size(s.first());
            }
        },
        _ => {},
    }
}

} // verus!
