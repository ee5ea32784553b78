//! The elements of a document in pre-order: each element, then the
//! elements inside it (in its parameters' values, its condition, its rows,
//! cells and items, and its children, in that order).
//!
//! The walk can pass over the parameters of `{{{#define}}}` blocks, as the
//! symbol outline does.

use vstd::prelude::*;

use crate::ast::{
    ConditionalListItems, ConditionalTableCells, ConditionalTableRows, Element, Expression,
    FoldInner, ListContentItem, ListItem, Parameter, TableCell, TableCellItem, TableRow,
    TableRowItem,
};

verus! {

/// The elements of `es` and everything in them, in pre-order; the
/// parameters of definitions are entered only when `into_defines`.
pub open spec fn pre_elements(es: Seq<Element>, into_defines: bool) -> Seq<Element>
    decreases es,
{
    if es.len() == 0 {
        seq![]
    } else {
        pre_elements(es.drop_last(), into_defines) + pre_element(es[es.len() - 1], into_defines)
    }
}

/// The elements in the values of parameters.
pub open spec fn pre_params(ps: Seq<Parameter>, into_defines: bool) -> Seq<Element>
    decreases ps,
{
    if ps.len() == 0 {
        seq![]
    } else {
        pre_params(ps.drop_last(), into_defines) + pre_elements(
            ps[ps.len() - 1].value@,
            into_defines,
        )
    }
}

/// An element, then the elements inside it.
pub open spec fn pre_element(e: Element, into_defines: bool) -> Seq<Element>
    decreases e,
{
    seq![e] + match e {
        Element::Literal(c) => pre_elements(c.children@, into_defines),
        Element::Category(c) => pre_elements(c.children@, into_defines),
        Element::Bold(c) => pre_elements(c.children@, into_defines),
        Element::Italic(c) => pre_elements(c.children@, into_defines),
        Element::Strikethrough(c) => pre_elements(c.children@, into_defines),
        Element::Underline(c) => pre_elements(c.children@, into_defines),
        Element::Superscript(c) => pre_elements(c.children@, into_defines),
        Element::Subscript(c) => pre_elements(c.children@, into_defines),
        Element::Header(h) => pre_elements(h.children@, into_defines),
        Element::Styled(c) => pre_params(c.parameters@, into_defines) + pre_elements(c.children@, into_defines),
        Element::BlockQuote(c) => pre_params(c.parameters@, into_defines) + pre_elements(c.children@, into_defines),
        Element::Ruby(c) => pre_params(c.parameters@, into_defines) + pre_elements(c.children@, into_defines),
        Element::Footnote(c) => pre_params(c.parameters@, into_defines) + pre_elements(c.children@, into_defines),
        Element::Include(c) => pre_params(c.parameters@, into_defines) + pre_elements(c.children@, into_defines),
        Element::Redirect(c) => pre_params(c.parameters@, into_defines) + pre_elements(c.children@, into_defines),
        Element::Media(c) => pre_params(c.parameters@, into_defines) + pre_elements(c.children@, into_defines),
        Element::Define(l) => if into_defines {
            pre_params(l.parameters@, into_defines)
        } else {
            seq![]
        },
        Element::Code(l) => pre_params(l.parameters@, into_defines),
        Element::ExternalMedia(x) => pre_params(x.parameters@, into_defines),
        Element::Table(t) => pre_params(t.parameters@, into_defines) + pre_row_items(t.children@, into_defines),
        Element::List(l) => pre_params(l.parameters@, into_defines) + pre_list_contents(l.children@, into_defines),
        Element::Fold(f) => pre_params(f.parameters@, into_defines) + pre_fold_inner(f.summary, into_defines)
            + pre_fold_inner(f.details, into_defines),
        Element::If(i) => pre_expr(i.condition, into_defines) + pre_elements(i.children@, into_defines),
        _ => seq![],
    }
}

/// The elements in the entries of a table.
pub open spec fn pre_row_items(items: Seq<TableRowItem>, into_defines: bool) -> Seq<Element>
    decreases items,
{
    if items.len() == 0 {
        seq![]
    } else {
        pre_row_items(items.drop_last(), into_defines) + match items[items.len() - 1] {
            TableRowItem::Row(r) => pre_row(r, into_defines),
            TableRowItem::Conditional(c) => pre_cond_rows(c, into_defines),
        }
    }
}

/// The elements in rows.
pub open spec fn pre_rows(rows: Seq<TableRow>, into_defines: bool) -> Seq<Element>
    decreases rows,
{
    if rows.len() == 0 {
        seq![]
    } else {
        pre_rows(rows.drop_last(), into_defines) + pre_row(rows[rows.len() - 1], into_defines)
    }
}

/// The elements in a row: its parameters, then its entries.
pub open spec fn pre_row(r: TableRow, into_defines: bool) -> Seq<Element>
    decreases r,
{
    pre_params(r.parameters@, into_defines) + pre_cell_items(r.children@, into_defines)
}

/// The elements in conditional rows: the condition, then the rows.
pub open spec fn pre_cond_rows(c: ConditionalTableRows, into_defines: bool) -> Seq<Element>
    decreases c,
{
    pre_expr(c.condition, into_defines) + pre_rows(c.rows@, into_defines)
}

/// The elements in the entries of a row.
pub open spec fn pre_cell_items(items: Seq<TableCellItem>, into_defines: bool) -> Seq<Element>
    decreases items,
{
    if items.len() == 0 {
        seq![]
    } else {
        pre_cell_items(items.drop_last(), into_defines) + match items[items.len() - 1] {
            TableCellItem::Cell(c) => pre_cell(c, into_defines),
            TableCellItem::Conditional(c) => pre_cond_cells(c, into_defines),
        }
    }
}

/// The elements in cells.
pub open spec fn pre_cells(cells: Seq<TableCell>, into_defines: bool) -> Seq<Element>
    decreases cells,
{
    if cells.len() == 0 {
        seq![]
    } else {
        pre_cells(cells.drop_last(), into_defines) + pre_cell(cells[cells.len() - 1], into_defines)
    }
}

/// The elements in a cell: parameters, `x`, `y`, content.
pub open spec fn pre_cell(c: TableCell, into_defines: bool) -> Seq<Element>
    decreases c,
{
    pre_params(c.parameters@, into_defines) + pre_elements(c.x@, into_defines) + pre_elements(
        c.y@,
        into_defines,
    ) + pre_elements(c.children@, into_defines)
}

/// The elements in conditional cells: the condition, then the cells.
pub open spec fn pre_cond_cells(c: ConditionalTableCells, into_defines: bool) -> Seq<Element>
    decreases c,
{
    pre_expr(c.condition, into_defines) + pre_cells(c.cells@, into_defines)
}

/// The elements in the entries of a list.
pub open spec fn pre_list_contents(items: Seq<ListContentItem>, into_defines: bool) -> Seq<Element>
    decreases items,
{
    if items.len() == 0 {
        seq![]
    } else {
        pre_list_contents(items.drop_last(), into_defines) + match items[items.len() - 1] {
            ListContentItem::Item(li) => pre_list_item(li, into_defines),
            ListContentItem::Conditional(c) => pre_cond_items(c, into_defines),
        }
    }
}

/// The elements in list items.
pub open spec fn pre_list_items(items: Seq<ListItem>, into_defines: bool) -> Seq<Element>
    decreases items,
{
    if items.len() == 0 {
        seq![]
    } else {
        pre_list_items(items.drop_last(), into_defines) + pre_list_item(
            items[items.len() - 1],
            into_defines,
        )
    }
}

/// The elements in a list item: parameters, then content.
pub open spec fn pre_list_item(li: ListItem, into_defines: bool) -> Seq<Element>
    decreases li,
{
    pre_params(li.parameters@, into_defines) + pre_elements(li.children@, into_defines)
}

/// The elements in conditional list items: the condition, then the items.
pub open spec fn pre_cond_items(c: ConditionalListItems, into_defines: bool) -> Seq<Element>
    decreases c,
{
    pre_expr(c.condition, into_defines) + pre_list_items(c.items@, into_defines)
}

/// The elements in the summary or details of a fold.
pub open spec fn pre_fold_inner(f: FoldInner, into_defines: bool) -> Seq<Element>
    decreases f,
{
    pre_params(f.parameters@, into_defines) + pre_elements(f.children@, into_defines)
}

/// The elements in conditions.
pub open spec fn pre_exprs(xs: Seq<Expression>, into_defines: bool) -> Seq<Element>
    decreases xs,
{
    if xs.len() == 0 {
        seq![]
    } else {
        pre_exprs(xs.drop_last(), into_defines) + pre_expr(xs[xs.len() - 1], into_defines)
    }
}

/// The elements in a condition: in its operands, string literals and
/// element operands, in order.
pub open spec fn pre_expr(x: Expression, into_defines: bool) -> Seq<Element>
    decreases x,
{
    match x {
        Expression::Or { left, right, .. } => pre_expr(*left, into_defines) + pre_expr(*right, into_defines),
        Expression::And { left, right, .. } => pre_expr(*left, into_defines) + pre_expr(*right, into_defines),
        Expression::Not { inner, .. } => pre_expr(*inner, into_defines),
        Expression::Comparison { left, right, .. } => pre_expr(*left, into_defines) + pre_expr(
            *right,
            into_defines,
        ),
        Expression::FunctionCall { arguments, .. } => pre_exprs(arguments@, into_defines),
        Expression::StringLiteral { value, .. } => pre_elements(value@, into_defines),
        Expression::Group { inner, .. } => pre_expr(*inner, into_defines),
        Expression::Element(e) => pre_element(*e, into_defines),
        _ => seq![],
    }
}

/// The elements that references point to.
pub open spec fn derefs<'a>(v: Seq<&'a Element>) -> Seq<Element> {
    v.map_values(|r: &'a Element| *r)
}

#[verifier::spinoff_prover]
fn walk_elements<'a>(es: &'a Vec<Element>, d: bool, out: &mut Vec<&'a Element>)
    ensures
        derefs(final(out)@) == derefs(old(out)@) + pre_elements(es@, d),
    decreases es,
{
    let ghost start = derefs(out@);
    let mut i: usize = 0;
    while i < es.len()
        invariant
            i <= es.len(),
            derefs(out@) == start + pre_elements(es@.take(i as int), d),
        decreases es.len() - i,
    {
        proof {
            vstd::std_specs::vec::axiom_vec_index_decreases(*es, i as int);
            assert(es@.take(i + 1).drop_last() =~= es@.take(i as int));
            assert(es@.take(i + 1)[i as int] == es@[i as int]);
        }
        walk_element(&es[i], d, out);
        assert(derefs(out@) =~= start + pre_elements(es@.take(i + 1), d));
        i = i + 1;
    }
    assert(es@.take(i as int) =~= es@);
}

#[verifier::spinoff_prover]
fn walk_params<'a>(ps: &'a Vec<Parameter>, d: bool, out: &mut Vec<&'a Element>)
    ensures
        derefs(final(out)@) == derefs(old(out)@) + pre_params(ps@, d),
    decreases ps,
{
    let ghost start = derefs(out@);
    let mut i: usize = 0;
    while i < ps.len()
        invariant
            i <= ps.len(),
            derefs(out@) == start + pre_params(ps@.take(i as int), d),
        decreases ps.len() - i,
    {
        proof {
            vstd::std_specs::vec::axiom_vec_index_decreases(*ps, i as int);
            assert(ps@.take(i + 1).drop_last() =~= ps@.take(i as int));
            assert(ps@.take(i + 1)[i as int] == ps@[i as int]);
        }
        walk_elements(&ps[i].value, d, out);
        assert(derefs(out@) =~= start + pre_params(ps@.take(i + 1), d));
        i = i + 1;
    }
    assert(ps@.take(i as int) =~= ps@);
}

#[verifier::spinoff_prover]
#[verifier::rlimit(60)]
fn walk_element<'a>(e: &'a Element, d: bool, out: &mut Vec<&'a Element>)
    ensures
        derefs(final(out)@) == derefs(old(out)@) + pre_element(*e, d),
    decreases e,
{
    let ghost start = derefs(out@);
    out.push(e);
    assert(derefs(out@) =~= start + seq![*e]);
    match e {
        Element::Literal(c) | Element::Category(c) | Element::Bold(c) | Element::Italic(c)
        | Element::Strikethrough(c) | Element::Underline(c) | Element::Superscript(c)
        | Element::Subscript(c) => {
            walk_elements(&c.children, d, out);
        },
        Element::Header(h) => {
            walk_elements(&h.children, d, out);
        },
        Element::Styled(c) | Element::BlockQuote(c) | Element::Ruby(c) | Element::Footnote(c)
        | Element::Include(c) | Element::Redirect(c) | Element::Media(c) => {
            walk_params(&c.parameters, d, out);
            walk_elements(&c.children, d, out);
        },
        Element::Define(l) => {
            if d {
                walk_params(&l.parameters, d, out);
            }
        },
        Element::Code(l) => {
            walk_params(&l.parameters, d, out);
        },
        Element::ExternalMedia(x) => {
            walk_params(&x.parameters, d, out);
        },
        Element::Table(t) => {
            walk_params(&t.parameters, d, out);
            walk_row_items(&t.children, d, out);
        },
        Element::List(l) => {
            walk_params(&l.parameters, d, out);
            walk_list_contents(&l.children, d, out);
        },
        Element::Fold(f) => {
            walk_params(&f.parameters, d, out);
            walk_fold_inner(&f.summary, d, out);
            walk_fold_inner(&f.details, d, out);
        },
        Element::If(i) => {
            walk_expr(&i.condition, d, out);
            walk_elements(&i.children, d, out);
        },
        _ => {},
    }
    assert(derefs(out@) =~= start + pre_element(*e, d));
}

#[verifier::spinoff_prover]
fn walk_row_items<'a>(items: &'a Vec<TableRowItem>, d: bool, out: &mut Vec<&'a Element>)
    ensures
        derefs(final(out)@) == derefs(old(out)@) + pre_row_items(items@, d),
    decreases items,
{
    let ghost start = derefs(out@);
    let mut i: usize = 0;
    while i < items.len()
        invariant
            i <= items.len(),
            derefs(out@) == start + pre_row_items(items@.take(i as int), d),
        decreases items.len() - i,
    {
        proof {
            vstd::std_specs::vec::axiom_vec_index_decreases(*items, i as int);
            assert(items@.take(i + 1).drop_last() =~= items@.take(i as int));
            assert(items@.take(i + 1)[i as int] == items@[i as int]);
        }
        match &items[i] {
            TableRowItem::Row(r) => walk_row(r, d, out),
            TableRowItem::Conditional(c) => walk_cond_rows(c, d, out),
        }
        assert(derefs(out@) =~= start + pre_row_items(items@.take(i + 1), d));
        i = i + 1;
    }
    assert(items@.take(i as int) =~= items@);
}

#[verifier::spinoff_prover]
fn walk_rows<'a>(rows: &'a Vec<TableRow>, d: bool, out: &mut Vec<&'a Element>)
    ensures
        derefs(final(out)@) == derefs(old(out)@) + pre_rows(rows@, d),
    decreases rows,
{
    let ghost start = derefs(out@);
    let mut i: usize = 0;
    while i < rows.len()
        invariant
            i <= rows.len(),
            derefs(out@) == start + pre_rows(rows@.take(i as int), d),
        decreases rows.len() - i,
    {
        proof {
            vstd::std_specs::vec::axiom_vec_index_decreases(*rows, i as int);
            assert(rows@.take(i + 1).drop_last() =~= rows@.take(i as int));
            assert(rows@.take(i + 1)[i as int] == rows@[i as int]);
        }
        walk_row(&rows[i], d, out);
        assert(derefs(out@) =~= start + pre_rows(rows@.take(i + 1), d));
        i = i + 1;
    }
    assert(rows@.take(i as int) =~= rows@);
}

#[verifier::spinoff_prover]
fn walk_row<'a>(r: &'a TableRow, d: bool, out: &mut Vec<&'a Element>)
    ensures
        derefs(final(out)@) == derefs(old(out)@) + pre_row(*r, d),
    decreases r,
{
    let ghost start = derefs(out@);
    walk_params(&r.parameters, d, out);
    walk_cell_items(&r.children, d, out);
    assert(derefs(out@) =~= start + pre_row(*r, d));
}

#[verifier::spinoff_prover]
fn walk_cond_rows<'a>(c: &'a ConditionalTableRows, d: bool, out: &mut Vec<&'a Element>)
    ensures
        derefs(final(out)@) == derefs(old(out)@) + pre_cond_rows(*c, d),
    decreases c,
{
    let ghost start = derefs(out@);
    walk_expr(&c.condition, d, out);
    walk_rows(&c.rows, d, out);
    assert(derefs(out@) =~= start + pre_cond_rows(*c, d));
}

#[verifier::spinoff_prover]
fn walk_cell_items<'a>(items: &'a Vec<TableCellItem>, d: bool, out: &mut Vec<&'a Element>)
    ensures
        derefs(final(out)@) == derefs(old(out)@) + pre_cell_items(items@, d),
    decreases items,
{
    let ghost start = derefs(out@);
    let mut i: usize = 0;
    while i < items.len()
        invariant
            i <= items.len(),
            derefs(out@) == start + pre_cell_items(items@.take(i as int), d),
        decreases items.len() - i,
    {
        proof {
            vstd::std_specs::vec::axiom_vec_index_decreases(*items, i as int);
            assert(items@.take(i + 1).drop_last() =~= items@.take(i as int));
            assert(items@.take(i + 1)[i as int] == items@[i as int]);
        }
        match &items[i] {
            TableCellItem::Cell(c) => walk_cell(c, d, out),
            TableCellItem::Conditional(c) => walk_cond_cells(c, d, out),
        }
        assert(derefs(out@) =~= start + pre_cell_items(items@.take(i + 1), d));
        i = i + 1;
    }
    assert(items@.take(i as int) =~= items@);
}

#[verifier::spinoff_prover]
fn walk_cells<'a>(cells: &'a Vec<TableCell>, d: bool, out: &mut Vec<&'a Element>)
    ensures
        derefs(final(out)@) == derefs(old(out)@) + pre_cells(cells@, d),
    decreases cells,
{
    let ghost start = derefs(out@);
    let mut i: usize = 0;
    while i < cells.len()
        invariant
            i <= cells.len(),
            derefs(out@) == start + pre_cells(cells@.take(i as int), d),
        decreases cells.len() - i,
    {
        proof {
            vstd::std_specs::vec::axiom_vec_index_decreases(*cells, i as int);
            assert(cells@.take(i + 1).drop_last() =~= cells@.take(i as int));
            assert(cells@.take(i + 1)[i as int] == cells@[i as int]);
        }
        walk_cell(&cells[i], d, out);
        assert(derefs(out@) =~= start + pre_cells(cells@.take(i + 1), d));
        i = i + 1;
    }
    assert(cells@.take(i as int) =~= cells@);
}

#[verifier::spinoff_prover]
fn walk_cell<'a>(c: &'a TableCell, d: bool, out: &mut Vec<&'a Element>)
    ensures
        derefs(final(out)@) == derefs(old(out)@) + pre_cell(*c, d),
    decreases c,
{
    let ghost start = derefs(out@);
    let ghost ps = pre_params(c.parameters@, d);
    let ghost xs = pre_elements(c.x@, d);
    let ghost ys = pre_elements(c.y@, d);
    walk_params(&c.parameters, d, out);
    walk_elements(&c.x, d, out);
    assert(derefs(out@) =~= start + (ps + xs));
    walk_elements(&c.y, d, out);
    assert(derefs(out@) =~= start + (ps + xs + ys));
    walk_elements(&c.children, d, out);
    assert(derefs(out@) =~= start + pre_cell(*c, d));
}

#[verifier::spinoff_prover]
fn walk_cond_cells<'a>(c: &'a ConditionalTableCells, d: bool, out: &mut Vec<&'a Element>)
    ensures
        derefs(final(out)@) == derefs(old(out)@) + pre_cond_cells(*c, d),
    decreases c,
{
    let ghost start = derefs(out@);
    walk_expr(&c.condition, d, out);
    walk_cells(&c.cells, d, out);
    assert(derefs(out@) =~= start + pre_cond_cells(*c, d));
}

#[verifier::spinoff_prover]
fn walk_list_contents<'a>(items: &'a Vec<ListContentItem>, d: bool, out: &mut Vec<&'a Element>)
    ensures
        derefs(final(out)@) == derefs(old(out)@) + pre_list_contents(items@, d),
    decreases items,
{
    let ghost start = derefs(out@);
    let mut i: usize = 0;
    while i < items.len()
        invariant
            i <= items.len(),
            derefs(out@) == start + pre_list_contents(items@.take(i as int), d),
        decreases items.len() - i,
    {
        proof {
            vstd::std_specs::vec::axiom_vec_index_decreases(*items, i as int);
            assert(items@.take(i + 1).drop_last() =~= items@.take(i as int));
            assert(items@.take(i + 1)[i as int] == items@[i as int]);
        }
        match &items[i] {
            ListContentItem::Item(li) => walk_list_item(li, d, out),
            ListContentItem::Conditional(c) => walk_cond_items(c, d, out),
        }
        assert(derefs(out@) =~= start + pre_list_contents(items@.take(i + 1), d));
        i = i + 1;
    }
    assert(items@.take(i as int) =~= items@);
}

#[verifier::spinoff_prover]
fn walk_list_items<'a>(items: &'a Vec<ListItem>, d: bool, out: &mut Vec<&'a Element>)
    ensures
        derefs(final(out)@) == derefs(old(out)@) + pre_list_items(items@, d),
    decreases items,
{
    let ghost start = derefs(out@);
    let mut i: usize = 0;
    while i < items.len()
        invariant
            i <= items.len(),
            derefs(out@) == start + pre_list_items(items@.take(i as int), d),
        decreases items.len() - i,
    {
        proof {
            vstd::std_specs::vec::axiom_vec_index_decreases(*items, i as int);
            assert(items@.take(i + 1).drop_last() =~= items@.take(i as int));
            assert(items@.take(i + 1)[i as int] == items@[i as int]);
        }
        walk_list_item(&items[i], d, out);
        assert(derefs(out@) =~= start + pre_list_items(items@.take(i + 1), d));
        i = i + 1;
    }
    assert(items@.take(i as int) =~= items@);
}

#[verifier::spinoff_prover]
fn walk_list_item<'a>(li: &'a ListItem, d: bool, out: &mut Vec<&'a Element>)
    ensures
        derefs(final(out)@) == derefs(old(out)@) + pre_list_item(*li, d),
    decreases li,
{
    let ghost start = derefs(out@);
    walk_params(&li.parameters, d, out);
    walk_elements(&li.children, d, out);
    assert(derefs(out@) =~= start + pre_list_item(*li, d));
}

#[verifier::spinoff_prover]
fn walk_cond_items<'a>(c: &'a ConditionalListItems, d: bool, out: &mut Vec<&'a Element>)
    ensures
        derefs(final(out)@) == derefs(old(out)@) + pre_cond_items(*c, d),
    decreases c,
{
    let ghost start = derefs(out@);
    walk_expr(&c.condition, d, out);
    walk_list_items(&c.items, d, out);
    assert(derefs(out@) =~= start + pre_cond_items(*c, d));
}

#[verifier::spinoff_prover]
fn walk_fold_inner<'a>(f: &'a FoldInner, d: bool, out: &mut Vec<&'a Element>)
    ensures
        derefs(final(out)@) == derefs(old(out)@) + pre_fold_inner(*f, d),
    decreases f,
{
    let ghost start = derefs(out@);
    walk_params(&f.parameters, d, out);
    walk_elements(&f.children, d, out);
    assert(derefs(out@) =~= start + pre_fold_inner(*f, d));
}

#[verifier::spinoff_prover]
fn walk_exprs<'a>(xs: &'a Vec<Expression>, d: bool, out: &mut Vec<&'a Element>)
    ensures
        derefs(final(out)@) == derefs(old(out)@) + pre_exprs(xs@, d),
    decreases xs,
{
    let ghost start = derefs(out@);
    let mut i: usize = 0;
    while i < xs.len()
        invariant
            i <= xs.len(),
            derefs(out@) == start + pre_exprs(xs@.take(i as int), d),
        decreases xs.len() - i,
    {
        proof {
            vstd::std_specs::vec::axiom_vec_index_decreases(*xs, i as int);
            assert(xs@.take(i + 1).drop_last() =~= xs@.take(i as int));
            assert(xs@.take(i + 1)[i as int] == xs@[i as int]);
        }
        walk_expr(&xs[i], d, out);
        assert(derefs(out@) =~= start + pre_exprs(xs@.take(i + 1), d));
        i = i + 1;
    }
    assert(xs@.take(i as int) =~= xs@);
}

#[verifier::spinoff_prover]
fn walk_expr<'a>(x: &'a Expression, d: bool, out: &mut Vec<&'a Element>)
    ensures
        derefs(final(out)@) == derefs(old(out)@) + pre_expr(*x, d),
    decreases x,
{
    let ghost start = derefs(out@);
    match x {
        Expression::Or { left, right, .. } | Expression::And { left, right, .. }
        | Expression::Comparison { left, right, .. } => {
            walk_expr(left, d, out);
            walk_expr(right, d, out);
        },
        Expression::Not { inner, .. } | Expression::Group { inner, .. } => {
            walk_expr(inner, d, out);
        },
        Expression::FunctionCall { arguments, .. } => {
            walk_exprs(arguments, d, out);
        },
        Expression::StringLiteral { value, .. } => {
            walk_elements(value, d, out);
        },
        Expression::Element(e) => {
            walk_element(e, d, out);
        },
        _ => {},
    }
    assert(derefs(out@) =~= start + pre_expr(*x, d));
}

/// The elements of a document in pre-order; the parameters of definitions
/// are entered only when `into_defines`.
pub fn preorder<'a>(elements: &'a Vec<Element>, into_defines: bool) -> (r: Vec<&'a Element>)
    ensures
        derefs(r@) == pre_elements(elements@, into_defines),
{
    let mut out: Vec<&'a Element> = Vec::new();
    assert(derefs(out@) =~= Seq::<Element>::empty());
    walk_elements(elements, into_defines, &mut out);
    assert(derefs(out@) =~= Seq::<Element>::empty() + pre_elements(elements@, into_defines));
    out
}

} // verus!
