//! Folding ranges: the block elements and comments that span several lines.

use vstd::prelude::*;

use crate::ast::Element;

verus! {

/// The kind of a folding range.
#[derive(Clone, Copy, Debug, PartialEq, Eq, Structural)]
pub enum FoldKind {
    Region,
    Comment,
}

/// The folding kind of an element: block elements fold as regions, comments
/// as comments; other elements do not fold.
pub open spec fn element_fold_kind(e: Element) -> Option<FoldKind> {
    match e {
        Element::Fold(_) | Element::Code(_) | Element::Table(_) | Element::List(_)
        | Element::BlockQuote(_) | Element::If(_) | Element::Literal(_) | Element::Include(_)
        | Element::Styled(_) => Some(FoldKind::Region),
        Element::Comment(_) => Some(FoldKind::Comment),
        _ => None,
    }
}

/// Every block element (fold, code block, table, list, block quote,
/// conditional, literal, inclusion, styled block) folds as a region, a
/// comment folds as a comment, and no other element folds.
pub proof fn lemma_block_elements_fold_as_regions(e: Element)
    ensures
        e is Fold ==> element_fold_kind(e) == Some(FoldKind::Region),
        e is Code ==> element_fold_kind(e) == Some(FoldKind::Region),
        e is Table ==> element_fold_kind(e) == Some(FoldKind::Region),
        e is List ==> element_fold_kind(e) == Some(FoldKind::Region),
        e is BlockQuote ==> element_fold_kind(e) == Some(FoldKind::Region),
        e is If ==> element_fold_kind(e) == Some(FoldKind::Region),
        e is Literal ==> element_fold_kind(e) == Some(FoldKind::Region),
        e is Include ==> element_fold_kind(e) == Some(FoldKind::Region),
        e is Styled ==> element_fold_kind(e) == Some(FoldKind::Region),
        e is Comment ==> element_fold_kind(e) == Some(FoldKind::Comment),
        !(e is Fold || e is Code || e is Table || e is List || e is BlockQuote || e is If
            || e is Literal || e is Include || e is Styled || e is Comment) ==> element_fold_kind(e)
            is None,
{
}

/// Whether and how an element folds.
pub fn fold_kind(element: &Element) -> (r: Option<FoldKind>)
    ensures
        r == element_fold_kind(*element),
{
    match element {
        Element::Fold(_) | Element::Code(_) | Element::Table(_) | Element::List(_)
        | Element::BlockQuote(_) | Element::If(_) | Element::Literal(_) | Element::Include(_)
        | Element::Styled(_) => Some(FoldKind::Region),
        Element::Comment(_) => Some(FoldKind::Comment),
        _ => None,
    }
}

/// A folding element in visiting order: its kind and the lines its span
/// starts and ends on.
#[derive(Clone, Copy, Debug, PartialEq, Eq, Structural)]
pub struct FoldCandidate {
    pub kind: FoldKind,
    pub start_line: u32,
    pub end_line: u32,
}

/// The folding ranges: the candidates that span more than one line, in
/// order.
pub open spec fn folding_ranges_of(cands: Seq<FoldCandidate>) -> Seq<FoldCandidate>
    decreases cands.len(),
{
    if cands.len() == 0 {
        seq![]
    } else {
        folding_ranges_of(cands.drop_last()) + if cands.last().end_line > cands.last().start_line {
            seq![cands.last()]
        } else {
            seq![]
        }
    }
}

/// The folding ranges are exactly the candidates that span more than one
/// line, in their order.
pub proof fn lemma_folding_ranges_are_the_multiline_candidates(cands: Seq<FoldCandidate>)
    ensures
        folding_ranges_of(cands) == cands.filter(|c: FoldCandidate| c.end_line > c.start_line),
    decreases cands.len(),
{
    reveal(Seq::filter);
    if cands.len() > 0 {
        lemma_folding_ranges_are_the_multiline_candidates(cands.drop_last());
    }
}

/// Keeps the folding elements that span more than one line.
pub fn collect_folding_ranges(cands: &Vec<FoldCandidate>) -> (r: Vec<FoldCandidate>)
    ensures
        r@ == folding_ranges_of(cands@),
{
    let mut ranges: Vec<FoldCandidate> = Vec::new();
    let mut i: usize = 0;
    while i < cands.len()
        invariant
            i <= cands.len(),
            ranges@ == folding_ranges_of(cands@.take(i as int)),
        decreases cands.len() - i,
    {
        assert(cands@.take(i + 1).drop_last() =~= cands@.take(i as int));
        assert(cands@.take(i + 1).last() == cands@[i as int]);
        let c = cands[i];
        if c.end_line > c.start_line {
            ranges.push(c);
        }
        assert(ranges@ =~= folding_ranges_of(cands@.take(i + 1)));
        i = i + 1;
    }
    assert(cands@.take(i as int) =~= cands@);
    ranges
}

} // verus!
