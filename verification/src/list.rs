//! How a list numbers its items.

use vstd::prelude::*;

verus! {

/// The numbering of a list: bullets, or numbers of a `type` given as the
/// `type` attribute of the ordered list (none for plain decimal numbers).
#[derive(Debug, PartialEq, Eq)]
pub enum ListNumbering {
    Unordered,
    Ordered { type_attr: Option<String> },
}

/// The numbering a list kind asks for: an empty kind is a bulleted list;
/// `1` numbers in decimal; `a`, `A`, `i`, `I` and any other kind go to the
/// `type` attribute as they are.
pub open spec fn numbering_of(kind: Seq<char>) -> (bool, Option<Seq<char>>) {
    if kind.len() == 0 {
        (false, None)
    } else if kind == "1"@ {
        (true, None)
    } else {
        (true, Some(kind))
    }
}

/// An empty kind gives a bulleted list, kind `1` plain decimal numbers, and
/// every other kind an ordered list whose `type` is the kind itself.
pub proof fn lemma_only_decimal_drops_the_type(kind: Seq<char>)
    ensures
        kind.len() == 0 ==> numbering_of(kind) == (false, None::<Seq<char>>),
        kind == seq!['1'] ==> numbering_of(kind) == (true, None::<Seq<char>>),
        kind.len() > 0 && kind != seq!['1'] ==> numbering_of(kind) == (true, Some(kind)),
{
    reveal_strlit("1");
    assert("1"@ =~= seq!['1']);
}

/// The view of a numbering: whether it is ordered, and its `type`.
pub open spec fn numbering_view(n: ListNumbering) -> (bool, Option<Seq<char>>) {
    match n {
        ListNumbering::Unordered => (false, None),
        ListNumbering::Ordered { type_attr } => (
            true,
            match type_attr {
                Some(t) => Some(t@),
                None => None,
            },
        ),
    }
}

/// The numbering of a list of the given kind.
pub fn list_numbering(kind: &str) -> (r: ListNumbering)
    ensures
        numbering_view(r) == numbering_of(kind@),
{
    if kind.is_empty() {
        ListNumbering::Unordered
    } else if crate::text::str_eq(kind, "1") {
        ListNumbering::Ordered { type_attr: None }
    } else {
        ListNumbering::Ordered { type_attr: Some(String::from_str(kind)) }
    }
}

} // verus!
