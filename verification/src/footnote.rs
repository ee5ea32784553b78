//! Anchor ids of footnotes and of their inline references.

use vstd::prelude::*;
use vstd::utf8::{decode_utf8, encode_utf8, encode_utf8_decode_utf8};

use crate::fmt::{
    bytes_hex, chars_to_string, decimal, digit_char_exec, is_decimal_digit, is_hex_digit,
    lemma_bytes_hex, lemma_bytes_hex_injective, lemma_decimal_digits, lemma_decimal_injective,
    push_decimal, push_str,
};

verus! {

/// Prefix of the id of a footnote list entry.
pub open spec fn footnote_id_prefix() -> Seq<char> {
    seq!['f', 'n']
}

/// Prefix of the id of an inline footnote reference.
pub open spec fn footnote_ref_id_prefix() -> Seq<char> {
    seq!['r', 'n']
}

/// The fragment that stands for a footnote name: every UTF-8 byte of the
/// name as two lower-case hexadecimal digits.
pub open spec fn name_fragment(name: Seq<char>) -> Seq<char> {
    bytes_hex(encode_utf8(name))
}

/// The id of the list entry of the footnote named `name`.
pub open spec fn named_id(name: Seq<char>) -> Seq<char> {
    footnote_id_prefix() + seq!['n', '-'] + name_fragment(name)
}

/// The id of the first reference to the footnote named `name`.
pub open spec fn named_ref_id(name: Seq<char>) -> Seq<char> {
    footnote_ref_id_prefix() + seq!['n', '-'] + name_fragment(name)
}

/// The id of a later reference, at footnote index `index`, to the footnote
/// named `name`.
pub open spec fn duplicate_ref_id(name: Seq<char>, index: nat) -> Seq<char> {
    named_ref_id(name) + seq!['-'] + decimal(index)
}

/// Encodes a footnote name for use in an anchor id: the bytes of its UTF-8
/// encoding as lower-case hexadecimal pairs.
pub fn encode_named_footnote_fragment(name: &str) -> (r: String)
    ensures
        r@ == name_fragment(name@),
{
    let bytes = name.as_bytes();
    let mut out: Vec<char> = Vec::new();
    let mut i: usize = 0;
    while i < bytes.len()
        invariant
            i <= bytes.len(),
            bytes@ == encode_utf8(name@),
            out@ == bytes_hex(bytes@.take(i as int)),
        decreases bytes.len() - i,
    {
        let b = bytes[i];
        out.push(digit_char_exec(b / 16));
        out.push(digit_char_exec(b % 16));
        assert(bytes@.take(i + 1).drop_last() =~= bytes@.take(i as int));
        assert(out@ =~= bytes_hex(bytes@.take(i + 1)));
        i = i + 1;
    }
    assert(bytes@.take(i as int) =~= bytes@);
    chars_to_string(&out)
}

fn push_named_fragment(out: &mut Vec<char>, name: &str)
    ensures
        final(out)@ == old(out)@ + seq!['n', '-'] + name_fragment(name@),
{
    out.push('n');
    out.push('-');
    let fragment = encode_named_footnote_fragment(name);
    push_str(out, fragment.as_str());
    assert(final(out)@ =~= old(out)@ + seq!['n', '-'] + name_fragment(name@));
}

/// The id of the list entry of the footnote named `name`.
pub fn named_footnote_id(name: &str) -> (r: String)
    ensures
        r@ == named_id(name@),
{
    let mut out: Vec<char> = Vec::new();
    out.push('f');
    out.push('n');
    push_named_fragment(&mut out, name);
    assert(out@ =~= named_id(name@));
    chars_to_string(&out)
}

fn push_named_ref_id(out: &mut Vec<char>, name: &str)
    ensures
        final(out)@ == old(out)@ + named_ref_id(name@),
{
    out.push('r');
    out.push('n');
    push_named_fragment(out, name);
    assert(final(out)@ =~= old(out)@ + named_ref_id(name@));
}

/// The id of the first reference to the footnote named `name`.
pub fn named_footnote_ref_id(name: &str) -> (r: String)
    ensures
        r@ == named_ref_id(name@),
{
    let mut out: Vec<char> = Vec::new();
    push_named_ref_id(&mut out, name);
    assert(out@ =~= named_ref_id(name@));
    chars_to_string(&out)
}

/// The id of a repeated reference to the footnote named `name`, made unique
/// by the reference's own footnote index.
pub fn duplicate_named_footnote_ref_id(name: &str, index: usize) -> (r: String)
    ensures
        r@ == duplicate_ref_id(name@, index as nat),
{
    let mut out: Vec<char> = Vec::new();
    push_named_ref_id(&mut out, name);
    out.push('-');
    push_decimal(&mut out, index);
    assert(out@ =~= duplicate_ref_id(name@, index as nat));
    chars_to_string(&out)
}

/// A collected footnote: its index from the parser, the text shown for it,
/// its name for named footnotes, and its content.
#[derive(Debug, Clone)]
pub struct FootnoteEntry<C> {
    pub index: usize,
    pub display: String,
    pub name: Option<String>,
    pub content: C,
}

/// The id of the list entry of a footnote.
pub open spec fn entry_id<C>(entry: FootnoteEntry<C>) -> Seq<char> {
    match entry.name {
        Some(name) => named_id(name@),
        None => footnote_id_prefix() + decimal(entry.index as nat),
    }
}

/// The id of the inline reference of a footnote.
pub open spec fn entry_ref_id<C>(entry: FootnoteEntry<C>) -> Seq<char> {
    match entry.name {
        Some(name) => named_ref_id(name@),
        None => footnote_ref_id_prefix() + decimal(entry.index as nat),
    }
}

/// The id of the footnote list item of `entry`.
pub fn footnote_id<C>(entry: &FootnoteEntry<C>) -> (r: String)
    ensures
        r@ == entry_id(*entry),
{
    match &entry.name {
        Some(name) => named_footnote_id(name.as_str()),
        None => {
            let mut out: Vec<char> = Vec::new();
            out.push('f');
            out.push('n');
            push_decimal(&mut out, entry.index);
            assert(out@ =~= entry_id(*entry));
            chars_to_string(&out)
        },
    }
}

/// The id of the inline reference (`sup`) of `entry`.
pub fn footnote_ref_id<C>(entry: &FootnoteEntry<C>) -> (r: String)
    ensures
        r@ == entry_ref_id(*entry),
{
    match &entry.name {
        Some(name) => named_footnote_ref_id(name.as_str()),
        None => {
            let mut out: Vec<char> = Vec::new();
            out.push('r');
            out.push('n');
            push_decimal(&mut out, entry.index);
            assert(out@ =~= entry_ref_id(*entry));
            chars_to_string(&out)
        },
    }
}

/// The name fragment is a run of hexadecimal digits, twice as long as the
/// UTF-8 encoding of the name, and different names give different fragments.
proof fn lemma_name_fragment(a: Seq<char>, b: Seq<char>)
    ensures
        name_fragment(a).len() == 2 * encode_utf8(a).len(),
        forall|k: int| 0 <= k < name_fragment(a).len() ==> is_hex_digit(#[trigger] name_fragment(a)[k]),
        name_fragment(a) == name_fragment(b) ==> a == b,
{
    lemma_bytes_hex(encode_utf8(a));
    if name_fragment(a) == name_fragment(b) {
        lemma_bytes_hex_injective(encode_utf8(a), encode_utf8(b));
        encode_utf8_decode_utf8(a);
        encode_utf8_decode_utf8(b);
    }
}

/// Footnotes with different names get different list-entry ids and different
/// first-reference ids.
pub proof fn lemma_named_ids_injective(a: Seq<char>, b: Seq<char>)
    ensures
        named_id(a) == named_id(b) ==> a == b,
        named_ref_id(a) == named_ref_id(b) ==> a == b,
{
    lemma_name_fragment(a, b);
    if named_id(a) == named_id(b) {
        assert(named_id(a).skip(4) =~= name_fragment(a));
        assert(named_id(b).skip(4) =~= name_fragment(b));
    }
    if named_ref_id(a) == named_ref_id(b) {
        assert(named_ref_id(a).skip(4) =~= name_fragment(a));
        assert(named_ref_id(b).skip(4) =~= name_fragment(b));
    }
}

/// A later reference to a named footnote never takes the id of the first
/// reference of any named footnote, its own or another's.
pub proof fn lemma_duplicate_ref_id_differs_from_first(a: Seq<char>, index: nat, b: Seq<char>)
    ensures
        duplicate_ref_id(a, index) != named_ref_id(b),
{
    lemma_name_fragment(a, a);
    lemma_name_fragment(b, b);
    let d = duplicate_ref_id(a, index);
    let r = named_ref_id(b);
    let q: int = 4 + name_fragment(a).len() as int;
    assert(d[q] == '-');
    assert(d.len() > q);
    assert(r.len() == 4 + name_fragment(b).len());
    if d == r {
        assert(r[q] == name_fragment(b)[q - 4]);
        assert(is_hex_digit(name_fragment(b)[q - 4]));
    }
}

/// Later references are told apart by name and by footnote index: two of
/// them share an id only when both agree.
pub proof fn lemma_duplicate_ref_ids_injective(a: Seq<char>, i: nat, b: Seq<char>, j: nat)
    ensures
        duplicate_ref_id(a, i) == duplicate_ref_id(b, j) ==> a == b && i == j,
{
    lemma_name_fragment(a, b);
    lemma_name_fragment(b, a);
    let da = duplicate_ref_id(a, i);
    let db = duplicate_ref_id(b, j);
    let fa = name_fragment(a);
    let fb = name_fragment(b);
    if da == db {
        let qa: int = 4 + fa.len() as int;
        let qb: int = 4 + fb.len() as int;
        assert(da[qa] == '-');
        assert(db[qb] == '-');
        if fa.len() < fb.len() {
            assert(db[qa] == fb[qa - 4]);
            assert(is_hex_digit(fb[qa - 4]));
        } else if fb.len() < fa.len() {
            assert(da[qb] == fa[qb - 4]);
            assert(is_hex_digit(fa[qb - 4]));
        }
        assert(fa.len() == fb.len());
        assert(da.subrange(4, qa) =~= fa);
        assert(db.subrange(4, qb) =~= fb);
        assert(da.skip(qa + 1) =~= decimal(i));
        assert(db.skip(qb + 1) =~= decimal(j));
        lemma_decimal_injective(i, j);
    }
}

/// The ids of unnamed footnotes, `fn` and `rn` followed by the footnote
/// index, never equal the ids of named footnotes or of their later
/// references, and differ for different indices.
pub proof fn lemma_unnamed_ids_distinct(index: nat, other: nat, name: Seq<char>, k: nat)
    ensures
        footnote_id_prefix() + decimal(index) != named_id(name),
        footnote_ref_id_prefix() + decimal(index) != named_ref_id(name),
        footnote_ref_id_prefix() + decimal(index) != duplicate_ref_id(name, k),
        footnote_id_prefix() + decimal(index) == footnote_id_prefix() + decimal(other) ==> index
            == other,
        footnote_ref_id_prefix() + decimal(index) == footnote_ref_id_prefix() + decimal(other)
            ==> index == other,
{
    lemma_decimal_digits(index);
    let u = footnote_id_prefix() + decimal(index);
    let ur = footnote_ref_id_prefix() + decimal(index);
    assert(u[2] == decimal(index)[0]);
    assert(ur[2] == decimal(index)[0]);
    assert(is_decimal_digit(decimal(index)[0]));
    assert(named_id(name)[2] == 'n');
    assert(named_ref_id(name)[2] == 'n');
    assert(duplicate_ref_id(name, k)[2] == 'n');
    if u == footnote_id_prefix() + decimal(other) {
        assert(u.skip(2) =~= decimal(index));
        assert((footnote_id_prefix() + decimal(other)).skip(2) =~= decimal(other));
        lemma_decimal_injective(index, other);
    }
    if ur == footnote_ref_id_prefix() + decimal(other) {
        assert(ur.skip(2) =~= decimal(index));
        assert((footnote_ref_id_prefix() + decimal(other)).skip(2) =~= decimal(other));
        lemma_decimal_injective(index, other);
    }
}

/// Two collected footnotes share a list-entry id, or a reference id, only
/// when they have the same name, or are both unnamed with the same index.
pub proof fn lemma_entry_ids_unique<C>(e1: FootnoteEntry<C>, e2: FootnoteEntry<C>)
    ensures
        entry_id(e1) == entry_id(e2) ==> opt_name(e1) == opt_name(e2) && (e1.name is None
            ==> e1.index == e2.index),
        entry_ref_id(e1) == entry_ref_id(e2) ==> opt_name(e1) == opt_name(e2) && (e1.name is None
            ==> e1.index == e2.index),
{
    match (e1.name, e2.name) {
        (Some(a), Some(b)) => {
            lemma_named_ids_injective(a@, b@);
        },
        (Some(a), None) => {
            lemma_unnamed_ids_distinct(e2.index as nat, 0, a@, 0);
        },
        (None, Some(b)) => {
            lemma_unnamed_ids_distinct(e1.index as nat, 0, b@, 0);
        },
        (None, None) => {
            lemma_unnamed_ids_distinct(e1.index as nat, e2.index as nat, seq![], 0);
        },
    }
}

/// The name of a footnote entry, as characters.
pub open spec fn opt_name<C>(e: FootnoteEntry<C>) -> Option<Seq<char>> {
    match e.name {
        Some(n) => Some(n@),
        None => None,
    }
}

/// What a footnote reference is, as far as its id goes: an unnamed
/// footnote by its index, the first reference to a named footnote, or a
/// later reference to it by the footnote index where it stands.
pub enum ReferenceKind {
    Unnamed { index: usize },
    First { name: String },
    Repeated { name: String, index: usize },
}

/// The id of the inline reference.
pub open spec fn reference_id(k: ReferenceKind) -> Seq<char> {
    match k {
        ReferenceKind::Unnamed { index } => footnote_ref_id_prefix() + decimal(index as nat),
        ReferenceKind::First { name } => named_ref_id(name@),
        ReferenceKind::Repeated { name, index } => duplicate_ref_id(name@, index as nat),
    }
}

/// The id of the footnote list entry the reference links to.
pub open spec fn reference_target(k: ReferenceKind) -> Seq<char> {
    match k {
        ReferenceKind::Unnamed { index } => footnote_id_prefix() + decimal(index as nat),
        ReferenceKind::First { name } => named_id(name@),
        ReferenceKind::Repeated { name, .. } => named_id(name@),
    }
}

/// Two references are the same reference: same kind, same name, same index.
pub open spec fn same_reference(a: ReferenceKind, b: ReferenceKind) -> bool {
    match (a, b) {
        (ReferenceKind::Unnamed { index: i }, ReferenceKind::Unnamed { index: j }) => i == j,
        (ReferenceKind::First { name: n }, ReferenceKind::First { name: m }) => n@ == m@,
        (
            ReferenceKind::Repeated { name: n, index: i },
            ReferenceKind::Repeated { name: m, index: j },
        ) => n@ == m@ && i == j,
        _ => false,
    }
}

/// Reference ids never collide: two references share an id only when they
/// are the same reference. Unnamed footnotes are told apart by index, first
/// references by name, later references by name and index, and no kind
/// takes the id of another.
pub proof fn lemma_reference_ids_unique(a: ReferenceKind, b: ReferenceKind)
    ensures
        reference_id(a) == reference_id(b) ==> same_reference(a, b),
{
    match (a, b) {
        (ReferenceKind::Unnamed { index: i }, ReferenceKind::Unnamed { index: j }) => {
            lemma_unnamed_ids_distinct(i as nat, j as nat, seq![], 0);
        },
        (ReferenceKind::Unnamed { index: i }, ReferenceKind::First { name }) => {
            lemma_unnamed_ids_distinct(i as nat, 0, name@, 0);
        },
        (ReferenceKind::Unnamed { index: i }, ReferenceKind::Repeated { name, index: k }) => {
            lemma_unnamed_ids_distinct(i as nat, 0, name@, k as nat);
        },
        (ReferenceKind::First { name }, ReferenceKind::Unnamed { index: i }) => {
            lemma_unnamed_ids_distinct(i as nat, 0, name@, 0);
        },
        (ReferenceKind::First { name: n }, ReferenceKind::First { name: m }) => {
            lemma_named_ids_injective(n@, m@);
        },
        (ReferenceKind::First { name: n }, ReferenceKind::Repeated { name: m, index: k }) => {
            lemma_duplicate_ref_id_differs_from_first(m@, k as nat, n@);
        },
        (ReferenceKind::Repeated { name, index: k }, ReferenceKind::Unnamed { index: i }) => {
            lemma_unnamed_ids_distinct(i as nat, 0, name@, k as nat);
        },
        (ReferenceKind::Repeated { name: n, index: k }, ReferenceKind::First { name: m }) => {
            lemma_duplicate_ref_id_differs_from_first(n@, k as nat, m@);
        },
        (
            ReferenceKind::Repeated { name: n, index: i },
            ReferenceKind::Repeated { name: m, index: j },
        ) => {
            lemma_duplicate_ref_ids_injective(n@, i as nat, m@, j as nat);
        },
    }
}

/// The id of an inline footnote reference.
pub fn reference_footnote_id(kind: &ReferenceKind) -> (r: String)
    ensures
        r@ == reference_id(*kind),
{
    match kind {
        ReferenceKind::Unnamed { index } => {
            let mut out: Vec<char> = Vec::new();
            out.push('r');
            out.push('n');
            push_decimal(&mut out, *index);
            assert(out@ =~= reference_id(*kind));
            chars_to_string(&out)
        },
        ReferenceKind::First { name } => named_footnote_ref_id(name.as_str()),
        ReferenceKind::Repeated { name, index } => duplicate_named_footnote_ref_id(
            name.as_str(),
            *index,
        ),
    }
}

/// The link target of an inline footnote reference: `#` and the id of the
/// footnote list entry.
pub fn reference_footnote_href(kind: &ReferenceKind) -> (r: String)
    ensures
        r@ == seq!['#'] + reference_target(*kind),
{
    let mut out: Vec<char> = Vec::new();
    out.push('#');
    match kind {
        ReferenceKind::Unnamed { index } => {
            out.push('f');
            out.push('n');
            push_decimal(&mut out, *index);
        },
        ReferenceKind::First { name } | ReferenceKind::Repeated { name, .. } => {
            let id = named_footnote_id(name.as_str());
            push_str(&mut out, id.as_str());
        },
    }
    assert(out@ =~= seq!['#'] + reference_target(*kind));
    chars_to_string(&out)
}

/// The entry a reference registers, or links back to for a later reference:
/// the unnamed entry of the same index, or the entry of the same name.
pub open spec fn entry_of_reference<C>(k: ReferenceKind, e: FootnoteEntry<C>) -> bool {
    match k {
        ReferenceKind::Unnamed { index } => e.name is None && e.index == index,
        ReferenceKind::First { name } => opt_name(e) == Some(name@),
        ReferenceKind::Repeated { name, .. } => opt_name(e) == Some(name@),
    }
}

/// A reference and the list entry of its footnote link to each other: the
/// reference points at the entry's id, and the entry's back link points at
/// the reference's id (for later references to a named footnote, at the
/// first one).
pub proof fn lemma_reference_and_entry_link<C>(k: ReferenceKind, e: FootnoteEntry<C>)
    requires
        entry_of_reference(k, e),
    ensures
        reference_target(k) == entry_id(e),
        !(k is Repeated) ==> entry_ref_id(e) == reference_id(k),
{
}

/// An item of the footnote list: its id, the target of its back link and
/// the text shown for it.
pub struct FootnoteListItem {
    pub id: String,
    pub back_href: String,
    pub display: String,
}

/// The items of the footnote list, one per collected footnote, in order.
pub fn footnote_list_items<C>(entries: &Vec<FootnoteEntry<C>>) -> (r: Vec<FootnoteListItem>)
    ensures
        r@.len() == entries@.len(),
        forall|i: int|
            0 <= i < r@.len() ==> {
                &&& (#[trigger] r@[i]).id@ == entry_id(entries@[i])
                &&& r@[i].back_href@ == seq!['#'] + entry_ref_id(entries@[i])
                &&& r@[i].display@ == entries@[i].display@
            },
{
    let mut items: Vec<FootnoteListItem> = Vec::new();
    let mut i: usize = 0;
    while i < entries.len()
        invariant
            i <= entries.len(),
            items@.len() == i,
            forall|j: int|
                0 <= j < i ==> {
                    &&& (#[trigger] items@[j]).id@ == entry_id(entries@[j])
                    &&& items@[j].back_href@ == seq!['#'] + entry_ref_id(entries@[j])
                    &&& items@[j].display@ == entries@[j].display@
                },
        decreases entries.len() - i,
    {
        let entry = &entries[i];
        let id = footnote_id(entry);
        let ref_id = footnote_ref_id(entry);
        let mut back: Vec<char> = Vec::new();
        back.push('#');
        push_str(&mut back, ref_id.as_str());
        assert(back@ =~= seq!['#'] + entry_ref_id(*entry));
        items.push(
            FootnoteListItem {
                id,
                back_href: chars_to_string(&back),
                display: entry.display.clone(),
            },
        );
        i = i + 1;
    }
    items
}

} // verus!
