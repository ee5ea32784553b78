//! The state a document render carries: collected footnotes, the soft-break
//! suppression depth, the table of contents and the dark-style registry.

use vstd::prelude::*;

use crate::fmt::{chars_to_string, decimal, push_decimal, push_str};
use crate::footnote::{
    lemma_reference_ids_unique, reference_footnote_href, reference_footnote_id, reference_id,
    reference_target, same_reference, FootnoteEntry, ReferenceKind,
};
use crate::style::{build_dark_style_rule, dark_style_key, dark_style_rule, join};
use crate::text::{lemma_lex_total, lemma_lex_transitive, lex_less, lex_lt, str_eq};

verus! {

/// The view of a footnote entry: index, display text and name.
pub open spec fn entry_view<C>(e: FootnoteEntry<C>) -> (nat, Seq<char>, Option<Seq<char>>) {
    (
        e.index as nat,
        e.display@,
        match e.name {
            Some(n) => Some(n@),
            None => None,
        },
    )
}

/// The registry of dark styles: `(key, rule)` pairs in increasing key order,
/// one per key.
pub struct DarkStyleRegistry {
    entries: Vec<(String, String)>,
}

/// The keys of registry entries.
pub open spec fn entry_keys(entries: Seq<(Seq<char>, Seq<char>)>) -> Seq<Seq<char>> {
    entries.map_values(|e: (Seq<char>, Seq<char>)| e.0)
}

/// The rules of registry entries.
pub open spec fn entry_rules(entries: Seq<(Seq<char>, Seq<char>)>) -> Seq<Seq<char>> {
    entries.map_values(|e: (Seq<char>, Seq<char>)| e.1)
}

/// Keys strictly increasing.
pub open spec fn keys_sorted(keys: Seq<Seq<char>>) -> bool {
    forall|i: int, j: int| 0 <= i < j < keys.len() ==> lex_lt(#[trigger] keys[i], #[trigger] keys[j])
}

/// The registry as a map from key to rule.
pub open spec fn entries_map(entries: Seq<(Seq<char>, Seq<char>)>) -> Map<Seq<char>, Seq<char>>
    decreases entries.len(),
{
    if entries.len() == 0 {
        Map::empty()
    } else {
        entries_map(entries.drop_last()).insert(entries.last().0, entries.last().1)
    }
}

/// With keys in increasing order, the map pairs key `k` with rule `r`
/// exactly when `(k, r)` is an entry.
proof fn lemma_entries_map(entries: Seq<(Seq<char>, Seq<char>)>)
    requires
        keys_sorted(entry_keys(entries)),
    ensures
        forall|k: Seq<char>, r: Seq<char>|
            #[trigger] entries.contains((k, r)) <==> (entries_map(entries).contains_key(k)
                && entries_map(entries)[k] == r),
    decreases entries.len(),
{
    if entries.len() > 0 {
        let prefix = entries.drop_last();
        let last = entries.last();
        let n = entries.len() - 1;
        assert(entry_keys(prefix) =~= entry_keys(entries).drop_last());
        lemma_entries_map(prefix);
        assert forall|k: Seq<char>, r: Seq<char>|
            #[trigger] entries.contains((k, r)) <==> (entries_map(entries).contains_key(k)
                && entries_map(entries)[k] == r) by {
            if entries.contains((k, r)) {
                let i = choose|i: int| 0 <= i < entries.len() && entries[i] == (k, r);
                if i < n {
                    assert(prefix[i] == (k, r));
                    assert(prefix.contains((k, r)));
                    assert(entry_keys(entries)[i] == k);
                    assert(entry_keys(entries)[n] == last.0);
                    assert(k != last.0) by {
                        crate::text::lemma_lex_irreflexive(k);
                    }
                }
            }
            if entries_map(entries).contains_key(k) && entries_map(entries)[k] == r {
                if k == last.0 {
                    assert(entries[n] == (k, r));
                } else {
                    assert(prefix.contains((k, r)));
                    let i = choose|i: int| 0 <= i < prefix.len() && prefix[i] == (k, r);
                    assert(entries[i] == (k, r));
                }
            }
            if k == last.0 && entries.contains((k, r)) {
                let i = choose|i: int| 0 <= i < entries.len() && entries[i] == (k, r);
                if i < n {
                    assert(entry_keys(entries)[i] == k);
                    assert(entry_keys(entries)[n] == last.0);
                    crate::text::lemma_lex_irreflexive(k);
                }
            }
        }
    }
}

/// Adding an entry with a new key adds it to the map.
proof fn lemma_entries_map_insert(
    before: Seq<(Seq<char>, Seq<char>)>,
    after: Seq<(Seq<char>, Seq<char>)>,
    key: Seq<char>,
    rule: Seq<char>,
)
    requires
        keys_sorted(entry_keys(before)),
        keys_sorted(entry_keys(after)),
        !entry_keys(before).contains(key),
        forall|e: (Seq<char>, Seq<char>)|
            #[trigger] after.contains(e) <==> before.contains(e) || e == (key, rule),
    ensures
        entries_map(after) == entries_map(before).insert(key, rule),
{
    lemma_entries_map(before);
    lemma_entries_map(after);
    let ma = entries_map(after);
    let mb = entries_map(before).insert(key, rule);
    assert forall|k: Seq<char>| #[trigger] ma.contains_key(k) <==> mb.contains_key(k) by {
        if ma.contains_key(k) {
            assert(after.contains((k, ma[k])));
        }
        if mb.contains_key(k) && k != key {
            assert(before.contains((k, entries_map(before)[k])));
            assert(after.contains((k, entries_map(before)[k])));
        }
        if k == key {
            assert(after.contains((key, rule)));
        }
    }
    assert forall|k: Seq<char>| #[trigger] ma.contains_key(k) implies ma[k] == mb[k] by {
        assert(after.contains((k, ma[k])));
        if before.contains((k, ma[k])) {
            let i = choose|i: int| 0 <= i < before.len() && before[i] == (k, ma[k]);
            assert(entry_keys(before)[i] == k);
        }
    }
    assert(ma =~= mb);
}

/// The last key of a registry is its largest.
proof fn lemma_last_key_largest(entries: Seq<(Seq<char>, Seq<char>)>, r: Seq<char>, k: Seq<char>)
    requires
        keys_sorted(entry_keys(entries)),
        entries.contains((k, r)),
    ensures
        k == entries.last().0 || lex_lt(k, entries.last().0),
{
    let i = choose|i: int| 0 <= i < entries.len() && entries[i] == (k, r);
    let n = entries.len() - 1;
    assert(entry_keys(entries)[i] == k);
    assert(entry_keys(entries)[n] == entries.last().0);
}

/// Two registries with keys in increasing order and the same key-to-rule
/// map hold the same entries in the same order: the sheet depends only on
/// which rule each key got, not on the order of registration.
pub proof fn lemma_registry_determined_by_map(
    a: Seq<(Seq<char>, Seq<char>)>,
    b: Seq<(Seq<char>, Seq<char>)>,
)
    requires
        keys_sorted(entry_keys(a)),
        keys_sorted(entry_keys(b)),
        entries_map(a) == entries_map(b),
    ensures
        a == b,
    decreases a.len(),
{
    lemma_entries_map(a);
    lemma_entries_map(b);
    if a.len() == 0 {
        if b.len() > 0 {
            assert(b.contains(b.last()));
            assert(entries_map(b).contains_key(b.last().0));
        }
        assert(a =~= b);
    } else if b.len() == 0 {
        assert(a.contains(a.last()));
        assert(entries_map(a).contains_key(a.last().0));
    } else {
        let la = a.last();
        let lb = b.last();
        assert(a.contains(la));
        assert(b.contains(lb));
        assert(b.contains((la.0, la.1)));
        assert(a.contains((lb.0, lb.1)));
        lemma_last_key_largest(b, la.1, la.0);
        lemma_last_key_largest(a, lb.1, lb.0);
        if la.0 != lb.0 {
            crate::text::lemma_lex_transitive(la.0, lb.0, la.0);
            crate::text::lemma_lex_irreflexive(la.0);
        }
        let pa = a.drop_last();
        let pb = b.drop_last();
        assert(entry_keys(pa) =~= entry_keys(a).drop_last());
        assert(entry_keys(pb) =~= entry_keys(b).drop_last());
        lemma_entries_map(pa);
        lemma_entries_map(pb);
        assert forall|k: Seq<char>| #[trigger] entries_map(pa).contains_key(k) implies k != la.0 by {
            assert(pa.contains((k, entries_map(pa)[k])));
            let i = choose|i: int| 0 <= i < pa.len() && pa[i] == (k, entries_map(pa)[k]);
            assert(entry_keys(a)[i] == k);
            assert(entry_keys(a)[a.len() - 1] == la.0);
            crate::text::lemma_lex_irreflexive(k);
        }
        assert forall|k: Seq<char>| #[trigger] entries_map(pb).contains_key(k) implies k != lb.0 by {
            assert(pb.contains((k, entries_map(pb)[k])));
            let i = choose|i: int| 0 <= i < pb.len() && pb[i] == (k, entries_map(pb)[k]);
            assert(entry_keys(b)[i] == k);
            assert(entry_keys(b)[b.len() - 1] == lb.0);
            crate::text::lemma_lex_irreflexive(k);
        }
        assert(entries_map(pa) =~= entries_map(a).remove(la.0));
        assert(entries_map(pb) =~= entries_map(b).remove(lb.0));
        lemma_registry_determined_by_map(pa, pb);
        assert(a =~= pa.push(la));
        assert(b =~= pb.push(lb));
    }
}

impl View for DarkStyleRegistry {
    type V = Seq<(Seq<char>, Seq<char>)>;

    closed spec fn view(&self) -> Seq<(Seq<char>, Seq<char>)> {
        self.entries@.map_values(|e: (String, String)| (e.0@, e.1@))
    }
}

impl DarkStyleRegistry {
    /// Keys are kept in increasing order, each once.
    pub open spec fn wf(&self) -> bool {
        keys_sorted(entry_keys(self@))
    }

    /// An empty registry.
    pub fn new() -> (r: Self)
        ensures
            r.wf(),
            r@ == Seq::<(Seq<char>, Seq<char>)>::empty(),
    {
        let r = DarkStyleRegistry { entries: Vec::new() };
        assert(r@ =~= Seq::<(Seq<char>, Seq<char>)>::empty());
        r
    }

    /// Is the registry empty?
    pub fn is_empty(&self) -> (r: bool)
        ensures
            r == (self@.len() == 0),
    {
        self.entries.len() == 0
    }

    /// Adds `(key, rule)` unless `key` is already registered (the first rule
    /// for a key stays).
    pub fn insert_if_absent(&mut self, key: String, rule: String)
        requires
            old(self).wf(),
        ensures
            final(self).wf(),
            entry_keys(old(self)@).contains(key@) ==> final(self)@ == old(self)@,
            entries_map(final(self)@) == if entry_keys(old(self)@).contains(key@) {
                entries_map(old(self)@)
            } else {
                entries_map(old(self)@).insert(key@, rule@)
            },
            !entry_keys(old(self)@).contains(key@) ==> {
                &&& final(self)@.len() == old(self)@.len() + 1
                &&& forall|e: (Seq<char>, Seq<char>)|
                    #[trigger] final(self)@.contains(e) <==> old(self)@.contains(e) || e == (
                        key@,
                        rule@,
                    )
            },
    {
        let ghost before = self@;
        let mut p: usize = 0;
        while p < self.entries.len() && lex_less(self.entries[p].0.as_str(), key.as_str())
            invariant
                p <= self.entries.len(),
                before == self@,
                forall|i: int| 0 <= i < p ==> lex_lt(#[trigger] entry_keys(before)[i], key@),
            decreases self.entries.len() - p,
        {
            assert(entry_keys(before)[p as int] == self.entries@[p as int].0@);
            p = p + 1;
        }
        if p < self.entries.len() && str_eq(self.entries[p].0.as_str(), key.as_str()) {
            assert(entry_keys(before)[p as int] == key@);
            return;
        }
        proof {
            let keys = entry_keys(before);
            if p < before.len() {
                assert(keys[p as int] == self.entries@[p as int].0@);
                lemma_lex_total(keys[p as int], key@);
                assert forall|j: int| p <= j < keys.len() implies lex_lt(key@, keys[j]) by {
                    if j > p {
                        lemma_lex_transitive(key@, keys[p as int], keys[j]);
                    }
                }
            }
            assert(!keys.contains(key@)) by {
                if keys.contains(key@) {
                    let j = choose|j: int| 0 <= j < keys.len() && keys[j] == key@;
                    if j < p {
                        crate::text::lemma_lex_irreflexive(key@);
                    } else {
                        crate::text::lemma_lex_irreflexive(key@);
                    }
                }
            }
        }
        self.entries.insert(p, (key, rule));
        proof {
            let after = self@;
            let e = after[p as int];
            assert(after =~= before.take(p as int).push(e) + before.skip(p as int));
            let keys = entry_keys(before);
            let akeys = entry_keys(after);
            assert(akeys =~= keys.take(p as int).push(e.0) + keys.skip(p as int));
            assert forall|i: int, j: int| 0 <= i < j < akeys.len() implies lex_lt(
                #[trigger] akeys[i],
                #[trigger] akeys[j],
            ) by {
                if j < p {
                } else if j == p {
                } else if i < p {
                    lemma_lex_transitive(akeys[i], e.0, akeys[j]);
                } else if i == p {
                } else {
                    assert(akeys[i] == keys[i - 1]);
                    assert(akeys[j] == keys[j - 1]);
                }
            }
            assert forall|x: (Seq<char>, Seq<char>)| #[trigger] after.contains(x) <==> before.contains(x)
                || x == e by {
                if after.contains(x) {
                    let i = choose|i: int| 0 <= i < after.len() && after[i] == x;
                    if i < p {
                        assert(before[i] == x);
                    } else if i > p {
                        assert(before[i - 1] == x);
                    }
                }
                if before.contains(x) {
                    let i = choose|i: int| 0 <= i < before.len() && before[i] == x;
                    if i < p {
                        assert(after[i] == x);
                    } else {
                        assert(after[i + 1] == x);
                    }
                }
                if x == e {
                    assert(after[p as int] == x);
                }
            }
            lemma_entries_map_insert(before, after, key@, rule@);
        }
    }

    /// The rules joined by line feeds, or nothing for an empty registry.
    pub fn sheet(&self) -> (r: Option<String>)
        ensures
            match r {
                Some(s) => self@.len() > 0 && s@ == join(entry_rules(self@), '\n'),
                None => self@.len() == 0,
            },
    {
        if self.entries.len() == 0 {
            return None;
        }
        let mut out: Vec<char> = Vec::new();
        let mut i: usize = 0;
        while i < self.entries.len()
            invariant
                i <= self.entries.len(),
                out@ == join(entry_rules(self@).take(i as int), '\n'),
            decreases self.entries.len() - i,
        {
            let ghost rules = entry_rules(self@);
            assert(rules.take(i + 1).drop_last() =~= rules.take(i as int));
            assert(rules[i as int] == self.entries@[i as int].1@);
            if i > 0 {
                out.push('\n');
            }
            push_str(&mut out, self.entries[i].1.as_str());
            proof {
                if i == 0 {
                    assert(rules.take(1) =~= seq![rules[0]]);
                }
                assert(out@ =~= join(rules.take(i + 1), '\n'));
            }
            i = i + 1;
        }
        assert(entry_rules(self@).take(i as int) =~= entry_rules(self@));
        Some(chars_to_string(&out))
    }
}

/// The index registered for `name` among `(name, index)` pairs, if any.
pub open spec fn named_index(named: Seq<(Seq<char>, nat)>, name: Seq<char>) -> Option<nat>
    decreases named.len(),
{
    if named.len() == 0 {
        None
    } else if named.last().0 == name {
        Some(named.last().1)
    } else {
        named_index(named.drop_last(), name)
    }
}

/// No name occurs twice among `(name, index)` pairs.
pub open spec fn names_unique(named: Seq<(Seq<char>, nat)>) -> bool {
    forall|i: int, j: int| 0 <= i < j < named.len() ==> #[trigger] named[i].0 != #[trigger] named[j].0
}

/// The view of the named-footnote table.
pub open spec fn named_view(named: Seq<(String, usize)>) -> Seq<(Seq<char>, nat)> {
    named.map_values(|p: (String, usize)| (p.0@, p.1 as nat))
}

/// The views of the collected footnotes.
pub open spec fn entries_view<C>(entries: Seq<FootnoteEntry<C>>) -> Seq<(nat, Seq<char>, Option<Seq<char>>)> {
    entries.map_values(|e: FootnoteEntry<C>| entry_view(e))
}

/// Rendering state shared across a document render and its nested renders.
pub struct RenderContext<C> {
    /// Collected footnotes, rendered at the end of the document.
    pub footnotes: Vec<FootnoteEntry<C>>,
    /// The number shown for the next unnamed footnote without a custom
    /// display text.
    pub next_unnamed_footnote_number: usize,
    /// Named footnotes seen so far, with the footnote index of their first
    /// occurrence.
    pub named_footnotes: Vec<(String, usize)>,
    /// Inside a footnote (nested footnotes render as plain content).
    pub in_footnote: bool,
    /// Depth of elements that suppress soft breaks (a soft break renders as
    /// `<br>` only at depth 0).
    pub suppress_soft_breaks_depth: usize,
    /// Pre-rendered table-of-contents markup reused by `[toc]`.
    pub toc_markup: Option<String>,
    /// Dark styles registered during the render, flushed once at the top.
    pub dark_styles: DarkStyleRegistry,
}

impl<C> RenderContext<C> {
    /// The registry is well formed and no name is registered twice.
    pub open spec fn wf(&self) -> bool {
        &&& self.dark_styles.wf()
        &&& names_unique(named_view(self.named_footnotes@))
    }

    /// A fresh context: no footnotes, numbering from 1, no suppression, no
    /// table of contents, an empty dark-style registry.
    pub fn new() -> (r: Self)
        ensures
            r.wf(),
            r.footnotes@.len() == 0,
            r.next_unnamed_footnote_number == 1,
            r.named_footnotes@.len() == 0,
            !r.in_footnote,
            r.suppress_soft_breaks_depth == 0,
            r.toc_markup is None,
            r.dark_styles@.len() == 0,
    {
        RenderContext {
            footnotes: Vec::new(),
            next_unnamed_footnote_number: 1,
            named_footnotes: Vec::new(),
            in_footnote: false,
            suppress_soft_breaks_depth: 0,
            toc_markup: None,
            dark_styles: DarkStyleRegistry::new(),
        }
    }

    /// A fresh context for a nested render (such as the footnote list): the
    /// table of contents is copied and the dark-style registry moves to the
    /// child until `finish_child` brings it back, so that styles registered
    /// while rendering nested content reach the parent's sheet.
    pub fn child(&mut self) -> (r: Self)
        requires
            old(self).wf(),
        ensures
            r.wf(),
            r.footnotes@.len() == 0,
            r.next_unnamed_footnote_number == 1,
            r.named_footnotes@.len() == 0,
            !r.in_footnote,
            r.suppress_soft_breaks_depth == 0,
            opt_view(r.toc_markup) == opt_view(old(self).toc_markup),
            r.dark_styles@ == old(self).dark_styles@,
            final(self).dark_styles@.len() == 0,
            final(self).wf(),
            final(self).footnotes == old(self).footnotes,
            final(self).next_unnamed_footnote_number == old(self).next_unnamed_footnote_number,
            final(self).named_footnotes == old(self).named_footnotes,
            final(self).in_footnote == old(self).in_footnote,
            final(self).suppress_soft_breaks_depth == old(self).suppress_soft_breaks_depth,
            final(self).toc_markup == old(self).toc_markup,
    {
        let mut registry = DarkStyleRegistry::new();
        std::mem::swap(&mut registry, &mut self.dark_styles);
        let toc = match &self.toc_markup {
            Some(t) => Some(t.clone()),
            None => None,
        };
        RenderContext {
            footnotes: Vec::new(),
            next_unnamed_footnote_number: 1,
            named_footnotes: Vec::new(),
            in_footnote: false,
            suppress_soft_breaks_depth: 0,
            toc_markup: toc,
            dark_styles: registry,
        }
    }

    /// Takes back the dark-style registry from a finished nested render.
    pub fn finish_child(&mut self, child: Self)
        requires
            old(self).wf(),
        ensures
            final(self).dark_styles@ == child.dark_styles@,
            final(self).footnotes == old(self).footnotes,
            final(self).next_unnamed_footnote_number == old(self).next_unnamed_footnote_number,
            final(self).named_footnotes == old(self).named_footnotes,
            final(self).in_footnote == old(self).in_footnote,
            final(self).suppress_soft_breaks_depth == old(self).suppress_soft_breaks_depth,
            final(self).toc_markup == old(self).toc_markup,
            child.wf() ==> final(self).wf(),
    {
        self.dark_styles = child.dark_styles;
    }

    /// Stores the pre-rendered table of contents for `[toc]` macros.
    pub fn set_toc_markup(&mut self, toc_markup: Option<String>)
        ensures
            final(self).toc_markup == toc_markup,
            final(self).footnotes == old(self).footnotes,
            final(self).next_unnamed_footnote_number == old(self).next_unnamed_footnote_number,
            final(self).named_footnotes == old(self).named_footnotes,
            final(self).in_footnote == old(self).in_footnote,
            final(self).suppress_soft_breaks_depth == old(self).suppress_soft_breaks_depth,
            final(self).dark_styles == old(self).dark_styles,
    {
        self.toc_markup = toc_markup;
    }

    /// Takes the collected footnotes for a `[fn]` list at this point of the
    /// document; nothing when none were collected since the last list. Named
    /// footnotes stay registered, so a later reference to one of them links
    /// back to the entry already listed.
    pub fn flush_footnotes(&mut self) -> (r: Option<Vec<FootnoteEntry<C>>>)
        requires
            old(self).wf(),
        ensures
            final(self).wf(),
            old(self).footnotes@.len() == 0 ==> r is None,
            old(self).footnotes@.len() > 0 ==> r is Some && r.unwrap()@ == old(self).footnotes@,
            final(self).footnotes@.len() == 0,
            final(self).named_footnotes == old(self).named_footnotes,
            final(self).next_unnamed_footnote_number == old(self).next_unnamed_footnote_number,
            final(self).in_footnote == old(self).in_footnote,
            final(self).suppress_soft_breaks_depth == old(self).suppress_soft_breaks_depth,
            final(self).toc_markup == old(self).toc_markup,
            final(self).dark_styles == old(self).dark_styles,
    {
        if self.footnotes.len() == 0 {
            return None;
        }
        let mut taken: Vec<FootnoteEntry<C>> = Vec::new();
        std::mem::swap(&mut taken, &mut self.footnotes);
        Some(taken)
    }

    /// The table of contents a `[toc]` macro shows: the stored markup, unless
    /// there is none or it is empty.
    pub fn toc_to_show(&self) -> (r: Option<&str>)
        ensures
            match r {
                Some(t) => self.toc_markup is Some && t@ == self.toc_markup.unwrap()@ && t@.len() > 0,
                None => self.toc_markup is None || self.toc_markup.unwrap()@.len() == 0,
            },
    {
        match &self.toc_markup {
            Some(markup) => if markup.as_str().is_empty() {
                None
            } else {
                Some(markup.as_str())
            },
            None => None,
        }
    }

    /// Registers a sanitized dark style and returns its `data-dk` key; the
    /// first rule registered for a key is kept.
    pub fn add_dark_style(&mut self, dark_style: Option<String>) -> (r: Option<String>)
        requires
            old(self).wf(),
        ensures
            final(self).wf(),
            final(self).footnotes == old(self).footnotes,
            final(self).next_unnamed_footnote_number == old(self).next_unnamed_footnote_number,
            final(self).named_footnotes == old(self).named_footnotes,
            final(self).in_footnote == old(self).in_footnote,
            final(self).suppress_soft_breaks_depth == old(self).suppress_soft_breaks_depth,
            final(self).toc_markup == old(self).toc_markup,
            match dark_style {
                None => r is None && final(self).dark_styles@ == old(self).dark_styles@,
                Some(ds) => {
                    let key = dark_style_key(ds@);
                    &&& r is Some && r.unwrap()@ == key
                    &&& entries_map(final(self).dark_styles@) == if entry_keys(
                        old(self).dark_styles@,
                    ).contains(key) {
                        entries_map(old(self).dark_styles@)
                    } else {
                        entries_map(old(self).dark_styles@).insert(key, dark_style_rule(ds@))
                    }
                    &&& (entry_keys(old(self).dark_styles@).contains(key)
                        ==> final(self).dark_styles@ == old(self).dark_styles@)
                    &&& (!entry_keys(old(self).dark_styles@).contains(key) ==> {
                        &&& final(self).dark_styles@.len() == old(self).dark_styles@.len() + 1
                        &&& forall|e: (Seq<char>, Seq<char>)|
                            #[trigger] final(self).dark_styles@.contains(e)
                                <==> old(self).dark_styles@.contains(e) || e == (
                                key,
                                dark_style_rule(ds@),
                            )
                    })
                },
            },
    {
        let ds = match dark_style {
            Some(ds) => ds,
            None => return None,
        };
        let (dk, rule) = build_dark_style_rule(ds.as_str());
        self.dark_styles.insert_if_absent(dk.clone(), rule);
        Some(dk)
    }

    /// The aggregated dark stylesheet, if any style was registered: the rules
    /// in increasing key order, one per line.
    pub fn dark_style_sheet(&self) -> (r: Option<String>)
        ensures
            match r {
                Some(s) => self.dark_styles@.len() > 0 && s@ == join(
                    entry_rules(self.dark_styles@),
                    '\n',
                ),
                None => self.dark_styles@.len() == 0,
            },
    {
        self.dark_styles.sheet()
    }

    /// Enters an element that suppresses soft breaks.
    pub fn enter_suppress_soft_breaks(&mut self)
        requires
            old(self).suppress_soft_breaks_depth < usize::MAX,
        ensures
            final(self).suppress_soft_breaks_depth == old(self).suppress_soft_breaks_depth + 1,
            final(self).footnotes == old(self).footnotes,
            final(self).next_unnamed_footnote_number == old(self).next_unnamed_footnote_number,
            final(self).named_footnotes == old(self).named_footnotes,
            final(self).in_footnote == old(self).in_footnote,
            final(self).toc_markup == old(self).toc_markup,
            final(self).dark_styles == old(self).dark_styles,
    {
        self.suppress_soft_breaks_depth = self.suppress_soft_breaks_depth + 1;
    }

    /// Leaves an element that suppresses soft breaks (the depth stays at 0
    /// when already there).
    pub fn exit_suppress_soft_breaks(&mut self)
        ensures
            final(self).suppress_soft_breaks_depth == (if old(self).suppress_soft_breaks_depth
                > 0 {
                old(self).suppress_soft_breaks_depth - 1
            } else {
                0
            }),
            final(self).footnotes == old(self).footnotes,
            final(self).next_unnamed_footnote_number == old(self).next_unnamed_footnote_number,
            final(self).named_footnotes == old(self).named_footnotes,
            final(self).in_footnote == old(self).in_footnote,
            final(self).toc_markup == old(self).toc_markup,
            final(self).dark_styles == old(self).dark_styles,
    {
        if self.suppress_soft_breaks_depth > 0 {
            self.suppress_soft_breaks_depth = self.suppress_soft_breaks_depth - 1;
        }
    }

    /// Are soft breaks suppressed here?
    pub fn is_soft_break_suppressed(&self) -> (r: bool)
        ensures
            r == (self.suppress_soft_breaks_depth > 0),
    {
        self.suppress_soft_breaks_depth > 0
    }
}

impl<C> RenderContext<C> {
    /// Adds an unnamed footnote. It is shown with its custom display text, or
    /// else with the next number of the unnamed-footnote sequence, which then
    /// advances: only footnotes shown without a custom display are numbered,
    /// so the numbers shown stay contiguous. Returns the text shown.
    pub fn add_footnote(&mut self, index: usize, display: Option<String>, content: C) -> (r: &str)
        requires
            display is None ==> old(self).next_unnamed_footnote_number < usize::MAX,
        ensures
            ({
                let shown = match display {
                    Some(d) => d@,
                    None => decimal(old(self).next_unnamed_footnote_number as nat),
                };
                &&& r@ == shown
                &&& final(self).next_unnamed_footnote_number == if display is None {
                    old(self).next_unnamed_footnote_number + 1
                } else {
                    old(self).next_unnamed_footnote_number as int
                }
                &&& final(self).footnotes@.len() == old(self).footnotes@.len() + 1
                &&& final(self).footnotes@.drop_last() == old(self).footnotes@
                &&& entry_view(final(self).footnotes@.last()) == (index as nat, shown, None::<Seq<char>>)
                &&& final(self).footnotes@.last().content == content
            }),
            final(self).named_footnotes == old(self).named_footnotes,
            final(self).in_footnote == old(self).in_footnote,
            final(self).suppress_soft_breaks_depth == old(self).suppress_soft_breaks_depth,
            final(self).toc_markup == old(self).toc_markup,
            final(self).dark_styles == old(self).dark_styles,
    {
        let number = self.next_unnamed_footnote_number;
        let shown = match display {
            Some(d) => d,
            None => {
                self.next_unnamed_footnote_number = number + 1;
                let mut digits: Vec<char> = Vec::new();
                push_decimal(&mut digits, number);
                assert(digits@ =~= decimal(number as nat));
                chars_to_string(&digits)
            },
        };
        self.footnotes.push(FootnoteEntry { index, display: shown, name: None, content });
        assert(self.footnotes@.drop_last() =~= old(self).footnotes@);
        let last = self.footnotes.len() - 1;
        self.footnotes[last].display.as_str()
    }
}

/// The index registered for `name`, searching the table from its end.
fn lookup_named(named: &Vec<(String, usize)>, name: &str) -> (r: Option<usize>)
    ensures
        match r {
            Some(i) => named_index(named_view(named@), name@) == Some(i as nat),
            None => named_index(named_view(named@), name@) is None,
        },
{
    let mut k: usize = named.len();
    assert(named_view(named@).take(k as int) =~= named_view(named@));
    while k > 0
        invariant
            k <= named.len(),
            named_index(named_view(named@), name@) == named_index(
                named_view(named@).take(k as int),
                name@,
            ),
        decreases k,
    {
        let ghost prefix = named_view(named@).take(k as int);
        assert(prefix.drop_last() =~= named_view(named@).take(k - 1));
        assert(prefix.last() == (named@[k - 1].0@, named@[k - 1].1 as nat));
        if str_eq(named[k - 1].0.as_str(), name) {
            return Some(named[k - 1].1);
        }
        k = k - 1;
    }
    None
}

impl<C> RenderContext<C> {
    /// Adds a named footnote. The first footnote with a name is collected,
    /// shown with its name, and `Ok` returns that text; a later footnote with
    /// the same name is not collected and `Err` returns the index of the
    /// first.
    pub fn add_named_footnote(&mut self, index: usize, name: String, content: C) -> (r: Result<
        &str,
        usize,
    >)
        requires
            old(self).wf(),
        ensures
            final(self).wf(),
            match named_index(named_view(old(self).named_footnotes@), name@) {
                Some(first) => {
                    &&& r == Err::<&str, usize>(first as usize)
                    &&& final(self).footnotes == old(self).footnotes
                    &&& final(self).named_footnotes == old(self).named_footnotes
                },
                None => {
                    &&& r is Ok && r->Ok_0@ == name@
                    &&& named_view(final(self).named_footnotes@) == named_view(
                        old(self).named_footnotes@,
                    ).push((name@, index as nat))
                    &&& final(self).footnotes@.len() == old(self).footnotes@.len() + 1
                    &&& final(self).footnotes@.drop_last() == old(self).footnotes@
                    &&& entry_view(final(self).footnotes@.last()) == (
                        index as nat,
                        name@,
                        Some(name@),
                    )
                    &&& final(self).footnotes@.last().content == content
                },
            },
            final(self).next_unnamed_footnote_number == old(self).next_unnamed_footnote_number,
            final(self).in_footnote == old(self).in_footnote,
            final(self).suppress_soft_breaks_depth == old(self).suppress_soft_breaks_depth,
            final(self).toc_markup == old(self).toc_markup,
            final(self).dark_styles == old(self).dark_styles,
    {
        if let Some(existing) = lookup_named(&self.named_footnotes, name.as_str()) {
            return Err(existing);
        }
        self.named_footnotes.push((name.clone(), index));
        assert(named_view(self.named_footnotes@) =~= named_view(old(self).named_footnotes@).push(
            (name@, index as nat),
        ));
        proof {
            lemma_named_index_absent(named_view(old(self).named_footnotes@), name@);
        }
        self.footnotes.push(
            FootnoteEntry { index, display: name.clone(), name: Some(name), content },
        );
        assert(self.footnotes@.drop_last() =~= old(self).footnotes@);
        let last = self.footnotes.len() - 1;
        Ok(self.footnotes[last].display.as_str())
    }
}

/// A name without a registered index occurs nowhere in the table.
proof fn lemma_named_index_absent(named: Seq<(Seq<char>, nat)>, name: Seq<char>)
    requires
        named_index(named, name) is None,
    ensures
        forall|i: int| 0 <= i < named.len() ==> (#[trigger] named[i]).0 != name,
    decreases named.len(),
{
    if named.len() > 0 {
        lemma_named_index_absent(named.drop_last(), name);
        assert forall|i: int| 0 <= i < named.len() implies (#[trigger] named[i]).0 != name by {
            if i < named.len() - 1 {
                assert(named.drop_last()[i] == named[i]);
            }
        }
    }
}

/// Once a name is registered with an index, looking it up gives that index:
/// a later footnote with the same name is answered with the index of the
/// first, and registering more names keeps it.
pub proof fn lemma_named_lookup_after_register(
    named: Seq<(Seq<char>, nat)>,
    name: Seq<char>,
    index: nat,
    later: Seq<(Seq<char>, nat)>,
)
    requires
        names_unique(named.push((name, index)) + later),
    ensures
        named_index(named.push((name, index)) + later, name) == Some(index),
    decreases later.len(),
{
    let all = named.push((name, index)) + later;
    if later.len() == 0 {
        assert(all =~= named.push((name, index)));
    } else {
        let shorter = later.drop_last();
        assert(all.drop_last() =~= named.push((name, index)) + shorter);
        assert(all[named.len() as int] == (name, index));
        let last = all.len() - 1;
        assert(all[named.len() as int].0 != all[last].0);
        assert(all.last().0 != name);
        assert forall|i: int, j: int|
            0 <= i < j < (named.push((name, index)) + shorter).len() implies #[trigger] (named.push(
            (name, index),
        ) + shorter)[i].0 != #[trigger] (named.push((name, index)) + shorter)[j].0 by {
            assert(all[i] == (named.push((name, index)) + shorter)[i]);
            assert(all[j] == (named.push((name, index)) + shorter)[j]);
        }
        lemma_named_lookup_after_register(named, name, index, shorter);
    }
}

/// The inline reference of a footnote: the id of its `sup` element, the
/// target of its link and the text shown in brackets.
pub struct FootnoteReference {
    pub id: String,
    pub href: String,
    pub text: String,
}

impl<C> RenderContext<C> {
    /// Registers a footnote met at `footnote_index` and gives its inline
    /// reference. Inside a footnote nothing is registered and nothing is
    /// given: a nested footnote shows its content as is. A named footnote is
    /// registered on its first reference; later references link back to it
    /// under an id of their own. An unnamed footnote shows its display text
    /// or the next number of the unnamed-footnote sequence.
    pub fn reference_footnote(
        &mut self,
        footnote_index: usize,
        name: Option<String>,
        display: Option<String>,
        content: C,
    ) -> (r: Option<FootnoteReference>)
        requires
            old(self).wf(),
            name is None && display is None ==> old(self).next_unnamed_footnote_number < usize::MAX,
        ensures
            final(self).wf(),
            old(self).in_footnote ==> r is None && *final(self) == *old(self),
            !old(self).in_footnote ==> r is Some && match name {
                Some(n) => {
                    let registered = named_index(named_view(old(self).named_footnotes@), n@);
                    let kind = if registered is None {
                        ReferenceKind::First { name: n }
                    } else {
                        ReferenceKind::Repeated { name: n, index: footnote_index }
                    };
                    &&& r.unwrap().id@ == reference_id(kind)
                    &&& r.unwrap().href@ == seq!['#'] + reference_target(kind)
                    &&& r.unwrap().text@ == n@
                    &&& final(self).next_unnamed_footnote_number
                        == old(self).next_unnamed_footnote_number
                    &&& (registered is Some ==> final(self).footnotes == old(self).footnotes
                        && final(self).named_footnotes == old(self).named_footnotes)
                    &&& (registered is None ==> {
                        &&& named_view(final(self).named_footnotes@) == named_view(
                            old(self).named_footnotes@,
                        ).push((n@, footnote_index as nat))
                        &&& final(self).footnotes@.len() == old(self).footnotes@.len() + 1
                        &&& final(self).footnotes@.drop_last() == old(self).footnotes@
                        &&& entry_view(final(self).footnotes@.last()) == (
                            footnote_index as nat,
                            n@,
                            Some(n@),
                        )
                        &&& final(self).footnotes@.last().content == content
                    })
                },
                None => {
                    let kind = ReferenceKind::Unnamed { index: footnote_index };
                    let shown = match display {
                        Some(d) => d@,
                        None => decimal(old(self).next_unnamed_footnote_number as nat),
                    };
                    &&& r.unwrap().id@ == reference_id(kind)
                    &&& r.unwrap().href@ == seq!['#'] + reference_target(kind)
                    &&& r.unwrap().text@ == shown
                    &&& final(self).next_unnamed_footnote_number == if display is None {
                        old(self).next_unnamed_footnote_number + 1
                    } else {
                        old(self).next_unnamed_footnote_number as int
                    }
                    &&& final(self).named_footnotes == old(self).named_footnotes
                    &&& final(self).footnotes@.len() == old(self).footnotes@.len() + 1
                        &&& final(self).footnotes@.drop_last() == old(self).footnotes@
                    &&& entry_view(final(self).footnotes@.last()) == (
                        footnote_index as nat,
                        shown,
                        None::<Seq<char>>,
                    )
                    &&& final(self).footnotes@.last().content == content
                },
            },
            final(self).in_footnote == old(self).in_footnote,
            final(self).suppress_soft_breaks_depth == old(self).suppress_soft_breaks_depth,
            final(self).toc_markup == old(self).toc_markup,
            final(self).dark_styles == old(self).dark_styles,
    {
        if self.in_footnote {
            return None;
        }
        match name {
            Some(n) => {
                let first = match self.add_named_footnote(footnote_index, n.clone(), content) {
                    Ok(_) => true,
                    Err(_) => false,
                };
                let kind = if first {
                    ReferenceKind::First { name: n.clone() }
                } else {
                    ReferenceKind::Repeated { name: n.clone(), index: footnote_index }
                };
                let id = reference_footnote_id(&kind);
                let href = reference_footnote_href(&kind);
                Some(FootnoteReference { id, href, text: n })
            },
            None => {
                let text = String::from_str(self.add_footnote(footnote_index, display, content));
                let kind = ReferenceKind::Unnamed { index: footnote_index };
                let id = reference_footnote_id(&kind);
                let href = reference_footnote_href(&kind);
                Some(FootnoteReference { id, href, text })
            },
        }
    }
}

/// The named-footnote table after the footnote references `refs` before
/// `k` (each a footnote index and maybe a name), starting from `named`: a
/// name is added with its index the first time it is referenced.
pub open spec fn registry_after(
    named: Seq<(Seq<char>, nat)>,
    refs: Seq<(usize, Option<String>)>,
    k: int,
) -> Seq<(Seq<char>, nat)>
    decreases k,
{
    if k <= 0 {
        named
    } else {
        let prev = registry_after(named, refs, k - 1);
        match refs[k - 1].1 {
            Some(n) => if named_index(prev, n@) is None {
                prev.push((n@, refs[k - 1].0 as nat))
            } else {
                prev
            },
            None => prev,
        }
    }
}

/// The kind of the footnote reference `k` of `refs`, as `reference_footnote`
/// decides it.
pub open spec fn request_kind(
    named: Seq<(Seq<char>, nat)>,
    refs: Seq<(usize, Option<String>)>,
    k: int,
) -> ReferenceKind {
    match refs[k].1 {
        Some(n) => if named_index(registry_after(named, refs, k), n@) is None {
            ReferenceKind::First { name: n }
        } else {
            ReferenceKind::Repeated { name: n, index: refs[k].0 }
        },
        None => ReferenceKind::Unnamed { index: refs[k].0 },
    }
}

/// A registered name stays registered when the table grows.
proof fn lemma_registered_stays(
    named: Seq<(Seq<char>, nat)>,
    refs: Seq<(usize, Option<String>)>,
    a: int,
    b: int,
    name: Seq<char>,
)
    requires
        0 <= a <= b,
        named_index(registry_after(named, refs, a), name) is Some,
    ensures
        named_index(registry_after(named, refs, b), name) is Some,
    decreases b - a,
{
    if a < b {
        lemma_registered_stays(named, refs, a, b - 1, name);
        let prev = registry_after(named, refs, b - 1);
        match refs[b - 1].1 {
            Some(n) => if named_index(prev, n@) is None {
                let next = prev.push((n@, refs[b - 1].0 as nat));
                assert(next.drop_last() =~= prev);
            },
            None => {},
        }
    }
}

/// Within a document, every footnote reference gets an id of its own:
/// references at different footnote indices never share an id, whether
/// unnamed, first references to a name or later ones.
pub proof fn lemma_document_reference_ids_unique(
    named: Seq<(Seq<char>, nat)>,
    refs: Seq<(usize, Option<String>)>,
    i: int,
    j: int,
)
    requires
        0 <= i < j < refs.len(),
        refs[i].0 != refs[j].0,
    ensures
        reference_id(request_kind(named, refs, i)) != reference_id(request_kind(named, refs, j)),
{
    let ki = request_kind(named, refs, i);
    let kj = request_kind(named, refs, j);
    lemma_reference_ids_unique(ki, kj);
    if let (ReferenceKind::First { name: n }, ReferenceKind::First { name: m }) = (ki, kj) {
        if n@ == m@ {
            let prev = registry_after(named, refs, i);
            let next = prev.push((n@, refs[i].0 as nat));
            assert(registry_after(named, refs, i + 1) == next);
            assert(next.last().0 == n@);
            lemma_registered_stays(named, refs, i + 1, j, n@);
        }
    }
    assert(!same_reference(ki, kj));
}

/// The view of an optional string.
pub open spec fn opt_view(o: Option<String>) -> Option<Seq<char>> {
    match o {
        Some(s) => Some(s@),
        None => None,
    }
}

} // verus!
