//! The generic association table: a set of (owner id, language id) membership
//! facts, shared by the Site, Community and User language managers.
//!
//! The table is modelled as a sequence of rows; per owner the rows form a set
//! (no duplicate pairs), which `table_wf` states. `langs_seq` is the ordered
//! sequence of one owner's language ids, the value every read returns.

use vstd::prelude::*;

use crate::newtypes::LanguageId;

verus! {

/// One association row: "owner permits/uses this language."
#[derive(Clone, Copy, PartialEq, Eq, Structural, Debug)]
pub struct AssocRow {
    pub owner: i32,
    pub lang: LanguageId,
}

/// Does a row (owner, lang) occur in `rows`?
pub open spec fn has_lang(rows: Seq<AssocRow>, owner: i32, lang: LanguageId) -> bool {
    exists|i: int| 0 <= i < rows.len() && rows[i].owner == owner && rows[i].lang == lang
}

/// The languages of one owner, in row order.
pub open spec fn langs_seq(rows: Seq<AssocRow>, owner: i32) -> Seq<LanguageId>
    decreases rows.len(),
{
    if rows.len() == 0 {
        Seq::empty()
    } else {
        let rest = langs_seq(rows.drop_last(), owner);
        if rows.last().owner == owner {
            rest.push(rows.last().lang)
        } else {
            rest
        }
    }
}

/// `rows` with every row of `owner` removed, order kept.
pub open spec fn remove_owner(rows: Seq<AssocRow>, owner: i32) -> Seq<AssocRow>
    decreases rows.len(),
{
    if rows.len() == 0 {
        Seq::empty()
    } else {
        let rest = remove_owner(rows.drop_last(), owner);
        if rows.last().owner == owner {
            rest
        } else {
            rest.push(rows.last())
        }
    }
}

/// `rows` with those rows of `owner` removed whose language is not in `keep`;
/// rows of other owners are untouched, order kept.
pub open spec fn limit_rows(rows: Seq<AssocRow>, owner: i32, keep: Seq<LanguageId>) -> Seq<
    AssocRow,
>
    decreases rows.len(),
{
    if rows.len() == 0 {
        Seq::empty()
    } else {
        let rest = limit_rows(rows.drop_last(), owner, keep);
        if rows.last().owner != owner || keep.contains(rows.last().lang) {
            rest.push(rows.last())
        } else {
            rest
        }
    }
}

/// The subsequence of `s` whose elements occur in `keep` — the intersection,
/// in the order of `s`.
pub open spec fn keep_in(s: Seq<LanguageId>, keep: Seq<LanguageId>) -> Seq<LanguageId>
    decreases s.len(),
{
    if s.len() == 0 {
        Seq::empty()
    } else {
        let rest = keep_in(s.drop_last(), keep);
        if keep.contains(s.last()) {
            rest.push(s.last())
        } else {
            rest
        }
    }
}

/// Well-formedness: per owner the rows form a set — no owner lists a language
/// twice.
pub open spec fn table_wf(rows: Seq<AssocRow>) -> bool {
    forall|o: i32| (#[trigger] langs_seq(rows, o)).no_duplicates()
}

/// A language occurs in an owner's read sequence exactly when the table holds
/// the corresponding row.
pub proof fn lemma_langs_seq_contains(rows: Seq<AssocRow>, owner: i32, lang: LanguageId)
    ensures
        langs_seq(rows, owner).contains(lang) <==> has_lang(rows, owner, lang),
    decreases rows.len(),
{
    if rows.len() == 0 {
    } else {
        let prefix = rows.drop_last();
        let last = rows.last();
        lemma_langs_seq_contains(prefix, owner, lang);
        let ls = langs_seq(rows, owner);
        let lsp = langs_seq(prefix, owner);
        if ls.contains(lang) {
            let j = choose|j: int| 0 <= j < ls.len() && ls[j] == lang;
            if last.owner == owner && j == lsp.len() {
                assert(rows[rows.len() - 1].owner == owner && rows[rows.len() - 1].lang == lang);
            } else {
                assert(lsp[j] == lang);
                let i = choose|i: int|
                    0 <= i < prefix.len() && prefix[i].owner == owner && prefix[i].lang == lang;
                assert(rows[i].owner == owner && rows[i].lang == lang);
            }
        }
        if has_lang(rows, owner, lang) {
            let i = choose|i: int|
                0 <= i < rows.len() && rows[i].owner == owner && rows[i].lang == lang;
            if i == rows.len() - 1 {
                assert(ls[ls.len() - 1] == lang);
            } else {
                assert(prefix[i].owner == owner && prefix[i].lang == lang);
                assert(has_lang(prefix, owner, lang));
                let j = choose|j: int| 0 <= j < lsp.len() && lsp[j] == lang;
                assert(ls[j] == lang);
            }
        }
    }
}

/// Removing an owner's rows empties that owner's sequence and leaves every
/// other owner's sequence as it was.
pub proof fn lemma_remove_owner(rows: Seq<AssocRow>, owner: i32, o2: i32)
    ensures
        langs_seq(remove_owner(rows, owner), o2) == if o2 == owner {
            Seq::<LanguageId>::empty()
        } else {
            langs_seq(rows, o2)
        },
    decreases rows.len(),
{
    if rows.len() == 0 {
    } else {
        let prefix = rows.drop_last();
        lemma_remove_owner(prefix, owner, o2);
        if rows.last().owner != owner {
            let r = remove_owner(prefix, owner).push(rows.last());
            assert(r.drop_last() =~= remove_owner(prefix, owner));
        }
    }
}

/// Limiting an owner's rows to `keep` intersects that owner's sequence with
/// `keep` and leaves every other owner's sequence as it was.
pub proof fn lemma_limit_rows(rows: Seq<AssocRow>, owner: i32, keep: Seq<LanguageId>, o2: i32)
    ensures
        langs_seq(limit_rows(rows, owner, keep), o2) == if o2 == owner {
            keep_in(langs_seq(rows, o2), keep)
        } else {
            langs_seq(rows, o2)
        },
    decreases rows.len(),
{
    if rows.len() == 0 {
    } else {
        let prefix = rows.drop_last();
        lemma_limit_rows(prefix, owner, keep, o2);
        let last = rows.last();
        if last.owner != owner || keep.contains(last.lang) {
            let r = limit_rows(prefix, owner, keep).push(last);
            assert(r.drop_last() =~= limit_rows(prefix, owner, keep));
        }
        if last.owner == o2 {
            assert(langs_seq(rows, o2).drop_last() =~= langs_seq(prefix, o2));
        }
    }
}

/// Membership in an intersection: in both operands, and in neither otherwise.
pub proof fn lemma_keep_in_contains(s: Seq<LanguageId>, keep: Seq<LanguageId>, lang: LanguageId)
    ensures
        keep_in(s, keep).contains(lang) <==> (s.contains(lang) && keep.contains(lang)),
    decreases s.len(),
{
    if s.len() == 0 {
    } else {
        let prefix = s.drop_last();
        let last = s.last();
        lemma_keep_in_contains(prefix, keep, lang);
        let ks = keep_in(s, keep);
        let kp = keep_in(prefix, keep);
        if ks.contains(lang) {
            let j = choose|j: int| 0 <= j < ks.len() && ks[j] == lang;
            if keep.contains(last) && j == kp.len() {
                assert(s[s.len() - 1] == lang);
            } else {
                assert(kp[j] == lang);
                let i = choose|i: int| 0 <= i < prefix.len() && prefix[i] == lang;
                assert(s[i] == lang);
            }
        }
        if s.contains(lang) && keep.contains(lang) {
            let i = choose|i: int| 0 <= i < s.len() && s[i] == lang;
            if i == s.len() - 1 {
                assert(ks[ks.len() - 1] == lang);
            } else {
                assert(prefix[i] == lang);
                assert(prefix.contains(lang));
                let j = choose|j: int| 0 <= j < kp.len() && kp[j] == lang;
                assert(ks[j] == lang);
            }
        }
    }
}

/// Intersection keeps a sequence free of duplicates.
pub proof fn lemma_keep_in_no_dup(s: Seq<LanguageId>, keep: Seq<LanguageId>)
    requires
        s.no_duplicates(),
    ensures
        keep_in(s, keep).no_duplicates(),
    decreases s.len(),
{
    if s.len() == 0 {
    } else {
        let prefix = s.drop_last();
        assert(prefix.no_duplicates());
        lemma_keep_in_no_dup(prefix, keep);
        if keep.contains(s.last()) {
            lemma_keep_in_contains(prefix, keep, s.last());
            if prefix.contains(s.last()) {
                let i = choose|i: int| 0 <= i < prefix.len() && prefix[i] == s.last();
                assert(s[i] == s[s.len() - 1]);
            }
            assert(!keep_in(prefix, keep).contains(s.last()));
        }
    }
}

/// An association table: the rows of one of the three two-column relations.
pub struct AssocTable {
    pub rows: Vec<AssocRow>,
}

/// Does `v` contain `lang`?
pub fn vec_contains_lang(v: &Vec<LanguageId>, lang: LanguageId) -> (r: bool)
    ensures
        r == v@.contains(lang),
{
    let mut i: usize = 0;
    while i < v.len()
        invariant
            i <= v@.len(),
            forall|k: int| 0 <= k < i ==> v@[k] != lang,
        decreases v@.len() - i,
    {
        if v[i] == lang {
            return true;
        }
        i = i + 1;
    }
    false
}

/// Are the elements of `v` pairwise distinct?
pub fn distinct_langs(v: &Vec<LanguageId>) -> (r: bool)
    ensures
        r == v@.no_duplicates(),
{
    let mut i: usize = 0;
    while i < v.len()
        invariant
            i <= v@.len(),
            forall|p: int, q: int| 0 <= p < q < i ==> v@[p] != v@[q],
        decreases v@.len() - i,
    {
        let mut j: usize = 0;
        while j < i
            invariant
                j <= i < v@.len(),
                forall|q: int| 0 <= q < j ==> v@[q] != v@[i as int],
            decreases i - j,
        {
            if v[j] == v[i] {
                return false;
            }
            j = j + 1;
        }
        i = i + 1;
    }
    true
}

impl AssocTable {
    /// An empty table.
    pub fn new() -> (t: AssocTable)
        ensures
            t.rows@ == Seq::<AssocRow>::empty(),
            table_wf(t.rows@),
    {
        let t = AssocTable { rows: Vec::new() };
        proof {
            assert forall|o: i32| (#[trigger] langs_seq(t.rows@, o)).no_duplicates() by {
                assert(langs_seq(t.rows@, o) == Seq::<LanguageId>::empty());
            }
        }
        t
    }

    /// The languages of `owner`, in row order.
    pub fn read(&self, owner: i32) -> (r: Vec<LanguageId>)
        ensures
            r@ == langs_seq(self.rows@, owner),
    {
        let mut out: Vec<LanguageId> = Vec::new();
        let mut i: usize = 0;
        while i < self.rows.len()
            invariant
                i <= self.rows@.len(),
                out@ == langs_seq(self.rows@.take(i as int), owner),
            decreases self.rows@.len() - i,
        {
            let row = self.rows[i];
            proof {
                assert(self.rows@.take(i as int + 1).drop_last() =~= self.rows@.take(i as int));
                assert(self.rows@.take(i as int + 1).last() == row);
            }
            if row.owner == owner {
                out.push(row.lang);
            }
            i = i + 1;
        }
        proof {
            assert(self.rows@.take(self.rows@.len() as int) =~= self.rows@);
        }
        out
    }

    /// Does the table hold the row (owner, lang)?
    pub fn contains_lang(&self, owner: i32, lang: LanguageId) -> (r: bool)
        ensures
            r == has_lang(self.rows@, owner, lang),
    {
        let mut i: usize = 0;
        while i < self.rows.len()
            invariant
                i <= self.rows@.len(),
                forall|k: int|
                    0 <= k < i ==> !(self.rows@[k].owner == owner && self.rows@[k].lang == lang),
            decreases self.rows@.len() - i,
        {
            let row = self.rows[i];
            if row.owner == owner && row.lang == lang {
                return true;
            }
            i = i + 1;
        }
        false
    }

    /// Replace `owner`'s rows by one row per element of `langs`, in order.
    /// Other owners' rows are untouched. Full-replace semantics: no residue of
    /// the previous set remains.
    pub fn replace_owner(&mut self, owner: i32, langs: &Vec<LanguageId>)
        requires
            langs@.no_duplicates(),
            table_wf(old(self).rows@),
        ensures
            table_wf(final(self).rows@),
            langs_seq(final(self).rows@, owner) == langs@,
            forall|o2: i32|
                o2 != owner ==> langs_seq(final(self).rows@, o2) == langs_seq(
                    old(self).rows@,
                    o2,
                ),
            forall|o2: i32, l: LanguageId|
                #[trigger] has_lang(final(self).rows@, o2, l) <==> if o2 == owner {
                    langs@.contains(l)
                } else {
                    has_lang(old(self).rows@, o2, l)
                },
    {
        let ghost orig = self.rows@;
        let mut kept: Vec<AssocRow> = Vec::new();
        let mut i: usize = 0;
        while i < self.rows.len()
            invariant
                i <= self.rows@.len(),
                self.rows@ == orig,
                kept@ == remove_owner(orig.take(i as int), owner),
            decreases self.rows@.len() - i,
        {
            let row = self.rows[i];
            proof {
                assert(orig.take(i as int + 1).drop_last() =~= orig.take(i as int));
                assert(orig.take(i as int + 1).last() == row);
            }
            if row.owner != owner {
                kept.push(row);
            }
            i = i + 1;
        }
        proof {
            assert(orig.take(orig.len() as int) =~= orig);
            lemma_remove_owner(orig, owner, owner);
            assert(langs@.take(0) =~= Seq::<LanguageId>::empty());
            assert forall|o2: i32| o2 != owner implies langs_seq(kept@, o2) == langs_seq(
                orig,
                o2,
            ) by {
                lemma_remove_owner(orig, owner, o2);
            }
        }
        let mut j: usize = 0;
        while j < langs.len()
            invariant
                j <= langs@.len(),
                langs_seq(kept@, owner) == langs@.take(j as int),
                forall|o2: i32| o2 != owner ==> langs_seq(kept@, o2) == langs_seq(orig, o2),
            decreases langs@.len() - j,
        {
            let lang = langs[j];
            let ghost prev = kept@;
            kept.push(AssocRow { owner: owner, lang: lang });
            proof {
                assert(kept@.drop_last() =~= prev);
                assert(langs@.take(j as int + 1).drop_last() =~= langs@.take(j as int));
                assert(langs@.take(j as int + 1).last() == lang);
                assert(langs_seq(kept@, owner) == langs_seq(prev, owner).push(lang));
                assert forall|o2: i32| o2 != owner implies langs_seq(kept@, o2) == langs_seq(
                    orig,
                    o2,
                ) by {
                    assert(langs_seq(kept@, o2) == langs_seq(prev, o2));
                }
            }
            j = j + 1;
        }
        proof {
            assert(langs@.take(langs@.len() as int) =~= langs@);
        }
        self.rows = kept;
        proof {
            assert forall|o: i32| (#[trigger] langs_seq(self.rows@, o)).no_duplicates() by {
                if o == owner {
                    assert(langs_seq(self.rows@, o) == langs@);
                } else {
                    assert(langs_seq(self.rows@, o) == langs_seq(orig, o));
                }
            }
            assert forall|o2: i32, l: LanguageId|
                #[trigger] has_lang(self.rows@, o2, l) <==> if o2 == owner {
                    langs@.contains(l)
                } else {
                    has_lang(orig, o2, l)
                } by {
                lemma_langs_seq_contains(self.rows@, o2, l);
                lemma_langs_seq_contains(orig, o2, l);
            }
        }
    }

    /// Delete `owner`'s rows whose language is not in `keep` — narrow the
    /// owner's set to its intersection with `keep`. Other owners' rows are
    /// untouched; no row is ever added.
    pub fn retain_owner_langs(&mut self, owner: i32, keep: &Vec<LanguageId>)
        requires
            table_wf(old(self).rows@),
        ensures
            table_wf(final(self).rows@),
            langs_seq(final(self).rows@, owner) == keep_in(
                langs_seq(old(self).rows@, owner),
                keep@,
            ),
            forall|o2: i32|
                o2 != owner ==> langs_seq(final(self).rows@, o2) == langs_seq(
                    old(self).rows@,
                    o2,
                ),
            forall|o2: i32, l: LanguageId|
                #[trigger] has_lang(final(self).rows@, o2, l) <==> (has_lang(
                    old(self).rows@,
                    o2,
                    l,
                ) && (o2 != owner || keep@.contains(l))),
    {
        let ghost orig = self.rows@;
        let mut kept: Vec<AssocRow> = Vec::new();
        let mut i: usize = 0;
        while i < self.rows.len()
            invariant
                i <= self.rows@.len(),
                self.rows@ == orig,
                kept@ == limit_rows(orig.take(i as int), owner, keep@),
            decreases self.rows@.len() - i,
        {
            let row = self.rows[i];
            proof {
                assert(orig.take(i as int + 1).drop_last() =~= orig.take(i as int));
                assert(orig.take(i as int + 1).last() == row);
            }
            if row.owner != owner || vec_contains_lang(keep, row.lang) {
                kept.push(row);
            }
            i = i + 1;
        }
        proof {
            assert(orig.take(orig.len() as int) =~= orig);
        }
        self.rows = kept;
        proof {
            assert forall|o2: i32|
                #[trigger] langs_seq(self.rows@, o2) == if o2 == owner {
                    keep_in(langs_seq(orig, o2), keep@)
                } else {
                    langs_seq(orig, o2)
                } by {
                lemma_limit_rows(orig, owner, keep@, o2);
            }
            assert forall|o: i32| (#[trigger] langs_seq(self.rows@, o)).no_duplicates() by {
                if o == owner {
                    lemma_keep_in_no_dup(langs_seq(orig, o), keep@);
                }
            }
            assert forall|o2: i32, l: LanguageId|
                #[trigger] has_lang(self.rows@, o2, l) <==> (has_lang(orig, o2, l) && (o2 != owner
                    || keep@.contains(l))) by {
                lemma_langs_seq_contains(self.rows@, o2, l);
                lemma_langs_seq_contains(orig, o2, l);
                if o2 == owner {
                    lemma_keep_in_contains(langs_seq(orig, o2), keep@, l);
                }
            }
        }
    }
}

} // verus!
