//! The backing store: the language catalog (read-only reference data), the
//! three association tables, the local Site, and the roster of local
//! communities. One `Store` value stands for the state one atomic read-write
//! transaction sees; every mutating operation either completes in full or
//! leaves the store untouched.

use vstd::prelude::*;

use crate::assoc::{has_lang, langs_seq, lemma_langs_seq_contains, table_wf, AssocTable};
use crate::errors::StorageError;
use crate::newtypes::{CommunityId, LanguageId, LocalUserId, SiteId};

verus! {

/// One row of the language catalog. Immutable reference data; never mutated
/// by this crate.
pub struct Language {
    pub id: LanguageId,
    pub code: String,
    pub name: String,
}

/// The identifier column of a catalog, in catalog order.
pub open spec fn catalog_ids(catalog: Seq<Language>) -> Seq<LanguageId> {
    catalog.map_values(|l: Language| l.id)
}

/// Every language id held by `rows` refers to a catalog row.
pub open spec fn fk_ok(rows: Seq<crate::assoc::AssocRow>, catalog: Seq<Language>) -> bool {
    forall|o: i32, l: LanguageId| #[trigger] has_lang(rows, o, l) ==> catalog_ids(catalog).contains(l)
}

/// The store holding all state this crate reads or writes.
pub struct Store {
    /// The language catalog, injected once and read-only.
    pub languages: Vec<Language>,
    /// The id of the local Site, once one is created.
    pub local_site: Option<SiteId>,
    /// Site association rows.
    pub site_language: AssocTable,
    /// Community association rows.
    pub community_language: AssocTable,
    /// Local-user association rows.
    pub local_user_language: AssocTable,
    /// Ids of the locally administered communities; remote (federated)
    /// communities are not listed here.
    pub local_communities: Vec<CommunityId>,
}

/// Well-formedness of a store: catalog ids are unique, each association table
/// is duplicate-free per owner, every association row's language id refers to
/// the catalog, and the local-community roster lists each community once.
pub open spec fn inv(s: Store) -> bool {
    &&& catalog_ids(s.languages@).no_duplicates()
    &&& table_wf(s.site_language.rows@)
    &&& table_wf(s.community_language.rows@)
    &&& table_wf(s.local_user_language.rows@)
    &&& fk_ok(s.site_language.rows@, s.languages@)
    &&& fk_ok(s.community_language.rows@, s.languages@)
    &&& fk_ok(s.local_user_language.rows@, s.languages@)
    &&& s.local_communities@.no_duplicates()
}

impl Store {
    /// A fresh store over the given catalog, with no site, no communities, no
    /// users and no association rows.
    pub fn new(languages: Vec<Language>) -> (s: Store)
        requires
            catalog_ids(languages@).no_duplicates(),
        ensures
            inv(s),
            s.languages@ == languages@,
            s.local_site is None,
            s.site_language.rows@ == Seq::<crate::assoc::AssocRow>::empty(),
            s.community_language.rows@ == Seq::<crate::assoc::AssocRow>::empty(),
            s.local_user_language.rows@ == Seq::<crate::assoc::AssocRow>::empty(),
            s.local_communities@ == Seq::<CommunityId>::empty(),
    {
        let s = Store {
            languages,
            local_site: None,
            site_language: AssocTable::new(),
            community_language: AssocTable::new(),
            local_user_language: AssocTable::new(),
            local_communities: Vec::new(),
        };
        s
    }

    /// All catalog ids, in catalog order.
    pub fn read_all_language_ids(&self) -> (r: Vec<LanguageId>)
        ensures
            r@ == catalog_ids(self.languages@),
    {
        let mut out: Vec<LanguageId> = Vec::new();
        let mut i: usize = 0;
        while i < self.languages.len()
            invariant
                i <= self.languages@.len(),
                out@ == catalog_ids(self.languages@).take(i as int),
            decreases self.languages@.len() - i,
        {
            out.push(self.languages[i].id);
            proof {
                assert(out@ =~= catalog_ids(self.languages@).take(i as int + 1));
            }
            i = i + 1;
        }
        proof {
            assert(out@ =~= catalog_ids(self.languages@));
        }
        out
    }

    /// Does the catalog hold a row with this id?
    pub fn catalog_contains(&self, lang: LanguageId) -> (r: bool)
        ensures
            r == catalog_ids(self.languages@).contains(lang),
    {
        let mut i: usize = 0;
        while i < self.languages.len()
            invariant
                i <= self.languages@.len(),
                forall|k: int| 0 <= k < i ==> catalog_ids(self.languages@)[k] != lang,
            decreases self.languages@.len() - i,
        {
            if self.languages[i].id == lang {
                proof {
                    assert(catalog_ids(self.languages@)[i as int] == lang);
                }
                return true;
            }
            i = i + 1;
        }
        false
    }

    /// Do all of `ids` refer to catalog rows?
    pub fn all_in_catalog(&self, ids: &Vec<LanguageId>) -> (r: bool)
        ensures
            r == all_in(ids@, self.languages@),
    {
        let mut j: usize = 0;
        while j < ids.len()
            invariant
                j <= ids@.len(),
                forall|k: int|
                    0 <= k < j ==> catalog_ids(self.languages@).contains(#[trigger] ids@[k]),
            decreases ids@.len() - j,
        {
            if !self.catalog_contains(ids[j]) {
                return false;
            }
            j = j + 1;
        }
        true
    }
}

impl Language {
    /// The id of the first catalog row carrying this code; `NotFound` when
    /// no catalog row does.
    pub fn read_id_from_code(store: &Store, code: &str) -> (r: Result<LanguageId, StorageError>)
        ensures
            r is Ok <==> (exists|k: int|
                0 <= k < store.languages@.len() && (#[trigger] store.languages@[k]).code@
                    == code@),
            r matches Ok(id) ==> exists|k: int|
                0 <= k < store.languages@.len() && (#[trigger] store.languages@[k]).code@ == code@
                    && store.languages@[k].id == id && (forall|j: int|
                    0 <= j < k ==> store.languages@[j].code@ != code@),
            r is Err ==> r == Err::<LanguageId, StorageError>(StorageError::NotFound),
    {
        let owned: String = code.to_owned();
        let mut i: usize = 0;
        while i < store.languages.len()
            invariant
                i <= store.languages@.len(),
                owned@ == code@,
                forall|j: int| 0 <= j < i ==> (#[trigger] store.languages@[j]).code@ != code@,
            decreases store.languages@.len() - i,
        {
            if store.languages[i].code == owned {
                return Ok(store.languages[i].id);
            }
            i = i + 1;
        }
        Err(StorageError::NotFound)
    }
}

/// Every element of `ids` refers to a catalog row.
pub open spec fn all_in(ids: Seq<LanguageId>, catalog: Seq<Language>) -> bool {
    forall|k: int| 0 <= k < ids.len() ==> catalog_ids(catalog).contains(#[trigger] ids[k])
}

impl Store {
    /// Create the local Site. Site creation seeds the site with every
    /// language of the catalog; a second local site is a uniqueness
    /// violation and leaves the store unchanged.
    pub fn create_site(&mut self, site_id: SiteId) -> (r: Result<(), StorageError>)
        requires
            inv(*old(self)),
        ensures
            inv(*final(self)),
            r is Ok <==> old(self).local_site is None,
            r is Err ==> r == Err::<(), StorageError>(StorageError::UniqueViolation) && *final(self)
                == *old(self),
            r is Ok ==> {
                &&& final(self).local_site == Some(site_id)
                &&& final(self).languages@ == old(self).languages@
                &&& final(self).local_communities@ == old(self).local_communities@
                &&& final(self).community_language.rows@ == old(self).community_language.rows@
                &&& final(self).local_user_language.rows@ == old(self).local_user_language.rows@
                &&& langs_seq(final(self).site_language.rows@, site_id.0) == catalog_ids(
                    old(self).languages@,
                )
                &&& forall|o: i32|
                    o != site_id.0 ==> #[trigger] langs_seq(final(self).site_language.rows@, o)
                        == langs_seq(old(self).site_language.rows@, o)
            },
    {
        if self.local_site.is_some() {
            return Err(StorageError::UniqueViolation);
        }
        self.local_site = Some(site_id);
        let all = self.read_all_language_ids();
        self.site_language.replace_owner(site_id.0, &all);
        proof {
            assert forall|o: i32, l: LanguageId|
                #[trigger] has_lang(self.site_language.rows@, o, l) implies catalog_ids(
                self.languages@,
            ).contains(l) by {
                if o == site_id.0 {
                    assert(all@.contains(l));
                } else {
                    assert(has_lang(old(self).site_language.rows@, o, l));
                }
            }
        }
        Ok(())
    }

    /// Create a locally administered community. Creation seeds the community
    /// with the local Site's current language set; without a local Site the
    /// community cannot be created, and a community id already on the local
    /// roster is a uniqueness violation. A failure leaves the store
    /// unchanged.
    pub fn create_local_community(&mut self, community_id: CommunityId) -> (r: Result<
        (),
        StorageError,
    >)
        requires
            inv(*old(self)),
        ensures
            inv(*final(self)),
            r is Ok <==> (old(self).local_site is Some && !old(self).local_communities@.contains(
                community_id,
            )),
            old(self).local_site is None ==> r == Err::<(), StorageError>(StorageError::NotFound),
            old(self).local_site is Some && old(self).local_communities@.contains(community_id)
                ==> r == Err::<(), StorageError>(StorageError::UniqueViolation),
            r is Err ==> *final(self) == *old(self),
            r is Ok ==> {
                &&& final(self).local_site == old(self).local_site
                &&& final(self).languages@ == old(self).languages@
                &&& final(self).site_language.rows@ == old(self).site_language.rows@
                &&& final(self).local_user_language.rows@ == old(self).local_user_language.rows@
                &&& final(self).local_communities@ == old(self).local_communities@.push(
                    community_id,
                )
                &&& langs_seq(final(self).community_language.rows@, community_id.0) == langs_seq(
                    old(self).site_language.rows@,
                    (old(self).local_site->Some_0).0,
                )
                &&& forall|o: i32|
                    o != community_id.0 ==> #[trigger] langs_seq(
                        final(self).community_language.rows@,
                        o,
                    ) == langs_seq(old(self).community_language.rows@, o)
            },
    {
        let site_id = match self.local_site {
            Some(s) => s,
            None => {
                return Err(StorageError::NotFound);
            },
        };
        let mut i: usize = 0;
        while i < self.local_communities.len()
            invariant
                *self == *old(self),
                inv(*old(self)),
                self.local_site is Some,
                i <= self.local_communities@.len(),
                forall|k: int| 0 <= k < i ==> self.local_communities@[k] != community_id,
            decreases self.local_communities@.len() - i,
        {
            if self.local_communities[i] == community_id {
                return Err(StorageError::UniqueViolation);
            }
            i = i + 1;
        }
        let site_langs = self.site_language.read(site_id.0);
        self.community_language.replace_owner(community_id.0, &site_langs);
        self.local_communities.push(community_id);
        proof {
            assert forall|o: i32, l: LanguageId|
                #[trigger] has_lang(self.community_language.rows@, o, l) implies catalog_ids(
                self.languages@,
            ).contains(l) by {
                if o == community_id.0 {
                    assert(site_langs@.contains(l));
                    lemma_langs_seq_contains(old(self).site_language.rows@, site_id.0, l);
                } else {
                    assert(has_lang(old(self).community_language.rows@, o, l));
                }
            }
            assert(self.local_communities@.drop_last() =~= old(self).local_communities@);
            assert forall|p: int, q: int|
                0 <= p < q < self.local_communities@.len() implies self.local_communities@[p]
                != self.local_communities@[q] by {
                if q == self.local_communities@.len() - 1 {
                    assert(!old(self).local_communities@.contains(community_id));
                }
            }
        }
        Ok(())
    }

    /// Create a local user. Creation seeds the user with the local Site's
    /// current language set; without a local Site the user cannot be
    /// created, and a user that already holds languages is a uniqueness
    /// violation. A failure leaves the store unchanged.
    pub fn create_local_user(&mut self, user_id: LocalUserId) -> (r: Result<(), StorageError>)
        requires
            inv(*old(self)),
        ensures
            inv(*final(self)),
            r is Ok <==> (old(self).local_site is Some && langs_seq(
                old(self).local_user_language.rows@,
                user_id.0,
            ).len() == 0),
            old(self).local_site is None ==> r == Err::<(), StorageError>(StorageError::NotFound),
            old(self).local_site is Some && langs_seq(
                old(self).local_user_language.rows@,
                user_id.0,
            ).len() != 0 ==> r == Err::<(), StorageError>(StorageError::UniqueViolation),
            r is Err ==> *final(self) == *old(self),
            r is Ok ==> {
                &&& final(self).local_site == old(self).local_site
                &&& final(self).languages@ == old(self).languages@
                &&& final(self).local_communities@ == old(self).local_communities@
                &&& final(self).site_language.rows@ == old(self).site_language.rows@
                &&& final(self).community_language.rows@ == old(self).community_language.rows@
                &&& langs_seq(final(self).local_user_language.rows@, user_id.0) == langs_seq(
                    old(self).site_language.rows@,
                    (old(self).local_site->Some_0).0,
                )
                &&& forall|o: i32|
                    o != user_id.0 ==> #[trigger] langs_seq(
                        final(self).local_user_language.rows@,
                        o,
                    ) == langs_seq(old(self).local_user_language.rows@, o)
            },
    {
        let site_id = match self.local_site {
            Some(s) => s,
            None => {
                return Err(StorageError::NotFound);
            },
        };
        let existing = self.local_user_language.read(user_id.0);
        if existing.len() != 0 {
            return Err(StorageError::UniqueViolation);
        }
        let site_langs = self.site_language.read(site_id.0);
        self.local_user_language.replace_owner(user_id.0, &site_langs);
        proof {
            assert forall|o: i32, l: LanguageId|
                #[trigger] has_lang(self.local_user_language.rows@, o, l) implies catalog_ids(
                self.languages@,
            ).contains(l) by {
                if o == user_id.0 {
                    assert(site_langs@.contains(l));
                    lemma_langs_seq_contains(old(self).site_language.rows@, site_id.0, l);
                } else {
                    assert(has_lang(old(self).local_user_language.rows@, o, l));
                }
            }
        }
        Ok(())
    }
}

} // verus!
