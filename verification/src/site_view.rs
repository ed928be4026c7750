//! A read-side view of the local Site together with the full catalog rows of
//! its allowed languages.

use vstd::prelude::*;

use crate::assoc::{langs_seq, lemma_langs_seq_contains};
use crate::errors::StorageError;
use crate::newtypes::{LanguageId, SiteId};
use crate::store::{catalog_ids, inv, Language, Store};

verus! {

/// The local Site's id and the catalog rows of its allowed languages, in the
/// order of the site's association rows.
pub struct SiteView {
    pub site: SiteId,
    pub languages: Vec<Language>,
}

/// The catalog row with the given id, copied out; `None` when the catalog
/// does not hold the id.
fn find_language(store: &Store, id: LanguageId) -> (r: Option<Language>)
    ensures
        r is Some <==> catalog_ids(store.languages@).contains(id),
        r matches Some(l) ==> store.languages@.contains(l) && l.id == id,
{
    let mut i: usize = 0;
    while i < store.languages.len()
        invariant
            i <= store.languages@.len(),
            forall|k: int| 0 <= k < i ==> catalog_ids(store.languages@)[k] != id,
        decreases store.languages@.len() - i,
    {
        if store.languages[i].id == id {
            let found = Language {
                id: store.languages[i].id,
                code: store.languages[i].code.clone(),
                name: store.languages[i].name.clone(),
            };
            proof {
                assert(found == store.languages@[i as int]);
                assert(catalog_ids(store.languages@)[i as int] == id);
            }
            return Some(found);
        }
        i = i + 1;
    }
    None
}

impl SiteView {
    /// The local Site with its allowed languages as full catalog rows;
    /// `NotFound` when no local site exists.
    pub fn read_local(store: &Store) -> (r: Result<SiteView, StorageError>)
        requires
            inv(*store),
        ensures
            r is Ok <==> store.local_site is Some,
            store.local_site is None ==> r == Err::<SiteView, StorageError>(StorageError::NotFound),
            r matches Ok(v) ==> {
                let site_langs = langs_seq(store.site_language.rows@, (store.local_site->Some_0).0);
                &&& v.site == store.local_site->Some_0
                &&& v.languages@.len() == site_langs.len()
                &&& forall|k: int|
                    0 <= k < site_langs.len() ==> (#[trigger] v.languages@[k]).id == site_langs[k]
                        && store.languages@.contains(v.languages@[k])
            },
    {
        let site_id = match store.local_site {
            Some(s) => s,
            None => {
                return Err(StorageError::NotFound);
            },
        };
        let site_langs = store.site_language.read(site_id.0);
        let ghost ids = langs_seq(store.site_language.rows@, site_id.0);
        let mut languages: Vec<Language> = Vec::new();
        let mut i: usize = 0;
        while i < site_langs.len()
            invariant
                inv(*store),
                site_langs@ == ids,
                ids == langs_seq(store.site_language.rows@, site_id.0),
                i <= ids.len(),
                languages@.len() == i,
                forall|k: int|
                    0 <= k < i ==> (#[trigger] languages@[k]).id == ids[k]
                        && store.languages@.contains(languages@[k]),
            decreases ids.len() - i,
        {
            proof {
                assert(ids.contains(ids[i as int]));
                lemma_langs_seq_contains(store.site_language.rows@, site_id.0, ids[i as int]);
            }
            match find_language(store, site_langs[i]) {
                Some(l) => {
                    languages.push(l);
                },
                None => {
                    return Err(StorageError::NotFound);
                },
            }
            i = i + 1;
        }
        Ok(SiteView { site: site_id, languages })
    }
}

} // verus!
