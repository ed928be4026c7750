//! The three association managers — Site, Community and User languages — and
//! the consistency coordinator that keeps every local Community's set a
//! subset of the Site's.
//!
//! Every `update` runs with full-replace, all-or-nothing semantics: either
//! the owner's rows are replaced by the resolved request (and, for the Site,
//! every local Community is narrowed in the same step), or an integrity
//! violation is reported and the store is left exactly as it was.

use vstd::prelude::*;

use crate::assoc::{distinct_langs, has_lang, keep_in, langs_seq, table_wf};
use crate::errors::{LanguageError, StorageError};
use crate::newtypes::{CommunityId, LanguageId, LocalUserId, SiteId};
use crate::store::{all_in, catalog_ids, fk_ok, inv, Language, Store};

verus! {

/// The selection resolver: an empty request means "all languages" and
/// resolves to the full catalog; a non-empty request stands as it is.
pub open spec fn resolved_ids(ids: Seq<LanguageId>, catalog: Seq<Language>) -> Seq<LanguageId> {
    if ids.len() == 0 {
        catalog_ids(catalog)
    } else {
        ids
    }
}

/// A request the store accepts: pairwise distinct ids, each referring to a
/// catalog row. An empty request is always acceptable (it resolves to the
/// catalog). A violation is reported by the store's integrity checks and
/// rolls the whole update back.
pub open spec fn valid_ids(ids: Seq<LanguageId>, catalog: Seq<Language>) -> bool {
    ids.no_duplicates() && all_in(ids, catalog)
}

/// Is `c` the id of a locally administered community?
pub open spec fn is_local(s: Store, c: i32) -> bool {
    s.local_communities@.contains(CommunityId(c))
}

/// What a completed user update leaves behind: the user's rows are exactly
/// the resolved request, and nothing else in the store moved.
pub open spec fn user_update_ok(pre: Store, post: Store, ids: Seq<LanguageId>, user: LocalUserId) -> bool {
    let resolved = resolved_ids(ids, pre.languages@);
    &&& post.languages@ == pre.languages@
    &&& post.local_site == pre.local_site
    &&& post.local_communities@ == pre.local_communities@
    &&& post.site_language.rows@ == pre.site_language.rows@
    &&& post.community_language.rows@ == pre.community_language.rows@
    &&& langs_seq(post.local_user_language.rows@, user.0) == resolved
    &&& forall|o: i32|
        o != user.0 ==> #[trigger] langs_seq(post.local_user_language.rows@, o) == langs_seq(
            pre.local_user_language.rows@,
            o,
        )
}

/// What a completed community update leaves behind.
pub open spec fn community_update_ok(
    pre: Store,
    post: Store,
    ids: Seq<LanguageId>,
    community: CommunityId,
) -> bool {
    let resolved = resolved_ids(ids, pre.languages@);
    &&& post.languages@ == pre.languages@
    &&& post.local_site == pre.local_site
    &&& post.local_communities@ == pre.local_communities@
    &&& post.site_language.rows@ == pre.site_language.rows@
    &&& post.local_user_language.rows@ == pre.local_user_language.rows@
    &&& langs_seq(post.community_language.rows@, community.0) == resolved
    &&& forall|o: i32|
        o != community.0 ==> #[trigger] langs_seq(post.community_language.rows@, o) == langs_seq(
            pre.community_language.rows@,
            o,
        )
}

/// What the cascading restriction leaves behind: every local community's
/// sequence is intersected with `site_ids`, every other owner's rows — and
/// everything else in the store — are untouched.
pub open spec fn limit_effect(pre: Store, post: Store, site_ids: Seq<LanguageId>) -> bool {
    &&& post.languages@ == pre.languages@
    &&& post.local_site == pre.local_site
    &&& post.local_communities@ == pre.local_communities@
    &&& post.site_language.rows@ == pre.site_language.rows@
    &&& post.local_user_language.rows@ == pre.local_user_language.rows@
    &&& forall|c: i32|
        is_local(pre, c) ==> #[trigger] langs_seq(post.community_language.rows@, c) == keep_in(
            langs_seq(pre.community_language.rows@, c),
            site_ids,
        )
    &&& forall|c: i32|
        !is_local(pre, c) ==> #[trigger] langs_seq(post.community_language.rows@, c) == langs_seq(
            pre.community_language.rows@,
            c,
        )
}

/// What a completed site update leaves behind: the site's rows are exactly
/// the resolved request, and every local community has been narrowed to its
/// intersection with that resolved set, in the same atomic step.
pub open spec fn site_update_ok(pre: Store, post: Store, ids: Seq<LanguageId>, site: SiteId) -> bool {
    let resolved = resolved_ids(ids, pre.languages@);
    &&& post.languages@ == pre.languages@
    &&& post.local_site == pre.local_site
    &&& post.local_communities@ == pre.local_communities@
    &&& post.local_user_language.rows@ == pre.local_user_language.rows@
    &&& langs_seq(post.site_language.rows@, site.0) == resolved
    &&& forall|o: i32|
        o != site.0 ==> #[trigger] langs_seq(post.site_language.rows@, o) == langs_seq(
            pre.site_language.rows@,
            o,
        )
    &&& forall|c: i32|
        is_local(pre, c) ==> #[trigger] langs_seq(post.community_language.rows@, c) == keep_in(
            langs_seq(pre.community_language.rows@, c),
            resolved,
        )
    &&& forall|c: i32|
        !is_local(pre, c) ==> #[trigger] langs_seq(post.community_language.rows@, c) == langs_seq(
            pre.community_language.rows@,
            c,
        )
}

/// The selection resolver, executable form. With an empty request it returns
/// the full catalog's id column; with a non-empty request, the request
/// unchanged. Pure: the store is only read.
pub fn update_languages(store: &Store, language_ids: Vec<LanguageId>) -> (r: Result<
    Vec<LanguageId>,
    StorageError,
>)
    ensures
        r is Ok,
        r matches Ok(v) ==> v@ == resolved_ids(language_ids@, store.languages@),
{
    if language_ids.is_empty() {
        Ok(store.read_all_language_ids())
    } else {
        Ok(language_ids)
    }
}

/// A user's language associations.
pub struct LocalUserLanguage {
    pub local_user_id: LocalUserId,
    pub language_id: LanguageId,
}

/// A site's language associations.
pub struct SiteLanguage {
    pub site_id: SiteId,
    pub language_id: LanguageId,
}

/// A community's language associations.
pub struct CommunityLanguage {
    pub community_id: CommunityId,
    pub language_id: LanguageId,
}

impl LocalUserLanguage {
    /// The user's current language ids, in row order.
    pub fn read(store: &Store, for_local_user_id: LocalUserId) -> (r: Result<
        Vec<LanguageId>,
        StorageError,
    >)
        ensures
            r is Ok,
            r matches Ok(v) ==> v@ == langs_seq(
                store.local_user_language.rows@,
                for_local_user_id.0,
            ),
    {
        Ok(store.local_user_language.read(for_local_user_id.0))
    }

    /// Update the user's languages.
    ///
    /// If no language id is given, every language of the catalog is set.
    /// The replacement is all-or-nothing: on an integrity violation the
    /// store is left unchanged.
    pub fn update(store: &mut Store, language_ids: Vec<LanguageId>, for_local_user_id: LocalUserId) -> (r:
        Result<(), StorageError>)
        requires
            inv(*old(store)),
        ensures
            inv(*final(store)),
            r is Ok <==> valid_ids(language_ids@, old(store).languages@),
            r is Ok ==> user_update_ok(*old(store), *final(store), language_ids@, for_local_user_id),
            r is Err ==> *final(store) == *old(store),
            r == Err::<(), StorageError>(StorageError::UniqueViolation) <==> !language_ids@.no_duplicates(),
            r == Err::<(), StorageError>(StorageError::ForeignKeyViolation) <==> (
            language_ids@.no_duplicates() && !all_in(language_ids@, old(store).languages@)),
    {
        let resolved = match check_request(&*store, language_ids) {
            Ok(v) => v,
            Err(e) => {
                return Err(e);
            },
        };
        store.local_user_language.replace_owner(for_local_user_id.0, &resolved);
        Ok(())
    }
}

impl SiteLanguage {
    /// The local site's current language ids; fails with `NotFound` when no
    /// local site exists.
    pub fn read_local(store: &Store) -> (r: Result<Vec<LanguageId>, StorageError>)
        ensures
            r is Ok <==> store.local_site is Some,
            store.local_site is None ==> r == Err::<Vec<LanguageId>, StorageError>(
                StorageError::NotFound,
            ),
            r matches Ok(v) ==> v@ == langs_seq(
                store.site_language.rows@,
                (store.local_site->Some_0).0,
            ),
    {
        match store.local_site {
            Some(site_id) => SiteLanguage::read(store, site_id),
            None => Err(StorageError::NotFound),
        }
    }

    /// A site's current language ids, in row order.
    pub fn read(store: &Store, for_site_id: SiteId) -> (r: Result<Vec<LanguageId>, StorageError>)
        ensures
            r is Ok,
            r matches Ok(v) ==> v@ == langs_seq(store.site_language.rows@, for_site_id.0),
    {
        Ok(store.site_language.read(for_site_id.0))
    }

    /// Update the site's languages and, in the same atomic step, narrow every
    /// local community's set to its intersection with the new site set.
    ///
    /// If no language id is given, every language of the catalog is set. The
    /// whole step is all-or-nothing: on an integrity violation the store is
    /// left unchanged.
    pub fn update(store: &mut Store, language_ids: Vec<LanguageId>, for_site_id: SiteId) -> (r:
        Result<(), StorageError>)
        requires
            inv(*old(store)),
        ensures
            inv(*final(store)),
            r is Ok <==> valid_ids(language_ids@, old(store).languages@),
            r is Ok ==> site_update_ok(*old(store), *final(store), language_ids@, for_site_id),
            r is Err ==> *final(store) == *old(store),
            r == Err::<(), StorageError>(StorageError::UniqueViolation) <==> !language_ids@.no_duplicates(),
            r == Err::<(), StorageError>(StorageError::ForeignKeyViolation) <==> (
            language_ids@.no_duplicates() && !all_in(language_ids@, old(store).languages@)),
    {
        let ghost pre = *store;
        let resolved = match check_request(&*store, language_ids) {
            Ok(v) => v,
            Err(e) => {
                return Err(e);
            },
        };
        store.site_language.replace_owner(for_site_id.0, &resolved);
        proof {
            assert forall|o: i32, l: LanguageId|
                #[trigger] has_lang(store.site_language.rows@, o, l) implies catalog_ids(
                store.languages@,
            ).contains(l) by {
                if o == for_site_id.0 {
                    assert(resolved@.contains(l));
                    let k = choose|k: int| 0 <= k < resolved@.len() && resolved@[k] == l;
                    assert(all_in(resolved@, pre.languages@));
                } else {
                    assert(has_lang(pre.site_language.rows@, o, l));
                }
            }
        }
        let limit_result = CommunityLanguage::limit_languages(store, resolved);
        proof {
            assert(limit_result is Ok);
        }
        Ok(())
    }
}

impl CommunityLanguage {
    /// Succeeds exactly when the given language is one of the configured
    /// languages of the given community; otherwise the language is not
    /// allowed.
    pub fn is_allowed_community_language(
        store: &Store,
        for_language_id: LanguageId,
        for_community_id: CommunityId,
    ) -> (r: Result<(), LanguageError>)
        ensures
            r is Ok <==> has_lang(
                store.community_language.rows@,
                for_community_id.0,
                for_language_id,
            ),
            r is Err ==> r == Err::<(), LanguageError>(LanguageError::LanguageNotAllowed),
    {
        let is_allowed = store.community_language.contains_lang(for_community_id.0, for_language_id);
        if is_allowed {
            Ok(())
        } else {
            Err(LanguageError::LanguageNotAllowed)
        }
    }

    /// The cascading restriction: delete every language of every local
    /// community that is not part of `site_language_ids`, so that no local
    /// community allows a language the site does not. Remote communities are
    /// untouched; no language is ever added.
    pub fn limit_languages(store: &mut Store, site_language_ids: Vec<LanguageId>) -> (r: Result<
        (),
        StorageError,
    >)
        requires
            inv(*old(store)),
        ensures
            inv(*final(store)),
            r is Ok,
            limit_effect(*old(store), *final(store), site_language_ids@),
    {
        let ghost pre = *store;
        let mut i: usize = 0;
        while i < store.local_communities.len()
            invariant
                i <= store.local_communities@.len(),
                inv(pre),
                store.languages@ == pre.languages@,
                store.local_site == pre.local_site,
                store.local_communities@ == pre.local_communities@,
                store.site_language.rows@ == pre.site_language.rows@,
                store.local_user_language.rows@ == pre.local_user_language.rows@,
                table_wf(store.community_language.rows@),
                fk_ok(store.community_language.rows@, pre.languages@),
                forall|k: int|
                    0 <= k < i ==> langs_seq(
                        store.community_language.rows@,
                        (#[trigger] pre.local_communities@[k]).0,
                    ) == keep_in(
                        langs_seq(pre.community_language.rows@, pre.local_communities@[k].0),
                        site_language_ids@,
                    ),
                forall|c: i32|
                    !(exists|k: int| 0 <= k < i && (#[trigger] pre.local_communities@[k]).0 == c)
                        ==> #[trigger] langs_seq(store.community_language.rows@, c) == langs_seq(
                        pre.community_language.rows@,
                        c,
                    ),
            decreases store.local_communities@.len() - i,
        {
            let c = store.local_communities[i];
            let ghost before = store.community_language.rows@;
            proof {
                assert forall|k: int| 0 <= k < i implies (#[trigger] pre.local_communities@[k]).0
                    != c.0 by {
                    if pre.local_communities@[k].0 == c.0 {
                        assert(pre.local_communities@[k] == c);
                        assert(pre.local_communities@[i as int] == c);
                    }
                }
                assert(langs_seq(before, c.0) == langs_seq(pre.community_language.rows@, c.0));
            }
            store.community_language.retain_owner_langs(c.0, &site_language_ids);
            proof {
                assert forall|o: i32, l: LanguageId|
                    #[trigger] has_lang(store.community_language.rows@, o, l) implies catalog_ids(
                    pre.languages@,
                ).contains(l) by {
                    assert(has_lang(before, o, l));
                }
            }
            i = i + 1;
        }
        proof {
            assert forall|c: i32| is_local(pre, c) implies #[trigger] langs_seq(
                store.community_language.rows@,
                c,
            ) == keep_in(langs_seq(pre.community_language.rows@, c), site_language_ids@) by {
                let k = choose|k: int|
                    0 <= k < pre.local_communities@.len() && pre.local_communities@[k]
                        == CommunityId(c);
                assert(pre.local_communities@[k].0 == c);
            }
            assert forall|c: i32| !is_local(pre, c) implies #[trigger] langs_seq(
                store.community_language.rows@,
                c,
            ) == langs_seq(pre.community_language.rows@, c) by {
                assert forall|k: int|
                    0 <= k < pre.local_communities@.len() implies (
                    #[trigger] pre.local_communities@[k]).0 != c by {
                    if pre.local_communities@[k].0 == c {
                        assert(pre.local_communities@[k] == CommunityId(c));
                        assert(pre.local_communities@.contains(CommunityId(c)));
                    }
                }
            }
        }
        Ok(())
    }

    /// A community's current language ids, in row order.
    pub fn read(store: &Store, for_community_id: CommunityId) -> (r: Result<
        Vec<LanguageId>,
        StorageError,
    >)
        ensures
            r is Ok,
            r matches Ok(v) ==> v@ == langs_seq(
                store.community_language.rows@,
                for_community_id.0,
            ),
    {
        Ok(store.community_language.read(for_community_id.0))
    }

    /// Update the community's languages.
    ///
    /// If no language id is given, every language of the catalog is set.
    /// The replacement is all-or-nothing: on an integrity violation the
    /// store is left unchanged.
    pub fn update(store: &mut Store, language_ids: Vec<LanguageId>, for_community_id: CommunityId) -> (r:
        Result<(), StorageError>)
        requires
            inv(*old(store)),
        ensures
            inv(*final(store)),
            r is Ok <==> valid_ids(language_ids@, old(store).languages@),
            r is Ok ==> community_update_ok(
                *old(store),
                *final(store),
                language_ids@,
                for_community_id,
            ),
            r is Err ==> *final(store) == *old(store),
            r == Err::<(), StorageError>(StorageError::UniqueViolation) <==> !language_ids@.no_duplicates(),
            r == Err::<(), StorageError>(StorageError::ForeignKeyViolation) <==> (
            language_ids@.no_duplicates() && !all_in(language_ids@, old(store).languages@)),
    {
        let resolved = match check_request(&*store, language_ids) {
            Ok(v) => v,
            Err(e) => {
                return Err(e);
            },
        };
        store.community_language.replace_owner(for_community_id.0, &resolved);
        Ok(())
    }
}

/// Resolve a request and hold it to the store's integrity constraints, as an
/// insert would: a duplicate pair is a unique violation, an id outside the
/// catalog a foreign-key violation. On success the resolved, insertable
/// sequence comes back and nothing has been touched.
fn check_request(store: &Store, language_ids: Vec<LanguageId>) -> (r: Result<
    Vec<LanguageId>,
    StorageError,
>)
    requires
        inv(*store),
    ensures
        r is Ok <==> valid_ids(language_ids@, store.languages@),
        r matches Ok(v) ==> v@ == resolved_ids(language_ids@, store.languages@)
            && v@.no_duplicates() && all_in(v@, store.languages@),
        r == Err::<Vec<LanguageId>, StorageError>(StorageError::UniqueViolation)
            <==> !language_ids@.no_duplicates(),
        r == Err::<Vec<LanguageId>, StorageError>(StorageError::ForeignKeyViolation) <==> (
        language_ids@.no_duplicates() && !all_in(language_ids@, store.languages@)),
{
    let ghost ids = language_ids@;
    let ghost catalog = store.languages@;
    let resolved = match update_languages(store, language_ids) {
        Ok(v) => v,
        Err(e) => return Err(e),
    };
    proof {
        if ids.len() == 0 {
            assert forall|k: int| 0 <= k < resolved@.len() implies catalog_ids(catalog).contains(
                #[trigger] resolved@[k],
            ) by {
                assert(catalog_ids(catalog)[k] == resolved@[k]);
            }
        }
    }
    if !distinct_langs(&resolved) {
        proof {
            assert(ids.len() != 0);
        }
        return Err(StorageError::UniqueViolation);
    }
    if !store.all_in_catalog(&resolved) {
        proof {
            assert(ids.len() != 0);
        }
        return Err(StorageError::ForeignKeyViolation);
    }
    Ok(resolved)
}

} // verus!
