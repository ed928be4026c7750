//! The behavioural laws of the hierarchy, each proved from the managers'
//! contracts: what an update leaves behind, how the cascade narrows, and how
//! validation agrees with reads.

use vstd::prelude::*;

use crate::actor_language::{is_local, limit_effect, resolved_ids, site_update_ok};
use crate::assoc::{
    has_lang, keep_in, langs_seq, lemma_keep_in_contains, lemma_langs_seq_contains, AssocRow,
};
use crate::newtypes::{CommunityId, LanguageId, SiteId};
use crate::store::{catalog_ids, Language, Store};

verus! {

/// Empty means all: an update whose request is empty leaves the owner's
/// association sequence equal to the catalog's full id column, so a
/// subsequent read returns exactly the catalog. The hypothesis is what every
/// manager's `update` ensures of the rows it leaves behind.
pub proof fn law_empty_means_all(
    post_rows: Seq<AssocRow>,
    requested: Seq<LanguageId>,
    catalog: Seq<Language>,
    owner: i32,
)
    requires
        requested.len() == 0,
        langs_seq(post_rows, owner) == resolved_ids(requested, catalog),
    ensures
        langs_seq(post_rows, owner) == catalog_ids(catalog),
{
}

/// Replace semantics: after two successive non-empty updates for one owner,
/// the owner's sequence is exactly the second request — no residue of the
/// first remains, whatever it was and whatever rows stood in between.
pub proof fn law_replace_semantics(
    mid_rows: Seq<AssocRow>,
    post_rows: Seq<AssocRow>,
    first: Seq<LanguageId>,
    second: Seq<LanguageId>,
    catalog: Seq<Language>,
    owner: i32,
)
    requires
        first.len() > 0,
        second.len() > 0,
        langs_seq(mid_rows, owner) == resolved_ids(first, catalog),
        langs_seq(post_rows, owner) == resolved_ids(second, catalog),
    ensures
        langs_seq(post_rows, owner) == second,
{
}

/// Subset invariant: after any completed Site update, every language of
/// every local community is also one of the site's languages.
pub proof fn law_subset_invariant(
    pre: Store,
    post: Store,
    ids: Seq<LanguageId>,
    site: SiteId,
    c: CommunityId,
    lang: LanguageId,
)
    requires
        site_update_ok(pre, post, ids, site),
        is_local(pre, c.0),
        has_lang(post.community_language.rows@, c.0, lang),
    ensures
        has_lang(post.site_language.rows@, site.0, lang),
{
    let resolved = resolved_ids(ids, pre.languages@);
    lemma_langs_seq_contains(post.community_language.rows@, c.0, lang);
    lemma_keep_in_contains(langs_seq(pre.community_language.rows@, c.0), resolved, lang);
    lemma_langs_seq_contains(post.site_language.rows@, site.0, lang);
}

/// Narrowing only: the cascading restriction never adds a language — any
/// language a community holds after the cascade, local or not, it already
/// held before.
pub proof fn law_narrowing_only(
    pre: Store,
    post: Store,
    site_ids: Seq<LanguageId>,
    c: i32,
    lang: LanguageId,
)
    requires
        limit_effect(pre, post, site_ids),
        has_lang(post.community_language.rows@, c, lang),
    ensures
        has_lang(pre.community_language.rows@, c, lang),
{
    lemma_langs_seq_contains(post.community_language.rows@, c, lang);
    lemma_langs_seq_contains(pre.community_language.rows@, c, lang);
    if is_local(pre, c) {
        lemma_keep_in_contains(langs_seq(pre.community_language.rows@, c), site_ids, lang);
    }
}

/// Validation consistency: `is_allowed_community_language` succeeds for a
/// (community, language) pair exactly when the language occurs in the
/// sequence that `read` returns for that community.
pub proof fn law_validation_consistency(s: Store, c: CommunityId, lang: LanguageId)
    ensures
        has_lang(s.community_language.rows@, c.0, lang) <==> langs_seq(
            s.community_language.rows@,
            c.0,
        ).contains(lang),
{
    lemma_langs_seq_contains(s.community_language.rows@, c.0, lang);
}

} // verus!
