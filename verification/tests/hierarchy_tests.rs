use actor_language::actor_language::{
    update_languages, CommunityLanguage, LocalUserLanguage, SiteLanguage,
};
use actor_language::errors::{LanguageError, StorageError};
use actor_language::newtypes::{CommunityId, LanguageId, LocalUserId, SiteId};
use actor_language::site_view::SiteView;
use actor_language::store::{Language, Store};

fn test_catalog() -> Vec<Language> {
    let real = ["en", "fr", "ru", "fi", "se"];
    let mut v = Vec::new();
    for i in 0..184usize {
        let code = if i < real.len() {
            real[i].to_string()
        } else {
            format!("q{}", i)
        };
        v.push(Language {
            id: LanguageId((i + 1) as i32),
            code: code.clone(),
            name: code,
        });
    }
    v
}

fn test_store() -> Store {
    Store::new(test_catalog())
}

fn id_of(store: &Store, code: &str) -> LanguageId {
    Language::read_id_from_code(store, code).unwrap()
}

// Empty request means all languages: Update(site, {}) then Read(site) returns
// the full catalog id column, length 184.
#[test]
fn empty_update_reads_whole_catalog() {
    let mut store = test_store();
    let site = SiteId(7);
    store.create_site(site).unwrap();
    SiteLanguage::update(&mut store, vec![], site).unwrap();
    let langs = SiteLanguage::read(&store, site).unwrap();
    assert_eq!(184, langs.len());
    let all: Vec<LanguageId> = (1..=184).map(LanguageId).collect();
    assert_eq!(all, langs);
}

// Empty request means all for a user as well.
#[test]
fn empty_update_reads_whole_catalog_for_user() {
    let mut store = test_store();
    store.create_site(SiteId(1)).unwrap();
    let user = LocalUserId(3);
    store.create_local_user(user).unwrap();
    LocalUserLanguage::update(&mut store, vec![], user).unwrap();
    let langs = LocalUserLanguage::read(&store, user).unwrap();
    assert_eq!(184, langs.len());
}

// Replace semantics: Update(owner, A); Update(owner, B); Read(owner) returns
// exactly B, with no residue of A.
#[test]
fn second_update_leaves_no_residue() {
    let mut store = test_store();
    store.create_site(SiteId(1)).unwrap();
    let user = LocalUserId(9);
    store.create_local_user(user).unwrap();
    let a = vec![id_of(&store, "en"), id_of(&store, "fr"), id_of(&store, "ru")];
    let b = vec![id_of(&store, "fi"), id_of(&store, "se")];
    LocalUserLanguage::update(&mut store, a, user).unwrap();
    LocalUserLanguage::update(&mut store, b.clone(), user).unwrap();
    let langs = LocalUserLanguage::read(&store, user).unwrap();
    assert_eq!(b, langs);
}

// Community creation seeds the community with the site's current set.
#[test]
fn community_creation_seeds_site_languages() {
    let mut store = test_store();
    let site = SiteId(1);
    store.create_site(site).unwrap();
    let set = vec![id_of(&store, "en"), id_of(&store, "fr"), id_of(&store, "ru")];
    SiteLanguage::update(&mut store, set.clone(), site).unwrap();
    let community = CommunityId(4);
    store.create_local_community(community).unwrap();
    assert_eq!(set, CommunityLanguage::read(&store, community).unwrap());
}

// Cascading narrows a community to the intersection of its set with the new
// site set, and a site update keeps every local community a subset of the
// site's set.
#[test]
fn site_update_narrows_local_communities() {
    let mut store = test_store();
    let site = SiteId(1);
    store.create_site(site).unwrap();
    let en = id_of(&store, "en");
    let fi = id_of(&store, "fi");
    let fr = id_of(&store, "fr");
    let ru = id_of(&store, "ru");
    SiteLanguage::update(&mut store, vec![en, fr, ru], site).unwrap();
    let community = CommunityId(4);
    store.create_local_community(community).unwrap();

    SiteLanguage::update(&mut store, vec![en, fi], site).unwrap();
    // intersection of {en, fr, ru} and {en, fi} is {en}
    assert_eq!(vec![en], CommunityLanguage::read(&store, community).unwrap());
    let site_langs = SiteLanguage::read(&store, site).unwrap();
    for lang in CommunityLanguage::read(&store, community).unwrap() {
        assert!(site_langs.contains(&lang));
    }
}

// Narrowing only: cascading never adds a language a community did not have.
#[test]
fn cascade_never_adds_languages() {
    let mut store = test_store();
    let site = SiteId(1);
    store.create_site(site).unwrap();
    let en = id_of(&store, "en");
    let fr = id_of(&store, "fr");
    let se = id_of(&store, "se");
    SiteLanguage::update(&mut store, vec![en, fr], site).unwrap();
    let community = CommunityId(2);
    store.create_local_community(community).unwrap();
    let before = CommunityLanguage::read(&store, community).unwrap();

    // the new site set brings a language the community never had: "se" must
    // not appear in the community afterwards
    CommunityLanguage::limit_languages(&mut store, vec![en, se]).unwrap();
    let after = CommunityLanguage::read(&store, community).unwrap();
    assert_eq!(vec![en], after);
    for lang in &after {
        assert!(before.contains(lang));
    }
    assert!(!after.contains(&se));
}

// Validation consistency: IsAllowed(C, lang) succeeds exactly when lang is in
// Read(C); after a cascade removed "fr", it is no longer allowed.
#[test]
fn is_allowed_agrees_with_read() {
    let mut store = test_store();
    let site = SiteId(1);
    store.create_site(site).unwrap();
    let en = id_of(&store, "en");
    let fr = id_of(&store, "fr");
    let fi = id_of(&store, "fi");
    let ru = id_of(&store, "ru");
    SiteLanguage::update(&mut store, vec![en, fr, ru], site).unwrap();
    let community = CommunityId(4);
    store.create_local_community(community).unwrap();
    SiteLanguage::update(&mut store, vec![en, fi], site).unwrap();

    assert_eq!(
        Err(LanguageError::LanguageNotAllowed),
        CommunityLanguage::is_allowed_community_language(&store, fr, community)
    );
    assert!(CommunityLanguage::is_allowed_community_language(&store, en, community).is_ok());
    let langs = CommunityLanguage::read(&store, community).unwrap();
    assert!(langs.contains(&en));
    assert!(!langs.contains(&fr));
}

// A user's set is independent of site and community state.
#[test]
fn user_update_independent_of_site() {
    let mut store = test_store();
    let site = SiteId(1);
    store.create_site(site).unwrap();
    let user = LocalUserId(5);
    store.create_local_user(user).unwrap();
    let fi = id_of(&store, "fi");
    let se = id_of(&store, "se");
    LocalUserLanguage::update(&mut store, vec![fi, se], user).unwrap();

    // shrink the site afterwards; the user's set stays as set
    let en = id_of(&store, "en");
    SiteLanguage::update(&mut store, vec![en], site).unwrap();
    assert_eq!(vec![fi, se], LocalUserLanguage::read(&store, user).unwrap());
}

// A duplicate language id in the request is a unique violation and leaves the
// store unchanged.
#[test]
fn duplicate_ids_rejected() {
    let mut store = test_store();
    let site = SiteId(1);
    store.create_site(site).unwrap();
    let en = id_of(&store, "en");
    let before = SiteLanguage::read(&store, site).unwrap();
    let r = SiteLanguage::update(&mut store, vec![en, en], site);
    assert_eq!(Err(StorageError::UniqueViolation), r);
    assert_eq!(before, SiteLanguage::read(&store, site).unwrap());
}

// A language id outside the catalog is a foreign-key violation and leaves the
// store unchanged.
#[test]
fn unknown_id_rejected() {
    let mut store = test_store();
    store.create_site(SiteId(1)).unwrap();
    let user = LocalUserId(2);
    store.create_local_user(user).unwrap();
    let before = LocalUserLanguage::read(&store, user).unwrap();
    let r = LocalUserLanguage::update(&mut store, vec![LanguageId(9999)], user);
    assert_eq!(Err(StorageError::ForeignKeyViolation), r);
    assert_eq!(before, LocalUserLanguage::read(&store, user).unwrap());
}

// Reading the local site without one is NotFound.
#[test]
fn read_local_without_site_fails() {
    let store = test_store();
    assert_eq!(
        Err(StorageError::NotFound),
        SiteLanguage::read_local(&store)
    );
}

// A second local site is a unique violation.
#[test]
fn second_site_rejected() {
    let mut store = test_store();
    store.create_site(SiteId(1)).unwrap();
    assert_eq!(
        Err(StorageError::UniqueViolation),
        store.create_site(SiteId(2))
    );
}

// Entity creation needs the local site, and ids stay unique.
#[test]
fn creation_constraints() {
    let mut store = test_store();
    assert_eq!(
        Err(StorageError::NotFound),
        store.create_local_community(CommunityId(1))
    );
    assert_eq!(
        Err(StorageError::NotFound),
        store.create_local_user(LocalUserId(1))
    );
    store.create_site(SiteId(1)).unwrap();
    store.create_local_community(CommunityId(1)).unwrap();
    assert_eq!(
        Err(StorageError::UniqueViolation),
        store.create_local_community(CommunityId(1))
    );
    store.create_local_user(LocalUserId(1)).unwrap();
    assert_eq!(
        Err(StorageError::UniqueViolation),
        store.create_local_user(LocalUserId(1))
    );
}

// An unknown language code is NotFound; known codes resolve to their row.
#[test]
fn read_id_from_code_lookup() {
    let store = test_store();
    assert_eq!(LanguageId(1), Language::read_id_from_code(&store, "en").unwrap());
    assert_eq!(LanguageId(4), Language::read_id_from_code(&store, "fi").unwrap());
    assert_eq!(
        Err(StorageError::NotFound),
        Language::read_id_from_code(&store, "zz")
    );
}

// The site view returns the full catalog rows of the site's languages, in the
// site's row order.
#[test]
fn site_view_lists_site_languages() {
    let mut store = test_store();
    let site = SiteId(1);
    store.create_site(site).unwrap();
    let en = id_of(&store, "en");
    let ru = id_of(&store, "ru");
    SiteLanguage::update(&mut store, vec![ru, en], site).unwrap();
    let view = SiteView::read_local(&store).unwrap();
    assert_eq!(site, view.site);
    assert_eq!(2, view.languages.len());
    assert_eq!(ru, view.languages[0].id);
    assert_eq!("ru", view.languages[0].code);
    assert_eq!(en, view.languages[1].id);
    assert_eq!("en", view.languages[1].code);
}

// Without a local site there is no site view.
#[test]
fn site_view_without_site_fails() {
    let store = test_store();
    assert_eq!(
        Err(StorageError::NotFound),
        SiteView::read_local(&store).map(|v| v.site)
    );
}

// A community narrowed to nothing stays empty: the empty-means-all convention
// applies to explicit update requests, not to the cascade's result.
#[test]
fn cascade_can_empty_a_community() {
    let mut store = test_store();
    let site = SiteId(1);
    store.create_site(site).unwrap();
    let en = id_of(&store, "en");
    let fr = id_of(&store, "fr");
    SiteLanguage::update(&mut store, vec![en], site).unwrap();
    let community = CommunityId(3);
    store.create_local_community(community).unwrap();
    SiteLanguage::update(&mut store, vec![fr], site).unwrap();
    assert_eq!(
        Vec::<LanguageId>::new(),
        CommunityLanguage::read(&store, community).unwrap()
    );
}

// The resolver on a non-empty request returns it unchanged, order included.
#[test]
fn resolver_keeps_nonempty_request() {
    let store = test_store();
    let ids = vec![LanguageId(5), LanguageId(2)];
    assert_eq!(ids, update_languages(&store, ids.clone()).unwrap());
}
