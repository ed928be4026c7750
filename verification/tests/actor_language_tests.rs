use actor_language::actor_language::{
    update_languages, CommunityLanguage, LocalUserLanguage, SiteLanguage,
};
use actor_language::newtypes::{CommunityId, LanguageId, LocalUserId, SiteId};
use actor_language::store::{Language, Store};

fn test_catalog() -> Vec<Language> {
    let real = ["en", "fr", "ru", "fi", "se"];
    let mut v = Vec::new();
    for i in 0..184usize {
        let code = if i < real.len() {
            real[i].to_string()
        } else {
            format!("q{}", i)
        };
        v.push(Language {
            id: LanguageId((i + 1) as i32),
            code: code.clone(),
            name: code,
        });
    }
    v
}

fn test_store() -> Store {
    Store::new(test_catalog())
}

fn test_langs1(store: &Store) -> Vec<LanguageId> {
    vec![
        Language::read_id_from_code(store, "en").unwrap(),
        Language::read_id_from_code(store, "fr").unwrap(),
        Language::read_id_from_code(store, "ru").unwrap(),
    ]
}

fn test_langs2(store: &Store) -> Vec<LanguageId> {
    vec![
        Language::read_id_from_code(store, "fi").unwrap(),
        Language::read_id_from_code(store, "se").unwrap(),
    ]
}

#[test]
fn test_update_languages() {
    let store = test_store();

    // call with empty vec, returns all languages
    let updated1 = update_languages(&store, vec![]).unwrap();
    assert_eq!(184, updated1.len());

    // call with nonempty vec, returns same vec
    let test_langs = test_langs1(&store);
    let updated2 = update_languages(&store, test_langs.clone()).unwrap();
    assert_eq!(test_langs, updated2);
}

#[test]
fn test_site_languages() {
    let mut store = test_store();

    let site = SiteId(1);
    store.create_site(site).unwrap();
    let site_languages1 = SiteLanguage::read_local(&store).unwrap();
    // site is created with all languages
    assert_eq!(184, site_languages1.len());

    let test_langs = test_langs1(&store);
    SiteLanguage::update(&mut store, test_langs.clone(), site).unwrap();

    let site_languages2 = SiteLanguage::read_local(&store).unwrap();
    // after update, site only has new languages
    assert_eq!(test_langs, site_languages2);
}

#[test]
fn test_user_languages() {
    let mut store = test_store();

    let site = SiteId(1);
    store.create_site(site).unwrap();
    let test_langs = test_langs1(&store);
    SiteLanguage::update(&mut store, test_langs.clone(), site).unwrap();

    let local_user = LocalUserId(1);
    store.create_local_user(local_user).unwrap();
    let local_user_langs1 = LocalUserLanguage::read(&store, local_user).unwrap();

    // new user should be initialized with site languages
    assert_eq!(test_langs, local_user_langs1);

    // update user languages
    let second = test_langs2(&store);
    LocalUserLanguage::update(&mut store, second, local_user).unwrap();
    let local_user_langs2 = LocalUserLanguage::read(&store, local_user).unwrap();
    assert_eq!(2, local_user_langs2.len());
}

#[test]
fn test_community_languages() {
    let mut store = test_store();
    let site = SiteId(1);
    store.create_site(site).unwrap();
    let test_langs = test_langs1(&store);
    SiteLanguage::update(&mut store, test_langs.clone(), site).unwrap();

    let community = CommunityId(1);
    store.create_local_community(community).unwrap();
    let community_langs1 = CommunityLanguage::read(&store, community).unwrap();
    // community is initialized with site languages
    assert_eq!(test_langs, community_langs1);

    let allowed_lang1 =
        CommunityLanguage::is_allowed_community_language(&store, test_langs[0], community);
    assert!(allowed_lang1.is_ok());

    let test_langs2 = test_langs2(&store);
    let allowed_lang2 =
        CommunityLanguage::is_allowed_community_language(&store, test_langs2[0], community);
    assert!(allowed_lang2.is_err());

    // limit site languages to en, fi. after this, community languages should be updated to
    // intersection of old languages (en, fr, ru) and (en, fi), which is only en.
    CommunityLanguage::limit_languages(&mut store, vec![test_langs[0], test_langs2[0]]).unwrap();
    let community_langs2 = CommunityLanguage::read(&store, community).unwrap();
    assert_eq!(vec![test_langs[0]], community_langs2);

    // update community languages to different ones
    CommunityLanguage::update(&mut store, test_langs2.clone(), community).unwrap();
    let community_langs3 = CommunityLanguage::read(&store, community).unwrap();
    assert_eq!(test_langs2, community_langs3);
}
