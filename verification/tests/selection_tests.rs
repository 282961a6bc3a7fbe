use dash_mpd::selection::{lang_distance_defined_check, checked_select_preferred_adaptations};
use dash_mpd::mpd::{AdaptationSet, ContentComponent, Representation, Role};
use dash_mpd::selection::{
    select_video_representation,
    adaptation_lang_distance, adaptation_role_distance, adaptation_roles, role_rank,
    select_preferred_adaptations, select_preferred_representation, QualityPreference,
};

fn s(x: &str) -> Option<String> {
    Some(x.to_string())
}

fn role(v: &str) -> Role {
    Role { value: s(v), ..Default::default() }
}

#[test]
fn language_distances() {
    let a = AdaptationSet { lang: s("en-US"), ..Default::default() };
    assert_eq!(adaptation_lang_distance(&a, "en-US"), 0);
    assert_eq!(adaptation_lang_distance(&a, "en-GB"), 5);
    assert_eq!(adaptation_lang_distance(&a, "fr"), 100);
    assert_eq!(adaptation_lang_distance(&AdaptationSet::default(), "fr"), 100);
}

#[test]
fn roles_and_role_distance() {
    let cc = ContentComponent { Role: vec![role("commentary")], ..Default::default() };
    let a = AdaptationSet { Role: vec![role("alternate"), Role::default()], ContentComponent: vec![cc], ..Default::default() };
    assert_eq!(adaptation_roles(&a), vec!["alternate".to_string(), "commentary".to_string()]);
    let prefs = vec!["main".to_string(), "alternate".to_string()];
    assert_eq!(adaptation_role_distance(&a, &prefs), 1);
    assert_eq!(adaptation_role_distance(&AdaptationSet::default(), &prefs), 255);
    assert_eq!(role_rank(Some(3)), 3);
    assert_eq!(role_rank(Some(300)), 255);
    assert_eq!(role_rank(None), 255);
}

#[test]
fn preferred_adaptations_by_language_then_role() {
    let fr = AdaptationSet { id: s("fr"), lang: s("fr"), ..Default::default() };
    let en_alt = AdaptationSet { id: s("en-alt"), lang: s("en"), Role: vec![role("alternate")], ..Default::default() };
    let en_main = AdaptationSet { id: s("en-main"), lang: s("en"), Role: vec![role("main")], ..Default::default() };
    let prefs = vec!["main".to_string(), "alternate".to_string()];
    // Roles are ranked by their position in the preference list: "main" (0) before
    // "alternate" (1).
    let got = select_preferred_adaptations(vec![&fr, &en_alt, &en_main], &s("en"), &prefs);
    assert_eq!(got.len(), 1);
    assert_eq!(got[0].id, s("en-main"));
    // With the other order, "alternate" ranks first.
    let sorted = vec!["alternate".to_string(), "main".to_string()];
    let got = select_preferred_adaptations(vec![&fr, &en_alt, &en_main], &s("en"), &sorted);
    assert_eq!(got.iter().map(|a| a.id.clone()).collect::<Vec<_>>(), vec![s("en-alt")]);
    // Without a language preference, the role decides among all.
    let only_main = vec!["main".to_string()];
    let got = select_preferred_adaptations(vec![&fr, &en_alt, &en_main], &None, &only_main);
    assert_eq!(got.iter().map(|a| a.id.clone()).collect::<Vec<_>>(), vec![s("en-main")]);
}

#[test]
fn no_matching_roles_keeps_all_candidates() {
    let a = AdaptationSet { id: s("a"), ..Default::default() };
    let b = AdaptationSet { id: s("b"), Role: vec![role("commentary")], ..Default::default() };
    let prefs = vec!["main".to_string(), "alternate".to_string()];
    let got = select_preferred_adaptations(vec![&a, &b], &None, &prefs);
    assert_eq!(got.len(), 2);
    assert_eq!(got[0].id, s("a"));
    assert_eq!(got[1].id, s("b"));
    assert!(select_preferred_adaptations(vec![], &s("en"), &prefs).is_empty());
}

fn rep(id: &str, bw: Option<u64>, qr: Option<u8>) -> Representation {
    Representation { id: s(id), bandwidth: bw, qualityRanking: qr, ..Default::default() }
}

#[test]
fn preferred_representation_by_bandwidth() {
    let r1 = rep("r1", Some(500), None);
    let r2 = rep("r2", Some(2000), None);
    let r3 = rep("r3", Some(1000), None);
    let r4 = rep("r4", Some(2000), None);
    let reps = vec![&r1, &r2, &r3, &r4];
    assert_eq!(select_preferred_representation(&reps, QualityPreference::Lowest).unwrap().id, s("r1"));
    // The last of several with the highest bandwidth.
    assert_eq!(select_preferred_representation(&reps, QualityPreference::Highest).unwrap().id, s("r4"));
    // Sorted bandwidths 500, 1000, 2000, 2000: the median is 2000, first found at r2.
    assert_eq!(select_preferred_representation(&reps, QualityPreference::Intermediate).unwrap().id, s("r2"));
    assert!(select_preferred_representation(&[], QualityPreference::Highest).is_none());
}

#[test]
fn preferred_representation_by_quality_ranking() {
    let r1 = rep("r1", Some(500), Some(3));
    let r2 = rep("r2", Some(2000), Some(1));
    let r3 = rep("r3", Some(1000), Some(2));
    let reps = vec![&r1, &r2, &r3];
    assert_eq!(select_preferred_representation(&reps, QualityPreference::Lowest).unwrap().id, s("r1"));
    assert_eq!(select_preferred_representation(&reps, QualityPreference::Highest).unwrap().id, s("r2"));
    assert_eq!(select_preferred_representation(&reps, QualityPreference::Intermediate).unwrap().id, s("r3"));
    // One Representation without @qualityRanking: bandwidth decides.
    let r4 = rep("r4", Some(100), None);
    let reps = vec![&r1, &r2, &r4];
    assert_eq!(select_preferred_representation(&reps, QualityPreference::Lowest).unwrap().id, s("r4"));
    let single = vec![&r3];
    assert_eq!(select_preferred_representation(&single, QualityPreference::Intermediate).unwrap().id, s("r3"));
}

#[test]
fn video_representation_by_wanted_dimension() {
    let r1 = Representation { id: s("small"), width: Some(640), height: Some(360), bandwidth: Some(500), ..Default::default() };
    let r2 = Representation { id: s("hd"), width: Some(1280), height: Some(720), bandwidth: Some(2000), ..Default::default() };
    let r3 = Representation { id: s("nodims"), bandwidth: Some(9000), ..Default::default() };
    let reps = vec![&r1, &r2, &r3];
    assert_eq!(select_video_representation(&reps, Some(1000), None, QualityPreference::Lowest).unwrap().id, s("hd"));
    assert_eq!(select_video_representation(&reps, None, Some(400), QualityPreference::Highest).unwrap().id, s("small"));
    assert_eq!(select_video_representation(&reps, None, None, QualityPreference::Highest).unwrap().id, s("nodims"));
    assert!(select_video_representation(&[], Some(1), None, QualityPreference::Lowest).is_none());
}

#[test]
fn role_main_is_kept_over_alternate() {
    let alt = AdaptationSet { Role: vec![role("alternate")], ..Default::default() };
    let main = AdaptationSet { Role: vec![role("main")], ..Default::default() };
    let prefs = vec!["main".to_string(), "alternate".to_string()];
    let got = select_preferred_adaptations(vec![&alt, &main], &None, &prefs);
    assert_eq!(got, vec![&main]);
}

#[test]
fn language_distance_checks() {
    assert!(lang_distance_defined_check(&None, "en"));
    assert!(lang_distance_defined_check(&s("fr"), "en"));
    assert!(lang_distance_defined_check(&s("aé"), "aé"));
    assert!(!lang_distance_defined_check(&s("aé"), "en"));
    assert!(!lang_distance_defined_check(&s("en"), "aé"));
    let odd = AdaptationSet { lang: s("aé"), ..Default::default() };
    let en = AdaptationSet { lang: s("en"), ..Default::default() };
    assert!(checked_select_preferred_adaptations(vec![&odd, &en], &s("en"), &[]).is_none());
    assert_eq!(checked_select_preferred_adaptations(vec![&en], &s("en"), &[]), Some(vec![&en]));
}
