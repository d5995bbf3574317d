use devstrap::catalog::{ProfileId, RepoId};
use devstrap::compiler::{compile, Configuration, ConfigurationError};
use devstrap::pipeline::{clone_plan, profile_flags, seed_step_planned};
use devstrap::selection::OptionalService;

fn dir() -> String {
    String::from("/home/dev/sources")
}

#[test]
fn full_selection_scenario() {
    let selected = vec![
        OptionalService::new(None, vec![RepoId::CoreServer]),
        OptionalService::new(Some(ProfileId::Search), vec![RepoId::SearchService]),
    ];
    let c = compile(&selected, dir(), true, String::new(), String::new()).unwrap();
    assert_eq!(c.repos, vec!["core-server".to_string(), "search-service".to_string()]);
    assert_eq!(c.profiles, vec!["search".to_string()]);
    assert!(c.setup_database);
    assert_eq!(c.su_password, "password");
    assert_eq!(c.password, "password");
    let flags = profile_flags(&c);
    assert_eq!(flags, vec!["--profile".to_string(), "search".to_string()]);
}

#[test]
fn no_selection_scenario() {
    let selected: Vec<OptionalService> = Vec::new();
    let c = compile(
        &selected,
        dir(),
        false,
        String::from("ignored"),
        String::from("ignored too"),
    )
    .unwrap();
    assert_eq!(c.repos, Vec::<String>::new());
    assert_eq!(c.profiles, Vec::<String>::new());
    assert!(!c.setup_database);
    assert_eq!(c.su_password, "");
    assert_eq!(c.password, "");
    assert_eq!(clone_plan(&c).len(), 0);
    assert!(!seed_step_planned(&c));
}

#[test]
fn union_is_order_and_duplicate_insensitive() {
    let a = OptionalService::new(Some(ProfileId::EnginePlay), vec![RepoId::EngineWorker]);
    let b = OptionalService::new(Some(ProfileId::Search), vec![RepoId::SearchService]);
    let once = vec![a.clone(), b.clone()];
    let noisy = vec![b.clone(), a.clone(), a.clone(), b.clone(), b.clone()];
    let c1 = compile(&once, dir(), false, String::new(), String::new()).unwrap();
    let c2 = compile(&noisy, dir(), false, String::new(), String::new()).unwrap();
    let mut r1 = c1.repos.clone();
    let mut r2 = c2.repos.clone();
    r1.sort();
    r2.sort();
    assert_eq!(r1, r2);
    let mut p1 = c1.profiles.clone();
    let mut p2 = c2.profiles.clone();
    p1.sort();
    p2.sort();
    assert_eq!(p1, p2);
    // Compiling the very same selection twice is bitwise deterministic.
    let c3 = compile(&noisy, dir(), false, String::new(), String::new()).unwrap();
    assert_eq!(c2, c3);
}

#[test]
fn repeated_repo_across_services_is_deduplicated() {
    let selected = vec![
        OptionalService::new(Some(ProfileId::ApiDocs), vec![RepoId::ApiDocs, RepoId::CoreServer]),
        OptionalService::new(None, vec![RepoId::ApiDocs]),
    ];
    let c = compile(&selected, dir(), false, String::new(), String::new()).unwrap();
    assert_eq!(c.repos, vec!["api-docs".to_string(), "core-server".to_string()]);
    assert_eq!(c.profiles, vec!["api-docs".to_string()]);
}

#[test]
fn database_invariant_is_enforced() {
    let selected: Vec<OptionalService> = Vec::new();
    let c = compile(
        &selected,
        dir(),
        false,
        String::from("root-secret"),
        String::from("user-secret"),
    )
    .unwrap();
    assert_eq!(c.su_password, "");
    assert_eq!(c.password, "");
}

#[test]
fn supplied_passwords_are_kept_when_database_is_set_up() {
    let selected: Vec<OptionalService> = Vec::new();
    let c = compile(
        &selected,
        dir(),
        true,
        String::from("root-secret"),
        String::new(),
    )
    .unwrap();
    assert_eq!(c.su_password, "root-secret");
    assert_eq!(c.password, "password");
}

#[test]
fn empty_destination_is_rejected() {
    let selected: Vec<OptionalService> = Vec::new();
    let r = compile(&selected, String::new(), true, String::new(), String::new());
    assert_eq!(r, Err(ConfigurationError::EmptyDestination));
}

#[test]
fn configuration_can_be_rebuilt_field_by_field() {
    let selected = vec![OptionalService::new(None, vec![RepoId::PairingTool])];
    let c = compile(&selected, dir(), false, String::new(), String::new()).unwrap();
    let copy = Configuration {
        repos_dir: dir(),
        repos: vec!["pairing-tool".to_string()],
        profiles: Vec::new(),
        setup_database: false,
        su_password: String::new(),
        password: String::new(),
    };
    assert_eq!(c, copy);
}
