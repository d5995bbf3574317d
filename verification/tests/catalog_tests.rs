use devstrap::catalog::{all_profiles, all_repos, ProfileId, RepoId};
use devstrap::selection::service_menu;

#[test]
fn repo_names_are_the_canonical_wire_names() {
    assert_eq!(RepoId::CoreServer.canonical_name(), "core-server");
    assert_eq!(RepoId::RealtimeService.canonical_name(), "realtime-service");
    assert_eq!(RepoId::DbSeedTool.canonical_name(), "db-seed-tool");
    assert_eq!(RepoId::ChessEngineAdapter.canonical_name(), "chess-engine-adapter");
    assert_eq!(RepoId::PairingTool.canonical_name(), "pairing-tool");
}

#[test]
fn profile_names_are_kebab_case() {
    assert_eq!(ProfileId::EnginePlay.canonical_name(), "engine-play");
    assert_eq!(ProfileId::EngineAnalysis.canonical_name(), "engine-analysis");
    assert_eq!(ProfileId::Search.canonical_name(), "search");
    assert_eq!(ProfileId::GifRendering.canonical_name(), "gif-rendering");
    assert_eq!(ProfileId::PgnViewer.canonical_name(), "pgn-viewer");
}

#[test]
fn catalogs_are_complete_with_injective_names() {
    let repos = all_repos();
    assert_eq!(repos.len(), 15);
    let mut repo_names: Vec<&str> = repos.iter().map(|r| r.canonical_name()).collect();
    repo_names.sort();
    repo_names.dedup();
    assert_eq!(repo_names.len(), 15);
    assert!(repo_names.iter().all(|n| !n.is_empty()));

    let profiles = all_profiles();
    assert_eq!(profiles.len(), 9);
    let mut profile_names: Vec<&str> = profiles.iter().map(|p| p.canonical_name()).collect();
    profile_names.sort();
    profile_names.dedup();
    assert_eq!(profile_names.len(), 9);
    assert!(profile_names.iter().all(|n| !n.is_empty()));
}

#[test]
fn menu_entries_without_a_profile_always_name_a_repository() {
    let menu = service_menu();
    assert_eq!(menu.len(), 13);
    for entry in &menu {
        if entry.profile.is_none() {
            assert!(!entry.repos.is_empty());
        }
    }
}
