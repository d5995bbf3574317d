//! Static registries of repository and service-profile identifiers.
//!
//! Each identifier is a variant of a closed enum and maps to exactly one
//! non-empty canonical wire-format name, used in clone URLs, command-line
//! flags and the persisted configuration.
use vstd::prelude::*;

verus! {

/// Identifier of a source repository in the closed catalog.
#[derive(Clone, Copy, Debug, PartialEq, Eq, Structural)]
pub enum RepoId {
    CoreServer,
    RealtimeService,
    DbSeedTool,
    StaticAssets,
    EngineWorker,
    ChessEngineAdapter,
    SearchService,
    GifRenderer,
    ApiDocs,
    BoardUi,
    PgnViewer,
    ChessLibrary,
    MobileChessLibrary,
    ApiClient,
    PairingTool,
}

/// Identifier of an optional compose profile in the closed catalog.
#[derive(Clone, Copy, Debug, PartialEq, Eq, Structural)]
pub enum ProfileId {
    EnginePlay,
    EngineAnalysis,
    ExternalEngine,
    Search,
    GifRendering,
    Thumbnailing,
    ApiDocs,
    BoardUi,
    PgnViewer,
}

/// Canonical wire-format name of a repository, as a sequence of characters.
pub open spec fn spec_repo_name(r: RepoId) -> Seq<char> {
    match r {
        RepoId::CoreServer => "core-server"@,
        RepoId::RealtimeService => "realtime-service"@,
        RepoId::DbSeedTool => "db-seed-tool"@,
        RepoId::StaticAssets => "static-assets"@,
        RepoId::EngineWorker => "engine-worker"@,
        RepoId::ChessEngineAdapter => "chess-engine-adapter"@,
        RepoId::SearchService => "search-service"@,
        RepoId::GifRenderer => "gif-renderer"@,
        RepoId::ApiDocs => "api-docs"@,
        RepoId::BoardUi => "board-ui"@,
        RepoId::PgnViewer => "pgn-viewer"@,
        RepoId::ChessLibrary => "chess-library"@,
        RepoId::MobileChessLibrary => "mobile-chess-library"@,
        RepoId::ApiClient => "api-client"@,
        RepoId::PairingTool => "pairing-tool"@,
    }
}

/// Canonical kebab-case name of a compose profile.
pub open spec fn spec_profile_name(p: ProfileId) -> Seq<char> {
    match p {
        ProfileId::EnginePlay => "engine-play"@,
        ProfileId::EngineAnalysis => "engine-analysis"@,
        ProfileId::ExternalEngine => "external-engine"@,
        ProfileId::Search => "search"@,
        ProfileId::GifRendering => "gif-rendering"@,
        ProfileId::Thumbnailing => "thumbnailing"@,
        ProfileId::ApiDocs => "api-docs"@,
        ProfileId::BoardUi => "board-ui"@,
        ProfileId::PgnViewer => "pgn-viewer"@,
    }
}

impl RepoId {
    /// The canonical wire-format name of this repository.
    pub fn canonical_name(self) -> (s: &'static str)
        ensures
            s@ == spec_repo_name(self),
    {
        match self {
            RepoId::CoreServer => "core-server",
            RepoId::RealtimeService => "realtime-service",
            RepoId::DbSeedTool => "db-seed-tool",
            RepoId::StaticAssets => "static-assets",
            RepoId::EngineWorker => "engine-worker",
            RepoId::ChessEngineAdapter => "chess-engine-adapter",
            RepoId::SearchService => "search-service",
            RepoId::GifRenderer => "gif-renderer",
            RepoId::ApiDocs => "api-docs",
            RepoId::BoardUi => "board-ui",
            RepoId::PgnViewer => "pgn-viewer",
            RepoId::ChessLibrary => "chess-library",
            RepoId::MobileChessLibrary => "mobile-chess-library",
            RepoId::ApiClient => "api-client",
            RepoId::PairingTool => "pairing-tool",
        }
    }
}

/// Every repository identifier, in declaration order.
pub open spec fn spec_all_repos() -> Seq<RepoId> {
    seq![
        RepoId::CoreServer,
        RepoId::RealtimeService,
        RepoId::DbSeedTool,
        RepoId::StaticAssets,
        RepoId::EngineWorker,
        RepoId::ChessEngineAdapter,
        RepoId::SearchService,
        RepoId::GifRenderer,
        RepoId::ApiDocs,
        RepoId::BoardUi,
        RepoId::PgnViewer,
        RepoId::ChessLibrary,
        RepoId::MobileChessLibrary,
        RepoId::ApiClient,
        RepoId::PairingTool,
    ]
}

/// Every profile identifier, in declaration order.
pub open spec fn spec_all_profiles() -> Seq<ProfileId> {
    seq![
        ProfileId::EnginePlay,
        ProfileId::EngineAnalysis,
        ProfileId::ExternalEngine,
        ProfileId::Search,
        ProfileId::GifRendering,
        ProfileId::Thumbnailing,
        ProfileId::ApiDocs,
        ProfileId::BoardUi,
        ProfileId::PgnViewer,
    ]
}

/// The complete, stably ordered list of repository identifiers.
pub fn all_repos() -> (repos: Vec<RepoId>)
    ensures
        repos@ == spec_all_repos(),
        forall|r: RepoId| repos@.contains(r),
{
    let repos = vec![
        RepoId::CoreServer,
        RepoId::RealtimeService,
        RepoId::DbSeedTool,
        RepoId::StaticAssets,
        RepoId::EngineWorker,
        RepoId::ChessEngineAdapter,
        RepoId::SearchService,
        RepoId::GifRenderer,
        RepoId::ApiDocs,
        RepoId::BoardUi,
        RepoId::PgnViewer,
        RepoId::ChessLibrary,
        RepoId::MobileChessLibrary,
        RepoId::ApiClient,
        RepoId::PairingTool,
    ];
    proof {
        assert(repos@ =~= spec_all_repos());
        assert forall|r: RepoId| repos@.contains(r) by {
            match r {
                RepoId::CoreServer => assert(repos@[0] == r),
                RepoId::RealtimeService => assert(repos@[1] == r),
                RepoId::DbSeedTool => assert(repos@[2] == r),
                RepoId::StaticAssets => assert(repos@[3] == r),
                RepoId::EngineWorker => assert(repos@[4] == r),
                RepoId::ChessEngineAdapter => assert(repos@[5] == r),
                RepoId::SearchService => assert(repos@[6] == r),
                RepoId::GifRenderer => assert(repos@[7] == r),
                RepoId::ApiDocs => assert(repos@[8] == r),
                RepoId::BoardUi => assert(repos@[9] == r),
                RepoId::PgnViewer => assert(repos@[10] == r),
                RepoId::ChessLibrary => assert(repos@[11] == r),
                RepoId::MobileChessLibrary => assert(repos@[12] == r),
                RepoId::ApiClient => assert(repos@[13] == r),
                RepoId::PairingTool => assert(repos@[14] == r),
            }
        }
    }
    repos
}

/// The complete, stably ordered list of profile identifiers.
pub fn all_profiles() -> (profiles: Vec<ProfileId>)
    ensures
        profiles@ == spec_all_profiles(),
        forall|p: ProfileId| profiles@.contains(p),
{
    let profiles = vec![
        ProfileId::EnginePlay,
        ProfileId::EngineAnalysis,
        ProfileId::ExternalEngine,
        ProfileId::Search,
        ProfileId::GifRendering,
        ProfileId::Thumbnailing,
        ProfileId::ApiDocs,
        ProfileId::BoardUi,
        ProfileId::PgnViewer,
    ];
    proof {
        assert(profiles@ =~= spec_all_profiles());
        assert forall|p: ProfileId| profiles@.contains(p) by {
            match p {
                ProfileId::EnginePlay => assert(profiles@[0] == p),
                ProfileId::EngineAnalysis => assert(profiles@[1] == p),
                ProfileId::ExternalEngine => assert(profiles@[2] == p),
                ProfileId::Search => assert(profiles@[3] == p),
                ProfileId::GifRendering => assert(profiles@[4] == p),
                ProfileId::Thumbnailing => assert(profiles@[5] == p),
                ProfileId::ApiDocs => assert(profiles@[6] == p),
                ProfileId::BoardUi => assert(profiles@[7] == p),
                ProfileId::PgnViewer => assert(profiles@[8] == p),
            }
        }
    }
    profiles
}

impl ProfileId {
    /// The canonical kebab-case name of this profile.
    pub fn canonical_name(self) -> (s: &'static str)
        ensures
            s@ == spec_profile_name(self),
    {
        match self {
            ProfileId::EnginePlay => "engine-play",
            ProfileId::EngineAnalysis => "engine-analysis",
            ProfileId::ExternalEngine => "external-engine",
            ProfileId::Search => "search",
            ProfileId::GifRendering => "gif-rendering",
            ProfileId::Thumbnailing => "thumbnailing",
            ProfileId::ApiDocs => "api-docs",
            ProfileId::BoardUi => "board-ui",
            ProfileId::PgnViewer => "pgn-viewer",
        }
    }
}

/// The catalog invariant: every canonical name is non-empty, and the
/// mappings are injective — distinct identifiers never share a name.
pub proof fn lemma_catalog_names_injective()
    ensures
        forall|r: RepoId| (#[trigger] spec_repo_name(r)).len() > 0,
        forall|p: ProfileId| (#[trigger] spec_profile_name(p)).len() > 0,
        forall|r1: RepoId, r2: RepoId|
            spec_repo_name(r1) == spec_repo_name(r2) ==> r1 == r2,
        forall|p1: ProfileId, p2: ProfileId|
            spec_profile_name(p1) == spec_profile_name(p2) ==> p1 == p2,
{
    reveal_strlit("core-server");
    reveal_strlit("realtime-service");
    reveal_strlit("db-seed-tool");
    reveal_strlit("static-assets");
    reveal_strlit("engine-worker");
    reveal_strlit("chess-engine-adapter");
    reveal_strlit("search-service");
    reveal_strlit("gif-renderer");
    reveal_strlit("api-docs");
    reveal_strlit("board-ui");
    reveal_strlit("pgn-viewer");
    reveal_strlit("chess-library");
    reveal_strlit("mobile-chess-library");
    reveal_strlit("api-client");
    reveal_strlit("pairing-tool");
    reveal_strlit("engine-play");
    reveal_strlit("engine-analysis");
    reveal_strlit("external-engine");
    reveal_strlit("search");
    reveal_strlit("gif-rendering");
    reveal_strlit("thumbnailing");
    assert forall|r1: RepoId, r2: RepoId|
        spec_repo_name(r1) == spec_repo_name(r2) implies r1 == r2 by {
        if spec_repo_name(r1) == spec_repo_name(r2) {
            assert(spec_repo_name(r1).len() == spec_repo_name(r2).len());
            assert(spec_repo_name(r1)[0] == spec_repo_name(r2)[0]);
        }
    }
    assert forall|p1: ProfileId, p2: ProfileId|
        spec_profile_name(p1) == spec_profile_name(p2) implies p1 == p2 by {
        if spec_profile_name(p1) == spec_profile_name(p2) {
            assert(spec_profile_name(p1).len() == spec_profile_name(p2).len());
            assert(spec_profile_name(p1)[0] == spec_profile_name(p2)[0]);
            assert(spec_profile_name(p1)[1] == spec_profile_name(p2)[1]);
        }
    }
}

} // verus!
