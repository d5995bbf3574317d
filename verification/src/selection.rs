//! The selection model: the menu of optional services a user can pick.
//!
//! Each entry ties zero-or-one compose profile to the repositories the
//! feature needs. The interactive layer shows the full ordered menu and
//! hands back the picked subset; an empty selection is valid.
use vstd::prelude::*;

use crate::catalog::{ProfileId, RepoId};

verus! {

/// A catalog entry the user may pick: at most one compose profile plus
/// zero or more repositories.
#[derive(Clone, Debug, PartialEq)]
pub struct OptionalService {
    pub profile: Option<ProfileId>,
    pub repos: Vec<RepoId>,
}

/// Mathematical model of an [`OptionalService`].
pub struct ServiceView {
    pub profile: Option<ProfileId>,
    pub repos: Seq<RepoId>,
}

impl View for OptionalService {
    type V = ServiceView;

    open spec fn view(&self) -> ServiceView {
        ServiceView { profile: self.profile, repos: self.repos@ }
    }
}

impl ServiceView {
    /// A repository-only entry (no runnable profile) must name at least
    /// one repository, otherwise selecting it would have no effect.
    pub open spec fn wf(self) -> bool {
        self.profile is None ==> self.repos.len() > 0
    }
}

impl OptionalService {
    /// Construct a catalog entry; the precondition is the construction-time
    /// check that a profile-less entry names at least one repository.
    pub fn new(profile: Option<ProfileId>, repos: Vec<RepoId>) -> (s: OptionalService)
        requires
            profile is None ==> repos@.len() > 0,
        ensures
            s@.profile == profile,
            s@.repos == repos@,
            s@.wf(),
    {
        OptionalService { profile, repos }
    }
}

/// The views of the entries of [`service_menu`], in menu order.
pub open spec fn spec_service_menu() -> Seq<ServiceView> {
    seq![
        ServiceView { profile: Some(ProfileId::EnginePlay), repos: seq![RepoId::EngineWorker] },
        ServiceView { profile: Some(ProfileId::EngineAnalysis), repos: seq![] },
        ServiceView {
            profile: Some(ProfileId::ExternalEngine),
            repos: seq![RepoId::ChessEngineAdapter],
        },
        ServiceView { profile: Some(ProfileId::Search), repos: seq![RepoId::SearchService] },
        ServiceView { profile: Some(ProfileId::GifRendering), repos: seq![RepoId::GifRenderer] },
        ServiceView { profile: Some(ProfileId::Thumbnailing), repos: seq![] },
        ServiceView { profile: Some(ProfileId::ApiDocs), repos: seq![RepoId::ApiDocs] },
        ServiceView { profile: Some(ProfileId::BoardUi), repos: seq![RepoId::BoardUi] },
        ServiceView { profile: Some(ProfileId::PgnViewer), repos: seq![RepoId::PgnViewer] },
        ServiceView { profile: None, repos: seq![RepoId::ChessLibrary] },
        ServiceView { profile: None, repos: seq![RepoId::MobileChessLibrary] },
        ServiceView { profile: None, repos: seq![RepoId::ApiClient] },
        ServiceView { profile: None, repos: seq![RepoId::PairingTool] },
    ]
}

/// Every menu entry satisfies the construction-time check: an entry with
/// no profile names at least one repository.
pub proof fn lemma_service_menu_wf()
    ensures
        forall|i: int| 0 <= i < spec_service_menu().len() ==> (#[trigger] spec_service_menu()[i]).wf(),
{
}

/// The full, ordered menu of optional services offered to the user.
pub fn service_menu() -> (menu: Vec<OptionalService>)
    ensures
        menu@.len() == spec_service_menu().len(),
        forall|i: int| 0 <= i < menu@.len() ==> (#[trigger] menu@[i])@ == spec_service_menu()[i],
{
    let mut menu: Vec<OptionalService> = Vec::new();
    menu.push(OptionalService::new(Some(ProfileId::EnginePlay), vec![RepoId::EngineWorker]));
    menu.push(OptionalService::new(Some(ProfileId::EngineAnalysis), vec![]));
    menu.push(
        OptionalService::new(Some(ProfileId::ExternalEngine), vec![RepoId::ChessEngineAdapter]),
    );
    menu.push(OptionalService::new(Some(ProfileId::Search), vec![RepoId::SearchService]));
    menu.push(OptionalService::new(Some(ProfileId::GifRendering), vec![RepoId::GifRenderer]));
    menu.push(OptionalService::new(Some(ProfileId::Thumbnailing), vec![]));
    menu.push(OptionalService::new(Some(ProfileId::ApiDocs), vec![RepoId::ApiDocs]));
    menu.push(OptionalService::new(Some(ProfileId::BoardUi), vec![RepoId::BoardUi]));
    menu.push(OptionalService::new(Some(ProfileId::PgnViewer), vec![RepoId::PgnViewer]));
    menu.push(OptionalService::new(None, vec![RepoId::ChessLibrary]));
    menu.push(OptionalService::new(None, vec![RepoId::MobileChessLibrary]));
    menu.push(OptionalService::new(None, vec![RepoId::ApiClient]));
    menu.push(OptionalService::new(None, vec![RepoId::PairingTool]));
    proof {
        assert forall|i: int| 0 <= i < menu@.len() implies (#[trigger] menu@[i])@
            == spec_service_menu()[i] by {
            assert(menu@[i]@.repos =~= spec_service_menu()[i].repos);
        }
    }
    menu
}

} // verus!
