//! The orchestration pipeline: planners for each provisioning step and the
//! state machine that drives the steps in canonical order.
//!
//! Each step wraps one external invocation (a clone, a submodule init, an
//! image build, an asset compile, a service start, a database seed). The
//! caller performs the external work and reports an outcome per step; a
//! step's failure is recorded, never propagated, so the run always reaches
//! completion after attempting every step.
use vstd::prelude::*;
use vstd::string::StringExecFns;

use crate::compiler::Configuration;

verus! {

/// How many steps one pipeline run attempts.
pub const STEP_COUNT: usize = 6;

/// The steps of one provisioning run, in canonical order.
#[derive(Clone, Copy, Debug, PartialEq, Eq, Structural)]
pub enum StepKind {
    CloneRepositories,
    InitSubmodules,
    BuildImages,
    CompileAssets,
    StartServices,
    SeedDatabase,
}

/// The display name of a step.
pub open spec fn spec_step_name(k: StepKind) -> Seq<char> {
    match k {
        StepKind::CloneRepositories => "clone repositories"@,
        StepKind::InitSubmodules => "init submodules"@,
        StepKind::BuildImages => "build images"@,
        StepKind::CompileAssets => "compile assets"@,
        StepKind::StartServices => "start services"@,
        StepKind::SeedDatabase => "seed database"@,
    }
}

/// The canonical order in which the steps are attempted.
pub open spec fn spec_step_order() -> Seq<StepKind> {
    seq![
        StepKind::CloneRepositories,
        StepKind::InitSubmodules,
        StepKind::BuildImages,
        StepKind::CompileAssets,
        StepKind::StartServices,
        StepKind::SeedDatabase,
    ]
}

impl StepKind {
    /// The display name of this step.
    pub fn name(self) -> (s: &'static str)
        ensures
            s@ == spec_step_name(self),
    {
        match self {
            StepKind::CloneRepositories => "clone repositories",
            StepKind::InitSubmodules => "init submodules",
            StepKind::BuildImages => "build images",
            StepKind::CompileAssets => "compile assets",
            StepKind::StartServices => "start services",
            StepKind::SeedDatabase => "seed database",
        }
    }
}

/// The steps of one run, in the order they are attempted.
pub fn step_order() -> (steps: Vec<StepKind>)
    ensures
        steps@ == spec_step_order(),
{
    let steps = vec![
        StepKind::CloneRepositories,
        StepKind::InitSubmodules,
        StepKind::BuildImages,
        StepKind::CompileAssets,
        StepKind::StartServices,
        StepKind::SeedDatabase,
    ];
    proof {
        assert(steps@ =~= spec_step_order());
    }
    steps
}

/// The recorded verdict of one attempted step.
#[derive(Clone, Debug, PartialEq)]
pub struct StepOutcome {
    /// The display name of the step.
    pub name: String,
    /// Whether the step's external work succeeded.
    pub succeeded: bool,
    /// A free-form diagnostic for the user.
    pub detail: String,
}

/// The state of one pipeline run. There is no failed terminal state: a
/// run always reaches completion after attempting every step.
#[derive(Clone, Copy, Debug, PartialEq, Eq, Structural)]
pub enum PipelineState {
    NotStarted,
    Running(usize),
    Completed,
}

/// One transition of the pipeline state machine: starting enters the first
/// step, and each recorded outcome moves to the next step or completes.
pub open spec fn spec_advance(st: PipelineState) -> PipelineState {
    match st {
        PipelineState::NotStarted => PipelineState::Running(0),
        PipelineState::Running(i) => if i + 1 < STEP_COUNT {
            PipelineState::Running((i + 1) as usize)
        } else {
            PipelineState::Completed
        },
        PipelineState::Completed => PipelineState::Completed,
    }
}

/// The state after `n` transitions from `st`.
pub open spec fn spec_run_steps(st: PipelineState, n: nat) -> PipelineState
    decreases n,
{
    if n == 0 {
        st
    } else {
        spec_run_steps(spec_advance(st), (n - 1) as nat)
    }
}

/// One pipeline run: its state and the outcomes recorded so far.
#[derive(Debug)]
pub struct PipelineRun {
    pub state: PipelineState,
    pub outcomes: Vec<StepOutcome>,
}

impl PipelineRun {
    /// The state matches the number of recorded outcomes, and a completed
    /// run has attempted every step.
    pub open spec fn wf(self) -> bool {
        match self.state {
            PipelineState::NotStarted => self.outcomes@.len() == 0,
            PipelineState::Running(i) => self.outcomes@.len() == i && i < STEP_COUNT,
            PipelineState::Completed => self.outcomes@.len() == STEP_COUNT,
        }
    }

    /// A fresh run: nothing started, nothing recorded.
    pub fn new() -> (run: PipelineRun)
        ensures
            run.state == PipelineState::NotStarted,
            run.outcomes@.len() == 0,
            run.wf(),
    {
        PipelineRun { state: PipelineState::NotStarted, outcomes: Vec::new() }
    }

    /// Enter the first step.
    pub fn start(&mut self)
        requires
            old(self).state == PipelineState::NotStarted,
        ensures
            final(self).state == spec_advance(old(self).state),
            final(self).state == PipelineState::Running(0),
            final(self).outcomes == old(self).outcomes,
            old(self).wf() ==> final(self).wf(),
    {
        self.state = PipelineState::Running(0);
    }

    /// Record the outcome of the step now running and move on. A failure
    /// is recorded like a success: it never aborts the remaining steps.
    pub fn record_step(&mut self, outcome: StepOutcome)
        requires
            old(self).state is Running,
        ensures
            final(self).state == spec_advance(old(self).state),
            final(self).outcomes@ == old(self).outcomes@.push(outcome),
            old(self).wf() ==> final(self).wf(),
    {
        let i = match self.state {
            PipelineState::Running(i) => i,
            PipelineState::NotStarted => 0,
            PipelineState::Completed => 0,
        };
        self.outcomes.push(outcome);
        if i < STEP_COUNT - 1 {
            self.state = PipelineState::Running(i + 1);
        } else {
            self.state = PipelineState::Completed;
        }
    }

    /// Whether the run has attempted every step.
    pub fn is_completed(&self) -> (r: bool)
        ensures
            r == (self.state == PipelineState::Completed),
    {
        match self.state {
            PipelineState::Completed => true,
            PipelineState::NotStarted => false,
            PipelineState::Running(_) => false,
        }
    }
}

/// One planned clone: where to fetch from and where to put it.
#[derive(Clone, Debug, PartialEq)]
pub struct CloneJob {
    pub url: String,
    pub dest: String,
}

/// The hosting organization under which every catalog repository lives.
pub open spec fn spec_org_prefix() -> Seq<char> {
    "https://github.com/devstack/"@
}

/// The clone URL of a repository with the given canonical name.
pub open spec fn spec_clone_url(name: Seq<char>) -> Seq<char> {
    spec_org_prefix() + name + ".git"@
}

/// The local destination of a repository with the given canonical name.
pub open spec fn spec_clone_dest(repos_dir: Seq<char>, name: Seq<char>) -> Seq<char> {
    repos_dir + "/"@ + name
}

/// Build the clone URL of a repository.
pub fn clone_url(name: &str) -> (url: String)
    ensures
        url@ == spec_clone_url(name@),
{
    let mut url = String::from_str("https://github.com/devstack/");
    url.append(name);
    url.append(".git");
    url
}

/// Build the local destination path of a repository.
pub fn clone_destination(repos_dir: &str, name: &str) -> (dest: String)
    ensures
        dest@ == spec_clone_dest(repos_dir@, name@),
{
    let mut dest = String::from_str(repos_dir);
    dest.append("/");
    dest.append(name);
    dest
}

/// Plan the first step: one clone per configured repository, in order. An
/// empty repository list plans zero clones.
pub fn clone_plan(c: &Configuration) -> (jobs: Vec<CloneJob>)
    ensures
        jobs@.len() == c@.repos.len(),
        forall|i: int| 0 <= i < jobs@.len() ==> (#[trigger] jobs@[i]).url@ == spec_clone_url(
            c@.repos[i],
        ) && jobs@[i].dest@ == spec_clone_dest(c@.repos_dir, c@.repos[i]),
{
    let mut jobs: Vec<CloneJob> = Vec::new();
    let mut i: usize = 0;
    while i < c.repos.len()
        invariant
            0 <= i <= c.repos@.len(),
            jobs@.len() == i,
            forall|k: int| 0 <= k < i ==> (#[trigger] jobs@[k]).url@ == spec_clone_url(
                c@.repos[k],
            ) && jobs@[k].dest@ == spec_clone_dest(c@.repos_dir, c@.repos[k]),
        decreases c.repos@.len() - i,
    {
        proof {
            assert(c@.repos[i as int] == c.repos@[i as int]@);
        }
        let name = &c.repos[i];
        jobs.push(
            CloneJob {
                url: clone_url(name.as_str()),
                dest: clone_destination(c.repos_dir.as_str(), name.as_str()),
            },
        );
        i += 1;
    }
    jobs
}

/// The profile flags scoping a container command: one `--profile <name>`
/// pair per name, in order.
pub open spec fn spec_profile_flags(profiles: Seq<Seq<char>>) -> Seq<Seq<char>>
    decreases profiles.len(),
{
    if profiles.len() == 0 {
        Seq::empty()
    } else {
        spec_profile_flags(profiles.drop_last()).push("--profile"@).push(profiles.last())
    }
}

/// The flag list is one `--profile <name>` pair per name: twice as long as
/// the name list, the flag word at every even slot, each name at the odd
/// slot after it.
pub proof fn lemma_profile_flags_shape(profiles: Seq<Seq<char>>)
    ensures
        spec_profile_flags(profiles).len() == 2 * profiles.len(),
        forall|k: int|
            0 <= k < profiles.len() ==> (#[trigger] spec_profile_flags(profiles)[2 * k])
                == "--profile"@ && spec_profile_flags(profiles)[2 * k + 1] == profiles[k],
    decreases profiles.len(),
{
    if profiles.len() > 0 {
        lemma_profile_flags_shape(profiles.drop_last());
        let whole = spec_profile_flags(profiles);
        let prefix = spec_profile_flags(profiles.drop_last());
        assert forall|k: int| 0 <= k < profiles.len() implies (#[trigger] whole[2 * k])
            == "--profile"@ && whole[2 * k + 1] == profiles[k] by {
            if k < profiles.len() - 1 {
                assert(whole[2 * k] == prefix[2 * k]);
                assert(whole[2 * k + 1] == prefix[2 * k + 1]);
                assert(profiles.drop_last()[k] == profiles[k]);
            }
        }
    }
}

/// The profile flags handed to the container toolchain for this
/// configuration. No profiles means no flags, which the toolchain reads
/// as "all defaults".
pub fn profile_flags(c: &Configuration) -> (flags: Vec<String>)
    ensures
        flags.deep_view() == spec_profile_flags(c@.profiles),
{
    let mut flags: Vec<String> = Vec::new();
    proof {
        assert(c@.profiles.take(0) =~= Seq::<Seq<char>>::empty());
        assert(flags.deep_view() =~= spec_profile_flags(c@.profiles.take(0)));
    }
    let mut i: usize = 0;
    while i < c.profiles.len()
        invariant
            0 <= i <= c.profiles@.len(),
            c@.profiles.len() == c.profiles@.len(),
            flags.deep_view() == spec_profile_flags(c@.profiles.take(i as int)),
        decreases c.profiles@.len() - i,
    {
        proof {
            assert(c@.profiles[i as int] == c.profiles@[i as int]@);
        }
        let ghost prev = flags.deep_view();
        flags.push(String::from_str("--profile"));
        flags.push(c.profiles[i].clone());
        proof {
            assert(flags.deep_view() =~= prev.push("--profile"@).push(c@.profiles[i as int]));
            assert(c@.profiles.take(i + 1).drop_last() =~= c@.profiles.take(i as int));
            assert(c@.profiles.take(i + 1).last() == c@.profiles[i as int]);
        }
        i += 1;
    }
    proof {
        assert(c@.profiles.take(c.profiles@.len() as int) =~= c@.profiles);
    }
    flags
}

/// The repository whose submodules the second step initializes.
pub fn primary_repo() -> (r: crate::catalog::RepoId)
    ensures
        r == crate::catalog::RepoId::CoreServer,
{
    crate::catalog::RepoId::CoreServer
}

/// A step over a list of work items succeeds exactly when every item did;
/// zero items are a trivial success.
pub fn all_succeeded(results: &Vec<bool>) -> (r: bool)
    ensures
        r == (forall|i: int| 0 <= i < results@.len() ==> results@[i]),
{
    let mut i: usize = 0;
    while i < results.len()
        invariant
            0 <= i <= results@.len(),
            forall|k: int| 0 <= k < i ==> results@[k],
        decreases results@.len() - i,
    {
        if !results[i] {
            return false;
        }
        i += 1;
    }
    true
}

/// Whether the final step seeds the database: exactly when the
/// configuration asks for it; otherwise the step is skipped as a trivial
/// success.
pub fn seed_step_planned(c: &Configuration) -> (r: bool)
    ensures
        r == c@.setup_database,
{
    c.setup_database
}

proof fn lemma_completed_stays(n: nat)
    ensures
        spec_run_steps(PipelineState::Completed, n) == PipelineState::Completed,
    decreases n,
{
    if n > 0 {
        lemma_completed_stays((n - 1) as nat);
    }
}

proof fn lemma_running_completes(i: nat, n: nat)
    requires
        i < STEP_COUNT,
        n >= STEP_COUNT - i,
    ensures
        spec_run_steps(PipelineState::Running(i as usize), n) == PipelineState::Completed,
    decreases n,
{
    if i + 1 < STEP_COUNT {
        lemma_running_completes(i + 1, (n - 1) as nat);
    } else {
        lemma_completed_stays((n - 1) as nat);
    }
}

/// Pipeline totality: from a fresh run, starting and then recording any
/// six outcomes — whatever the configuration planned and however each
/// step fared, an empty clone list included — reaches the completed
/// state, with every step attempted.
pub proof fn lemma_pipeline_totality(n: nat)
    requires
        n > STEP_COUNT,
    ensures
        spec_run_steps(PipelineState::NotStarted, n) == PipelineState::Completed,
{
    lemma_running_completes(0, (n - 1) as nat);
}

} // verus!
