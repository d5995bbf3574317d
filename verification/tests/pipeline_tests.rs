use devstrap::catalog::RepoId;
use devstrap::compiler::Configuration;
use devstrap::pipeline::{
    all_succeeded, clone_destination, clone_plan, clone_url, primary_repo, profile_flags,
    seed_step_planned, step_order, PipelineRun, PipelineState, StepKind, StepOutcome, STEP_COUNT,
};

fn empty_config() -> Configuration {
    Configuration {
        repos_dir: String::from("/srv/work"),
        repos: Vec::new(),
        profiles: Vec::new(),
        setup_database: false,
        su_password: String::new(),
        password: String::new(),
    }
}

fn outcome(step: StepKind, succeeded: bool) -> StepOutcome {
    StepOutcome {
        name: step.name().to_string(),
        succeeded,
        detail: String::new(),
    }
}

#[test]
fn pipeline_reaches_completed_after_all_steps() {
    let mut run = PipelineRun::new();
    assert_eq!(run.state, PipelineState::NotStarted);
    run.start();
    let steps = step_order();
    assert_eq!(steps.len(), STEP_COUNT);
    for (i, step) in steps.iter().enumerate() {
        assert_eq!(run.state, PipelineState::Running(i));
        assert!(!run.is_completed());
        // Every other step fails; the pipeline must keep going regardless.
        run.record_step(outcome(*step, i % 2 == 0));
    }
    assert!(run.is_completed());
    assert_eq!(run.state, PipelineState::Completed);
    assert_eq!(run.outcomes.len(), STEP_COUNT);
    assert!(!run.outcomes[1].succeeded);
    assert!(run.outcomes[2].succeeded);
}

#[test]
fn pipeline_completes_on_the_all_empty_configuration() {
    let c = empty_config();
    assert_eq!(clone_plan(&c).len(), 0);
    assert_eq!(profile_flags(&c).len(), 0);
    assert!(!seed_step_planned(&c));
    let mut run = PipelineRun::new();
    run.start();
    for step in step_order() {
        run.record_step(outcome(step, true));
    }
    assert_eq!(run.state, PipelineState::Completed);
}

#[test]
fn steps_come_in_canonical_order() {
    assert_eq!(
        step_order(),
        vec![
            StepKind::CloneRepositories,
            StepKind::InitSubmodules,
            StepKind::BuildImages,
            StepKind::CompileAssets,
            StepKind::StartServices,
            StepKind::SeedDatabase,
        ]
    );
}

#[test]
fn clone_jobs_carry_url_and_destination() {
    let c = Configuration {
        repos: vec!["core-server".to_string(), "pairing-tool".to_string()],
        ..empty_config()
    };
    let jobs = clone_plan(&c);
    assert_eq!(jobs.len(), 2);
    assert_eq!(jobs[0].url, "https://github.com/devstack/core-server.git");
    assert_eq!(jobs[0].dest, "/srv/work/core-server");
    assert_eq!(jobs[1].url, "https://github.com/devstack/pairing-tool.git");
    assert_eq!(jobs[1].dest, "/srv/work/pairing-tool");
}

#[test]
fn url_and_destination_builders_use_the_canonical_name() {
    assert_eq!(
        clone_url("realtime-service"),
        "https://github.com/devstack/realtime-service.git"
    );
    assert_eq!(clone_destination("/opt/dev", "api-docs"), "/opt/dev/api-docs");
}

#[test]
fn a_step_with_zero_work_items_is_a_trivial_success() {
    assert!(all_succeeded(&Vec::new()));
    assert!(all_succeeded(&vec![true, true]));
    assert!(!all_succeeded(&vec![true, false, true]));
}

#[test]
fn submodules_belong_to_the_primary_repository() {
    assert_eq!(primary_repo(), RepoId::CoreServer);
    assert_eq!(primary_repo().canonical_name(), "core-server");
}
