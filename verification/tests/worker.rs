use layanow::settings::Quant;
use layanow::worker::{load_failure_message, WorkerGone, WorkerPlan};

/// One request to the worker loop.
enum Step {
    Decide,
    Configure(&'static str, Quant, bool),
}

/// Run the worker loop's decisions over `steps`, recording every engine
/// build as (checkpoint, precision) and whether each decision had an engine.
fn drive(
    mut plan: WorkerPlan,
    steps: &[Step],
    build_ok: bool,
) -> (Vec<(String, Quant)>, Vec<bool>) {
    let mut builds = Vec::new();
    let mut decided = Vec::new();
    if plan.preload() {
        builds.push((plan.checkpoint().to_string(), plan.quant()));
        plan.engine_built(build_ok);
    }
    for step in steps {
        match step {
            Step::Decide => {
                if plan.needs_engine() {
                    builds.push((plan.checkpoint().to_string(), plan.quant()));
                    plan.engine_built(build_ok);
                }
                decided.push(!plan.needs_engine());
                plan.decision_done();
            }
            Step::Configure(checkpoint, quant, on_demand) => {
                if plan.configure((*checkpoint).to_string(), *quant, *on_demand) {
                    builds.push((plan.checkpoint().to_string(), plan.quant()));
                    plan.engine_built(build_ok);
                }
            }
        }
    }
    (builds, decided)
}

#[test]
fn on_demand_rebuilds_the_engine_for_each_decision() {
    let plan = WorkerPlan::new("test".to_string(), Quant::Fp32, true);
    let (builds, decided) = drive(plan, &[Step::Decide, Step::Decide], true);
    assert_eq!(builds.len(), 2, "on-demand loads once per decision");
    assert_eq!(decided, [true, true]);
}

#[test]
fn the_hot_policy_loads_once_up_front() {
    let plan = WorkerPlan::new("english".to_string(), Quant::Fp32, false);
    let (builds, _) = drive(plan, &[Step::Decide, Step::Decide, Step::Decide], true);
    assert_eq!(builds, [("english".to_string(), Quant::Fp32)]);
}

#[test]
fn reconfigure_swaps_the_checkpoint() {
    let plan = WorkerPlan::new("english".to_string(), Quant::Fp32, false);
    let steps = [Step::Decide, Step::Configure("multilingual", Quant::Fp32, false), Step::Decide];
    let (builds, _) = drive(plan, &steps, true);
    let checkpoints: Vec<&str> = builds.iter().map(|(name, _)| name.as_str()).collect();
    assert_eq!(checkpoints, ["english", "multilingual"]);
}

#[test]
fn reconfigure_swaps_the_precision() {
    let plan = WorkerPlan::new("english".to_string(), Quant::Fp32, false);
    let steps = [Step::Decide, Step::Configure("english", Quant::Int8, false), Step::Decide];
    let (builds, _) = drive(plan, &steps, true);
    let quants: Vec<Quant> = builds.iter().map(|(_, quant)| *quant).collect();
    assert_eq!(quants, [Quant::Fp32, Quant::Int8]);
}

#[test]
fn an_unchanged_configuration_keeps_the_engine() {
    let plan = WorkerPlan::new("english".to_string(), Quant::Fp32, false);
    let steps = [Step::Configure("english", Quant::Fp32, false), Step::Decide];
    let (builds, _) = drive(plan, &steps, true);
    assert_eq!(builds.len(), 1);
}

#[test]
fn switching_to_on_demand_drops_the_engine() {
    let mut plan = WorkerPlan::new("english".to_string(), Quant::Fp32, false);
    plan.engine_built(true);
    assert!(!plan.configure("english".to_string(), Quant::Fp32, true));
    assert!(plan.needs_engine());
}

#[test]
fn a_failed_build_is_retried_on_the_next_decision() {
    let plan = WorkerPlan::new("english".to_string(), Quant::Fp32, false);
    let (builds, decided) = drive(plan, &[Step::Decide, Step::Decide], false);
    assert_eq!(builds.len(), 3);
    assert_eq!(decided, [false, false]);
    assert_eq!(load_failure_message(), "the model could not be loaded");
}

#[test]
fn the_worker_gone_message() {
    assert_eq!(WorkerGone.message(), "the inference worker has stopped");
}
