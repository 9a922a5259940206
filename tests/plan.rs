use queenbee::command::ExecutableCommand;
use queenbee::config::Config;
use queenbee::error::Error;
use queenbee::plan::{DeployPlan, PlanStep};
use queenbee::task::DeployTask;

const TEST_PLAN: &str = r#"{"name": "Plan1", "tasknames": ["Task1"]}"#;

const FAULT_JSON: &str = r#"{"name": "Plan1", "tasknames": ["Task1""#;

fn config_error(e: impl ToString) -> Error {
    Error::ConfigError(e.to_string())
}

/// Decodes the text of a plan file into its plan record.
fn decode_plan(text: &str) -> Result<DeployPlan, Error> {
    let v: serde_json::Value = serde_json::from_str(text).map_err(config_error)?;
    let name = v["name"].as_str().ok_or_else(|| config_error("name"))?.to_string();
    let mut names = Vec::new();
    for n in v["tasknames"].as_array().ok_or_else(|| config_error("tasknames"))? {
        names.push(n.as_str().ok_or_else(|| config_error("taskname"))?.to_string());
    }
    Ok(DeployPlan::new(name, names))
}

fn echo(idx: usize) -> ExecutableCommand {
    ExecutableCommand { idx, command: "echo".to_string(), args: vec![idx.to_string()] }
}

fn test_config() -> Config {
    let mut config = Config::new(
        "./testresource".to_string(),
        "multiplecommands.json".to_string(),
        vec!["testplan.json".to_string()],
        vec![("Task1".to_string(), "testtasks.json".to_string())],
    );
    config.load_commandpool(Ok((1..=6).map(echo).collect())).unwrap();
    config
}

#[test]
fn plan_test_from_file() {
    let config = Some(test_config());
    let dp = DeployPlan::from_file(decode_plan(TEST_PLAN).unwrap(), config);
    assert_eq!(dp.name, "Plan1".to_owned());
    assert_eq!(dp.tasknames.len(), 1);
    assert_eq!(dp.tasknames[0], "Task1".to_owned());
}

#[test]
fn plan_test_load_from_mal_file() {
    let dp = decode_plan(FAULT_JSON);
    assert!(dp.is_err());
}

#[test]
fn unknown_task_name_is_skipped() {
    let plan = DeployPlan::new("P".to_string(), vec!["Task1".to_string(), "T_missing".to_string()]);
    let dp = DeployPlan::from_file(plan, Some(test_config()));
    let paths = dp.task_paths().unwrap();
    assert_eq!(paths.len(), 1);
    assert!(paths[0].ends_with("testtasks.json"));
    assert!(paths[0].starts_with("./testresource"));
}

#[test]
fn task_paths_follow_name_order() {
    let mut config = Config::new(
        "dir".to_string(),
        "pool.json".to_string(),
        vec![],
        vec![("A".to_string(), "a.json".to_string()), ("B".to_string(), "b.json".to_string())],
    );
    config.load_commandpool(Ok(vec![echo(1)])).unwrap();
    let plan = DeployPlan::new("P".to_string(), vec!["B".to_string(), "X".to_string(), "A".to_string(), "B".to_string()]);
    let dp = DeployPlan::from_file(plan, Some(config));
    let paths = dp.task_paths().unwrap();
    assert_eq!(paths.len(), 3);
    assert!(paths[0].ends_with("b.json"));
    assert!(paths[1].ends_with("a.json"));
    assert!(paths[2].ends_with("b.json"));
}

#[test]
fn run_asks_for_task_files_then_executes() {
    let plan = DeployPlan::new("P".to_string(), vec!["Task1".to_string(), "T_missing".to_string()]);
    let mut dp = DeployPlan::from_file(plan, Some(test_config()));
    match dp.run() {
        Ok(PlanStep::Resolve(files)) => assert_eq!(files.len(), 1),
        other => panic!("unexpected step {:?}", other),
    }
    let t1 = DeployTask::new("Task1".to_string(), vec![3, 5, 6]);
    dp.load_task(Ok(vec![t1])).unwrap();
    match dp.run() {
        Ok(PlanStep::Execute(mut tasks)) => {
            assert_eq!(tasks.len(), 1);
            let cmds = tasks[0].run(None).unwrap();
            let payloads: Vec<String> = cmds.iter().map(|c| c.args[0].clone()).collect();
            assert_eq!(payloads, vec!["3", "5", "6"]);
        }
        other => panic!("unexpected step {:?}", other),
    }
    assert!(matches!(dp.run(), Ok(PlanStep::Resolve(_))));
}

#[test]
fn task_load_error_is_passed_on() {
    let plan = DeployPlan::new("P".to_string(), vec!["Task1".to_string()]);
    let mut dp = DeployPlan::from_file(plan, Some(test_config()));
    let r = dp.load_task(Err(Error::ConfigError("bad task file".to_string())));
    assert!(matches!(r, Err(Error::ConfigError(_))));
    assert!(matches!(dp.run(), Ok(PlanStep::Resolve(_))));
}

#[test]
fn plan_without_config_is_state_error() {
    let mut dp = DeployPlan::new("P".to_string(), vec!["Task1".to_string()]);
    assert!(matches!(dp.run(), Err(Error::StateError(_))));
    assert!(matches!(dp.task_paths(), Err(Error::StateError(_))));
    assert!(matches!(dp.load_task(Ok(vec![])), Err(Error::StateError(_))));
}

#[test]
fn plan_has_name() {
    let dp = DeployPlan::new("Plan1".to_string(), vec![]);
    assert!(dp.has_name(&"Plan1".to_string()));
    assert!(!dp.has_name(&"Plan2".to_string()));
}
