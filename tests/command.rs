use queenbee::command::{CommandSet, ExecutableCommand};
use queenbee::error::Error;

const TEST_COMMANDS: &str = r#"[{"idx": 1, "command": "echo", "args": ["hello"]}]"#;

const MULTIPLE_COMMANDS: &str = r#"[
    {"idx": 4, "command": "echo", "args": ["4"]},
    {"idx": 1, "command": "echo", "args": ["1"]},
    {"idx": 6, "command": "echo", "args": ["6"]},
    {"idx": 2, "command": "echo", "args": ["2"]},
    {"idx": 5, "command": "echo", "args": ["5"]},
    {"idx": 3, "command": "echo", "args": ["3"]}
]"#;

const FAULT_JSON: &str = r#"[{"idx": 1, "command": "echo", "args": ["hello"]"#;

fn config_error(e: impl ToString) -> Error {
    Error::ConfigError(e.to_string())
}

/// Decodes the text of a pool file into its command records.
fn decode_commands(text: &str) -> Result<Vec<ExecutableCommand>, Error> {
    let v: serde_json::Value = serde_json::from_str(text).map_err(config_error)?;
    let items = v.as_array().ok_or_else(|| config_error("not an array"))?;
    let mut out = Vec::new();
    for c in items {
        let idx = c["idx"].as_u64().ok_or_else(|| config_error("idx"))? as usize;
        let command = c["command"].as_str().ok_or_else(|| config_error("command"))?.to_string();
        let mut args = Vec::new();
        for a in c["args"].as_array().ok_or_else(|| config_error("args"))? {
            args.push(a.as_str().ok_or_else(|| config_error("arg"))?.to_string());
        }
        out.push(ExecutableCommand { idx, command, args });
    }
    Ok(out)
}

fn echo(idx: usize) -> ExecutableCommand {
    ExecutableCommand { idx, command: "echo".to_string(), args: vec![idx.to_string()] }
}

#[test]
fn command_test_from_file() {
    let cs = CommandSet::from_file(decode_commands(TEST_COMMANDS)).unwrap();
    let commands = cs.as_commands();
    assert_eq!(commands.len(), 1);
    let ec = &commands[0];
    assert_eq!(ec.idx, 1);
}

#[test]
fn test_load_from_file() {
    let cs = CommandSet::from_file(decode_commands(TEST_COMMANDS));
    assert!(cs.is_ok());
}

#[test]
fn command_test_load_from_mal_file() {
    let cs = CommandSet::from_file(decode_commands(FAULT_JSON));
    assert!(cs.is_err());
    assert!(matches!(cs, Err(Error::ConfigError(_))));
}

#[test]
fn test_select_command_by_index() {
    let cs = CommandSet::from_file(decode_commands(MULTIPLE_COMMANDS)).unwrap();
    let cs2 = cs.select_command_by_index(&[3, 5, 6]).unwrap();
    let cm = cs2.as_commands();
    assert_eq!(cm[0].idx, 3);
    assert_eq!(cm[1].idx, 5);
    assert_eq!(cm[2].idx, 6);
}

#[test]
fn pool_is_sorted_by_idx_after_load() {
    let cs = CommandSet::from_file(decode_commands(MULTIPLE_COMMANDS)).unwrap();
    let idxs: Vec<usize> = cs.as_commands().iter().map(|c| c.idx).collect();
    assert_eq!(idxs, vec![1, 2, 3, 4, 5, 6]);
    let args: Vec<String> = cs.as_commands().iter().map(|c| c.args[0].clone()).collect();
    assert_eq!(args, vec!["1", "2", "3", "4", "5", "6"]);
}

#[test]
fn sort_keeps_equal_indices_and_all_commands() {
    let v = vec![
        ExecutableCommand { idx: 2, command: "b".to_string(), args: vec![] },
        ExecutableCommand { idx: 1, command: "a".to_string(), args: vec![] },
        ExecutableCommand { idx: 2, command: "c".to_string(), args: vec![] },
    ];
    let cs = CommandSet::from_file(Ok(v)).unwrap();
    let names: Vec<String> = cs.as_commands().iter().map(|c| c.command.clone()).collect();
    assert_eq!(names, vec!["a", "b", "c"]);
    let v = vec![
        ExecutableCommand { idx: 3, command: "z".to_string(), args: vec![] },
        ExecutableCommand { idx: 3, command: "y".to_string(), args: vec![] },
        ExecutableCommand { idx: 1, command: "x".to_string(), args: vec![] },
    ];
    let cs = CommandSet::from_file(Ok(v)).unwrap();
    let names: Vec<String> = cs.as_commands().iter().map(|c| c.command.clone()).collect();
    assert_eq!(names, vec!["x", "z", "y"]);
}

#[test]
fn empty_pool_loads_empty() {
    let cs = CommandSet::from_file(Ok(vec![])).unwrap();
    assert_eq!(cs.len(), 0);
    assert!(cs.as_commands().is_empty());
}

#[test]
fn load_error_is_passed_on() {
    let cs = CommandSet::from_file(Err(Error::ConfigError("unreadable".to_string())));
    assert!(matches!(cs, Err(Error::ConfigError(m)) if m == "unreadable"));
}

#[test]
fn select_keeps_caller_order_and_repeats() {
    let cs = CommandSet::new((1..=6).map(echo).collect());
    let sel = cs.select_command_by_index(&[6, 1, 6, 2]).unwrap();
    let idxs: Vec<usize> = sel.as_commands().iter().map(|c| c.idx).collect();
    assert_eq!(idxs, vec![6, 1, 6, 2]);
}

#[test]
fn select_of_nothing_is_none() {
    let cs = CommandSet::new((1..=6).map(echo).collect());
    assert!(cs.select_command_by_index(&[]).is_none());
}

#[test]
fn select_is_by_position_not_by_idx() {
    let cs = CommandSet::from_file(Ok(vec![echo(1), echo(5), echo(2)])).unwrap();
    let sel = cs.select_command_by_index(&[3]).unwrap();
    assert_eq!(sel.as_commands()[0].idx, 5);
}

#[test]
fn out_of_bounds_position_is_found() {
    let cs = CommandSet::from_file(decode_commands(MULTIPLE_COMMANDS)).unwrap();
    assert_eq!(cs.first_out_of_bounds(&[3, 5, 7]), Some(7));
    assert_eq!(cs.first_out_of_bounds(&[0, 9]), Some(0));
    assert_eq!(cs.first_out_of_bounds(&[3, 5, 6]), None);
}

#[test]
fn as_command_gives_program_and_args() {
    let c = ExecutableCommand { idx: 1, command: "ls".to_string(), args: vec!["-l".to_string(), "/".to_string()] };
    let spec = c.as_command();
    assert_eq!(spec.program, "ls");
    assert_eq!(spec.args, vec!["-l".to_string(), "/".to_string()]);
    let d = c.duplicate();
    assert_eq!(d.idx, 1);
    assert_eq!(d.command, "ls");
    assert_eq!(d.args.len(), 2);
}
