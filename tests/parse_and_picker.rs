use std::collections::BTreeMap;
use wavedash::config::{ProjectPickerConfiguration, ProjectRootConfiguration};
use wavedash::host::{CommandToRun, HostAction, PaneInfo, PipeMessage, PipeSource};
use wavedash::pane::PaneId;
use wavedash::parse::{parse_configuration, ParseConfigError};
use wavedash::picker::{PickerState, PickerStatus};

fn test_conf(pairs: &[(&str, &str)]) -> Vec<(String, String)> {
    let map: BTreeMap<String, String> = pairs.iter().map(|(k, v)| (k.to_string(), v.to_string())).collect();
    map.into_iter().collect()
}

fn default_test_conf(extra_pairs: &[(&str, &str)]) -> Vec<(String, String)> {
    let mut pairs = vec![("root.test", "~/test/path"), ("task_proj.test", "test")];
    pairs.extend(extra_pairs);
    test_conf(&pairs)
}

fn parse(c: Vec<(String, String)>) -> Result<Vec<ProjectRootConfiguration>, ParseConfigError> {
    parse_configuration(&c)
}

#[test]
fn parse_empty() {
    assert!(parse(test_conf(&[])).unwrap().is_empty());
}

#[test]
fn parse_one_root() {
    let conf = parse(default_test_conf(&[])).unwrap();
    assert_eq!(conf.len(), 1);
    assert_eq!(conf[0].root_path, "~/test/path");
    assert_eq!(conf[0].root_task_project_filter, "test");
    assert!(!conf[0].default);
}

#[test]
fn parse_default_mark() {
    let conf = parse(default_test_conf(&[("default.test", "whatever")])).unwrap();
    assert_eq!(conf.iter().filter(|r| r.default).count(), 1);
}

#[test]
fn parse_nested_filters() {
    let conf = parse(default_test_conf(&[("task_proj.test.1", "test1"), ("task_proj.test.2", "test2")])).unwrap();
    assert_eq!(conf.len(), 1);
    assert_eq!(conf[0].nested_task_project_filters.len(), 2);
    assert_eq!(conf[0].nested_task_project_filters[1], ("2".to_string(), "test2".to_string()));
}

#[test]
fn parse_extra_projects() {
    let conf = parse(default_test_conf(&[("extra.test.test1", "path/1"), ("extra.test.test2", "path/2")])).unwrap();
    assert_eq!(conf.len(), 1);
    assert_eq!(conf[0].extra_project_paths, vec!["path/1".to_string(), "path/2".to_string()]);
}

#[test]
fn parse_missing_filter() {
    assert_eq!(parse(test_conf(&[("root.test", "~/test/path")])).unwrap_err(), ParseConfigError::MissingFilter("test".to_string()));
}

#[test]
fn parse_missing_root() {
    assert_eq!(parse(test_conf(&[("task_proj.test", "~/test/path")])).unwrap_err(), ParseConfigError::MissingRoot("test".to_string()));
}

#[test]
fn parse_bad_extra_key() {
    let e = parse(test_conf(&[("extra.test", "/sub/path")])).unwrap_err();
    assert_eq!(e, ParseConfigError::InvalidExtraKey("extra.test".to_string()));
    assert_eq!(e.message(), "Invalid extra project key 'extra.test'");
}

#[test]
fn parse_bad_extra_key_underscore() {
    assert!(parse(test_conf(&[("extra.test_2", "/sub/path")])).is_err());
}

#[test]
fn parse_missing_both() {
    let e = parse(test_conf(&[("default.x", "1")])).unwrap_err();
    assert_eq!(e, ParseConfigError::MissingRootAndFilter("x".to_string()));
    assert_eq!(e.message(), "Missing root path & root task project filter for root 'x'");
}

#[test]
fn parse_ignores_unknown_fields() {
    let conf = parse(default_test_conf(&[("colour.test", "red"), ("nodot", "x")])).unwrap();
    assert_eq!(conf.len(), 1);
}

fn picker_with(roots: Vec<ProjectRootConfiguration>, cwd: &str) -> PickerState {
    let mut p = PickerState::with_client_id("pid".to_string());
    p.load(ProjectPickerConfiguration::new(roots), 4, cwd.to_string());
    p
}

fn root(path: &str) -> ProjectRootConfiguration {
    ProjectRootConfiguration {
        root_path: path.to_string(),
        extra_project_paths: vec![],
        root_task_project_filter: "t".to_string(),
        nested_task_project_filters: vec![],
        default: true,
    }
}

fn cmd_pane(id: u32, title: &str) -> PaneInfo {
    PaneInfo {
        id,
        is_plugin: false,
        title: title.to_string(),
        is_selectable: true,
        is_floating: false,
        is_focused: true,
        terminal_command: Some("bash".to_string()),
        exit_status: None,
    }
}

#[test]
fn picker_refuses_bad_configuration() {
    let mut p = PickerState::with_client_id("pid".to_string());
    p.load(ProjectPickerConfiguration::new(vec![]), 4, "/".to_string());
    assert_eq!(
        p.status(),
        &PickerStatus::InvalidConfig("There must be exactly 1 default root, but there're 0".to_string())
    );
    assert!(p.project_root().is_none());
}

#[test]
fn picker_searches_then_offers_projects() {
    let mut p = picker_with(vec![root("/home/code")], "/home");
    assert_eq!(p.pane_id(), PaneId::Plugin(4));
    let a = p.handle_pane_update(&vec![]);
    assert_eq!(a.len(), 2);
    assert_eq!(a[1], HostAction::RenameTab(0, "project_picker".to_string()));
    assert_eq!(p.status(), &PickerStatus::Picking(false));
    let b = p.handle_command_result(Some(0), b"/home/code/b\n/home/code/a\n");
    assert_eq!(b.len(), 1);
    match &b[0] {
        HostAction::OpenCommandPaneInPlace(CommandToRun { path, args }) => {
            assert_eq!(path, "bash");
            assert!(args[1].starts_with("printf 'code/a\ncode/b' | command cat -n"));
        }
        other => panic!("unexpected {other:?}"),
    }
    let c = p.handle_pane_update(&vec![cmd_pane(9, "fzf")]);
    assert_eq!(c, vec![HostAction::Rename(PaneId::Terminal(9), "project_picker".to_string())]);
    assert_eq!(p.status(), &PickerStatus::Picking(true));
    let msg = PipeMessage { source: PipeSource::Other, name: "pick_project".to_string(), payload: Some("2".to_string()), client_id: Some("pid".to_string()) };
    let d = p.handle_pipe_message(&msg);
    assert_eq!(d.len(), 1);
    match &d[0] {
        HostAction::NewTabsWithLayout(t) => assert!(t.contains("cwd=\"/home/code/b\" name=\"code/b\"")),
        other => panic!("unexpected {other:?}"),
    }
    assert_eq!(p.status(), &PickerStatus::Picked(false));
    let ask = PipeMessage { source: PipeSource::Plugin(12), name: "project_root".to_string(), payload: None, client_id: None };
    assert_eq!(p.handle_pipe_message(&ask), vec![HostAction::SendProjectRoot(12)]);
    assert_eq!(p.status(), &PickerStatus::Picked(true));
    assert!(p.handle_pipe_message(&ask).is_empty());
}

#[test]
fn picker_opens_single_project_at_once() {
    let mut p = picker_with(vec![root("/home/code")], "/home");
    p.handle_pane_update(&vec![]);
    let b = p.handle_command_result(None, b"/home/code/only\n");
    assert!(matches!(&b[0], HostAction::NewTabsWithLayout(_)));
    assert_eq!(p.status(), &PickerStatus::Picked(false));
}

#[test]
fn picker_opens_project_of_start_directory() {
    let mut p = picker_with(vec![root("/home/code")], "/home/code/b");
    p.handle_pane_update(&vec![]);
    let b = p.handle_command_result(Some(0), b"/home/code/a\n/home/code/b\n");
    match &b[0] {
        HostAction::NewTabsWithLayout(t) => assert!(t.contains("cwd=\"/home/code/b\"")),
        other => panic!("unexpected {other:?}"),
    }
}

#[test]
fn picker_cancelled_selection_reopens_list() {
    let mut p = picker_with(vec![root("/home/code")], "/home");
    p.handle_pane_update(&vec![]);
    p.handle_command_result(Some(0), b"/home/code/a\n/home/code/b\n");
    let msg = PipeMessage { source: PipeSource::Other, name: "pick_project".to_string(), payload: None, client_id: Some("pid".to_string()) };
    let a = p.handle_pipe_message(&msg);
    assert_eq!(a.len(), 2);
    assert_eq!(a[0], HostAction::CloseFocus);
    assert_eq!(p.status(), &PickerStatus::Picking(false));
}

#[test]
fn picker_failed_search_is_dropped() {
    let mut p = picker_with(vec![root("/home/code")], "/home");
    p.handle_pane_update(&vec![]);
    assert!(p.handle_command_result(Some(2), b"/home/code/a\n").is_empty());
    assert!(p.options().is_empty());
}
