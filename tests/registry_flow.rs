use wavedash::host::{CommandToRun, HostAction, PaneInfo, PipeMessage, PipeSource, TabInfo};
use wavedash::keybind::KeybindPane;
use wavedash::pane::{PaneFocus, PaneId};
use wavedash::registry::Registry;

const CLIENT: &str = "client-1";

fn registry() -> Registry {
    Registry::with_client_id(99, CLIENT.to_string(), "asdf".chars().collect())
}

fn tab(name: &str, position: usize, active: bool) -> TabInfo {
    TabInfo { name: name.to_string(), position, active, are_floating_panes_visible: false }
}

fn term(id: u32, title: &str, focused: bool) -> PaneInfo {
    PaneInfo {
        id,
        is_plugin: false,
        title: title.to_string(),
        is_selectable: true,
        is_floating: false,
        is_focused: focused,
        terminal_command: None,
        exit_status: None,
    }
}

fn floating(id: u32, title: &str, focused: bool) -> PaneInfo {
    PaneInfo { is_floating: true, ..term(id, title, focused) }
}

fn manifest(position: usize, panes: Vec<PaneInfo>) -> Vec<(usize, Vec<PaneInfo>)> {
    vec![(position, panes)]
}

fn pipe(name: &str, payload: &str) -> PipeMessage {
    PipeMessage {
        source: PipeSource::Other,
        name: name.to_string(),
        payload: Some(payload.to_string()),
        client_id: Some(CLIENT.to_string()),
    }
}

fn keybind(name: &str) -> PipeMessage {
    PipeMessage { source: PipeSource::Keybind, name: name.to_string(), payload: None, client_id: None }
}

fn hides(actions: &[HostAction], id: PaneId) -> usize {
    actions.iter().filter(|a| **a == HostAction::Hide(id)).count()
}

#[test]
fn first_workspace_starts_once() {
    let mut r = registry();
    let a = r.handle_tab_update(&vec![tab("proj", 0, true)]);
    assert_eq!(a, vec![HostAction::HideSelf, HostAction::RequestProjectRoot]);
    let b = r.handle_tab_update(&vec![tab("proj", 0, true), tab("other", 1, false)]);
    assert!(b.is_empty());
    assert_eq!(r.projects().len(), 2);
    assert_eq!(r.active_project().unwrap().title, "proj");
}

#[test]
fn picker_tab_is_no_workspace() {
    let mut r = registry();
    r.handle_tab_update(&vec![tab("project_picker", 0, true)]);
    assert_eq!(r.projects().len(), 0);
    assert!(r.project_uninit());
}

#[test]
fn closed_tab_drops_its_workspace() {
    let mut r = registry();
    r.handle_tab_update(&vec![tab("a", 0, true), tab("b", 1, false)]);
    r.handle_tab_update(&vec![tab("b", 0, true)]);
    assert_eq!(r.projects().len(), 1);
    assert_eq!(r.projects()[0].title, "b");
    assert_eq!(r.projects()[0].position, 0);
    assert_eq!(r.active_project().unwrap().title, "b");
}

#[test]
fn scenario_editor_hidden_once() {
    let mut r = registry();
    r.handle_tab_update(&vec![tab("proj", 0, true)]);
    let e1 = PaneId::Terminal(1);
    let e2 = PaneId::Terminal(3);
    let mut all = Vec::new();
    all.extend(r.handle_pane_update(&manifest(0, vec![term(1, "editor", true), term(2, "shell", false), term(3, "editor", false)])));
    all.extend(r.handle_pane_update(&manifest(0, vec![term(1, "editor", false), term(2, "shell", true), term(3, "editor", false)])));
    all.extend(r.handle_pane_update(&manifest(0, vec![term(1, "editor", false), term(2, "shell", false), term(3, "editor", true)])));
    assert_eq!(hides(&all, e1), 1);
    assert_eq!(hides(&all, e2), 0);
    let p = r.active_project().unwrap();
    assert_eq!(p.editor_pane_id, Some(e1));
    assert_eq!(p.current_focus, Some(PaneFocus::Tiled(e2)));
    assert_eq!(p.previous_focus, Some(PaneFocus::Tiled(PaneId::Terminal(2))));
    assert_eq!(p.last_editor, Some(e2));
}

#[test]
fn editors_alternate_one_shown() {
    let mut r = registry();
    r.handle_tab_update(&vec![tab("proj", 0, true)]);
    let panes = |f: u32| vec![term(1, "editor", f == 1), term(2, "editor", f == 2)];
    let a1 = r.handle_pane_update(&manifest(0, panes(1)));
    assert_eq!(hides(&a1, PaneId::Terminal(2)), 0);
    let a2 = r.handle_pane_update(&manifest(0, panes(2)));
    assert_eq!(a2, vec![HostAction::Hide(PaneId::Terminal(1))]);
    let a3 = r.handle_pane_update(&manifest(0, panes(1)));
    assert_eq!(a3, vec![HostAction::Hide(PaneId::Terminal(2))]);
}

#[test]
fn scenario_uninitialised_workspace_has_no_editor_effects() {
    let mut r = registry();
    r.handle_tab_update(&vec![tab("proj-x", 0, true)]);
    let a = r.handle_pane_update(&manifest(0, vec![term(1, "shell", true), term(2, "notes", false)]));
    assert!(a.iter().all(|x| !matches!(x, HostAction::Hide(_))));
    let p = r.active_project().unwrap();
    assert!(p.uninit());
    assert_eq!(p.editor_pane_id, None);
    assert_eq!(p.current_focus, Some(PaneFocus::Tiled(PaneId::Terminal(1))));
    assert_eq!(p.status_panes.len(), 2);
    let b = r.handle_pane_update(&manifest(0, vec![term(1, "shell", false), term(3, "editor", true)]));
    assert!(b.iter().all(|x| !matches!(x, HostAction::Hide(_))));
    assert_eq!(r.active_project().unwrap().editor_pane_id, Some(PaneId::Terminal(3)));
}

#[test]
fn pane_updates_without_active_workspace_are_refused() {
    let mut r = registry();
    let a = r.handle_pane_update(&manifest(0, vec![term(1, "editor", true)]));
    assert!(a.is_empty());
    assert_eq!(r.projects().len(), 0);
}

#[test]
fn other_workspace_untouched_by_pane_update() {
    let mut r = registry();
    r.handle_tab_update(&vec![tab("a", 0, false), tab("b", 1, true)]);
    r.handle_pane_update(&vec![(0, vec![term(1, "editor", true)]), (1, vec![term(5, "editor", true), term(6, "logs", false)])]);
    let a = &r.projects()[0];
    assert_eq!(a.title, "a");
    assert_eq!(a.editor_pane_id, None);
    assert_eq!(a.status_panes.len(), 0);
    assert_eq!(a.current_focus, None);
    let b = &r.projects()[1];
    assert_eq!(b.editor_pane_id, Some(PaneId::Terminal(5)));
    assert_eq!(b.status_panes.len(), 1);
    assert_eq!(b.status_panes.get_index(0), Some((PaneId::Terminal(6), "logs".to_string())));
}

#[test]
fn status_titles_follow_renames_in_place() {
    let mut r = registry();
    r.handle_tab_update(&vec![tab("p", 0, true)]);
    r.handle_pane_update(&manifest(0, vec![term(1, "editor", true), term(2, "tests", false), term(3, "tab-bar", false)]));
    r.handle_pane_update(&manifest(0, vec![term(1, "editor", true), term(4, "log", false), term(2, "tests ok", false)]));
    let p = r.active_project().unwrap();
    assert_eq!(p.status_panes.titles(), vec!["tests ok".to_string(), "log".to_string()]);
}

#[test]
fn new_terminal_is_counted_named_and_marked() {
    let mut r = registry();
    r.handle_tab_update(&vec![tab("p", 0, true)]);
    r.handle_pane_update(&manifest(0, vec![term(1, "editor", true)]));
    let a = r.handle_pipe_message(&keybind("NewTerminal"));
    assert_eq!(a, vec![HostAction::OpenFloating(None)]);
    assert_eq!(r.active_project().unwrap().spawned_extra_term_count, 1);
    let mut with_float = TabInfo { are_floating_panes_visible: true, ..tab("p", 0, true) };
    with_float.active = true;
    r.handle_tab_update(&vec![with_float]);
    let b = r.handle_pane_update(&manifest(0, vec![term(1, "editor", true), floating(7, "bash", true)]));
    assert_eq!(b, vec![HostAction::Rename(PaneId::Terminal(7), "Terminal #1".to_string())]);
    let p = r.active_project().unwrap();
    assert_eq!(p.terminal_panes.get_index(0), Some((PaneId::Terminal(7), "Terminal #1".to_string())));
    assert_eq!(p.current_focus, Some(PaneFocus::Floating(PaneId::Terminal(7))));
}

#[test]
fn role_pane_is_opened_then_focused() {
    let mut r = registry();
    r.handle_tab_update(&vec![TabInfo { are_floating_panes_visible: true, ..tab("p", 0, true) }]);
    r.handle_pane_update(&manifest(0, vec![term(1, "editor", false)]));
    let a = r.handle_pipe_message(&keybind("Git"));
    assert_eq!(a, vec![HostAction::OpenFloating(Some(CommandToRun { path: "lazygit".to_string(), args: vec![] }))]);
    let mut git = floating(8, "lazygit", true);
    git.terminal_command = Some("lazygit".to_string());
    let b = r.handle_pane_update(&manifest(0, vec![term(1, "editor", false), git]));
    assert_eq!(b, vec![HostAction::Rename(PaneId::Terminal(8), "git".to_string())]);
    assert_eq!(r.active_project().unwrap().keybind_pane(KeybindPane::Git), Some(PaneId::Terminal(8)));
    let c = r.handle_pipe_message(&keybind("Git"));
    assert_eq!(c, vec![HostAction::Focus(PaneId::Terminal(8))]);
    let mut ended = floating(8, "git", true);
    ended.terminal_command = Some("lazygit".to_string());
    ended.exit_status = Some(0);
    let d = r.handle_pane_update(&manifest(0, vec![term(1, "editor", false), ended]));
    assert_eq!(d, vec![HostAction::Close(PaneId::Terminal(8))]);
    assert_eq!(r.active_project().unwrap().keybind_pane(KeybindPane::Git), None);
}

#[test]
fn unknown_keybind_is_ignored() {
    let mut r = registry();
    r.handle_tab_update(&vec![tab("p", 0, true)]);
    r.handle_pane_update(&manifest(0, vec![term(1, "editor", true)]));
    assert!(r.handle_pipe_message(&keybind("NoSuchThing")).is_empty());
}

#[test]
fn editor_keys_are_queued_and_drained() {
    let mut r = registry();
    r.handle_tab_update(&vec![tab("p", 0, true)]);
    r.handle_pane_update(&manifest(0, vec![term(1, "editor", true)]));
    let a = r.handle_pipe_message(&keybind("HxBufferJumplist"));
    assert_eq!(a, vec![HostAction::Focus(PaneId::Terminal(1)), HostAction::SetTimeout]);
    assert_eq!(r.handle_timer(), vec![HostAction::Write(vec![27]), HostAction::SetTimeout]);
    assert_eq!(r.handle_timer(), vec![HostAction::Write(vec![2])]);
    assert!(r.handle_timer().is_empty());
}

#[test]
fn picked_files_open_in_editor() {
    let mut r = registry();
    r.handle_tab_update(&vec![tab("p", 0, true)]);
    r.handle_pane_update(&manifest(0, vec![term(1, "editor", true)]));
    let a = r.handle_pipe_message(&pipe("OpenFile", "  src/a.rs \n\n\tb.rs\r\n"));
    assert_eq!(a, vec![HostAction::Focus(PaneId::Terminal(1)), HostAction::SetTimeout]);
    let mut effects = Vec::new();
    loop {
        let t = r.handle_timer();
        if t.is_empty() {
            break;
        }
        effects.extend(t.into_iter().filter(|x| *x != HostAction::SetTimeout));
    }
    assert_eq!(
        effects,
        vec![
            HostAction::Write(vec![27]),
            HostAction::WriteChars(":open src/a.rs".to_string()),
            HostAction::Write(vec![13]),
            HostAction::WriteChars(":open b.rs".to_string()),
            HostAction::Write(vec![13]),
        ]
    );
}

#[test]
fn blank_file_selection_does_nothing() {
    let mut r = registry();
    r.handle_tab_update(&vec![tab("p", 0, true)]);
    r.handle_pane_update(&manifest(0, vec![term(1, "editor", true)]));
    assert!(r.handle_pipe_message(&pipe("OpenFile", " \n \n")).is_empty());
}

#[test]
fn message_for_another_client_is_ignored() {
    let mut r = registry();
    r.handle_tab_update(&vec![tab("p", 0, true)]);
    r.handle_pane_update(&manifest(0, vec![term(1, "editor", true)]));
    let mut m = pipe("OpenFile", "a.rs");
    m.client_id = Some("someone-else".to_string());
    assert!(r.handle_pipe_message(&m).is_empty());
}

#[test]
fn messages_before_any_workspace_are_refused_but_root_config() {
    let mut r = registry();
    assert!(r.handle_pipe_message(&keybind("Git")).is_empty());
    let m = PipeMessage {
        source: PipeSource::Other,
        name: "project_root".to_string(),
        payload: Some("{}".to_string()),
        client_id: None,
    };
    assert_eq!(r.handle_pipe_message(&m), vec![HostAction::LoadRootConfig("{}".to_string())]);
}

#[test]
fn status_pick_focuses_and_returns_to_editor() {
    let mut r = registry();
    r.handle_tab_update(&vec![tab("p", 0, true)]);
    r.handle_pane_update(&manifest(0, vec![term(1, "editor", true), term(2, "tests", false), term(3, "log", false)]));
    let a = r.handle_pipe_message(&pipe("FocusStatusPane", "2\n"));
    assert_eq!(a, vec![HostAction::Focus(PaneId::Terminal(3)), HostAction::SetTimeout]);
    assert_eq!(r.handle_timer(), vec![HostAction::Focus(PaneId::Terminal(1))]);
    assert!(r.handle_pipe_message(&pipe("FocusStatusPane", "0")).is_empty());
    assert!(r.handle_pipe_message(&pipe("FocusStatusPane", "9")).is_empty());
}

#[test]
fn focus_project_switches_tab() {
    let mut r = registry();
    r.handle_tab_update(&vec![tab("p", 0, true), tab("q", 1, false)]);
    r.handle_pane_update(&manifest(0, vec![term(1, "editor", true)]));
    assert_eq!(r.handle_pipe_message(&pipe("FocusProject", "q\n")), vec![HostAction::FocusOrCreateTab("q".to_string())]);
    assert!(r.handle_pipe_message(&pipe("FocusProject", "zz")).is_empty());
}

#[test]
fn client_id_is_random_uuid_text() {
    let r = Registry::new(1, "ab".chars().collect());
    assert_eq!(r.client_id().len(), 36);
    assert_eq!(r.client_id().matches('-').count(), 4);
}

#[test]
fn labels_follow_visible_panes() {
    let mut r = registry();
    r.handle_tab_update(&vec![tab("p", 0, true)]);
    r.handle_pane_update(&manifest(0, vec![term(1, "editor", true), term(2, "docs", false)]));
    let p = r.active_project().unwrap();
    assert_eq!(p.labels.len(), 2);
    assert_eq!(p.labels.label_of(PaneId::Terminal(2)), Some("d".to_string()));
}

#[test]
fn messages_to_uninitialised_workspace_are_refused() {
    let mut r = registry();
    r.handle_tab_update(&vec![tab("p", 0, true)]);
    r.handle_pane_update(&manifest(0, vec![term(1, "shell", true)]));
    assert!(r.handle_pipe_message(&keybind("NewTerminal")).is_empty());
    assert!(r.handle_pipe_message(&pipe("OpenFile", "a.rs")).is_empty());
    assert_eq!(r.active_project().unwrap().spawned_extra_term_count, 0);
    r.handle_pane_update(&manifest(0, vec![term(1, "shell", false), term(2, "editor", true)]));
    assert_eq!(r.handle_pipe_message(&keybind("NewTerminal")), vec![HostAction::OpenFloating(None)]);
}

#[test]
fn floating_layer_change_rechecks_last_report() {
    let mut r = registry();
    r.handle_tab_update(&vec![tab("p", 0, true)]);
    r.handle_pane_update(&manifest(0, vec![term(1, "editor", true), floating(4, "notes", true)]));
    assert_eq!(r.active_project().unwrap().current_focus, Some(PaneFocus::Tiled(PaneId::Terminal(1))));
    r.handle_tab_update(&vec![TabInfo { are_floating_panes_visible: true, ..tab("p", 0, true) }]);
    let p = r.active_project().unwrap();
    assert!(p.floating);
    assert_eq!(p.current_focus, Some(PaneFocus::Floating(PaneId::Terminal(4))));
    assert_eq!(p.previous_focus, Some(PaneFocus::Tiled(PaneId::Terminal(1))));
}

#[test]
fn startup_requests_only_for_first_workspace() {
    let mut r = registry();
    assert!(r.handle_tab_update(&vec![tab("project_picker", 0, true)]).is_empty());
    assert_eq!(
        r.handle_tab_update(&vec![tab("project_picker", 0, false), tab("a", 1, true)]),
        vec![HostAction::HideSelf, HostAction::RequestProjectRoot]
    );
    r.handle_tab_update(&vec![tab("b", 0, true)]);
    assert!(r.handle_tab_update(&vec![tab("c", 0, true)]).is_empty());
    assert_eq!(r.projects().len(), 1);
    assert_eq!(r.projects()[0].title, "c");
}

#[test]
fn layer_flags_follow_their_tabs() {
    let mut r = registry();
    r.handle_tab_update(&vec![
        TabInfo { are_floating_panes_visible: true, ..tab("a", 0, false) },
        tab("b", 1, true),
    ]);
    assert!(r.projects()[0].floating);
    assert!(!r.projects()[1].floating);
    // a tab that is not active keeps its workspace's flag
    r.handle_tab_update(&vec![tab("a", 0, false), tab("b", 1, true)]);
    assert!(r.projects()[0].floating);
    r.handle_tab_update(&vec![tab("a", 0, true), tab("b", 1, false)]);
    assert!(!r.projects()[0].floating);
    assert_eq!(r.active_project().unwrap().title, "a");
}
