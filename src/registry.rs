use crate::config::{ProjectOption, ProjectRootConfiguration};
use crate::host::{HostAction, PaneInfo, TabInfo};
use crate::config::option_view;
use crate::keybind::{role_index, KeybindPane, ROLE_COUNT};
use crate::pane::{focus_id, PaneFocus, PaneId};
use crate::labels::{assign_spec, DashPane};
use crate::project::{
    dash_editor, exited_roles, first_change, first_editor, focus_of_info, label_panes, register_all,
    status_update, ProjectTab,
};
use crate::queue::{tick, tick_item, CommandQueue, QueueState, QueuedFocusCommand, QueuedTimerCommand};
use crate::fzf::{
    find_repos_args, find_repos_args_spec, fzf_command_text, fzf_index_of, get_fzf_pane_cmd,
    parse_fzf_index, MSG_CLIENT_ID_ARG,
};
use crate::host::{CommandToRun, PipeMessage, PipeSource};
use crate::keybind::{keybind_of_name, message_type_name, message_type_of_name, role_name, role_of_keybind, MessageKeybind, MessageType};
use crate::template::{template_text, wavedash_template};
use crate::text::{decimal, first_line, join_lines, lines, lines_of, push_decimal, string_of, text_eq, trim, trimmed};
use crate::titles::has_id;
use vstd::prelude::*;

verus! {

/// The title of the tab that the project picker uses; it is no workspace.
pub const PROJECT_PICKER_PLUGIN_NAME: &'static str = "project_picker";

/// The name of the message that carries the project root configuration.
pub const PROJECT_ROOT_MESSAGE_NAME: &'static str = "project_root";

/// Relies on `uuid::Uuid::new_v4` and its hyphenated `Display`: a random
/// identifier, written in 36 characters.
#[verifier::external_body]
pub(crate) fn fresh_client_id() -> (r: String)
    ensures
        r@.len() == 36,
{
    uuid::Uuid::new_v4().to_string()
}

/// One workspace per host tab, keyed by the tab's title, and the state that
/// the plugin shares among them.
pub struct Registry {
    projects: Vec<ProjectTab>,
    /// The title of the active workspace.
    active: Option<String>,
    project_options: Vec<ProjectOption>,
    plugin_id: PaneId,
    msg_client_id: String,
    command_queue: CommandQueue,
    root_config: Option<ProjectRootConfiguration>,
    alphabet: Vec<char>,
    /// Whether the first workspace was seen, which happens once.
    started: bool,
}

pub open spec fn titles_unique(ps: Seq<ProjectTab>) -> bool {
    forall|i: int, j: int|
        0 <= i < ps.len() && 0 <= j < ps.len() && i != j ==> ps[i].title@ != ps[j].title@
}

/// The position of the workspace titled `t`.
pub open spec fn find_title(ps: Seq<ProjectTab>, t: Seq<char>) -> Option<int>
    decreases ps.len(),
{
    if ps.len() == 0 {
        None
    } else if ps.last().title@ == t {
        Some(ps.len() - 1)
    } else {
        find_title(ps.drop_last(), t)
    }
}

pub proof fn lemma_find_title(ps: Seq<ProjectTab>, t: Seq<char>)
    ensures
        find_title(ps, t) is Some ==> 0 <= find_title(ps, t).unwrap() < ps.len() && ps[find_title(
            ps,
            t,
        ).unwrap()].title@ == t,
        find_title(ps, t) is None ==> forall|i: int| 0 <= i < ps.len() ==> ps[i].title@ != t,
    decreases ps.len(),
{
    if ps.len() > 0 && ps.last().title@ != t {
        lemma_find_title(ps.drop_last(), t);
        if find_title(ps, t) is None {
            assert forall|i: int| 0 <= i < ps.len() implies ps[i].title@ != t by {
                if i < ps.len() - 1 {
                    assert(ps[i] == ps.drop_last()[i]);
                }
            }
        }
    }
}

proof fn lemma_root_name_is_no_type()
    ensures
        message_type_of_name(PROJECT_ROOT_MESSAGE_NAME@) is None,
{
    reveal_strlit("project_root");
    reveal_strlit("OpenFile");
    reveal_strlit("OpenProject");
    reveal_strlit("FocusProject");
    reveal_strlit("FocusStatusPane");
    reveal_strlit("FocusTerminalPane");
    assert(PROJECT_ROOT_MESSAGE_NAME@[0] == 'p');
    assert("OpenFile"@[0] == 'O');
    assert("OpenProject"@[0] == 'O');
    assert("FocusProject"@[0] == 'F');
    assert("FocusStatusPane"@[0] == 'F');
    assert("FocusTerminalPane"@[0] == 'F');
}

proof fn lemma_find_title_unique(ps: Seq<ProjectTab>, t: Seq<char>, j: int)
    requires
        titles_unique(ps),
        0 <= j < ps.len(),
        ps[j].title@ == t,
    ensures
        find_title(ps, t) == Some(j),
{
    lemma_find_title_some(ps, t, j);
    lemma_find_title(ps, t);
}

proof fn lemma_last_active_idx(tabs: Seq<TabInfo>)
    ensures
        last_active_idx(tabs) matches Some(x) ==> 0 <= x < tabs.len() && tabs[x].active
            && is_workspace_tab(tabs[x]),
    decreases tabs.len(),
{
    if tabs.len() > 0 && !(tabs.last().active && is_workspace_tab(tabs.last())) {
        lemma_last_active_idx(tabs.drop_last());
        if let Some(x) = last_active_idx(tabs) {
            assert(tabs[x] == tabs.drop_last()[x]);
        }
    }
}

fn last_active_index(tabs: &Vec<TabInfo>) -> (r: Option<usize>)
    ensures
        r is Some <==> last_active_idx(tabs@) is Some,
        r matches Some(x) ==> x == last_active_idx(tabs@).unwrap() && x < tabs@.len(),
{
    let ghost ts = tabs@;
    let mut i: usize = tabs.len();
    assert(ts.take(i as int) =~= ts);
    while i > 0
        invariant
            ts == tabs@,
            i <= ts.len(),
            last_active_idx(ts) == last_active_idx(ts.take(i as int)),
        decreases i,
    {
        assert(ts.take(i as int).drop_last() =~= ts.take(i - 1));
        assert(ts.take(i as int).last() == ts[i - 1]);
        if tabs[i - 1].active && !text_eq(tabs[i - 1].name.as_str(), PROJECT_PICKER_PLUGIN_NAME) {
            return Some(i - 1);
        }
        i = i - 1;
    }
    assert(ts.take(0) =~= Seq::<TabInfo>::empty());
    None
}

proof fn lemma_find_title_some(ps: Seq<ProjectTab>, t: Seq<char>, i: int)
    requires
        0 <= i < ps.len(),
        ps[i].title@ == t,
    ensures
        find_title(ps, t) is Some,
    decreases ps.len(),
{
    if ps.last().title@ != t {
        assert(i < ps.len() - 1);
        assert(ps.drop_last()[i] == ps[i]);
        lemma_find_title_some(ps.drop_last(), t, i);
    }
}

/// The host request that a timer item makes, given the active workspace's
/// editor pane.
pub open spec fn timer_action(item: QueuedTimerCommand, editor: Option<PaneId>) -> Seq<HostAction> {
    match item {
        QueuedTimerCommand::WriteString(s) => seq![HostAction::WriteChars(s)],
        QueuedTimerCommand::WriteBytes(b) => seq![HostAction::Write(b)],
        QueuedTimerCommand::FocusEditor => match editor {
            Some(id) => seq![HostAction::Focus(id)],
            None => seq![],
        },
    }
}

/// Applies the actions that waited for a focus change to the pane `id`:
/// roles it takes (a role keeps an earlier holder), terminal titles it takes
/// (an earlier title stays), and renames.
pub open spec fn apply_focus_items(
    kb: Seq<Option<PaneId>>,
    terms: Seq<(PaneId, Seq<char>)>,
    items: Seq<QueuedFocusCommand>,
    id: PaneId,
) -> (Seq<Option<PaneId>>, Seq<(PaneId, Seq<char>)>, Seq<HostAction>)
    decreases items.len(),
{
    if items.len() == 0 {
        (kb, terms, seq![])
    } else {
        let (k, t, a) = apply_focus_items(kb, terms, items.drop_last(), id);
        match items.last() {
            QueuedFocusCommand::MarkKeybindPane(role) => if k[role_index(role)] is None {
                (k.update(role_index(role), Some(id)), t, a)
            } else {
                (k, t, a)
            },
            QueuedFocusCommand::RenamePane(n) => (k, t, a.push(HostAction::Rename(id, n))),
            QueuedFocusCommand::MarkTerminalPane(title) => if has_id(t, id) {
                (k, t, a)
            } else {
                (k, t.push((id, title@)), a)
            },
        }
    }
}

/// The editor pane to hide when `id` takes the focus: the editor focused
/// before, when `id` is another editor pane and the workspace is initialised.
pub open spec fn editor_hide(
    last: Option<PaneId>,
    id: PaneId,
    is_editor: bool,
    initialized: bool,
) -> Option<PaneId> {
    if is_editor && initialized && last is Some && last.unwrap() != id {
        last
    } else {
        None
    }
}

/// The editor pane focused last, once `id` took the focus.
pub open spec fn editor_after(last: Option<PaneId>, id: PaneId, is_editor: bool) -> Option<PaneId> {
    if is_editor {
        Some(id)
    } else {
        last
    }
}

/// Whether `p` is hidden after editor panes took the focus in the order of
/// `ids`, starting from `last` as the editor focused last: a pane is shown
/// when it takes the focus and hidden when another editor takes it after it.
pub open spec fn editor_hidden(last: Option<PaneId>, ids: Seq<PaneId>, p: PaneId) -> bool
    decreases ids.len(),
{
    if ids.len() == 0 {
        false
    } else {
        let before = editor_last(last, ids.drop_last());
        if ids.last() == p {
            false
        } else if editor_hide(before, ids.last(), true, true) == Some(p) {
            true
        } else {
            editor_hidden(last, ids.drop_last(), p)
        }
    }
}

/// The editor focused last after editor panes took the focus in order.
pub open spec fn editor_last(last: Option<PaneId>, ids: Seq<PaneId>) -> Option<PaneId>
    decreases ids.len(),
{
    if ids.len() == 0 {
        last
    } else {
        editor_after(editor_last(last, ids.drop_last()), ids.last(), true)
    }
}

/// One editor pane is shown: in an initialised workspace, after editor panes
/// take the focus in the order of `ids` (at least one), of those panes and
/// the editor focused before them, the pane focused last is the only one not
/// hidden.
pub proof fn lemma_single_visible_editor(last: Option<PaneId>, ids: Seq<PaneId>, p: PaneId)
    requires
        ids.len() > 0,
        ids.contains(p) || last == Some(p),
    ensures
        editor_hidden(last, ids, p) <==> p != ids.last(),
        editor_last(last, ids) == Some(ids.last()),
    decreases ids.len(),
{
    let n = ids.len();
    let before = editor_last(last, ids.drop_last());
    if n == 1 {
        if p != ids.last() {
            assert(last == Some(p)) by {
                if ids.contains(p) {
                    let i = choose|i: int| 0 <= i < ids.len() && ids[i] == p;
                }
            }
            assert(ids.drop_last().len() == 0);
        }
    } else {
        let rest = ids.drop_last();
        assert(rest.len() > 0);
        if rest.contains(p) || last == Some(p) {
            lemma_single_visible_editor(last, rest, p);
        } else {
            assert(p == ids.last()) by {
                let i = choose|i: int| 0 <= i < ids.len() && ids[i] == p;
                if i < n - 1 {
                    assert(rest[i] == p);
                }
            }
        }
        lemma_single_visible_editor(last, rest, rest.last());
    }
}

/// The role slot of the status pick-list, which is closed whenever another
/// pane takes the focus so that it lists fresh titles when opened again.
pub open spec fn status_slot() -> int {
    role_index(KeybindPane::StatusPaneDash)
}

pub open spec fn status_reset(k: Seq<Option<PaneId>>, id: PaneId) -> Seq<Option<PaneId>> {
    if k[status_slot()] is Some && k[status_slot()].unwrap() != id {
        k.update(status_slot(), None)
    } else {
        k
    }
}

pub open spec fn status_close(k: Seq<Option<PaneId>>, id: PaneId) -> Seq<HostAction> {
    if k[status_slot()] is Some && k[status_slot()].unwrap() != id {
        seq![HostAction::Close(k[status_slot()].unwrap())]
    } else {
        seq![]
    }
}

pub open spec fn hide_actions(h: Option<PaneId>) -> Seq<HostAction> {
    match h {
        Some(x) => seq![HostAction::Hide(x)],
        None => seq![],
    }
}

/// The workspace `t` after `focus` became its focus, given the actions that
/// waited for a focus change.
pub open spec fn focused_tab(t: ProjectTab, after: ProjectTab, focus: PaneFocus, items: Seq<QueuedFocusCommand>) -> bool {
    let id = focus_id(focus);
    let (k, terms, _a) = apply_focus_items(t.keybind_panes@, t.terminal_panes@, items, id);
    &&& after.wf()
    &&& after.title == t.title
    &&& after.editor_pane_id == t.editor_pane_id
    &&& after.current_focus == Some(focus)
    &&& after.previous_focus == t.current_focus
    &&& after.last_editor == editor_after(t.last_editor, id, dash_editor(t.dash_panes@, id))
    &&& after.focused_panes == t.focused_panes
    &&& after.dash_panes == t.dash_panes
    &&& after.labels@ == t.labels@
    &&& after.status_panes@ == t.status_panes@
    &&& after.terminal_panes@ == terms
    &&& after.keybind_panes@ == status_reset(k, id)
    &&& after.spawned_extra_term_count == t.spawned_extra_term_count
}

/// The requests made when `focus` becomes the focus of a workspace with the
/// given role slots, terminal titles, editor focused last, dash panes and
/// editor pane.
pub open spec fn focus_actions_of(
    kb: Seq<Option<PaneId>>,
    terms: Seq<(PaneId, Seq<char>)>,
    last_editor: Option<PaneId>,
    dps: Seq<DashPane>,
    editor: Option<PaneId>,
    focus: PaneFocus,
    items: Seq<QueuedFocusCommand>,
) -> Seq<HostAction> {
    let id = focus_id(focus);
    let (k, _terms, a) = apply_focus_items(kb, terms, items, id);
    a + hide_actions(editor_hide(last_editor, id, dash_editor(dps, id), editor is Some))
        + status_close(k, id)
}

/// The requests made when `focus` became the focus of `t`.
pub open spec fn focus_actions(t: ProjectTab, focus: PaneFocus, items: Seq<QueuedFocusCommand>) -> Seq<
    HostAction,
> {
    focus_actions_of(
        t.keybind_panes@,
        t.terminal_panes@,
        t.last_editor,
        t.dash_panes@,
        t.editor_pane_id,
        focus,
        items,
    )
}

/// The role slots after `focus` became the focus.
pub open spec fn focus_roles(
    kb: Seq<Option<PaneId>>,
    terms: Seq<(PaneId, Seq<char>)>,
    focus: PaneFocus,
    items: Seq<QueuedFocusCommand>,
) -> Seq<Option<PaneId>> {
    status_reset(apply_focus_items(kb, terms, items, focus_id(focus)).0, focus_id(focus))
}

/// The focused panes of a report, in its order.
pub open spec fn focused_of(panes: Seq<PaneInfo>) -> Seq<PaneFocus>
    decreases panes.len(),
{
    if panes.len() == 0 {
        seq![]
    } else if panes.last().is_focused {
        focused_of(panes.drop_last()).push(focus_of_info(panes.last()))
    } else {
        focused_of(panes.drop_last())
    }
}

/// The panes reported for the tab at `position`: those of the first entry
/// for it.
pub open spec fn panes_at(manifest: Seq<(usize, Vec<PaneInfo>)>, position: usize) -> Option<Seq<PaneInfo>>
    decreases manifest.len(),
{
    if manifest.len() == 0 {
        None
    } else if manifest[0].0 == position {
        Some(manifest[0].1@)
    } else {
        panes_at(manifest.drop_first(), position)
    }
}

/// `b` holds the pane maps, counters and editor pane of `a`.
pub open spec fn same_maps(a: ProjectTab, b: ProjectTab) -> bool {
    &&& b.title == a.title
    &&& b.editor_pane_id == a.editor_pane_id
    &&& b.dash_panes == a.dash_panes
    &&& b.labels@ == a.labels@
    &&& b.status_panes@ == a.status_panes@
    &&& b.terminal_panes@ == a.terminal_panes@
    &&& b.keybind_panes@ == a.keybind_panes@
    &&& b.spawned_extra_term_count == a.spawned_extra_term_count
}

/// `b` holds the focus state of `a`.
pub open spec fn same_focus(a: ProjectTab, b: ProjectTab) -> bool {
    &&& b.current_focus == a.current_focus
    &&& b.previous_focus == a.previous_focus
    &&& b.last_editor == a.last_editor
    &&& b.focused_panes == a.focused_panes
}

/// A workspace that has seen no pane yet.
pub open spec fn is_fresh(t: ProjectTab) -> bool {
    &&& t.wf()
    &&& t.editor_pane_id is None
    &&& t.current_focus is None
    &&& t.previous_focus is None
    &&& t.last_editor is None
    &&& t.focused_panes@.len() == 0
    &&& t.dash_panes@.len() == 0
    &&& t.labels@.len() == 0
    &&& t.status_panes@.len() == 0
    &&& t.terminal_panes@.len() == 0
    &&& t.keybind_panes@ == Seq::new(ROLE_COUNT as nat, |i: int| None::<PaneId>)
    &&& t.spawned_extra_term_count == 0
}

pub open spec fn is_workspace_tab(t: TabInfo) -> bool {
    t.name@ != PROJECT_PICKER_PLUGIN_NAME@
}

pub open spec fn names_tab(tabs: Seq<TabInfo>, name: Seq<char>) -> bool {
    exists|k: int| 0 <= k < tabs.len() && tabs[k].name@ == name
}

/// Whether a workspace tab (not the picker's) has the name `name`.
pub open spec fn names_ws_tab(tabs: Seq<TabInfo>, name: Seq<char>) -> bool {
    exists|k: int| 0 <= k < tabs.len() && tabs[k].name@ == name && is_workspace_tab(tabs[k])
}

/// The position of the last active workspace tab.
pub open spec fn last_active_idx(tabs: Seq<TabInfo>) -> Option<int>
    decreases tabs.len(),
{
    if tabs.len() == 0 {
        None
    } else if tabs.last().active && is_workspace_tab(tabs.last()) {
        Some(tabs.len() - 1)
    } else {
        last_active_idx(tabs.drop_last())
    }
}

/// Whether some workspace tab names no workspace of `ps`.
pub open spec fn any_new(tabs: Seq<TabInfo>, ps: Seq<ProjectTab>) -> bool {
    exists|k: int|
        0 <= k < tabs.len() && is_workspace_tab(tabs[k]) && find_title(ps, tabs[k].name@) is None
}

/// The requests made when the first workspace ever appears: hide the plugin
/// and ask for the project root configuration.
pub open spec fn startup_actions(started: bool, new_workspace: bool) -> Seq<HostAction> {
    if !started && new_workspace {
        seq![HostAction::HideSelf, HostAction::RequestProjectRoot]
    } else {
        seq![]
    }
}

/// `w` is a workspace of `o` with its maps, focus state and layer flag kept,
/// or a fresh workspace for a new title that took the layer flag of a tab of
/// that title.
pub open spec fn kept_or_fresh(o: Seq<ProjectTab>, w: ProjectTab, tabs: Seq<TabInfo>) -> bool {
    (exists|j: int|
        0 <= j < o.len() && same_maps(o[j], w) && same_focus(o[j], w) && w.floating == o[j].floating)
        || (is_fresh(w) && find_title(o, w.title@) is None && exists|x: int|
        0 <= x < tabs.len() && tabs[x].name@ == w.title@ && tabs[x].are_floating_panes_visible
            == w.floating)
}

/// The workspaces of `s` whose title a tab still has, in order.
pub open spec fn keep_present(s: Seq<ProjectTab>, tabs: Seq<TabInfo>) -> Seq<ProjectTab>
    decreases s.len(),
{
    if s.len() == 0 {
        seq![]
    } else if names_ws_tab(tabs, s.last().title@) {
        keep_present(s.drop_last(), tabs).push(s.last())
    } else {
        keep_present(s.drop_last(), tabs)
    }
}

proof fn lemma_keep_present(s: Seq<ProjectTab>, tabs: Seq<TabInfo>)
    requires
        titles_unique(s),
    ensures
        titles_unique(keep_present(s, tabs)),
        forall|i: int|
            0 <= i < keep_present(s, tabs).len() ==> s.contains(#[trigger] keep_present(s, tabs)[i])
                && names_ws_tab(tabs, keep_present(s, tabs)[i].title@),
        forall|i: int|
            0 <= i < s.len() && names_ws_tab(tabs, #[trigger] s[i].title@) ==> keep_present(
                s,
                tabs,
            ).contains(s[i]),
    decreases s.len(),
{
    if s.len() > 0 {
        let s0 = s.drop_last();
        assert(titles_unique(s0));
        lemma_keep_present(s0, tabs);
        let k = keep_present(s0, tabs);
        assert forall|i: int| 0 <= i < k.len() implies s.contains(#[trigger] k[i]) by {
            let j = choose|j: int| 0 <= j < s0.len() && s0[j] == k[i];
            assert(s[j] == k[i]);
        }
        if names_ws_tab(tabs, s.last().title@) {
            let k2 = k.push(s.last());
            assert forall|a: int, b: int|
                0 <= a < k2.len() && 0 <= b < k2.len() && a != b implies k2[a].title@
                != k2[b].title@ by {
                if a < k.len() && b < k.len() {
                } else if a < k.len() {
                    let j = choose|j: int| 0 <= j < s0.len() && s0[j] == k[a];
                    assert(s[j] == k[a]);
                } else if b < k.len() {
                    let j = choose|j: int| 0 <= j < s0.len() && s0[j] == k[b];
                    assert(s[j] == k[b]);
                }
            }
            assert forall|i: int| 0 <= i < k2.len() implies s.contains(#[trigger] k2[i])
                && names_ws_tab(tabs, k2[i].title@) by {
                if i < k.len() {
                    assert(k2[i] == k[i]);
                } else {
                    assert(s[s.len() - 1] == k2[i]);
                }
            }
            assert forall|i: int|
                0 <= i < s.len() && names_ws_tab(tabs, #[trigger] s[i].title@) implies k2.contains(
                s[i],
            ) by {
                if i < s0.len() {
                    assert(s0[i] == s[i]);
                    let j = choose|j: int| 0 <= j < k.len() && k[j] == s0[i];
                    assert(k2[j] == s[i]);
                } else {
                    assert(k2[k.len() as int] == s[i]);
                }
            }
        } else {
            assert forall|i: int|
                0 <= i < s.len() && names_ws_tab(tabs, #[trigger] s[i].title@) implies k.contains(
                s[i],
            ) by {
                assert(i < s0.len());
                assert(s0[i] == s[i]);
            }
        }
    }
}

fn tabs_name(tabs: &Vec<TabInfo>, name: &str) -> (r: bool)
    ensures
        r == names_tab(tabs@, name@),
{
    let mut k: usize = 0;
    while k < tabs.len()
        invariant
            k <= tabs@.len(),
            forall|j: int| 0 <= j < k ==> tabs@[j].name@ != name@,
        decreases tabs@.len() - k,
    {
        if text_eq(tabs[k].name.as_str(), name) {
            return true;
        }
        k = k + 1;
    }
    false
}

/// What a timer item does, over plain values.
pub ghost enum TimerItem {
    Chars(Seq<char>),
    Bytes(Seq<u8>),
    FocusEditor,
}

pub open spec fn timer_item(c: QueuedTimerCommand) -> TimerItem {
    match c {
        QueuedTimerCommand::WriteString(s) => TimerItem::Chars(s@),
        QueuedTimerCommand::WriteBytes(b) => TimerItem::Bytes(b@),
        QueuedTimerCommand::FocusEditor => TimerItem::FocusEditor,
    }
}

pub open spec fn timer_items(s: Seq<QueuedTimerCommand>) -> Seq<TimerItem> {
    s.map_values(|c: QueuedTimerCommand| timer_item(c))
}

/// What a focus item does, over plain values.
pub ghost enum FocusItem {
    Rename(Seq<char>),
    MarkRole(KeybindPane),
    MarkTerminal(Seq<char>),
}

pub open spec fn focus_item(c: QueuedFocusCommand) -> FocusItem {
    match c {
        QueuedFocusCommand::RenamePane(s) => FocusItem::Rename(s@),
        QueuedFocusCommand::MarkKeybindPane(k) => FocusItem::MarkRole(k),
        QueuedFocusCommand::MarkTerminalPane(s) => FocusItem::MarkTerminal(s@),
    }
}

pub open spec fn focus_items(s: Seq<QueuedFocusCommand>) -> Seq<FocusItem> {
    s.map_values(|c: QueuedFocusCommand| focus_item(c))
}

/// A command over plain values: the program and its arguments.
pub open spec fn command_view(c: CommandToRun) -> (Seq<char>, Seq<Seq<char>>) {
    (c.path@, c.args@.map_values(|a: String| a@))
}

pub open spec fn opt_command_view(c: Option<CommandToRun>) -> Option<(Seq<char>, Seq<Seq<char>>)> {
    match c {
        Some(c) => Some(command_view(c)),
        None => None,
    }
}

/// The text that the file picker runs: it sends the chosen files back as a
/// message addressed to `client_id`.
pub open spec fn file_picker_text(client_id: Seq<char>) -> Seq<char> {
    "yazi --chooser-file /dev/stdout | zellij pipe --plugin wavedash --name "@
        + message_type_name(MessageType::OpenFile) + " --args '"@ + MSG_CLIENT_ID_ARG@ + "="@
        + client_id + "'"@
}

/// The command of the pane that takes `role`, given the workspace titles,
/// the status and terminal titles of the active workspace, and the client id.
pub open spec fn spawn_spec(
    role: KeybindPane,
    project_titles: Seq<Seq<char>>,
    status: Seq<Seq<char>>,
    terms: Seq<Seq<char>>,
    client_id: Seq<char>,
) -> Option<(Seq<char>, Seq<Seq<char>>)> {
    match role {
        KeybindPane::Git => Some(("lazygit"@, seq![])),
        KeybindPane::K9s => Some(("k9s"@, seq![])),
        KeybindPane::Terminal => None,
        KeybindPane::OpenProject => None,
        KeybindPane::ProjectDash => Some(
            (
                "bash"@,
                seq![
                    "-c"@,
                    fzf_command_text(
                        join_lines(project_titles),
                        message_type_name(MessageType::FocusProject),
                        client_id,
                        false,
                    ),
                ],
            ),
        ),
        KeybindPane::StatusPaneDash => Some(
            (
                "bash"@,
                seq![
                    "-c"@,
                    fzf_command_text(
                        join_lines(status),
                        message_type_name(MessageType::FocusStatusPane),
                        client_id,
                        true,
                    ),
                ],
            ),
        ),
        KeybindPane::TerminalPaneDash => Some(
            (
                "bash"@,
                seq![
                    "-c"@,
                    fzf_command_text(
                        join_lines(terms),
                        message_type_name(MessageType::FocusTerminalPane),
                        client_id,
                        true,
                    ),
                ],
            ),
        ),
        KeybindPane::FilePicker => Some(("bash"@, seq!["-c"@, file_picker_text(client_id)])),
    }
}

pub open spec fn project_titles(ps: Seq<ProjectTab>) -> Seq<Seq<char>> {
    ps.map_values(|p: ProjectTab| p.title@)
}

pub open spec fn title_list(s: Seq<(PaneId, Seq<char>)>) -> Seq<Seq<char>> {
    s.map_values(|e: (PaneId, Seq<char>)| e.1)
}

pub open spec fn focus_editor_actions(editor: Option<PaneId>) -> Seq<HostAction> {
    match editor {
        Some(id) => seq![HostAction::Focus(id)],
        None => seq![],
    }
}

pub open spec fn arm_actions(armed_before: bool, queued: bool) -> Seq<HostAction> {
    if !armed_before && queued {
        seq![HostAction::SetTimeout]
    } else {
        seq![]
    }
}

/// The title of the `n`-th terminal opened on request.
pub open spec fn terminal_title(n: nat) -> Seq<char> {
    "Terminal #"@ + decimal(n)
}

/// The files that a file picker sent: its lines without surrounding
/// whitespace, blank ones left out.
pub open spec fn picked_files(lines: Seq<Seq<char>>) -> Seq<Seq<char>>
    decreases lines.len(),
{
    if lines.len() == 0 {
        seq![]
    } else if trimmed(lines.last()).len() > 0 {
        picked_files(lines.drop_last()).push(trimmed(lines.last()))
    } else {
        picked_files(lines.drop_last())
    }
}

/// The timer items that open `files` in the editor, after the escape byte.
pub open spec fn open_file_items(files: Seq<Seq<char>>) -> Seq<TimerItem>
    decreases files.len(),
{
    if files.len() == 0 {
        seq![TimerItem::Bytes(seq![27u8])]
    } else {
        open_file_items(files.drop_last()) + seq![
            TimerItem::Chars(":open "@ + files.last()),
            TimerItem::Bytes(seq![13u8]),
        ]
    }
}

/// The selection of a pick-list numbered from 1: the entry before it.
pub open spec fn picked_index(payload: Seq<char>) -> Option<int> {
    match fzf_index_of(payload) {
        Some(n) => if n >= 1 {
            Some(n - 1)
        } else {
            None
        },
        None => None,
    }
}

fn byte_vec(b: u8) -> (r: Vec<u8>)
    ensures
        r@ == seq![b],
{
    let mut r: Vec<u8> = Vec::new();
    r.push(b);
    r
}

fn focused_panes_of(panes: &Vec<PaneInfo>) -> (r: Vec<PaneFocus>)
    ensures
        r@ == focused_of(panes@),
{
    let ghost ps = panes@;
    let mut r: Vec<PaneFocus> = Vec::new();
    let mut i: usize = 0;
    assert(ps.take(0) =~= Seq::<PaneInfo>::empty());
    while i < panes.len()
        invariant
            ps == panes@,
            i <= ps.len(),
            r@ == focused_of(ps.take(i as int)),
        decreases ps.len() - i,
    {
        assert(ps.take(i + 1).drop_last() =~= ps.take(i as int));
        assert(ps.take(i + 1).last() == ps[i as int]);
        if panes[i].is_focused {
            r.push(PaneFocus::new(panes[i].pane_id(), panes[i].is_floating));
        }
        i = i + 1;
    }
    assert(ps.take(i as int) =~= ps);
    r
}

impl Registry {
    pub closed spec fn projects_view(&self) -> Seq<ProjectTab> {
        self.projects@
    }

    pub closed spec fn active_view(&self) -> Option<Seq<char>> {
        match self.active {
            Some(t) => Some(t@),
            None => None,
        }
    }

    pub closed spec fn queue_state(&self) -> QueueState {
        self.command_queue.state()
    }

    pub closed spec fn client_id_view(&self) -> Seq<char> {
        self.msg_client_id@
    }

    pub closed spec fn plugin_view(&self) -> PaneId {
        self.plugin_id
    }

    pub closed spec fn started_view(&self) -> bool {
        self.started
    }

    pub closed spec fn alphabet_view(&self) -> Seq<char> {
        self.alphabet@
    }

    pub closed spec fn root_config_view(&self) -> Option<ProjectRootConfiguration> {
        self.root_config
    }

    pub closed spec fn options_view(&self) -> Seq<ProjectOption> {
        self.project_options@
    }

    /// Every view of `self` equals that of `o`.
    pub open spec fn unchanged_from(self, o: Registry) -> bool {
        &&& self.projects_view() == o.projects_view()
        &&& self.active_view() == o.active_view()
        &&& self.queue_state() == o.queue_state()
        &&& self.client_id_view() == o.client_id_view()
        &&& self.plugin_view() == o.plugin_view()
        &&& self.started_view() == o.started_view()
        &&& self.alphabet_view() == o.alphabet_view()
        &&& self.root_config_view() == o.root_config_view()
        &&& self.options_view() == o.options_view()
    }

    /// Whether messages are taken: a workspace is active and initialised.
    pub open spec fn ready(&self) -> bool {
        match self.active_index() {
            Some(i) => self.projects_view()[i].editor_pane_id is Some,
            None => false,
        }
    }

    /// The position of the active workspace.
    pub open spec fn active_index(&self) -> Option<int> {
        match self.active_view() {
            Some(t) => find_title(self.projects_view(), t),
            None => None,
        }
    }

    pub closed spec fn wf(&self) -> bool {
        &&& forall|i: int| 0 <= i < self.projects@.len() ==> (#[trigger] self.projects@[i]).wf()
        &&& titles_unique(self.projects@)
        &&& self.command_queue.wf()
        &&& self.alphabet@.len() * self.alphabet@.len() <= usize::MAX
    }

    /// A registry with no workspace, for the plugin pane `plugin_id`, that
    /// labels panes over `alphabet` and names itself `client_id`.
    pub fn with_client_id(plugin_id: u32, client_id: String, alphabet: Vec<char>) -> (r: Registry)
        requires
            alphabet@.len() * alphabet@.len() <= usize::MAX,
        ensures
            r.wf(),
            r.projects_view().len() == 0,
            r.active_view() is None,
            r.client_id_view() == client_id@,
            r.plugin_view() == PaneId::Plugin(plugin_id),
            r.alphabet_view() == alphabet@,
            !r.started_view(),
            r.queue_state().timers.len() == 0,
            r.queue_state().focus.len() == 0,
            !r.queue_state().armed,
            r.root_config_view() is None,
            r.options_view().len() == 0,
    {
        Registry {
            projects: Vec::new(),
            active: None,
            project_options: Vec::new(),
            plugin_id: PaneId::Plugin(plugin_id),
            msg_client_id: client_id,
            command_queue: CommandQueue::new(),
            root_config: None,
            alphabet,
            started: false,
        }
    }

    /// A registry with no workspace and a fresh random name.
    pub fn new(plugin_id: u32, alphabet: Vec<char>) -> (r: Registry)
        requires
            alphabet@.len() * alphabet@.len() <= usize::MAX,
        ensures
            r.wf(),
            r.projects_view().len() == 0,
            r.active_view() is None,
            r.client_id_view().len() == 36,
            r.plugin_view() == PaneId::Plugin(plugin_id),
            r.alphabet_view() == alphabet@,
            !r.started_view(),
            r.queue_state().timers.len() == 0,
            !r.queue_state().armed,
    {
        Registry::with_client_id(plugin_id, fresh_client_id(), alphabet)
    }

    pub fn client_id(&self) -> (r: &str)
        ensures
            r@ == self.client_id_view(),
    {
        self.msg_client_id.as_str()
    }

    pub fn projects(&self) -> (r: &Vec<ProjectTab>)
        ensures
            r@ == self.projects_view(),
    {
        &self.projects
    }

    pub fn command_queue(&self) -> (r: &CommandQueue)
        ensures
            r.state() == self.queue_state(),
    {
        &self.command_queue
    }

    pub fn project_options(&self) -> (r: &Vec<ProjectOption>)
        ensures
            r@ == self.options_view(),
    {
        &self.project_options
    }

    /// The position of the workspace titled `title`.
    pub fn find_project(&self, title: &str) -> (r: Option<usize>)
        ensures
            r is Some <==> find_title(self.projects_view(), title@) is Some,
            r is Some ==> r.unwrap() == find_title(self.projects_view(), title@).unwrap(),
    {
        let ghost ps = self.projects@;
        let mut i: usize = self.projects.len();
        assert(ps.take(i as int) =~= ps);
        while i > 0
            invariant
                ps == self.projects@,
                i <= ps.len(),
                find_title(ps, title@) == find_title(ps.take(i as int), title@),
            decreases i,
        {
            assert(ps.take(i as int).drop_last() =~= ps.take(i - 1));
            assert(ps.take(i as int).last() == ps[i - 1]);
            if text_eq(self.projects[i - 1].title.as_str(), title) {
                return Some(i - 1);
            }
            i = i - 1;
        }
        None
    }

    /// The position of the active workspace.
    pub fn active_position(&self) -> (r: Option<usize>)
        ensures
            r is Some <==> self.active_index() is Some,
            r is Some ==> r.unwrap() == self.active_index().unwrap(),
    {
        match &self.active {
            Some(t) => self.find_project(t.as_str()),
            None => None,
        }
    }

    /// The active workspace.
    pub fn active_project(&self) -> (r: Option<&ProjectTab>)
        requires
            self.wf(),
        ensures
            r is Some <==> self.active_index() is Some,
            r is Some ==> *r.unwrap() == self.projects_view()[self.active_index().unwrap()],
    {
        match self.active_position() {
            Some(i) => {
                proof {
                    lemma_find_title(self.projects@, self.active_view().unwrap());
                }
                Some(&self.projects[i])
            },
            None => None,
        }
    }

    /// Whether no workspace is active.
    pub fn project_uninit(&self) -> (r: bool)
        ensures
            r == self.active_index() is None,
    {
        self.active_position().is_none()
    }

    fn active_editor(&self) -> (r: Option<PaneId>)
        requires
            self.wf(),
        ensures
            r == (match self.active_index() {
                Some(i) => self.projects_view()[i].editor_pane_id,
                None => None,
            }),
    {
        match self.active_project() {
            Some(p) => p.editor_pane_id,
            None => None,
        }
    }

    /// Applies a change of focus to `focus` in the workspace at `i`.
    pub fn on_focus_change(&mut self, i: usize, focus: PaneFocus) -> (r: Vec<HostAction>)
        requires
            old(self).wf(),
            i < old(self).projects_view().len(),
        ensures
            final(self).wf(),
            final(self).projects_view().len() == old(self).projects_view().len(),
            forall|j: int|
                0 <= j < old(self).projects_view().len() && j != i ==> final(self).projects_view()[j] == old(self).projects_view()[j],
            focused_tab(
                old(self).projects_view()[i as int],
                final(self).projects_view()[i as int],
                focus,
                old(self).queue_state().focus,
            ),
            r@ == focus_actions(
                old(self).projects_view()[i as int],
                focus,
                old(self).queue_state().focus,
            ),
            final(self).projects_view()[i as int].position == old(self).projects_view()[i as int].position,
            final(self).projects_view()[i as int].floating == old(self).projects_view()[i as int].floating,
            final(self).queue_state().focus.len() == 0,
            final(self).queue_state().timers == old(self).queue_state().timers,
            final(self).queue_state().armed == old(self).queue_state().armed,
            final(self).active_view() == old(self).active_view(),
            final(self).started_view() == old(self).started_view(),
            final(self).client_id_view() == old(self).client_id_view(),
            final(self).plugin_view() == old(self).plugin_view(),
            final(self).alphabet_view() == old(self).alphabet_view(),
            final(self).root_config_view() == old(self).root_config_view(),
            final(self).options_view() == old(self).options_view(),
    {
        let ghost ps = self.projects@;
        let ghost items = self.command_queue.state().focus;
        let id = focus.id();
        let mut tab = self.projects.remove(i);
        assert(tab == ps[i as int]);
        let ghost t0 = tab;
        let mut actions: Vec<HostAction> = Vec::new();
        let ghost mut k: int = 0;
        assert(items.take(0) =~= Seq::<QueuedFocusCommand>::empty());
        assert(items.skip(0) =~= items);
        loop
            invariant
                self.projects@ == ps.remove(i as int),
                self.active == old(self).active,
                self.started == old(self).started,
                self.msg_client_id == old(self).msg_client_id,
                self.plugin_id == old(self).plugin_id,
                self.alphabet == old(self).alphabet,
                self.root_config == old(self).root_config,
                self.project_options == old(self).project_options,
                self.command_queue.wf(),
                0 <= k,
                self.command_queue.state().focus == items.skip(k as int),
                self.command_queue.state().timers == old(self).command_queue.state().timers,
                self.command_queue.state().armed == old(self).command_queue.state().armed,
                k <= items.len(),
                tab.wf(),
                (tab.keybind_panes@, tab.terminal_panes@, actions@) == apply_focus_items(
                    t0.keybind_panes@,
                    t0.terminal_panes@,
                    items.take(k as int),
                    id,
                ),
                tab.title == t0.title,
                tab.position == t0.position,
                tab.editor_pane_id == t0.editor_pane_id,
                tab.floating == t0.floating,
                tab.current_focus == t0.current_focus,
                tab.previous_focus == t0.previous_focus,
                tab.last_editor == t0.last_editor,
                tab.focused_panes == t0.focused_panes,
                tab.dash_panes == t0.dash_panes,
                tab.labels@ == t0.labels@,
                tab.status_panes@ == t0.status_panes@,
                tab.spawned_extra_term_count == t0.spawned_extra_term_count,
            ensures
                self.projects@ == ps.remove(i as int),
                self.active == old(self).active,
                self.started == old(self).started,
                self.msg_client_id == old(self).msg_client_id,
                self.plugin_id == old(self).plugin_id,
                self.alphabet == old(self).alphabet,
                self.root_config == old(self).root_config,
                self.project_options == old(self).project_options,
                self.command_queue.wf(),
                self.command_queue.state().focus.len() == 0,
                self.command_queue.state().timers == old(self).command_queue.state().timers,
                self.command_queue.state().armed == old(self).command_queue.state().armed,
                tab.wf(),
                (tab.keybind_panes@, tab.terminal_panes@, actions@) == apply_focus_items(
                    t0.keybind_panes@,
                    t0.terminal_panes@,
                    items,
                    id,
                ),
                tab.title == t0.title,
                tab.position == t0.position,
                tab.editor_pane_id == t0.editor_pane_id,
                tab.floating == t0.floating,
                tab.current_focus == t0.current_focus,
                tab.previous_focus == t0.previous_focus,
                tab.last_editor == t0.last_editor,
                tab.focused_panes == t0.focused_panes,
                tab.dash_panes == t0.dash_panes,
                tab.labels@ == t0.labels@,
                tab.status_panes@ == t0.status_panes@,
                tab.spawned_extra_term_count == t0.spawned_extra_term_count,
            decreases self.command_queue.state().focus.len(),
        {
            let item = self.command_queue.dequeue_focus_command();
            match item {
                None => {
                    assert(items.take(k as int) =~= items);
                    break;
                },
                Some(item) => {
                    assert(k < items.len());
                    assert(items.skip(k as int)[0] == item);
                    assert(items.skip(k as int).drop_first() =~= items.skip(k + 1));
                    assert(items.take(k + 1).drop_last() =~= items.take(k as int));
                    assert(items.take(k + 1).last() == item);
                    match item {
                        QueuedFocusCommand::MarkKeybindPane(role) => {
                            let ri = role.index();
                            if tab.keybind_panes[ri].is_none() {
                                tab.keybind_panes.set(ri, Some(id));
                            }
                        },
                        QueuedFocusCommand::RenamePane(new_name) => {
                            actions.push(HostAction::Rename(id, new_name));
                        },
                        QueuedFocusCommand::MarkTerminalPane(title) => {
                            tab.terminal_panes.insert_if_absent(id, title);
                        },
                    }
                    proof {
                        k = k + 1;
                    }
                },
            }
        }
        let ghost k1 = tab.keybind_panes@;
        let is_editor = tab.is_editor(id);
        let initialized = tab.editor_pane_id.is_some();
        if is_editor && initialized {
            if let Some(last) = tab.last_editor {
                if last != id {
                    actions.push(HostAction::Hide(last));
                }
            }
        }
        if is_editor {
            tab.last_editor = Some(id);
        }
        tab.previous_focus = tab.current_focus;
        tab.current_focus = Some(focus);
        let si = KeybindPane::StatusPaneDash.index();
        if let Some(s) = tab.keybind_panes[si] {
            if s != id {
                actions.push(HostAction::Close(s));
                tab.keybind_panes.set(si, None);
            }
        }
        proof {
            let (_k, _t, a) = apply_focus_items(t0.keybind_panes@, t0.terminal_panes@, items, id);
            assert(actions@ =~= a + hide_actions(
                editor_hide(t0.last_editor, id, dash_editor(t0.dash_panes@, id), t0.editor_pane_id is Some),
            ) + status_close(k1, id));
            assert(tab.keybind_panes@ =~= status_reset(k1, id));
        }
        self.projects.insert(i, tab);
        assert(self.projects@ =~= ps.update(i as int, tab));
        assert(titles_unique(self.projects@)) by {
            assert forall|a: int, b: int|
                0 <= a < self.projects@.len() && 0 <= b < self.projects@.len() && a != b implies self.projects@[a].title@
                != self.projects@[b].title@ by {
                assert(ps[a].title@ != ps[b].title@);
            }
        }
        actions
    }

    /// Takes the first focused pane of the last report that changes the focus
    /// of the workspace at `i`, if there is one.
    pub fn check_focus_change(&mut self, i: usize) -> (r: Vec<HostAction>)
        requires
            old(self).wf(),
            i < old(self).projects_view().len(),
        ensures
            final(self).wf(),
            final(self).projects_view().len() == old(self).projects_view().len(),
            forall|j: int|
                0 <= j < old(self).projects_view().len() && j != i ==> final(self).projects_view()[j]
                    == old(self).projects_view()[j],
            final(self).active_view() == old(self).active_view(),
            final(self).started_view() == old(self).started_view(),
            final(self).client_id_view() == old(self).client_id_view(),
            final(self).plugin_view() == old(self).plugin_view(),
            final(self).alphabet_view() == old(self).alphabet_view(),
            final(self).root_config_view() == old(self).root_config_view(),
            final(self).options_view() == old(self).options_view(),
            final(self).queue_state().timers == old(self).queue_state().timers,
            final(self).queue_state().armed == old(self).queue_state().armed,
            final(self).projects_view()[i as int].position == old(self).projects_view()[i as int].position,
            final(self).projects_view()[i as int].floating == old(self).projects_view()[i as int].floating,
            ({
                let t = old(self).projects_view()[i as int];
                match first_change(t.focused_panes@, t.floating, t.current_focus) {
                    Some(f) => focused_tab(
                        t,
                        final(self).projects_view()[i as int],
                        f,
                        old(self).queue_state().focus,
                    ) && r@ == focus_actions(t, f, old(self).queue_state().focus)
                        && final(self).queue_state().focus.len() == 0,
                    None => final(self).projects_view()[i as int] == t && r@.len() == 0
                        && final(self).queue_state().focus == old(self).queue_state().focus,
                }
            }),
    {
        match self.projects[i].find_focus_change() {
            Some(f) => self.on_focus_change(i, f),
            None => Vec::new(),
        }
    }

    /// Routes a report of the panes of every tab: only the panes of the
    /// active workspace's tab are read; without an active workspace the
    /// report is refused.  Records the panes (the first pane titled "editor"
    /// initialises the workspace), follows the focus, clears the roles of
    /// panes whose command ended, and refreshes the status list and labels.
    pub fn handle_pane_update(&mut self, manifest: &Vec<(usize, Vec<PaneInfo>)>) -> (r: Vec<HostAction>)
        requires
            old(self).wf(),
        ensures
            final(self).wf(),
            final(self).options_view() == old(self).options_view(),
            final(self).client_id_view() == old(self).client_id_view(),
            final(self).plugin_view() == old(self).plugin_view(),
            final(self).alphabet_view() == old(self).alphabet_view(),
            final(self).root_config_view() == old(self).root_config_view(),
            final(self).started_view() == old(self).started_view(),
            old(self).active_index() is None ==> r@.len() == 0 && final(self).unchanged_from(
                *old(self),
            ),
            final(self).active_view() == old(self).active_view(),
            final(self).projects_view().len() == old(self).projects_view().len(),
            final(self).queue_state().timers == old(self).queue_state().timers,
            final(self).queue_state().armed == old(self).queue_state().armed,
            old(self).active_index() is None ==> r@.len() == 0 && final(self).projects_view()
                == old(self).projects_view(),
            old(self).active_index() matches Some(i) ==> {
                let t = old(self).projects_view()[i];
                let n = final(self).projects_view()[i];
                &&& forall|j: int|
                    0 <= j < old(self).projects_view().len() && j != i ==> final(self).projects_view()[j]
                        == old(self).projects_view()[j]
                &&& match panes_at(manifest@, t.position) {
                    None => r@.len() == 0 && n == t,
                    Some(ps) => {
                        let dps = register_all(t.dash_panes@, ps);
                        let ed = if t.editor_pane_id is Some {
                            t.editor_pane_id
                        } else {
                            first_editor(ps)
                        };
                        let items = old(self).queue_state().focus;
                        let change = first_change(focused_of(ps), t.floating, t.current_focus);
                        let kb_f = match change {
                            Some(f) => focus_roles(t.keybind_panes@, t.terminal_panes@, f, items),
                            None => t.keybind_panes@,
                        };
                        &&& n.title == t.title
                        &&& n.position == t.position
                        &&& n.floating == t.floating
                        &&& n.editor_pane_id == ed
                        &&& n.dash_panes@ == dps
                        &&& n.focused_panes@ == focused_of(ps)
                        &&& n.status_panes@ == status_update(
                            t.status_panes@,
                            ps,
                            old(self).plugin_view(),
                        )
                        &&& n.labels@ == assign_spec(
                            label_panes(ps, dps, old(self).plugin_view()),
                            old(self).alphabet_view(),
                            t.labels@,
                        )
                        &&& n.keybind_panes@ == exited_roles(kb_f, ps).0
                        &&& n.spawned_extra_term_count == t.spawned_extra_term_count
                        &&& match change {
                            Some(f) => {
                                &&& n.current_focus == Some(f)
                                &&& n.previous_focus == t.current_focus
                                &&& n.last_editor == editor_after(
                                    t.last_editor,
                                    focus_id(f),
                                    dash_editor(dps, focus_id(f)),
                                )
                                &&& n.terminal_panes@ == apply_focus_items(
                                    t.keybind_panes@,
                                    t.terminal_panes@,
                                    items,
                                    focus_id(f),
                                ).1
                                &&& r@ == focus_actions_of(
                                    t.keybind_panes@,
                                    t.terminal_panes@,
                                    t.last_editor,
                                    dps,
                                    ed,
                                    f,
                                    items,
                                ) + exited_roles(kb_f, ps).1
                            },
                            None => {
                                &&& n.current_focus == t.current_focus
                                &&& n.previous_focus == t.previous_focus
                                &&& n.last_editor == t.last_editor
                                &&& n.terminal_panes@ == t.terminal_panes@
                                &&& r@ == exited_roles(kb_f, ps).1
                            },
                        }
                    },
                }
            },
    {
        let i = match self.active_position() {
            Some(i) => i,
            None => {
                return Vec::new();
            },
        };
        proof {
            lemma_find_title(self.projects@, self.active_view().unwrap());
        }
        let ghost ps0 = self.projects@;
        let ghost t = ps0[i as int];
        let pos = self.projects[i].position;
        let ghost m = manifest@;
        let mut k: usize = 0;
        assert(m.skip(0) =~= m);
        while k < manifest.len() && manifest[k].0 != pos
            invariant
                m == manifest@,
                k <= m.len(),
                panes_at(m, pos) == panes_at(m.skip(k as int), pos),
            decreases m.len() - k,
        {
            assert(m.skip(k as int)[0] == m[k as int]);
            assert(m.skip(k as int).drop_first() =~= m.skip(k + 1));
            k = k + 1;
        }
        if k == manifest.len() {
            assert(m.skip(k as int) =~= Seq::<(usize, Vec<PaneInfo>)>::empty());
            return Vec::new();
        }
        assert(m.skip(k as int)[0] == m[k as int]);
        let panes = &manifest[k].1;
        let ghost ps = panes@;
        let mut tab = self.projects.remove(i);
        tab.register_panes(panes);
        tab.focused_panes = focused_panes_of(panes);
        self.projects.insert(i, tab);
        assert(self.projects@ =~= ps0.update(i as int, self.projects@[i as int]));
        assert(titles_unique(self.projects@)) by {
            assert forall|a: int, b: int|
                0 <= a < self.projects@.len() && 0 <= b < self.projects@.len() && a != b implies self.projects@[a].title@
                != self.projects@[b].title@ by {
                assert(ps0[a].title@ != ps0[b].title@);
            }
        }
        let ghost ps1 = self.projects@;
        let mut actions = self.check_focus_change(i);
        let ghost ps2 = self.projects@;
        let mut tab = self.projects.remove(i);
        let mut exits = tab.remove_exited_roles(panes);
        tab.update_status_panes(panes, self.plugin_id);
        tab.refresh_labels(panes, self.plugin_id, &self.alphabet);
        self.projects.insert(i, tab);
        assert(self.projects@ =~= ps2.update(i as int, self.projects@[i as int]));
        assert(titles_unique(self.projects@)) by {
            assert forall|a: int, b: int|
                0 <= a < self.projects@.len() && 0 <= b < self.projects@.len() && a != b implies self.projects@[a].title@
                != self.projects@[b].title@ by {
                assert(ps2[a].title@ != ps2[b].title@);
            }
        }
        actions.append(&mut exits);
        actions
    }

    /// Reconciles the workspaces with the host's tab list.  A new workspace
    /// tab title makes a new, uninitialised workspace with that tab's layer
    /// flag, and an existing one takes the tab's position; the first new
    /// workspace ever also hides the plugin and asks for the project root
    /// configuration.  Workspaces whose title no workspace tab has are
    /// dropped with all their state; the project picker's tab is no
    /// workspace.  The last active tab's workspace becomes the active one and
    /// takes the tab's layer flag; when the flag changes, the focus is
    /// checked again over the focused panes of its last report.  No other
    /// workspace changes but for its position.
    pub fn handle_tab_update(&mut self, tabs: &Vec<TabInfo>) -> (r: Vec<HostAction>)
        requires
            old(self).wf(),
        ensures
            final(self).wf(),
            forall|k: int|
                0 <= k < tabs@.len() && is_workspace_tab(#[trigger] tabs@[k]) ==> find_title(
                    final(self).projects_view(),
                    tabs@[k].name@,
                ) is Some,
            forall|i: int|
                0 <= i < final(self).projects_view().len() ==> names_ws_tab(
                    tabs@,
                    (#[trigger] final(self).projects_view()[i]).title@,
                ),
            final(self).started_view() == (old(self).started_view() || any_new(
                tabs@,
                old(self).projects_view(),
            )),
            final(self).client_id_view() == old(self).client_id_view(),
            final(self).plugin_view() == old(self).plugin_view(),
            final(self).alphabet_view() == old(self).alphabet_view(),
            final(self).root_config_view() == old(self).root_config_view(),
            final(self).options_view() == old(self).options_view(),
            final(self).queue_state().timers == old(self).queue_state().timers,
            final(self).queue_state().armed == old(self).queue_state().armed,
            ({
                let o = old(self).projects_view();
                let f = final(self).projects_view();
                let st = startup_actions(old(self).started_view(), any_new(tabs@, o));
                match last_active_idx(tabs@) {
                    None => {
                        &&& r@ == st
                        &&& final(self).queue_state() == old(self).queue_state()
                        &&& forall|i: int|
                            0 <= i < f.len() ==> kept_or_fresh(o, #[trigger] f[i], tabs@)
                        &&& final(self).active_view() == (if old(self).active_view() is Some
                            && find_title(f, old(self).active_view().unwrap()) is Some {
                            old(self).active_view()
                        } else {
                            None
                        })
                    },
                    Some(x) => {
                        let nm = tabs@[x].name@;
                        let fl = tabs@[x].are_floating_panes_visible;
                        let a = find_title(f, nm).unwrap();
                        let items = old(self).queue_state().focus;
                        &&& final(self).active_view() == Some(nm)
                        &&& f[a].floating == fl
                        &&& forall|i: int|
                            0 <= i < f.len() && i != a ==> kept_or_fresh(o, #[trigger] f[i], tabs@)
                        &&& match find_title(o, nm) {
                            None => is_fresh(f[a]) && r@ == st && final(self).queue_state()
                                == old(self).queue_state(),
                            Some(j) => {
                                let w = o[j];
                                if w.floating == fl {
                                    same_maps(w, f[a]) && same_focus(w, f[a]) && r@ == st
                                        && final(self).queue_state() == old(self).queue_state()
                                } else {
                                    match first_change(w.focused_panes@, fl, w.current_focus) {
                                        Some(c) => focused_tab(w, f[a], c, items) && r@ == st
                                            + focus_actions(w, c, items)
                                            && final(self).queue_state().focus.len() == 0,
                                        None => same_maps(w, f[a]) && same_focus(w, f[a]) && r@
                                            == st && final(self).queue_state()
                                            == old(self).queue_state(),
                                    }
                                }
                            },
                        }
                    },
                }
            }),
    {
        let ghost old_ps = self.projects@;
        let ghost n0 = old_ps.len();
        let mut new_workspace = false;
        let mut k: usize = 0;
        while k < tabs.len()
            invariant
                self.wf(),
                old_ps == old(self).projects@,
                n0 == old_ps.len(),
                k <= tabs@.len(),
                self.projects@.len() >= n0,
                self.active == old(self).active,
                self.started == old(self).started,
                self.msg_client_id == old(self).msg_client_id,
                self.plugin_id == old(self).plugin_id,
                self.alphabet == old(self).alphabet,
                self.command_queue == old(self).command_queue,
                self.root_config == old(self).root_config,
                self.project_options == old(self).project_options,
                forall|j: int|
                    #![trigger self.projects@[j]]
                    0 <= j < n0 ==> same_maps(old_ps[j], self.projects@[j]) && same_focus(
                        old_ps[j],
                        self.projects@[j],
                    ) && self.projects@[j].floating == old_ps[j].floating,
                forall|j: int|
                    #![trigger self.projects@[j]]
                    n0 <= j < self.projects@.len() ==> is_fresh(self.projects@[j]) && find_title(
                        old_ps,
                        self.projects@[j].title@,
                    ) is None && exists|x: int|
                        0 <= x < k && tabs@[x].name@ == self.projects@[j].title@
                            && tabs@[x].are_floating_panes_visible == self.projects@[j].floating,
                forall|x: int|
                    0 <= x < k && is_workspace_tab(#[trigger] tabs@[x]) ==> find_title(
                        self.projects@,
                        tabs@[x].name@,
                    ) is Some,
                new_workspace == exists|x: int|
                    0 <= x < k && is_workspace_tab(tabs@[x]) && find_title(old_ps, tabs@[x].name@)
                        is None,
            decreases tabs@.len() - k,
        {
            let tab = &tabs[k];
            let ghost before = self.projects@;
            proof {
                lemma_find_title(old_ps, tab.name@);
                lemma_find_title(before, tab.name@);
            }
            if !text_eq(tab.name.as_str(), PROJECT_PICKER_PLUGIN_NAME) {
                match self.find_project(tab.name.as_str()) {
                    None => {
                        proof {
                            if find_title(old_ps, tab.name@) is Some {
                                let j = find_title(old_ps, tab.name@).unwrap();
                                assert(before[j].title == old_ps[j].title);
                                lemma_find_title_some(before, tab.name@, j);
                            }
                        }
                        let t = ProjectTab::new(
                            tab.name.clone(),
                            tab.position,
                            tab.are_floating_panes_visible,
                        );
                        self.projects.push(t);
                        new_workspace = true;
                        proof {
                            assert(titles_unique(self.projects@)) by {
                                assert forall|a: int, b: int|
                                    0 <= a < self.projects@.len() && 0 <= b < self.projects@.len()
                                        && a != b implies self.projects@[a].title@
                                    != self.projects@[b].title@ by {
                                    if a < before.len() && b < before.len() {
                                        assert(before[a].title@ != before[b].title@);
                                    } else if a < before.len() {
                                        assert(self.projects@[a] == before[a]);
                                    } else if b < before.len() {
                                        assert(self.projects@[b] == before[b]);
                                    }
                                }
                            }
                            assert(self.projects@.drop_last() == before);
                            assert(find_title(self.projects@, tab.name@) is Some);
                            assert forall|x: int|
                                0 <= x <= k && is_workspace_tab(#[trigger] tabs@[x]) implies find_title(
                                self.projects@,
                                tabs@[x].name@,
                            ) is Some by {
                                if tabs@[x].name@ != tab.name@ {
                                    assert(find_title(before, tabs@[x].name@) is Some);
                                }
                            }
                            assert(tabs@[k as int].name@ == self.projects@[before.len() as int].title@);
                            assert(is_workspace_tab(tabs@[k as int]));
                        }
                    },
                    Some(j) => {
                        let mut t = self.projects.remove(j);
                        t.position = tab.position;
                        self.projects.insert(j, t);
                        assert(self.projects@ =~= before.update(j as int, self.projects@[j as int]));
                        proof {
                            assert(titles_unique(self.projects@)) by {
                                assert forall|a: int, b: int|
                                    0 <= a < self.projects@.len() && 0 <= b < self.projects@.len()
                                        && a != b implies self.projects@[a].title@
                                    != self.projects@[b].title@ by {
                                    assert(before[a].title@ != before[b].title@);
                                }
                            }
                            assert forall|x: int|
                                0 <= x <= k && is_workspace_tab(#[trigger] tabs@[x]) implies find_title(
                                self.projects@,
                                tabs@[x].name@,
                            ) is Some by {
                                lemma_find_title(before, tabs@[x].name@);
                                if x < k {
                                    let w = find_title(before, tabs@[x].name@).unwrap();
                                    lemma_find_title_some(self.projects@, tabs@[x].name@, w);
                                } else {
                                    lemma_find_title_some(self.projects@, tabs@[x].name@, j as int);
                                }
                            }
                            if find_title(old_ps, tab.name@) is None {
                                assert(j >= n0) by {
                                    if j < n0 {
                                        assert(before[j as int].title == old_ps[j as int].title);
                                        lemma_find_title_some(old_ps, tab.name@, j as int);
                                    }
                                }
                                let x = choose|x: int|
                                    0 <= x < k && tabs@[x].name@ == before[j as int].title@
                                        && tabs@[x].are_floating_panes_visible
                                        == before[j as int].floating;
                                assert(is_workspace_tab(tabs@[x]));
                            }
                        }
                    },
                }
            }
            proof {
                assert forall|j: int|
                    #![trigger self.projects@[j]]
                    n0 <= j < self.projects@.len() implies is_fresh(self.projects@[j]) && find_title(
                        old_ps,
                        self.projects@[j].title@,
                    ) is None && exists|x: int|
                        0 <= x < k + 1 && tabs@[x].name@ == self.projects@[j].title@
                            && tabs@[x].are_floating_panes_visible == self.projects@[j].floating by {
                    if j < before.len() {
                        let x = choose|x: int|
                            0 <= x < k && tabs@[x].name@ == before[j].title@
                                && tabs@[x].are_floating_panes_visible == before[j].floating;
                        assert(self.projects@[j].title == before[j].title);
                    }
                }
            }
            k = k + 1;
        }
        let ghost mid = self.projects@;
        let mut kept: Vec<ProjectTab> = Vec::new();
        let ghost mut idx: int = 0;
        assert(mid.skip(0) =~= mid);
        assert(mid.take(0) =~= Seq::<ProjectTab>::empty());
        while self.projects.len() > 0
            invariant
                self.active == old(self).active,
                self.started == old(self).started,
                self.msg_client_id == old(self).msg_client_id,
                self.plugin_id == old(self).plugin_id,
                self.alphabet == old(self).alphabet,
                self.command_queue == old(self).command_queue,
                self.root_config == old(self).root_config,
                self.project_options == old(self).project_options,
                0 <= idx <= mid.len(),
                self.projects@ == mid.skip(idx),
                kept@ == keep_present(mid.take(idx), tabs@),
            decreases self.projects@.len(),
        {
            let p = self.projects.remove(0);
            assert(p == mid[idx]);
            assert(mid.skip(idx).drop_first() =~= mid.skip(idx + 1));
            assert(mid.take(idx + 1).drop_last() =~= mid.take(idx));
            assert(mid.take(idx + 1).last() == p);
            let keep = !text_eq(p.title.as_str(), PROJECT_PICKER_PLUGIN_NAME) && tabs_name(
                tabs,
                p.title.as_str(),
            );
            assert(keep == names_ws_tab(tabs@, p.title@)) by {
                if names_tab(tabs@, p.title@) && p.title@ != PROJECT_PICKER_PLUGIN_NAME@ {
                    let x = choose|x: int| 0 <= x < tabs@.len() && tabs@[x].name@ == p.title@;
                    assert(is_workspace_tab(tabs@[x]));
                }
            }
            if keep {
                kept.push(p);
            }
            proof {
                idx = idx + 1;
            }
        }
        assert(mid.take(idx) =~= mid);
        self.projects = kept;
        proof {
            lemma_keep_present(mid, tabs@);
            let fin = self.projects@;
            assert forall|i: int| 0 <= i < fin.len() implies (#[trigger] fin[i]).wf() by {
                let j = choose|j: int| 0 <= j < mid.len() && mid[j] == fin[i];
            }
            assert forall|x: int|
                0 <= x < tabs@.len() && is_workspace_tab(#[trigger] tabs@[x]) implies find_title(
                fin,
                tabs@[x].name@,
            ) is Some by {
                lemma_find_title(mid, tabs@[x].name@);
                let j = find_title(mid, tabs@[x].name@).unwrap();
                assert(names_ws_tab(tabs@, mid[j].title@));
                assert(fin.contains(mid[j]));
                let i = choose|i: int| 0 <= i < fin.len() && fin[i] == mid[j];
                lemma_find_title_some(fin, tabs@[x].name@, i);
            }
            assert forall|i: int| 0 <= i < fin.len() implies kept_or_fresh(
                old_ps,
                #[trigger] fin[i],
                tabs@,
            ) by {
                let j = choose|j: int| 0 <= j < mid.len() && mid[j] == fin[i];
                if j >= n0 {
                    let x = choose|x: int|
                        0 <= x < tabs@.len() && tabs@[x].name@ == mid[j].title@
                            && tabs@[x].are_floating_panes_visible == mid[j].floating;
                }
            }
        }
        let ghost pre = self.projects@;
        let mut actions: Vec<HostAction> = Vec::new();
        if new_workspace && !self.started {
            actions.push(HostAction::HideSelf);
            actions.push(HostAction::RequestProjectRoot);
        }
        if new_workspace {
            self.started = true;
        }
        assert(actions@ =~= startup_actions(old(self).started, any_new(tabs@, old_ps)));
        proof {
            lemma_last_active_idx(tabs@);
        }
        match last_active_index(tabs) {
            None => {
                let present = match &self.active {
                    Some(t) => self.find_project(t.as_str()).is_some(),
                    None => false,
                };
                if !present {
                    self.active = None;
                }
            },
            Some(x) => {
                let tab = &tabs[x];
                self.active = Some(tab.name.clone());
                let ghost nm = tab.name@;
                assert(is_workspace_tab(tabs@[x as int]));
                proof {
                    lemma_find_title(pre, nm);
                    lemma_find_title(old_ps, nm);
                }
                match self.find_project(tab.name.as_str()) {
                    None => {
                        assert(false);
                    },
                    Some(a) => {
                        let ghost pa = pre[a as int];
                        proof {
                            assert(kept_or_fresh(old_ps, pa, tabs@));
                            if let Some(j) = find_title(old_ps, nm) {
                                if !(exists|jj: int|
                                    0 <= jj < old_ps.len() && same_maps(old_ps[jj], pa) && same_focus(
                                        old_ps[jj],
                                        pa,
                                    ) && pa.floating == old_ps[jj].floating) {
                                    assert(false);
                                }
                                let jj = choose|jj: int|
                                    0 <= jj < old_ps.len() && same_maps(old_ps[jj], pa) && same_focus(
                                        old_ps[jj],
                                        pa,
                                    ) && pa.floating == old_ps[jj].floating;
                                lemma_find_title_unique(old_ps, nm, jj);
                                assert(jj == j);
                            } else {
                                if exists|jj: int| 0 <= jj < old_ps.len() && same_maps(old_ps[jj], pa) {
                                    let jj = choose|jj: int| 0 <= jj < old_ps.len() && same_maps(old_ps[jj], pa);
                                    lemma_find_title_some(old_ps, nm, jj);
                                }
                                assert(is_fresh(pa));
                            }
                        }
                        if self.projects[a].floating != tab.are_floating_panes_visible {
                            let mut t = self.projects.remove(a);
                            t.floating = tab.are_floating_panes_visible;
                            self.projects.insert(a, t);
                            assert(self.projects@ =~= pre.update(a as int, self.projects@[a as int]));
                            assert(titles_unique(self.projects@)) by {
                                assert forall|c: int, d: int|
                                    0 <= c < self.projects@.len() && 0 <= d < self.projects@.len()
                                        && c != d implies self.projects@[c].title@
                                    != self.projects@[d].title@ by {
                                    assert(pre[c].title@ != pre[d].title@);
                                }
                            }
                            let ghost mid2 = self.projects@;
                            let mut more = self.check_focus_change(a);
                            actions.append(&mut more);
                            proof {
                                let fin = self.projects@;
                                assert forall|i: int| 0 <= i < fin.len() && i != a implies kept_or_fresh(
                                    old_ps,
                                    #[trigger] fin[i],
                                    tabs@,
                                ) by {
                                    assert(fin[i] == pre[i]);
                                }
                                lemma_find_title_unique(fin, nm, a as int);
                                assert(fin[a as int].title == pre[a as int].title);
                                assert forall|x: int|
                                    0 <= x < tabs@.len() && is_workspace_tab(#[trigger] tabs@[x]) implies find_title(
                                    fin,
                                    tabs@[x].name@,
                                ) is Some by {
                                    lemma_find_title(pre, tabs@[x].name@);
                                    let i = find_title(pre, tabs@[x].name@).unwrap();
                                    if i != a {
                                        assert(fin[i] == pre[i]);
                                    }
                                    lemma_find_title_some(fin, tabs@[x].name@, i);
                                }
                                if is_fresh(pa) {
                                    assert(pa.focused_panes@.len() == 0);
                                    assert(mid2[a as int].focused_panes@ =~= Seq::<PaneFocus>::empty());
                                }
                            }
                        } else {
                            proof {
                                lemma_find_title_unique(self.projects@, nm, a as int);
                            }
                        }
                    },
                }
            },
        }
        actions
    }

    fn project_title_list(&self) -> (r: Vec<String>)
        ensures
            r@.map_values(|s: String| s@) == project_titles(self.projects_view()),
    {
        let mut r: Vec<String> = Vec::new();
        let mut i: usize = 0;
        while i < self.projects.len()
            invariant
                i <= self.projects@.len(),
                r@.len() == i,
                forall|j: int| 0 <= j < i ==> #[trigger] r@[j]@ == self.projects@[j].title@,
            decreases self.projects@.len() - i,
        {
            r.push(self.projects[i].title.clone());
            i = i + 1;
        }
        assert(r@.map_values(|s: String| s@) =~= project_titles(self.projects_view()));
        r
    }

    /// The command of the pane that takes `role` in the workspace at `i`.
    fn spawn_pane_command(&self, i: usize, role: KeybindPane) -> (r: Option<CommandToRun>)
        requires
            self.wf(),
            i < self.projects_view().len(),
        ensures
            opt_command_view(r) == spawn_spec(
                role,
                project_titles(self.projects_view()),
                title_list(self.projects_view()[i as int].status_panes@),
                title_list(self.projects_view()[i as int].terminal_panes@),
                self.client_id_view(),
            ),
    {
        assert(self.projects@[i as int].wf());
        match role {
            KeybindPane::Git => {
                let r = CommandToRun { path: string_of("lazygit"), args: Vec::new() };
                assert(command_view(r).1 =~= Seq::<Seq<char>>::empty());
                Some(r)
            },
            KeybindPane::K9s => {
                let r = CommandToRun { path: string_of("k9s"), args: Vec::new() };
                assert(command_view(r).1 =~= Seq::<Seq<char>>::empty());
                Some(r)
            },
            KeybindPane::Terminal => None,
            KeybindPane::OpenProject => None,
            KeybindPane::ProjectDash => {
                let titles = self.project_title_list();
                let r = get_fzf_pane_cmd(
                    &titles,
                    MessageType::FocusProject.as_str(),
                    self.msg_client_id.as_str(),
                    false,
                );
                assert(command_view(r).1 =~= spawn_spec(
                    role,
                    project_titles(self.projects_view()),
                    title_list(self.projects_view()[i as int].status_panes@),
                    title_list(self.projects_view()[i as int].terminal_panes@),
                    self.client_id_view(),
                ).unwrap().1);
                Some(r)
            },
            KeybindPane::StatusPaneDash => {
                let titles = self.projects[i].status_panes.titles();
                assert(titles@.map_values(|s: String| s@) =~= title_list(
                    self.projects_view()[i as int].status_panes@,
                ));
                let r = get_fzf_pane_cmd(
                    &titles,
                    MessageType::FocusStatusPane.as_str(),
                    self.msg_client_id.as_str(),
                    true,
                );
                assert(command_view(r).1 =~= spawn_spec(
                    role,
                    project_titles(self.projects_view()),
                    title_list(self.projects_view()[i as int].status_panes@),
                    title_list(self.projects_view()[i as int].terminal_panes@),
                    self.client_id_view(),
                ).unwrap().1);
                Some(r)
            },
            KeybindPane::TerminalPaneDash => {
                let titles = self.projects[i].terminal_panes.titles();
                assert(titles@.map_values(|s: String| s@) =~= title_list(
                    self.projects_view()[i as int].terminal_panes@,
                ));
                let r = get_fzf_pane_cmd(
                    &titles,
                    MessageType::FocusTerminalPane.as_str(),
                    self.msg_client_id.as_str(),
                    true,
                );
                assert(command_view(r).1 =~= spawn_spec(
                    role,
                    project_titles(self.projects_view()),
                    title_list(self.projects_view()[i as int].status_panes@),
                    title_list(self.projects_view()[i as int].terminal_panes@),
                    self.client_id_view(),
                ).unwrap().1);
                Some(r)
            },
            KeybindPane::FilePicker => {
                let mut cmd = string_of("yazi --chooser-file /dev/stdout | zellij pipe --plugin wavedash --name ");
                cmd.append(MessageType::OpenFile.as_str());
                cmd.append(" --args '");
                cmd.append(MSG_CLIENT_ID_ARG);
                cmd.append("=");
                cmd.append(self.msg_client_id.as_str());
                cmd.append("'");
                let mut args: Vec<String> = Vec::new();
                args.push(string_of("-c"));
                args.push(cmd);
                let r = CommandToRun { path: string_of("bash"), args };
                assert(command_view(r).1 =~= seq!["-c"@, file_picker_text(self.client_id_view())]);
                Some(r)
            },
        }
    }

    fn focus_editor_pane(&self) -> (r: Vec<HostAction>)
        requires
            self.wf(),
        ensures
            r@ == focus_editor_actions(
                match self.active_index() {
                    Some(i) => self.projects_view()[i].editor_pane_id,
                    None => None,
                },
            ),
    {
        let mut r: Vec<HostAction> = Vec::new();
        if let Some(id) = self.active_editor() {
            r.push(HostAction::Focus(id));
        }
        proof {
            assert(r@ =~= focus_editor_actions(
                match self.active_index() {
                    Some(i) => self.projects_view()[i].editor_pane_id,
                    None => None,
                },
            ));
        }
        r
    }

    /// Acts on a keybind message named `name` for the active workspace: an
    /// unknown name is ignored.  Editor keybinds focus the editor pane and
    /// queue their key strokes; a role keybind focuses the pane that holds
    /// the role, or opens one and marks it once its identity is known; a new
    /// terminal is opened, counted and named.
    pub fn handle_keybind_message(&mut self, name: &str) -> (r: Vec<HostAction>)
        requires
            old(self).wf(),
        ensures
            final(self).wf(),
            final(self).active_view() == old(self).active_view(),
            final(self).options_view() == old(self).options_view(),
            final(self).client_id_view() == old(self).client_id_view(),
            final(self).plugin_view() == old(self).plugin_view(),
            final(self).alphabet_view() == old(self).alphabet_view(),
            final(self).root_config_view() == old(self).root_config_view(),
            final(self).started_view() == old(self).started_view(),
            final(self).projects_view().len() == old(self).projects_view().len(),
            old(self).active_index() is None || keybind_of_name(name@) is None ==> r@.len() == 0
                && final(self).unchanged_from(*old(self)),
            old(self).active_index() matches Some(a) ==> forall|j: int|
                0 <= j < old(self).projects_view().len() && j != a ==> final(self).projects_view()[j]
                    == old(self).projects_view()[j],
            old(self).active_index() is Some ==> ({
                let i = old(self).active_index().unwrap();
                let t = old(self).projects_view()[i];
                let n = final(self).projects_view()[i];
                let q0 = old(self).queue_state();
                let q1 = final(self).queue_state();
                let editor = focus_editor_actions(t.editor_pane_id);
                match keybind_of_name(name@) {
                    None => r@.len() == 0 && n == t && q1 == q0,
                    Some(MessageKeybind::OpenProject) => n == t && q1 == q0 && match old(self).root_config_view() {
                        Some(c) => r@.len() == 1 && r@[0] is RunCommand
                            && r@[0]->RunCommand_0@.map_values(|a: String| a@)
                            == find_repos_args_spec(c.root_path@),
                        None => r@.len() == 0,
                    },
                    Some(MessageKeybind::FocusEditorPane) => n == t && q1 == q0 && r@ == editor,
                    Some(MessageKeybind::HxOpenFile) => n == t && q1.focus == q0.focus
                        && timer_items(q1.timers) == timer_items(q0.timers) + seq![
                        TimerItem::Bytes(seq![27u8]),
                        TimerItem::Bytes(seq![32u8]),
                        TimerItem::Bytes(seq![102u8]),
                    ] && r@ == editor + arm_actions(q0.armed, true),
                    Some(MessageKeybind::HxBufferJumplist) => n == t && q1.focus == q0.focus
                        && timer_items(q1.timers) == timer_items(q0.timers) + seq![
                        TimerItem::Bytes(seq![27u8]),
                        TimerItem::Bytes(seq![2u8]),
                    ] && r@ == editor + arm_actions(q0.armed, true),
                    Some(MessageKeybind::NewTerminal) => {
                        let count = if t.spawned_extra_term_count < usize::MAX {
                            t.spawned_extra_term_count + 1
                        } else {
                            t.spawned_extra_term_count as int
                        };
                        &&& r@ == seq![HostAction::OpenFloating(None)]
                        &&& n.spawned_extra_term_count == count
                        &&& q1.timers == q0.timers
                        &&& q1.armed == q0.armed
                        &&& focus_items(q1.focus) == focus_items(q0.focus) + seq![
                            FocusItem::MarkTerminal(terminal_title(count as nat)),
                            FocusItem::Rename(terminal_title(count as nat)),
                        ]
                    },
                    Some(k) => {
                        let role = role_of_keybind(k).unwrap();
                        &&& n == t
                        &&& q1.timers == q0.timers
                        &&& q1.armed == q0.armed
                        &&& match t.keybind_panes@[role_index(role)] {
                            Some(id) => r@ == seq![HostAction::Focus(id)] && q1.focus == q0.focus,
                            None => {
                                &&& r@.len() == 1
                                &&& r@[0] is OpenFloating
                                &&& opt_command_view(r@[0]->OpenFloating_0) == spawn_spec(
                                    role,
                                    project_titles(old(self).projects_view()),
                                    title_list(t.status_panes@),
                                    title_list(t.terminal_panes@),
                                    old(self).client_id_view(),
                                )
                                &&& focus_items(q1.focus) == focus_items(q0.focus) + seq![
                                    FocusItem::MarkRole(role),
                                    FocusItem::Rename(role_name(role)),
                                ]
                            },
                        }
                    },
                }
            }),
    {
        let i = match self.active_position() {
            Some(i) => i,
            None => {
                return Vec::new();
            },
        };
        proof {
            lemma_find_title(self.projects@, self.active_view().unwrap());
            assert(self.projects@[i as int].wf());
        }
        let ghost q0 = self.command_queue.state();
        let armed_before = self.command_queue.armed();
        let keybind = match MessageKeybind::parse(name) {
            Some(k) => k,
            None => {
                return Vec::new();
            },
        };
        match keybind {
            MessageKeybind::OpenProject => {
                let mut r: Vec<HostAction> = Vec::new();
                if let Some(c) = &self.root_config {
                    r.push(HostAction::RunCommand(find_repos_args(c.root_path.as_str())));
                }
                r
            },
            MessageKeybind::FocusEditorPane => self.focus_editor_pane(),
            MessageKeybind::HxOpenFile => {
                let mut r = self.focus_editor_pane();
                self.command_queue.queue_esc();
                let ghost qa = self.command_queue.state();
                assert(timer_items(qa.timers) =~= timer_items(q0.timers) + seq![TimerItem::Bytes(seq![27u8])]) by {
                    assert(qa.timers.take(q0.timers.len() as int) == q0.timers);
                    assert(qa.timers =~= q0.timers.push(qa.timers.last()));
                }
                self.command_queue.queue_write_bytes(byte_vec(32u8));
                self.command_queue.queue_write_bytes(byte_vec(102u8));
                if !armed_before {
                    r.push(HostAction::SetTimeout);
                }
                proof {
                    let q1 = self.command_queue.state();
                    assert(timer_items(q1.timers) =~= timer_items(q0.timers) + seq![
                        TimerItem::Bytes(seq![27u8]),
                        TimerItem::Bytes(seq![32u8]),
                        TimerItem::Bytes(seq![102u8]),
                    ]);
                }
                r
            },
            MessageKeybind::HxBufferJumplist => {
                let mut r = self.focus_editor_pane();
                self.command_queue.queue_esc();
                let ghost qa = self.command_queue.state();
                assert(timer_items(qa.timers) =~= timer_items(q0.timers) + seq![TimerItem::Bytes(seq![27u8])]) by {
                    assert(qa.timers.take(q0.timers.len() as int) == q0.timers);
                    assert(qa.timers =~= q0.timers.push(qa.timers.last()));
                }
                self.command_queue.queue_write_bytes(byte_vec(2u8));
                if !armed_before {
                    r.push(HostAction::SetTimeout);
                }
                proof {
                    let q1 = self.command_queue.state();
                    assert(timer_items(q1.timers) =~= timer_items(q0.timers) + seq![
                        TimerItem::Bytes(seq![27u8]),
                        TimerItem::Bytes(seq![2u8]),
                    ]);
                }
                r
            },
            MessageKeybind::NewTerminal => {
                let ghost ps = self.projects@;
                let mut tab = self.projects.remove(i);
                if tab.spawned_extra_term_count < usize::MAX {
                    tab.spawned_extra_term_count = tab.spawned_extra_term_count + 1;
                }
                let mut title = string_of("Terminal #");
                push_decimal(&mut title, tab.spawned_extra_term_count);
                self.projects.insert(i, tab);
                assert(self.projects@ =~= ps.update(i as int, self.projects@[i as int]));
                assert(titles_unique(self.projects@)) by {
                    assert forall|a: int, b: int|
                        0 <= a < self.projects@.len() && 0 <= b < self.projects@.len() && a != b implies self.projects@[a].title@
                        != self.projects@[b].title@ by {
                        assert(ps[a].title@ != ps[b].title@);
                    }
                }
                self.command_queue.queue_focus_command(
                    QueuedFocusCommand::MarkTerminalPane(title.clone()),
                );
                self.command_queue.queue_focus_command(QueuedFocusCommand::RenamePane(title));
                proof {
                    let q1 = self.command_queue.state();
                    let c = self.projects@[i as int].spawned_extra_term_count;
                    assert(focus_items(q1.focus) =~= focus_items(q0.focus) + seq![
                        FocusItem::MarkTerminal(terminal_title(c as nat)),
                        FocusItem::Rename(terminal_title(c as nat)),
                    ]);
                }
                let mut r: Vec<HostAction> = Vec::new();
                r.push(HostAction::OpenFloating(None));
                r
            },
            _ => {
                let role = match KeybindPane::try_from(keybind) {
                    Ok(role) => role,
                    Err(_) => {
                        return Vec::new();
                    },
                };
                let mut r: Vec<HostAction> = Vec::new();
                match self.projects[i].keybind_pane(role) {
                    Some(id) => {
                        r.push(HostAction::Focus(id));
                    },
                    None => {
                        let cmd = self.spawn_pane_command(i, role);
                        r.push(HostAction::OpenFloating(cmd));
                        self.command_queue.queue_focus_command(
                            QueuedFocusCommand::MarkKeybindPane(role),
                        );
                        self.command_queue.queue_focus_command(
                            QueuedFocusCommand::RenamePane(string_of(role.pane_name())),
                        );
                        proof {
                            let q1 = self.command_queue.state();
                            assert(focus_items(q1.focus) =~= focus_items(q0.focus) + seq![
                                FocusItem::MarkRole(role),
                                FocusItem::Rename(role_name(role)),
                            ]);
                        }
                    },
                }
                r
            },
        }
    }

    /// The files that a file picker sent, in order.
    fn picked_file_list(payload: &str) -> (r: Vec<String>)
        ensures
            r@.map_values(|s: String| s@) == picked_files(lines_of(payload@)),
    {
        let ls = lines(payload);
        let ghost lv = ls@.map_values(|s: String| s@);
        assert(lv =~= lines_of(payload@));
        let mut r: Vec<String> = Vec::new();
        let mut i: usize = 0;
        assert(lv.take(0) =~= Seq::<Seq<char>>::empty());
        while i < ls.len()
            invariant
                lv == ls@.map_values(|s: String| s@),
                i <= ls@.len(),
                r@.map_values(|s: String| s@) == picked_files(lv.take(i as int)),
            decreases ls@.len() - i,
        {
            let t = trim(ls[i].as_str());
            assert(lv.take(i + 1).drop_last() =~= lv.take(i as int));
            assert(lv.take(i + 1).last() == ls@[i as int]@);
            if t.as_str().unicode_len() > 0 {
                r.push(t);
            }
            i = i + 1;
            assert(r@.map_values(|s: String| s@) =~= picked_files(lv.take(i as int)));
        }
        assert(lv.take(i as int) =~= lv);
        r
    }

    /// Acts on a message sent to the plugin.  Unless a workspace is active
    /// and initialised, only the project root configuration is taken.  Keybind messages go to
    /// `handle_keybind_message`; messages addressed to this plugin's client
    /// id carry a pick-list's selection; the project root configuration is
    /// handed back to be decoded.
    pub fn handle_pipe_message(&mut self, msg: &PipeMessage) -> (r: Vec<HostAction>)
        requires
            old(self).wf(),
        ensures
            final(self).wf(),
            final(self).active_view() == old(self).active_view(),
            final(self).options_view() == old(self).options_view(),
            final(self).client_id_view() == old(self).client_id_view(),
            final(self).plugin_view() == old(self).plugin_view(),
            final(self).alphabet_view() == old(self).alphabet_view(),
            final(self).root_config_view() == old(self).root_config_view(),
            final(self).started_view() == old(self).started_view(),
            msg.source != PipeSource::Keybind && r@.len() == 0 ==> final(self).unchanged_from(
                *old(self),
            ),
            msg.source != PipeSource::Keybind && !(msg.client_id matches Some(c) && c@
                == old(self).client_id_view()) ==> final(self).unchanged_from(*old(self)),
            final(self).projects_view().len() == old(self).projects_view().len(),
            old(self).active_index() matches Some(a) ==> forall|j: int|
                0 <= j < old(self).projects_view().len() && j != a ==> final(self).projects_view()[j]
                    == old(self).projects_view()[j],
            msg.source != PipeSource::Keybind ==> final(self).projects_view() == old(self).projects_view(),
            !old(self).ready() && msg.name@ != PROJECT_ROOT_MESSAGE_NAME@ ==> r@.len() == 0 && final(self).unchanged_from(*old(self)),
            msg.source != PipeSource::Keybind && (old(self).ready() || msg.name@
                == PROJECT_ROOT_MESSAGE_NAME@) ==> ({
                let q0 = old(self).queue_state();
                let q1 = final(self).queue_state();
                let ps = old(self).projects_view();
                if msg.client_id matches Some(c) && c@ == old(self).client_id_view() {
                    match msg.payload {
                        None => r@.len() == 0 && q1 == q0,
                        Some(p) => {
                            let t = ps[old(self).active_index().unwrap()];
                            match message_type_of_name(msg.name@) {
                                None => r@.len() == 0 && q1 == q0,
                                Some(MessageType::OpenFile) => {
                                    let files = picked_files(lines_of(p@));
                                    if files.len() == 0 {
                                        r@.len() == 0 && q1 == q0
                                    } else {
                                        &&& r@ == focus_editor_actions(t.editor_pane_id)
                                            + arm_actions(q0.armed, true)
                                        &&& q1.focus == q0.focus
                                        &&& timer_items(q1.timers) == timer_items(q0.timers)
                                            + open_file_items(files)
                                    }
                                },
                                Some(MessageType::OpenProject) => {
                                    &&& q1 == q0
                                    &&& match picked_index(p@) {
                                        Some(k) if k < old(self).options_view().len() => {
                                            let o = old(self).options_view()[k];
                                            &&& r@.len() == 2
                                            &&& r@[1] == HostAction::CloseFocus
                                            &&& if find_title(ps, o.title@) is Some {
                                                r@[0] is FocusOrCreateTab && r@[0]->FocusOrCreateTab_0@
                                                    == o.title@
                                            } else {
                                                r@[0] is NewTabsWithLayout
                                                    && r@[0]->NewTabsWithLayout_0@ == template_text(
                                                    o.path@,
                                                    o.title@,
                                                    o.task_filter@,
                                                    false,
                                                )
                                            }
                                        },
                                        _ => r@ == seq![HostAction::CloseFocus],
                                    }
                                },
                                Some(MessageType::FocusProject) => {
                                    &&& q1 == q0
                                    &&& if lines_of(p@).len() > 0 && find_title(
                                        ps,
                                        lines_of(p@)[0],
                                    ) is Some {
                                        r@.len() == 1 && r@[0] is FocusOrCreateTab
                                            && r@[0]->FocusOrCreateTab_0@ == lines_of(p@)[0]
                                    } else {
                                        r@.len() == 0
                                    }
                                },
                                Some(MessageType::FocusStatusPane) => match picked_index(p@) {
                                    Some(k) if k < t.status_panes@.len() => {
                                        &&& r@ == seq![HostAction::Focus(t.status_panes@[k].0)]
                                            + arm_actions(q0.armed, true)
                                        &&& q1.focus == q0.focus
                                        &&& timer_items(q1.timers) == timer_items(q0.timers).push(
                                            TimerItem::FocusEditor,
                                        )
                                    },
                                    _ => r@.len() == 0 && q1 == q0,
                                },
                                Some(MessageType::FocusTerminalPane) => {
                                    &&& q1 == q0
                                    &&& match picked_index(p@) {
                                        Some(k) if k < t.terminal_panes@.len() => r@ == seq![
                                            HostAction::Focus(t.terminal_panes@[k].0),
                                        ],
                                        _ => r@.len() == 0,
                                    }
                                },
                            }
                        },
                    }
                } else if msg.name@ == PROJECT_ROOT_MESSAGE_NAME@ {
                    &&& q1 == q0
                    &&& match msg.payload {
                        Some(p) => r@.len() == 1 && r@[0] is LoadRootConfig
                            && r@[0]->LoadRootConfig_0@ == p@,
                        None => r@.len() == 0,
                    }
                } else {
                    r@.len() == 0 && q1 == q0
                }
            }),
    {
        let is_root_msg = text_eq(msg.name.as_str(), PROJECT_ROOT_MESSAGE_NAME);
        let active = self.active_position();
        let ready = match active {
            Some(i) => {
                proof {
                    lemma_find_title(self.projects@, self.active_view().unwrap());
                }
                self.projects[i].editor_pane_id.is_some()
            },
            None => false,
        };
        if !ready && !is_root_msg {
            return Vec::new();
        }
        if msg.source == PipeSource::Keybind {
            if !ready {
                return Vec::new();
            }
            return self.handle_keybind_message(msg.name.as_str());
        }
        let addressed = match &msg.client_id {
            Some(c) => text_eq(c.as_str(), self.msg_client_id.as_str()),
            None => false,
        };
        let ghost q0 = self.command_queue.state();
        if addressed {
            let p = match &msg.payload {
                Some(p) => p,
                None => {
                    return Vec::new();
                },
            };
            let mt = match MessageType::parse(msg.name.as_str()) {
                Some(mt) => mt,
                None => {
                    return Vec::new();
                },
            };
            let i = match active {
                Some(i) => i,
                None => {
                    proof {
                        lemma_root_name_is_no_type();
                    }
                    return Vec::new();
                },
            };
            proof {
                lemma_find_title(self.projects@, self.active_view().unwrap());
                assert(self.projects@[i as int].wf());
            }
            match mt {
                MessageType::OpenFile => {
                    let files = Self::picked_file_list(p.as_str());
                    let ghost fv = files@.map_values(|s: String| s@);
                    if files.len() == 0 {
                        return Vec::new();
                    }
                    let armed_before = self.command_queue.armed();
                    let mut r = self.focus_editor_pane();
                    proof {
                        lemma_root_name_is_no_type();
                        assert(ready);
                        assert(r@.len() == 1);
                    }
                    self.command_queue.queue_esc();
                    proof {
                        let qa = self.command_queue.state();
                        assert(qa.timers.take(q0.timers.len() as int) == q0.timers);
                        assert(qa.timers =~= q0.timers.push(qa.timers.last()));
                        assert(timer_items(qa.timers) =~= timer_items(q0.timers) + open_file_items(
                            fv.take(0),
                        ));
                    }
                    let mut j: usize = 0;
                    while j < files.len()
                        invariant
                            fv == files@.map_values(|s: String| s@),
                            j <= files@.len(),
                            self.command_queue.wf(),
                            self.command_queue.state().armed,
                            self.command_queue.state().focus == q0.focus,
                            timer_items(self.command_queue.state().timers) == timer_items(q0.timers)
                                + open_file_items(fv.take(j as int)),
                            self.projects == old(self).projects,
                            self.active == old(self).active,
                            self.msg_client_id == old(self).msg_client_id,
                            self.plugin_id == old(self).plugin_id,
                            self.alphabet == old(self).alphabet,
                            self.root_config == old(self).root_config,
                            self.project_options == old(self).project_options,
                            self.started == old(self).started,
                        decreases files@.len() - j,
                    {
                        let ghost qb = self.command_queue.state();
                        let mut line = string_of(":open ");
                        line.append(files[j].as_str());
                        let ghost lv = line@;
                        let ghost lc = QueuedTimerCommand::WriteString(line);
                        assert(lv == ":open "@ + fv[j as int]);
                        self.command_queue.queue_write_string(line);
                        self.command_queue.queue_enter();
                        proof {
                            let qc = self.command_queue.state();
                            assert(timer_item(lc) == TimerItem::Chars(lv));
                            assert(timer_item(qc.timers.last()) == TimerItem::Bytes(seq![13u8]));
                            assert(qc.timers.take(qb.timers.len() + 1int) == qb.timers.push(
                                QueuedTimerCommand::WriteString(line),
                            ));
                            assert(qc.timers =~= qb.timers.push(QueuedTimerCommand::WriteString(line)).push(
                                qc.timers.last(),
                            ));
                            assert(fv.take(j + 1).drop_last() =~= fv.take(j as int));
                            assert(fv.take(j + 1).last() == fv[j as int]);
                            assert(timer_items(qc.timers) =~= timer_items(qb.timers) + seq![
                                TimerItem::Chars(lv),
                                TimerItem::Bytes(seq![13u8]),
                            ]);
                            assert(open_file_items(fv.take(j + 1)) == open_file_items(fv.take(j as int))
                                + seq![TimerItem::Chars(":open "@ + fv[j as int]), TimerItem::Bytes(seq![13u8])]);
                            assert(timer_items(qc.timers) =~= timer_items(q0.timers)
                                + open_file_items(fv.take(j + 1)));
                        }
                        j = j + 1;
                    }
                    assert(fv.take(j as int) =~= fv);
                    if !armed_before {
                        r.push(HostAction::SetTimeout);
                    }
                    r
                },
                MessageType::OpenProject => {
                    let mut r: Vec<HostAction> = Vec::new();
                    if let Some(n) = parse_fzf_index(p.as_str()) {
                        if n >= 1 && n - 1 < self.project_options.len() {
                            let o = &self.project_options[n - 1];
                            if self.find_project(o.title.as_str()).is_some() {
                                r.push(HostAction::FocusOrCreateTab(o.title.clone()));
                            } else {
                                r.push(HostAction::NewTabsWithLayout(wavedash_template(o, false)));
                            }
                        }
                    }
                    r.push(HostAction::CloseFocus);
                    r
                },
                MessageType::FocusProject => {
                    let mut r: Vec<HostAction> = Vec::new();
                    if let Some(title) = first_line(p.as_str()) {
                        if self.find_project(title.as_str()).is_some() {
                            r.push(HostAction::FocusOrCreateTab(title));
                        }
                    }
                    r
                },
                MessageType::FocusStatusPane => {
                    let mut r: Vec<HostAction> = Vec::new();
                    if let Some(n) = parse_fzf_index(p.as_str()) {
                        if n >= 1 {
                            if let Some(e) = self.projects[i].status_panes.get_index(n - 1) {
                                r.push(HostAction::Focus(e.0));
                                let arm = self.command_queue.queue_timer_command(
                                    QueuedTimerCommand::FocusEditor,
                                );
                                if arm {
                                    r.push(HostAction::SetTimeout);
                                }
                                proof {
                                    let q1 = self.command_queue.state();
                                    assert(timer_items(q1.timers) =~= timer_items(q0.timers).push(
                                        TimerItem::FocusEditor,
                                    ));
                                }
                            }
                        }
                    }
                    r
                },
                MessageType::FocusTerminalPane => {
                    let mut r: Vec<HostAction> = Vec::new();
                    if let Some(n) = parse_fzf_index(p.as_str()) {
                        if n >= 1 {
                            if let Some(e) = self.projects[i].terminal_panes.get_index(n - 1) {
                                r.push(HostAction::Focus(e.0));
                            }
                        }
                    }
                    r
                },
            }
        } else if is_root_msg {
            let mut r: Vec<HostAction> = Vec::new();
            if let Some(p) = &msg.payload {
                r.push(HostAction::LoadRootConfig(p.clone()));
            }
            r
        } else {
            Vec::new()
        }
    }

    /// Takes the project root configuration, decoded from the message that
    /// carried it.
    pub fn set_root_config(&mut self, conf: ProjectRootConfiguration)
        requires
            old(self).wf(),
        ensures
            final(self).wf(),
            final(self).root_config_view() == Some(conf),
            final(self).projects_view() == old(self).projects_view(),
            final(self).active_view() == old(self).active_view(),
            final(self).queue_state() == old(self).queue_state(),
    {
        self.root_config = Some(conf);
    }

    /// Acts on the result of the repository search: a failed search is
    /// dropped; otherwise the found projects become the options, offered in
    /// a pick-list numbered from 1.  Without a project root configuration
    /// there is nothing to offer.
    pub fn handle_command_result(&mut self, exit_code: Option<i32>, stdout: &[u8]) -> (r: Vec<HostAction>)
        requires
            old(self).wf(),
        ensures
            final(self).wf(),
            final(self).client_id_view() == old(self).client_id_view(),
            final(self).plugin_view() == old(self).plugin_view(),
            final(self).alphabet_view() == old(self).alphabet_view(),
            final(self).root_config_view() == old(self).root_config_view(),
            final(self).started_view() == old(self).started_view(),
            (exit_code matches Some(c) && c != 0) || old(self).root_config_view() is None ==> r@.len()
                == 0 && final(self).unchanged_from(*old(self)),
            final(self).projects_view() == old(self).projects_view(),
            final(self).active_view() == old(self).active_view(),
            final(self).queue_state() == old(self).queue_state(),
            (exit_code matches Some(c) && c != 0) || old(self).root_config_view() is None ==> r@.len()
                == 0 && final(self).options_view() == old(self).options_view(),
            !(exit_code matches Some(c) && c != 0) && old(self).root_config_view() is Some ==> {
                &&& r@.len() == 1
                &&& r@[0] is OpenFloating
                &&& opt_command_view(r@[0]->OpenFloating_0) == Some(
                    (
                        "bash"@,
                        seq![
                            "-c"@,
                            fzf_command_text(
                                join_lines(
                                    final(self).options_view().map_values(
                                        |o: ProjectOption| o.title@,
                                    ),
                                ),
                                message_type_name(MessageType::OpenProject),
                                old(self).client_id_view(),
                                true,
                            ),
                        ],
                    ),
                )
                &&& exists|found: Seq<Seq<char>>|
                    #![auto]
                    crate::config::sorted_texts(found) && found.to_multiset() == lines_of(
                        crate::config::utf8_lossy(stdout@),
                    ).to_multiset() && final(self).options_view().map_values(
                        |o: ProjectOption| option_view(o),
                    ) == (found + crate::config::texts(
                        old(self).root_config_view().unwrap().extra_project_paths@,
                    )).map_values(
                        |p: Seq<char>|
                            crate::config::option_for(old(self).root_config_view().unwrap(), p),
                    )
            },
    {
        if let Some(c) = exit_code {
            if c != 0 {
                return Vec::new();
            }
        }
        let options = match &self.root_config {
            Some(conf) => conf.project_options(stdout),
            None => {
                return Vec::new();
            },
        };
        self.project_options = options;
        let mut titles: Vec<String> = Vec::new();
        let mut i: usize = 0;
        while i < self.project_options.len()
            invariant
                i <= self.project_options@.len(),
                titles@.len() == i,
                forall|j: int| 0 <= j < i ==> #[trigger] titles@[j]@ == self.project_options@[j].title@,
            decreases self.project_options@.len() - i,
        {
            titles.push(self.project_options[i].title.clone());
            i = i + 1;
        }
        assert(titles@.map_values(|s: String| s@) =~= self.project_options@.map_values(
            |o: ProjectOption| o.title@,
        ));
        let cmd = get_fzf_pane_cmd(
            &titles,
            MessageType::OpenProject.as_str(),
            self.msg_client_id.as_str(),
            true,
        );
        let mut r: Vec<HostAction> = Vec::new();
        r.push(HostAction::OpenFloating(Some(cmd)));
        proof {
            assert(command_view(cmd).1 =~= seq![
                "-c"@,
                fzf_command_text(
                    join_lines(self.project_options@.map_values(|o: ProjectOption| o.title@)),
                    message_type_name(MessageType::OpenProject),
                    self.msg_client_id@,
                    true,
                ),
            ]);
        }
        r
    }

    /// One timer tick: applies the first timer item and arms the timer again
    /// while items remain.
    pub fn handle_timer(&mut self) -> (r: Vec<HostAction>)
        requires
            old(self).wf(),
        ensures
            final(self).wf(),
            final(self).queue_state() == tick(old(self).queue_state()),
            r@ == (match tick_item(old(self).queue_state()) {
                Some(item) => timer_action(
                    item,
                    match old(self).active_index() {
                        Some(i) => old(self).projects_view()[i].editor_pane_id,
                        None => None,
                    },
                ),
                None => seq![],
            }) + (if tick(old(self).queue_state()).armed {
                seq![HostAction::SetTimeout]
            } else {
                seq![]
            }),
            final(self).projects_view() == old(self).projects_view(),
            final(self).active_view() == old(self).active_view(),
    {
        let (item, rearm) = self.command_queue.dequeue_timer_command();
        let mut r: Vec<HostAction> = Vec::new();
        match item {
            Some(QueuedTimerCommand::WriteString(s)) => r.push(HostAction::WriteChars(s)),
            Some(QueuedTimerCommand::WriteBytes(b)) => r.push(HostAction::Write(b)),
            Some(QueuedTimerCommand::FocusEditor) => {
                if let Some(id) = self.active_editor() {
                    r.push(HostAction::Focus(id));
                }
            },
            None => {},
        }
        if rearm {
            r.push(HostAction::SetTimeout);
        }
        proof {
            let e = match old(self).active_index() {
                Some(i) => old(self).projects_view()[i].editor_pane_id,
                None => None,
            };
            let expect = (match tick_item(old(self).queue_state()) {
                Some(it) => timer_action(it, e),
                None => seq![],
            }) + (if rearm {
                seq![HostAction::SetTimeout]
            } else {
                seq![]
            });
            assert(r@ =~= expect);
        }
        r
    }
}

} // verus!
