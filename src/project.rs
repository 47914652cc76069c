use crate::host::{info_id, HostAction, PaneInfo};
use crate::keybind::{role_index, KeybindPane, ROLE_COUNT};
use crate::labels::{assign, assign_spec, DashPane, LabelMap};
use crate::pane::{focus_floating, PaneFocus, PaneId};
use crate::text::{ends_with, is_suffix, text_eq};
use crate::titles::{has_id, PaneTitles};
use vstd::prelude::*;

verus! {

/// The state of one workspace (one host tab).
pub struct ProjectTab {
    pub title: String,
    /// The tab's position in the host's tab list.
    pub position: usize,
    /// The pane titled "editor"; unknown until the host reports such a pane,
    /// and until then the workspace is not initialised.
    pub editor_pane_id: Option<PaneId>,
    /// Whether the floating layer is on top.
    pub floating: bool,
    pub current_focus: Option<PaneFocus>,
    pub previous_focus: Option<PaneFocus>,
    /// The editor pane that was focused last: the one editor pane shown.
    pub last_editor: Option<PaneId>,
    /// The focused panes of the last pane report, in its order.
    pub focused_panes: Vec<PaneFocus>,
    /// Every pane seen, with its title and whether it is an editor pane.
    pub dash_panes: Vec<DashPane>,
    pub labels: LabelMap,
    /// Tiled, selectable panes other than the editor, for the pick-list.
    pub status_panes: PaneTitles,
    /// Terminals opened on request, with the titles given to them.
    pub terminal_panes: PaneTitles,
    /// The pane that holds each role, by role index.
    pub keybind_panes: Vec<Option<PaneId>>,
    /// How many terminals were opened on request; names the next one.
    pub spawned_extra_term_count: usize,
}

/// The focus that a reported pane stands for.
pub open spec fn focus_of_info(p: PaneInfo) -> PaneFocus {
    if p.is_floating {
        PaneFocus::Floating(info_id(p))
    } else {
        PaneFocus::Tiled(info_id(p))
    }
}

/// Whether `f` is a change of focus: it is in the layer on top and is not the
/// current focus.
pub open spec fn focus_changes(f: PaneFocus, floating: bool, current: Option<PaneFocus>) -> bool {
    focus_floating(f) == floating && current != Some(f)
}

/// The first of the focused panes that is a change of focus.
pub open spec fn first_change(fps: Seq<PaneFocus>, floating: bool, current: Option<PaneFocus>) -> Option<
    PaneFocus,
>
    decreases fps.len(),
{
    if fps.len() == 0 {
        None
    } else if focus_changes(fps[0], floating, current) {
        Some(fps[0])
    } else {
        first_change(fps.drop_first(), floating, current)
    }
}

/// Whether `id` was classified as an editor pane.
pub open spec fn dash_editor(dps: Seq<DashPane>, id: PaneId) -> bool {
    exists|i: int| 0 <= i < dps.len() && dps[i].id == id && dps[i].editor
}

/// The last position of `id` among the dash panes, or -1.
pub open spec fn dash_find(dps: Seq<DashPane>, id: PaneId) -> int
    decreases dps.len(),
{
    if dps.len() == 0 {
        -1
    } else if dps.last().id == id {
        dps.len() - 1
    } else {
        dash_find(dps.drop_last(), id)
    }
}

/// Records a reported pane: a known pane takes the reported title and keeps
/// its classification; a new pane is an editor pane when titled "editor".
/// The title is the one rule for editor panes, for initialisation and for
/// classification alike: no geometric threshold is stated for the latter.
pub open spec fn register_one(dps: Seq<DashPane>, p: PaneInfo) -> Seq<DashPane> {
    let i = dash_find(dps, info_id(p));
    if i >= 0 {
        dps.update(i, DashPane { title: p.title, id: info_id(p), editor: dps[i].editor })
    } else {
        dps.push(DashPane { title: p.title, id: info_id(p), editor: p.title@ == "editor"@ })
    }
}

pub open spec fn register_all(dps: Seq<DashPane>, panes: Seq<PaneInfo>) -> Seq<DashPane>
    decreases panes.len(),
{
    if panes.len() == 0 {
        dps
    } else {
        register_one(register_all(dps, panes.drop_last()), panes.last())
    }
}

/// The first reported pane titled "editor".
pub open spec fn first_editor(panes: Seq<PaneInfo>) -> Option<PaneId>
    decreases panes.len(),
{
    if panes.len() == 0 {
        None
    } else if panes[0].title@ == "editor"@ {
        Some(info_id(panes[0]))
    } else {
        first_editor(panes.drop_first())
    }
}

/// Whether a reported pane belongs on the pick-list of status panes.
pub open spec fn is_status_pane(p: PaneInfo, plugin_id: PaneId) -> bool {
    p.is_selectable && !p.is_floating && info_id(p) != plugin_id && !is_suffix("-bar"@, p.title@)
        && p.title@ != "editor"@
}

/// Records `t` for `id`: in place when `id` is present, last otherwise.
pub open spec fn titles_upsert(s: Seq<(PaneId, Seq<char>)>, id: PaneId, t: Seq<char>) -> Seq<
    (PaneId, Seq<char>),
> {
    if has_id(s, id) {
        s.update(choose|i: int| 0 <= i < s.len() && s[i].0 == id, (id, t))
    } else {
        s.push((id, t))
    }
}

pub open spec fn status_update(
    s: Seq<(PaneId, Seq<char>)>,
    panes: Seq<PaneInfo>,
    plugin_id: PaneId,
) -> Seq<(PaneId, Seq<char>)>
    decreases panes.len(),
{
    if panes.len() == 0 {
        s
    } else {
        let s0 = status_update(s, panes.drop_last(), plugin_id);
        let p = panes.last();
        if is_status_pane(p, plugin_id) {
            titles_upsert(s0, info_id(p), p.title@)
        } else {
            s0
        }
    }
}

pub open spec fn holds_role(kb: Seq<Option<PaneId>>, id: PaneId) -> bool {
    exists|i: int| 0 <= i < kb.len() && kb[i] == Some(id)
}

pub open spec fn clear_roles(kb: Seq<Option<PaneId>>, id: PaneId) -> Seq<Option<PaneId>> {
    kb.map_values(|o: Option<PaneId>| if o == Some(id) { None } else { o })
}

pub open spec fn has_exited(p: PaneInfo) -> bool {
    p.terminal_command is Some && p.exit_status is Some
}

/// Roles of command panes whose command ended are cleared, and each such
/// pane is closed.
pub open spec fn exited_roles(kb: Seq<Option<PaneId>>, panes: Seq<PaneInfo>) -> (
    Seq<Option<PaneId>>,
    Seq<HostAction>,
)
    decreases panes.len(),
{
    if panes.len() == 0 {
        (kb, seq![])
    } else {
        let (k0, a0) = exited_roles(kb, panes.drop_last());
        let p = panes.last();
        if has_exited(p) && holds_role(k0, info_id(p)) {
            (clear_roles(k0, info_id(p)), a0.push(HostAction::Close(info_id(p))))
        } else {
            (k0, a0)
        }
    }
}

/// Whether a reported pane can be selected by label.
pub open spec fn is_label_pane(p: PaneInfo, plugin_id: PaneId) -> bool {
    p.is_selectable && info_id(p) != plugin_id
}

/// The panes that take labels, with their classification.
pub open spec fn label_panes(panes: Seq<PaneInfo>, dps: Seq<DashPane>, plugin_id: PaneId) -> Seq<
    DashPane,
>
    decreases panes.len(),
{
    if panes.len() == 0 {
        seq![]
    } else {
        let r = label_panes(panes.drop_last(), dps, plugin_id);
        let p = panes.last();
        if is_label_pane(p, plugin_id) {
            r.push(DashPane { title: p.title, id: info_id(p), editor: dash_editor(dps, info_id(p)) })
        } else {
            r
        }
    }
}

impl ProjectTab {
    pub open spec fn wf(&self) -> bool {
        &&& self.status_panes.wf()
        &&& self.terminal_panes.wf()
        &&& self.labels.wf()
        &&& self.keybind_panes@.len() == ROLE_COUNT
    }

    /// A new, uninitialised workspace.
    pub fn new(title: String, position: usize, floating: bool) -> (r: ProjectTab)
        ensures
            r.wf(),
            r.title == title,
            r.position == position,
            r.floating == floating,
            r.editor_pane_id is None,
            r.current_focus is None,
            r.previous_focus is None,
            r.last_editor is None,
            r.focused_panes@.len() == 0,
            r.dash_panes@.len() == 0,
            r.labels@.len() == 0,
            r.status_panes@.len() == 0,
            r.terminal_panes@.len() == 0,
            r.keybind_panes@ == Seq::new(ROLE_COUNT as nat, |i: int| None::<PaneId>),
            r.spawned_extra_term_count == 0,
    {
        let mut kb: Vec<Option<PaneId>> = Vec::new();
        let mut i: usize = 0;
        while i < ROLE_COUNT
            invariant
                i <= ROLE_COUNT,
                kb@ == Seq::new(i as nat, |j: int| None::<PaneId>),
            decreases ROLE_COUNT - i,
        {
            kb.push(None);
            i = i + 1;
            assert(kb@ =~= Seq::new(i as nat, |j: int| None::<PaneId>));
        }
        ProjectTab {
            title,
            position,
            editor_pane_id: None,
            floating,
            current_focus: None,
            previous_focus: None,
            last_editor: None,
            focused_panes: Vec::new(),
            dash_panes: Vec::new(),
            labels: LabelMap::new(),
            status_panes: PaneTitles::new(),
            terminal_panes: PaneTitles::new(),
            keybind_panes: kb,
            spawned_extra_term_count: 0,
        }
    }

    /// Whether the workspace still waits for its editor pane.
    pub fn uninit(&self) -> (r: bool)
        ensures
            r == self.editor_pane_id is None,
    {
        self.editor_pane_id.is_none()
    }

    /// The first focused pane of the last report that is a change of focus.
    pub fn find_focus_change(&self) -> (r: Option<PaneFocus>)
        ensures
            r == first_change(self.focused_panes@, self.floating, self.current_focus),
    {
        let ghost fps = self.focused_panes@;
        let mut i: usize = 0;
        assert(fps.skip(0) =~= fps);
        while i < self.focused_panes.len()
            invariant
                fps == self.focused_panes@,
                i <= fps.len(),
                first_change(fps, self.floating, self.current_focus) == first_change(
                    fps.skip(i as int),
                    self.floating,
                    self.current_focus,
                ),
            decreases fps.len() - i,
        {
            let f = self.focused_panes[i];
            assert(fps.skip(i as int)[0] == f);
            assert(fps.skip(i as int).drop_first() =~= fps.skip(i + 1));
            if f.floating() == self.floating && self.current_focus != Some(f) {
                return Some(f);
            }
            i = i + 1;
        }
        None
    }

    /// Whether `id` was classified as an editor pane.
    pub fn is_editor(&self, id: PaneId) -> (r: bool)
        ensures
            r == dash_editor(self.dash_panes@, id),
    {
        let mut i: usize = 0;
        while i < self.dash_panes.len()
            invariant
                i <= self.dash_panes@.len(),
                forall|j: int|
                    0 <= j < i ==> !(self.dash_panes@[j].id == id && self.dash_panes@[j].editor),
            decreases self.dash_panes@.len() - i,
        {
            if self.dash_panes[i].id == id && self.dash_panes[i].editor {
                return true;
            }
            i = i + 1;
        }
        false
    }

    /// The pane that holds `role`, if any.
    pub fn keybind_pane(&self, role: KeybindPane) -> (r: Option<PaneId>)
        requires
            self.wf(),
        ensures
            r == self.keybind_panes@[role_index(role)],
    {
        self.keybind_panes[role.index()]
    }

    fn dash_position(&self, id: PaneId) -> (r: Option<usize>)
        ensures
            r is Some <==> dash_find(self.dash_panes@, id) >= 0,
            r is Some ==> r.unwrap() == dash_find(self.dash_panes@, id),
            dash_find(self.dash_panes@, id) < self.dash_panes@.len(),
    {
        let ghost dps = self.dash_panes@;
        let mut i: usize = self.dash_panes.len();
        assert(dps.take(i as int) =~= dps);
        proof {
            lemma_dash_find_bounds(dps, id);
        }
        while i > 0
            invariant
                dps == self.dash_panes@,
                i <= dps.len(),
                dash_find(dps, id) == dash_find(dps.take(i as int), id),
                -1 <= dash_find(dps.take(i as int), id) < i,
            decreases i,
        {
            assert(dps.take(i as int).drop_last() =~= dps.take(i - 1));
            assert(dps.take(i as int).last() == dps[i - 1]);
            if self.dash_panes[i - 1].id == id {
                return Some(i - 1);
            }
            proof {
                lemma_dash_find_bounds(dps.take(i - 1), id);
            }
            i = i - 1;
        }
        assert(dps.take(0) =~= Seq::<DashPane>::empty());
        None
    }

    /// Records each reported pane in the dash pane registry, and takes the
    /// first pane titled "editor" as the editor pane if none is known.
    pub fn register_panes(&mut self, panes: &Vec<PaneInfo>)
        requires
            old(self).wf(),
        ensures
            final(self).wf(),
            final(self).dash_panes@ == register_all(old(self).dash_panes@, panes@),
            final(self).editor_pane_id == (if old(self).editor_pane_id is Some {
                old(self).editor_pane_id
            } else {
                first_editor(panes@)
            }),
            final(self).title == old(self).title,
            final(self).position == old(self).position,
            final(self).floating == old(self).floating,
            final(self).current_focus == old(self).current_focus,
            final(self).previous_focus == old(self).previous_focus,
            final(self).last_editor == old(self).last_editor,
            final(self).focused_panes == old(self).focused_panes,
            final(self).labels@ == old(self).labels@,
            final(self).status_panes@ == old(self).status_panes@,
            final(self).terminal_panes@ == old(self).terminal_panes@,
            final(self).keybind_panes@ == old(self).keybind_panes@,
            final(self).spawned_extra_term_count == old(self).spawned_extra_term_count,
    {
        let ghost d0 = self.dash_panes@;
        let ghost ps = panes@;
        let mut i: usize = 0;
        assert(ps.take(0) =~= Seq::<PaneInfo>::empty());
        while i < panes.len()
            invariant
                ps == panes@,
                i <= ps.len(),
                self.dash_panes@ == register_all(d0, ps.take(i as int)),
                self.wf(),
                self.title == old(self).title,
                self.position == old(self).position,
                self.floating == old(self).floating,
                self.current_focus == old(self).current_focus,
                self.previous_focus == old(self).previous_focus,
                self.last_editor == old(self).last_editor,
                self.focused_panes == old(self).focused_panes,
                self.editor_pane_id == old(self).editor_pane_id,
                self.labels@ == old(self).labels@,
                self.status_panes@ == old(self).status_panes@,
                self.terminal_panes@ == old(self).terminal_panes@,
                self.keybind_panes@ == old(self).keybind_panes@,
                self.spawned_extra_term_count == old(self).spawned_extra_term_count,
            decreases ps.len() - i,
        {
            let p = &panes[i];
            let id = p.pane_id();
            assert(ps.take(i + 1).drop_last() =~= ps.take(i as int));
            assert(ps.take(i + 1).last() == ps[i as int]);
            match self.dash_position(id) {
                Some(j) => {
                    let editor = self.dash_panes[j].editor;
                    self.dash_panes.set(j, DashPane { title: p.title.clone(), id, editor });
                },
                None => {
                    let editor = text_eq(p.title.as_str(), "editor");
                    self.dash_panes.push(DashPane { title: p.title.clone(), id, editor });
                },
            }
            i = i + 1;
        }
        assert(ps.take(i as int) =~= ps);
        if self.editor_pane_id.is_none() {
            self.editor_pane_id = find_first_editor(panes);
        }
    }

    /// Records the titles of the reported status panes.
    pub fn update_status_panes(&mut self, panes: &Vec<PaneInfo>, plugin_id: PaneId)
        requires
            old(self).wf(),
        ensures
            final(self).wf(),
            final(self).status_panes@ == status_update(
                old(self).status_panes@,
                panes@,
                plugin_id,
            ),
            final(self).title == old(self).title,
            final(self).position == old(self).position,
            final(self).floating == old(self).floating,
            final(self).editor_pane_id == old(self).editor_pane_id,
            final(self).current_focus == old(self).current_focus,
            final(self).previous_focus == old(self).previous_focus,
            final(self).last_editor == old(self).last_editor,
            final(self).focused_panes == old(self).focused_panes,
            final(self).dash_panes == old(self).dash_panes,
            final(self).labels@ == old(self).labels@,
            final(self).terminal_panes@ == old(self).terminal_panes@,
            final(self).keybind_panes@ == old(self).keybind_panes@,
            final(self).spawned_extra_term_count == old(self).spawned_extra_term_count,
    {
        let ghost s0 = self.status_panes@;
        let ghost ps = panes@;
        let mut i: usize = 0;
        assert(ps.take(0) =~= Seq::<PaneInfo>::empty());
        while i < panes.len()
            invariant
                ps == panes@,
                i <= ps.len(),
                self.status_panes@ == status_update(s0, ps.take(i as int), plugin_id),
                self.wf(),
                self.title == old(self).title,
                self.position == old(self).position,
                self.floating == old(self).floating,
                self.editor_pane_id == old(self).editor_pane_id,
                self.current_focus == old(self).current_focus,
                self.previous_focus == old(self).previous_focus,
                self.last_editor == old(self).last_editor,
                self.focused_panes == old(self).focused_panes,
                self.dash_panes == old(self).dash_panes,
                self.labels@ == old(self).labels@,
                self.terminal_panes@ == old(self).terminal_panes@,
                self.keybind_panes@ == old(self).keybind_panes@,
                self.spawned_extra_term_count == old(self).spawned_extra_term_count,
            decreases ps.len() - i,
        {
            let p = &panes[i];
            let id = p.pane_id();
            assert(ps.take(i + 1).drop_last() =~= ps.take(i as int));
            assert(ps.take(i + 1).last() == ps[i as int]);
            if p.is_selectable && !p.is_floating && id != plugin_id && !ends_with(
                p.title.as_str(),
                "-bar",
            ) && !text_eq(p.title.as_str(), "editor") {
                let ghost before = self.status_panes@;
                self.status_panes.upsert(id, p.title.clone());
                proof {
                    let after = self.status_panes@;
                    if has_id(before, id) {
                        let c = choose|c: int| 0 <= c < before.len() && before[c].0 == id;
                        assert(after == before.update(c, (id, p.title@)));
                    }
                }
            }
            i = i + 1;
        }
        assert(ps.take(i as int) =~= ps);
    }

    /// Clears the roles of command panes whose command ended, and closes
    /// those panes.
    pub fn remove_exited_roles(&mut self, panes: &Vec<PaneInfo>) -> (r: Vec<HostAction>)
        requires
            old(self).wf(),
        ensures
            final(self).wf(),
            (final(self).keybind_panes@, r@) == exited_roles(old(self).keybind_panes@, panes@),
            final(self).title == old(self).title,
            final(self).position == old(self).position,
            final(self).floating == old(self).floating,
            final(self).editor_pane_id == old(self).editor_pane_id,
            final(self).current_focus == old(self).current_focus,
            final(self).previous_focus == old(self).previous_focus,
            final(self).last_editor == old(self).last_editor,
            final(self).focused_panes == old(self).focused_panes,
            final(self).dash_panes == old(self).dash_panes,
            final(self).labels@ == old(self).labels@,
            final(self).status_panes@ == old(self).status_panes@,
            final(self).terminal_panes@ == old(self).terminal_panes@,
            final(self).spawned_extra_term_count == old(self).spawned_extra_term_count,
    {
        let ghost k0 = self.keybind_panes@;
        let ghost ps = panes@;
        let mut actions: Vec<HostAction> = Vec::new();
        let mut i: usize = 0;
        assert(ps.take(0) =~= Seq::<PaneInfo>::empty());
        while i < panes.len()
            invariant
                ps == panes@,
                i <= ps.len(),
                (self.keybind_panes@, actions@) == exited_roles(k0, ps.take(i as int)),
                self.wf(),
                self.title == old(self).title,
                self.position == old(self).position,
                self.floating == old(self).floating,
                self.editor_pane_id == old(self).editor_pane_id,
                self.current_focus == old(self).current_focus,
                self.previous_focus == old(self).previous_focus,
                self.last_editor == old(self).last_editor,
                self.focused_panes == old(self).focused_panes,
                self.dash_panes == old(self).dash_panes,
                self.labels@ == old(self).labels@,
                self.status_panes@ == old(self).status_panes@,
                self.terminal_panes@ == old(self).terminal_panes@,
                self.spawned_extra_term_count == old(self).spawned_extra_term_count,
            decreases ps.len() - i,
        {
            let p = &panes[i];
            let id = p.pane_id();
            assert(ps.take(i + 1).drop_last() =~= ps.take(i as int));
            assert(ps.take(i + 1).last() == ps[i as int]);
            if p.terminal_command.is_some() && p.exit_status.is_some() {
                let held = clear_role_slots(&mut self.keybind_panes, id);
                if held {
                    actions.push(HostAction::Close(id));
                }
            }
            i = i + 1;
        }
        assert(ps.take(i as int) =~= ps);
        actions
    }

    /// Labels the selectable panes of the report other than `plugin_id`.
    pub fn refresh_labels(&mut self, panes: &Vec<PaneInfo>, plugin_id: PaneId, alphabet: &Vec<char>)
        requires
            old(self).wf(),
            alphabet@.len() * alphabet@.len() <= usize::MAX,
        ensures
            final(self).wf(),
            final(self).labels@ == assign_spec(
                label_panes(panes@, old(self).dash_panes@, plugin_id),
                alphabet@,
                old(self).labels@,
            ),
            final(self).title == old(self).title,
            final(self).position == old(self).position,
            final(self).floating == old(self).floating,
            final(self).editor_pane_id == old(self).editor_pane_id,
            final(self).current_focus == old(self).current_focus,
            final(self).previous_focus == old(self).previous_focus,
            final(self).last_editor == old(self).last_editor,
            final(self).focused_panes == old(self).focused_panes,
            final(self).dash_panes == old(self).dash_panes,
            final(self).status_panes@ == old(self).status_panes@,
            final(self).terminal_panes@ == old(self).terminal_panes@,
            final(self).keybind_panes@ == old(self).keybind_panes@,
            final(self).spawned_extra_term_count == old(self).spawned_extra_term_count,
    {
        let ghost ps = panes@;
        let mut visible: Vec<DashPane> = Vec::new();
        let mut i: usize = 0;
        assert(ps.take(0) =~= Seq::<PaneInfo>::empty());
        while i < panes.len()
            invariant
                ps == panes@,
                i <= ps.len(),
                visible@ == label_panes(ps.take(i as int), self.dash_panes@, plugin_id),
            decreases ps.len() - i,
        {
            let p = &panes[i];
            let id = p.pane_id();
            assert(ps.take(i + 1).drop_last() =~= ps.take(i as int));
            assert(ps.take(i + 1).last() == ps[i as int]);
            if p.is_selectable && id != plugin_id {
                let editor = self.is_editor(id);
                visible.push(DashPane { title: p.title.clone(), id, editor });
            }
            i = i + 1;
        }
        assert(ps.take(i as int) =~= ps);
        let labels = assign(&visible, alphabet, &self.labels);
        proof {
            crate::labels::lemma_assign_wf(visible@, alphabet@, self.labels@);
        }
        self.labels = labels;
    }
}

/// Empties every role slot that `id` holds; returns whether it held one.
fn clear_role_slots(kb: &mut Vec<Option<PaneId>>, id: PaneId) -> (held: bool)
    ensures
        held == holds_role(old(kb)@, id),
        held ==> final(kb)@ == clear_roles(old(kb)@, id),
        !held ==> final(kb)@ == old(kb)@,
{
    let ghost k0 = kb@;
    let mut held = false;
    let mut j: usize = 0;
    while j < kb.len()
        invariant
            kb@.len() == k0.len(),
            j <= k0.len(),
            held == (exists|x: int| 0 <= x < j && k0[x] == Some(id)),
            forall|x: int|
                0 <= x < j ==> kb@[x] == (if k0[x] == Some(id) {
                    None
                } else {
                    k0[x]
                }),
            forall|x: int| j <= x < k0.len() ==> kb@[x] == k0[x],
        decreases k0.len() - j,
    {
        if kb[j] == Some(id) {
            assert(k0[j as int] == Some(id));
            kb.set(j, None);
            held = true;
        } else {
            assert(k0[j as int] != Some(id));
        }
        j = j + 1;
    }
    if held {
        assert(kb@ =~= clear_roles(k0, id));
    } else {
        assert(kb@ =~= k0);
    }
    held
}

fn find_first_editor(panes: &Vec<PaneInfo>) -> (r: Option<PaneId>)
    ensures
        r == first_editor(panes@),
{
    let ghost ps = panes@;
    let mut k: usize = 0;
    assert(ps.skip(0) =~= ps);
    while k < panes.len()
        invariant
            ps == panes@,
            k <= ps.len(),
            first_editor(ps) == first_editor(ps.skip(k as int)),
        decreases ps.len() - k,
    {
        assert(ps.skip(k as int)[0] == ps[k as int]);
        assert(ps.skip(k as int).drop_first() =~= ps.skip(k + 1));
        if text_eq(panes[k].title.as_str(), "editor") {
            return Some(panes[k].pane_id());
        }
        k = k + 1;
    }
    None
}

proof fn lemma_dash_find_bounds(dps: Seq<DashPane>, id: PaneId)
    ensures
        -1 <= dash_find(dps, id) < dps.len(),
        dash_find(dps, id) >= 0 ==> dps[dash_find(dps, id)].id == id,
    decreases dps.len(),
{
    if dps.len() > 0 && dps.last().id != id {
        lemma_dash_find_bounds(dps.drop_last(), id);
    }
}

} // verus!
