use crate::config::{
    option_view, ConfigError, ProjectOption, ProjectPickerConfiguration,
    ProjectRootConfiguration,
};
use crate::fzf::{find_repos_args, find_repos_args_spec, fzf_command_text, get_fzf_pane_cmd, parse_fzf_index};
use crate::host::{HostAction, PaneInfo, PipeMessage, PipeSource};
use crate::pane::PaneId;
use crate::registry::{picked_index, PROJECT_PICKER_PLUGIN_NAME, PROJECT_ROOT_MESSAGE_NAME};
use crate::template::{template_text, wavedash_template};
use crate::text::{join_lines, string_of, text_eq};
use vstd::prelude::*;

verus! {

/// The name of the message that carries the picked project's index.
pub const PICK_PROJECT_MESSAGE_NAME: &'static str = "pick_project";

/// Where the project picker stands.
#[derive(Debug, PartialEq, Eq)]
pub enum PickerStatus {
    /// Waiting for the first pane report to start the repository search.
    Init,
    /// Searching or picking; holds whether the pick-list pane was renamed.
    Picking(bool),
    /// A project was opened; holds whether its root configuration was sent.
    Picked(bool),
    /// The configuration was refused, for the reason given.
    InvalidConfig(String),
}

/// The project picker: finds the projects under the configured root, offers
/// them, opens the one picked in a new tab, and hands the root configuration
/// to the plugin of that tab.
pub struct PickerState {
    status: PickerStatus,
    pane_id: PaneId,
    msg_client_id: String,
    cwd: String,
    projects_options: Vec<ProjectOption>,
    config: Option<ProjectPickerConfiguration>,
    root_idx: usize,
}

pub open spec fn titles_of(opts: Seq<ProjectOption>) -> Seq<Seq<char>> {
    opts.map_values(|o: ProjectOption| o.title@)
}

/// The first option whose path is `cwd`.
pub open spec fn option_at(opts: Seq<ProjectOption>, cwd: Seq<char>) -> Option<int>
    decreases opts.len(),
{
    if opts.len() == 0 {
        None
    } else if opts[0].path@ == cwd {
        Some(0)
    } else {
        match option_at(opts.drop_first(), cwd) {
            Some(i) => Some(i + 1),
            None => None,
        }
    }
}

/// The first reported command pane not yet titled as the picker.
pub open spec fn first_command_pane(panes: Seq<PaneInfo>) -> Option<int>
    decreases panes.len(),
{
    if panes.len() == 0 {
        None
    } else if panes[0].terminal_command is Some && panes[0].title@ != PROJECT_PICKER_PLUGIN_NAME@ {
        Some(0)
    } else {
        match first_command_pane(panes.drop_first()) {
            Some(i) => Some(i + 1),
            None => None,
        }
    }
}

/// The pick-list of the projects' titles, numbered from 1.
pub open spec fn selection_text(opts: Seq<ProjectOption>, client_id: Seq<char>) -> Seq<char> {
    fzf_command_text(join_lines(titles_of(opts)), PICK_PROJECT_MESSAGE_NAME@, client_id, true)
}

fn find_command_pane(panes: &Vec<PaneInfo>) -> (r: Option<usize>)
    ensures
        r is Some <==> first_command_pane(panes@) is Some,
        r is Some ==> r.unwrap() == first_command_pane(panes@).unwrap() && r.unwrap() < panes@.len(),
{
    let ghost ps = panes@;
    let mut k: usize = 0;
    assert(ps.skip(0) =~= ps);
    while k < panes.len()
        invariant
            ps == panes@,
            k <= ps.len(),
            first_command_pane(ps) == (match first_command_pane(ps.skip(k as int)) {
                Some(j) => Some(j + k),
                None => None,
            }),
        decreases ps.len() - k,
    {
        assert(ps.skip(k as int)[0] == ps[k as int]);
        assert(ps.skip(k as int).drop_first() =~= ps.skip(k + 1));
        if panes[k].terminal_command.is_some() && !text_eq(
            panes[k].title.as_str(),
            PROJECT_PICKER_PLUGIN_NAME,
        ) {
            return Some(k);
        }
        k = k + 1;
    }
    assert(ps.skip(k as int) =~= Seq::<PaneInfo>::empty());
    None
}

fn find_option(opts: &Vec<ProjectOption>, cwd: &str) -> (r: Option<usize>)
    ensures
        r is Some <==> option_at(opts@, cwd@) is Some,
        r is Some ==> r.unwrap() == option_at(opts@, cwd@).unwrap() && r.unwrap() < opts@.len(),
{
    let ghost os = opts@;
    let mut k: usize = 0;
    assert(os.skip(0) =~= os);
    while k < opts.len()
        invariant
            os == opts@,
            k <= os.len(),
            option_at(os, cwd@) == (match option_at(os.skip(k as int), cwd@) {
                Some(j) => Some(j + k),
                None => None,
            }),
        decreases os.len() - k,
    {
        assert(os.skip(k as int)[0] == os[k as int]);
        assert(os.skip(k as int).drop_first() =~= os.skip(k + 1));
        if text_eq(opts[k].path.as_str(), cwd) {
            return Some(k);
        }
        k = k + 1;
    }
    assert(os.skip(k as int) =~= Seq::<ProjectOption>::empty());
    None
}

impl PickerState {
    pub closed spec fn status_view(&self) -> PickerStatus {
        self.status
    }

    pub closed spec fn pane_view(&self) -> PaneId {
        self.pane_id
    }

    pub closed spec fn options_view(&self) -> Seq<ProjectOption> {
        self.projects_options@
    }

    pub closed spec fn client_id_view(&self) -> Seq<char> {
        self.msg_client_id@
    }

    pub closed spec fn cwd_view(&self) -> Seq<char> {
        self.cwd@
    }

    /// The root configuration in use, if the configuration was accepted.
    pub closed spec fn root_view(&self) -> Option<ProjectRootConfiguration> {
        match self.config {
            Some(c) => Some(c.roots_view()[self.root_idx as int]),
            None => None,
        }
    }

    pub closed spec fn wf(&self) -> bool {
        match self.config {
            Some(c) => c.wf() && self.root_idx < c.roots_view().len(),
            None => true,
        }
    }

    /// Records that the configuration could not be read, for the reason given.
    pub fn refuse(&mut self, message: String)
        requires
            old(self).wf(),
        ensures
            final(self).wf(),
            final(self).status_view() == PickerStatus::InvalidConfig(message),
            final(self).root_view() == old(self).root_view(),
            final(self).options_view() == old(self).options_view(),
            final(self).client_id_view() == old(self).client_id_view(),
    {
        self.status = PickerStatus::InvalidConfig(message);
    }

    /// A picker that waits for its configuration, with a fresh random name.
    pub fn new() -> (r: PickerState)
        ensures
            r.wf(),
            r.status_view() == PickerStatus::Init,
            r.client_id_view().len() == 36,
            r.root_view() is None,
            r.options_view().len() == 0,
    {
        PickerState::with_client_id(crate::registry::fresh_client_id())
    }

    /// A picker that waits for its configuration, named `client_id`.
    pub fn with_client_id(client_id: String) -> (r: PickerState)
        ensures
            r.wf(),
            r.status_view() == PickerStatus::Init,
            r.client_id_view() == client_id@,
            r.root_view() is None,
            r.options_view().len() == 0,
    {
        PickerState {
            status: PickerStatus::Init,
            pane_id: PaneId::Terminal(0),
            msg_client_id: client_id,
            cwd: String::new(),
            projects_options: Vec::new(),
            config: None,
            root_idx: 0,
        }
    }

    pub fn status(&self) -> (r: &PickerStatus)
        ensures
            *r == self.status_view(),
    {
        &self.status
    }

    /// The picker's own pane.
    pub fn pane_id(&self) -> (r: PaneId)
        ensures
            r == self.pane_view(),
    {
        self.pane_id
    }

    pub fn options(&self) -> (r: &Vec<ProjectOption>)
        ensures
            r@ == self.options_view(),
    {
        &self.projects_options
    }

    /// The root configuration in use.
    pub fn project_root(&self) -> (r: Option<&ProjectRootConfiguration>)
        requires
            self.wf(),
        ensures
            r is Some <==> self.root_view() is Some,
            r is Some ==> *r.unwrap() == self.root_view().unwrap(),
    {
        match &self.config {
            Some(c) => Some(&c.root_at(self.root_idx)),
            None => None,
        }
    }

    /// Takes the checked configuration: the root for the directory `cwd` the
    /// picker started in becomes the one in use; a refused configuration
    /// leaves its message to be shown.
    pub fn load(&mut self, conf: Result<ProjectPickerConfiguration, ConfigError>, plugin_id: u32, cwd: String)
        requires
            old(self).wf(),
            conf matches Ok(c) ==> c.wf(),
        ensures
            final(self).wf(),
            final(self).client_id_view() == old(self).client_id_view(),
            final(self).options_view() == old(self).options_view(),
            match conf {
                Ok(c) => {
                    &&& final(self).status_view() == old(self).status_view()
                    &&& final(self).pane_view() == PaneId::Plugin(plugin_id)
                    &&& final(self).cwd_view() == cwd@
                    &&& final(self).root_view() == Some(
                        match crate::config::first_root_for(c.roots_view(), cwd@) {
                            Some(i) => c.roots_view()[i],
                            None => c.roots_view()[c.default_index()],
                        },
                    )
                },
                Err(e) => final(self).status_view() is InvalidConfig && final(self).status_view()->InvalidConfig_0@
                    == "There must be exactly 1 default root, but there're "@ + crate::text::decimal(
                    e->DefaultRootCount_0 as nat,
                ) && final(self).root_view() == old(self).root_view(),
            },
    {
        match conf {
            Ok(c) => {
                self.pane_id = PaneId::Plugin(plugin_id);
                let i = c.root_index(cwd.as_str());
                self.cwd = cwd;
                self.root_idx = i;
                self.config = Some(c);
            },
            Err(e) => {
                self.status = PickerStatus::InvalidConfig(e.message());
            },
        }
    }

    /// The pick-list of the projects.
    fn show_project_selection(&self) -> (r: HostAction)
        ensures
            r is OpenCommandPaneInPlace,
            crate::registry::command_view(r->OpenCommandPaneInPlace_0) == (
                "bash"@,
                seq!["-c"@, selection_text(self.options_view(), self.client_id_view())],
            ),
    {
        let mut titles: Vec<String> = Vec::new();
        let mut i: usize = 0;
        while i < self.projects_options.len()
            invariant
                i <= self.projects_options@.len(),
                titles@.len() == i,
                forall|j: int| 0 <= j < i ==> #[trigger] titles@[j]@ == self.projects_options@[j].title@,
            decreases self.projects_options@.len() - i,
        {
            titles.push(self.projects_options[i].title.clone());
            i = i + 1;
        }
        assert(titles@.map_values(|s: String| s@) =~= titles_of(self.projects_options@));
        let cmd = get_fzf_pane_cmd(&titles, PICK_PROJECT_MESSAGE_NAME, self.msg_client_id.as_str(), true);
        assert(crate::registry::command_view(cmd).1 =~= seq![
            "-c"@,
            selection_text(self.options_view(), self.client_id_view()),
        ]);
        HostAction::OpenCommandPaneInPlace(cmd)
    }

    /// Opens the option at `k` in a new tab with this plugin.
    fn pick_project(&mut self, k: usize) -> (r: HostAction)
        requires
            k < old(self).options_view().len(),
        ensures
            r is NewTabsWithLayout,
            r->NewTabsWithLayout_0@ == template_text(
                old(self).options_view()[k as int].path@,
                old(self).options_view()[k as int].title@,
                old(self).options_view()[k as int].task_filter@,
                true,
            ),
            final(self).status_view() == PickerStatus::Picked(false),
            final(self).options_view() == old(self).options_view(),
            final(self).root_view() == old(self).root_view(),
            final(self).client_id_view() == old(self).client_id_view(),
            final(self).cwd_view() == old(self).cwd_view(),
            final(self).wf() == old(self).wf(),
    {
        let template = wavedash_template(&self.projects_options[k], true);
        self.status = PickerStatus::Picked(false);
        HostAction::NewTabsWithLayout(template)
    }

    /// A pane report: the first one starts the repository search and names
    /// the tab; while picking, the first command pane (the pick-list) is
    /// renamed once.
    pub fn handle_pane_update(&mut self, panes: &Vec<PaneInfo>) -> (r: Vec<HostAction>)
        requires
            old(self).wf(),
        ensures
            final(self).wf(),
            final(self).options_view() == old(self).options_view(),
            final(self).root_view() == old(self).root_view(),
            final(self).client_id_view() == old(self).client_id_view(),
            final(self).cwd_view() == old(self).cwd_view(),
            match old(self).status_view() {
                PickerStatus::Init => match old(self).root_view() {
                    Some(root) => {
                        &&& final(self).status_view() == PickerStatus::Picking(false)
                        &&& r@.len() == 2
                        &&& r@[0] is RunCommand
                        &&& r@[0]->RunCommand_0@.map_values(|a: String| a@) == find_repos_args_spec(
                            root.root_path@,
                        )
                        &&& r@[1] is RenameTab
                        &&& r@[1]->RenameTab_0 == 0
                        &&& r@[1]->RenameTab_1@ == PROJECT_PICKER_PLUGIN_NAME@
                    },
                    None => r@.len() == 0 && final(self).status_view() == old(self).status_view(),
                },
                PickerStatus::Picking(false) => match first_command_pane(panes@) {
                    Some(i) => {
                        &&& final(self).status_view() == PickerStatus::Picking(true)
                        &&& r@.len() == 1
                        &&& r@[0] is Rename
                        &&& r@[0]->Rename_0 == crate::host::info_id(panes@[i])
                        &&& r@[0]->Rename_1@ == PROJECT_PICKER_PLUGIN_NAME@
                    },
                    None => r@.len() == 0 && final(self).status_view() == old(self).status_view(),
                },
                _ => r@.len() == 0 && final(self).status_view() == old(self).status_view(),
            },
    {
        let mut r: Vec<HostAction> = Vec::new();
        match self.status {
            PickerStatus::Init => {
                match &self.config {
                    Some(c) => {
                        r.push(HostAction::RunCommand(find_repos_args(c.root_at(self.root_idx).root_path.as_str())));
                        r.push(HostAction::RenameTab(0, string_of(PROJECT_PICKER_PLUGIN_NAME)));
                        self.status = PickerStatus::Picking(false);
                    },
                    None => {},
                }
            },
            PickerStatus::Picking(false) => {
                if let Some(k) = find_command_pane(panes) {
                    r.push(HostAction::Rename(panes[k].pane_id(), string_of(PROJECT_PICKER_PLUGIN_NAME)));
                    self.status = PickerStatus::Picking(true);
                }
            },
            _ => {},
        }
        r
    }

    /// The result of the repository search: the projects found become the
    /// options; a single one is opened at once, as is the one the picker
    /// started in; otherwise the pick-list is shown.  A failed search is
    /// dropped.
    pub fn handle_command_result(&mut self, exit_code: Option<i32>, stdout: &[u8]) -> (r: Vec<HostAction>)
        requires
            old(self).wf(),
        ensures
            final(self).wf(),
            final(self).root_view() == old(self).root_view(),
            final(self).client_id_view() == old(self).client_id_view(),
            !(old(self).status_view() is Picking) || (exit_code matches Some(c) && c != 0)
                || old(self).root_view() is None ==> r@.len() == 0 && final(self).status_view()
                == old(self).status_view() && final(self).options_view() == old(self).options_view(),
            old(self).status_view() is Picking && !(exit_code matches Some(c) && c != 0)
                && old(self).root_view() is Some ==> {
                let opts = final(self).options_view();
                &&& r@.len() == 1
                &&& if opts.len() == 1 {
                    r@[0] is NewTabsWithLayout && r@[0]->NewTabsWithLayout_0@ == template_text(
                        opts[0].path@,
                        opts[0].title@,
                        opts[0].task_filter@,
                        true,
                    ) && final(self).status_view() == PickerStatus::Picked(false)
                } else if option_at(opts, old(self).cwd_view()) is Some {
                    let k = option_at(opts, old(self).cwd_view()).unwrap();
                    r@[0] is NewTabsWithLayout && r@[0]->NewTabsWithLayout_0@ == template_text(
                        opts[k].path@,
                        opts[k].title@,
                        opts[k].task_filter@,
                        true,
                    ) && final(self).status_view() == PickerStatus::Picked(false)
                } else {
                    r@[0] is OpenCommandPaneInPlace && crate::registry::command_view(
                        r@[0]->OpenCommandPaneInPlace_0,
                    ) == ("bash"@, seq!["-c"@, selection_text(opts, old(self).client_id_view())])
                        && final(self).status_view() == old(self).status_view()
                }
                &&& exists|found: Seq<Seq<char>>|
                    #![auto]
                    crate::config::sorted_texts(found) && found.to_multiset()
                        == crate::text::lines_of(crate::config::utf8_lossy(stdout@)).to_multiset()
                        && opts.map_values(|o: ProjectOption| option_view(o)) == (found
                        + crate::config::texts(old(self).root_view().unwrap().extra_project_paths@)).map_values(
                        |p: Seq<char>| crate::config::option_for(old(self).root_view().unwrap(), p),
                    )
            },
    {
        let mut r: Vec<HostAction> = Vec::new();
        if !matches!(self.status, PickerStatus::Picking(_)) {
            return r;
        }
        if let Some(c) = exit_code {
            if c != 0 {
                return r;
            }
        }
        let options = match &self.config {
            Some(c) => c.root_at(self.root_idx).project_options(stdout),
            None => {
                return r;
            },
        };
        self.projects_options = options;
        let n = self.projects_options.len();
        if n == 1 {
            r.push(self.pick_project(0));
            return r;
        }
        if let Some(k) = find_option(&self.projects_options, self.cwd.as_str()) {
            r.push(self.pick_project(k));
            return r;
        }
        r.push(self.show_project_selection());
        r
    }

    /// A message to the picker.  While picking, a selection addressed to
    /// this picker (numbered from 1) opens that project; anything else
    /// addressed to it closes the pick-list and shows a fresh one.  Once a
    /// project was opened, the first request for the root configuration from
    /// a plugin is answered.
    pub fn handle_pipe_message(&mut self, msg: &PipeMessage) -> (r: Vec<HostAction>)
        requires
            old(self).wf(),
        ensures
            final(self).wf(),
            final(self).root_view() == old(self).root_view(),
            final(self).options_view() == old(self).options_view(),
            final(self).client_id_view() == old(self).client_id_view(),
            match old(self).status_view() {
                PickerStatus::Picking(_) => if msg.client_id matches Some(c) && c@
                    == old(self).client_id_view() {
                    let k = match msg.payload {
                        Some(p) => picked_index(p@),
                        None => None,
                    };
                    if k is Some && k.unwrap() < old(self).options_view().len() {
                        let o = old(self).options_view()[k.unwrap()];
                        r@.len() == 1 && r@[0] is NewTabsWithLayout && r@[0]->NewTabsWithLayout_0@
                            == template_text(o.path@, o.title@, o.task_filter@, true)
                            && final(self).status_view() == PickerStatus::Picked(false)
                    } else {
                        r@.len() == 2 && r@[0] == HostAction::CloseFocus && r@[1] is OpenCommandPaneInPlace
                            && crate::registry::command_view(r@[1]->OpenCommandPaneInPlace_0) == (
                            "bash"@,
                            seq![
                                "-c"@,
                                selection_text(old(self).options_view(), old(self).client_id_view()),
                            ],
                        ) && final(self).status_view() == PickerStatus::Picking(false)
                    }
                } else {
                    r@.len() == 0 && final(self).status_view() == old(self).status_view()
                },
                PickerStatus::Picked(false) => if msg.name@ == PROJECT_ROOT_MESSAGE_NAME@
                    && msg.source is Plugin {
                    r@ == seq![HostAction::SendProjectRoot(msg.source->Plugin_0)]
                        && final(self).status_view() == PickerStatus::Picked(true)
                } else {
                    r@.len() == 0 && final(self).status_view() == old(self).status_view()
                },
                _ => r@.len() == 0 && final(self).status_view() == old(self).status_view(),
            },
    {
        let mut r: Vec<HostAction> = Vec::new();
        match self.status {
            PickerStatus::Picking(_) => {
                let addressed = match &msg.client_id {
                    Some(c) => text_eq(c.as_str(), self.msg_client_id.as_str()),
                    None => false,
                };
                if addressed {
                    let mut k: Option<usize> = None;
                    if let Some(p) = &msg.payload {
                        if let Some(n) = parse_fzf_index(p.as_str()) {
                            if n >= 1 && n - 1 < self.projects_options.len() {
                                k = Some(n - 1);
                            }
                        }
                    }
                    match k {
                        Some(k) => {
                            r.push(self.pick_project(k));
                        },
                        None => {
                            r.push(HostAction::CloseFocus);
                            self.status = PickerStatus::Picking(false);
                            r.push(self.show_project_selection());
                        },
                    }
                }
            },
            PickerStatus::Picked(false) => {
                if let PipeSource::Plugin(target) = msg.source {
                    if text_eq(msg.name.as_str(), PROJECT_ROOT_MESSAGE_NAME) {
                        self.status = PickerStatus::Picked(true);
                        r.push(HostAction::SendProjectRoot(target));
                    }
                }
            },
            _ => {},
        }
        r
    }
}

} // verus!
