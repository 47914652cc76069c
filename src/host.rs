use crate::pane::PaneId;
use vstd::prelude::*;

verus! {

/// A pane as the host reports it.  Its geometry is not carried: the plugin
/// classifies editor panes by their title (see `register_one`), as the layout
/// that it opens names the editor pane "editor".
#[derive(Debug)]
pub struct PaneInfo {
    pub id: u32,
    pub is_plugin: bool,
    pub title: String,
    pub is_selectable: bool,
    pub is_floating: bool,
    pub is_focused: bool,
    /// The command the pane was launched with, for command panes.
    pub terminal_command: Option<String>,
    /// The exit status of a command pane whose command has ended.
    pub exit_status: Option<i32>,
}

/// A tab as the host reports it.
#[derive(Debug)]
pub struct TabInfo {
    pub name: String,
    pub position: usize,
    pub active: bool,
    pub are_floating_panes_visible: bool,
}

/// A command that a new pane runs: a program and its arguments.
#[derive(Debug, PartialEq, Eq)]
pub struct CommandToRun {
    pub path: String,
    pub args: Vec<String>,
}

/// Where a message sent to the plugin comes from.
#[derive(Debug, Clone, Copy, PartialEq, Eq, Structural)]
pub enum PipeSource {
    /// A keybind of the user.
    Keybind,
    /// The plugin with this id.
    Plugin(u32),
    /// Another sender.
    Other,
}

/// A message sent to the plugin.
#[derive(Debug)]
pub struct PipeMessage {
    pub source: PipeSource,
    pub name: String,
    pub payload: Option<String>,
    /// The value of the argument that names the plugin instance addressed.
    pub client_id: Option<String>,
}

/// A request to the host.  The plugin decides; the host acts.
#[derive(Debug, PartialEq, Eq)]
pub enum HostAction {
    Focus(PaneId),
    Hide(PaneId),
    Close(PaneId),
    Rename(PaneId, String),
    /// Writes characters to the focused pane's input.
    WriteChars(String),
    /// Writes bytes to the focused pane's input.
    Write(Vec<u8>),
    /// Arms the timer: one tick after the short throttle interval.
    SetTimeout,
    /// Opens a floating pane running the command, or a shell without one.
    OpenFloating(Option<CommandToRun>),
    /// Hides the plugin's own pane.
    HideSelf,
    /// Asks the project picker for the project root configuration.
    RequestProjectRoot,
    /// Runs a command in the background; its result comes back later.
    RunCommand(Vec<String>),
    FocusOrCreateTab(String),
    NewTabsWithLayout(String),
    /// Closes the focused pane.
    CloseFocus,
    /// Decodes the payload as a project root configuration and hands it back.
    LoadRootConfig(String),
    /// Renames the tab at the position.
    RenameTab(u32, String),
    /// Replaces the plugin's pane with a pane running the command.
    OpenCommandPaneInPlace(CommandToRun),
    /// Sends the project root configuration to the plugin with this id.
    SendProjectRoot(u32),
}

/// The identity of a reported pane.
pub open spec fn info_id(p: PaneInfo) -> PaneId {
    if p.is_plugin {
        PaneId::Plugin(p.id)
    } else {
        PaneId::Terminal(p.id)
    }
}

impl PaneInfo {
    pub fn pane_id(&self) -> (r: PaneId)
        ensures
            r == info_id(*self),
    {
        PaneId::new(self.id, self.is_plugin)
    }
}

} // verus!
