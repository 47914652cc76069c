use crate::text::text_eq;
use vstd::prelude::*;

verus! {

/// A keybind message that the host forwards to the plugin, by name.
#[derive(Debug, Clone, Copy, PartialEq, Eq, Hash, Structural)]
pub enum MessageKeybind {
    OpenProject,
    DashProject,
    DashStatus,
    DashTerminal,
    FilePicker,
    FocusEditorPane,
    HxBufferJumplist,
    HxOpenFile,
    Git,
    Terminal,
    NewTerminal,
    K9s,
}

/// A well-known pane role, held by at most one pane per workspace.
#[derive(Debug, Clone, Copy, PartialEq, Eq, Hash, Structural)]
pub enum KeybindPane {
    OpenProject,
    ProjectDash,
    TerminalPaneDash,
    StatusPaneDash,
    FilePicker,
    Git,
    Terminal,
    K9s,
}

/// A message that a pick-list pane sends back with the user's selection.
#[derive(Debug, Clone, Copy, PartialEq, Eq, Hash, Structural)]
pub enum MessageType {
    OpenFile,
    OpenProject,
    FocusProject,
    FocusStatusPane,
    FocusTerminalPane,
}

/// The keybind message that a name denotes: the variant of that exact name.
pub open spec fn keybind_of_name(s: Seq<char>) -> Option<MessageKeybind> {
    if s == "OpenProject"@ {
        Some(MessageKeybind::OpenProject)
    } else if s == "DashProject"@ {
        Some(MessageKeybind::DashProject)
    } else if s == "DashStatus"@ {
        Some(MessageKeybind::DashStatus)
    } else if s == "DashTerminal"@ {
        Some(MessageKeybind::DashTerminal)
    } else if s == "FilePicker"@ {
        Some(MessageKeybind::FilePicker)
    } else if s == "FocusEditorPane"@ {
        Some(MessageKeybind::FocusEditorPane)
    } else if s == "HxBufferJumplist"@ {
        Some(MessageKeybind::HxBufferJumplist)
    } else if s == "HxOpenFile"@ {
        Some(MessageKeybind::HxOpenFile)
    } else if s == "Git"@ {
        Some(MessageKeybind::Git)
    } else if s == "Terminal"@ {
        Some(MessageKeybind::Terminal)
    } else if s == "NewTerminal"@ {
        Some(MessageKeybind::NewTerminal)
    } else if s == "K9s"@ {
        Some(MessageKeybind::K9s)
    } else {
        None
    }
}

impl MessageKeybind {
    /// The keybind message named `s`, if any.
    pub fn parse(s: &str) -> (r: Option<MessageKeybind>)
        ensures
            r == keybind_of_name(s@),
    {
        if text_eq(s, "OpenProject") {
            Some(MessageKeybind::OpenProject)
        } else if text_eq(s, "DashProject") {
            Some(MessageKeybind::DashProject)
        } else if text_eq(s, "DashStatus") {
            Some(MessageKeybind::DashStatus)
        } else if text_eq(s, "DashTerminal") {
            Some(MessageKeybind::DashTerminal)
        } else if text_eq(s, "FilePicker") {
            Some(MessageKeybind::FilePicker)
        } else if text_eq(s, "FocusEditorPane") {
            Some(MessageKeybind::FocusEditorPane)
        } else if text_eq(s, "HxBufferJumplist") {
            Some(MessageKeybind::HxBufferJumplist)
        } else if text_eq(s, "HxOpenFile") {
            Some(MessageKeybind::HxOpenFile)
        } else if text_eq(s, "Git") {
            Some(MessageKeybind::Git)
        } else if text_eq(s, "Terminal") {
            Some(MessageKeybind::Terminal)
        } else if text_eq(s, "NewTerminal") {
            Some(MessageKeybind::NewTerminal)
        } else if text_eq(s, "K9s") {
            Some(MessageKeybind::K9s)
        } else {
            None
        }
    }
}

/// The role that a keybind message opens or focuses, if it names one.
pub open spec fn role_of_keybind(k: MessageKeybind) -> Option<KeybindPane> {
    match k {
        MessageKeybind::OpenProject => Some(KeybindPane::OpenProject),
        MessageKeybind::DashProject => Some(KeybindPane::ProjectDash),
        MessageKeybind::DashStatus => Some(KeybindPane::StatusPaneDash),
        MessageKeybind::DashTerminal => Some(KeybindPane::TerminalPaneDash),
        MessageKeybind::FilePicker => Some(KeybindPane::FilePicker),
        MessageKeybind::Git => Some(KeybindPane::Git),
        MessageKeybind::Terminal => Some(KeybindPane::Terminal),
        MessageKeybind::K9s => Some(KeybindPane::K9s),
        MessageKeybind::FocusEditorPane
        | MessageKeybind::HxBufferJumplist
        | MessageKeybind::HxOpenFile
        | MessageKeybind::NewTerminal => None,
    }
}

pub open spec fn role_name(k: KeybindPane) -> Seq<char> {
    match k {
        KeybindPane::OpenProject => "open_project"@,
        KeybindPane::ProjectDash => "dash_project"@,
        KeybindPane::StatusPaneDash => "dash_status"@,
        KeybindPane::TerminalPaneDash => "dash_terminal"@,
        KeybindPane::FilePicker => "filepicker"@,
        KeybindPane::Git => "git"@,
        KeybindPane::Terminal => "term"@,
        KeybindPane::K9s => "k9s"@,
    }
}

/// Number of pane roles.
pub const ROLE_COUNT: usize = 8;

pub open spec fn role_index(k: KeybindPane) -> int {
    match k {
        KeybindPane::OpenProject => 0,
        KeybindPane::ProjectDash => 1,
        KeybindPane::TerminalPaneDash => 2,
        KeybindPane::StatusPaneDash => 3,
        KeybindPane::FilePicker => 4,
        KeybindPane::Git => 5,
        KeybindPane::Terminal => 6,
        KeybindPane::K9s => 7,
    }
}

impl KeybindPane {
    /// The title given to a pane that takes this role.
    pub fn pane_name(&self) -> (r: &'static str)
        ensures
            r@ == role_name(*self),
    {
        match self {
            KeybindPane::OpenProject => "open_project",
            KeybindPane::ProjectDash => "dash_project",
            KeybindPane::StatusPaneDash => "dash_status",
            KeybindPane::TerminalPaneDash => "dash_terminal",
            KeybindPane::FilePicker => "filepicker",
            KeybindPane::Git => "git",
            KeybindPane::Terminal => "term",
            KeybindPane::K9s => "k9s",
        }
    }

    /// The role that `value` names; messages that name no role are refused.
    pub fn try_from(value: MessageKeybind) -> (r: Result<KeybindPane, ()>)
        ensures
            r is Ok <==> role_of_keybind(value) is Some,
            r is Ok ==> role_of_keybind(value) == Some(r.unwrap()),
    {
        match value {
            MessageKeybind::OpenProject => Ok(KeybindPane::OpenProject),
            MessageKeybind::DashProject => Ok(KeybindPane::ProjectDash),
            MessageKeybind::DashStatus => Ok(KeybindPane::StatusPaneDash),
            MessageKeybind::DashTerminal => Ok(KeybindPane::TerminalPaneDash),
            MessageKeybind::FilePicker => Ok(KeybindPane::FilePicker),
            MessageKeybind::Git => Ok(KeybindPane::Git),
            MessageKeybind::Terminal => Ok(KeybindPane::Terminal),
            MessageKeybind::K9s => Ok(KeybindPane::K9s),
            MessageKeybind::FocusEditorPane
            | MessageKeybind::HxBufferJumplist
            | MessageKeybind::HxOpenFile
            | MessageKeybind::NewTerminal => Err(()),
        }
    }

    /// The position of this role in a per-role table.
    pub fn index(&self) -> (r: usize)
        ensures
            r == role_index(*self),
            r < ROLE_COUNT,
    {
        match self {
            KeybindPane::OpenProject => 0,
            KeybindPane::ProjectDash => 1,
            KeybindPane::TerminalPaneDash => 2,
            KeybindPane::StatusPaneDash => 3,
            KeybindPane::FilePicker => 4,
            KeybindPane::Git => 5,
            KeybindPane::Terminal => 6,
            KeybindPane::K9s => 7,
        }
    }
}

pub open spec fn message_type_of_name(s: Seq<char>) -> Option<MessageType> {
    if s == "OpenFile"@ {
        Some(MessageType::OpenFile)
    } else if s == "OpenProject"@ {
        Some(MessageType::OpenProject)
    } else if s == "FocusProject"@ {
        Some(MessageType::FocusProject)
    } else if s == "FocusStatusPane"@ {
        Some(MessageType::FocusStatusPane)
    } else if s == "FocusTerminalPane"@ {
        Some(MessageType::FocusTerminalPane)
    } else {
        None
    }
}

pub open spec fn message_type_name(m: MessageType) -> Seq<char> {
    match m {
        MessageType::OpenFile => "OpenFile"@,
        MessageType::OpenProject => "OpenProject"@,
        MessageType::FocusProject => "FocusProject"@,
        MessageType::FocusStatusPane => "FocusStatusPane"@,
        MessageType::FocusTerminalPane => "FocusTerminalPane"@,
    }
}

impl MessageType {
    /// The message type named `s`, if any.
    pub fn parse(s: &str) -> (r: Option<MessageType>)
        ensures
            r == message_type_of_name(s@),
    {
        if text_eq(s, "OpenFile") {
            Some(MessageType::OpenFile)
        } else if text_eq(s, "OpenProject") {
            Some(MessageType::OpenProject)
        } else if text_eq(s, "FocusProject") {
            Some(MessageType::FocusProject)
        } else if text_eq(s, "FocusStatusPane") {
            Some(MessageType::FocusStatusPane)
        } else if text_eq(s, "FocusTerminalPane") {
            Some(MessageType::FocusTerminalPane)
        } else {
            None
        }
    }

    /// The name under which this message type travels.
    pub fn as_str(&self) -> (r: &'static str)
        ensures
            r@ == message_type_name(*self),
    {
        match self {
            MessageType::OpenFile => "OpenFile",
            MessageType::OpenProject => "OpenProject",
            MessageType::FocusProject => "FocusProject",
            MessageType::FocusStatusPane => "FocusStatusPane",
            MessageType::FocusTerminalPane => "FocusTerminalPane",
        }
    }
}

} // verus!
