use crate::config::ProjectOption;
use crate::text::string_of;
use vstd::prelude::*;

verus! {

/// The layout up to the tab's working directory.
pub const LAYOUT_HEAD: &'static str = "\nlayout {\n\ttab cwd=\"";

/// The layout between the working directory and the tab name.
pub const LAYOUT_AFTER_CWD: &'static str = "\" name=\"";

/// The layout between the tab name and the task filter.
pub const LAYOUT_AFTER_NAME: &'static str = "\" hide_floating_panes=true {\n\t \tpane split_direction=\"vertical\" {\n\t\t\tpane size=\"65%\" focus=true name=\"editor\" {\n\t\t\t\tcommand \"hx\"\n\t\t\t\targs \".\"\n\t\t\t}\n\t\t\tpane stacked=true {\n\t\t\t\tpane name=\"cheatsheet\" {\n\t\t\t\t\tcommand \"glow\"\n\t\t\t\t\targs \"/home/spc/.config/helix/cheatsheet.md\"\n\t\t\t\t}\n\t\t\t\tpane name=\"tasks\" {\n\t\t\t\t \tcommand \"task\"\n\t\t\t\t \targs \"ls\" \"limit:20\" \"project:";

/// The layout between the task filter and the floating panes.
pub const LAYOUT_AFTER_FILTER: &'static str = "\"\n\t\t\t\t}\n\t\t\t\tpane name=\"tests\" {\n\t\t\t\t \tcommand \"bacon\"\n\t\t\t\t \targs \"test\" \"-s\"\n\t\t\t\t}\n\t\t\t\tpane name=\"clippy\" {\n\t\t\t\t \tcommand \"bacon\"\n\t\t\t\t \targs \"clippy\" \"-s\"\n\t\t\t\t}\n\t\t\t\tpane name=\"log\" {\n\t\t\t\t\tcommand \"tail\"\n\t\t\t\t\targs \"/tmp/zellij-1000/zellij-log/zellij.log\" \"-F\"\n\t\t\t\t}\n\t\t\t}\n\t\t}\n\t\tpane size=1 borderless=true {\n\t        plugin location=\"tab-bar\"\n\t    }\n\t\tfloating_panes {\n\t\t\t";

/// The end of the layout.
pub const LAYOUT_TAIL: &'static str = "\n\t\t}\n\t}\n}\n";

/// The floating pane that runs this plugin.
pub const PLUGIN_PANE: &'static str = "\n\t\t\t pane name=\"wavedash\" {\n\t\t\t \tplugin location=\"wavedash\"\n\t\t\t }\n    \t";

/// The layout of a new project tab: an editor pane beside a stack of status
/// panes (cheatsheet, tasks filtered to the project, tests, lints, log), a tab
/// bar, and, when asked for, this plugin as a floating pane.
pub open spec fn template_text(
    path: Seq<char>,
    title: Seq<char>,
    task_filter: Seq<char>,
    include_plugin: bool,
) -> Seq<char> {
    LAYOUT_HEAD@ + path + LAYOUT_AFTER_CWD@ + title + LAYOUT_AFTER_NAME@ + task_filter
        + LAYOUT_AFTER_FILTER@ + (if include_plugin {
        PLUGIN_PANE@
    } else {
        Seq::<char>::empty()
    }) + LAYOUT_TAIL@
}

/// The layout of a new tab for `project_option`.
pub fn wavedash_template(project_option: &ProjectOption, include_wavedash_plugin: bool) -> (r: String)
    ensures
        r@ == template_text(
            project_option.path@,
            project_option.title@,
            project_option.task_filter@,
            include_wavedash_plugin,
        ),
{
    let mut s = string_of(LAYOUT_HEAD);
    s.append(project_option.path.as_str());
    s.append(LAYOUT_AFTER_CWD);
    s.append(project_option.title.as_str());
    s.append(LAYOUT_AFTER_NAME);
    s.append(project_option.task_filter.as_str());
    s.append(LAYOUT_AFTER_FILTER);
    if include_wavedash_plugin {
        s.append(PLUGIN_PANE);
    }
    s.append(LAYOUT_TAIL);
    proof {
        if !include_wavedash_plugin {
            assert(s@ =~= template_text(
                project_option.path@,
                project_option.title@,
                project_option.task_filter@,
                include_wavedash_plugin,
            ));
        }
    }
    s
}

} // verus!
