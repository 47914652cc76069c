use wavedash::config::{project_title, ConfigError, ProjectOption, ProjectPickerConfiguration, ProjectRootConfiguration};
use wavedash::fzf::{find_repos_args, get_fzf_pane_cmd, parse_fzf_index};
use wavedash::keybind::{KeybindPane, MessageKeybind, MessageType};
use wavedash::template::wavedash_template;
use wavedash::text::{lines, parse_usize, trim};

fn root(path: &str, default: bool) -> ProjectRootConfiguration {
    ProjectRootConfiguration {
        root_path: path.to_string(),
        extra_project_paths: vec![],
        root_task_project_filter: "root".to_string(),
        nested_task_project_filters: vec![],
        default,
    }
}

#[test]
fn fzf_index_reads_first_line() {
    assert_eq!(parse_fzf_index("3\nfoo"), Some(3));
    assert_eq!(parse_fzf_index("12\r\n"), Some(12));
    assert_eq!(parse_fzf_index("+7"), Some(7));
    assert_eq!(parse_fzf_index("-1"), None);
    assert_eq!(parse_fzf_index(""), None);
    assert_eq!(parse_fzf_index("abc"), None);
    assert_eq!(parse_fzf_index(" 3"), None);
    assert_eq!(parse_fzf_index("18446744073709551615"), Some(usize::MAX));
    assert_eq!(parse_fzf_index("18446744073709551616"), None);
}

#[test]
fn parse_matches_std() {
    for s in ["0", "42", "+", "", "007", "9x", "+12", "99999999999999999999"] {
        assert_eq!(parse_usize(s), s.parse::<usize>().ok(), "{s}");
    }
}

#[test]
fn lines_and_trim_match_std() {
    for s in ["a\nb", "a\r\nb\n", "\n\n", "", "x\r", "one"] {
        let want: Vec<String> = s.lines().map(String::from).collect();
        assert_eq!(lines(s), want, "{s:?}");
    }
    for s in ["  a b \t", "\u{3000}x\u{2029}", "   ", "y"] {
        assert_eq!(trim(s), s.trim());
    }
}

#[test]
fn project_title_below_root_parent() {
    assert_eq!(project_title("/home/u/code/proj", "/home/u/code"), "code/proj");
    assert_eq!(project_title("/elsewhere/proj", "/home/u/code"), "/elsewhere/proj");
    assert_eq!(project_title("/home/u", "/home/u/code"), "/home/u");
}

#[test]
fn project_options_sorted_then_extra() {
    let mut conf = root("/home/u/code", true);
    conf.extra_project_paths = vec!["/opt/tool".to_string()];
    conf.nested_task_project_filters = vec![("work".to_string(), "job".to_string())];
    let opts: Vec<ProjectOption> = conf.project_options(b"/home/u/code/work/b\n/home/u/code/a\n");
    let paths: Vec<&str> = opts.iter().map(|o| o.path.as_str()).collect();
    assert_eq!(paths, vec!["/home/u/code/a", "/home/u/code/work/b", "/opt/tool"]);
    assert_eq!(opts[0].title, "code/a");
    assert_eq!(opts[0].task_filter, "root");
    assert_eq!(opts[1].title, "code/work/b");
    assert_eq!(opts[1].task_filter, "job");
    assert_eq!(opts[2].title, "/opt/tool");
}

#[test]
fn project_options_decode_bytes_lossily() {
    let conf = root("/r/x", true);
    let opts = conf.project_options(&[b'/', b'r', b'/', 0xff, b'\n']);
    assert_eq!(opts.len(), 1);
    assert_eq!(opts[0].path, "/r/\u{fffd}");
    assert!(conf.project_options(b"").is_empty());
}

#[test]
fn picker_needs_one_default() {
    let ok = ProjectPickerConfiguration::new(vec![root("/a", false), root("/b", true)]).unwrap();
    assert_eq!(ok.default_root().root_path, "/b");
    assert_eq!(ok.root("/a").root_path, "/a");
    assert_eq!(ok.root("/zzz").root_path, "/b");
    let none = ProjectPickerConfiguration::new(vec![root("/a", false)]).unwrap_err();
    assert_eq!(none, ConfigError::DefaultRootCount(0));
    let two = ProjectPickerConfiguration::new(vec![root("/a", true), root("/b", true)]).unwrap_err();
    assert_eq!(two, ConfigError::DefaultRootCount(2));
    assert_eq!(two.message(), "There must be exactly 1 default root, but there're 2");
}

#[test]
fn template_holds_project_values() {
    let o = ProjectOption { path: "/p/x".to_string(), title: "x".to_string(), task_filter: "tf".to_string() };
    let t = wavedash_template(&o, false);
    assert!(t.contains("tab cwd=\"/p/x\" name=\"x\" hide_floating_panes=true {"));
    assert!(t.contains("args \"ls\" \"limit:20\" \"project:tf\""));
    assert!(!t.contains("plugin location=\"wavedash\""));
    assert!(t.starts_with("\nlayout {\n"));
    let with = wavedash_template(&o, true);
    assert!(with.contains("plugin location=\"wavedash\""));
    assert!(with.len() > t.len());
}

#[test]
fn fzf_command_text() {
    let c = get_fzf_pane_cmd(&vec!["a".to_string(), "b".to_string()], "FocusProject", "id1", false);
    assert_eq!(c.path, "bash");
    assert_eq!(
        c.args,
        vec![
            "-c".to_string(),
            "printf 'a\nb' | fzf --layout reverse  | zellij pipe  --name FocusProject --args 'msg_client_id=id1'".to_string()
        ]
    );
    let i = get_fzf_pane_cmd(&vec![], "OpenProject", "z", true);
    assert_eq!(
        i.args[1],
        "printf '' | command cat -n | fzf --layout reverse --with-nth 2.. | awk '{print $1}' | zellij pipe  --name OpenProject --args 'msg_client_id=z'"
    );
}

#[test]
fn find_repos_command() {
    let a = find_repos_args("/code");
    assert_eq!(a, vec!["find", "/code", "-type", "d", "-exec", "test", "-d", "{}/.git", ";", "-prune", "-print"]);
}

#[test]
fn names_of_keybinds_and_roles() {
    assert_eq!(MessageKeybind::parse("HxOpenFile"), Some(MessageKeybind::HxOpenFile));
    assert_eq!(MessageKeybind::parse("hxopenfile"), None);
    assert_eq!(KeybindPane::try_from(MessageKeybind::K9s), Ok(KeybindPane::K9s));
    assert_eq!(KeybindPane::try_from(MessageKeybind::NewTerminal), Err(()));
    assert_eq!(KeybindPane::StatusPaneDash.pane_name(), "dash_status");
    assert_eq!(KeybindPane::Terminal.pane_name(), "term");
    assert_eq!(MessageType::parse("FocusTerminalPane"), Some(MessageType::FocusTerminalPane));
    assert_eq!(MessageType::OpenFile.as_str(), "OpenFile");
}

#[test]
fn template_matches_layout_text() {
    let o = ProjectOption { path: "/w/p".to_string(), title: "p".to_string(), task_filter: "pf".to_string() };
    let plugin = r#"
			 pane name="wavedash" {
			 	plugin location="wavedash"
			 }
    	"#;
    for with_plugin in [false, true] {
        let wavedash_plugin = if with_plugin { plugin } else { "" };
        let expected = format!(
            r#"
layout {{
	tab cwd="{}" name="{}" hide_floating_panes=true {{
	 	pane split_direction="vertical" {{
			pane size="65%" focus=true name="editor" {{
				command "hx"
				args "."
			}}
			pane stacked=true {{
				pane name="cheatsheet" {{
					command "glow"
					args "/home/spc/.config/helix/cheatsheet.md"
				}}
				pane name="tasks" {{
				 	command "task"
				 	args "ls" "limit:20" "project:{}"
				}}
				pane name="tests" {{
				 	command "bacon"
				 	args "test" "-s"
				}}
				pane name="clippy" {{
				 	command "bacon"
				 	args "clippy" "-s"
				}}
				pane name="log" {{
					command "tail"
					args "/tmp/zellij-1000/zellij-log/zellij.log" "-F"
				}}
			}}
		}}
		pane size=1 borderless=true {{
	        plugin location="tab-bar"
	    }}
		floating_panes {{
			{wavedash_plugin}
		}}
	}}
}}
"#,
            o.path, o.title, o.task_filter
        );
        assert_eq!(wavedash_template(&o, with_plugin), expected);
    }
}

#[test]
fn project_title_ignores_trailing_separators_of_root() {
    // the parent of "/a/" is "/", and the title starts after it and one more character
    assert_eq!(project_title("/a/b", "/a/"), "/b");
    assert_eq!(project_title("/w/a/b", "/w/a/"), "a/b");
    assert_eq!(project_title("/home/u/src/foo", "/home/u/src"), "src/foo");
    assert_eq!(project_title("/home/u/src/foo", "/home/u/src//"), "src/foo");
    assert_eq!(project_title("/x/y", "/"), "/y");
}
