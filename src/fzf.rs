use crate::host::CommandToRun;
use crate::text::{
    first_line, join_lines, join_with_newlines, lines_of, parse_usize, parse_usize_spec, string_of,
};
use vstd::prelude::*;

verus! {

/// The argument under which a pick-list names the plugin instance that
/// receives the selection.
pub const MSG_CLIENT_ID_ARG: &'static str = "msg_client_id";

/// The pick-list that numbers its lines and sends back the chosen number.
pub const FZF_INDEXED: &'static str = "command cat -n | fzf --layout reverse --with-nth 2.. | awk '{print $1}'";

/// The pick-list that sends back the chosen line.
pub const FZF_PLAIN: &'static str = "fzf --layout reverse ";

/// The index that a pick-list sent: its first line as a decimal number.
pub open spec fn fzf_index_of(payload: Seq<char>) -> Option<usize> {
    if lines_of(payload).len() > 0 {
        parse_usize_spec(lines_of(payload)[0])
    } else {
        None
    }
}

/// Reads the index that a pick-list sent back.
pub fn parse_fzf_index(payload: &str) -> (r: Option<usize>)
    ensures
        r == fzf_index_of(payload@),
{
    match first_line(payload) {
        Some(l) => parse_usize(l.as_str()),
        None => None,
    }
}

/// The shell command of a pick-list over `opts` that sends the choice back
/// as a message of type `message_type` addressed to `client_id`: the chosen
/// line, or its position from 1 when `use_index` holds.
pub open spec fn fzf_command_text(
    opts: Seq<char>,
    message_type: Seq<char>,
    client_id: Seq<char>,
    use_index: bool,
) -> Seq<char> {
    "printf '"@ + opts + "' | "@ + (if use_index {
        FZF_INDEXED@
    } else {
        FZF_PLAIN@
    }) + " | zellij pipe  --name "@ + message_type + " --args '"@ + MSG_CLIENT_ID_ARG@ + "="@
        + client_id + "'"@
}

/// A pick-list pane over `options`, one per line.
pub fn get_fzf_pane_cmd(
    options: &Vec<String>,
    message_type: &str,
    message_client_id: &str,
    use_index: bool,
) -> (r: CommandToRun)
    ensures
        r.path@ == "bash"@,
        r.args@.len() == 2,
        r.args@[0]@ == "-c"@,
        r.args@[1]@ == fzf_command_text(
            join_lines(options@.map_values(|s: String| s@)),
            message_type@,
            message_client_id@,
            use_index,
        ),
{
    let opts = join_with_newlines(options);
    let mut cmd = string_of("printf '");
    cmd.append(opts.as_str());
    cmd.append("' | ");
    if use_index {
        cmd.append(FZF_INDEXED);
    } else {
        cmd.append(FZF_PLAIN);
    }
    cmd.append(" | zellij pipe  --name ");
    cmd.append(message_type);
    cmd.append(" --args '");
    cmd.append(MSG_CLIENT_ID_ARG);
    cmd.append("=");
    cmd.append(message_client_id);
    cmd.append("'");
    let mut args: Vec<String> = Vec::new();
    args.push(string_of("-c"));
    args.push(cmd);
    CommandToRun { path: string_of("bash"), args }
}

/// The arguments of the search for repositories below `cwd`: every
/// directory that holds a `.git` directory, without descending into it.
pub open spec fn find_repos_args_spec(cwd: Seq<char>) -> Seq<Seq<char>> {
    seq![
        "find"@,
        cwd,
        "-type"@,
        "d"@,
        "-exec"@,
        "test"@,
        "-d"@,
        "{}/.git"@,
        ";"@,
        "-prune"@,
        "-print"@,
    ]
}

pub fn find_repos_args(cwd: &str) -> (r: Vec<String>)
    ensures
        r@.map_values(|s: String| s@) == find_repos_args_spec(cwd@),
{
    let mut r: Vec<String> = Vec::new();
    r.push(string_of("find"));
    r.push(string_of(cwd));
    r.push(string_of("-type"));
    r.push(string_of("d"));
    r.push(string_of("-exec"));
    r.push(string_of("test"));
    r.push(string_of("-d"));
    r.push(string_of("{}/.git"));
    r.push(string_of(";"));
    r.push(string_of("-prune"));
    r.push(string_of("-print"));
    assert(r@.map_values(|s: String| s@) =~= find_repos_args_spec(cwd@));
    r
}

} // verus!
