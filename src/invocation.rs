use vstd::prelude::*;
use vstd::string::StrSliceExecFns;

verus! {

/// The family of system the manager runs on; it decides how a command is
/// launched and how a run is terminated.
#[derive(Debug, Clone, Copy, PartialEq, Eq, Structural)]
pub enum Platform {
    /// Signals can be sent to a process.
    Unix,
    /// No signals; a process tree is ended by an outside tool.
    Windows,
}

/// How to launch a command: the program, its arguments, a last argument to
/// hand over without quoting, and whether to keep a console window from
/// opening.
pub struct Invocation {
    pub program: String,
    pub args: Vec<String>,
    pub raw_arg: Option<String>,
    pub hide_window: bool,
}

/// The model of an `Invocation`.
pub struct InvocationView {
    pub program: Seq<char>,
    pub args: Seq<Seq<char>>,
    pub raw_arg: Option<Seq<char>>,
    pub hide_window: bool,
}

impl View for Invocation {
    type V = InvocationView;

    open spec fn view(&self) -> InvocationView {
        InvocationView {
            program: self.program@,
            args: self.args@.map_values(|a: String| a@),
            raw_arg: match self.raw_arg {
                Some(a) => Some(a@),
                None => None,
            },
            hide_window: self.hide_window,
        }
    }
}

/// A path of the form `\\server\share`, which the plain command interpreter
/// cannot use as a working directory.
pub open spec fn is_network_path(cwd: Seq<char>) -> bool {
    cwd.len() >= 2 && cwd[0] == '\\' && cwd[1] == '\\'
}

/// On Unix the command runs as `bash -c <command>`. On Windows it runs as
/// `powershell -Command <command>` when the working directory is a network
/// path, else as `cmd /s /c` followed by the command as it is; both without a
/// console window.
pub open spec fn invocation_for(platform: Platform, command: Seq<char>, cwd: Seq<char>) -> InvocationView {
    match platform {
        Platform::Unix => InvocationView {
            program: "bash"@,
            args: seq!["-c"@, command],
            raw_arg: None,
            hide_window: false,
        },
        Platform::Windows => if is_network_path(cwd) {
            InvocationView {
                program: "powershell"@,
                args: seq!["-Command"@, command],
                raw_arg: None,
                hide_window: true,
            }
        } else {
            InvocationView {
                program: "cmd"@,
                args: seq!["/s"@, "/c"@],
                raw_arg: Some(command),
                hide_window: true,
            }
        },
    }
}

fn starts_with_two_backslashes(cwd: &str) -> (r: bool)
    ensures
        r == is_network_path(cwd@),
{
    cwd.unicode_len() >= 2 && cwd.get_char(0) == '\\' && cwd.get_char(1) == '\\'
}

/// How to launch `command` in `cwd` on `platform`.
pub fn invocation(platform: Platform, command: &str, cwd: &str) -> (r: Invocation)
    ensures
        r@ == invocation_for(platform, command@, cwd@),
{
    let r = match platform {
        Platform::Unix => Invocation {
            program: "bash".to_owned(),
            args: vec!["-c".to_owned(), command.to_owned()],
            raw_arg: None,
            hide_window: false,
        },
        Platform::Windows => if starts_with_two_backslashes(cwd) {
            Invocation {
                program: "powershell".to_owned(),
                args: vec!["-Command".to_owned(), command.to_owned()],
                raw_arg: None,
                hide_window: true,
            }
        } else {
            Invocation {
                program: "cmd".to_owned(),
                args: vec!["/s".to_owned(), "/c".to_owned()],
                raw_arg: Some(command.to_owned()),
                hide_window: true,
            }
        },
    };
    assert(r@.args =~= invocation_for(platform, command@, cwd@).args);
    r
}

} // verus!
