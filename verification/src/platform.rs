//! Platform-specific choices for the integrated terminal and code execution.
//!
//! The host operating system is an explicit argument (`HostOs`): the caller
//! says which platform it runs on, and every choice below is a function of it.
use vstd::prelude::*;
use vstd::string::*;
use crate::text::{chars_of, string_of};

verus! {

/// The operating system family the application runs on.
#[derive(Clone, Copy, Debug, PartialEq, Eq, Structural)]
pub enum HostOs {
    /// Microsoft Windows.
    Windows,
    /// Apple macOS.
    MacOs,
    /// Linux and the other Unix systems.
    Linux,
}

/// The views of a sequence of strings.
pub open spec fn string_rows(v: Seq<String>) -> Seq<Seq<char>> {
    Seq::new(v.len(), |i: int| v[i]@)
}

/// Whether `c` separates path components on `os`.
pub open spec fn is_path_sep(os: HostOs, c: char) -> bool {
    c == '/' || (os == HostOs::Windows && c == '\\')
}

/// The separator inserted between path components on `os`.
pub open spec fn path_sep(os: HostOs) -> char {
    if os == HostOs::Windows {
        '\\'
    } else {
        '/'
    }
}

/// `dir` is a bare Windows drive such as `C:`.
pub open spec fn is_bare_drive(os: HostOs, dir: Seq<char>) -> bool {
    os == HostOs::Windows && dir.len() == 2 && dir[1] == ':' && (('a' <= dir[0] && dir[0] <= 'z')
        || ('A' <= dir[0] && dir[0] <= 'Z'))
}

/// The path `dir` joined with the relative file name `name` (`Path::join`):
/// a separator is inserted unless `dir` is empty, already ends with one, or
/// is a bare drive.
pub open spec fn join_path(os: HostOs, dir: Seq<char>, name: Seq<char>) -> Seq<char> {
    if dir.len() == 0 || is_path_sep(os, dir.last()) || is_bare_drive(os, dir) {
        dir + name
    } else {
        dir.push(path_sep(os)) + name
    }
}

/// `name` holds no path separator for `os`.
pub open spec fn is_plain_name(os: HostOs, name: Seq<char>) -> bool {
    forall|i: int| 0 <= i < name.len() ==> !is_path_sep(os, #[trigger] name[i])
}

/// The concatenation of three strings.
pub(crate) fn concat3(a: &str, b: &str, c: &str) -> (res: String)
    ensures
        res@ == a@ + b@ + c@,
{
    let mut res = String::from_str(a);
    res.append(b);
    res.append(c);
    res
}

/// Joins the relative file name `name` onto the directory `dir`.
pub(crate) fn join_path_exec(os: HostOs, dir: &str, name: &str) -> (res: String)
    requires
        is_plain_name(os, name@),
    ensures
        res@ == join_path(os, dir@, name@),
{
    let d = chars_of(dir);
    let n = d.len();
    let mut res = String::from_str(dir);
    let drive = os == HostOs::Windows && n == 2 && d[1] == ':' && (('a' <= d[0] && d[0] <= 'z')
        || ('A' <= d[0] && d[0] <= 'Z'));
    if n == 0 || d[n - 1] == '/' || (os == HostOs::Windows && d[n - 1] == '\\') || drive {
        res.append(name);
        return res;
    }
    if os == HostOs::Windows {
        res.append("\\");
        proof {
            reveal_strlit("\\");
        }
    } else {
        res.append("/");
        proof {
            reveal_strlit("/");
        }
    }
    res.append(name);
    res
}

/// The shell used to spawn the integrated terminal: PowerShell on Windows,
/// bash elsewhere.
pub fn terminal_shell(os: HostOs) -> (res: &'static str)
    ensures
        os == HostOs::Windows ==> res@ == "powershell.exe"@,
        os != HostOs::Windows ==> res@ == "bash"@,
{
    if os == HostOs::Windows {
        "powershell.exe"
    } else {
        "bash"
    }
}

/// The PowerShell command that makes the prompt report its working directory
/// through OSC 7.
pub open spec fn powershell_osc7_prompt() -> Seq<char> {
    "function prompt { $p = $PWD.Path.Replace(' ','%20'); \"`e]7;file://$env:COMPUTERNAME$p`aPS $p> \" }"@
}

/// Extra arguments for the terminal shell so that it reports its working
/// directory through OSC 7 on every prompt.  On Windows PowerShell's `prompt`
/// is redefined; elsewhere bash is started with `init_file`, the path of the
/// init file that installs the OSC 7 hook.
pub fn terminal_shell_args(os: HostOs, init_file: &str) -> (res: Vec<String>)
    ensures
        os == HostOs::Windows ==> string_rows(res@) == seq![
            "-NoExit"@,
            "-Command"@,
            powershell_osc7_prompt(),
        ],
        os != HostOs::Windows ==> string_rows(res@) == seq!["--init-file"@, init_file@],
{
    let mut res: Vec<String> = Vec::new();
    if os == HostOs::Windows {
        res.push(string_of("-NoExit"));
        res.push(string_of("-Command"));
        res.push(
            string_of(
                "function prompt { $p = $PWD.Path.Replace(' ','%20'); \"`e]7;file://$env:COMPUTERNAME$p`aPS $p> \" }",
            ),
        );
    } else {
        res.push(string_of("--init-file"));
        res.push(string_of(init_file));
    }
    assert(string_rows(res@) =~= (if os == HostOs::Windows {
        seq!["-NoExit"@, "-Command"@, powershell_osc7_prompt()]
    } else {
        seq!["--init-file"@, init_file@]
    }));
    res
}

/// The views of a sequence of environment variable pairs.
pub open spec fn env_rows(v: Seq<(&str, &str)>) -> Seq<(Seq<char>, Seq<char>)> {
    Seq::new(v.len(), |i: int| (v[i].0@, v[i].1@))
}

/// Environment variables set on the terminal shell: none on Windows, the
/// terminal type, colour depth and locale elsewhere.
pub fn terminal_env(os: HostOs) -> (res: Vec<(&'static str, &'static str)>)
    ensures
        os == HostOs::Windows ==> res@.len() == 0,
        os != HostOs::Windows ==> env_rows(res@) == seq![
            ("TERM"@, "xterm-256color"@),
            ("COLORTERM"@, "truecolor"@),
            ("LANG"@, "en_GB.UTF-8"@),
        ],
{
    let mut env: Vec<(&'static str, &'static str)> = Vec::new();
    if os != HostOs::Windows {
        env.push(("TERM", "xterm-256color"));
        env.push(("COLORTERM", "truecolor"));
        env.push(("LANG", "en_GB.UTF-8"));
        assert(env_rows(env@) =~= seq![
            ("TERM"@, "xterm-256color"@),
            ("COLORTERM"@, "truecolor"@),
            ("LANG"@, "en_GB.UTF-8"@),
        ]);
    }
    env
}

/// The Python interpreter command: `python` on Windows, `python3` elsewhere.
pub fn python_command(os: HostOs) -> (res: &'static str)
    ensures
        os == HostOs::Windows ==> res@ == "python"@,
        os != HostOs::Windows ==> res@ == "python3"@,
{
    if os == HostOs::Windows {
        "python"
    } else {
        "python3"
    }
}

/// The command that opens `file` with the default application, followed by a
/// newline: `start "" "file"` on Windows, `open "file"` on macOS and
/// `xdg-open "file"` elsewhere.
pub open spec fn open_command_spec(os: HostOs, file: Seq<char>) -> Seq<char> {
    if os == HostOs::Windows {
        "start \"\" \""@ + file + "\"\n"@
    } else if os == HostOs::MacOs {
        "open \""@ + file + "\"\n"@
    } else {
        "xdg-open \""@ + file + "\"\n"@
    }
}

/// Builds the command that opens `file` with the default application.
pub fn open_command(os: HostOs, file: &str) -> (res: String)
    ensures
        res@ == open_command_spec(os, file@),
{
    if os == HostOs::Windows {
        concat3("start \"\" \"", file, "\"\n")
    } else if os == HostOs::MacOs {
        concat3("open \"", file, "\"\n")
    } else {
        concat3("xdg-open \"", file, "\"\n")
    }
}

/// The C compiler command.
pub fn c_compiler() -> (res: &'static str)
    ensures
        res@ == "gcc"@,
{
    "gcc"
}

/// The C++ compiler command.
pub fn cpp_compiler() -> (res: &'static str)
    ensures
        res@ == "g++"@,
{
    "g++"
}

/// The Java compiler command.
pub fn java_compiler() -> (res: &'static str)
    ensures
        res@ == "javac"@,
{
    "javac"
}

/// The Java runtime command.
pub fn java_runtime() -> (res: &'static str)
    ensures
        res@ == "java"@,
{
    "java"
}

/// The Go runner command.
pub fn go_runner() -> (res: &'static str)
    ensures
        res@ == "go"@,
{
    "go"
}

/// The Node.js runner command.
pub fn node_runner() -> (res: &'static str)
    ensures
        res@ == "node"@,
{
    "node"
}

/// The TypeScript runner command (through ts-node).
pub fn ts_runner() -> (res: &'static str)
    ensures
        res@ == "npx ts-node"@,
{
    "npx ts-node"
}

/// The Rust compiler command.
pub fn rust_compiler() -> (res: &'static str)
    ensures
        res@ == "rustc"@,
{
    "rustc"
}


// ---------------------------------------------------------------------------
// Configuration directory
// ---------------------------------------------------------------------------

/// The directory where the application keeps its configuration, given the
/// values of the environment variables `APPDATA`, `HOME` and
/// `XDG_CONFIG_HOME` (`None` where one is unset):
/// - Windows: `%APPDATA%\rustagent`;
/// - macOS: `$HOME/Library/Application Support/rustagent`;
/// - Linux: `$XDG_CONFIG_HOME/rustagent`, or else `$HOME/.config/rustagent`.
///
/// When the variable that the platform reads is unset, the directory is the
/// relative path `.rustagent`, taken from the current directory.
pub open spec fn config_dir_spec(
    os: HostOs,
    appdata: Option<Seq<char>>,
    home: Option<Seq<char>>,
    xdg: Option<Seq<char>>,
) -> Seq<char> {
    match os {
        HostOs::Windows => match appdata {
            Some(a) => join_path(os, a, "rustagent"@),
            None => ".rustagent"@,
        },
        HostOs::MacOs => match home {
            Some(h) => join_path(
                os,
                join_path(os, join_path(os, h, "Library"@), "Application Support"@),
                "rustagent"@,
            ),
            None => ".rustagent"@,
        },
        HostOs::Linux => match xdg {
            Some(x) => join_path(os, x, "rustagent"@),
            None => match home {
                Some(h) => join_path(os, join_path(os, h, ".config"@), "rustagent"@),
                None => ".rustagent"@,
            },
        },
    }
}

/// The environment variable value the configuration directory is built on:
/// `APPDATA` on Windows, `HOME` on macOS, and on Linux `XDG_CONFIG_HOME`, or
/// `HOME` when that is unset.
pub open spec fn config_base(
    os: HostOs,
    appdata: Option<Seq<char>>,
    home: Option<Seq<char>>,
    xdg: Option<Seq<char>>,
) -> Option<Seq<char>> {
    match os {
        HostOs::Windows => appdata,
        HostOs::MacOs => home,
        HostOs::Linux => if xdg is Some {
            xdg
        } else {
            home
        },
    }
}

/// The configuration directory for `os`, from the values of the environment
/// variables `APPDATA`, `HOME` and `XDG_CONFIG_HOME` (`None` where one is
/// unset); `.rustagent`, relative to the current directory, when the
/// variable the platform reads is unset.
pub fn config_dir_for(
    os: HostOs,
    appdata: Option<&str>,
    home: Option<&str>,
    xdg_config_home: Option<&str>,
) -> (res: String)
    ensures
        res@ == config_dir_spec(
            os,
            crate::config::opt_view(appdata),
            crate::config::opt_view(home),
            crate::config::opt_view(xdg_config_home),
        ),
{
    proof {
        reveal_strlit("rustagent");
        reveal_strlit("Library");
        reveal_strlit("Application Support");
        reveal_strlit(".config");
    }
    match os {
        HostOs::Windows => match appdata {
            Some(a) => join_path_exec(os, a, "rustagent"),
            None => string_of(".rustagent"),
        },
        HostOs::MacOs => match home {
            Some(h) => {
                let lib = join_path_exec(os, h, "Library");
                let support = join_path_exec(os, lib.as_str(), "Application Support");
                join_path_exec(os, support.as_str(), "rustagent")
            },
            None => string_of(".rustagent"),
        },
        HostOs::Linux => match xdg_config_home {
            Some(x) => join_path_exec(os, x, "rustagent"),
            None => match home {
                Some(h) => {
                    let conf = join_path_exec(os, h, ".config");
                    join_path_exec(os, conf.as_str(), "rustagent")
                },
                None => string_of(".rustagent"),
            },
        },
    }
}

/// Joining a name onto a directory keeps the directory as the start of the
/// path.
pub proof fn lemma_join_path_extends(os: HostOs, dir: Seq<char>, name: Seq<char>)
    ensures
        crate::text::has_prefix(join_path(os, dir, name), dir),
{
    let j = join_path(os, dir, name);
    assert(j.subrange(0, dir.len() as int) =~= dir);
}

/// The configuration directory lies inside the directory named by the
/// variable the platform reads: it starts with that variable's value, so an
/// absolute value gives an absolute directory; with that variable unset it is
/// the relative `.rustagent`.
pub proof fn law_config_dir_lies_under_its_base(
    os: HostOs,
    appdata: Option<Seq<char>>,
    home: Option<Seq<char>>,
    xdg: Option<Seq<char>>,
)
    ensures
        match config_base(os, appdata, home, xdg) {
            Some(b) => crate::text::has_prefix(config_dir_spec(os, appdata, home, xdg), b),
            None => config_dir_spec(os, appdata, home, xdg) == ".rustagent"@,
        },
{
    match config_base(os, appdata, home, xdg) {
        Some(b) => {
            let d = config_dir_spec(os, appdata, home, xdg);
            if os == HostOs::MacOs {
                let l = join_path(os, b, "Library"@);
                let a = join_path(os, l, "Application Support"@);
                lemma_join_path_extends(os, b, "Library"@);
                lemma_join_path_extends(os, l, "Application Support"@);
                lemma_join_path_extends(os, a, "rustagent"@);
                assert(d.subrange(0, b.len() as int) =~= a.subrange(0, b.len() as int));
                assert(a.subrange(0, b.len() as int) =~= l.subrange(0, b.len() as int));
            } else if os == HostOs::Linux && xdg is None {
                let c = join_path(os, b, ".config"@);
                lemma_join_path_extends(os, b, ".config"@);
                lemma_join_path_extends(os, c, "rustagent"@);
                assert(d.subrange(0, b.len() as int) =~= c.subrange(0, b.len() as int));
            } else {
                lemma_join_path_extends(os, b, "rustagent"@);
            }
        },
        None => {},
    }
}

} // verus!
