//! The programming languages the editor supports: their file extensions, how
//! a language is recognised in a chat message, and how a file of each
//! language is run.
use vstd::prelude::*;
use vstd::string::*;
use crate::platform::{
    HostOs, c_compiler, concat3, cpp_compiler, go_runner, java_compiler, java_runtime,
    join_path_exec, node_runner, open_command, python_command, rust_compiler, ts_runner,
};
use crate::text::{
    chars_of, contains_word_start_str, has_substr, has_word_start, is_blank, lowercase_chars, mentions_any,
    mentions_any_exec,
};

verus! {

/// A programming language supported by the editor.
#[derive(Clone, Copy, Debug, PartialEq, Eq, Structural)]
pub enum SupportedLanguage {
    Python,
    Rust,
    JavaScript,
    TypeScript,
    Html,
    Css,
    C,
    Cpp,
    Java,
    Go,
}

/// The file extension (without the dot) of a language.
pub open spec fn extension_spec(lang: SupportedLanguage) -> Seq<char> {
    match lang {
        SupportedLanguage::Python => "py"@,
        SupportedLanguage::Rust => "rs"@,
        SupportedLanguage::JavaScript => "js"@,
        SupportedLanguage::TypeScript => "ts"@,
        SupportedLanguage::Html => "html"@,
        SupportedLanguage::Css => "css"@,
        SupportedLanguage::C => "c"@,
        SupportedLanguage::Cpp => "cpp"@,
        SupportedLanguage::Java => "java"@,
        SupportedLanguage::Go => "go"@,
    }
}

/// The language a lower-case chat message asks about: the first group of
/// keywords, in this order, of which the message holds one, and Python when
/// it holds none. Every keyword counts wherever it occurs, except `ts `, which
/// counts only at the start of a word, so that the `ts ` ending "prints "
/// names no language.
pub open spec fn detect_spec(l: Seq<char>) -> SupportedLanguage {
    if mentions_any(l, seq!["javascript"@, "js"@, "node"@]) {
        SupportedLanguage::JavaScript
    } else if mentions_any(l, seq!["typescript"@, "tsx"@]) || has_word_start(l, "ts "@) {
        SupportedLanguage::TypeScript
    } else if mentions_any(l, seq!["html"@]) {
        SupportedLanguage::Html
    } else if mentions_any(l, seq!["css"@]) {
        SupportedLanguage::Css
    } else if mentions_any(l, seq!["c++"@, "cpp"@, "cplusplus"@]) {
        SupportedLanguage::Cpp
    } else if mentions_any(l, seq!["golang"@, "go "@]) {
        SupportedLanguage::Go
    } else if mentions_any(l, seq!["java"@]) {
        SupportedLanguage::Java
    } else if mentions_any(l, seq!["rust"@, "rs"@]) {
        SupportedLanguage::Rust
    } else if mentions_any(l, seq!["c "@]) {
        SupportedLanguage::C
    } else {
        SupportedLanguage::Python
    }
}

/// The Python interpreter command on `os`.
pub open spec fn python_command_spec(os: HostOs) -> Seq<char> {
    if os == HostOs::Windows {
        "python"@
    } else {
        "python3"@
    }
}

/// `prog file`, followed by a newline.
pub open spec fn run_file_spec(prog: Seq<char>, file: Seq<char>) -> Seq<char> {
    prog + " "@ + file + "\n"@
}

/// `compiler file -o out && out`, followed by a newline.
pub open spec fn compile_and_run_spec(compiler: Seq<char>, file: Seq<char>, out: Seq<char>) -> Seq<
    char,
> {
    compiler + " "@ + file + " -o "@ + out + " && "@ + out + "\n"@
}

/// The shell command that runs the source file `file` of language `lang` on
/// `os`; compiled languages put their binary in `temp_dir`.
pub open spec fn run_command_spec(
    lang: SupportedLanguage,
    os: HostOs,
    file: Seq<char>,
    temp_dir: Seq<char>,
) -> Seq<char> {
    match lang {
        SupportedLanguage::Python => run_file_spec(python_command_spec(os), file),
        SupportedLanguage::Rust => compile_and_run_spec(
            "rustc"@,
            file,
            crate::platform::join_path(os, temp_dir, "main_rs"@),
        ),
        SupportedLanguage::JavaScript => run_file_spec("node"@, file),
        SupportedLanguage::TypeScript => run_file_spec("npx ts-node"@, file),
        SupportedLanguage::Html => crate::platform::open_command_spec(os, file),
        SupportedLanguage::Css => "echo 'CSS is a stylesheet, nothing to run.'\n"@,
        SupportedLanguage::C => compile_and_run_spec(
            "gcc"@,
            file,
            crate::platform::join_path(os, temp_dir, "main_c"@),
        ),
        SupportedLanguage::Cpp => compile_and_run_spec(
            "g++"@,
            file,
            crate::platform::join_path(os, temp_dir, "main_cpp"@),
        ),
        SupportedLanguage::Java => "javac"@ + " "@ + file + " && "@ + "java"@ + " Main\n"@,
        SupportedLanguage::Go => "go"@ + " run "@ + file + "\n"@,
    }
}

/// `prog file` followed by a newline.
fn run_file(prog: &str, file: &str) -> (res: String)
    ensures
        res@ == run_file_spec(prog@, file@),
{
    let mut res = concat3(prog, " ", file);
    res.append("\n");
    res
}

/// `compiler file -o out && out` followed by a newline.
fn compile_and_run(compiler: &str, file: &str, out: &str) -> (res: String)
    ensures
        res@ == compile_and_run_spec(compiler@, file@, out@),
{
    let mut res = concat3(compiler, " ", file);
    res.append(" -o ");
    res.append(out);
    res.append(" && ");
    res.append(out);
    res.append("\n");
    res
}

impl SupportedLanguage {
    /// The file extension (without the dot) used for the editor label and the
    /// temporary file written before execution.
    pub fn extension(&self) -> (res: &'static str)
        ensures
            res@ == extension_spec(*self),
    {
        match self {
            SupportedLanguage::Python => "py",
            SupportedLanguage::Rust => "rs",
            SupportedLanguage::JavaScript => "js",
            SupportedLanguage::TypeScript => "ts",
            SupportedLanguage::Html => "html",
            SupportedLanguage::Css => "css",
            SupportedLanguage::C => "c",
            SupportedLanguage::Cpp => "cpp",
            SupportedLanguage::Java => "java",
            SupportedLanguage::Go => "go",
        }
    }

    /// The language that an already lower-cased message asks about.
    pub fn detect_lowercase(lower: &str) -> (res: SupportedLanguage)
        ensures
            res == detect_spec(lower@),
    {
        let l = chars_of(lower);
        Self::detect_chars(&l)
    }

    fn detect_chars(l: &Vec<char>) -> (res: SupportedLanguage)
        ensures
            res == detect_spec(l@),
    {
        let a: [&str; 3] = ["javascript", "js", "node"];
        assert(a@.map_values(|w: &str| w@) =~= seq!["javascript"@, "js"@, "node"@]);
        if mentions_any_exec(l, &a) {
            return SupportedLanguage::JavaScript;
        }
        let b: [&str; 2] = ["typescript", "tsx"];
        assert(b@.map_values(|w: &str| w@) =~= seq!["typescript"@, "tsx"@]);
        if mentions_any_exec(l, &b) || contains_word_start_str(l, "ts ") {
            return SupportedLanguage::TypeScript;
        }
        let c: [&str; 1] = ["html"];
        assert(c@.map_values(|w: &str| w@) =~= seq!["html"@]);
        if mentions_any_exec(l, &c) {
            return SupportedLanguage::Html;
        }
        let d: [&str; 1] = ["css"];
        assert(d@.map_values(|w: &str| w@) =~= seq!["css"@]);
        if mentions_any_exec(l, &d) {
            return SupportedLanguage::Css;
        }
        let e: [&str; 3] = ["c++", "cpp", "cplusplus"];
        assert(e@.map_values(|w: &str| w@) =~= seq!["c++"@, "cpp"@, "cplusplus"@]);
        if mentions_any_exec(l, &e) {
            return SupportedLanguage::Cpp;
        }
        let f: [&str; 2] = ["golang", "go "];
        assert(f@.map_values(|w: &str| w@) =~= seq!["golang"@, "go "@]);
        if mentions_any_exec(l, &f) {
            return SupportedLanguage::Go;
        }
        let g: [&str; 1] = ["java"];
        assert(g@.map_values(|w: &str| w@) =~= seq!["java"@]);
        if mentions_any_exec(l, &g) {
            return SupportedLanguage::Java;
        }
        let h: [&str; 2] = ["rust", "rs"];
        assert(h@.map_values(|w: &str| w@) =~= seq!["rust"@, "rs"@]);
        if mentions_any_exec(l, &h) {
            return SupportedLanguage::Rust;
        }
        let i: [&str; 1] = ["c "];
        assert(i@.map_values(|w: &str| w@) =~= seq!["c "@]);
        if mentions_any_exec(l, &i) {
            return SupportedLanguage::C;
        }
        SupportedLanguage::Python
    }

    /// Detects the language a chat message asks about, from common language
    /// names and aliases, case-insensitively; defaults to Python.
    pub fn detect(message: &str) -> (res: SupportedLanguage)
        ensures
            res == detect_spec(crate::text::to_lower(message@)),
    {
        let l = lowercase_chars(message);
        Self::detect_chars(&l)
    }

    /// The shell command that runs the source file `file` of this language on
    /// `os`, followed by a newline; compiled languages put their binary in
    /// `temp_dir`.
    pub fn run_command(&self, os: HostOs, file: &str, temp_dir: &str) -> (res: String)
        ensures
            res@ == run_command_spec(*self, os, file@, temp_dir@),
    {
        match self {
            SupportedLanguage::Python => run_file(python_command(os), file),
            SupportedLanguage::Rust => {
                proof {
                    reveal_strlit("main_rs");
                }
                let out = join_path_exec(os, temp_dir, "main_rs");
                compile_and_run(rust_compiler(), file, out.as_str())
            },
            SupportedLanguage::JavaScript => run_file(node_runner(), file),
            SupportedLanguage::TypeScript => run_file(ts_runner(), file),
            SupportedLanguage::Html => open_command(os, file),
            SupportedLanguage::Css => string_of_static("echo 'CSS is a stylesheet, nothing to run.'\n"),
            SupportedLanguage::C => {
                proof {
                    reveal_strlit("main_c");
                }
                let out = join_path_exec(os, temp_dir, "main_c");
                compile_and_run(c_compiler(), file, out.as_str())
            },
            SupportedLanguage::Cpp => {
                proof {
                    reveal_strlit("main_cpp");
                }
                let out = join_path_exec(os, temp_dir, "main_cpp");
                compile_and_run(cpp_compiler(), file, out.as_str())
            },
            SupportedLanguage::Java => {
                let mut res = concat3(java_compiler(), " ", file);
                res.append(" && ");
                res.append(java_runtime());
                res.append(" Main\n");
                res
            },
            SupportedLanguage::Go => concat3(go_runner(), " run ", file).concat("\n"),
        }
    }
}

fn string_of_static(s: &'static str) -> (res: String)
    ensures
        res@ == s@,
{
    String::from_str(s)
}

/// Whether a chat message should be sent to the model: it must hold some
/// character that is not whitespace.
pub fn should_send_message(message: &str) -> (res: bool)
    ensures
        res == !crate::text::all_ws(message@),
{
    let m = chars_of(message);
    !is_blank(&m)
}

// ---------------------------------------------------------------------------
// Laws
// ---------------------------------------------------------------------------

/// Language detection ignores case: an ASCII message and its upper-case form
/// are detected alike.
pub proof fn law_detect_ignores_ascii_case(m: Seq<char>)
    requires
        crate::text::is_ascii_seq(m),
    ensures
        detect_spec(crate::text::to_lower(m)) == detect_spec(
            crate::text::to_lower(crate::text::ascii_upper(m)),
        ),
{
    crate::text::lemma_to_lower_of_ascii_upper(m);
}

/// A message that holds none of the language keywords (`ts ` counted only
/// at the start of a word) is taken to ask for Python.
pub proof fn law_detect_defaults_to_python(l: Seq<char>)
    requires
        forall|w: Seq<char>|
            has_substr(l, w) ==> w != "javascript"@ && w != "js"@ && w != "node"@ && w
                != "typescript"@ && w != "tsx"@ && w != "html"@ && w != "css"@ && w != "c++"@
                && w != "cpp"@ && w != "cplusplus"@ && w != "golang"@ && w != "go "@ && w
                != "java"@ && w != "rust"@ && w != "rs"@ && w != "c "@,
        !has_word_start(l, "ts "@),
    ensures
        detect_spec(l) == SupportedLanguage::Python,
{
}

/// Detection tries the keyword groups in this order: JavaScript
/// (`javascript`, `js`, `node`), TypeScript (`typescript`, `tsx`, or `ts ` at
/// the start of a word), HTML (`html`), CSS (`css`), C++ (`c++`, `cpp`,
/// `cplusplus`), Go (`golang`, `go `), Java (`java`), Rust (`rust`, `rs`) and
/// C (`c `).  The first group of which the lower-cased message holds a
/// keyword gives the language, whatever later groups it also matches (a
/// message naming `java` is Java even when it holds `rs`); with none, the
/// answer is Python.
pub proof fn law_detect_tries_groups_in_order(message: Seq<char>)
    ensures
        ({
            let l = crate::text::to_lower(message);
            let js = has_substr(l, "javascript"@) || has_substr(l, "js"@) || has_substr(l, "node"@);
            let ts = has_substr(l, "typescript"@) || has_substr(l, "tsx"@) || has_word_start(
                l,
                "ts "@,
            );
            let html = has_substr(l, "html"@);
            let css = has_substr(l, "css"@);
            let cpp = has_substr(l, "c++"@) || has_substr(l, "cpp"@) || has_substr(
                l,
                "cplusplus"@,
            );
            let go = has_substr(l, "golang"@) || has_substr(l, "go "@);
            let java = has_substr(l, "java"@);
            let rust = has_substr(l, "rust"@) || has_substr(l, "rs"@);
            let c = has_substr(l, "c "@);
            let r = detect_spec(l);
            &&& js ==> r == SupportedLanguage::JavaScript
            &&& !js && ts ==> r == SupportedLanguage::TypeScript
            &&& !js && !ts && html ==> r == SupportedLanguage::Html
            &&& !js && !ts && !html && css ==> r == SupportedLanguage::Css
            &&& !js && !ts && !html && !css && cpp ==> r == SupportedLanguage::Cpp
            &&& !js && !ts && !html && !css && !cpp && go ==> r == SupportedLanguage::Go
            &&& !js && !ts && !html && !css && !cpp && !go && java ==> r
                == SupportedLanguage::Java
            &&& !js && !ts && !html && !css && !cpp && !go && !java && rust ==> r
                == SupportedLanguage::Rust
            &&& !js && !ts && !html && !css && !cpp && !go && !java && !rust && c ==> r
                == SupportedLanguage::C
            &&& !js && !ts && !html && !css && !cpp && !go && !java && !rust && !c ==> r
                == SupportedLanguage::Python
        }),
{
    broadcast use crate::text::lemma_mentions_any_push, crate::text::lemma_mentions_any_empty;

}

/// Every run command ends with a newline, so that the terminal executes it
/// as soon as it is written.
pub proof fn law_run_command_ends_with_newline(
    lang: SupportedLanguage,
    os: HostOs,
    file: Seq<char>,
    temp_dir: Seq<char>,
)
    ensures
        run_command_spec(lang, os, file, temp_dir).len() > 0,
        run_command_spec(lang, os, file, temp_dir).last() == '\n',
{
    reveal_strlit("\n");
    reveal_strlit(" Main\n");
    reveal_strlit("\"\n");
    reveal_strlit("echo 'CSS is a stylesheet, nothing to run.'\n");
}

/// The run command of every language but CSS, which has nothing to run,
/// names the source file it runs.
pub proof fn law_run_command_names_the_file(
    lang: SupportedLanguage,
    os: HostOs,
    file: Seq<char>,
    temp_dir: Seq<char>,
)
    requires
        lang != SupportedLanguage::Css,
    ensures
        crate::text::has_substr(run_command_spec(lang, os, file, temp_dir), file),
{
    let cmd = run_command_spec(lang, os, file, temp_dir);
    match lang {
        SupportedLanguage::Python | SupportedLanguage::JavaScript | SupportedLanguage::TypeScript => {
            let p = if lang == SupportedLanguage::Python {
                python_command_spec(os)
            } else if lang == SupportedLanguage::JavaScript {
                "node"@
            } else {
                "npx ts-node"@
            };
            assert(cmd =~= (p + " "@) + file + "\n"@);
            crate::text::lemma_has_substr_middle(p + " "@, file, "\n"@);
        },
        SupportedLanguage::Rust | SupportedLanguage::C | SupportedLanguage::Cpp => {
            let (c, name) = if lang == SupportedLanguage::Rust {
                ("rustc"@, "main_rs"@)
            } else if lang == SupportedLanguage::C {
                ("gcc"@, "main_c"@)
            } else {
                ("g++"@, "main_cpp"@)
            };
            let out = crate::platform::join_path(os, temp_dir, name);
            let rest = " -o "@ + out + " && "@ + out + "\n"@;
            assert(cmd =~= (c + " "@) + file + rest);
            crate::text::lemma_has_substr_middle(c + " "@, file, rest);
        },
        SupportedLanguage::Html => {
            let (pre, post) = if os == HostOs::Windows {
                ("start \"\" \""@, "\"\n"@)
            } else if os == HostOs::MacOs {
                ("open \""@, "\"\n"@)
            } else {
                ("xdg-open \""@, "\"\n"@)
            };
            assert(cmd =~= pre + file + post);
            crate::text::lemma_has_substr_middle(pre, file, post);
        },
        SupportedLanguage::Java => {
            let rest = " && "@ + "java"@ + " Main\n"@;
            assert(cmd =~= ("javac"@ + " "@) + file + rest);
            crate::text::lemma_has_substr_middle("javac"@ + " "@, file, rest);
        },
        SupportedLanguage::Go => {
            assert(cmd =~= ("go"@ + " run "@) + file + "\n"@);
            crate::text::lemma_has_substr_middle("go"@ + " run "@, file, "\n"@);
        },
        SupportedLanguage::Css => {},
    }
}

} // verus!
