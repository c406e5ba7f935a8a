use rustagent::language::{should_send_message, SupportedLanguage};
use rustagent::platform::{
    c_compiler, cpp_compiler, go_runner, java_compiler, java_runtime, node_runner,
    python_command, rust_compiler, ts_runner, HostOs,
};

const OS: HostOs = HostOs::Linux;
const TMP: &str = "/tmp";

#[test]
fn empty_message_is_not_sent() {
    assert!(!should_send_message(""));
}

#[test]
fn whitespace_only_message_is_not_sent() {
    assert!(!should_send_message("   "));
    assert!(!should_send_message("\t"));
    assert!(!should_send_message("\n"));
    assert!(!should_send_message(" \t \n "));
}

#[test]
fn non_empty_message_is_sent() {
    assert!(should_send_message("hello"));
    assert!(should_send_message(" write a function "));
    assert!(should_send_message("clear editor"));
    assert!(should_send_message("a"));
}

#[test]
fn message_with_leading_trailing_whitespace_is_sent() {
    assert!(should_send_message("  hello  "));
}

#[test]
fn unicode_whitespace_only_message_is_not_sent() {
    assert!(!should_send_message("\u{a0}\u{2003}\u{3000}"));
    assert!(should_send_message("\u{a0}x"));
}

#[test]
fn detect_defaults_to_python() {
    assert_eq!(SupportedLanguage::detect("hello there"), SupportedLanguage::Python);
    assert_eq!(SupportedLanguage::detect(""), SupportedLanguage::Python);
    assert_eq!(SupportedLanguage::detect("write a program"), SupportedLanguage::Python);
}

#[test]
fn detect_python_explicitly() {
    assert_eq!(SupportedLanguage::detect("write python code"), SupportedLanguage::Python);
    assert_eq!(SupportedLanguage::detect("a python script"), SupportedLanguage::Python);
}

#[test]
fn detect_javascript() {
    assert_eq!(SupportedLanguage::detect("write javascript"), SupportedLanguage::JavaScript);
    assert_eq!(SupportedLanguage::detect("a js function"), SupportedLanguage::JavaScript);
    assert_eq!(SupportedLanguage::detect("node script"), SupportedLanguage::JavaScript);
}

#[test]
fn detect_typescript() {
    assert_eq!(SupportedLanguage::detect("write typescript"), SupportedLanguage::TypeScript);
    assert_eq!(SupportedLanguage::detect("ts code"), SupportedLanguage::TypeScript);
}

#[test]
fn detect_html_and_css() {
    assert_eq!(SupportedLanguage::detect("make an html page"), SupportedLanguage::Html);
    assert_eq!(SupportedLanguage::detect("style with css"), SupportedLanguage::Css);
}

#[test]
fn detect_c_family() {
    assert_eq!(SupportedLanguage::detect("write c++ code"), SupportedLanguage::Cpp);
    assert_eq!(SupportedLanguage::detect("cpp program"), SupportedLanguage::Cpp);
    assert_eq!(SupportedLanguage::detect("cplusplus"), SupportedLanguage::Cpp);
    assert_eq!(SupportedLanguage::detect("write c code"), SupportedLanguage::C);
}

#[test]
fn detect_go_java_rust() {
    assert_eq!(SupportedLanguage::detect("golang program"), SupportedLanguage::Go);
    assert_eq!(SupportedLanguage::detect("go code"), SupportedLanguage::Go);
    assert_eq!(SupportedLanguage::detect("java class"), SupportedLanguage::Java);
    assert_eq!(SupportedLanguage::detect("rust code"), SupportedLanguage::Rust);
    assert_eq!(SupportedLanguage::detect("rs module"), SupportedLanguage::Rust);
}

#[test]
fn detect_is_case_insensitive() {
    assert_eq!(SupportedLanguage::detect("WRITE JAVASCRIPT"), SupportedLanguage::JavaScript);
    assert_eq!(SupportedLanguage::detect("Rust"), SupportedLanguage::Rust);
}

#[test]
fn detect_lowercase_takes_lowered_text() {
    assert_eq!(SupportedLanguage::detect_lowercase("golang"), SupportedLanguage::Go);
    assert_eq!(SupportedLanguage::detect_lowercase("GOLANG"), SupportedLanguage::Python);
}

#[test]
fn extensions_are_correct() {
    assert_eq!(SupportedLanguage::Python.extension(), "py");
    assert_eq!(SupportedLanguage::Rust.extension(), "rs");
    assert_eq!(SupportedLanguage::JavaScript.extension(), "js");
    assert_eq!(SupportedLanguage::TypeScript.extension(), "ts");
    assert_eq!(SupportedLanguage::Html.extension(), "html");
    assert_eq!(SupportedLanguage::Css.extension(), "css");
    assert_eq!(SupportedLanguage::C.extension(), "c");
    assert_eq!(SupportedLanguage::Cpp.extension(), "cpp");
    assert_eq!(SupportedLanguage::Java.extension(), "java");
    assert_eq!(SupportedLanguage::Go.extension(), "go");
}

#[test]
fn run_command_python_uses_python_interpreter() {
    let cmd = SupportedLanguage::Python.run_command(OS, "/tmp/main.py", TMP);
    assert!(cmd.contains(python_command(OS)));
    assert!(cmd.contains("/tmp/main.py"));
}

#[test]
fn run_command_rust_compiles_then_runs() {
    let cmd = SupportedLanguage::Rust.run_command(OS, "/tmp/main.rs", TMP);
    assert!(cmd.contains(rust_compiler()));
    assert!(cmd.contains("-o"));
    assert!(cmd.contains("&&"));
}

#[test]
fn run_command_javascript_uses_node() {
    let cmd = SupportedLanguage::JavaScript.run_command(OS, "/tmp/main.js", TMP);
    assert!(cmd.contains(node_runner()));
    assert!(cmd.contains("/tmp/main.js"));
}

#[test]
fn run_command_typescript_uses_ts_runner() {
    let cmd = SupportedLanguage::TypeScript.run_command(OS, "/tmp/main.ts", TMP);
    assert!(cmd.contains(ts_runner()));
}

#[test]
fn run_command_css_is_noop_message() {
    let cmd = SupportedLanguage::Css.run_command(OS, "/tmp/main.css", TMP);
    assert!(cmd.contains("nothing to run"));
}

#[test]
fn run_command_go_uses_go_run() {
    let cmd = SupportedLanguage::Go.run_command(OS, "/tmp/main.go", TMP);
    assert!(cmd.contains(go_runner()));
    assert!(cmd.contains("run"));
}

#[test]
fn run_command_java_compiles_and_runs_main() {
    let cmd = SupportedLanguage::Java.run_command(OS, "/tmp/main.java", TMP);
    assert!(cmd.contains(java_compiler()));
    assert!(cmd.contains(java_runtime()));
    assert!(cmd.contains("Main"));
}

#[test]
fn run_command_c_and_cpp_compile_then_run() {
    let c_cmd = SupportedLanguage::C.run_command(OS, "/tmp/main.c", TMP);
    assert!(c_cmd.contains(c_compiler()));
    assert!(c_cmd.contains("-o"));

    let cpp_cmd = SupportedLanguage::Cpp.run_command(OS, "/tmp/main.cpp", TMP);
    assert!(cpp_cmd.contains(cpp_compiler()));
    assert!(cpp_cmd.contains("-o"));
}

#[test]
fn run_commands_are_exact() {
    assert_eq!(
        SupportedLanguage::Rust.run_command(OS, "/tmp/main.rs", "/tmp"),
        "rustc /tmp/main.rs -o /tmp/main_rs && /tmp/main_rs\n"
    );
    assert_eq!(
        SupportedLanguage::C.run_command(OS, "main.c", "/var/tmp/"),
        "gcc main.c -o /var/tmp/main_c && /var/tmp/main_c\n"
    );
    assert_eq!(
        SupportedLanguage::Cpp.run_command(HostOs::Windows, "a.cpp", "C:\\Temp"),
        "g++ a.cpp -o C:\\Temp\\main_cpp && C:\\Temp\\main_cpp\n"
    );
    assert_eq!(
        SupportedLanguage::Java.run_command(OS, "Main.java", TMP),
        "javac Main.java && java Main\n"
    );
    assert_eq!(
        SupportedLanguage::Go.run_command(OS, "main.go", TMP),
        "go run main.go\n"
    );
    assert_eq!(
        SupportedLanguage::Python.run_command(HostOs::Windows, "main.py", TMP),
        "python main.py\n"
    );
    assert_eq!(
        SupportedLanguage::TypeScript.run_command(OS, "main.ts", TMP),
        "npx ts-node main.ts\n"
    );
    assert_eq!(
        SupportedLanguage::Html.run_command(HostOs::MacOs, "/t/index.html", TMP),
        "open \"/t/index.html\"\n"
    );
    assert_eq!(
        SupportedLanguage::Css.run_command(OS, "main.css", TMP),
        "echo 'CSS is a stylesheet, nothing to run.'\n"
    );
}

#[test]
fn detect_checklist_messages() {
    let cases = [
        ("write a python function that prints hello", SupportedLanguage::Python),
        ("generate a rust program that prints hello", SupportedLanguage::Rust),
        ("write javascript to print hello", SupportedLanguage::JavaScript),
        ("write typescript code with a typed function", SupportedLanguage::TypeScript),
        ("write an html page", SupportedLanguage::Html),
        ("write css to style a button", SupportedLanguage::Css),
        ("write c code that prints hello", SupportedLanguage::C),
        ("write c++ code that prints hello", SupportedLanguage::Cpp),
        ("write java code that prints hello", SupportedLanguage::Java),
        ("write go code that prints hello", SupportedLanguage::Go),
    ];
    for (msg, expected) in cases.iter() {
        assert_eq!(SupportedLanguage::detect(msg), *expected, "detect failed for: {msg}");
    }
}

#[test]
fn detect_ts_alias_needs_word_start() {
    assert_eq!(SupportedLanguage::detect("it prints its results"), SupportedLanguage::Python);
    assert_eq!(SupportedLanguage::detect("ts code"), SupportedLanguage::TypeScript);
    assert_eq!(SupportedLanguage::detect("some (ts files"), SupportedLanguage::TypeScript);
    assert_eq!(SupportedLanguage::detect("in ts"), SupportedLanguage::Python);
}

#[test]
fn detect_other_aliases_match_anywhere() {
    assert_eq!(SupportedLanguage::detect("jsx"), SupportedLanguage::JavaScript);
    assert_eq!(SupportedLanguage::detect("use node.js"), SupportedLanguage::JavaScript);
    assert_eq!(SupportedLanguage::detect("write it in go"), SupportedLanguage::Python);
    assert_eq!(SupportedLanguage::detect("let go of it"), SupportedLanguage::Go);
    assert_eq!(SupportedLanguage::detect("first"), SupportedLanguage::Rust);
    assert_eq!(SupportedLanguage::detect("users"), SupportedLanguage::Rust);
    assert_eq!(SupportedLanguage::detect("abc def"), SupportedLanguage::C);
}
