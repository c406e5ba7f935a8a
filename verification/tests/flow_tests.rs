use rustagent::flow::{
    decide_editor_action, extract_code_from_response, insertion_confirmation, language_name,
    looks_like_code, plan_chat_message, temp_source_file, ChatPlan, wants_clear_editor, wants_clear_editor_lowercase,
    wants_code, wants_code_lowercase, EditorAction, ACTION_KEYWORDS,
};
use rustagent::language::SupportedLanguage;
use rustagent::platform::{python_command, rust_compiler, HostOs};

const OS: HostOs = HostOs::Linux;
const TMP: &str = "/tmp";

// ------------------------------------------------------------------
// wants_clear_editor()
// ------------------------------------------------------------------

#[test]
fn clear_editor_phrases_are_detected() {
    for phrase in [
        "clear editor",
        "clear the editor",
        "empty editor",
        "empty the editor",
        "wipe editor",
        "wipe the editor",
        "reset editor",
        "reset the editor",
    ] {
        assert!(wants_clear_editor(phrase), "expected true for: {phrase}");
    }
}

#[test]
fn clear_editor_is_case_insensitive() {
    assert!(wants_clear_editor("CLEAR EDITOR"));
    assert!(wants_clear_editor("Please Clear The Editor"));
}

#[test]
fn non_clear_messages_are_not_detected() {
    assert!(!wants_clear_editor("write a function"));
    assert!(!wants_clear_editor("hello"));
    assert!(!wants_clear_editor(""));
}

#[test]
fn lowercase_variants_do_not_lower() {
    assert!(wants_clear_editor_lowercase("please clear the editor"));
    assert!(!wants_clear_editor_lowercase("CLEAR EDITOR"));
    assert!(wants_code_lowercase("write it"));
    assert!(!wants_code_lowercase("WRITE IT"));
}

// ------------------------------------------------------------------
// wants_code()
// ------------------------------------------------------------------

#[test]
fn action_keywords_trigger_code_generation() {
    for keyword in ACTION_KEYWORDS {
        assert!(
            wants_code(&format!("please {keyword} a program")),
            "expected true for keyword: {keyword}"
        );
    }
}

#[test]
fn wants_code_is_case_insensitive() {
    assert!(wants_code("WRITE a function"));
    assert!(wants_code("Please Generate code"));
}

#[test]
fn plain_questions_do_not_trigger_code() {
    assert!(!wants_code("what is the weather?"));
    assert!(!wants_code("hello there"));
    assert!(!wants_code(""));
}

// ------------------------------------------------------------------
// decide_editor_action()
// ------------------------------------------------------------------

#[test]
fn inserts_code_when_requested_and_present() {
    let response = "Here:\n```python\ndef foo():\n    return 1\n```";
    let action = decide_editor_action(response, true, SupportedLanguage::Python);
    match action {
        EditorAction::Insert { language, code } => {
            assert_eq!(language, SupportedLanguage::Python);
            assert!(code.contains("def foo():"));
        }
        EditorAction::ShowResponse => panic!("expected Insert"),
    }
}

#[test]
fn shows_response_when_no_code_requested() {
    let response = "Just some explanation, no code.";
    let action = decide_editor_action(response, false, SupportedLanguage::Python);
    assert_eq!(action, EditorAction::ShowResponse);
}

#[test]
fn shows_response_when_code_requested_but_absent() {
    let response = "I can't generate that right now.";
    let action = decide_editor_action(response, true, SupportedLanguage::Python);
    assert_eq!(action, EditorAction::ShowResponse);
}

#[test]
fn inserts_code_with_detected_language() {
    let response = "```rust\nfn main() {}\n```";
    let action = decide_editor_action(response, true, SupportedLanguage::Rust);
    match action {
        EditorAction::Insert { language, code } => {
            assert_eq!(language, SupportedLanguage::Rust);
            assert!(code.contains("fn main()"));
        }
        EditorAction::ShowResponse => panic!("expected Insert"),
    }
}

// ------------------------------------------------------------------
// insertion_confirmation()
// ------------------------------------------------------------------

#[test]
fn confirmation_mentions_language_and_execute() {
    let msg = insertion_confirmation(SupportedLanguage::Python);
    assert!(msg.contains("Python"));
    assert!(msg.contains("Execute Code"));
    assert!(msg.contains("code editor"));
}

#[test]
fn confirmation_is_exact() {
    assert_eq!(
        insertion_confirmation(SupportedLanguage::Cpp),
        "I've inserted the generated **C++** code into the code editor for you. You can review it there and press **Execute Code** to run it in the terminal."
    );
}

#[test]
fn language_names() {
    assert_eq!(language_name(SupportedLanguage::Html), "HTML");
    assert_eq!(language_name(SupportedLanguage::JavaScript), "JavaScript");
    assert_eq!(language_name(SupportedLanguage::Go), "Go");
}

// ------------------------------------------------------------------
// temp_source_file()
// ------------------------------------------------------------------

#[test]
fn temp_file_uses_language_extension() {
    assert_eq!(temp_source_file(SupportedLanguage::Python), "main.py");
    assert_eq!(temp_source_file(SupportedLanguage::Rust), "main.rs");
    assert_eq!(temp_source_file(SupportedLanguage::JavaScript), "main.js");
    assert_eq!(temp_source_file(SupportedLanguage::Go), "main.go");
}

#[test]
fn temp_file_java_uses_capital_main() {
    assert_eq!(temp_source_file(SupportedLanguage::Java), "Main.java");
}

#[test]
fn java_editor_to_terminal_handoff_is_consistent() {
    let file = temp_source_file(SupportedLanguage::Java);
    assert_eq!(file, "Main.java");

    let command = SupportedLanguage::Java.run_command(OS, &file, TMP);
    assert!(command.contains("Main.java"), "command: {command}");
    assert!(command.contains("java Main"), "command: {command}");
}

// ------------------------------------------------------------------
// Full chat -> editor -> terminal flow
// ------------------------------------------------------------------

#[test]
fn full_flow_python_chat_to_terminal() {
    let user_message = "write python code to print hello";
    let detected = SupportedLanguage::detect(user_message);
    assert_eq!(detected, SupportedLanguage::Python);
    assert!(wants_code(user_message));

    let ai_response = "```python\ndef hello():\n    print('hello')\n```";
    let action = decide_editor_action(ai_response, wants_code(user_message), detected);

    let (language, code) = match action {
        EditorAction::Insert { language, code } => (language, code),
        EditorAction::ShowResponse => panic!("expected code insertion"),
    };
    assert_eq!(language, SupportedLanguage::Python);
    assert!(code.contains("def hello():"));

    let file = temp_source_file(language);
    assert_eq!(file, "main.py");
    let command = language.run_command(OS, &file, TMP);
    assert!(command.contains(python_command(OS)));
    assert!(command.contains("main.py"));
}

#[test]
fn full_flow_rust_chat_to_terminal() {
    let user_message = "generate a rust program";
    let detected = SupportedLanguage::detect(user_message);
    assert_eq!(detected, SupportedLanguage::Rust);
    assert!(wants_code(user_message));

    let ai_response = "```rust\nfn main() {\n    println!(\"hi\");\n}\n```";
    let action = decide_editor_action(ai_response, wants_code(user_message), detected);

    let (language, code) = match action {
        EditorAction::Insert { language, code } => (language, code),
        EditorAction::ShowResponse => panic!("expected code insertion"),
    };
    assert_eq!(language, SupportedLanguage::Rust);
    assert!(code.contains("fn main()"));

    let file = temp_source_file(language);
    assert_eq!(file, "main.rs");
    let command = language.run_command(OS, &file, TMP);
    assert!(command.contains(rust_compiler()));
    assert!(command.contains("main.rs"));
}

#[test]
fn full_flow_clear_editor_short_circuits() {
    let user_message = "please clear the editor";
    assert!(wants_clear_editor(user_message));
    assert!(!wants_code(user_message));
}

#[test]
fn full_flow_plain_question_does_not_touch_editor() {
    let user_message = "what is the capital of France?";
    assert!(!wants_code(user_message));
    assert!(!wants_clear_editor(user_message));

    let ai_response = "The capital of France is Paris.";
    let action = decide_editor_action(
        ai_response,
        wants_code(user_message),
        SupportedLanguage::Python,
    );
    assert_eq!(action, EditorAction::ShowResponse);
}

// ------------------------------------------------------------------
// extract_code_from_response()
// ------------------------------------------------------------------

#[test]
fn extract_no_code_returns_empty() {
    assert_eq!(
        extract_code_from_response("Just some prose, no code here.", SupportedLanguage::Python),
        ""
    );
    assert_eq!(extract_code_from_response("", SupportedLanguage::Python), "");
}

#[test]
fn extract_untagged_fence_is_accepted() {
    let code = extract_code_from_response("```\nprint('hello')\n```", SupportedLanguage::Python);
    assert!(code.contains("print('hello')"));
}

#[test]
fn extract_wrong_language_fence_is_ignored() {
    let code = extract_code_from_response("```rust\nfn main() {}\n```", SupportedLanguage::Python);
    assert_eq!(code, "");
}

#[test]
fn extract_multiple_blocks_are_concatenated() {
    let code = extract_code_from_response(
        "First:\n```python\ndef a():\n    pass\n```\nSecond:\n```python\ndef b():\n    pass\n```",
        SupportedLanguage::Python,
    );
    assert!(code.contains("def a():"));
    assert!(code.contains("def b():"));
}

#[test]
fn extract_preserves_special_characters() {
    let code = extract_code_from_response(
        "```python\nprint(\"$HOME\")\nprint('it\'s')\n```",
        SupportedLanguage::Python,
    );
    assert!(code.contains("$HOME"));
    assert!(code.contains("it's"));
}

#[test]
fn extract_handles_very_long_response() {
    let mut body = String::new();
    for i in 0..2000 {
        body.push_str(&format!("line_{i}\n"));
    }
    let response = format!("```python\n{body}```");
    let code = extract_code_from_response(&response, SupportedLanguage::Python);
    assert!(code.contains("line_0"));
    assert!(code.contains("line_1999"));
    assert!(code.lines().count() >= 2000);
}

#[test]
fn extract_inline_backticks_only_when_code_like() {
    let code = extract_code_from_response(
        "Use `def foo():` to define a function.",
        SupportedLanguage::Python,
    );
    assert!(code.contains("def foo():"));

    let not_code = extract_code_from_response("Say `hello` to the user.", SupportedLanguage::Python);
    assert_eq!(not_code, "");
}

#[test]
fn extract_unterminated_fence_still_yields_code() {
    let code = extract_code_from_response("```python\ndef foo():\n    pass", SupportedLanguage::Python);
    assert!(code.contains("def foo():"));
    assert!(code.contains("pass"));
}

#[test]
fn extract_exact_results() {
    assert_eq!(
        extract_code_from_response("```python\ndef a():\n    pass\n\n\n```", SupportedLanguage::Python),
        "def a():\n    pass\n"
    );
    assert_eq!(
        extract_code_from_response(
            "x\n```py\na = 1\n```\ny\n```PYTHON3\nb = 2\r\n```",
            SupportedLanguage::Python
        ),
        "a = 1\n\nb = 2\n"
    );
    // A fence with only blank lines contributes nothing.
    assert_eq!(
        extract_code_from_response("```\n   \n```", SupportedLanguage::Go),
        ""
    );
    // An indented fence still counts; tags are matched by prefix.
    assert_eq!(
        extract_code_from_response("  ```golang\nfmt.Println(1)\n  ```", SupportedLanguage::Go),
        "fmt.Println(1)\n"
    );
    // Inline spans are each followed by a newline.
    assert_eq!(
        extract_code_from_response("`let x = 1;` and `fn f() {}`", SupportedLanguage::Rust),
        "let x = 1;\nfn f() {}\n"
    );
}

// ------------------------------------------------------------------
// decide_editor_action() edge cases
// ------------------------------------------------------------------

#[test]
fn decide_empty_response_shows_response() {
    assert_eq!(
        decide_editor_action("", true, SupportedLanguage::Python),
        EditorAction::ShowResponse
    );
}

#[test]
fn decide_code_present_but_not_requested_shows_response() {
    let response = "```python\ndef foo():\n    pass\n```";
    assert_eq!(
        decide_editor_action(response, false, SupportedLanguage::Python),
        EditorAction::ShowResponse
    );
}

#[test]
fn decide_prose_when_code_requested_shows_response() {
    let response = "I'm sorry, I can't write that.";
    assert_eq!(
        decide_editor_action(response, true, SupportedLanguage::Python),
        EditorAction::ShowResponse
    );
}

// ------------------------------------------------------------------
// looks_like_code()
// ------------------------------------------------------------------

#[test]
fn looks_like_code_rejects_plain_text() {
    assert!(!looks_like_code("hello world", SupportedLanguage::Python));
    assert!(!looks_like_code("just some words", SupportedLanguage::Rust));
    assert!(!looks_like_code("a random phrase", SupportedLanguage::JavaScript));
    assert!(!looks_like_code("nothing here", SupportedLanguage::Go));
    assert!(!looks_like_code("plain text", SupportedLanguage::Java));
}

#[test]
fn looks_like_code_accepts_code() {
    assert!(looks_like_code("def foo(): pass", SupportedLanguage::Python));
    assert!(looks_like_code("fn main() {}", SupportedLanguage::Rust));
    assert!(looks_like_code("const x = 1;", SupportedLanguage::JavaScript));
    assert!(looks_like_code("package main", SupportedLanguage::Go));
    assert!(looks_like_code("public class Foo", SupportedLanguage::Java));
    assert!(looks_like_code("<html>", SupportedLanguage::Html));
    assert!(looks_like_code("body { color: red; }", SupportedLanguage::Css));
    assert!(looks_like_code("#include <stdio.h>", SupportedLanguage::C));
    assert!(looks_like_code("std::cout", SupportedLanguage::Cpp));
    assert!(looks_like_code("interface Foo", SupportedLanguage::TypeScript));
}

#[test]
fn css_needs_a_brace_and_a_property() {
    assert!(!looks_like_code("color: red", SupportedLanguage::Css));
    assert!(!looks_like_code("{ }", SupportedLanguage::Css));
    assert!(looks_like_code("p { margin: 0 }", SupportedLanguage::Css));
}

#[test]
fn full_flow_all_languages_produce_run_command() {
    let cases: &[(&str, &str, SupportedLanguage)] = &[
        ("write python", "```python\nprint('hi')\n```", SupportedLanguage::Python),
        ("write rust", "```rust\nfn main() {}\n```", SupportedLanguage::Rust),
        (
            "write javascript",
            "```javascript\nconsole.log('hi');\n```",
            SupportedLanguage::JavaScript,
        ),
        (
            "write typescript",
            "```typescript\nconst x: number = 1;\n```",
            SupportedLanguage::TypeScript,
        ),
        ("write html", "```html\n<html></html>\n```", SupportedLanguage::Html),
        ("write css", "```css\nbody { color: red; }\n```", SupportedLanguage::Css),
        ("write c code", "```c\nint main() { return 0; }\n```", SupportedLanguage::C),
        ("write c++", "```cpp\nint main() { return 0; }\n```", SupportedLanguage::Cpp),
        ("write java", "```java\npublic class Main {}\n```", SupportedLanguage::Java),
        (
            "write go code",
            "```go\npackage main\nfunc main() {}\n```",
            SupportedLanguage::Go,
        ),
    ];

    for (msg, response, expected_lang) in cases {
        let detected = SupportedLanguage::detect(msg);
        assert_eq!(detected, *expected_lang, "detect failed for: {msg}");
        assert!(wants_code(msg), "wants_code failed for: {msg}");

        let action = decide_editor_action(response, true, detected);
        let (lang, code) = match action {
            EditorAction::Insert { language, code } => (language, code),
            EditorAction::ShowResponse => panic!("no code inserted for: {msg}"),
        };
        assert_eq!(lang, *expected_lang);
        assert!(!code.trim().is_empty(), "empty code for: {msg}");

        let file = temp_source_file(lang);
        let command = lang.run_command(OS, &file, TMP);
        assert!(!command.trim().is_empty(), "empty command for: {msg}");
    }
}

#[test]
fn chat_plans() {
    assert_eq!(plan_chat_message("   \n"), ChatPlan::Ignore);
    assert_eq!(plan_chat_message(""), ChatPlan::Ignore);
    assert_eq!(plan_chat_message("Please CLEAR the editor"), ChatPlan::ClearEditor);
    assert_eq!(
        plan_chat_message("write a golang program"),
        ChatPlan::AskModel {
            language: SupportedLanguage::Go,
            wants_code: true
        }
    );
    assert_eq!(
        plan_chat_message("what is the capital of France?"),
        ChatPlan::AskModel {
            language: SupportedLanguage::Python,
            wants_code: false
        }
    );
}

#[test]
fn extract_block_after_other_language_block() {
    let code = extract_code_from_response(
        "```rust\nlet x = 1;\n```\n```python\nprint(1)\n```",
        SupportedLanguage::Python,
    );
    assert_eq!(code, "print(1)\n");
}

#[test]
fn extract_closing_fence_never_opens_a_block() {
    let code = extract_code_from_response(
        "```rust\nfn main() {}\n```\ntext between\n```\nprint(2)\n```",
        SupportedLanguage::Python,
    );
    assert_eq!(code, "print(2)\n");
    let none = extract_code_from_response(
        "```rust\nfn main() {}\n```\nplain prose after the block",
        SupportedLanguage::Python,
    );
    assert_eq!(none, "");
}

#[test]
fn clear_request_inside_longer_text() {
    assert!(wants_clear_editor("clear the editor"));
    assert!(wants_clear_editor("Hi! Could you please CLEAR THE EDITOR for me? Thanks."));
    assert!(wants_code("write"));
    assert!(wants_code("Please WRITE something nice"));
}
