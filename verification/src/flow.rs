//! The chat -> editor -> terminal flow.
//!
//! Decisions taken when a user sends a message (clear the editor? generate
//! code?) and when the model answers (extract the code for the editor, or show
//! the answer), and the names used when the editor's code is run.
use vstd::prelude::*;
use vstd::string::*;
use crate::language::SupportedLanguage;
use crate::text::{
    append_chars, chars_of, contains_str, is_blank, lines_chars, lowercase_chars,
    mentions_any_exec, split_chars, starts_with_chars, string_from_chars, strip_prefix_all_chars,
    trim_chars, trim_end_chars, trim_start_chars,
};

verus! {

/// Keywords that indicate the user wants code generated.
pub const ACTION_KEYWORDS: [&'static str; 11] = [
    "write",
    "generate",
    "create",
    "make",
    "build",
    "code",
    "implement",
    "program",
    "script",
    "function",
    "class",
];

/// The views of `ACTION_KEYWORDS`.
pub open spec fn action_keywords() -> Seq<Seq<char>> {
    seq![
        "write"@,
        "generate"@,
        "create"@,
        "make"@,
        "build"@,
        "code"@,
        "implement"@,
        "program"@,
        "script"@,
        "function"@,
        "class"@,
    ]
}

/// The phrases that ask for the editor to be cleared.
pub open spec fn clear_editor_phrases() -> Seq<Seq<char>> {
    seq![
        "clear editor"@,
        "clear the editor"@,
        "empty editor"@,
        "empty the editor"@,
        "wipe editor"@,
        "wipe the editor"@,
        "reset editor"@,
        "reset the editor"@,
    ]
}

/// Whether an already lower-cased message asks for the editor to be cleared.
pub fn wants_clear_editor_lowercase(lower: &str) -> (res: bool)
    ensures
        res == crate::text::mentions_any(lower@, clear_editor_phrases()),
{
    let l = chars_of(lower);
    clear_phrases_in(&l)
}

fn clear_phrases_in(l: &Vec<char>) -> (res: bool)
    ensures
        res == crate::text::mentions_any(l@, clear_editor_phrases()),
{
    let phrases: [&str; 8] = [
        "clear editor",
        "clear the editor",
        "empty editor",
        "empty the editor",
        "wipe editor",
        "wipe the editor",
        "reset editor",
        "reset the editor",
    ];
    assert(phrases@.map_values(|w: &str| w@) =~= clear_editor_phrases());
    mentions_any_exec(l, &phrases)
}

/// Whether the user wants the editor cleared; case-insensitive.
pub fn wants_clear_editor(message: &str) -> (res: bool)
    ensures
        res == crate::text::mentions_any(crate::text::to_lower(message@), clear_editor_phrases()),
{
    let l = lowercase_chars(message);
    clear_phrases_in(&l)
}

fn action_keywords_in(l: &Vec<char>) -> (res: bool)
    ensures
        res == crate::text::mentions_any(l@, action_keywords()),
{
    let words = ACTION_KEYWORDS;
    assert(words@.map_values(|w: &str| w@) =~= action_keywords());
    mentions_any_exec(l, &words)
}

/// Whether an already lower-cased message asks for code.
pub fn wants_code_lowercase(lower: &str) -> (res: bool)
    ensures
        res == crate::text::mentions_any(lower@, action_keywords()),
{
    let l = chars_of(lower);
    action_keywords_in(&l)
}

/// Whether the user wants code generated: the message mentions one of
/// `ACTION_KEYWORDS`, case-insensitively.
pub fn wants_code(message: &str) -> (res: bool)
    ensures
        res == crate::text::mentions_any(crate::text::to_lower(message@), action_keywords()),
{
    let l = lowercase_chars(message);
    action_keywords_in(&l)
}

/// What to do with a message the user sends.
#[derive(Clone, Copy, Debug, PartialEq, Eq, Structural)]
pub enum ChatPlan {
    /// The message is empty or whitespace only: nothing is sent.
    Ignore,
    /// The user asked for the editor to be cleared; the model is not asked.
    ClearEditor,
    /// Ask the model, remembering the language the message is about and
    /// whether it asks for code.
    AskModel { language: SupportedLanguage, wants_code: bool },
}

/// The plan for a message: ignore it when it is blank, clear the editor when
/// it asks for that, and otherwise ask the model.
pub open spec fn plan_spec(message: Seq<char>) -> ChatPlan {
    let l = crate::text::to_lower(message);
    if crate::text::all_ws(message) {
        ChatPlan::Ignore
    } else if crate::text::mentions_any(l, clear_editor_phrases()) {
        ChatPlan::ClearEditor
    } else {
        ChatPlan::AskModel {
            language: crate::language::detect_spec(l),
            wants_code: crate::text::mentions_any(l, action_keywords()),
        }
    }
}

/// Decides what to do with a chat message the user sends.
pub fn plan_chat_message(message: &str) -> (res: ChatPlan)
    ensures
        res == plan_spec(message@),
{
    if !crate::language::should_send_message(message) {
        return ChatPlan::Ignore;
    }
    if wants_clear_editor(message) {
        return ChatPlan::ClearEditor;
    }
    ChatPlan::AskModel {
        language: SupportedLanguage::detect(message),
        wants_code: wants_code(message),
    }
}

/// What to do with a model response.
#[derive(Debug, PartialEq, Eq)]
pub enum EditorAction {
    /// Insert this code into the editor, switching to the given language.
    Insert { language: SupportedLanguage, code: String },
    /// Show the raw response in the chat (no code to insert).
    ShowResponse,
}

/// The human-readable name of a language.
pub open spec fn language_name_spec(lang: SupportedLanguage) -> Seq<char> {
    match lang {
        SupportedLanguage::Python => "Python"@,
        SupportedLanguage::Rust => "Rust"@,
        SupportedLanguage::JavaScript => "JavaScript"@,
        SupportedLanguage::TypeScript => "TypeScript"@,
        SupportedLanguage::Html => "HTML"@,
        SupportedLanguage::Css => "CSS"@,
        SupportedLanguage::C => "C"@,
        SupportedLanguage::Cpp => "C++"@,
        SupportedLanguage::Java => "Java"@,
        SupportedLanguage::Go => "Go"@,
    }
}

/// Human-readable name for a language, used in chat messages.
pub fn language_name(lang: SupportedLanguage) -> (res: &'static str)
    ensures
        res@ == language_name_spec(lang),
{
    match lang {
        SupportedLanguage::Python => "Python",
        SupportedLanguage::Rust => "Rust",
        SupportedLanguage::JavaScript => "JavaScript",
        SupportedLanguage::TypeScript => "TypeScript",
        SupportedLanguage::Html => "HTML",
        SupportedLanguage::Css => "CSS",
        SupportedLanguage::C => "C",
        SupportedLanguage::Cpp => "C++",
        SupportedLanguage::Java => "Java",
        SupportedLanguage::Go => "Go",
    }
}

/// The confirmation shown in the chat after code was put in the editor.
pub open spec fn insertion_confirmation_spec(lang: SupportedLanguage) -> Seq<char> {
    "I've inserted the generated **"@ + language_name_spec(lang)
        + "** code into the code editor for you. You can review it there and press **Execute Code** to run it in the terminal."@
}

/// The confirmation message shown in chat after inserting code into the editor.
pub fn insertion_confirmation(language: SupportedLanguage) -> (res: String)
    ensures
        res@ == insertion_confirmation_spec(language),
{
    let mut res = String::from_str("I've inserted the generated **");
    res.append(language_name(language));
    res.append(
        "** code into the code editor for you. You can review it there and press **Execute Code** to run it in the terminal.",
    );
    res
}

/// The temporary source file name for a language: `Main.java` for Java, whose
/// compiler wants the file named after the public class `Main`, and
/// `main.<extension>` for every other language.
pub open spec fn temp_source_file_spec(lang: SupportedLanguage) -> Seq<char> {
    if lang == SupportedLanguage::Java {
        "Main.java"@
    } else {
        "main."@ + crate::language::extension_spec(lang)
    }
}

/// The temp file name used for a language's source file.
pub fn temp_source_file(language: SupportedLanguage) -> (res: String)
    ensures
        res@ == temp_source_file_spec(language),
{
    if language == SupportedLanguage::Java {
        return String::from_str("Main.java");
    }
    let mut res = String::from_str("main.");
    res.append(language.extension());
    res
}

// ---------------------------------------------------------------------------
// Code detection
// ---------------------------------------------------------------------------

/// Some of `words` occurs in `s`.
pub open spec fn any_in(s: Seq<char>, words: Seq<Seq<char>>) -> bool {
    crate::text::mentions_any(s, words)
}

/// Whether a snippet looks like code of the given language: it holds one of
/// the language's characteristic fragments (for CSS, a `{` together with one
/// of its common properties).
pub open spec fn looks_like_code_spec(s: Seq<char>, lang: SupportedLanguage) -> bool {
    match lang {
        SupportedLanguage::Python => any_in(
            s,
            seq!["def "@, "import "@, "print("@, "class "@, "if __name__"@],
        ),
        SupportedLanguage::Rust => any_in(s, seq!["fn "@, "let "@, "use "@, "fn main"@]),
        SupportedLanguage::JavaScript => any_in(
            s,
            seq!["function "@, "const "@, "let "@, "console.log"@, "=>"@],
        ),
        SupportedLanguage::TypeScript => any_in(
            s,
            seq!["function "@, "const "@, "let "@, "interface "@, ": string"@],
        ),
        SupportedLanguage::Html => any_in(s, seq!["<html"@, "<body"@, "<div"@, "<!DOCTYPE"@]),
        SupportedLanguage::Css => crate::text::has_substr(s, "{"@) && any_in(
            s,
            seq!["color"@, "margin"@, "padding"@, "display"@],
        ),
        SupportedLanguage::C => any_in(s, seq!["#include"@, "int main"@, "printf"@]),
        SupportedLanguage::Cpp => any_in(s, seq!["#include"@, "int main"@, "std::"@, "cout"@]),
        SupportedLanguage::Java => any_in(
            s,
            seq!["public class"@, "public static void main"@, "System.out"@],
        ),
        SupportedLanguage::Go => any_in(s, seq!["package main"@, "func main"@, "fmt."@]),
    }
}

fn looks_like_code_chars(s: &Vec<char>, lang: SupportedLanguage) -> (res: bool)
    ensures
        res == looks_like_code_spec(s@, lang),
{
    match lang {
        SupportedLanguage::Python => {
            let w: [&str; 5] = ["def ", "import ", "print(", "class ", "if __name__"];
            assert(w@.map_values(|x: &str| x@) =~= seq![
                "def "@,
                "import "@,
                "print("@,
                "class "@,
                "if __name__"@,
            ]);
            mentions_any_exec(s, &w)
        },
        SupportedLanguage::Rust => {
            let w: [&str; 4] = ["fn ", "let ", "use ", "fn main"];
            assert(w@.map_values(|x: &str| x@) =~= seq!["fn "@, "let "@, "use "@, "fn main"@]);
            mentions_any_exec(s, &w)
        },
        SupportedLanguage::JavaScript => {
            let w: [&str; 5] = ["function ", "const ", "let ", "console.log", "=>"];
            assert(w@.map_values(|x: &str| x@) =~= seq![
                "function "@,
                "const "@,
                "let "@,
                "console.log"@,
                "=>"@,
            ]);
            mentions_any_exec(s, &w)
        },
        SupportedLanguage::TypeScript => {
            let w: [&str; 5] = ["function ", "const ", "let ", "interface ", ": string"];
            assert(w@.map_values(|x: &str| x@) =~= seq![
                "function "@,
                "const "@,
                "let "@,
                "interface "@,
                ": string"@,
            ]);
            mentions_any_exec(s, &w)
        },
        SupportedLanguage::Html => {
            let w: [&str; 4] = ["<html", "<body", "<div", "<!DOCTYPE"];
            assert(w@.map_values(|x: &str| x@) =~= seq!["<html"@, "<body"@, "<div"@, "<!DOCTYPE"@]);
            mentions_any_exec(s, &w)
        },
        SupportedLanguage::Css => {
            let w: [&str; 4] = ["color", "margin", "padding", "display"];
            assert(w@.map_values(|x: &str| x@) =~= seq![
                "color"@,
                "margin"@,
                "padding"@,
                "display"@,
            ]);
            contains_str(s, "{") && mentions_any_exec(s, &w)
        },
        SupportedLanguage::C => {
            let w: [&str; 3] = ["#include", "int main", "printf"];
            assert(w@.map_values(|x: &str| x@) =~= seq!["#include"@, "int main"@, "printf"@]);
            mentions_any_exec(s, &w)
        },
        SupportedLanguage::Cpp => {
            let w: [&str; 4] = ["#include", "int main", "std::", "cout"];
            assert(w@.map_values(|x: &str| x@) =~= seq!["#include"@, "int main"@, "std::"@, "cout"@]);
            mentions_any_exec(s, &w)
        },
        SupportedLanguage::Java => {
            let w: [&str; 3] = ["public class", "public static void main", "System.out"];
            assert(w@.map_values(|x: &str| x@) =~= seq![
                "public class"@,
                "public static void main"@,
                "System.out"@,
            ]);
            mentions_any_exec(s, &w)
        },
        SupportedLanguage::Go => {
            let w: [&str; 3] = ["package main", "func main", "fmt."];
            assert(w@.map_values(|x: &str| x@) =~= seq!["package main"@, "func main"@, "fmt."@]);
            mentions_any_exec(s, &w)
        },
    }
}

/// Heuristic to decide whether a snippet looks like code for the given language.
pub fn looks_like_code(snippet: &str, language: SupportedLanguage) -> (res: bool)
    ensures
        res == looks_like_code_spec(snippet@, language),
{
    let s = chars_of(snippet);
    looks_like_code_chars(&s, language)
}

// ---------------------------------------------------------------------------
// Code extraction
// ---------------------------------------------------------------------------

/// The language tags accepted on a markdown code fence for each language.
pub open spec fn lang_tags(lang: SupportedLanguage) -> Seq<Seq<char>> {
    match lang {
        SupportedLanguage::Python => seq!["python"@, "py"@],
        SupportedLanguage::Rust => seq!["rust"@, "rs"@],
        SupportedLanguage::JavaScript => seq!["javascript"@, "js"@, "node"@],
        SupportedLanguage::TypeScript => seq!["typescript"@, "ts"@, "tsx"@],
        SupportedLanguage::Html => seq!["html"@, "htm"@],
        SupportedLanguage::Css => seq!["css"@],
        SupportedLanguage::C => seq!["c"@],
        SupportedLanguage::Cpp => seq!["cpp"@, "c++"@, "cxx"@],
        SupportedLanguage::Java => seq!["java"@],
        SupportedLanguage::Go => seq!["go"@, "golang"@],
    }
}

/// The markdown fence marker.
pub open spec fn fence() -> Seq<char> {
    "```"@
}

/// The lower-cased tag of a fence line whose leading whitespace is gone:
/// what follows the fence markers, trimmed.
pub open spec fn fence_tag(trimmed: Seq<char>) -> Seq<char> {
    crate::text::to_lower(crate::text::trim_ws(crate::text::strip_prefix_all(trimmed, fence())))
}

/// A fence with this tag opens a block for `lang`: the tag is empty or starts
/// with one of the language's tags.
pub open spec fn tag_matches(tag: Seq<char>, lang: SupportedLanguage) -> bool {
    tag.len() == 0 || exists|k: int|
        0 <= k < lang_tags(lang).len() && crate::text::has_prefix(tag, #[trigger] lang_tags(lang)[k])
}

/// A line is a fence line: after its leading whitespace it starts with the
/// fence marker.
pub open spec fn is_fence_line(line: Seq<char>) -> bool {
    crate::text::has_prefix(crate::text::trim_start_ws(line), fence())
}

/// A fence line that opens a block for `lang`: its tag matches the language.
pub open spec fn opens_block(line: Seq<char>, lang: SupportedLanguage) -> bool {
    is_fence_line(line) && tag_matches(fence_tag(crate::text::trim_start_ws(line)), lang)
}

/// The index of the first fence line at or after `i`, or `lines.len()` when
/// there is none.
pub open spec fn next_fence(lines: Seq<Seq<char>>, i: int) -> int
    decreases lines.len() - i,
{
    if i >= lines.len() {
        lines.len() as int
    } else if is_fence_line(lines[i]) {
        i
    } else {
        next_fence(lines, i + 1)
    }
}

/// The lines of a block, each followed by a newline.
pub open spec fn join_lines(body: Seq<Seq<char>>) -> Seq<char>
    decreases body.len(),
{
    if body.len() == 0 {
        Seq::empty()
    } else {
        join_lines(body.drop_last()) + body.last() + seq!['\n']
    }
}

/// The code a closed block contributes: its lines, each followed by a
/// newline, and one newline more; nothing when the lines are all blank.
pub open spec fn block_code(body: Seq<Seq<char>>) -> Seq<char> {
    if crate::text::all_ws(join_lines(body)) {
        Seq::empty()
    } else {
        join_lines(body) + seq!['\n']
    }
}

/// The code of the fenced blocks from line `i` on.  Fence lines pair up: the
/// first one at or after `i` opens a block and the next one closes it, so a
/// closing fence never opens another block.  A block whose opening tag
/// matches `lang` contributes its code; a block tagged for another language
/// contributes nothing, and an opening fence that is never closed ends the
/// fenced code.
pub open spec fn fenced_from(lines: Seq<Seq<char>>, i: int, lang: SupportedLanguage) -> Seq<char>
    decreases lines.len() - i,
{
    let a = next_fence(lines, i);
    if a >= lines.len() {
        Seq::empty()
    } else {
        let b = next_fence(lines, a + 1);
        if b >= lines.len() {
            Seq::empty()
        } else {
            proof {
                lemma_next_fence_bounds(lines, i);
                lemma_next_fence_bounds(lines, a + 1);
            }
            (if opens_block(lines[a], lang) {
                block_code(lines.subrange(a + 1, b))
            } else {
                Seq::empty()
            }) + fenced_from(lines, b + 1, lang)
        }
    }
}

/// `next_fence` lies between `i` and the number of lines.
pub proof fn lemma_next_fence_bounds(lines: Seq<Seq<char>>, i: int)
    ensures
        i <= lines.len() ==> i <= next_fence(lines, i) <= lines.len(),
        i > lines.len() ==> next_fence(lines, i) == lines.len(),
        next_fence(lines, i) < lines.len() ==> is_fence_line(lines[next_fence(lines, i)]),
        forall|k: int| i <= k < next_fence(lines, i) ==> !is_fence_line(#[trigger] lines[k]),
    decreases lines.len() - i,
{
    if i < lines.len() && !is_fence_line(lines[i]) {
        lemma_next_fence_bounds(lines, i + 1);
    }
}

/// The code of the matching, closed fenced blocks of a response.
pub open spec fn fenced_code(response: Seq<char>, lang: SupportedLanguage) -> Seq<char> {
    fenced_from(crate::text::lines_of(response), 0, lang)
}

/// The code in inline backticks: every piece between a pair of backticks (the
/// odd-numbered pieces of the split) that is not blank and looks like code of
/// the language, each followed by a newline.
pub open spec fn inline_code(pieces: Seq<Seq<char>>, lang: SupportedLanguage) -> Seq<char>
    decreases pieces.len(),
{
    if pieces.len() == 0 {
        Seq::empty()
    } else {
        let prev = inline_code(pieces.drop_last(), lang);
        let p = pieces.last();
        if (pieces.len() - 1) % 2 == 1 && !crate::text::all_ws(p) && looks_like_code_spec(p, lang) {
            prev + p + seq!['\n']
        } else {
            prev
        }
    }
}

/// The code found in a response before clean-up: the fenced code, or, when
/// there is none, the inline code.
pub open spec fn raw_code(response: Seq<char>, lang: SupportedLanguage) -> Seq<char> {
    let fenced = fenced_code(response, lang);
    if fenced.len() == 0 {
        inline_code(crate::text::split_of(response, '`'), lang)
    } else {
        fenced
    }
}

/// The code extracted from a response: the raw code with trailing whitespace
/// replaced by a single newline, or nothing.
pub open spec fn extract_code_spec(response: Seq<char>, lang: SupportedLanguage) -> Seq<char> {
    let raw = raw_code(response, lang);
    if raw.len() == 0 {
        raw
    } else {
        crate::text::trim_end_ws(raw).push('\n')
    }
}

/// The accepted tags of a language.
fn lang_tags_exec(lang: SupportedLanguage) -> (res: Vec<&'static str>)
    ensures
        res@.map_values(|w: &str| w@) == lang_tags(lang),
{
    let v: Vec<&'static str> = match lang {
        SupportedLanguage::Python => vec!["python", "py"],
        SupportedLanguage::Rust => vec!["rust", "rs"],
        SupportedLanguage::JavaScript => vec!["javascript", "js", "node"],
        SupportedLanguage::TypeScript => vec!["typescript", "ts", "tsx"],
        SupportedLanguage::Html => vec!["html", "htm"],
        SupportedLanguage::Css => vec!["css"],
        SupportedLanguage::C => vec!["c"],
        SupportedLanguage::Cpp => vec!["cpp", "c++", "cxx"],
        SupportedLanguage::Java => vec!["java"],
        SupportedLanguage::Go => vec!["go", "golang"],
    };
    assert(v@.map_values(|w: &str| w@) =~= lang_tags(lang));
    v
}

/// Whether a fence tag opens a block for `lang`.
fn tag_matches_exec(tag: &Vec<char>, lang: SupportedLanguage) -> (res: bool)
    ensures
        res == tag_matches(tag@, lang),
{
    if tag.len() == 0 {
        return true;
    }
    let tags = lang_tags_exec(lang);
    let ghost ts = lang_tags(lang);
    let n = tags.len();
    for k in 0..n
        invariant
            n == tags@.len(),
            ts == tags@.map_values(|w: &str| w@),
            ts == lang_tags(lang),
            forall|q: int| 0 <= q < k ==> !crate::text::has_prefix(tag@, #[trigger] ts[q]),
    {
        let t = chars_of(tags[k]);
        if starts_with_chars(tag, &t) {
            assert(crate::text::has_prefix(tag@, ts[k as int]));
            return true;
        }
    }
    false
}

/// Whether a line is a fence line.
fn is_fence_line_exec(line: &Vec<char>) -> (res: bool)
    ensures
        res == is_fence_line(line@),
{
    let fence_chars = chars_of("```");
    proof {
        reveal_strlit("```");
    }
    let trimmed = trim_start_chars(line);
    starts_with_chars(&trimmed, &fence_chars)
}

/// Whether a fence line opens a block for `lang`.
fn opens_block_exec(line: &Vec<char>, lang: SupportedLanguage) -> (res: bool)
    requires
        is_fence_line(line@),
    ensures
        res == opens_block(line@, lang),
{
    let fence_chars = chars_of("```");
    proof {
        reveal_strlit("```");
    }
    let trimmed = trim_start_chars(line);
    let after = strip_prefix_all_chars(&trimmed, &fence_chars);
    let t = trim_chars(&after);
    let ts = string_from_chars(&t);
    let tag = lowercase_chars(ts.as_str());
    tag_matches_exec(&tag, lang)
}

/// The index of the first fence line at or after `i`.
fn next_fence_exec(lines: &Vec<Vec<char>>, i: usize) -> (res: usize)
    requires
        i <= lines.len(),
    ensures
        res as int == next_fence(crate::text::char_rows(lines@), i as int),
{
    let ghost rows = crate::text::char_rows(lines@);
    let mut j = i;
    while j < lines.len()
        invariant
            i <= j <= lines.len(),
            rows == crate::text::char_rows(lines@),
            next_fence(rows, i as int) == next_fence(rows, j as int),
        decreases lines.len() - j,
    {
        if is_fence_line_exec(&lines[j]) {
            return j;
        }
        j = j + 1;
    }
    j
}

/// The lines `from..to` of `lines`, each followed by a newline.
fn join_range(lines: &Vec<Vec<char>>, from: usize, to: usize) -> (res: Vec<char>)
    requires
        from <= to <= lines.len(),
    ensures
        res@ == join_lines(crate::text::char_rows(lines@).subrange(from as int, to as int)),
{
    let ghost rows = crate::text::char_rows(lines@);
    let mut res: Vec<char> = Vec::new();
    let mut k = from;
    assert(rows.subrange(from as int, from as int) =~= Seq::<Seq<char>>::empty());
    while k < to
        invariant
            from <= k <= to <= lines.len(),
            rows == crate::text::char_rows(lines@),
            res@ == join_lines(rows.subrange(from as int, k as int)),
        decreases to - k,
    {
        let ghost before = res@;
        append_chars(&mut res, &lines[k]);
        res.push('\n');
        assert(rows.subrange(from as int, k + 1).drop_last() =~= rows.subrange(from as int, k as int));
        assert(rows.subrange(from as int, k + 1).last() == lines@[k as int]@);
        assert(res@ =~= before + lines@[k as int]@ + seq!['\n']);
        k = k + 1;
    }
    res
}

/// The code of the matching, closed fenced blocks among the lines of a
/// response.
fn scan_fences(lines: &Vec<Vec<char>>, lang: SupportedLanguage) -> (res: Vec<char>)
    ensures
        res@ == fenced_from(crate::text::char_rows(lines@), 0, lang),
{
    let ghost rows = crate::text::char_rows(lines@);
    let ghost total = fenced_from(rows, 0, lang);
    let n = lines.len();
    let mut result: Vec<char> = Vec::new();
    let mut i: usize = 0;
    loop
        invariant
            n == lines@.len(),
            i <= n,
            rows == crate::text::char_rows(lines@),
            total == fenced_from(rows, 0, lang),
            result@ + fenced_from(rows, i as int, lang) == total,
        ensures
            result@ == total,
        decreases n - i,
    {
        let a = next_fence_exec(lines, i);
        proof {
            lemma_next_fence_bounds(rows, i as int);
        }
        if a >= n {
            assert(result@ + Seq::<char>::empty() =~= result@);
            break;
        }
        let b = next_fence_exec(lines, a + 1);
        proof {
            lemma_next_fence_bounds(rows, a + 1);
        }
        if b >= n {
            assert(result@ + Seq::<char>::empty() =~= result@);
            break;
        }
        let ghost before = result@;
        let ghost part = if opens_block(rows[a as int], lang) {
            block_code(rows.subrange(a + 1, b as int))
        } else {
            Seq::empty()
        };
        assert(fenced_from(rows, i as int, lang) == part + fenced_from(rows, b + 1, lang));
        if opens_block_exec(&lines[a], lang) {
            let body = join_range(lines, a + 1, b);
            if !is_blank(&body) {
                append_chars(&mut result, &body);
                result.push('\n');
                assert(result@ =~= before + part);
            } else {
                assert(part =~= Seq::<char>::empty());
                assert(result@ =~= before + part);
            }
        } else {
            assert(result@ =~= before + part);
        }
        assert(result@ + fenced_from(rows, b + 1, lang) =~= before + (part + fenced_from(
            rows,
            b + 1,
            lang,
        )));
        i = b + 1;
    }
    result
}

/// The inline code among the backtick-separated pieces of a response.
fn scan_inline(pieces: &Vec<Vec<char>>, lang: SupportedLanguage) -> (res: Vec<char>)
    ensures
        res@ == inline_code(crate::text::char_rows(pieces@), lang),
{
    let ghost rows = crate::text::char_rows(pieces@);
    let mut result: Vec<char> = Vec::new();
    let n = pieces.len();
    for i in 0..n
        invariant
            n == pieces@.len(),
            rows == crate::text::char_rows(pieces@),
            result@ == inline_code(rows.take(i as int), lang),
    {
        let p = &pieces[i];
        assert(rows.take(i + 1).drop_last() =~= rows.take(i as int));
        assert(rows.take(i + 1).last() == p@);
        if i % 2 == 1 && !is_blank(p) && looks_like_code_chars(p, lang) {
            append_chars(&mut result, p);
            result.push('\n');
            assert(result@ =~= inline_code(rows.take(i as int), lang) + p@ + seq!['\n']);
        }
    }
    assert(rows.take(n as int) =~= rows);
    result
}

/// Extracts code from a model response for the given language.  Fence lines
/// (```lang ... ```) pair up, each opening fence with the next one; the code
/// of every closed block whose tag matches the language, or that has no tag,
/// is taken, each non-blank block followed by a newline, while a block tagged
/// for another language is skipped whole.  When no fenced code is found,
/// inline backtick spans that look like code of the language are taken
/// instead.  Trailing whitespace of the result is replaced by a single
/// newline; the result is empty when nothing was found.
pub fn extract_code_from_response(response: &str, language: SupportedLanguage) -> (res: String)
    ensures
        res@ == extract_code_spec(response@, language),
{
    let resp = chars_of(response);
    let lines = lines_chars(&resp);
    let fenced = scan_fences(&lines, language);
    let raw = if fenced.len() == 0 {
        let pieces = split_chars(&resp, '`');
        scan_inline(&pieces, language)
    } else {
        fenced
    };
    if raw.len() == 0 {
        return String::new();
    }
    let mut t = trim_end_chars(&raw);
    proof {
        crate::text::lemma_trim_end_prefix(raw@);
    }
    if t.len() == 0 || t[t.len() - 1] != '\n' {
        t.push('\n');
    }
    string_from_chars(&t)
}

/// What to do with a response: when the user asked for code and the response
/// holds code for the detected language, insert that code; otherwise show the
/// response.
pub open spec fn decide_spec(response: Seq<char>, wants_code: bool, lang: SupportedLanguage) -> Option<
    Seq<char>,
> {
    if wants_code && extract_code_spec(response, lang).len() > 0 {
        Some(extract_code_spec(response, lang))
    } else {
        None
    }
}

/// Decides what to do with a model response given whether the user asked for
/// code: insert the extracted code (in the detected language) or show the raw
/// response.
pub fn decide_editor_action(response: &str, wants_code: bool, detected_language: SupportedLanguage) -> (res: EditorAction)
    ensures
        match decide_spec(response@, wants_code, detected_language) {
            Some(code) => res matches EditorAction::Insert { language, code: c } && language
                == detected_language && c@ == code,
            None => res is ShowResponse,
        },
{
    if wants_code {
        let code = extract_code_from_response(response, detected_language);
        if !code.as_str().is_empty() {
            return EditorAction::Insert { language: detected_language, code };
        }
    }
    EditorAction::ShowResponse
}

// ---------------------------------------------------------------------------
// Laws
// ---------------------------------------------------------------------------

/// Recognising a request to clear the editor ignores case: an ASCII message
/// and its upper-case form are treated alike.
pub proof fn law_clear_editor_ignores_ascii_case(m: Seq<char>)
    requires
        crate::text::is_ascii_seq(m),
    ensures
        crate::text::mentions_any(crate::text::to_lower(m), clear_editor_phrases())
            == crate::text::mentions_any(
            crate::text::to_lower(crate::text::ascii_upper(m)),
            clear_editor_phrases(),
        ),
{
    crate::text::lemma_to_lower_of_ascii_upper(m);
}

/// A request to clear the editor is still one when more text stands around
/// it: for ASCII messages, if `m` asks for the editor to be cleared, so does
/// `before + m + after`.
pub proof fn law_clear_request_survives_surrounding_text(
    before: Seq<char>,
    m: Seq<char>,
    after: Seq<char>,
)
    requires
        crate::text::is_ascii_seq(before),
        crate::text::is_ascii_seq(m),
        crate::text::is_ascii_seq(after),
        crate::text::mentions_any(crate::text::to_lower(m), clear_editor_phrases()),
    ensures
        crate::text::mentions_any(
            crate::text::to_lower(before + m + after),
            clear_editor_phrases(),
        ),
{
    crate::text::lemma_mentions_any_in_context(before, m, after, clear_editor_phrases());
}

/// A request for code is still one when more text stands around it: for
/// ASCII messages, if `m` mentions an action keyword, so does
/// `before + m + after`.
pub proof fn law_code_request_survives_surrounding_text(
    before: Seq<char>,
    m: Seq<char>,
    after: Seq<char>,
)
    requires
        crate::text::is_ascii_seq(before),
        crate::text::is_ascii_seq(m),
        crate::text::is_ascii_seq(after),
        crate::text::mentions_any(crate::text::to_lower(m), action_keywords()),
    ensures
        crate::text::mentions_any(crate::text::to_lower(before + m + after), action_keywords()),
{
    crate::text::lemma_mentions_any_in_context(before, m, after, action_keywords());
}

/// Recognising a request for code ignores case: an ASCII message and its
/// upper-case form are treated alike.
pub proof fn law_wants_code_ignores_ascii_case(m: Seq<char>)
    requires
        crate::text::is_ascii_seq(m),
    ensures
        crate::text::mentions_any(crate::text::to_lower(m), action_keywords())
            == crate::text::mentions_any(
            crate::text::to_lower(crate::text::ascii_upper(m)),
            action_keywords(),
        ),
{
    crate::text::lemma_to_lower_of_ascii_upper(m);
}

/// When the user did not ask for code the response is always shown, never
/// inserted into the editor.
pub proof fn law_no_code_requested_shows_response(response: Seq<char>, lang: SupportedLanguage)
    ensures
        decide_spec(response, false, lang) is None,
{
}

/// An empty response holds no code.
pub proof fn law_empty_response_has_no_code(lang: SupportedLanguage)
    ensures
        extract_code_spec(Seq::empty(), lang).len() == 0,
{
    let e: Seq<char> = Seq::empty();
    assert(crate::text::lines_of(e) =~= Seq::<Seq<char>>::empty());
    assert(fenced_code(e, lang) =~= Seq::<char>::empty());
    crate::text::lemma_next_index_of_bounds(e, 0, '`');
    let pieces = crate::text::split_of(e, '`');
    assert(e.subrange(0, 0) =~= e);
    assert(crate::text::next_index_of(e, 0, '`') == 0);
    assert(pieces =~= seq![e]);
    assert(pieces.drop_last() =~= Seq::<Seq<char>>::empty());
    assert(inline_code(Seq::<Seq<char>>::empty(), lang).len() == 0);
    assert(inline_code(pieces, lang) == inline_code(pieces.drop_last(), lang));
}

/// A sequence made of `p` and `q`, where `p` is empty or not blank and `q` is
/// empty or not blank, is empty or not blank.
proof fn lemma_concat_not_blank(p: Seq<char>, q: Seq<char>)
    requires
        p.len() == 0 || !crate::text::all_ws(p),
        q.len() == 0 || !crate::text::all_ws(q),
    ensures
        (p + q).len() == 0 || !crate::text::all_ws(p + q),
{
    if p.len() > 0 {
        let k = choose|k: int| 0 <= k < p.len() && !crate::text::is_ws(#[trigger] p[k]);
        assert((p + q)[k] == p[k]);
    } else if q.len() > 0 {
        let k = choose|k: int| 0 <= k < q.len() && !crate::text::is_ws(#[trigger] q[k]);
        assert((p + q)[p.len() + k] == q[k]);
    }
}

/// The fenced code is empty or holds something besides whitespace.
proof fn lemma_fenced_from_not_blank(lines: Seq<Seq<char>>, i: int, lang: SupportedLanguage)
    ensures
        fenced_from(lines, i, lang).len() == 0 || !crate::text::all_ws(fenced_from(lines, i, lang)),
    decreases lines.len() - i,
{
    let a = next_fence(lines, i);
    lemma_next_fence_bounds(lines, i);
    if a < lines.len() {
        let b = next_fence(lines, a + 1);
        lemma_next_fence_bounds(lines, a + 1);
        if b < lines.len() {
            lemma_fenced_from_not_blank(lines, b + 1, lang);
            let body = lines.subrange(a + 1, b);
            let part = if opens_block(lines[a], lang) {
                block_code(body)
            } else {
                Seq::empty()
            };
            if part.len() > 0 {
                let j = join_lines(body);
                let k = choose|k: int| 0 <= k < j.len() && !crate::text::is_ws(#[trigger] j[k]);
                assert(part[k] == j[k]);
            }
            lemma_concat_not_blank(part, fenced_from(lines, b + 1, lang));
        }
    }
}

/// The inline code is empty or holds something besides whitespace.
proof fn lemma_inline_code_not_blank(pieces: Seq<Seq<char>>, lang: SupportedLanguage)
    ensures
        inline_code(pieces, lang).len() == 0 || !crate::text::all_ws(inline_code(pieces, lang)),
    decreases pieces.len(),
{
    if pieces.len() > 0 {
        lemma_inline_code_not_blank(pieces.drop_last(), lang);
        let prev = inline_code(pieces.drop_last(), lang);
        let p = pieces.last();
        if (pieces.len() - 1) % 2 == 1 && !crate::text::all_ws(p) && looks_like_code_spec(p, lang) {
            let k = choose|k: int| 0 <= k < p.len() && !crate::text::is_ws(#[trigger] p[k]);
            assert(inline_code(pieces, lang)[prev.len() + k] == p[k]);
        }
    }
}

/// Extracted code is either empty or ends with a newline and holds something
/// besides whitespace; in particular code inserted into the editor is never
/// blank.
pub proof fn law_extracted_code_is_empty_or_a_nonblank_text(
    response: Seq<char>,
    lang: SupportedLanguage,
)
    ensures
        ({
            let c = extract_code_spec(response, lang);
            c.len() == 0 || (c.last() == '\n' && !crate::text::all_ws(c))
        }),
        decide_spec(response, true, lang) matches Some(c) ==> !crate::text::all_ws(c),
{
    let raw = raw_code(response, lang);
    lemma_fenced_from_not_blank(crate::text::lines_of(response), 0, lang);
    lemma_inline_code_not_blank(crate::text::split_of(response, '`'), lang);
    if raw.len() > 0 {
        crate::text::lemma_trim_end_all_ws(raw);
        crate::text::lemma_trim_end_prefix(raw);
        let t = crate::text::trim_end_ws(raw);
        let c = t.push('\n');
        assert(c[t.len() - 1] == t.last());
    }
}

/// The first fence at or after `i` is the first at or after `j` when no fence
/// lies between them.
proof fn lemma_next_fence_skip(lines: Seq<Seq<char>>, i: int, j: int)
    requires
        i <= j,
        forall|k: int| i <= k < j ==> !is_fence_line(#[trigger] lines[k]),
    ensures
        next_fence(lines, i) == next_fence(lines, j),
    decreases j - i,
{
    if i < j && i < lines.len() {
        lemma_next_fence_skip(lines, i + 1, j);
    } else if i < j {
        lemma_next_fence_bounds(lines, j);
    }
}

/// A block opened by a fence matching the language and closed by a fence keeps
/// its lines verbatim: it yields the lines, each followed by a newline, and
/// one newline more, unless they are all blank.
pub proof fn law_fenced_block_is_kept_verbatim(
    open: Seq<char>,
    body: Seq<Seq<char>>,
    close: Seq<char>,
    lang: SupportedLanguage,
)
    requires
        opens_block(open, lang),
        forall|i: int| 0 <= i < body.len() ==> !is_fence_line(#[trigger] body[i]),
        is_fence_line(close),
    ensures
        fenced_from(seq![open] + body + seq![close], 0, lang) == block_code(body),
{
    let all = seq![open] + body + seq![close];
    let n = body.len() as int;
    assert(all[0] == open);
    assert(all[n + 1] == close);
    assert forall|k: int| 1 <= k < n + 1 implies !is_fence_line(#[trigger] all[k]) by {
        assert(all[k] == body[k - 1]);
    }
    lemma_next_fence_skip(all, 1, n + 1);
    assert(all.subrange(1, n + 1) =~= body);
    assert(fenced_from(all, n + 2, lang) == Seq::<char>::empty());
    assert(block_code(body) + Seq::<char>::empty() =~= block_code(body));
}

/// A block whose fence is tagged for another language contributes no code,
/// and its closing fence opens no block.
pub proof fn law_fence_for_other_language_is_ignored(
    open: Seq<char>,
    body: Seq<Seq<char>>,
    close: Seq<char>,
    rest: Seq<Seq<char>>,
    lang: SupportedLanguage,
)
    requires
        is_fence_line(open),
        !opens_block(open, lang),
        forall|i: int| 0 <= i < body.len() ==> !is_fence_line(#[trigger] body[i]),
        is_fence_line(close),
    ensures
        fenced_from(seq![open] + body + seq![close] + rest, 0, lang) == fenced_from(rest, 0, lang),
{
    let first = seq![open] + body + seq![close];
    let all = first + rest;
    let n = body.len() as int;
    assert(all[0] == open);
    assert(all[n + 1] == close);
    assert forall|k: int| 1 <= k < n + 1 implies !is_fence_line(#[trigger] all[k]) by {
        assert(all[k] == body[k - 1]);
    }
    lemma_next_fence_skip(all, 1, n + 1);
    lemma_fenced_from_shift(first, rest, 0, lang);
    assert(first.len() == n + 2);
    assert(Seq::<char>::empty() + fenced_from(all, n + 2, lang) =~= fenced_from(all, n + 2, lang));
}

/// A response made of one block, opened by a fence matching the language and
/// closed by a fence, yields exactly the block's lines, each followed by a
/// newline, with trailing whitespace replaced by a single newline.
pub proof fn law_single_block_response_is_kept_verbatim(
    response: Seq<char>,
    open: Seq<char>,
    body: Seq<Seq<char>>,
    close: Seq<char>,
    lang: SupportedLanguage,
)
    requires
        crate::text::lines_of(response) == seq![open] + body + seq![close],
        opens_block(open, lang),
        forall|i: int| 0 <= i < body.len() ==> !is_fence_line(#[trigger] body[i]),
        is_fence_line(close),
        !crate::text::all_ws(join_lines(body)),
    ensures
        extract_code_spec(response, lang) == crate::text::trim_end_ws(join_lines(body)).push('\n'),
{
    law_fenced_block_is_kept_verbatim(open, body, close, lang);
    let j = join_lines(body);
    assert(fenced_code(response, lang) == j + seq!['\n']);
    assert(j + seq!['\n'] =~= j.push('\n'));
    crate::text::lemma_trim_end_push_ws(j, '\n');
}

/// A tag character: a lower-case letter, a digit or `+`.
pub open spec fn is_tag_char(c: char) -> bool {
    ('a' <= c && c <= 'z') || ('0' <= c && c <= '9') || c == '+'
}

/// A fence line made of the fence marker and a tag of lower-case letters,
/// digits and `+` signs has that tag.
proof fn lemma_fence_line_tag(t: Seq<char>)
    requires
        t.len() > 0,
        forall|i: int| 0 <= i < t.len() ==> is_tag_char(#[trigger] t[i]),
    ensures
        is_fence_line(fence() + t),
        crate::text::trim_start_ws(fence() + t) == fence() + t,
        fence_tag(fence() + t) == t,
{
    reveal_strlit("```");
    let f = fence();
    let s = f + t;
    assert(s[0] == '`');
    assert(!crate::text::is_ws(s[0]));
    assert(crate::text::trim_start_ws(s) == s);
    assert(s.subrange(0, 3) =~= f);
    assert(s.subrange(3, s.len() as int) =~= t);
    assert(!crate::text::has_prefix(t, f)) by {
        if crate::text::has_prefix(t, f) {
            assert(t.subrange(0, 3)[0] == t[0]);
        }
    }
    assert(crate::text::strip_prefix_all(s, f) == crate::text::strip_prefix_all(t, f));
    assert(crate::text::strip_prefix_all(t, f) == t);
    assert(!crate::text::is_ws(t[0]));
    assert(!crate::text::is_ws(t.last()));
    assert(crate::text::trim_start_ws(t) == t);
    assert(crate::text::trim_end_ws(t) == t);
    assert(crate::text::is_ascii_seq(t));
    assert(crate::text::ascii_lower(t) =~= t);
}

/// A fence tagged with any of a language's documented aliases (Python:
/// `python`, `py`; Rust: `rust`, `rs`; JavaScript: `javascript`, `js`, `node`;
/// TypeScript: `typescript`, `ts`, `tsx`; HTML: `html`, `htm`; CSS: `css`; C:
/// `c`; C++: `cpp`, `c++`, `cxx`; Java: `java`; Go: `go`, `golang`), possibly
/// followed by more lower-case letters, digits or `+` signs (as in
/// `python3`), opens a block for that language: a response made of that
/// fence, code lines and a closing fence yields exactly the code lines, each
/// followed by a newline, with trailing whitespace cut to one newline.
pub proof fn law_fence_with_a_language_alias_opens_its_block(
    response: Seq<char>,
    alias: Seq<char>,
    suffix: Seq<char>,
    body: Seq<Seq<char>>,
    close: Seq<char>,
    lang: SupportedLanguage,
)
    requires
        match lang {
            SupportedLanguage::Python => alias == "python"@ || alias == "py"@,
            SupportedLanguage::Rust => alias == "rust"@ || alias == "rs"@,
            SupportedLanguage::JavaScript => alias == "javascript"@ || alias == "js"@ || alias
                == "node"@,
            SupportedLanguage::TypeScript => alias == "typescript"@ || alias == "ts"@ || alias
                == "tsx"@,
            SupportedLanguage::Html => alias == "html"@ || alias == "htm"@,
            SupportedLanguage::Css => alias == "css"@,
            SupportedLanguage::C => alias == "c"@,
            SupportedLanguage::Cpp => alias == "cpp"@ || alias == "c++"@ || alias == "cxx"@,
            SupportedLanguage::Java => alias == "java"@,
            SupportedLanguage::Go => alias == "go"@ || alias == "golang"@,
        },
        forall|i: int| 0 <= i < suffix.len() ==> is_tag_char(#[trigger] suffix[i]),
        crate::text::lines_of(response) == seq!["```"@ + alias + suffix] + body + seq![close],
        forall|i: int| 0 <= i < body.len() ==> !is_fence_line(#[trigger] body[i]),
        is_fence_line(close),
        !crate::text::all_ws(join_lines(body)),
    ensures
        extract_code_spec(response, lang) == crate::text::trim_end_ws(join_lines(body)).push('\n'),
{
    reveal_strlit("python");
    reveal_strlit("py");
    reveal_strlit("rust");
    reveal_strlit("rs");
    reveal_strlit("javascript");
    reveal_strlit("js");
    reveal_strlit("node");
    reveal_strlit("typescript");
    reveal_strlit("ts");
    reveal_strlit("tsx");
    reveal_strlit("html");
    reveal_strlit("htm");
    reveal_strlit("css");
    reveal_strlit("c");
    reveal_strlit("cpp");
    reveal_strlit("c++");
    reveal_strlit("cxx");
    reveal_strlit("java");
    reveal_strlit("go");
    reveal_strlit("golang");
    let tag = alias + suffix;
    assert(alias.len() > 0);
    assert forall|i: int| 0 <= i < alias.len() implies is_tag_char(#[trigger] alias[i]) by {}
    assert forall|i: int| 0 <= i < tag.len() implies is_tag_char(#[trigger] tag[i]) by {
        if i < alias.len() {
            assert(tag[i] == alias[i]);
        } else {
            assert(tag[i] == suffix[i - alias.len()]);
        }
    }
    lemma_fence_line_tag(tag);
    let ts = lang_tags(lang);
    assert(tag.subrange(0, alias.len() as int) =~= alias);
    if alias == ts[0] {
        assert(crate::text::has_prefix(tag, ts[0]));
    } else if alias == ts[1] {
        assert(crate::text::has_prefix(tag, ts[1]));
    } else {
        assert(alias == ts[2]);
        assert(crate::text::has_prefix(tag, ts[2]));
    }
    assert(tag_matches(tag, lang));
    assert("```"@ + alias + suffix == fence() + tag);
    assert(opens_block(fence() + tag, lang));
    law_single_block_response_is_kept_verbatim(response, fence() + tag, body, close, lang);
}

/// An untagged fence opens a block for every language: a response made of a
/// bare fence, code lines and a closing fence yields exactly the code lines,
/// each followed by a newline, with trailing whitespace cut to one newline.
pub proof fn law_untagged_fence_opens_a_block(
    response: Seq<char>,
    body: Seq<Seq<char>>,
    close: Seq<char>,
    lang: SupportedLanguage,
)
    requires
        crate::text::lines_of(response) == seq!["```"@] + body + seq![close],
        forall|i: int| 0 <= i < body.len() ==> !is_fence_line(#[trigger] body[i]),
        is_fence_line(close),
        !crate::text::all_ws(join_lines(body)),
    ensures
        extract_code_spec(response, lang) == crate::text::trim_end_ws(join_lines(body)).push('\n'),
{
    reveal_strlit("```");
    let f = fence();
    assert(!crate::text::is_ws(f[0]));
    assert(crate::text::trim_start_ws(f) == f);
    assert(f.subrange(0, 3) =~= f);
    assert(f.subrange(3, 3) =~= Seq::<char>::empty());
    assert(crate::text::strip_prefix_all(Seq::<char>::empty(), f) == Seq::<char>::empty());
    assert(crate::text::strip_prefix_all(f, f) == Seq::<char>::empty());
    assert(crate::text::trim_ws(Seq::<char>::empty()) == Seq::<char>::empty());
    assert(crate::text::ascii_lower(Seq::<char>::empty()) =~= Seq::<char>::empty());
    assert(fence_tag(f).len() == 0);
    assert(opens_block(f, lang));
    law_single_block_response_is_kept_verbatim(response, f, body, close, lang);
}

/// The number of fence lines from line `i` on.
pub open spec fn fence_count(lines: Seq<Seq<char>>, i: int) -> int
    decreases lines.len() - i,
{
    if i >= lines.len() {
        0
    } else {
        (if is_fence_line(lines[i]) {
            1int
        } else {
            0int
        }) + fence_count(lines, i + 1)
    }
}

/// No fence lies between `i` and the next fence, so both count alike.
proof fn lemma_fence_count_skip(lines: Seq<Seq<char>>, i: int)
    requires
        0 <= i <= lines.len(),
    ensures
        fence_count(lines, i) == fence_count(lines, next_fence(lines, i)),
        fence_count(lines, i) >= 0,
    decreases lines.len() - i,
{
    if i < lines.len() {
        lemma_fence_count_skip(lines, i + 1);
    }
}

/// Where the lines are `a` followed by `b`, the fences from index `j` of `b`
/// on are found `a.len()` further on.
proof fn lemma_next_fence_shift(a: Seq<Seq<char>>, b: Seq<Seq<char>>, j: int)
    requires
        0 <= j,
    ensures
        next_fence(a + b, a.len() + j) == a.len() + next_fence(b, j),
    decreases b.len() - j,
{
    if j < b.len() {
        assert((a + b)[a.len() + j] == b[j]);
        lemma_next_fence_shift(a, b, j + 1);
    }
}

/// Within `a`, the fences of `a + b` are those of `a`; past the end of `a`
/// they are those of `b`.
proof fn lemma_next_fence_concat(a: Seq<Seq<char>>, b: Seq<Seq<char>>, i: int)
    requires
        0 <= i <= a.len(),
    ensures
        next_fence(a + b, i) == if next_fence(a, i) < a.len() {
            next_fence(a, i)
        } else {
            a.len() + next_fence(b, 0)
        },
    decreases a.len() - i,
{
    if i == a.len() {
        lemma_next_fence_shift(a, b, 0);
    } else {
        assert((a + b)[i] == a[i]);
        lemma_next_fence_concat(a, b, i + 1);
    }
}

/// The fenced code of `a + b` from index `j` of `b` on is that of `b`.
proof fn lemma_fenced_from_shift(
    a: Seq<Seq<char>>,
    b: Seq<Seq<char>>,
    j: int,
    lang: SupportedLanguage,
)
    requires
        0 <= j,
    ensures
        fenced_from(a + b, a.len() + j, lang) == fenced_from(b, j, lang),
    decreases b.len() - j,
{
    let ab = a + b;
    let na = a.len() as int;
    lemma_next_fence_shift(a, b, j);
    lemma_next_fence_bounds(b, j);
    let x = next_fence(b, j);
    if x < b.len() {
        lemma_next_fence_shift(a, b, x + 1);
        lemma_next_fence_bounds(b, x + 1);
        let y = next_fence(b, x + 1);
        if y < b.len() {
            lemma_fenced_from_shift(a, b, y + 1, lang);
            assert(ab[na + x] == b[x]);
            assert(ab.subrange(na + x + 1, na + y) =~= b.subrange(x + 1, y));
            assert(na + y + 1 == a.len() + (y + 1));
        }
    }
}

/// With an even number of fences in `a`, every block of `a` closes within
/// `a`, and the fenced code of `a + b` from index `i` of `a` on is that of
/// `a` followed by that of `b`.
proof fn lemma_fenced_from_concat(
    a: Seq<Seq<char>>,
    b: Seq<Seq<char>>,
    i: int,
    lang: SupportedLanguage,
)
    requires
        0 <= i <= a.len(),
        fence_count(a, i) % 2 == 0,
    ensures
        fenced_from(a + b, i, lang) == fenced_from(a, i, lang) + fenced_from(b, 0, lang),
    decreases a.len() - i,
{
    let ab = a + b;
    let na = a.len() as int;
    lemma_next_fence_bounds(a, i);
    lemma_fence_count_skip(a, i);
    lemma_next_fence_concat(a, b, i);
    let x = next_fence(a, i);
    if x >= na {
        lemma_next_fence_shift(a, b, 0);
        lemma_fenced_from_shift(a, b, 0, lang);
        assert(fenced_from(ab, i, lang) == fenced_from(ab, na, lang));
        assert(Seq::<char>::empty() + fenced_from(b, 0, lang) =~= fenced_from(b, 0, lang));
    } else {
        assert(fence_count(a, x) == 1 + fence_count(a, x + 1));
        lemma_next_fence_bounds(a, x + 1);
        lemma_fence_count_skip(a, x + 1);
        lemma_next_fence_concat(a, b, x + 1);
        let y = next_fence(a, x + 1);
        if y >= na {
            assert(fence_count(a, na) == 0);
            assert(false);
        }
        assert(fence_count(a, y) == 1 + fence_count(a, y + 1));
        lemma_fenced_from_concat(a, b, y + 1, lang);
        assert(ab[x] == a[x]);
        assert(ab.subrange(x + 1, y) =~= a.subrange(x + 1, y));
        let part = if opens_block(a[x], lang) {
            block_code(a.subrange(x + 1, y))
        } else {
            Seq::empty()
        };
        assert(fenced_from(ab, i, lang) == part + fenced_from(ab, y + 1, lang));
        assert(fenced_from(a, i, lang) == part + fenced_from(a, y + 1, lang));
        assert(part + (fenced_from(a, y + 1, lang) + fenced_from(b, 0, lang)) =~= (part
            + fenced_from(a, y + 1, lang)) + fenced_from(b, 0, lang));
    }
}

/// Blocks are collected independently: when the lines `a`, which hold an even
/// number of fences, are followed by the lines `b`, the fenced code is that of
/// `a` followed by that of `b`.
pub proof fn law_fenced_blocks_are_concatenated(
    a: Seq<Seq<char>>,
    b: Seq<Seq<char>>,
    lang: SupportedLanguage,
)
    requires
        fence_count(a, 0) % 2 == 0,
    ensures
        fenced_from(a + b, 0, lang) == fenced_from(a, 0, lang) + fenced_from(b, 0, lang),
{
    lemma_fenced_from_concat(a, b, 0, lang);
}

/// The Java hand-off from editor to terminal is consistent: the command for
/// the temporary Java file compiles exactly that file and runs the class
/// named after it.
pub proof fn law_java_handoff_is_consistent(os: crate::platform::HostOs, temp_dir: Seq<char>)
    ensures
        crate::language::run_command_spec(
            SupportedLanguage::Java,
            os,
            temp_source_file_spec(SupportedLanguage::Java),
            temp_dir,
        ) == "javac Main.java && java Main\n"@,
{
    reveal_strlit("javac");
    reveal_strlit(" ");
    reveal_strlit("Main.java");
    reveal_strlit(" && ");
    reveal_strlit("java");
    reveal_strlit(" Main\n");
    reveal_strlit("javac Main.java && java Main\n");
    assert("javac"@ + " "@ + "Main.java"@ + " && "@ + "java"@ + " Main\n"@
        =~= "javac Main.java && java Main\n"@);
}

/// A blank message is never sent, and a request to clear the editor never
/// reaches the model.
pub proof fn law_blank_and_clear_requests_stay_local(message: Seq<char>)
    ensures
        crate::text::all_ws(message) ==> plan_spec(message) == ChatPlan::Ignore,
        !crate::text::all_ws(message) && crate::text::mentions_any(
            crate::text::to_lower(message),
            clear_editor_phrases(),
        ) ==> plan_spec(message) == ChatPlan::ClearEditor,
        plan_spec(message) matches ChatPlan::AskModel { .. } ==> !crate::text::all_ws(message)
            && !crate::text::mentions_any(crate::text::to_lower(message), clear_editor_phrases()),
{
}

} // verus!
