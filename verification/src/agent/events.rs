use vstd::prelude::*;

use crate::json::{json_str_field, json_string_field, json_u64_field, json_unsigned_field};
use crate::text::{
    append_chars, append_str, chars_of, decimal, lines, push_decimal, slice_chars, split_lines,
    starts_with, starts_with_str, str_equal, string_of, trim_start_char, trim_start_char_exec,
    utf8_size, utf8_size_upto,
};

verus! {

/// An action the user asks the agent for.
#[derive(Debug)]
pub enum UserAction {
    SendMessage { content: String },
    ApprovePending,
    ApproveAlways { tool: String, target: String, persist: bool },
    RejectTool { feedback: Option<String> },
    ForceSleep,
    RebuildEmbeddings,
    LoadConfig,
    SaveConfig { toml_str: String },
    GetDataDir,
    UsageStats,
    RequestInit,
    Quit,
    Undo,
}

/// Who a displayed chat entry comes from.
#[derive(Debug, Clone, Copy, PartialEq, Eq, Structural)]
pub enum DisplayRole {
    User,
    Assistant,
    System,
}

/// An entry of the conversation as the front ends display it.
#[derive(Debug)]
pub enum DisplayEntry {
    Chat { role: DisplayRole, content: String, thinking: Option<String> },
    Tool {
        call_id: String,
        name: String,
        args_display: String,
        result: Option<String>,
        diff_preview: Option<String>,
    },
}

#[derive(Debug)]
pub struct InitPayload {
    pub entries: Vec<DisplayEntry>,
    pub model_name: String,
}

#[derive(Debug)]
pub struct ThinkingDeltaPayload {
    pub delta: String,
}

#[derive(Debug)]
pub struct TextDeltaPayload {
    pub delta: String,
}

#[derive(Debug)]
pub struct TextDonePayload {
    pub full_text: String,
}

#[derive(Debug)]
pub struct ToolCallingPayload {
    pub call_id: String,
    pub name: String,
    pub display: String,
}

#[derive(Debug)]
pub struct ToolResultPayload {
    pub call_id: String,
    pub name: String,
    pub result: String,
    pub diff_preview: Option<String>,
}

#[derive(Debug)]
pub struct ApprovalPendingPayload {
    pub call_id: String,
    pub tool_name: String,
    pub tool_target: Option<String>,
    pub preview: String,
    pub tool_label: String,
    pub is_diff: bool,
}

#[derive(Debug)]
pub struct ToolRejectedPayload {
    pub call_id: String,
    pub feedback: String,
}

#[derive(Debug)]
pub struct ErrorPayload {
    pub message: String,
}

#[derive(Debug)]
pub struct UsageUpdatePayload {
    pub metrics: crate::llm::UsageMetrics,
}

#[derive(Debug)]
pub struct WakingUpPayload {
    pub dream: String,
}

#[derive(Debug)]
pub struct ConfigLoadedPayload {
    pub toml: String,
}

#[derive(Debug)]
pub struct ConfigSavedPayload {
    pub message: String,
}

#[derive(Debug)]
pub struct DataDirPayload {
    pub path: String,
}

/// A slash command of the front ends.
#[derive(Debug)]
pub struct SlashCommand {
    pub name: String,
    pub aliases: Vec<String>,
    pub description: String,
}

/// The value of a JSON string field, or `default` when there is none.
pub open spec fn field_or(text: Seq<char>, key: Seq<char>, default: Seq<char>) -> Seq<char> {
    match json_str_field(text, key) {
        Some(v) => v,
        None => default,
    }
}

/// How a tool call is shown while it runs.
pub open spec fn tool_call_display(name: Seq<char>, arguments: Seq<char>) -> Seq<char> {
    if name == "run_command"@ {
        "$ "@ + field_or(arguments, "command"@, "?"@)
    } else if name == "read_file"@ {
        "read "@ + field_or(arguments, "path"@, "?"@)
    } else if name == "write_file"@ {
        "write "@ + field_or(arguments, "path"@, "?"@)
    } else if name == "edit_file"@ {
        match json_u64_field(arguments, "count"@) {
            Some(c) => "edit "@ + field_or(arguments, "path"@, "?"@) + " ("@ + decimal(c as nat)
                + " changes)"@,
            None => "edit "@ + field_or(arguments, "path"@, "?"@),
        }
    } else if name == "list_dir"@ {
        "ls "@ + field_or(arguments, "path"@, "."@)
    } else {
        name
    }
}

fn push_field_or(out: &mut Vec<char>, text: &str, key: &str, default: &str)
    ensures
        final(out)@ == old(out)@ + field_or(text@, key@, default@),
{
    match json_string_field(text, key) {
        Some(v) => append_str(out, v.as_str()),
        None => append_str(out, default),
    }
}

pub fn format_tool_call_display(name: &str, arguments: &str) -> (r: String)
    ensures
        r@ == tool_call_display(name@, arguments@),
{
    let mut out: Vec<char> = Vec::new();
    if str_equal(name, "run_command") {
        append_str(&mut out, "$ ");
        push_field_or(&mut out, arguments, "command", "?");
    } else if str_equal(name, "read_file") {
        append_str(&mut out, "read ");
        push_field_or(&mut out, arguments, "path", "?");
    } else if str_equal(name, "write_file") {
        append_str(&mut out, "write ");
        push_field_or(&mut out, arguments, "path", "?");
    } else if str_equal(name, "edit_file") {
        append_str(&mut out, "edit ");
        push_field_or(&mut out, arguments, "path", "?");
        match json_unsigned_field(arguments, "count") {
            Some(c) => {
                append_str(&mut out, " (");
                push_decimal(&mut out, c);
                append_str(&mut out, " changes)");
            },
            None => {},
        }
    } else if str_equal(name, "list_dir") {
        append_str(&mut out, "ls ");
        push_field_or(&mut out, arguments, "path", ".");
    } else {
        return String::from_str(name);
    }
    string_of(&out)
}

/// The label of an approval request, from the preview's first lines.
pub open spec fn approval_label(preview: Seq<char>) -> Seq<char> {
    let ls = lines(preview);
    let first = if ls.len() > 0 { ls[0] } else { Seq::empty() };
    if starts_with(first, "$ "@) {
        "\u{2192} "@ + first
    } else if starts_with(first, "---"@) || starts_with(first, "diff "@) {
        let second = if ls.len() > 1 { ls[1] } else { Seq::empty() };
        if starts_with(second, "+++ "@) {
            "\u{2192} edit "@ + trim_start_char(trim_start_char(second.skip("+++ "@.len() as int), 'b'), '/')
        } else {
            "\u{2192} edit"@
        }
    } else {
        "\u{2192} "@ + first
    }
}

/// Whether the approval preview is shown as a diff rather than a command line.
pub open spec fn approval_is_diff(preview: Seq<char>) -> bool {
    lines(preview).len() > 1 || !starts_with(preview, "$ "@)
}

pub fn format_approval_label(preview: &str) -> (r: (String, bool))
    ensures
        r.0@ == approval_label(preview@),
        r.1 == approval_is_diff(preview@),
{
    let pv = chars_of(preview);
    let ls = split_lines(&pv);
    let first: Vec<char> = if ls.len() > 0 { slice_chars(&ls[0], 0, ls[0].len()) } else { Vec::new() };
    proof {
        if ls.len() > 0 {
            assert(ls@[0]@.subrange(0, ls@[0]@.len() as int) =~= ls@[0]@);
        }
    }
    let mut out: Vec<char> = Vec::new();
    if starts_with_str(&first, "$ ") {
        append_str(&mut out, "\u{2192} ");
        append_chars(&mut out, &first);
    } else if starts_with_str(&first, "---") || starts_with_str(&first, "diff ") {
        let second: Vec<char> = if ls.len() > 1 { slice_chars(&ls[1], 0, ls[1].len()) } else { Vec::new() };
        proof {
            if ls.len() > 1 {
                assert(ls@[1]@.subrange(0, ls@[1]@.len() as int) =~= ls@[1]@);
            }
        }
        if starts_with_str(&second, "+++ ") {
            let pre = chars_of("+++ ");
            let rest = slice_chars(&second, pre.len(), second.len());
            proof {
                assert(second@.subrange(pre@.len() as int, second@.len() as int) =~= second@.skip(pre@.len() as int));
            }
            let a = trim_start_char_exec(&rest, 'b');
            let b = trim_start_char_exec(&a, '/');
            append_str(&mut out, "\u{2192} edit ");
            append_chars(&mut out, &b);
        } else {
            append_str(&mut out, "\u{2192} edit");
        }
    } else {
        append_str(&mut out, "\u{2192} ");
        append_chars(&mut out, &first);
    }
    let is_diff = ls.len() > 1 || !starts_with_str(&pv, "$ ");
    (string_of(&out), is_diff)
}

/// The first sixty characters of the arguments, with `...` when the
/// arguments are longer than sixty bytes.
pub open spec fn args_brief(arguments: Seq<char>) -> Seq<char> {
    let head = if arguments.len() <= 60 { arguments } else { arguments.take(60) };
    if utf8_size(arguments) > 60 {
        head + "..."@
    } else {
        head
    }
}

pub fn format_args_brief(arguments: &str) -> (r: String)
    ensures
        r@ == args_brief(arguments@),
{
    let a = chars_of(arguments);
    let n = if a.len() <= 60 { a.len() } else { 60 };
    let mut out = slice_chars(&a, 0, n);
    proof {
        if a.len() <= 60 {
            assert(a@.subrange(0, n as int) =~= a@);
        } else {
            assert(a@.subrange(0, n as int) =~= a@.take(60));
        }
    }
    match utf8_size_upto(&a, 60) {
        Some(_) => {},
        None => append_str(&mut out, "..."),
    }
    string_of(&out)
}

} // verus!
