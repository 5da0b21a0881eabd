use vstd::prelude::*;

use crate::agent::history::opt_view;
use crate::llm::types::ChatMessage;
use crate::text::{append_str, chars_of, decimal, push_decimal, str_equal, string_of};

verus! {

/// A message as the debug view shows it.
#[derive(Debug)]
pub struct ContextMessage {
    pub role: String,
    pub name: Option<String>,
    /// The number of characters of the content.
    pub content_length: usize,
    pub content_preview: String,
    pub tool_calls_count: Option<usize>,
    pub tool_call_id: Option<String>,
}

/// How a message is summarised for the debug view.
pub fn context_message_of(m: &ChatMessage) -> (r: ContextMessage)
    ensures
        r.role@ == m.role.name_spec(),
        opt_view(r.name) == opt_view(m.name),
        r.content_length == match m.content {
            Some(c) => c@.len(),
            None => 0,
        },
        r.content_preview@ == match m.content {
            Some(c) => c@,
            None => Seq::empty(),
        },
        r.tool_calls_count == match m.tool_calls {
            Some(v) => Some(v@.len() as usize),
            None => None,
        },
        opt_view(r.tool_call_id) == opt_view(m.tool_call_id),
{
    let (content_length, content_preview) = match &m.content {
        Some(c) => {
            let cs = chars_of(c.as_str());
            (cs.len(), c.clone())
        },
        None => (0, String::new()),
    };
    ContextMessage {
        role: String::from_str(m.role.as_str()),
        name: crate::llm::types::clone_string_opt(&m.name),
        content_length,
        content_preview,
        tool_calls_count: match &m.tool_calls {
            Some(v) => Some(v.len()),
            None => None,
        },
        tool_call_id: crate::llm::types::clone_string_opt(&m.tool_call_id),
    }
}

/// The sum of the content lengths of the first `n` messages.
pub open spec fn chars_upto(ms: Seq<ContextMessage>, n: int) -> nat
    decreases n,
{
    if n <= 0 {
        0
    } else {
        chars_upto(ms, n - 1) + ms[n - 1].content_length as nat
    }
}

/// The total number of characters sent to the model.
pub fn total_context_chars(ms: &Vec<ContextMessage>) -> (r: usize)
    requires
        chars_upto(ms@, ms@.len() as int) <= usize::MAX,
    ensures
        r == chars_upto(ms@, ms@.len() as int),
{
    let mut total: usize = 0;
    let mut i: usize = 0;
    while i < ms.len()
        invariant
            i <= ms.len(),
            total == chars_upto(ms@, i as int),
            chars_upto(ms@, ms@.len() as int) <= usize::MAX,
        decreases ms.len() - i,
    {
        proof {
            lemma_chars_upto_monotone(ms@, i + 1, ms@.len() as int);
        }
        total = total + ms[i].content_length;
        i = i + 1;
    }
    total
}

proof fn lemma_chars_upto_monotone(ms: Seq<ContextMessage>, a: int, b: int)
    requires
        a <= b,
    ensures
        chars_upto(ms, a) <= chars_upto(ms, b),
    decreases b - a,
{
    if a < b {
        lemma_chars_upto_monotone(ms, a, b - 1);
    }
}

/// Text with `&`, `<`, `>` and `"` written as HTML entities.
pub open spec fn html_escaped(s: Seq<char>) -> Seq<char>
    decreases s.len(),
{
    if s.len() == 0 {
        Seq::empty()
    } else {
        html_escaped(s.drop_last()) + escape_char(s.last())
    }
}

pub open spec fn escape_char(c: char) -> Seq<char> {
    if c == '&' {
        "&amp;"@
    } else if c == '<' {
        "&lt;"@
    } else if c == '>' {
        "&gt;"@
    } else if c == '"' {
        "&quot;"@
    } else {
        seq![c]
    }
}

/// Escapes text for an HTML page.
pub fn html_escape(s: &str) -> (r: String)
    ensures
        r@ == html_escaped(s@),
{
    let cs = chars_of(s);
    let mut out: Vec<char> = Vec::new();
    let mut i: usize = 0;
    while i < cs.len()
        invariant
            i <= cs.len(),
            out@ == html_escaped(cs@.take(i as int)),
        decreases cs.len() - i,
    {
        let c = cs[i];
        let ghost before = out@;
        if c == '&' {
            append_str(&mut out, "&amp;");
        } else if c == '<' {
            append_str(&mut out, "&lt;");
        } else if c == '>' {
            append_str(&mut out, "&gt;");
        } else if c == '"' {
            append_str(&mut out, "&quot;");
        } else {
            out.push(c);
        }
        proof {
            assert(cs@.take(i + 1).drop_last() =~= cs@.take(i as int));
            assert(out@ =~= before + escape_char(c));
        }
        i = i + 1;
    }
    proof {
        assert(cs@.take(cs.len() as int) =~= cs@);
    }
    string_of(&out)
}

/// The plain-text view of one message: a heading with its role and size,
/// then its content.
pub open spec fn message_text(m: ContextMessage) -> Seq<char> {
    "═══ "@ + m.role@ + " ("@ + decimal(m.content_length as nat) + " chars) ═══\n"@ + m.content_preview@ + "\n\n"@
}

pub open spec fn messages_text(ms: Seq<ContextMessage>) -> Seq<char>
    decreases ms.len(),
{
    if ms.len() == 0 {
        Seq::empty()
    } else {
        messages_text(ms.drop_last()) + message_text(ms.last())
    }
}

/// The context sent to the model, as plain text.
pub fn context_text(ms: &Vec<ContextMessage>) -> (r: String)
    ensures
        r@ == messages_text(ms@),
{
    let mut out: Vec<char> = Vec::new();
    let mut i: usize = 0;
    while i < ms.len()
        invariant
            i <= ms.len(),
            out@ == messages_text(ms@.take(i as int)),
        decreases ms.len() - i,
    {
        let m = &ms[i];
        let ghost before = out@;
        append_str(&mut out, "═══ ");
        append_str(&mut out, m.role.as_str());
        append_str(&mut out, " (");
        push_decimal(&mut out, m.content_length as u64);
        append_str(&mut out, " chars) ═══\n");
        append_str(&mut out, m.content_preview.as_str());
        append_str(&mut out, "\n\n");
        proof {
            assert(ms@.take(i + 1).drop_last() =~= ms@.take(i as int));
            assert(out@ =~= before + message_text(ms@[i as int]));
        }
        i = i + 1;
    }
    proof {
        assert(ms@.take(ms.len() as int) =~= ms@);
    }
    string_of(&out)
}

/// The style class of a role (empty for an unknown one).
pub open spec fn role_class(role: Seq<char>) -> Seq<char> {
    if role == "system"@ || role == "user"@ || role == "assistant"@ || role == "tool"@ { role } else { Seq::empty() }
}

pub open spec fn message_head(i: nat, m: ContextMessage) -> Seq<char> {
    let name_tag = match m.name {
        Some(n) => " <span style=\"color:var(--text-dim)\">("@ + n@ + ")</span>"@,
        None => Seq::empty(),
    };
    "<div class=\"msg\">\n  <div class=\"msg-header\" onclick=\"toggle("@ + decimal(i) + ")\">\n    <span class=\"msg-role "@
        + role_class(m.role@) + "\">"@ + m.role@ + name_tag + "</span>\n"@
}

pub open spec fn message_meta(m: ContextMessage) -> Seq<char> {
    let tc_tag = match m.tool_calls_count {
        Some(c) => " | "@ + decimal(c as nat) + " tool calls"@,
        None => Seq::empty(),
    };
    let id_tag = match m.tool_call_id {
        Some(id) => " | id: "@ + id@,
        None => Seq::empty(),
    };
    "    <span class=\"msg-meta\">"@ + decimal(m.content_length as nat) + " chars"@ + tc_tag + id_tag
        + "</span>\n  </div>\n"@
}

pub open spec fn message_body(i: nat, m: ContextMessage) -> Seq<char> {
    "  <div class=\"msg-body\" id=\"msg-"@ + decimal(i) + "\">"@ + html_escaped(m.content_preview@) + "</div>\n</div>"@
}

/// One message of the context page: a header that folds the body open,
/// with the role (and name), the size, the tool calls and the call id.
pub open spec fn message_html(i: nat, m: ContextMessage) -> Seq<char> {
    message_head(i, m) + message_meta(m) + message_body(i, m)
}

pub open spec fn messages_html(ms: Seq<ContextMessage>, n: int) -> Seq<char>
    decreases n,
{
    if n <= 0 {
        Seq::empty()
    } else {
        messages_html(ms, n - 1) + message_html((n - 1) as nat, ms[n - 1])
    }
}

fn push_head(out: &mut Vec<char>, i: usize, m: &ContextMessage)
    ensures
        final(out)@ == old(out)@ + message_head(i as nat, *m),
{
    let ghost before = out@;
    append_str(out, "<div class=\"msg\">\n  <div class=\"msg-header\" onclick=\"toggle(");
    push_decimal(out, i as u64);
    append_str(out, ")\">\n    <span class=\"msg-role ");
    let r = m.role.as_str();
    if str_equal(r, "system") || str_equal(r, "user") || str_equal(r, "assistant") || str_equal(r, "tool") {
        append_str(out, r);
    }
    append_str(out, "\">");
    append_str(out, r);
    match &m.name {
        Some(n) => {
            append_str(out, " <span style=\"color:var(--text-dim)\">(");
            append_str(out, n.as_str());
            append_str(out, ")</span>");
        },
        None => {},
    }
    append_str(out, "</span>\n");
    proof {
        assert(out@ =~= before + message_head(i as nat, *m));
    }
}

fn push_meta(out: &mut Vec<char>, m: &ContextMessage)
    ensures
        final(out)@ == old(out)@ + message_meta(*m),
{
    let ghost before = out@;
    append_str(out, "    <span class=\"msg-meta\">");
    push_decimal(out, m.content_length as u64);
    append_str(out, " chars");
    match m.tool_calls_count {
        Some(c) => {
            append_str(out, " | ");
            push_decimal(out, c as u64);
            append_str(out, " tool calls");
        },
        None => {},
    }
    match &m.tool_call_id {
        Some(id) => {
            append_str(out, " | id: ");
            append_str(out, id.as_str());
        },
        None => {},
    }
    append_str(out, "</span>\n  </div>\n");
    proof {
        assert(out@ =~= before + message_meta(*m));
    }
}

fn push_body(out: &mut Vec<char>, i: usize, m: &ContextMessage)
    ensures
        final(out)@ == old(out)@ + message_body(i as nat, *m),
{
    let ghost before = out@;
    append_str(out, "  <div class=\"msg-body\" id=\"msg-");
    push_decimal(out, i as u64);
    append_str(out, "\">");
    let body = html_escape(m.content_preview.as_str());
    append_str(out, body.as_str());
    append_str(out, "</div>\n</div>");
    proof {
        assert(out@ =~= before + message_body(i as nat, *m));
    }
}

/// The messages of the context page.
pub fn context_messages_html(ms: &Vec<ContextMessage>) -> (r: String)
    ensures
        r@ == messages_html(ms@, ms@.len() as int),
{
    let mut out: Vec<char> = Vec::new();
    let mut i: usize = 0;
    while i < ms.len()
        invariant
            i <= ms.len(),
            out@ == messages_html(ms@, i as int),
        decreases ms.len() - i,
    {
        let ghost before = out@;
        push_head(&mut out, i, &ms[i]);
        push_meta(&mut out, &ms[i]);
        push_body(&mut out, i, &ms[i]);
        proof {
            assert(out@ =~= before + message_html(i as nat, ms@[i as int]));
        }
        i = i + 1;
    }
    string_of(&out)
}

/// The style sheet of the debug pages.
pub const STYLE_CSS: &'static str = "\n    :root {\n      --bg: #0a0a0a;\n      --surface: #141414;\n      --surface2: #1c1c1c;\n      --border: #2a2a2a;\n      --text: #e0e0e0;\n      --text-dim: #888;\n      --accent: #7c9eff;\n      --accent-dim: #4a6a9e;\n      --success: #6ee7a0;\n      --warn: #f5c542;\n      --error: #ef6b6b;\n    }\n    * { margin: 0; padding: 0; box-sizing: border-box; }\n    body {\n      font-family: 'SF Mono', 'JetBrains Mono', 'Menlo', monospace;\n      background: var(--bg);\n      color: var(--text);\n      font-size: 13px;\n      line-height: 1.5;\n      padding: 24px;\n    }\n    a { color: var(--accent); text-decoration: none; }\n    a:hover { text-decoration: underline; }\n    nav { margin-bottom: 24px; display: flex; gap: 16px; align-items: center; }\n    nav a { font-size: 13px; }\n    h1 { font-size: 16px; font-weight: 600; color: var(--text); margin-bottom: 16px; }\n    h2 { font-size: 14px; font-weight: 600; color: var(--text-dim); margin: 20px 0 8px; }\n    .grid {\n      display: grid;\n      grid-template-columns: repeat(auto-fill, minmax(180px, 1fr));\n      gap: 12px;\n      margin-bottom: 20px;\n    }\n    .card {\n      background: var(--surface);\n      border: 1px solid var(--border);\n      border-radius: 6px;\n      padding: 12px 14px;\n    }\n    .card .label { font-size: 11px; color: var(--text-dim); text-transform: uppercase; letter-spacing: 0.5px; }\n    .card .value { font-size: 20px; font-weight: 600; color: var(--accent); margin-top: 2px; }\n    .card .sub { font-size: 11px; color: var(--text-dim); margin-top: 2px; }\n    .bar-track { background: var(--surface2); border-radius: 3px; height: 6px; margin-top: 6px; }\n    .bar-fill { height: 100%; border-radius: 3px; transition: width 0.3s; }\n    .msg {\n      background: var(--surface);\n      border: 1px solid var(--border);\n      border-radius: 6px;\n      margin-bottom: 8px;\n      overflow: hidden;\n    }\n    .msg-header {\n      display: flex;\n      justify-content: space-between;\n      align-items: center;\n      padding: 8px 14px;\n      cursor: pointer;\n      user-select: none;\n    }\n    .msg-header:hover { background: var(--surface2); }\n    .msg-role {\n      font-weight: 600;\n      font-size: 12px;\n    }\n    .msg-role.system { color: var(--accent); }\n    .msg-role.user { color: var(--success); }\n    .msg-role.assistant { color: var(--warn); }\n    .msg-role.tool { color: var(--text-dim); }\n    .msg-meta { font-size: 11px; color: var(--text-dim); }\n    .msg-body {\n      display: none;\n      padding: 10px 14px;\n      border-top: 1px solid var(--border);\n      white-space: pre-wrap;\n      word-break: break-all;\n      font-size: 12px;\n      max-height: 60vh;\n      overflow-y: auto;\n    }\n    .msg-body.open { display: block; }\n    details { margin-bottom: 6px; }\n    details summary {\n      cursor: pointer;\n      padding: 6px 0;\n      color: var(--text-dim);\n      font-size: 12px;\n    }\n    details summary:hover { color: var(--text); }\n    .raw { white-space: pre-wrap; word-break: break-all; font-size: 12px; }\n  ";

/// The navigation bar of the debug pages.
pub const NAV_HTML: &'static str = "<nav>\n      <a href=\"/\">angelica debug</a>\n      <a href=\"/context\">context</a>\n      <a href=\"/context.txt\">raw</a>\n      <a href=\"/state\">state</a>\n      <a href=\"/episodes\">episodes</a>\n    </nav>";

pub fn style_css() -> (r: &'static str)
    ensures
        r@ == STYLE_CSS@,
{
    STYLE_CSS
}

pub fn nav_html() -> (r: String)
    ensures
        r@ == NAV_HTML@,
{
    String::from_str(NAV_HTML)
}

/// A page header that reloads the page every `secs` seconds.
pub fn auto_refresh_html(secs: u32) -> (r: String)
    ensures
        r@ == "<meta http-equiv=\"refresh\" content=\""@ + decimal(secs as nat) + "\">"@,
{
    let mut v = chars_of("<meta http-equiv=\"refresh\" content=\"");
    push_decimal(&mut v, secs as u64);
    append_str(&mut v, "\">");
    string_of(&v)
}

} // verus!
