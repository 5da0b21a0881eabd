use vstd::prelude::*;

use crate::json::{
    json_array_items, json_bool_field, json_boolean_field, json_field, json_field_text, json_items, json_pretty,
    json_str_field, json_string_field, render_json_pretty,
};
use crate::text::str_equal;

verus! {

/// A tool as offered to the model: its name, description and JSON schema.
#[derive(Debug)]
pub struct ToolSpec {
    pub name: String,
    pub description: Option<String>,
    pub parameters: String,
}

/// A tool that an MCP server listed.
#[derive(Debug)]
pub struct DiscoveredTool {
    pub name: String,
    pub description: Option<String>,
    /// The tool's input schema, as JSON text.
    pub input_schema: String,
}

/// What a connected MCP server reported of itself.
#[derive(Debug)]
pub struct ServerInfo {
    pub name: String,
    pub version: Option<String>,
}

/// A connected MCP server, as far as tool routing needs it.
#[derive(Debug)]
pub struct McpServer {
    pub name: String,
    pub tools: Vec<DiscoveredTool>,
}

/// Used where a server gave a tool no description.
pub const NO_DESCRIPTION: &'static str = "(no description)";

pub open spec fn spec_of(t: DiscoveredTool) -> (Seq<char>, Seq<char>, Seq<char>) {
    (
        t.name@,
        match t.description {
            Some(d) => d@,
            None => NO_DESCRIPTION@,
        },
        t.input_schema@,
    )
}

/// The specs of the tools of the first `n` servers, server by server.
pub open spec fn specs_upto(servers: Seq<McpServer>, n: int) -> Seq<(Seq<char>, Seq<char>, Seq<char>)>
    decreases n,
{
    if n <= 0 {
        Seq::empty()
    } else {
        specs_upto(servers, n - 1) + servers[n - 1].tools@.map_values(|t: DiscoveredTool| spec_of(t))
    }
}

pub open spec fn tool_spec_view(s: ToolSpec) -> (Seq<char>, Seq<char>, Seq<char>) {
    (
        s.name@,
        match s.description {
            Some(d) => d@,
            None => Seq::empty(),
        },
        s.parameters@,
    )
}

/// Whether `server` offers a tool named `name`.
pub open spec fn offers(server: McpServer, name: Seq<char>) -> bool {
    exists|k: int| 0 <= k < server.tools@.len() && (#[trigger] server.tools@[k]).name@ == name
}

/// The first server from `i` on that offers `name`.
pub open spec fn owner_from(servers: Seq<McpServer>, name: Seq<char>, i: int) -> Option<int>
    decreases servers.len() - i,
{
    if i < 0 || i >= servers.len() {
        None
    } else if offers(servers[i], name) {
        Some(i)
    } else {
        owner_from(servers, name, i + 1)
    }
}

impl McpServer {
    /// Whether this server offers the named tool.
    pub fn has_tool(&self, name: &str) -> (r: bool)
        ensures
            r == offers(*self, name@),
    {
        let mut k: usize = 0;
        while k < self.tools.len()
            invariant
                k <= self.tools.len(),
                forall|j: int| 0 <= j < k ==> (#[trigger] self.tools@[j]).name@ != name@,
            decreases self.tools.len() - k,
        {
            if str_equal(self.tools[k].name.as_str(), name) {
                return true;
            }
            k = k + 1;
        }
        false
    }
}

/// The connected MCP servers, in the order they connected.
pub struct McpClientManager {
    servers: Vec<McpServer>,
}

impl View for McpClientManager {
    type V = Seq<McpServer>;

    closed spec fn view(&self) -> Seq<McpServer> {
        self.servers@
    }
}

impl McpClientManager {
    /// No server connected.
    pub fn new() -> (r: Self)
        ensures
            r@.len() == 0,
    {
        McpClientManager { servers: Vec::new() }
    }

    /// Adds a server that connected.
    pub fn add_server(&mut self, server: McpServer)
        ensures
            final(self)@ == old(self)@.push(server),
    {
        self.servers.push(server);
    }

    /// The specs of all the servers' tools, server by server, a missing
    /// description read as `(no description)`.
    pub fn tool_specs(&self) -> (r: Vec<ToolSpec>)
        ensures
            r@.map_values(|s: ToolSpec| tool_spec_view(s)) == specs_upto(self@, self@.len() as int),
            forall|k: int| 0 <= k < r@.len() ==> (#[trigger] r@[k]).description is Some,
    {
        let mut r: Vec<ToolSpec> = Vec::new();
        let mut i: usize = 0;
        while i < self.servers.len()
            invariant
                i <= self.servers.len(),
                r@.map_values(|s: ToolSpec| tool_spec_view(s)) == specs_upto(self@, i as int),
                forall|k: int| 0 <= k < r@.len() ==> (#[trigger] r@[k]).description is Some,
            decreases self.servers.len() - i,
        {
            let ghost base = r@.map_values(|s: ToolSpec| tool_spec_view(s));
            let tools = &self.servers[i].tools;
            let mut k: usize = 0;
            while k < tools.len()
                invariant
                    k <= tools.len(),
                    tools@ == self@[i as int].tools@,
                    r@.map_values(|s: ToolSpec| tool_spec_view(s)) == base + tools@.take(k as int).map_values(
                        |t: DiscoveredTool| spec_of(t),
                    ),
                    forall|j: int| 0 <= j < r@.len() ==> (#[trigger] r@[j]).description is Some,
                decreases tools.len() - k,
            {
                let t = &tools[k];
                let description = match &t.description {
                    Some(d) => d.clone(),
                    None => String::from_str(NO_DESCRIPTION),
                };
                let ghost before = r@;
                let spec = ToolSpec {
                    name: t.name.clone(),
                    description: Some(description),
                    parameters: t.input_schema.clone(),
                };
                r.push(spec);
                proof {
                    assert(r@ =~= before.push(spec));
                    assert(r@.map_values(|s: ToolSpec| tool_spec_view(s)) =~= before.map_values(
                        |s: ToolSpec| tool_spec_view(s),
                    ).push(tool_spec_view(spec)));
                    assert(tools@.take(k + 1).map_values(|t: DiscoveredTool| spec_of(t)) =~= tools@.take(
                        k as int,
                    ).map_values(|t: DiscoveredTool| spec_of(t)).push(spec_of(tools@[k as int])));
                }
                k = k + 1;
            }
            proof {
                assert(tools@.take(tools.len() as int) =~= tools@);
            }
            i = i + 1;
        }
        r
    }

    /// The server that owns the named tool (the first that offers it).
    pub fn server_for_tool(&self, name: &str) -> (r: Option<usize>)
        ensures
            match r {
                Some(i) => owner_from(self@, name@, 0) == Some(i as int),
                None => owner_from(self@, name@, 0) is None,
            },
    {
        let mut i: usize = 0;
        while i < self.servers.len()
            invariant
                i <= self.servers.len(),
                owner_from(self@, name@, 0) == owner_from(self@, name@, i as int),
            decreases self.servers.len() - i,
        {
            if self.servers[i].has_tool(name) {
                return Some(i);
            }
            i = i + 1;
        }
        None
    }

    /// The server at `i`, if any.
    pub fn server(&self, i: usize) -> (r: Option<&McpServer>)
        ensures
            i < self@.len() ==> r == Some(&self@[i as int]),
            i >= self@.len() ==> r is None,
    {
        if i < self.servers.len() {
            Some(&self.servers[i])
        } else {
            None
        }
    }

    /// Disconnects everything: no server is left.
    pub fn clear(&mut self)
        ensures
            final(self)@.len() == 0,
    {
        self.servers = Vec::new();
    }
}

/// The message when no server offers a tool.
pub open spec fn tool_not_found(name: Seq<char>) -> Seq<char> {
    "MCP tool '"@ + name + "' not found on any server"@
}

pub fn tool_not_found_message(name: &str) -> (r: String)
    ensures
        r@ == tool_not_found(name@),
{
    let mut v = crate::text::chars_of("MCP tool '");
    crate::text::append_str(&mut v, name);
    crate::text::append_str(&mut v, "' not found on any server");
    crate::text::string_of(&v)
}

/// The schema of a tool that gave none: an object without properties.
pub const DEFAULT_INPUT_SCHEMA: &'static str = "{\"properties\":{},\"type\":\"object\"}";

/// A tool as an element of a `tools/list` answer describes it: its name
/// (required), its description, and its input schema (else the default).
pub open spec fn tool_of_item(item: Seq<char>) -> Option<(Seq<char>, Option<Seq<char>>, Seq<char>)> {
    match json_str_field(item, "name"@) {
        Some(name) => Some(
            (
                name,
                json_str_field(item, "description"@),
                match json_field_text(item, "inputSchema"@) {
                    Some(s) => s,
                    None => DEFAULT_INPUT_SCHEMA@,
                },
            ),
        ),
        None => None,
    }
}

/// The tools of the first `n` items, or `None` when one of them has no name.
pub open spec fn tools_of_items(items: Seq<Seq<char>>, n: int) -> Option<Seq<(Seq<char>, Option<Seq<char>>, Seq<char>)>>
    decreases n,
{
    if n <= 0 {
        Some(Seq::empty())
    } else {
        match (tools_of_items(items, n - 1), tool_of_item(items[n - 1])) {
            (Some(ts), Some(t)) => Some(ts.push(t)),
            _ => None,
        }
    }
}

pub open spec fn discovered_view(t: DiscoveredTool) -> (Seq<char>, Option<Seq<char>>, Seq<char>) {
    (
        t.name@,
        match t.description {
            Some(d) => Some(d@),
            None => None,
        },
        t.input_schema@,
    )
}

/// The tools listed in a `tools/list` answer, or why it cannot be read.
pub open spec fn tool_list(answer: Seq<char>) -> Result<Seq<(Seq<char>, Option<Seq<char>>, Seq<char>)>, Seq<char>> {
    match json_field_text(answer, "tools"@) {
        None => Err("missing 'tools' field"@),
        Some(tools) => match json_items(tools) {
            None => Err("'tools' is not an array"@),
            Some(items) => match tools_of_items(items, items.len() as int) {
                Some(ts) => Ok(ts),
                None => Err("tool missing 'name'"@),
            },
        },
    }
}

/// Reads the tools of a `tools/list` answer (given as JSON text).
pub fn parse_tool_list(answer: &str) -> (r: Result<Vec<DiscoveredTool>, String>)
    ensures
        match r {
            Ok(v) => tool_list(answer@) == Ok::<_, Seq<char>>(v@.map_values(|t: DiscoveredTool| discovered_view(t))),
            Err(e) => tool_list(answer@) == Err::<Seq<(Seq<char>, Option<Seq<char>>, Seq<char>)>, _>(e@),
        },
{
    let tools = match json_field(answer, "tools") {
        Some(t) => t,
        None => return Err(String::from_str("missing 'tools' field")),
    };
    let items = match json_array_items(tools.as_str()) {
        Some(v) => v,
        None => return Err(String::from_str("'tools' is not an array")),
    };
    let ghost iv = items@.map_values(|x: String| x@);
    let mut out: Vec<DiscoveredTool> = Vec::new();
    let mut i: usize = 0;
    while i < items.len()
        invariant
            i <= items.len(),
            iv == items@.map_values(|x: String| x@),
            json_field_text(answer@, "tools"@) == Some(tools@),
            json_items(tools@) == Some(iv),
            tools_of_items(iv, i as int) == Some(out@.map_values(|t: DiscoveredTool| discovered_view(t))),
        decreases items.len() - i,
    {
        let item = items[i].as_str();
        proof {
            assert(iv[i as int] == item@);
        }
        let name = match json_string_field(item, "name") {
            Some(n) => n,
            None => {
                proof {
                    assert(tool_of_item(iv[i as int]) is None);
                    assert(tools_of_items(iv, i as int + 1) is None);
                    lemma_tools_of_items_none(iv, i as int + 1, items.len() as int);
                }
                return Err(String::from_str("tool missing 'name'"));
            },
        };
        let description = json_string_field(item, "description");
        let input_schema = match json_field(item, "inputSchema") {
            Some(s) => s,
            None => String::from_str(DEFAULT_INPUT_SCHEMA),
        };
        let ghost before = out@;
        let t = DiscoveredTool { name, description, input_schema };
        out.push(t);
        proof {
            assert(out@.map_values(|t: DiscoveredTool| discovered_view(t)) =~= before.map_values(
                |t: DiscoveredTool| discovered_view(t),
            ).push(discovered_view(t)));
        }
        i = i + 1;
    }
    Ok(out)
}

proof fn lemma_tools_of_items_none(items: Seq<Seq<char>>, k: int, n: int)
    requires
        0 < k <= n,
        tools_of_items(items, k) is None,
    ensures
        tools_of_items(items, n) is None,
    decreases n - k,
{
    if k < n {
        lemma_tools_of_items_none(items, k + 1, n);
    }
}

/// The text parts of a `tools/call` result among its first `n` content
/// items: those of type `text`, in order.
pub open spec fn text_parts(items: Seq<Seq<char>>, n: int) -> Seq<Seq<char>>
    decreases n,
{
    if n <= 0 {
        Seq::empty()
    } else if json_str_field(items[n - 1], "type"@) == Some("text"@) && json_str_field(items[n - 1], "text"@) is Some {
        text_parts(items, n - 1).push(json_str_field(items[n - 1], "text"@)->0)
    } else {
        text_parts(items, n - 1)
    }
}

/// The readable text of a `tools/call` result: its text parts joined by
/// newlines (none when `content` is missing or not an array).
pub open spec fn result_text(result: Seq<char>) -> Seq<char> {
    match json_field_text(result, "content"@) {
        Some(c) => match json_items(c) {
            Some(items) => crate::text::join(text_parts(items, items.len() as int), "\n"@),
            None => Seq::empty(),
        },
        None => Seq::empty(),
    }
}

/// What a tool call answers: the result's text, or the raw JSON pretty
/// printed when it has none; an error when the server flagged one.
pub open spec fn tool_result(result: Seq<char>) -> Result<Seq<char>, Seq<char>> {
    let text = result_text(result);
    if text.len() == 0 {
        match json_pretty(result) {
            Some(p) => Ok(p),
            None => Err("invalid JSON result"@),
        }
    } else if json_bool_field(result, "isError"@) == Some(true) {
        Err("MCP tool error: "@ + text)
    } else {
        Ok(text)
    }
}

/// Reads the answer of a `tools/call` (given as JSON text).
pub fn extract_tool_result(result: &str) -> (r: Result<String, String>)
    ensures
        match r {
            Ok(t) => tool_result(result@) == Ok::<Seq<char>, Seq<char>>(t@),
            Err(e) => tool_result(result@) == Err::<Seq<char>, Seq<char>>(e@),
        },
{
    let is_error = match json_boolean_field(result, "isError") {
        Some(b) => b,
        None => false,
    };
    let mut parts: Vec<Vec<char>> = Vec::new();
    match json_field(result, "content") {
        Some(c) => match json_array_items(c.as_str()) {
            Some(items) => {
                let ghost iv = items@.map_values(|x: String| x@);
                let mut i: usize = 0;
                while i < items.len()
                    invariant
                        i <= items.len(),
                        iv == items@.map_values(|x: String| x@),
                        json_field_text(result@, "content"@) == Some(c@),
                        json_items(c@) == Some(iv),
                        crate::text::views(parts@) == text_parts(iv, i as int),
                    decreases items.len() - i,
                {
                    let item = items[i].as_str();
                    proof {
                        assert(iv[i as int] == item@);
                    }
                    let is_text = match json_string_field(item, "type") {
                        Some(t) => str_equal(t.as_str(), "text"),
                        None => false,
                    };
                    if is_text {
                        match json_string_field(item, "text") {
                            Some(t) => {
                                let ghost before = parts@;
                                let tc = crate::text::chars_of(t.as_str());
                                parts.push(tc);
                                proof {
                                    assert(crate::text::views(parts@) =~= crate::text::views(before).push(tc@));
                                }
                            },
                            None => {},
                        }
                    }
                    i = i + 1;
                }
            },
            None => {},
        },
        None => {},
    }
    let mut nl: Vec<char> = Vec::new();
    nl.push('\n');
    proof {
        reveal_strlit("\n");
        assert(nl@ =~= "\n"@);
        assert(crate::text::views(parts@).take(parts.len() as int) =~= crate::text::views(parts@));
    }
    let joined = crate::text::join_chars(&parts, parts.len(), &nl);
    if joined.len() == 0 {
        return match render_json_pretty(result) {
            Some(p) => Ok(p),
            None => Err(String::from_str("invalid JSON result")),
        };
    }
    if is_error {
        let mut v = crate::text::chars_of("MCP tool error: ");
        crate::text::append_chars(&mut v, &joined);
        return Err(crate::text::string_of(&v));
    }
    Ok(crate::text::string_of(&joined))
}

} // verus!
