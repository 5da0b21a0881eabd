use vstd::prelude::*;

use crate::llm::UsageMetrics;

verus! {

/// Who a chat message comes from.
#[derive(Debug, Clone, Copy, PartialEq, Eq, Structural)]
pub enum Role {
    System,
    User,
    Assistant,
    Tool,
}

impl Role {
    /// The role's name on the wire.
    pub open spec fn name_spec(self) -> Seq<char> {
        match self {
            Role::System => "system"@,
            Role::User => "user"@,
            Role::Assistant => "assistant"@,
            Role::Tool => "tool"@,
        }
    }

    pub fn as_str(&self) -> (r: &'static str)
        ensures
            r@ == self.name_spec(),
    {
        match self {
            Role::System => "system",
            Role::User => "user",
            Role::Assistant => "assistant",
            Role::Tool => "tool",
        }
    }
}

/// The function part of a tool call: its name and its JSON arguments.
#[derive(Debug)]
pub struct FunctionCall {
    pub name: String,
    pub arguments: String,
}

/// A tool call requested by the model.
#[derive(Debug)]
pub struct ToolCall {
    pub id: String,
    pub function: FunctionCall,
}

/// One message of a conversation.
#[derive(Debug)]
pub struct ChatMessage {
    pub role: Role,
    pub content: Option<String>,
    pub reasoning_content: Option<String>,
    pub tool_calls: Option<Vec<ToolCall>>,
    pub tool_call_id: Option<String>,
    pub name: Option<String>,
    /// The token usage of the reply, for a model's message.
    pub usage: Option<UsageMetrics>,
}

pub fn clone_string_opt(s: &Option<String>) -> (r: Option<String>)
    ensures
        r == *s,
{
    match s {
        Some(x) => Some(x.clone()),
        None => None,
    }
}

impl FunctionCall {
    pub fn duplicate(&self) -> (r: Self)
        ensures
            r == *self,
    {
        FunctionCall { name: self.name.clone(), arguments: self.arguments.clone() }
    }
}

impl ToolCall {
    pub fn duplicate(&self) -> (r: Self)
        ensures
            r == *self,
    {
        ToolCall { id: self.id.clone(), function: self.function.duplicate() }
    }
}

pub fn duplicate_calls(v: &Vec<ToolCall>) -> (r: Vec<ToolCall>)
    ensures
        r@ == v@,
{
    let mut r: Vec<ToolCall> = Vec::new();
    let mut i: usize = 0;
    while i < v.len()
        invariant
            i <= v.len(),
            r@ == v@.take(i as int),
        decreases v.len() - i,
    {
        r.push(v[i].duplicate());
        proof {
            assert(v@.take(i + 1) =~= v@.take(i as int).push(v@[i as int]));
        }
        i = i + 1;
    }
    proof {
        assert(v@.take(v.len() as int) =~= v@);
    }
    r
}

impl ChatMessage {
    /// Equal fields; the tool calls compared by their sequences.
    pub open spec fn same_as(self, other: Self) -> bool {
        &&& self.role == other.role
        &&& self.content == other.content
        &&& self.reasoning_content == other.reasoning_content
        &&& self.tool_call_id == other.tool_call_id
        &&& self.name == other.name
        &&& self.usage == other.usage
        &&& match (self.tool_calls, other.tool_calls) {
            (Some(a), Some(b)) => a@ == b@,
            (None, None) => true,
            _ => false,
        }
    }

    pub fn user(content: &str) -> (r: Self)
        ensures
            r.role == Role::User,
            r.content matches Some(c) && c@ == content@,
            r.reasoning_content is None,
            r.tool_calls is None,
            r.tool_call_id is None,
            r.name is None,
            r.usage is None,
    {
        ChatMessage {
            role: Role::User,
            content: Some(String::from_str(content)),
            reasoning_content: None,
            tool_calls: None,
            tool_call_id: None,
            name: None,
            usage: None,
        }
    }

    pub fn system(content: String) -> (r: Self)
        ensures
            r.role == Role::System,
            r.content == Some(content),
            r.reasoning_content is None,
            r.tool_calls is None,
            r.tool_call_id is None,
            r.name is None,
            r.usage is None,
    {
        ChatMessage {
            role: Role::System,
            content: Some(content),
            reasoning_content: None,
            tool_calls: None,
            tool_call_id: None,
            name: None,
            usage: None,
        }
    }

    /// A reply of the model, with its token usage. Its reasoning is kept
    /// only beside tool calls.
    pub fn assistant(
        content: Option<String>,
        reasoning: Option<String>,
        tool_calls: Option<Vec<ToolCall>>,
        usage: Option<UsageMetrics>,
    ) -> (r: Self)
        ensures
            r.usage == usage,
            r.role == Role::Assistant,
            r.content == content,
            r.reasoning_content == if tool_calls is Some { reasoning } else { None },
            r.tool_calls == tool_calls,
            r.tool_call_id is None,
            r.name is None,
    {
        let reasoning_content = if tool_calls.is_some() { reasoning } else { None };
        ChatMessage {
            role: Role::Assistant,
            content,
            reasoning_content,
            tool_calls,
            tool_call_id: None,
            name: None,
            usage,
        }
    }

    pub fn tool_result(tool_call_id: String, content: String) -> (r: Self)
        ensures
            r.role == Role::Tool,
            r.content == Some(content),
            r.reasoning_content is None,
            r.tool_calls is None,
            r.tool_call_id == Some(tool_call_id),
            r.name is None,
            r.usage is None,
    {
        ChatMessage {
            role: Role::Tool,
            content: Some(content),
            reasoning_content: None,
            tool_calls: None,
            tool_call_id: Some(tool_call_id),
            name: None,
            usage: None,
        }
    }

    pub fn duplicate(&self) -> (r: Self)
        ensures
            r.same_as(*self),
    {
        ChatMessage {
            role: self.role,
            content: clone_string_opt(&self.content),
            reasoning_content: clone_string_opt(&self.reasoning_content),
            tool_calls: match &self.tool_calls {
                Some(v) => Some(duplicate_calls(v)),
                None => None,
            },
            tool_call_id: clone_string_opt(&self.tool_call_id),
            name: clone_string_opt(&self.name),
            usage: self.usage,
        }
    }
}

} // verus!
