pub mod patch;
pub mod types;

use vstd::prelude::*;

use crate::llm::types::ToolCall;

verus! {

/// A complete reply of the model.
#[derive(Debug)]
pub struct LlmResponse {
    pub reasoning: Option<String>,
    pub content: Option<String>,
    pub tool_calls: Option<Vec<ToolCall>>,
    pub usage: Option<UsageMetrics>,
}

/// What a streamed reply delivers, piece by piece.
#[derive(Debug)]
pub enum LlmStreamEvent {
    ThinkingDelta { delta: String },
    TextDelta { delta: String },
    Done(LlmResponse),
}

/// A piece of a streamed reply, as the provider's client delivers it.
#[derive(Debug)]
pub enum StreamPiece {
    /// Text of the answer.
    Text(String),
    /// Text of the reasoning.
    Reasoning(String),
    /// The end of the stream: the reasoning and the answer's first text as
    /// the client captured them, the tool calls, and the usage.
    End {
        reasoning: Option<String>,
        first_text: Option<String>,
        tool_calls: Vec<ToolCall>,
        usage: Option<UsageMetrics>,
    },
    /// Anything else (such as a piece of a tool call).
    Other,
}

/// Gathers a streamed reply.
pub struct StreamAccumulator {
    thinking: String,
    content: String,
    tool_calls: Vec<ToolCall>,
    usage: Option<UsageMetrics>,
}

pub struct StreamView {
    pub thinking: Seq<char>,
    pub content: Seq<char>,
    pub tool_calls: Seq<ToolCall>,
    pub usage: Option<UsageMetrics>,
}

impl View for StreamAccumulator {
    type V = StreamView;

    closed spec fn view(&self) -> StreamView {
        StreamView {
            thinking: self.thinking@,
            content: self.content@,
            tool_calls: self.tool_calls@,
            usage: self.usage,
        }
    }
}

pub open spec fn text_or_none(s: Seq<char>) -> Option<Seq<char>> {
    if s.len() == 0 { None } else { Some(s) }
}

pub open spec fn opt_text(o: Option<String>) -> Option<Seq<char>> {
    match o {
        Some(s) => Some(s@),
        None => None,
    }
}

impl StreamAccumulator {
    pub fn new() -> (r: Self)
        ensures
            r@.thinking.len() == 0,
            r@.content.len() == 0,
            r@.tool_calls.len() == 0,
            r@.usage is None,
    {
        StreamAccumulator { thinking: String::new(), content: String::new(), tool_calls: Vec::new(), usage: None }
    }

    /// Takes a piece of the stream; returns the delta to show, if any.
    /// Non-empty text and reasoning are gathered and shown; the end may
    /// replace the reasoning, brings the tool calls, and supplies the
    /// answer when no text came before it.
    pub fn on_piece(&mut self, piece: StreamPiece) -> (r: Option<LlmStreamEvent>)
        ensures
            match piece {
                StreamPiece::Text(t) => if t@.len() > 0 {
                    &&& final(self)@.content == old(self)@.content + t@
                    &&& final(self)@.thinking == old(self)@.thinking
                    &&& final(self)@.tool_calls == old(self)@.tool_calls
                    &&& final(self)@.usage == old(self)@.usage
                    &&& r matches Some(LlmStreamEvent::TextDelta { delta }) && delta@ == t@
                } else {
                    final(self)@ == old(self)@ && r is None
                },
                StreamPiece::Reasoning(t) => if t@.len() > 0 {
                    &&& final(self)@.thinking == old(self)@.thinking + t@
                    &&& final(self)@.content == old(self)@.content
                    &&& final(self)@.tool_calls == old(self)@.tool_calls
                    &&& final(self)@.usage == old(self)@.usage
                    &&& r matches Some(LlmStreamEvent::ThinkingDelta { delta }) && delta@ == t@
                } else {
                    final(self)@ == old(self)@ && r is None
                },
                StreamPiece::End { reasoning, first_text, tool_calls, usage } => {
                    &&& r is None
                    &&& final(self)@.usage == usage
                    &&& final(self)@.thinking == match reasoning {
                        Some(x) => x@,
                        None => old(self)@.thinking,
                    }
                    &&& final(self)@.tool_calls == tool_calls@
                    &&& final(self)@.content == if old(self)@.content.len() == 0 {
                        match first_text {
                            Some(x) => x@,
                            None => Seq::empty(),
                        }
                    } else {
                        old(self)@.content
                    }
                },
                StreamPiece::Other => final(self)@ == old(self)@ && r is None,
            },
    {
        match piece {
            StreamPiece::Text(t) => {
                if t.as_str().is_empty() {
                    return None;
                }
                self.content.append(t.as_str());
                Some(LlmStreamEvent::TextDelta { delta: t })
            },
            StreamPiece::Reasoning(t) => {
                if t.as_str().is_empty() {
                    return None;
                }
                self.thinking.append(t.as_str());
                Some(LlmStreamEvent::ThinkingDelta { delta: t })
            },
            StreamPiece::End { reasoning, first_text, tool_calls, usage } => {
                self.usage = usage;
                if let Some(x) = reasoning {
                    self.thinking = x;
                }
                self.tool_calls = tool_calls;
                if self.content.as_str().is_empty() {
                    self.content = match first_text {
                        Some(x) => x,
                        None => String::new(),
                    };
                }
                None
            },
            StreamPiece::Other => None,
        }
    }

    /// The reply gathered: empty reasoning or text count as none, and so
    /// does an empty list of tool calls.
    pub fn finish(self) -> (r: LlmResponse)
        ensures
            opt_text(r.reasoning) == text_or_none(self@.thinking),
            opt_text(r.content) == text_or_none(self@.content),
            match r.tool_calls {
                Some(v) => self@.tool_calls.len() > 0 && v@ == self@.tool_calls,
                None => self@.tool_calls.len() == 0,
            },
            r.usage == self@.usage,
    {
        let reasoning = if self.thinking.as_str().is_empty() { None } else { Some(self.thinking) };
        let content = if self.content.as_str().is_empty() { None } else { Some(self.content) };
        let tool_calls = if self.tool_calls.len() == 0 { None } else { Some(self.tool_calls) };
        LlmResponse { reasoning, content, tool_calls, usage: self.usage }
    }
}

/// Token counts of one reply.
#[derive(Debug, Clone, Copy, PartialEq, Eq, Structural)]
pub struct UsageMetrics {
    pub prompt_tokens: u64,
    pub completion_tokens: u64,
    pub total_tokens: u64,
    pub reasoning_tokens: u64,
    pub cache_hit_tokens: u64,
    pub cache_miss_tokens: u64,
}

pub open spec fn count_of(v: Option<i32>) -> int {
    match v {
        Some(x) => if x < 0 { 0 } else { x as int },
        None => 0,
    }
}

pub open spec fn raw_of(v: Option<i32>) -> int {
    match v {
        Some(x) => x as int,
        None => 0,
    }
}

fn count_exec(v: Option<i32>) -> (r: u64)
    ensures
        r == count_of(v),
{
    match v {
        Some(x) => if x < 0 { 0 } else { x as u64 },
        None => 0,
    }
}

/// The usage of a reply from the provider's counts: missing or negative
/// counts are zero; a missing total is the sum of prompt and completion;
/// what the cache did not serve is the rest of the prompt.
pub fn usage_from_counts(
    prompt: Option<i32>,
    completion: Option<i32>,
    total: Option<i32>,
    reasoning: Option<i32>,
    cached: Option<i32>,
) -> (r: UsageMetrics)
    requires
        total is None ==> i32::MIN <= raw_of(prompt) + raw_of(completion) <= i32::MAX,
    ensures
        r.prompt_tokens == count_of(prompt),
        r.completion_tokens == count_of(completion),
        r.total_tokens == match total {
            Some(_) => count_of(total),
            None => if raw_of(prompt) + raw_of(completion) < 0 { 0 } else { raw_of(prompt) + raw_of(completion) },
        },
        r.reasoning_tokens == count_of(reasoning),
        r.cache_hit_tokens == count_of(cached),
        r.cache_miss_tokens == if count_of(prompt) >= count_of(cached) { count_of(prompt) - count_of(cached) } else { 0 },
{
    let prompt_tokens = count_exec(prompt);
    let completion_tokens = count_exec(completion);
    let total_tokens = match total {
        Some(_) => count_exec(total),
        None => {
            let p: i32 = match prompt {
                Some(x) => x,
                None => 0,
            };
            let c: i32 = match completion {
                Some(x) => x,
                None => 0,
            };
            let sum: i32 = p + c;
            if sum < 0 { 0 } else { sum as u64 }
        },
    };
    let reasoning_tokens = count_exec(reasoning);
    let cache_hit_tokens = count_exec(cached);
    let cache_miss_tokens = if prompt_tokens >= cache_hit_tokens { prompt_tokens - cache_hit_tokens } else { 0 };
    UsageMetrics {
        prompt_tokens,
        completion_tokens,
        total_tokens,
        reasoning_tokens,
        cache_hit_tokens,
        cache_miss_tokens,
    }
}

/// How hard a DeepSeek model is asked to think.
#[derive(Debug, Clone, Copy, PartialEq, Eq, Structural)]
pub enum Effort {
    Low,
    Medium,
    High,
}

/// What a request says of thinking.
#[derive(Debug, Clone, Copy, PartialEq, Eq, Structural)]
pub enum ThinkingPlan {
    /// Thinking on; a DeepSeek model also gets this effort.
    On { effort: Option<Effort> },
    /// Thinking off; a DeepSeek model is told so explicitly, and the
    /// temperature is sent.
    Off { tell_provider: bool },
}

/// Decides the thinking options: the override, else the profile's setting;
/// the effort (`low`, `medium`, anything else high) and the explicit
/// switch-off only for DeepSeek.
pub fn thinking_plan(thinking_override: Option<bool>, profile_thinking: bool, is_deepseek: bool, effort: &str) -> (r: ThinkingPlan)
    ensures
        ({
            let on = match thinking_override {
                Some(t) => t,
                None => profile_thinking,
            };
            if on {
                r == ThinkingPlan::On {
                    effort: if !is_deepseek {
                        None
                    } else if effort@ == "low"@ {
                        Some(Effort::Low)
                    } else if effort@ == "medium"@ {
                        Some(Effort::Medium)
                    } else {
                        Some(Effort::High)
                    },
                }
            } else {
                r == ThinkingPlan::Off { tell_provider: is_deepseek }
            }
        }),
{
    let on = match thinking_override {
        Some(t) => t,
        None => profile_thinking,
    };
    if on {
        let e = if !is_deepseek {
            None
        } else if crate::text::str_equal(effort, "low") {
            Some(Effort::Low)
        } else if crate::text::str_equal(effort, "medium") {
            Some(Effort::Medium)
        } else {
            Some(Effort::High)
        };
        ThinkingPlan::On { effort: e }
    } else {
        ThinkingPlan::Off { tell_provider: is_deepseek }
    }
}

} // verus!
