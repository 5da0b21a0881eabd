use vstd::prelude::*;

use crate::episode::{Episode, DEFAULT_WEIGHT};
use crate::json::{json_str_field, json_string_field, json_u64_field, json_unsigned_field};
use crate::text::{append_str, chars_of, string_of};

verus! {

pub const DREAM_TOOL_NAME: &'static str = "dreaming";

pub const DREAM_TOOL_DESCRIPTION: &'static str = "记录你的梦境。当你整理完思绪，想随口说点什么的时候，调用这个工具。这会是你在睡眠中留下的痕迹，醒来后会残留淡淡的余韵。";

/// The JSON schema of the dreaming tool's arguments.
pub const DREAM_TOOL_PARAMETERS: &'static str = "{\"properties\":{\"dream\":{\"description\":\"你的梦——可以是任何东西，不必和今天的事有关。一段感受、一个画面、一句自言自语……\",\"type\":\"string\"}},\"required\":[\"dream\"],\"type\":\"object\"}";

/// What the dreaming tool answers.
pub const DREAM_RECORDED: &'static str = "梦已记录。晚安。";

/// Captures the agent's dream during sleep.
pub struct DreamTool {
    dream: Option<String>,
}

impl View for DreamTool {
    type V = Option<Seq<char>>;

    closed spec fn view(&self) -> Option<Seq<char>> {
        match self.dream {
            Some(d) => Some(d@),
            None => None,
        }
    }
}

impl DreamTool {
    /// No dream yet.
    pub fn new() -> (r: Self)
        ensures
            r@ is None,
    {
        DreamTool { dream: None }
    }

    /// Records the `dream` argument; an error when the arguments lack it.
    pub fn execute(&mut self, args: &str) -> (r: Result<String, String>)
        ensures
            match json_str_field(args@, "dream"@) {
                Some(d) => final(self)@ == Some(d) && (r matches Ok(m) && m@ == DREAM_RECORDED@),
                None => final(self)@ == old(self)@ && (r matches Err(e) && e@ == "missing 'dream'"@),
            },
    {
        match json_string_field(args, "dream") {
            Some(d) => {
                self.dream = Some(d);
                Ok(String::from_str(DREAM_RECORDED))
            },
            None => Err(String::from_str("missing 'dream'")),
        }
    }

    /// Takes the dream recorded, leaving none.
    pub fn take_dream(&mut self) -> (r: Option<String>)
        ensures
            match r {
                Some(d) => old(self)@ == Some(d@),
                None => old(self)@ is None,
            },
            final(self)@ is None,
    {
        self.dream.take()
    }
}

pub const WRITE_EPISODE_TOOL_NAME: &'static str = "write_episode";

pub const WRITE_EPISODE_TOOL_DESCRIPTION: &'static str = "将一段经历或感悟写入记忆的情景区。每条 episode 只聚焦一个主题或一次重要的对话——不要试图把一整天塞进一条。清醒期有多个值得记住的片段时，分别写成多条。";

/// The JSON schema of the episode-writing tool's arguments.
pub const WRITE_EPISODE_TOOL_PARAMETERS: &'static str = "{\"properties\":{\"afterglow\":{\"description\":\"这段经历的余韵\",\"type\":\"string\"},\"content\":{\"description\":\"要记录的内容\",\"type\":\"string\"},\"date\":{\"description\":\"日期，格式 YYYY-MM-DD\",\"type\":\"string\"},\"emotional_weight\":{\"description\":\"情感权重 1-5，默认 3\",\"maximum\":5,\"minimum\":1,\"type\":\"integer\"}},\"required\":[\"date\",\"content\"],\"type\":\"object\"}";

/// The weight an episode gets from the tool's `emotional_weight` argument:
/// the number cut to a byte (as `as u8` does), then held to 1..=5; 3 when
/// the argument is missing.
pub open spec fn weight_from(arg: Option<u64>) -> u8 {
    let w: u8 = match arg {
        Some(v) => (v % 256) as u8,
        None => DEFAULT_WEIGHT,
    };
    if w < 1 { 1 } else if w > 5 { 5 } else { w }
}

/// Builds the episode that the `write_episode` tool stores, and the answer
/// it gives; an error when the date or the content is missing.
pub fn write_episode_from_args(args: &str) -> (r: Result<(Episode, String), String>)
    ensures
        match (json_str_field(args@, "date"@), json_str_field(args@, "content"@)) {
            (Some(date), Some(content)) => r matches Ok((ep, msg)) && ep.date@ == date && ep.body@ == content
                && ep.emotional_weight == weight_from(json_u64_field(args@, "emotional_weight"@)) && ep.afterglow@
                == match json_str_field(args@, "afterglow"@) {
                Some(a) => a,
                None => Seq::empty(),
            } && !ep.unresolved && ep.status == crate::episode::EpisodeStatus::Recent && msg@ == "已记录情景「"@
                + date + "」。"@,
            (None, _) => r matches Err(e) && e@ == "missing 'date'"@,
            (Some(_), None) => r matches Err(e) && e@ == "missing 'content'"@,
        },
{
    let date = match json_string_field(args, "date") {
        Some(d) => d,
        None => return Err(String::from_str("missing 'date'")),
    };
    let content = match json_string_field(args, "content") {
        Some(c) => c,
        None => return Err(String::from_str("missing 'content'")),
    };
    let raw: u8 = match json_unsigned_field(args, "emotional_weight") {
        Some(v) => (v % 256) as u8,
        None => DEFAULT_WEIGHT,
    };
    let afterglow = match json_string_field(args, "afterglow") {
        Some(a) => a,
        None => String::new(),
    };
    let mut msg = chars_of("已记录情景「");
    append_str(&mut msg, date.as_str());
    append_str(&mut msg, "」。");
    let ep = Episode::new(date, content).with_weight(raw).with_afterglow(afterglow);
    Ok((ep, string_of(&msg)))
}

} // verus!
