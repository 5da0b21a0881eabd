use vstd::prelude::*;

use crate::episode::Episode;
use crate::llm::types::{ChatMessage, Role};
use crate::text::{
    append_chars, append_str, chars_of, decimal, find_last, push_decimal, rfind_exec, slice_chars, starts_with,
    starts_with_str, string_of, trim, trim_chars, trim_end, trim_end_chars,
};

verus! {

/// The JSON object in a model reply that may wrap it in a markdown code
/// fence or follow it with other text.
pub open spec fn json_of_reply(text: Seq<char>) -> Seq<char> {
    let t = trim(text);
    if starts_with(t, "```"@) {
        let inner = if starts_with(t, "```json"@) {
            t.skip("```json"@.len() as int)
        } else {
            t.skip("```"@.len() as int)
        };
        match find_last(inner, "```"@) {
            Some(end) => trim(inner.take(end)),
            None => trim(inner),
        }
    } else if starts_with(t, "{"@) {
        match find_last(t, "}"@) {
            Some(end) => t.take(end + 1),
            None => t,
        }
    } else {
        t
    }
}

pub fn extract_json(text: &str) -> (r: String)
    ensures
        r@ == json_of_reply(text@),
{
    let raw = chars_of(text);
    let t = trim_chars(&raw);
    if starts_with_str(&t, "```") {
        let inner = if starts_with_str(&t, "```json") {
            let p = chars_of("```json");
            let r = slice_chars(&t, p.len(), t.len());
            assert(t@.subrange(p@.len() as int, t@.len() as int) =~= t@.skip(p@.len() as int));
            r
        } else {
            let p = chars_of("```");
            let r = slice_chars(&t, p.len(), t.len());
            assert(t@.subrange(p@.len() as int, t@.len() as int) =~= t@.skip(p@.len() as int));
            r
        };
        let fence = chars_of("```");
        match rfind_exec(&inner, &fence) {
            Some(end) => {
                proof {
                    crate::text::lemma_rfind_from(inner@, fence@, inner@.len() - fence@.len());
                }
                let head = slice_chars(&inner, 0, end);
                assert(inner@.subrange(0, end as int) =~= inner@.take(end as int));
                let h = trim_chars(&head);
                return string_of(&h);
            },
            None => {
                let h = trim_chars(&inner);
                return string_of(&h);
            },
        }
    }
    if starts_with_str(&t, "{") {
        let close = chars_of("}");
        match rfind_exec(&t, &close) {
            Some(end) => {
                proof {
                    crate::text::lemma_rfind_from(t@, close@, t@.len() - close@.len());
                    reveal_strlit("}");
                    assert(close@.len() == 1);
                    assert(end + 1 <= t@.len());
                    assert(end as int + 1 <= t.len() as int);
                }
                let head = slice_chars(&t, 0, end + 1);
                assert(t@.subrange(0, end + 1) =~= t@.take(end + 1));
                return string_of(&head);
            },
            None => {
                return string_of(&t);
            },
        }
    }
    string_of(&t)
}

/// The text of SELF.md or the profile after a consolidation: the current
/// text without trailing white space, a blank line, a dated heading, and one
/// bullet per insight.
pub open spec fn insights_appended(current: Seq<char>, date: Seq<char>, insights: Seq<Seq<char>>) -> Seq<char> {
    trim_end(current) + "\n"@ + "\n## "@ + date + " 沉淀\n"@ + bullets(insights, insights.len() as int)
}

/// `- insight\n` for the first `n` insights.
pub open spec fn bullets(insights: Seq<Seq<char>>, n: int) -> Seq<char>
    decreases n,
{
    if n <= 0 {
        Seq::empty()
    } else {
        bullets(insights, n - 1) + "- "@ + insights[n - 1] + "\n"@
    }
}

pub fn append_insights(current: &str, date: &str, insights: &Vec<String>) -> (r: String)
    ensures
        r@ == insights_appended(current@, date@, insights@.map_values(|s: String| s@)),
{
    let ghost iv = insights@.map_values(|s: String| s@);
    let c = chars_of(current);
    let mut out = trim_end_chars(&c);
    append_str(&mut out, "\n");
    append_str(&mut out, "\n## ");
    append_str(&mut out, date);
    append_str(&mut out, " 沉淀\n");
    let ghost head = out@;
    let mut i: usize = 0;
    while i < insights.len()
        invariant
            i <= insights.len(),
            iv == insights@.map_values(|s: String| s@),
            out@ == head + bullets(iv, i as int),
        decreases insights.len() - i,
    {
        append_str(&mut out, "- ");
        append_str(&mut out, insights[i].as_str());
        append_str(&mut out, "\n");
        proof {
            assert(iv[i as int] == insights@[i as int]@);
            assert(head + bullets(iv, i + 1) =~= head + bullets(iv, i as int) + "- "@ + iv[i as int] + "\n"@);
        }
        i = i + 1;
    }
    proof {
        assert(head + bullets(iv, iv.len() as int) =~= insights_appended(current@, date@, iv));
    }
    string_of(&out)
}

/// The instructions of the consolidation request.
pub const CONSOLIDATION_PROMPT: &'static str = "你是一个记忆分析系统。分析以下过往情景记忆，提炼出两类认知：\n1. 关于祈芷自身的认知（性格变化、新的自我理解、世界观调整等）\n2. 关于用户的认知（用户的偏好、习惯、情感状态、关系变化等）\n\n以 JSON 格式输出，格式如下：\n{\"self_insights\": [\"洞察1\", \"洞察2\"], \"user_insights\": [\"洞察1\", \"洞察2\"]}\n\n每条洞察应该是一句简洁的陈述句。如果某类没有新的认知，返回空数组。\n只输出 JSON，不要输出其他内容。";

/// How one transitioned episode reads in the consolidation request.
pub open spec fn consolidation_block(ep: Episode) -> Seq<char> {
    "### "@ + ep.date@ + " (情感权重: "@ + decimal(ep.emotional_weight as nat) + "/5)\n"@ + ep.body@ + "\n"@ + (
    if ep.afterglow@.len() > 0 {
        "余韵: "@ + ep.afterglow@ + "\n"@
    } else {
        Seq::empty()
    }) + "\n"@
}

pub open spec fn consolidation_text(eps: Seq<Episode>) -> Seq<char>
    decreases eps.len(),
{
    if eps.len() == 0 {
        Seq::empty()
    } else {
        consolidation_text(eps.drop_last()) + consolidation_block(eps.last())
    }
}

/// The episodes to consolidate, as the request lists them.
pub fn consolidation_episode_text(episodes: &Vec<Episode>) -> (r: String)
    ensures
        r@ == consolidation_text(episodes@),
{
    let mut out: Vec<char> = Vec::new();
    let mut i: usize = 0;
    while i < episodes.len()
        invariant
            i <= episodes.len(),
            out@ == consolidation_text(episodes@.take(i as int)),
        decreases episodes.len() - i,
    {
        let ep = &episodes[i];
        let ghost before = out@;
        append_str(&mut out, "### ");
        append_str(&mut out, ep.date.as_str());
        append_str(&mut out, " (情感权重: ");
        push_decimal(&mut out, ep.emotional_weight as u64);
        append_str(&mut out, "/5)\n");
        append_str(&mut out, ep.body.as_str());
        append_str(&mut out, "\n");
        if !ep.afterglow.as_str().is_empty() {
            append_str(&mut out, "余韵: ");
            append_str(&mut out, ep.afterglow.as_str());
            append_str(&mut out, "\n");
        }
        append_str(&mut out, "\n");
        proof {
            assert(episodes@.take(i + 1).drop_last() =~= episodes@.take(i as int));
            assert(out@ =~= before + consolidation_block(episodes@[i as int]));
        }
        i = i + 1;
    }
    proof {
        assert(episodes@.take(episodes.len() as int) =~= episodes@);
    }
    string_of(&out)
}

/// The user message of the consolidation request.
pub open spec fn consolidation_input(current_self: Seq<char>, current_profile: Seq<char>, episode_text: Seq<char>) -> Seq<char> {
    "## 当前 SELF.md\n"@ + current_self + "\n\n## 当前用户画像\n"@ + current_profile + "\n\n## 需要分析的过往情景\n"@
        + episode_text
}

/// The messages of the consolidation request: the instructions, then the
/// current self-description, profile and episodes.
pub fn consolidation_request(current_self: &str, current_profile: &str, episode_text: &str) -> (r: (
    ChatMessage,
    ChatMessage,
))
    ensures
        r.0.role == Role::System,
        r.0.content matches Some(c) && c@ == CONSOLIDATION_PROMPT@,
        r.1.role == Role::User,
        r.1.content matches Some(c) && c@ == consolidation_input(current_self@, current_profile@, episode_text@),
        r.0.name is None && r.1.name is None,
{
    let mut v = chars_of("## 当前 SELF.md\n");
    append_str(&mut v, current_self);
    append_str(&mut v, "\n\n## 当前用户画像\n");
    append_str(&mut v, current_profile);
    append_str(&mut v, "\n\n## 需要分析的过往情景\n");
    append_str(&mut v, episode_text);
    let user = string_of(&v);
    (ChatMessage::system(String::from_str(CONSOLIDATION_PROMPT)), ChatMessage::user(user.as_str()))
}

/// What a consolidation changes: the new self-description and the new
/// profile, each only where there were insights about it.
#[derive(Debug)]
pub struct ConsolidationWrites {
    pub self_text: Option<String>,
    pub profile_text: Option<String>,
}

/// Applies the insights of a consolidation, dated `date`, to the current texts.
pub fn apply_consolidation(
    current_self: &str,
    current_profile: &str,
    date: &str,
    self_insights: &Vec<String>,
    user_insights: &Vec<String>,
) -> (r: ConsolidationWrites)
    ensures
        self_insights@.len() == 0 ==> r.self_text is None,
        self_insights@.len() > 0 ==> (r.self_text matches Some(t) && t@ == insights_appended(
            current_self@,
            date@,
            self_insights@.map_values(|s: String| s@),
        )),
        user_insights@.len() == 0 ==> r.profile_text is None,
        user_insights@.len() > 0 ==> (r.profile_text matches Some(t) && t@ == insights_appended(
            current_profile@,
            date@,
            user_insights@.map_values(|s: String| s@),
        )),
{
    let self_text = if self_insights.len() > 0 {
        Some(append_insights(current_self, date, self_insights))
    } else {
        None
    };
    let profile_text = if user_insights.len() > 0 {
        Some(append_insights(current_profile, date, user_insights))
    } else {
        None
    };
    ConsolidationWrites { self_text, profile_text }
}

/// The instructions of a compression request for a text described as `description`.
pub open spec fn compress_prompt(description: Seq<char>) -> Seq<char> {
    "你是一个文本压缩系统。以下内容是"@ + description + "，已经超出了大小限制。\n请将其压缩到原来的一半左右，保留最核心和最重要的信息。\n保持 markdown 格式。只输出压缩后的内容，不要解释。"@
}

/// The messages that ask the model to halve an over-long text.
pub fn compress_request(content: &str, description: &str) -> (r: (ChatMessage, ChatMessage))
    ensures
        r.0.role == Role::System,
        r.0.content matches Some(c) && c@ == compress_prompt(description@),
        r.1.role == Role::User,
        r.1.content matches Some(c) && c@ == content@,
{
    let mut v = chars_of("你是一个文本压缩系统。以下内容是");
    append_str(&mut v, description);
    append_str(&mut v, "，已经超出了大小限制。\n请将其压缩到原来的一半左右，保留最核心和最重要的信息。\n保持 markdown 格式。只输出压缩后的内容，不要解释。");
    let sys = string_of(&v);
    (ChatMessage::system(sys), ChatMessage::user(content))
}

} // verus!
