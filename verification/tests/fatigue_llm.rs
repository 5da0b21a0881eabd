use angelica::fatigue::{on_turn_complete, FatigueBand, FatigueCounters};
use angelica::llm::types::{FunctionCall, ToolCall};
use angelica::llm::{thinking_plan, usage_from_counts, Effort, LlmStreamEvent, StreamAccumulator, StreamPiece, ThinkingPlan};
use angelica::session::{order_sessions, SessionEntry};
use angelica::sleep::consolidation::{apply_consolidation, consolidation_episode_text, consolidation_request, compress_request};
use angelica::episode::Episode;

#[test]
fn on_turn_and_tool_calls_dont_affect_fatigue() {
    let mut model = FatigueCounters::new(3);
    model.on_turn();
    model.add_tool_calls(3);
    assert_eq!(model.turns(), 1);
    assert_eq!(model.tool_calls(), 3);
}

#[test]
fn on_wake_resets_everything() {
    let mut model = FatigueCounters::new(3);
    model.on_turn();
    model.add_tool_calls(2);
    model.on_wake();
    assert_eq!(model.turns(), 0);
    assert_eq!(model.tool_calls(), 0);
    assert_eq!(model.groggy_turns(), 3);
}

#[test]
fn groggy_counts_down() {
    let mut model = FatigueCounters::new(3);
    model.on_wake();
    assert!(model.is_groggy());
    model.on_turn();
    assert!(model.is_groggy());
    model.on_turn();
    assert!(model.is_groggy());
    model.on_turn();
    assert!(!model.is_groggy());
}

#[test]
fn describe_returns_correct_strings() {
    let mut model = FatigueCounters::new(3);
    model.on_wake();
    assert!(model.describe(FatigueBand::Fresh).contains("刚醒来"));
    let fresh = FatigueCounters::new(3);
    assert_eq!(fresh.describe(FatigueBand::Fresh), "精神饱满。");
    assert_eq!(fresh.describe(FatigueBand::Normal), "正常。");
    assert_eq!(fresh.describe(FatigueBand::Weary), "微微疲惫。");
    assert_eq!(fresh.describe(FatigueBand::Tired), "很累了。");
    assert_eq!(fresh.describe(FatigueBand::Exhausted), "困倦，撑不住了。");
}

#[test]
fn dream_fades_after_grogginess() {
    let mut model = FatigueCounters::new(2);
    model.on_wake();
    let mut dream = Some("stars".to_string());
    on_turn_complete(&mut model, &mut dream);
    assert!(dream.is_some());
    on_turn_complete(&mut model, &mut dream);
    assert!(dream.is_none());
    let restored = FatigueCounters::new(2).with_persisted(7, 9);
    assert_eq!(restored.turns(), 7);
    assert_eq!(restored.tool_calls(), 9);
}

#[test]
fn usage_counts() {
    let u = usage_from_counts(Some(100), Some(20), None, Some(5), Some(30));
    assert_eq!(u.prompt_tokens, 100);
    assert_eq!(u.total_tokens, 120);
    assert_eq!(u.reasoning_tokens, 5);
    assert_eq!(u.cache_hit_tokens, 30);
    assert_eq!(u.cache_miss_tokens, 70);
    let v = usage_from_counts(Some(-3), None, Some(7), None, Some(10));
    assert_eq!(v.prompt_tokens, 0);
    assert_eq!(v.total_tokens, 7);
    assert_eq!(v.cache_miss_tokens, 0);
}

#[test]
fn thinking_options() {
    assert_eq!(thinking_plan(None, true, true, "low"), ThinkingPlan::On { effort: Some(Effort::Low) });
    assert_eq!(thinking_plan(None, true, true, "max"), ThinkingPlan::On { effort: Some(Effort::High) });
    assert_eq!(thinking_plan(Some(true), false, false, "low"), ThinkingPlan::On { effort: None });
    assert_eq!(thinking_plan(Some(false), true, true, "low"), ThinkingPlan::Off { tell_provider: true });
    assert_eq!(thinking_plan(None, false, false, "low"), ThinkingPlan::Off { tell_provider: false });
}

#[test]
fn stream_gathers_the_reply() {
    let mut acc = StreamAccumulator::new();
    assert!(matches!(acc.on_piece(StreamPiece::Reasoning("hm".into())), Some(LlmStreamEvent::ThinkingDelta { .. })));
    assert!(acc.on_piece(StreamPiece::Text(String::new())).is_none());
    assert!(matches!(acc.on_piece(StreamPiece::Text("Hi".into())), Some(LlmStreamEvent::TextDelta { .. })));
    acc.on_piece(StreamPiece::End {
        reasoning: None,
        first_text: Some("ignored".into()),
        tool_calls: vec![ToolCall {
            id: "c".into(),
            function: FunctionCall { name: "n".into(), arguments: "{}".into() },
        }],
        usage: None,
    });
    let r = acc.finish();
    assert_eq!(r.reasoning.as_deref(), Some("hm"));
    assert_eq!(r.content.as_deref(), Some("Hi"));
    assert_eq!(r.tool_calls.unwrap().len(), 1);

    let mut quiet = StreamAccumulator::new();
    quiet.on_piece(StreamPiece::End { reasoning: Some(String::new()), first_text: Some("full".into()), tool_calls: vec![], usage: None });
    let r = quiet.finish();
    assert!(r.reasoning.is_none());
    assert_eq!(r.content.as_deref(), Some("full"));
    assert!(r.tool_calls.is_none());
}

fn entry(id: &str) -> SessionEntry {
    SessionEntry { session_id: id.to_string(), path: format!("sessions/{}", id), preview: String::new() }
}

#[test]
fn sessions_newest_first_and_limited() {
    let entries = vec![entry("2026-05-01"), entry("2026-05-03"), entry("2026-04-30"), entry("2026-05-02")];
    let ordered = order_sessions(entries, 3);
    let ids: Vec<&str> = ordered.iter().map(|e| e.session_id.as_str()).collect();
    assert_eq!(ids, vec!["2026-05-03", "2026-05-02", "2026-05-01"]);
    assert!(order_sessions(vec![], 5).is_empty());
}

#[test]
fn consolidation_texts() {
    let ep = Episode::new("2026-05-01".to_string(), "walked".to_string()).with_afterglow("calm".to_string());
    assert_eq!(consolidation_episode_text(&vec![ep]), "### 2026-05-01 (情感权重: 3/5)\nwalked\n余韵: calm\n\n");
    let (sys, user) = consolidation_request("S", "P", "E");
    assert!(sys.content.unwrap().contains("self_insights"));
    assert_eq!(user.content.unwrap(), "## 当前 SELF.md\nS\n\n## 当前用户画像\nP\n\n## 需要分析的过往情景\nE");
    let writes = apply_consolidation("me  ", "you", "2026-05-02", &vec!["curious".to_string()], &vec![]);
    assert_eq!(writes.self_text.as_deref(), Some("me\n\n## 2026-05-02 沉淀\n- curious\n"));
    assert!(writes.profile_text.is_none());
    let (sys, user) = compress_request("long", "关于用户的认知");
    assert!(sys.content.unwrap().contains("以下内容是关于用户的认知，已经超出了大小限制"));
    assert_eq!(user.content.as_deref(), Some("long"));
}

#[test]
fn sessions_with_one_id_keep_their_order() {
    let mut a = entry("s");
    a.preview = "first".to_string();
    let mut b = entry("s");
    b.preview = "second".to_string();
    let ordered = order_sessions(vec![a, entry("t"), b], 10);
    assert_eq!(ordered[0].session_id, "t");
    assert_eq!(ordered[1].preview, "first");
    assert_eq!(ordered[2].preview, "second");
}

#[test]
fn new_episode_has_a_v4_id_and_an_rfc3339_creation_time() {
    let ep = Episode::new("2026-05-01".to_string(), "walked".to_string());
    let id: Vec<char> = ep.id.chars().collect();
    assert_eq!(id.len(), 36);
    for (i, c) in id.iter().enumerate() {
        if i == 8 || i == 13 || i == 18 || i == 23 {
            assert_eq!(*c, '-');
        } else {
            assert!(c.is_ascii_digit() || ('a'..='f').contains(c));
        }
    }
    assert_eq!(id[14], '4');
    assert!(['8', '9', 'a', 'b'].contains(&id[19]));
    let t: Vec<char> = ep.created_at.chars().collect();
    assert!(t.len() >= 25);
    let n = t.len();
    assert!(t[n - 6] == '+' || t[n - 6] == '-');
    assert_eq!(t[n - 3], ':');
}
