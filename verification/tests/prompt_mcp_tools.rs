use angelica::debug::{
    auto_refresh_html, context_message_of, context_messages_html, context_text, html_escape, nav_html, style_css,
    total_context_chars,
};
use angelica::llm::patch::ModelPatch;
use angelica::llm::types::{ChatMessage, Role};
use angelica::mcp::{extract_tool_result, parse_tool_list, DiscoveredTool, McpClientManager, McpServer};
use angelica::prompt::{replace_str, AwakePromptBuilder, SleepingPromptBuilder, SYSTEM_PROMPT_BASE};
use angelica::skills::SkillRegistry;
use angelica::sleep::tools::{write_episode_from_args, DreamTool};

#[test]
fn awake_prompt_parts() {
    let builder = AwakePromptBuilder::new(ModelPatch::new("gpt-4", None));
    let skills = SkillRegistry::new("skills");
    let msg = builder.build_system_message("SELF", false, "", "  ", &skills.get_all_skills());
    assert_eq!(msg.role, Role::System);
    assert_eq!(msg.name.as_deref(), Some("context"));
    assert_eq!(msg.content.unwrap(), format!("SELF\n\n{}", SYSTEM_PROMPT_BASE));
}

#[test]
fn awake_prompt_with_memories_and_skills() {
    let builder = AwakePromptBuilder::new(ModelPatch::new("deepseek-chat", None));
    let mut skills = SkillRegistry::new("skills");
    skills.add_discovered("s", "p".to_string(), "---\nname: tidy\ndescription: keeps things tidy\n---\nx", vec![], vec![], vec![]);
    let msg = builder.build_system_message("", true, "R", "P", &skills.get_all_skills());
    let content = msg.content.unwrap();
    assert!(content.starts_with(SYSTEM_PROMPT_BASE));
    assert!(content.contains("你刚刚诞生"));
    assert!(content.contains("## 你的记忆\n\n这些是你过去的经历。对话中自然地想起相关的事。\nR"));
    assert!(content.contains("## 你对用户的了解\n\nP"));
    assert!(content.contains("\n\n## Skills\n- **tidy**: keeps things tidy"));
    assert!(content.contains("角色沉浸要求"));
}

#[test]
fn sleeping_prompt_fills_placeholders() {
    let builder = SleepingPromptBuilder::new("用户: hi\n".to_string(), 3, 7, "有点累".to_string());
    let msg = builder.build_system_message("SELF", "EPS", "PROFILE");
    let content = msg.content.unwrap();
    assert!(content.contains("持续了 3 轮对话，使用了 7 次工具。\n有点累"));
    assert!(content.contains("## 对话记录\n用户: hi\n"));
    assert!(content.contains("## 你现在的 SELF.md\nSELF"));
    assert!(content.contains("## 你现在的 Episodes\nEPS"));
    assert!(content.contains("## 你现在的 profile\nPROFILE"));
    assert!(!content.contains('{'));
    assert!(msg.name.is_none());
}

#[test]
fn replace_is_left_to_right_without_overlap() {
    assert_eq!(replace_str("aaa", "aa", "b"), "ba");
    assert_eq!(replace_str("x{a}y{a}", "{a}", "1"), "x1y1");
    assert_eq!(replace_str("abc", "z", "1"), "abc");
}

#[test]
fn parse_tool_list_basic() {
    let value = r#"{"tools":[{"name":"read_file","description":"Read a file","inputSchema":{"type":"object","properties":{"path":{"type":"string"}}}},{"name":"search","inputSchema":{"type":"object"}}]}"#;
    let tools = parse_tool_list(value).unwrap();
    assert_eq!(tools.len(), 2);
    assert_eq!(tools[0].name, "read_file");
    assert_eq!(tools[0].description.as_deref(), Some("Read a file"));
    assert!(tools[1].description.is_none());
}

#[test]
fn tool_list_errors() {
    assert_eq!(parse_tool_list("{}").unwrap_err(), "missing 'tools' field");
    assert_eq!(parse_tool_list(r#"{"tools":3}"#).unwrap_err(), "'tools' is not an array");
    assert_eq!(parse_tool_list(r#"{"tools":[{"x":1}]}"#).unwrap_err(), "tool missing 'name'");
    let tools = parse_tool_list(r#"{"tools":[{"name":"a"}]}"#).unwrap();
    assert_eq!(tools[0].input_schema, r#"{"properties":{},"type":"object"}"#);
}

#[test]
fn extract_text_result() {
    let value = r#"{"content":[{"type":"text","text":"hello"},{"type":"text","text":"world"}]}"#;
    assert_eq!(extract_tool_result(value).unwrap(), "hello\nworld");
}

#[test]
fn extract_error_result() {
    let value = r#"{"isError":true,"content":[{"type":"text","text":"file not found"}]}"#;
    assert!(extract_tool_result(value).is_err());
    assert_eq!(extract_tool_result(value).unwrap_err(), "MCP tool error: file not found");
}

#[test]
fn extract_fallback_raw_json() {
    let value = r#"{"some":"data"}"#;
    let result = extract_tool_result(value).unwrap();
    assert!(result.contains("some"));
    assert_eq!(result, "{\n  \"some\": \"data\"\n}");
}

#[test]
fn tools_are_routed_to_their_server() {
    let mut manager = McpClientManager::new();
    manager.add_server(McpServer {
        name: "fs".to_string(),
        tools: vec![DiscoveredTool {
            name: "read".to_string(),
            description: None,
            input_schema: "{}".to_string(),
        }],
    });
    manager.add_server(McpServer {
        name: "web".to_string(),
        tools: vec![DiscoveredTool {
            name: "fetch".to_string(),
            description: Some("Fetch a page".to_string()),
            input_schema: "{}".to_string(),
        }],
    });
    assert_eq!(manager.server_for_tool("fetch"), Some(1));
    assert_eq!(manager.server_for_tool("nope"), None);
    let specs = manager.tool_specs();
    assert_eq!(specs.len(), 2);
    assert_eq!(specs[0].description.as_deref(), Some("(no description)"));
    assert_eq!(specs[1].name, "fetch");
    assert!(manager.server(0).unwrap().has_tool("read"));
    assert!(!manager.server(0).unwrap().has_tool("fetch"));
    assert_eq!(angelica::mcp::tool_not_found_message("x"), "MCP tool 'x' not found on any server");
}

#[test]
fn dream_tool_records_the_dream() {
    let mut tool = DreamTool::new();
    assert_eq!(tool.execute(r#"{"dream":"a field of stars"}"#).unwrap(), "梦已记录。晚安。");
    assert_eq!(tool.take_dream().as_deref(), Some("a field of stars"));
    assert_eq!(tool.take_dream(), None);
    assert_eq!(tool.execute("{}").unwrap_err(), "missing 'dream'");
}

#[test]
fn write_episode_tool_builds_the_episode() {
    let (ep, msg) = write_episode_from_args(r#"{"date":"2026-05-22","content":"walked","emotional_weight":9,"afterglow":"calm"}"#).unwrap();
    assert_eq!(ep.date, "2026-05-22");
    assert_eq!(ep.body, "walked");
    assert_eq!(ep.emotional_weight, 5);
    assert_eq!(ep.afterglow, "calm");
    assert_eq!(msg, "已记录情景「2026-05-22」。");
    let (ep, _) = write_episode_from_args(r#"{"date":"d","content":"c","emotional_weight":256}"#).unwrap();
    assert_eq!(ep.emotional_weight, 1);
    let (ep, _) = write_episode_from_args(r#"{"date":"d","content":"c"}"#).unwrap();
    assert_eq!(ep.emotional_weight, 3);
    assert_eq!(write_episode_from_args(r#"{"content":"c"}"#).unwrap_err(), "missing 'date'");
    assert_eq!(write_episode_from_args(r#"{"date":"d"}"#).unwrap_err(), "missing 'content'");
}

#[test]
fn debug_view_of_messages() {
    let m = ChatMessage::user("héllo");
    let c = context_message_of(&m);
    assert_eq!(c.role, "user");
    assert_eq!(c.content_length, 5);
    assert_eq!(c.content_preview, "héllo");
    assert_eq!(c.tool_calls_count, None);
    assert_eq!(total_context_chars(&vec![c, context_message_of(&ChatMessage::system("abc".to_string()))]), 8);
    assert_eq!(html_escape("<a href=\"x\">&</a>"), "&lt;a href=&quot;x&quot;&gt;&amp;&lt;/a&gt;");
}

#[test]
fn debug_pages() {
    assert_eq!(auto_refresh_html(3), "<meta http-equiv=\"refresh\" content=\"3\">");
    assert!(nav_html().starts_with("<nav>"));
    assert!(style_css().contains("--bg"));
    let m = context_message_of(&ChatMessage::tool_result("c1".to_string(), "a<b".to_string()));
    assert_eq!(context_text(&vec![context_message_of(&ChatMessage::user("hi"))]), "═══ user (2 chars) ═══\nhi\n\n");
    let html = context_messages_html(&vec![m]);
    assert!(html.contains("<span class=\"msg-role tool\">tool</span>"));
    assert!(html.contains(" | id: c1"));
    assert!(html.contains("<div class=\"msg-body\" id=\"msg-0\">a&lt;b</div>"));
}
