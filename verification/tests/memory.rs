use angelica::episode::{format_episodes_for_prompt, Episode, EpisodeStatus};
use angelica::memory::{
    append_dated_entry, append_entry_today, edit_notebook_text, over_limit, profile_file_name,
    read_cap_len, recent_episodes_text, search_notebook_text, self_or_default, NotebookEditError,
    DEFAULT_SELF,
};

#[test]
fn self_default_created() {
    let content = self_or_default(String::new());
    assert!(content.contains("祈芷"));
    assert_eq!(content, DEFAULT_SELF);
    assert_eq!(self_or_default("mine".to_string()), "mine");
}

#[test]
fn append_episode_creates_entry() {
    let episodes = vec![
        Episode::new("2026-05-22".to_string(), "first entry".to_string()),
        Episode::new("2026-05-22".to_string(), "second entry".to_string()),
    ];
    assert_eq!(episodes.len(), 2);
    let text = recent_episodes_text(&episodes, 3);
    assert!(text.contains("first entry"));
    assert!(text.contains("second entry"));
}

#[test]
fn recent_text_is_newest_first_and_capped() {
    let episodes = vec![
        Episode::new("d1".to_string(), "one".to_string()),
        Episode::new("d2".to_string(), "two".to_string()),
        Episode::new("d3".to_string(), "three".to_string()),
    ];
    let text = recent_episodes_text(&episodes, 2);
    assert_eq!(
        text,
        "## 近期的经历\n\n这些是你最近经历过的事。\n\n### d3\n\nthree\n\n### d2\n\ntwo\n\n"
    );
    assert_eq!(recent_episodes_text(&vec![], 2), "");
}

#[test]
fn transition_to_past() {
    let mut episodes: Vec<Episode> = (0..5)
        .map(|i| Episode::new(format!("2026-05-1{}", i), format!("event {}", i)))
        .collect();
    let transitioned = angelica::memory::transition_to_past(&mut episodes, 3);
    assert_eq!(transitioned.len(), 2);
    assert_eq!(episodes.iter().filter(|e| e.status == EpisodeStatus::Recent).count(), 3);
    assert_eq!(episodes.iter().filter(|e| e.status == EpisodeStatus::Past).count(), 2);
    assert_eq!(transitioned[0].body, "event 0");
    assert_eq!(transitioned[1].body, "event 1");
    assert_eq!(episodes[0].status, EpisodeStatus::Past);
    assert_eq!(episodes[4].status, EpisodeStatus::Recent);
}

#[test]
fn transition_under_threshold_changes_nothing() {
    let mut episodes = vec![Episode::new("d".to_string(), "b".to_string())];
    let moved = angelica::memory::transition_to_past(&mut episodes, 3);
    assert!(moved.is_empty());
    assert_eq!(episodes[0].status, EpisodeStatus::Recent);
}

#[test]
fn notebook_operations() {
    let notebook = append_dated_entry("", "2026-05-22", "hello world");
    assert!(notebook.contains("hello world"));
    assert_eq!(notebook, "\n\n## 2026-05-22\nhello world\n");
    let today = append_entry_today("old  \n", "more");
    assert!(today.starts_with("old\n\n## "));
    assert!(today.ends_with("\nmore\n"));
}

#[test]
fn notebook_edit() {
    let content = edit_notebook_text("hello world\nfoo bar\n", "hello", "hi").unwrap();
    assert!(content.contains("hi world"));
    assert!(!content.contains("hello"));
}

#[test]
fn notebook_edit_errors() {
    assert_eq!(edit_notebook_text("a", "x", "x"), Err(NotebookEditError::SameText));
    assert_eq!(edit_notebook_text("a", "x", "y"), Err(NotebookEditError::NotFound));
    assert_eq!(edit_notebook_text("aXbX", "X", "y"), Err(NotebookEditError::Ambiguous(2)));
    assert_eq!(NotebookEditError::Ambiguous(2).message(), "找到 2 处匹配，需要更具体的搜索文本");
    assert_eq!(NotebookEditError::NotFound.message(), "未找到匹配文本");
    assert_eq!(edit_notebook_text("aaa", "aa", "b"), Ok("ba".to_string()));
    assert_eq!(edit_notebook_text("", "", "new"), Ok("new".to_string()));
}

#[test]
fn notebook_search() {
    assert_eq!(search_notebook_text("", "x"), "笔记本是空的。");
    assert_eq!(search_notebook_text("Rust is fun\nGo\nrusty", "RUST"), "在笔记本中找到 2 行匹配：\nRust is fun\nrusty\n");
    assert_eq!(search_notebook_text("abc", "zz"), "在笔记本中未找到「zz」。");
}

#[test]
fn profile_name_and_limits() {
    assert_eq!(profile_file_name("ov"), "ov.md");
    assert!(over_limit("abcd", 3));
    assert!(!over_limit("abc", 3));
    assert!(over_limit("祈", 2));
}

#[test]
fn capped_read_stops_at_char_boundary() {
    let small = vec![1u8, 2, 3];
    assert_eq!(read_cap_len(&small, 1), 3);
    let mut big = vec![b'a'; 1023];
    big.extend_from_slice("祈".as_bytes());
    big.push(b'z');
    assert_eq!(read_cap_len(&big, 1), 1023);
}

#[test]
fn episode_builders() {
    let ep = Episode::new("2026-05-22".to_string(), "test body".to_string())
        .with_weight(4)
        .with_afterglow("轻盈".to_string());
    assert_eq!(ep.date, "2026-05-22");
    assert_eq!(ep.body, "test body");
    assert_eq!(ep.emotional_weight, 4);
    assert_eq!(ep.afterglow, "轻盈");
    assert_eq!(ep.status, EpisodeStatus::Recent);
    assert_eq!(ep.id.len(), 36);
    let heavy = Episode::new("d".to_string(), "b".to_string()).with_weight(9);
    assert_eq!(heavy.emotional_weight, 5);
    let light = Episode::new("d".to_string(), "b".to_string()).with_weight(0);
    assert_eq!(light.emotional_weight, 1);
}

#[test]
fn episodes_format_for_prompt() {
    let plain = Episode::new("d1".to_string(), "plain".to_string());
    let marked = Episode::new("d2".to_string(), "marked".to_string())
        .with_weight(5)
        .with_afterglow("warm".to_string());
    let text = format_episodes_for_prompt(&vec![&plain, &marked]);
    assert_eq!(
        text,
        "### d1\n\nplain\n\n### d2\n> 情感权重：5/5\n> 余韵：warm\n\nmarked\n\n"
    );
}

#[test]
fn recall_texts() {
    let ep = Episode::new("2026-05-01".to_string(), "walked".to_string()).with_afterglow("calm".to_string());
    assert_eq!(
        angelica::memory::format_recalled(&vec![&ep]),
        "事情发生的时间: 2026-05-01\n回忆的内容: walked\n当时的感受: calm\n"
    );
    assert_eq!(angelica::memory::recall_query("hi", "hello"), "hi\nhello");
    let mut history = angelica::agent::history::History::new("c.jsonl".to_string());
    assert_eq!(history.last_user_text(), None);
    history.push(angelica::llm::types::ChatMessage::user("first"));
    history.push(angelica::llm::types::ChatMessage::user("second"));
    history.push(angelica::llm::types::ChatMessage::system("s".to_string()));
    assert_eq!(history.last_user_text(), Some("second"));
}
