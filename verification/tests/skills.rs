use angelica::skills::frontmatter::{parse_frontmatter, split_frontmatter};
use angelica::skills::{is_skill_dir_name, SkillRegistry};

#[test]
fn parse_basic_frontmatter() {
    let text = "---\nname: hello\ndescription: world\n---\n\nBody content here.";
    let (meta, body) = parse_frontmatter(text);
    assert_eq!(meta.str_field("name").as_deref(), Some("hello"));
    assert_eq!(meta.str_field("description").as_deref(), Some("world"));
    assert!(body.contains("Body content here"));
}

#[test]
fn parse_nested_metadata() {
    let text = "---\nname: skill\nmetadata:\n  type: skill\n  enabled: true\n---\n\nInstructions.";
    let (meta, body) = parse_frontmatter(text);
    assert_eq!(meta.nested_bool("metadata", "enabled"), Some(true));
    assert!(body.contains("Instructions"));
}

#[test]
fn no_frontmatter() {
    let text = "Just plain text.";
    let (meta, body) = parse_frontmatter(text);
    assert!(meta.is_null());
    assert_eq!(body, "Just plain text.");
}

#[test]
fn frontmatter_split_exact() {
    assert_eq!(
        split_frontmatter("---\na: 1\n---\nbody"),
        Some(("a: 1".to_string(), "body".to_string()))
    );
    assert_eq!(split_frontmatter("--- \n\na\n---  \nrest\nmore"), Some(("a".to_string(), "rest\nmore".to_string())));
    assert_eq!(split_frontmatter("---\n---\nx"), None);
    assert_eq!(split_frontmatter("---\n\n---\nx"), Some(("".to_string(), "x".to_string())));
    assert_eq!(split_frontmatter("no"), None);
}

#[test]
fn discover_skills() {
    let mut registry = SkillRegistry::new("skills");
    registry.add_discovered(
        "my-skill",
        "skills/my-skill".to_string(),
        "---\nname: test-skill\ndescription: A test\nmetadata:\n  enabled: true\n---\n\nDo the thing.",
        vec![],
        vec![],
        vec![],
    );
    let skills = registry.get_all_skills();
    assert_eq!(skills.len(), 1);
    assert_eq!(skills[0].name, "test-skill");
    assert!(skills[0].instructions.contains("Do the thing"));
    assert_eq!(skills[0].instructions, "Do the thing.");
    assert_eq!(skills[0].description, "A test");
}

#[test]
fn skip_disabled_skills() {
    let mut registry = SkillRegistry::new("skills");
    registry.add_discovered(
        "disabled",
        "skills/disabled".to_string(),
        "---\nname: off\nmetadata:\n  enabled: false\n---\n\nDisabled skill.",
        vec![],
        vec![],
        vec![],
    );
    assert!(registry.get_all_skills().is_empty());
}

#[test]
fn skill_defaults_and_replacement() {
    let mut registry = SkillRegistry::new("skills");
    let first = registry.add_discovered("plain", "p".to_string(), "just instructions", vec![], vec![], vec![]);
    assert_eq!(first, 0);
    let again = registry.add_discovered("plain", "q".to_string(), "  new text  ", vec![], vec![], vec![]);
    assert_eq!(again, 0);
    let skills = registry.get_all_skills();
    assert_eq!(skills.len(), 1);
    assert_eq!(skills[0].name, "plain");
    assert_eq!(skills[0].description, "");
    assert_eq!(skills[0].instructions, "new text");
    assert_eq!(skills[0].path, "q");
    assert!(is_skill_dir_name("tools"));
    assert!(!is_skill_dir_name("_draft"));
}

#[test]
fn front_matter_null_and_present() {
    let (meta, body) = parse_frontmatter("---\n\n---\nbody");
    assert!(meta.is_null());
    assert_eq!(body, "body");
    let (meta, _) = parse_frontmatter("---\nname: x\n---\nbody");
    assert!(!meta.is_null());
    assert_eq!(meta.str_field("missing"), None);
    assert_eq!(meta.nested_bool("metadata", "enabled"), None);
}
