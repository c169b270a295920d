use monsoon::categories::{Categories, Category, TagRule, TagRules};
use monsoon::names::{NameMap, NameSet};

#[test]
fn sets_hold_each_name_once_in_order() {
    let mut set = NameSet::new();
    assert!(set.insert("b"));
    assert!(set.insert("a"));
    assert!(!set.insert("b"));
    assert_eq!(set.items, vec!["a".to_string(), "b".to_string()]);
    assert!(set.contains("a"));
    assert!(set.remove("a"));
    assert!(!set.remove("a"));
    assert!(!set.contains("a"));
    assert_eq!(set.len(), 1);
}

#[test]
fn maps_give_back_what_was_put_in() {
    let mut map: NameMap<u16> = NameMap::new();
    map.insert("name", 30);
    map.insert("down", 9);
    map.insert("name", 40);
    assert_eq!(map.get("name"), Some(&40));
    assert_eq!(map.get("down"), Some(&9));
    assert_eq!(map.get("up"), None);
    assert!(map.remove("down"));
    assert_eq!(map.get("down"), None);
    assert_eq!(map.get("name"), Some(&40));
}

fn rule(name: &str, tags: &[&str]) -> TagRule {
    TagRule {
        name: name.to_string(),
        size_min: None,
        size_max: None,
        name_contains: None,
        tracker_contains: None,
        add_tags: tags.iter().map(|t| t.to_string()).collect(),
    }
}

#[test]
fn rules_add_the_tags_of_what_they_match() {
    let rules = TagRules {
        rules: vec![
            TagRule { size_min: Some(100), ..rule("big", &["big"]) },
            TagRule { size_max: Some(99), ..rule("small", &["small"]) },
            TagRule { name_contains: Some("LINUX".to_string()), ..rule("os", &["os", "iso"]) },
            TagRule { tracker_contains: Some("Example".to_string()), ..rule("t", &["private"]) },
        ],
    };
    let tags = rules.evaluate("linux.iso", 100, &["udp://tracker.example.org".to_string()]);
    assert_eq!(
        tags.items,
        vec!["big".to_string(), "iso".to_string(), "os".to_string(), "private".to_string()]
    );
    let tags = rules.evaluate("other", 99, &[]);
    assert_eq!(tags.items, vec!["small".to_string()]);
}

#[test]
fn categories_are_found_by_name() {
    let mut entries: NameMap<Category> = NameMap::new();
    entries.insert("tv", Category { save_path: "/tv".to_string(), add_tags: Vec::new() });
    let categories = Categories { entries };
    assert_eq!(categories.get("tv").map(|c| c.save_path.as_str()), Some("/tv"));
    assert!(categories.get("film").is_none());
}
