use command_replacer::cache::ToolCache;
use command_replacer::config::{Config, GlobalSettings};
use command_replacer::find::{convert_glob_to_regex, replace_find};
use command_replacer::grep::replace_grep;
use command_replacer::sed::parse_sed_expression;
use command_replacer::text::{join_str, trim_char_str, unquote_str};

#[test]
fn tool_cache_answers_within_ttl() {
    let mut cache = ToolCache::new();
    assert_eq!(cache.cached("rg", 5, 1000), None);
    cache.store("rg", true, 10);
    assert_eq!(cache.cached("rg", 500, 1000), Some(true));
    assert_eq!(cache.cached("rg", 500, 1000), Some(true));
    assert_eq!(cache.cached("rg", 1010, 1000), None);
    assert_eq!(cache.cached("rg", 3, 1000), Some(true));
    cache.store("rg", false, 20);
    assert_eq!(cache.cached("rg", 21, 1000), Some(false));
    assert_eq!(cache.entries.len(), 1);
}

#[test]
fn default_configuration() {
    let config = Config::default();
    let names: Vec<&str> = config.replacements.iter().map(|(n, _)| n.as_str()).collect();
    assert_eq!(names, vec!["grep", "find", "cat", "ls", "sed", "ps"]);
    let grep = config.rule_for("grep").unwrap();
    assert_eq!(grep.replacement, "rg");
    assert_eq!(grep.priority, 10);
    assert!(config.rule_for("awk").is_none());
    let cat = config.rule_for("cat").unwrap();
    assert_eq!(cat.mapping_for("-n").map(|s| s.as_str()), Some("--number"));
    let settings = GlobalSettings::default();
    assert_eq!(settings.tool_check_timeout, 1000);
    assert_eq!(settings.fallback_patterns.len(), 5);
}

#[test]
fn sed_expression_parts() {
    assert_eq!(
        parse_sed_expression("s/foo/bar/g"),
        Some(("foo".to_string(), "bar".to_string()))
    );
    assert_eq!(parse_sed_expression("s|a|b|"), None);
}

#[test]
fn quote_handling() {
    assert_eq!(convert_glob_to_regex("'*.rs'"), "*.rs");
    assert_eq!(convert_glob_to_regex("\"x\""), "x");
    assert_eq!(convert_glob_to_regex("'"), "'");
    assert_eq!(unquote_str("\"'*.rs'\""), "*.rs");
    assert_eq!(trim_char_str("''a''", '\''), "a");
    assert_eq!(join_str(&vec!["a".to_string(), "b".to_string()]), "a b");
}

fn words(items: &[&str]) -> Vec<String> {
    items.iter().map(|s| s.to_string()).collect()
}

#[test]
fn translators_apply_their_risk_checks() {
    let config = Config::default();
    let grep = config.rule_for("grep").unwrap();
    let find = config.rule_for("find").unwrap();
    assert_eq!(replace_grep(&words(&["\\bword", "f"]), grep, true, false), None);
    assert_eq!(replace_grep(&words(&["-a", "x", "f"]), grep, true, false), None);
    assert_eq!(
        replace_grep(&words(&["-a", "x", "f"]), grep, false, false),
        Some(words(&["-a", "x", "f"]))
    );
    assert_eq!(replace_find(&words(&["-name", "-exec"]), find, false), None);
    assert_eq!(
        replace_find(&words(&[".", "-name", "*.tmp", "-exec", "rm", "{}", ";"]), find, false),
        None
    );
    assert_eq!(
        replace_find(&words(&["-name", "*.rs"]), find, false),
        Some(words(&["*.rs", "-H", "-I", "."]))
    );
}
