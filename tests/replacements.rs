use command_replacer::config::Config;
use command_replacer::engine::{EngineError, ReplacementEngine};

fn create_test_config() -> Config {
    let mut config = Config::default();
    config.settings.compatibility_mode = Some(false);
    config.settings.semantic_analysis = true;
    config
}

/// An engine that believes every default replacement tool is installed.
fn engine_with_tools(config: Config, in_repo: bool) -> ReplacementEngine {
    let mut engine = ReplacementEngine::new(config, in_repo).ok().unwrap();
    for tool in ["rg", "fd", "bat", "eza", "sd", "procs"] {
        engine.record_tool_check(tool, true, 0);
    }
    engine
}

fn translate(engine: &mut ReplacementEngine, command: &str) -> Option<String> {
    engine.replace_command_at(command, 0)
}

#[test]
fn test_grep_to_rg_basic() {
    let mut engine = engine_with_tools(create_test_config(), false);
    let result = translate(&mut engine, "grep -n pattern file.txt");
    assert!(result.is_some());
    let command = result.unwrap();
    assert!(command.contains("rg"));
    assert!(command.contains("-n"));
    assert!(command.contains("pattern"));
    assert!(command.contains("file.txt"));
}

#[test]
fn test_grep_perl_regex_fallback() {
    let mut engine = engine_with_tools(create_test_config(), false);
    let result = translate(&mut engine, "grep -P '\\d+' file.txt");
    assert!(result.is_none());
}

#[test]
fn test_grep_git_repo_flags() {
    let mut engine = engine_with_tools(create_test_config(), true);
    let result = translate(&mut engine, "grep -r pattern .");
    if let Some(command) = result {
        if engine.is_git_repo {
            assert!(command.contains("--no-ignore"));
            assert!(command.contains("--hidden"));
        }
    }
}

#[test]
fn test_find_to_fd_basic() {
    let mut engine = engine_with_tools(create_test_config(), false);
    let result = translate(&mut engine, "find . -name '*.rs'");
    assert!(result.is_some());
    let command = result.unwrap();
    assert!(command.contains("fd"));
    assert!(command.contains("*.rs"));
    assert!(command.contains("-H -I"));
}

#[test]
fn test_find_exec_fallback() {
    let mut engine = engine_with_tools(create_test_config(), false);
    let result = translate(&mut engine, "find . -name '*.tmp' -exec rm {} \\;");
    assert!(result.is_none());
}

#[test]
fn test_find_type_conversion() {
    let mut engine = engine_with_tools(create_test_config(), false);
    let result = translate(&mut engine, "find . -type f -name '*.log'");
    if let Some(command) = result {
        assert!(command.contains("--type file"));
        assert!(command.contains("*.log"));
    }
}

#[test]
fn test_semantic_analysis_fallback_patterns() {
    let mut engine = engine_with_tools(create_test_config(), false);
    let result = translate(&mut engine, "grep -P 'complex.*regex' file");
    assert!(result.is_none());
    let result = translate(&mut engine, "find . -size +100M");
    assert!(result.is_none());
}

#[test]
fn test_compatibility_mode_conservative() {
    let mut config = create_test_config();
    config.settings.compatibility_mode = Some(true);
    let mut engine = engine_with_tools(config, false);
    let result = translate(&mut engine, "grep -E 'complex|pattern' file");
    if result.is_none() {
        // expected in compatibility mode
    }
}

#[test]
fn test_regex_pattern_detection() {
    let config = create_test_config();
    let _engine = engine_with_tools(create_test_config(), false);
    let mut compat_config = config;
    compat_config.settings.compatibility_mode = Some(true);
    let mut compat_engine = engine_with_tools(compat_config, false);
    let result = translate(&mut compat_engine, "grep '\\<word\\>' file");
    assert!(result.is_none());
}

#[test]
fn test_tool_availability_cache() {
    let mut engine = ReplacementEngine::new(create_test_config(), false).ok().unwrap();
    let available1 = engine.is_tool_available("rg");
    let available2 = engine.is_tool_available("rg");
    assert_eq!(available1, available2);
}

#[test]
fn test_flag_mapping_transformations() {
    let mut engine = engine_with_tools(create_test_config(), false);
    let result = translate(&mut engine, "grep --include='*.rs' pattern .");
    if let Some(command) = result {
        assert!(command.contains("--glob"));
        assert!(command.contains("*.rs"));
    }
}

#[test]
fn test_exclude_pattern_negation() {
    let mut engine = engine_with_tools(create_test_config(), false);
    let result = translate(&mut engine, "grep --exclude='*.tmp' pattern .");
    if let Some(command) = result {
        assert!(command.contains("--glob"));
        assert!(command.contains("!*.tmp"));
    }
}

#[test]
fn test_disabled_replacement() {
    let mut config = create_test_config();
    for (name, rule) in config.replacements.iter_mut() {
        if name == "grep" {
            rule.enabled = false;
        }
    }
    let mut engine = engine_with_tools(config, false);
    let result = translate(&mut engine, "grep pattern file");
    assert!(result.is_none());
}

#[test]
fn test_alternative_tools() {
    let mut engine = ReplacementEngine::new(create_test_config(), false).ok().unwrap();
    engine.record_tool_check("eza", false, 0);
    engine.record_tool_check("exa", true, 0);
    assert_eq!(translate(&mut engine, "ls -l src"), Some("exa -l src".to_string()));
}

#[test]
fn grep_exact_translation() {
    let mut engine = engine_with_tools(create_test_config(), false);
    assert_eq!(
        translate(&mut engine, "grep -n pattern file.txt"),
        Some("rg -n pattern file.txt".to_string())
    );
}

#[test]
fn grep_inside_repository_prepends_flags() {
    let mut engine = engine_with_tools(create_test_config(), true);
    assert_eq!(
        translate(&mut engine, "grep -n pattern file.txt"),
        Some("rg --no-ignore --hidden -n pattern file.txt".to_string())
    );
    assert_eq!(
        translate(&mut engine, "grep --hidden x f"),
        Some("rg --hidden x f".to_string())
    );
}

#[test]
fn grep_include_and_exclude_globs() {
    let mut engine = engine_with_tools(create_test_config(), false);
    assert_eq!(
        translate(&mut engine, "grep --include='*.rs' pattern ."),
        Some("rg --glob *.rs pattern .".to_string())
    );
    assert_eq!(
        translate(&mut engine, "grep --exclude='*.tmp' pattern ."),
        Some("rg --glob !*.tmp pattern .".to_string())
    );
    assert_eq!(
        translate(&mut engine, "grep --include \"'*.md'\" x ."),
        Some("rg --glob *.md x .".to_string())
    );
}

#[test]
fn grep_context_and_output_flags() {
    let mut engine = engine_with_tools(create_test_config(), false);
    assert_eq!(
        translate(&mut engine, "grep -A 3 -c -F -E x f"),
        Some("rg -A 3 --count --fixed-strings x f".to_string())
    );
}

#[test]
fn grep_incompatible_flag_declines() {
    let mut engine = engine_with_tools(create_test_config(), false);
    assert_eq!(translate(&mut engine, "grep --line-buffered x f"), None);
    assert_eq!(translate(&mut engine, "grep -z x f"), None);
}

#[test]
fn grep_extended_regex_declines_in_strict_mode() {
    let mut config = create_test_config();
    config.settings.compatibility_mode = Some(true);
    let mut engine = engine_with_tools(config, false);
    assert_eq!(translate(&mut engine, "grep -E 'a|b' file"), None);
    assert_eq!(translate(&mut engine, "grep -a x file"), None);
    assert_eq!(translate(&mut engine, "grep x file"), Some("rg x file".to_string()));
}

#[test]
fn find_exact_translation() {
    let mut engine = engine_with_tools(create_test_config(), false);
    assert_eq!(
        translate(&mut engine, "find . -name '*.rs'"),
        Some("fd *.rs -H -I .".to_string())
    );
    assert_eq!(
        translate(&mut engine, "find -iname '*.md' -maxdepth 2"),
        Some("fd *.md -H -I -i --max-depth 2 .".to_string())
    );
    assert_eq!(
        translate(&mut engine, "find src -type d"),
        Some("fd -H -I --type directory src".to_string())
    );
}

#[test]
fn find_unsupported_forms_decline() {
    let mut engine = engine_with_tools(create_test_config(), false);
    assert_eq!(translate(&mut engine, "find . -type b"), None);
    assert_eq!(translate(&mut engine, "find . -name a -or -name b"), None);
    assert_eq!(translate(&mut engine, "find . -delete"), None);
    assert_eq!(translate(&mut engine, "find . -printf x"), None);
}

#[test]
fn sed_substitution() {
    let mut engine = engine_with_tools(create_test_config(), false);
    assert_eq!(
        translate(&mut engine, "sed 's/foo/bar/' file"),
        Some("sd foo bar file".to_string())
    );
    assert_eq!(
        translate(&mut engine, "sed 's/foo//gi' a b"),
        Some("sd foo  a b".to_string())
    );
}

#[test]
fn sed_other_forms_decline() {
    let mut engine = engine_with_tools(create_test_config(), false);
    assert_eq!(translate(&mut engine, "sed -e 'i\\\\text'"), None);
    assert_eq!(translate(&mut engine, "sed 's/a/b/c/' f"), None);
    assert_eq!(translate(&mut engine, "sed 's//b/' f"), None);
    assert_eq!(translate(&mut engine, "sed 's/a/b/x' f"), None);
    assert_eq!(translate(&mut engine, "sed"), None);
}

#[test]
fn cat_ls_ps_flags() {
    let mut engine = engine_with_tools(create_test_config(), false);
    assert_eq!(
        translate(&mut engine, "cat -n -v notes.txt"),
        Some("bat --style=plain --number notes.txt".to_string())
    );
    assert_eq!(
        translate(&mut engine, "ls -l -Z dir"),
        Some("eza -l dir".to_string())
    );
    assert_eq!(
        translate(&mut engine, "ps -a -e x"),
        Some("procs -a x".to_string())
    );
    assert_eq!(translate(&mut engine, "ls"), Some("eza ".to_string()));
}

#[test]
fn malformed_or_empty_input_declines() {
    let mut engine = engine_with_tools(create_test_config(), false);
    assert_eq!(translate(&mut engine, "grep 'unterminated"), None);
    assert_eq!(translate(&mut engine, ""), None);
    assert_eq!(translate(&mut engine, "   "), None);
}

#[test]
fn unknown_and_translated_commands_decline() {
    let mut engine = engine_with_tools(create_test_config(), false);
    assert_eq!(translate(&mut engine, "awk '{print}' f"), None);
    assert_eq!(translate(&mut engine, "rg -n pattern file.txt"), None);
    assert_eq!(translate(&mut engine, "fd *.rs -H -I ."), None);
    assert_eq!(translate(&mut engine, "exa -l"), None);
}

#[test]
fn configured_deny_pattern_declines() {
    let mut config = create_test_config();
    config.settings.fallback_patterns.push("secret".to_string());
    let mut engine = engine_with_tools(config, false);
    assert_eq!(translate(&mut engine, "cat secret.txt"), None);
    assert_eq!(
        translate(&mut engine, "cat public.txt"),
        Some("bat --style=plain public.txt".to_string())
    );
}

#[test]
fn deny_patterns_apply_without_semantic_analysis() {
    let mut config = create_test_config();
    config.settings.semantic_analysis = false;
    config.settings.fallback_patterns.push("secret".to_string());
    let mut engine = engine_with_tools(config, false);
    assert_eq!(translate(&mut engine, "cat secret.txt"), None);
}

#[test]
fn invalid_deny_pattern_is_rejected() {
    let mut config = create_test_config();
    config.settings.fallback_patterns.push("foo(bar".to_string());
    match ReplacementEngine::new(config, false) {
        Err(EngineError::InvalidPattern(p)) => assert_eq!(p, "foo(bar"),
        Ok(_) => panic!("an invalid pattern was accepted"),
    }
}

#[test]
fn missing_tool_declines() {
    let mut engine = ReplacementEngine::new(create_test_config(), false).ok().unwrap();
    engine.record_tool_check("rg", false, 0);
    assert_eq!(translate(&mut engine, "grep x f"), None);
    engine.record_tool_check("eza", false, 0);
    engine.record_tool_check("exa", false, 0);
    assert_eq!(translate(&mut engine, "ls -l"), None);
}

#[test]
fn expired_cache_entry_is_checked_again() {
    let mut engine = ReplacementEngine::new(create_test_config(), false).ok().unwrap();
    engine.record_tool_check("no-such-tool-here", true, 0);
    assert!(engine.is_tool_available_at("no-such-tool-here", 999));
    assert!(!engine.is_tool_available_at("no-such-tool-here", 1000));
}

#[test]
fn translate_with_given_availability() {
    let engine = ReplacementEngine::new(create_test_config(), false).ok().unwrap();
    assert_eq!(
        engine.translate_with("grep -n x f", true, false),
        Some("rg -n x f".to_string())
    );
    assert_eq!(engine.translate_with("grep -n x f", false, true), None);
    assert_eq!(engine.translate_with("ls -a", false, true), Some("exa -a".to_string()));
    assert_eq!(engine.translate_with("ls -a", false, false), None);
    assert_eq!(engine.translate_with("ls -a", true, false), Some("eza -a".to_string()));
    assert_eq!(engine.translate_with("grep -P x f", true, true), None);
}

#[test]
fn engine_error_message() {
    let mut config = create_test_config();
    config.settings.fallback_patterns = vec!["(".to_string()];
    match ReplacementEngine::new(config, false) {
        Err(e) => assert_eq!(e.message(), "invalid fallback pattern: ("),
        Ok(_) => panic!("an invalid pattern was accepted"),
    }
}
