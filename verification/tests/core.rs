use mica_core::assemble::{assemble, cleanup_mica_markers, format_mica_nix, AssembleOutcome};
use mica_core::cli::{encode_github_ref, ensure_pin_complete, is_nix_base32_hash,
    is_valid_pin_name, normalize_attr_path, parse_github_repo, resolve_remote_index_urls,
    sanitize_pin_label};
use mica_core::config::Config;
use mica_core::diff::{diff_lines, diff_lines_changes_only, section_diff};
use mica_core::envvalue::{encode_env_editor_value, env_value_for_editor,
    env_value_mode_from_stored, render_nix_env_value, EnvValueMode};
use mica_core::nixgen::{generate_profile_nix, generate_project_nix, sanitize_nix_identifier};
use mica_core::nixparse::{parse_env_section, parse_nix_file, parse_profile_nix,
    parse_project_state_from_nix, ParseError, StateParseError};
use mica_core::preset::{merge_presets, merge_profile_presets, select_active_presets, Preset};
use mica_core::smap::StrMap;
use mica_core::state::{Date, GenerationsState, GlobalProfileState, MicaMetadata, NixBlocks,
    PackagesState, Pin, PinnedPackage, PresetState, ProjectState, ShellState};
use mica_core::tui::contains_case_insensitive;

const NIX_EXPR_PREFIX: &str = "__mica_nix_expr__:";

fn timestamp() -> String {
    "2026-02-06T00:00:00+00:00".to_string()
}

fn date() -> Date {
    Date { year: 2026, month: 2, day: 6 }
}

fn base_pin() -> Pin {
    Pin {
        name: None,
        url: "https://github.com/NixOS/nixpkgs".to_string(),
        rev: "deadbeef".to_string(),
        sha256: "0123456789abcdef0123456789abcdef0123456789abcdef0123".to_string(),
        branch: "main".to_string(),
        updated: date(),
    }
}

fn metadata() -> MicaMetadata {
    MicaMetadata { version: "0.1.0".to_string(), created: timestamp(), modified: timestamp() }
}

fn pinned_packages() -> StrMap<PinnedPackage> {
    let pin = base_pin();
    let mut m: StrMap<PinnedPackage> = StrMap::new();
    m.insert(
        "foo-bar".to_string(),
        PinnedPackage { version: "1.0.0".to_string(), pin: pin.clone() },
    );
    m.insert("foo_bar".to_string(), PinnedPackage { version: "2.0.0".to_string(), pin });
    m
}

fn base_state() -> ProjectState {
    ProjectState {
        mica: metadata(),
        pin: base_pin(),
        pins: StrMap::new(),
        presets: PresetState { active: vec![] },
        packages: PackagesState { added: vec![], removed: vec![], pinned: StrMap::new() },
        env: StrMap::new(),
        shell: ShellState { hook: None },
        nix: NixBlocks::empty(),
    }
}

fn empty_merged() -> mica_core::preset::MergedResult {
    merge_presets(&vec![], &base_state())
}

// ---- generation ----

#[test]
fn project_generation_uses_unique_vars_for_colliding_pinned_attrs() {
    let mut state = base_state();
    state.packages.pinned = pinned_packages();
    let merged = merge_presets(&vec![], &base_state());
    let output = generate_project_nix(&state, &merged, "collision-test", &timestamp());
    assert!(output.contains("  , pkgs-foo_bar ? import (fetchTarball {"));
    assert!(output.contains("  , pkgs-foo_bar_2 ? import (fetchTarball {"));
    assert!(output.contains("    pkgs-foo_bar.foo-bar  # 1.0.0"));
    assert!(output.contains("    pkgs-foo_bar_2.foo_bar  # 2.0.0"));
}

#[test]
fn profile_generation_uses_unique_vars_for_colliding_pinned_attrs() {
    let state = GlobalProfileState {
        mica: metadata(),
        pin: base_pin(),
        presets: PresetState { active: vec![] },
        packages: PackagesState {
            added: vec![],
            removed: vec![],
            pinned: pinned_packages(),
        },
        generations: GenerationsState { history: vec![] },
    };
    let merged = merge_profile_presets(
        &vec![],
        &GlobalProfileState {
            mica: metadata(),
            pin: base_pin(),
            presets: PresetState { active: vec![] },
            packages: PackagesState { added: vec![], removed: vec![], pinned: StrMap::new() },
            generations: GenerationsState { history: vec![] },
        },
    );
    let output = generate_profile_nix(&state, &merged, &timestamp());
    assert!(output.contains("  pkgs-foo_bar = import (fetchTarball {"));
    assert!(output.contains("  pkgs-foo_bar_2 = import (fetchTarball {"));
    assert!(output.contains("    pkgs-foo_bar.foo-bar  # 1.0.0"));
    assert!(output.contains("    pkgs-foo_bar_2.foo_bar  # 2.0.0"));
}

#[test]
fn project_generation_escapes_plain_env_values() {
    let state = base_state();
    let mut merged = empty_merged();
    merged.env.insert("MICA_TEST".to_string(), "${HOME}/mica".to_string());
    let output = generate_project_nix(&state, &merged, "env-test", &timestamp());
    assert!(output.contains("MICA_TEST = \"\\${HOME}/mica\";"));
}

#[test]
fn project_generation_preserves_nix_expression_env_values() {
    let state = base_state();
    let mut merged = empty_merged();
    merged.env.insert("MICA_TEST".to_string(), "\"${pkgs.path}/meme\"".to_string());
    let output = generate_project_nix(&state, &merged, "env-test", &timestamp());
    assert!(output.contains("MICA_TEST = \"${pkgs.path}/meme\";"));
}

#[test]
fn project_generation_renders_prefixed_nix_expression_values_raw() {
    let state = base_state();
    let mut merged = empty_merged();
    merged.env.insert(
        "MICA_TEST".to_string(),
        format!("{}pkgs.path + \"/meme\"", NIX_EXPR_PREFIX),
    );
    let output = generate_project_nix(&state, &merged, "env-test", &timestamp());
    assert!(output.contains("MICA_TEST = pkgs.path + \"/meme\";"));
}

#[test]
fn project_generation_wraps_prefixed_interpolation_fragment_as_nix_string() {
    let state = base_state();
    let mut merged = empty_merged();
    merged.env.insert(
        "MICA_TEST".to_string(),
        format!("{}${{pkgs.path}}/meme", NIX_EXPR_PREFIX),
    );
    let output = generate_project_nix(&state, &merged, "env-test", &timestamp());
    assert!(output.contains("MICA_TEST = \"${pkgs.path}/meme\";"));
}

// ---- the merge engine ----

fn plain_preset(name: &str, order: i32, required: Vec<String>, env_key: &str, env_val: &str, hook: &str) -> Preset {
    let mut env: StrMap<String> = StrMap::new();
    env.insert(env_key.to_string(), env_val.to_string());
    Preset {
        name: name.to_string(),
        description: String::new(),
        order,
        packages_required: required,
        packages_optional: vec![],
        env,
        shell: ShellState { hook: Some(hook.to_string()) },
        nix: NixBlocks::empty(),
        source: format!("{}.toml", name),
    }
}

#[test]
fn merge_presets_respects_order_and_removals() {
    let preset_a = plain_preset(
        "a",
        10,
        vec!["foo".to_string(), "bar".to_string()],
        "A",
        "1",
        "echo a",
    );
    let preset_b = plain_preset(
        "b",
        5,
        vec!["bar".to_string(), "baz".to_string()],
        "A",
        "2",
        "echo b",
    );
    let mut state = base_state();
    state.packages.added = vec!["extra".to_string()];
    state.packages.removed = vec!["bar".to_string()];

    let merged = merge_presets(&vec![preset_a, preset_b], &state);

    assert_eq!(
        merged.all_packages,
        vec!["baz".to_string(), "foo".to_string(), "extra".to_string()]
    );
    let a_key: Vec<char> = "A".chars().collect();
    assert_eq!(merged.env.get(&a_key), Some(&"1".to_string()));
    assert_eq!(merged.shell_hooks.len(), 2);
    assert_eq!(merged.preset_packages.len(), 2);
}

#[test]
fn select_active_presets_reports_missing_names() {
    let preset_a = plain_preset("a", 1, vec!["foo".to_string()], "A", "1", "echo a");
    let found = select_active_presets(&vec![preset_a], &vec!["a".to_string()]);
    assert!(found.is_ok());
    let preset_a2 = plain_preset("a", 1, vec!["foo".to_string()], "A", "1", "echo a");
    let missing = select_active_presets(&vec![preset_a2], &vec!["ghost".to_string()]);
    assert_eq!(missing.err(), Some("ghost".to_string()));
}

// ---- round trips ----

#[test]
fn project_round_trip_recovers_state() {
    let mut state = base_state();
    state.packages.added = vec!["jq".to_string(), "ripgrep".to_string()];
    state.env.insert("EDITOR".to_string(), "nvim".to_string());
    state.env.insert(
        "MICA_EXPR".to_string(),
        format!("{}pkgs.path + \"/meme\"", NIX_EXPR_PREFIX),
    );
    state.shell.hook = Some("echo hello".to_string());
    let merged = merge_presets(&vec![], &state);
    let text = generate_project_nix(&state, &merged, "round-trip", &timestamp());

    let parsed = parse_project_state_from_nix(&text).expect("recovery failed");
    assert_eq!(parsed.pin.url, state.pin.url);
    assert_eq!(parsed.pin.rev, state.pin.rev);
    assert_eq!(parsed.pin.sha256, state.pin.sha256);
    assert_eq!(parsed.packages, vec!["jq".to_string(), "ripgrep".to_string()]);
    let editor_key: Vec<char> = "EDITOR".chars().collect();
    assert_eq!(parsed.env.get(&editor_key), Some(&"nvim".to_string()));
    let expr_key: Vec<char> = "MICA_EXPR".chars().collect();
    assert_eq!(
        parsed.env.get(&expr_key),
        Some(&format!("{}pkgs.path + \"/meme\"", NIX_EXPR_PREFIX)),
    );
    assert_eq!(parsed.shell_hook, Some("echo hello\n".to_string()));
}

#[test]
fn generation_is_idempotent_for_equal_inputs() {
    let mut state = base_state();
    state.packages.added = vec!["jq".to_string()];
    let merged = merge_presets(&vec![], &state);
    let first = generate_project_nix(&state, &merged, "same", &timestamp());
    let second = generate_project_nix(&state, &merged, "same", &timestamp());
    assert_eq!(first, second);
}

#[test]
fn assemble_is_idempotent_over_existing_text() {
    let state = base_state();
    let merged = empty_merged();
    let fresh = generate_project_nix(&state, &merged, "asm", &timestamp());
    let mut existing = String::from("# Managed by Mica v0.1.0\n# hand-edited preamble\n");
    existing.push_str(fresh.splitn(2, "{ pkgs ?").nth(1).map(|rest| {
        format!("{{ pkgs ?{}", rest)
    }).unwrap().as_str());
    let once = assemble(&fresh, &existing, "asm");
    let once_text = match once {
        AssembleOutcome::Assembled(t) => t,
        AssembleOutcome::FreshOnly(t) => t,
    };
    let twice = assemble(&fresh, &once_text, "asm");
    let twice_text = match twice {
        AssembleOutcome::Assembled(t) => t,
        AssembleOutcome::FreshOnly(t) => t,
    };
    assert!(once_text.contains("# hand-edited preamble"));
    assert_eq!(once_text, twice_text);
}

#[test]
fn assemble_falls_back_to_fresh_when_existing_does_not_parse() {
    let state = base_state();
    let merged = empty_merged();
    let fresh = generate_project_nix(&state, &merged, "asm", &timestamp());
    let outcome = assemble(&fresh, "not a managed file", "asm");
    match outcome {
        AssembleOutcome::FreshOnly(t) => assert_eq!(t, fresh),
        AssembleOutcome::Assembled(_) => panic!("expected the fresh fallback"),
    }
}

#[test]
fn missing_optional_start_marker_fails_naming_it() {
    let state = base_state();
    let merged = empty_merged();
    let mut text = generate_project_nix(&state, &merged, "markers", &timestamp());
    text = text.replace("  # mica:let:begin
", "");
    let err = parse_nix_file(&text).unwrap_err();
    assert_eq!(err, ParseError::MissingMarker("mica:let:begin".to_string()));
}

#[test]
fn drift_noop_after_generation() {
    let mut state = base_state();
    state.packages.added = vec!["jq".to_string()];
    state.env.insert("EDITOR".to_string(), "nvim".to_string());
    let merged = merge_presets(&vec![], &state);
    let written = generate_project_nix(&state, &merged, "drift", &timestamp());
    let fresh = generate_project_nix(&state, &merged, "drift", "2027-01-01T00:00:00+00:00");
    let report = section_diff(&fresh, &written).expect("parse failed");
    assert_eq!(report.len(), 8);
    for entry in report {
        assert!(!entry.changed, "section {} drifted", entry.section);
    }
}

// ---- the parser ----

#[test]
fn parse_env_section_keeps_interpolated_nix_string_expressions() {
    let env = parse_env_section(
        r#"
            MICA_A = "${pkgs.path}/meme";
            "#,
    );
    let expected = format!("{}\"${{pkgs.path}}/meme\"", NIX_EXPR_PREFIX);
    let key: Vec<char> = "MICA_A".chars().collect();
    assert_eq!(env.get(&key).map(String::as_str), Some(expected.as_str()));
}

#[test]
fn parse_env_section_trims_plain_quoted_values() {
    let env = parse_env_section(
        r#"
            MICA_A = "hello";
            "#,
    );
    let key: Vec<char> = "MICA_A".chars().collect();
    assert_eq!(env.get(&key).map(String::as_str), Some("hello"));
}

#[test]
fn parse_env_section_keeps_unquoted_nix_expressions() {
    let env = parse_env_section(
        r#"
            MICA_A = pkgs.path + "/meme";
            "#,
    );
    let expected = format!("{}pkgs.path + \"/meme\"", NIX_EXPR_PREFIX);
    let key: Vec<char> = "MICA_A".chars().collect();
    assert_eq!(env.get(&key).map(String::as_str), Some(expected.as_str()));
}

#[test]
fn parse_env_section_keeps_escaped_interpolation_as_plain_string() {
    let env = parse_env_section(
        r#"
            MICA_A = "\${HOME}/mica";
            "#,
    );
    let key: Vec<char> = "MICA_A".chars().collect();
    assert_eq!(env.get(&key).map(String::as_str), Some("\\${HOME}/mica"));
}

#[test]
fn parse_rejects_unmanaged_text() {
    let err = parse_nix_file("{ pkgs ? import <nixpkgs> {} }: pkgs.hello").unwrap_err();
    assert_eq!(err, ParseError::NotMicaManaged);
    let err2 = parse_profile_nix("plain text").unwrap_err();
    assert_eq!(err2, ParseError::NotMicaManaged);
}

#[test]
fn missing_optional_end_marker_fails_naming_it() {
    let state = base_state();
    let merged = empty_merged();
    let mut text = generate_project_nix(&state, &merged, "markers", &timestamp());
    // strip only the end marker of the optional let region
    text = text.replace("  # mica:let:end\n", "");
    let err = parse_nix_file(&text).unwrap_err();
    assert_eq!(err, ParseError::MissingMarker("mica:let:end".to_string()));
}

#[test]
fn absent_optional_region_parses_as_none() {
    let state = base_state();
    let merged = empty_merged();
    let mut text = generate_project_nix(&state, &merged, "markers", &timestamp());
    text = text.replace("  # mica:let:begin\n", "");
    text = text.replace("  # mica:let:end\n", "");
    let parsed = parse_nix_file(&text).expect("parse failed");
    assert_eq!(parsed.let_section, None);
}

#[test]
fn incomplete_pin_block_errors_name_the_field() {
    let state = base_state();
    let merged = empty_merged();
    let text = generate_project_nix(&state, &merged, "pins", &timestamp());
    let without_sha = text.replace(
        "    sha256 = \"0123456789abcdef0123456789abcdef0123456789abcdef0123\";\n",
        "",
    );
    let err = parse_project_state_from_nix(&without_sha).unwrap_err();
    assert_eq!(err, StateParseError::MissingPinSha);
    let without_url = text.replace(
        "    url = \"https://github.com/NixOS/nixpkgs/archive/deadbeef.tar.gz\";\n",
        "",
    );
    let err2 = parse_project_state_from_nix(&without_url).unwrap_err();
    assert_eq!(err2, StateParseError::MissingPinUrl);
    let bad_rev = text.replace(
        "    url = \"https://github.com/NixOS/nixpkgs/archive/deadbeef.tar.gz\";\n",
        "    url = \"https://example.org/tarball.tgz\";\n",
    );
    let err3 = parse_project_state_from_nix(&bad_rev).unwrap_err();
    assert_eq!(err3, StateParseError::MissingPinRev);
}

// ---- env value tagging ----

#[test]
fn env_expression_values_round_trip_through_editor_helpers() {
    let stored = format!("{}${{pkgs.path}}/meme", NIX_EXPR_PREFIX);
    assert_eq!(env_value_mode_from_stored(&stored), EnvValueMode::NixExpression);
    assert_eq!(env_value_for_editor(&stored), "${pkgs.path}/meme");
}

#[test]
fn encode_env_editor_value_marks_nix_expressions() {
    let encoded = encode_env_editor_value("pkgs.path + \"/meme\"", EnvValueMode::NixExpression)
        .expect("encode should succeed");
    assert_eq!(encoded, format!("{}pkgs.path + \"/meme\"", NIX_EXPR_PREFIX));
}

#[test]
fn encode_env_editor_value_rejects_empty_expression() {
    let result = encode_env_editor_value("   ", EnvValueMode::NixExpression);
    assert!(result.is_err());
}

#[test]
fn literal_value_renders_quoted_and_parses_back() {
    assert_eq!(render_nix_env_value("hello"), "\"hello\"");
    let env = parse_env_section("X = \"hello\";\n");
    let key: Vec<char> = "X".chars().collect();
    assert_eq!(env.get(&key).map(String::as_str), Some("hello"));
}

// ---- normalization and the syntax check ----

#[test]
fn cleanup_removes_empty_marker_blocks() {
    let source = "let\n  # mica:let:begin\n\n  # mica:let:end\n  x = 1;\nin x\n";
    let cleaned = cleanup_mica_markers(source);
    assert!(!cleaned.contains("mica:let:begin"));
    assert!(cleaned.contains("x = 1;"));
}

#[test]
fn format_keeps_normalization_when_it_parses() {
    let source = "let\n  # mica:let:begin\n\n  # mica:let:end\n  x = 1;\nin x\n";
    let formatted = format_mica_nix(source);
    assert!(!formatted.contains("mica:let:begin"));
    assert_ne!(formatted, source);
}

// ---- diff ----

#[test]
fn diff_prefers_removal_before_insertion() {
    let out = diff_lines("a\nb\n", "a\nc\n");
    assert_eq!(out, vec!["  a".to_string(), "- b".to_string(), "+ c".to_string()]);
    let changes = diff_lines_changes_only("a\nb\n", "a\nc\n");
    assert_eq!(changes, vec!["- b".to_string(), "+ c".to_string()]);
}

// ---- CLI-layer helpers ----

#[test]
fn parse_github_repo_https() {
    let (owner, repo) =
        parse_github_repo("https://github.com/jpetrucciani/nix").expect("parse failed");
    assert_eq!(owner, "jpetrucciani");
    assert_eq!(repo, "nix");
}

#[test]
fn parse_github_repo_git_ssh() {
    let (owner, repo) =
        parse_github_repo("git@github.com:jpetrucciani/nix.git").expect("parse failed");
    assert_eq!(owner, "jpetrucciani");
    assert_eq!(repo, "nix");
}

#[test]
fn parse_github_repo_rejects_non_github() {
    let result = parse_github_repo("https://example.com/jpetrucciani/nix");
    assert!(result.is_err());
}

#[test]
fn resolve_remote_index_urls_prefers_commit_then_fallback() {
    let urls = resolve_remote_index_urls("https://static.g7c.us/mica", Some("abcd1234"));
    assert_eq!(
        urls,
        vec![
            "https://static.g7c.us/mica/abcd1234.db".to_string(),
            "https://static.g7c.us/mica/index.db".to_string()
        ]
    );
}

#[test]
fn resolve_remote_index_urls_keeps_explicit_db_url() {
    let urls = resolve_remote_index_urls("https://static.g7c.us/mica/index.db", Some("abcd"));
    assert_eq!(urls, vec!["https://static.g7c.us/mica/index.db".to_string()]);
}

#[test]
fn default_config_has_remote_index_url() {
    let config = Config::default();
    assert_eq!(config.index.remote_url, "https://static.g7c.us/mica");
}

#[test]
fn small_helpers_behave() {
    assert_eq!(sanitize_nix_identifier("foo-bar"), "foo_bar");
    assert_eq!(sanitize_nix_identifier(""), "_pin");
    assert_eq!(sanitize_nix_identifier("1abc"), "_1abc");
    assert_eq!(sanitize_pin_label("My Pin!"), "my_pin_");
    assert_eq!(normalize_attr_path("pkgs.hello"), "hello");
    assert_eq!(normalize_attr_path("nixos.hello"), "hello");
    assert!(is_valid_pin_name("rust_pin"));
    assert!(!is_valid_pin_name("1pin"));
    assert!(!is_valid_pin_name(""));
    assert!(is_nix_base32_hash("0123456789abcdf0123456789abcdf0123456789abcdf0123456"
        .get(0..52)
        .unwrap()));
    assert!(!is_nix_base32_hash("short"));
    assert_eq!(encode_github_ref("feature/x y"), "feature%2Fx%20y");
    assert!(contains_case_insensitive("The MIT License", "mit"));
    assert!(!contains_case_insensitive("BSD", "mit"));
    assert!(ensure_pin_complete(&base_pin()).is_ok());
    let mut p = base_pin();
    p.rev = "CHANGEME".to_string();
    assert!(ensure_pin_complete(&p).is_err());
}
