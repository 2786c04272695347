//! Loading the configuration: line-by-line dispatch through the config
//! command table, best-effort with warnings for bad lines.

use remslice::config::Config;
use remslice::feature::{run_al, run_ted, AlPlan};
use remslice::remdata::RemData;
use remslice::remstate::RemState;

fn fresh_state() -> RemState {
    RemState::new(RemData::new("0.0.1", "2024/01/01", false))
}

#[test]
fn malformed_line_warns_and_good_line_still_applies() {
    // One malformed line and one well-formed line: the well-formed line's
    // effect is applied, the malformed one draws a warning, and loading
    // never aborts.
    let mut state = fresh_state();
    let warnings = state.load_config_from("nonsense x y\ntodo mytodos.md\n");
    assert_eq!(warnings, vec!["nonsense x y".to_string()]);
    assert_eq!(state.config.todo_path, "mytodos.md".to_string());
}

#[test]
fn wrong_arity_for_known_name_warns() {
    let mut state = fresh_state();
    let warnings = state.load_config_from("tip onlykey\n");
    assert_eq!(warnings, vec!["tip onlykey".to_string()]);
    assert!(state.config.get_tip_value("onlykey").is_none());
}

#[test]
fn blank_and_comment_lines_are_skipped_silently() {
    let mut state = fresh_state();
    let warnings = state.load_config_from("\n# a comment\n   \n  # indented comment\n");
    assert!(warnings.is_empty());
}

#[test]
fn tips_are_added_and_found_by_prefix() {
    let mut state = fresh_state();
    let warnings = state.load_config_from("tip alpha /some/path\ntip beta /other path\n");
    assert!(warnings.is_empty());
    assert_eq!(state.config.get_tip_value("alpha"), Some("/some/path".to_string()));
    assert_eq!(state.config.get_tip_value("al"), Some("/some/path".to_string()));
    assert_eq!(state.config.get_tip_value("bet"), Some("/other path".to_string()));
    assert!(state.config.get_tip_value("gamma").is_none());
}

#[test]
fn tip_keys_are_lower_cased_and_values_verbatim() {
    let mut state = fresh_state();
    state.load_config_from("tip MyKey /Mixed/Case Path\n");
    assert_eq!(state.config.get_tip_value("mykey"), Some("/Mixed/Case Path".to_string()));
}

#[test]
fn shell_aliases_load_with_and_without_quitting() {
    let mut state = fresh_state();
    let warnings = state.load_config_from(
        "shell_alias build cargo build --release\nshell_alias_quitting editor gvim .\n",
    );
    assert!(warnings.is_empty());
    match run_al(&state.config, "build") {
        AlPlan::RunShell { command, quit_after_running } => {
            assert_eq!(command, "cargo build --release".to_string());
            assert!(!quit_after_running);
        },
        AlPlan::NoSuchAlias => panic!("the build alias must exist"),
    }
    match run_al(&state.config, "editor") {
        AlPlan::RunShell { command, quit_after_running } => {
            assert_eq!(command, "gvim .".to_string());
            assert!(quit_after_running);
        },
        AlPlan::NoSuchAlias => panic!("the editor alias must exist"),
    }
    assert!(matches!(run_al(&state.config, "missing"), AlPlan::NoSuchAlias));
}

#[test]
fn ted_command_is_prefix_path_suffix() {
    let mut state = fresh_state();
    assert_eq!(run_ted(&state.config), "gvim + default_todos.md".to_string());
    state.load_config_from("ted_command_prefix code \ntodo notes.md\n");
    assert_eq!(run_ted(&state.config), "code notes.md".to_string());
}

#[test]
fn score_categories_accumulate_in_order() {
    let mut state = fresh_state();
    state.load_config_from("score_p slept well\nscore_n stayed up late\nscore_p exercised\n");
    assert_eq!(
        state.config.score_positive(),
        vec!["slept well".to_string(), "exercised".to_string()]
    );
    assert_eq!(state.config.score_negative(), vec!["stayed up late".to_string()]);
}

#[test]
fn score_divby_text_is_stored() {
    let mut state = fresh_state();
    state.load_config_from("score_divby 7.5\nscore_formula_number 2\n");
    assert_eq!(state.config.score_divby, "7.5".to_string());
    assert_eq!(state.config.score_formula_number, "2".to_string());
}

#[test]
fn defaults_before_any_config() {
    let config = Config::new();
    assert_eq!(config.todo_path, "default_todos.md".to_string());
    assert_eq!(config.score_divby, "5.0".to_string());
    assert_eq!(config.score_formula_number, "1".to_string());
    assert_eq!(config.ted_command_prefix, "gvim + ".to_string());
    assert_eq!(config.ted_command_suffix, "".to_string());
    assert_eq!(config.display_tips(), "".to_string());
}

#[test]
fn displays_list_entries_in_order() {
    let mut state = fresh_state();
    state.load_config_from(
        "tip k1 v1\ntip k2 v2\nrem_alias short longer text\nshell_alias_quitting e gvim\n",
    );
    assert_eq!(state.config.display_tips(), "   k1 : v1\n   k2 : v2\n".to_string());
    assert_eq!(
        state.config.display_rem_aliases(),
        "   short : longer text\n".to_string()
    );
    assert_eq!(
        state.config.display_shell_aliases(),
        "   e (Q) : gvim\n".to_string()
    );
}

#[test]
fn rem_alias_values_keep_their_spaces() {
    let mut state = fresh_state();
    state.load_config_from("rem_alias g grep some  spaced term\n");
    assert_eq!(
        state.config.get_rem_alias_value("g"),
        Some("grep some  spaced term".to_string())
    );
    assert!(state.config.get_rem_alias_value("h").is_none());
}
