//! The text utilities: IDs, strikethrough, trailing portions, last-line
//! editing, and the program-data rendering.

use remslice::feature::{al_missing, al_outcome, ted_outcome};
use remslice::command::CommandResult;
use remslice::remdata::RemData;
use remslice::remfetch::remfetch;
use remslice::remstate::RemState;
use remslice::utils::{
    edit_last_line_of_file, generate_next_id, get_config_path, get_date_only_formatted,
    get_time_formatted, strikethrough_text, trailing_portion_of_input,
};

#[test]
fn next_id_counts_through_letters() {
    assert_eq!(generate_next_id("a".to_string()), "b".to_string());
    assert_eq!(generate_next_id("y".to_string()), "z".to_string());
    assert_eq!(generate_next_id("z".to_string()), "aa".to_string());
    assert_eq!(generate_next_id("az".to_string()), "ba".to_string());
    assert_eq!(generate_next_id("zz".to_string()), "aaa".to_string());
    assert_eq!(generate_next_id("ba".to_string()), "bb".to_string());
    assert_eq!(generate_next_id("".to_string()), "a".to_string());
}

#[test]
fn strikethrough_wraps_after_the_dash() {
    assert_eq!(
        strikethrough_text("- buy milk"),
        "- ~~buy milk~~".to_string()
    );
}

#[test]
fn strikethrough_removes_existing_tildes() {
    assert_eq!(
        strikethrough_text("- ~~buy milk~~"),
        "- buy milk".to_string()
    );
}

#[test]
fn strikethrough_without_dash_wraps_whole_line() {
    assert_eq!(strikethrough_text("plain text"), "~~plain text~~".to_string());
}

#[test]
fn strikethrough_short_dash_lines() {
    assert_eq!(strikethrough_text("-"), "-~~".to_string());
    assert_eq!(strikethrough_text("- "), "- ~~".to_string());
}

#[test]
fn trailing_portion_drops_leading_words() {
    assert_eq!(
        trailing_portion_of_input("one two three", 2),
        "two three".to_string()
    );
    assert_eq!(
        trailing_portion_of_input("one two three", 3),
        "three".to_string()
    );
    assert_eq!(
        trailing_portion_of_input("  one two three  ", 1),
        "one two three".to_string()
    );
    assert_eq!(trailing_portion_of_input("word", 5), "".to_string());
}

#[test]
fn edit_last_line_replaces_or_appends() {
    assert_eq!(
        edit_last_line_of_file("a\nb\n", "X", false),
        Some("a\nX\n".to_string())
    );
    assert_eq!(
        edit_last_line_of_file("a\nb\n", " more", true),
        Some("a\nb more\n".to_string())
    );
    assert_eq!(
        edit_last_line_of_file("only", "new", false),
        Some("new\n".to_string())
    );
    assert_eq!(edit_last_line_of_file("", "X", false), None);
}

#[test]
fn remdata_renders_its_fields() {
    let d = RemData::new("0.6.2", "2025/08/08", true);
    assert_eq!(
        d.to_string(),
        "R: v0.6.2, E: 2025/08/08, M: [success]".to_string()
    );
    let night = RemData::new("0.1.0", "2020/01/01", false);
    assert_eq!(
        night.to_string(),
        "R: v0.1.0, E: 2020/01/01, M: [failure]".to_string()
    );
    assert_eq!(d.get_r(), "0.6.2".to_string());
    assert_eq!(d.get_e(), "2025/08/08".to_string());
    assert!(d.get_m());
    let copy = d.clone();
    assert_eq!(copy.to_string(), d.to_string());
}

#[test]
fn remfetch_banner_holds_every_field() {
    let d = RemData::new("0.6.2", "2025/08/08", true);
    let banner = remfetch(&d, "2025/08/08 12:30", "linux", "/home/u/.remrc");
    assert!(banner.contains("REMSLICE"));
    assert!(banner.contains("REM/Recent Version: 0.6.2\n"));
    assert!(banner.contains("REM/Edit Date:      2025/08/08\n"));
    assert!(banner.contains("REM/Morning Star:   [success]\n"));
    assert!(banner.contains("Current Time:       2025/08/08 12:30\n"));
    assert!(banner.contains("OS:                 linux\n"));
    assert!(banner.contains("Config Path:        /home/u/.remrc\n"));
}

#[test]
fn outcomes_map_success_and_failure() {
    assert!(matches!(ted_outcome(true), CommandResult::EndProgram));
    match ted_outcome(false) {
        CommandResult::Error(m) => assert!(m.contains("ted_command_template")),
        _ => panic!("a failed editor launch must be an error"),
    }
    assert!(matches!(al_outcome(true, true), CommandResult::EndProgram));
    assert!(matches!(al_outcome(true, false), CommandResult::Nominal));
    assert!(matches!(al_outcome(false, true), CommandResult::Nominal));
    match al_missing() {
        CommandResult::Error(m) => assert_eq!(m, "The shell alias doesn't exist".to_string()),
        _ => panic!("a missing alias must be an error"),
    }
}

#[test]
fn ping_counts_up_and_time_is_noted() {
    let mut state = RemState::new(RemData::new("0.0.1", "2024/01/01", true));
    assert_eq!(state.ping_count, 0);
    assert_eq!(state.ping(), 1);
    assert_eq!(state.ping(), 2);
    assert_eq!(state.ping_count, 2);
    assert_eq!(state.to_copy_val, "[empty]".to_string());
    let shown = state.run_time();
    assert_eq!(state.to_copy_val, shown);
}

#[test]
fn clock_and_home_helpers_answer() {
    // The results depend on the clock and the environment; only their use is
    // exercised here.
    let _ = get_time_formatted();
    let _ = get_date_only_formatted();
    let _ = get_config_path();
}
