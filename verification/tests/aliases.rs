//! Alias resolution: redispatch of replacement text, and the recursion
//! depth ceiling.

use remslice::command::Action;
use remslice::command_lists::get_rem_commands;
use remslice::rem::{Rem, Resolution, MAX_RECURSION_LEVEL};
use remslice::remdata::RemData;

fn fresh_rem() -> Rem {
    Rem::new(RemData::new("0.0.1", "2024/01/01", true))
}

#[test]
fn alias_resolves_to_command() {
    let mut rem = fresh_rem();
    rem.state.load_config_from("rem_alias leave quit\n");
    let r = rem.respond_to_input("leave", 0);
    match r {
        Resolution::Execute { index, args } => {
            let reg = get_rem_commands();
            assert_eq!(reg[index].action(), Action::Quit);
            assert!(args.is_empty());
        },
        _ => panic!("the alias must resolve to the quit command"),
    }
}

#[test]
fn alias_chain_resolves_through_two_levels() {
    let mut rem = fresh_rem();
    rem.state.load_config_from("rem_alias a b\nrem_alias b ping\n");
    let r = rem.respond_to_input("a", 0);
    match r {
        Resolution::Execute { index, .. } => {
            let reg = get_rem_commands();
            assert_eq!(reg[index].action(), Action::Ping);
        },
        _ => panic!("the two-level alias chain must resolve"),
    }
}

#[test]
fn unknown_input_is_unrecognized() {
    let rem = fresh_rem();
    let r = rem.respond_to_input("no_such_thing", 0);
    assert!(matches!(r, Resolution::Unrecognized));
}

#[test]
fn empty_input_is_unrecognized() {
    let rem = fresh_rem();
    assert!(matches!(rem.respond_to_input("", 0), Resolution::Unrecognized));
}

#[test]
fn self_referential_alias_hits_recursion_limit() {
    let mut rem = fresh_rem();
    rem.state.load_config_from("rem_alias a a\n");
    let r = rem.respond_to_input("a", 0);
    assert!(matches!(r, Resolution::RecursionLimit));
}

#[test]
fn two_alias_cycle_hits_recursion_limit() {
    let mut rem = fresh_rem();
    rem.state.load_config_from("rem_alias a b\nrem_alias b a\n");
    let r = rem.respond_to_input("a", 0);
    assert!(matches!(r, Resolution::RecursionLimit));
}

#[test]
fn start_past_the_ceiling_aborts_immediately() {
    let rem = fresh_rem();
    let r = rem.respond_to_input("quit", MAX_RECURSION_LEVEL + 1);
    assert!(matches!(r, Resolution::RecursionLimit));
}

#[test]
fn exactly_one_hundred_redispatches_are_allowed() {
    // A chain of exactly 100 redispatches still resolves; one more hits the
    // ceiling even though its end would match.
    let mut contents = String::new();
    for i in 0..100 {
        if i == 99 {
            contents.push_str(&format!("rem_alias x{} quit\n", i));
        } else {
            contents.push_str(&format!("rem_alias x{} x{}\n", i, i + 1));
        }
    }
    let mut rem = fresh_rem();
    rem.state.load_config_from(&contents);
    let reg = get_rem_commands();
    match rem.respond_to_input("x0", 0) {
        Resolution::Execute { index, .. } => assert_eq!(reg[index].action(), Action::Quit),
        _ => panic!("a chain of 100 redispatches must still resolve"),
    }

    let mut longer = String::new();
    for i in 0..101 {
        if i == 100 {
            longer.push_str(&format!("rem_alias y{} quit\n", i));
        } else {
            longer.push_str(&format!("rem_alias y{} y{}\n", i, i + 1));
        }
    }
    let mut rem2 = fresh_rem();
    rem2.state.load_config_from(&longer);
    assert!(matches!(rem2.respond_to_input("y0", 0), Resolution::RecursionLimit));
}

#[test]
fn alias_lookup_uses_first_token_of_line() {
    let mut rem = fresh_rem();
    rem.state.load_config_from("rem_alias greet ping\n");
    let r = rem.respond_to_input("greet anything else", 0);
    match r {
        Resolution::Execute { index, .. } => {
            let reg = get_rem_commands();
            assert_eq!(reg[index].action(), Action::Ping);
        },
        _ => panic!("the alias key is the first token of the line"),
    }
}
