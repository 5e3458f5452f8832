use std::collections::HashMap;

use ferris_elf::code::{double_valverun, parse, parse_checked, part_one, run, run_checked, AA};

const AA_LINE: &str = "Valve AA has flow rate=0; tunnel leads to valve BB";
const BB_LINE: &str = "Valve BB has flow rate=13; tunnel leads to valve AA";

const BB: u16 = 0x4242;

fn two_valve_input() -> String {
    format!("{}\n{}", AA_LINE, BB_LINE)
}

#[test]
fn parse_reads_labels_rates_and_tunnels() {
    let input = two_valve_input();
    let valves = parse(&input);
    assert_eq!(valves.len(), 2);
    let aa = valves.get(AA).expect("AA parsed");
    assert_eq!(aa.rate, 0);
    assert_eq!(aa.connections, vec![BB]);
    assert!(!aa.open);
    let bb = valves.get(BB).expect("BB parsed");
    assert_eq!(bb.rate, 13);
    assert_eq!(bb.connections, vec![AA]);
    assert!(!bb.open);
}

#[test]
fn parse_reads_multi_tunnel_lines() {
    let input = "Valve DD has flow rate=20; tunnels lead to valves CC, AA, EE";
    let valves = parse_checked(input).expect("well-formed line");
    let dd = valves.get(0x4444).expect("DD parsed");
    assert_eq!(dd.rate, 20);
    assert_eq!(dd.connections, vec![0x4343, AA, 0x4545]);
}

#[test]
fn parse_reads_one_digit_rate_with_several_tunnels() {
    let input = "Valve BB has flow rate=3; tunnels lead to valves AA, CC";
    let valves = parse_checked(input).expect("well-formed line");
    let bb = valves.get(BB).expect("BB parsed");
    assert_eq!(bb.rate, 3);
    assert_eq!(bb.connections, vec![AA, 0x4343]);
}

#[test]
fn parse_accepts_a_trailing_newline() {
    let input = format!("{}\n{}\n", AA_LINE, BB_LINE);
    let valves = parse_checked(&input).expect("trailing newline is fine");
    assert_eq!(valves.len(), 2);
}

#[test]
fn parse_checked_refuses_carriage_returns() {
    let input = format!("{}\r\n{}", AA_LINE, BB_LINE);
    assert!(parse_checked(&input).is_none());
}

#[test]
fn parse_checked_refuses_malformed_lines() {
    assert!(parse_checked("").is_some());
    assert!(parse_checked("garbage").is_none());
    assert!(parse_checked("Valve AA has flow rate=0; tunnel leads to valve B").is_none());
    let dup = format!("{}\n{}", AA_LINE, AA_LINE);
    assert!(parse_checked(&dup).is_none());
}

#[test]
fn run_checked_refuses_unsearchable_networks() {
    // BB is named but never defined: the network is not closed.
    assert!(run_checked(AA_LINE).is_none());
    // Well-formed and closed, but no starting valve AA.
    assert!(run_checked("Valve BB has flow rate=13; tunnel leads to valve BB").is_none());
    assert!(run_checked("not an input").is_none());
}

#[test]
fn with_open_marks_exactly_one_valve() {
    let input = two_valve_input();
    let valves = parse(&input);
    let opened = valves.with_open(BB);
    assert!(opened.get(BB).unwrap().open);
    assert!(!opened.get(AA).unwrap().open);
    assert!(!valves.get(BB).unwrap().open);
}

#[test]
fn search_returns_total_when_time_is_out() {
    let input = two_valve_input();
    let valves = parse(&input);
    let mut highest: HashMap<i64, i64> = HashMap::new();
    let best = double_valverun((AA, 0), (AA, 0), &valves, 0, &mut highest, 5, 0);
    assert_eq!(best, 5);
}

#[test]
fn search_opens_a_valve_and_collects_its_flow() {
    let input = two_valve_input();
    let valves = parse(&input);
    let mut highest: HashMap<i64, i64> = HashMap::new();
    // One turn left at BB: open it, the elephant walks to AA, and the one
    // recursive step adds the current turnflow to the total.
    let best = double_valverun((BB, 0), (BB, 0), &valves, 1, &mut highest, 7, 3);
    assert_eq!(best, 10);
    assert_eq!(highest.get(&1), Some(&7));
}

#[test]
fn two_valve_network_dead_ends_at_zero() {
    // Both agents walk to BB, one opens it, and the other may not walk
    // straight back to AA: the search dead-ends with nothing released.
    let input = two_valve_input();
    assert_eq!(run(&input), 0);
    assert_eq!(run_checked(&input), Some(0));
    let valves = parse(&input);
    assert_eq!(part_one(&valves), 0);
}
