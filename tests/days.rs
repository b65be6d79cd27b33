use std::collections::HashSet;

use aoc2019::days::five::report;
use aoc2019::days::four::{count_valid_passwords, digit_pairs, digits, has_identical_pair, no_decreasing_pairs, within_bounds};
use aoc2019::days::one::{fuel_for_mass_and_fuel, mass2fuel, total_fuel, DayOne};
use aoc2019::days::seven::{best_order_thrust, run_amplifiers, run_amplifiers_looped, DaySeven};
use aoc2019::days::sixteen::{index_to_pattern_val, next_phase, next_phase_cheating, nth_phase, nth_phase_cheating};
use aoc2019::days::three::{
    closest_crossing, fastest_crossing, find_index, spaces_traversed, DayThree, Direction, Move, ParseError, Point,
};
use aoc2019::days::twentytwo::{
    cut, deal_into_new_stack, deal_with_increment, new_deck, shuffle, techniques_from_str, Technique,
};
use aoc2019::days::two::{find_noun_verb, run_with};
use aoc2019::intcode::Machine;
use aoc2019::problem::Problem;

#[test]
fn int_to_digits() {
    assert_eq!(vec![3], digits(&3));
    assert_eq!(vec![1, 0], digits(&10));
    assert_eq!(vec![6, 5, 4, 3, 2, 1], digits(&654321));
}

#[test]
fn mass2fuel_examples() {
    assert_eq!(2, mass2fuel(12));
    assert_eq!(2, mass2fuel(14));
    assert_eq!(654, mass2fuel(1969));
    assert_eq!(33583, mass2fuel(100756));
}

#[test]
fn mass2fuel_small() {
    assert_eq!(0, mass2fuel(2));
}

#[test]
fn fuel_for_fuel_examples() {
    assert_eq!(2, fuel_for_mass_and_fuel(14));
    assert_eq!(966, fuel_for_mass_and_fuel(1969));
    assert_eq!(50346, fuel_for_mass_and_fuel(100756));
}

#[test]
fn traversal_intersection_example() -> Result<(), ParseError> {
    let moves_one = Move::move_list_from_str("R8,U5,L5,D3")?;
    let moves_two = Move::move_list_from_str("U7,R6,D4,L4")?;

    let mut spaces_one = HashSet::new();
    spaces_one.extend(spaces_traversed(&moves_one));
    let mut spaces_two = HashSet::new();
    spaces_two.extend(spaces_traversed(&moves_two));

    let mut common: Vec<Point> = spaces_one.intersection(&spaces_two).cloned().collect();
    common.sort_by_key(|p| p.manhattan_magnitude());

    assert_eq!(vec![Point { x: 3, y: -3 }, Point { x: 6, y: -5 }], common);

    Ok(())
}

#[test]
fn manhattan_magnitude() {
    assert_eq!(0, Point { x: 0, y: 0 }.manhattan_magnitude());
    assert_eq!(4, Point { x: 1, y: 3 }.manhattan_magnitude());
    assert_eq!(5, Point { x: -2, y: 3 }.manhattan_magnitude());
    assert_eq!(2, Point { x: -1, y: -1 }.manhattan_magnitude());
    assert_eq!(6, Point { x: 2, y: -4 }.manhattan_magnitude());
}

#[test]
fn new_stack() {
    let deck = vec![0, 1, 2, 3, 4, 5, 6, 7, 8, 9];
    let newdeck = deal_into_new_stack(deck);
    assert_eq!(vec![9, 8, 7, 6, 5, 4, 3, 2, 1, 0], newdeck);
}

#[test]
fn cut_deck() {
    let deck = vec![0, 1, 2, 3, 4, 5, 6, 7, 8, 9];
    let cutdeck = cut(deck, 3);
    assert_eq!(vec![3, 4, 5, 6, 7, 8, 9, 0, 1, 2], cutdeck);
}

#[test]
fn cut_deck_negative() {
    let deck = vec![0, 1, 2, 3, 4, 5, 6, 7, 8, 9];
    let cutdeck = cut(deck, -4);
    assert_eq!(vec![6, 7, 8, 9, 0, 1, 2, 3, 4, 5], cutdeck);
}

#[test]
fn deal_with_inc() {
    let deck = vec![0, 1, 2, 3, 4, 5, 6, 7, 8, 9];
    let dealdeck = deal_with_increment(deck, 3);
    assert_eq!(vec![0, 7, 4, 1, 8, 5, 2, 9, 6, 3], dealdeck);
}

#[test]
fn shuffle_from_text() {
    let ts = techniques_from_str("deal with increment 7\ndeal into new stack\ndeal into new stack\n").unwrap();
    assert_eq!(vec![Technique::DealWithIncrement(7), Technique::DealNewStack, Technique::DealNewStack], ts);
    let deck: Vec<usize> = (0..10).collect();
    assert_eq!(Some(vec![0, 3, 6, 9, 2, 5, 8, 1, 4, 7]), shuffle(&ts, deck));
    let ts = techniques_from_str("cut 6\ndeal with increment 7\ndeal into new stack").unwrap();
    assert_eq!(Some(vec![3, 0, 7, 4, 1, 8, 5, 2, 9, 6]), shuffle(&ts, (0..10).collect()));
    assert_eq!(Some(vec![Technique::Cut(-2)]), techniques_from_str("cut -2"));
    assert_eq!(None, techniques_from_str("cut x"));
    assert_eq!(None, shuffle(&vec![Technique::Cut(11)], (0..10).collect()));
    assert_eq!(10007, new_deck().len());
    assert_eq!(Technique::DealNewStack.apply(vec![1, 2]), vec![2, 1]);
}

#[test]
fn password_rules() {
    assert_eq!(vec![(1, 1), (1, 2)], digit_pairs(&112));
    assert!(has_identical_pair(&111111));
    assert!(no_decreasing_pairs(&111111));
    assert!(!no_decreasing_pairs(&223450));
    assert!(!has_identical_pair(&123789));
    assert!(within_bounds(&146810));
    assert!(!within_bounds(&612565));
    assert_eq!(2, count_valid_passwords(111110, 111112));
}

#[test]
fn fuel_totals() {
    assert_eq!(Some(2 + 2 + 654 + 33583), total_fuel(&vec![12, 14, 1969, 100756], false));
    assert_eq!(Some(2 + 966 + 50346), total_fuel(&vec![14, 1969, 100756], true));
    assert_eq!(None, total_fuel(&vec![12, -1], false));
    assert_eq!("34241", DayOne {}.part_one("12\n14\n1969\n100756\n"));
}

#[test]
fn wire_parsing() {
    assert_eq!(Move { direction: Direction::Right, distance: 8 }, Move::from_str("R8").unwrap());
    assert!(matches!(Move::from_str("X8"), Err(ParseError::InvalidDirection(t)) if t == "X"));
    assert!(matches!(Move::from_str("Ux"), Err(ParseError::InvalidDistance(t)) if t == "x"));
    assert!(matches!(Direction::from_str("Q"), Err(ParseError::InvalidDirection(t)) if t == "Q"));
    let pts = spaces_traversed(&Move::move_list_from_str("R2,U1").unwrap());
    assert_eq!(vec![Point { x: 1, y: 0 }, Point { x: 2, y: 0 }, Point { x: 2, y: -1 }], pts);
    assert_eq!(Some(2), find_index(&pts, &Point { x: 2, y: -1 }));
    assert_eq!(None, find_index(&pts, &Point { x: 5, y: 5 }));
}

#[test]
fn fft_phases() {
    assert_eq!(1, index_to_pattern_val(0, 1));
    assert_eq!(-1, index_to_pattern_val(2, 1));
    assert_eq!(vec![4, 8, 2, 2, 6, 1, 5, 8], next_phase(&[1, 2, 3, 4, 5, 6, 7, 8]));
    assert_eq!(vec![0, 1, 0, 2, 9, 4, 9, 8], nth_phase(&[1, 2, 3, 4, 5, 6, 7, 8], 4));
    assert_eq!(vec![6, 1, 5, 8], next_phase_cheating(&[5, 6, 7, 8]));
    assert_eq!(vec![0, 4, 3, 8], nth_phase_cheating(&[5, 6, 7, 8], 2));
    assert_eq!(Some(vec![1, 2, 3]), aoc2019::days::sixteen::digits("123"));
    assert_eq!(None, aoc2019::days::sixteen::digits("12a"));
}

#[test]
fn gravity_assist_search() {
    let program = Machine::from_str("1,0,0,0,99").unwrap();
    assert_eq!(Some(3), run_with(&Machine::from_str("1,0,0,0,99").unwrap(), 1, 2));
    assert_eq!(Some((2, 2)), find_noun_verb(&Machine::from_str("1,0,0,0,99").unwrap(), 4));
    assert_eq!(Some(2), run_with(&program, 0, 0));
}

#[test]
fn amplifier_chain() {
    let m = Machine::from_str("3,15,3,16,1002,16,10,16,1,16,15,15,4,15,99,0,0").unwrap();
    assert_eq!(Some(43210), run_amplifiers(&m, vec![4, 3, 2, 1, 0]));
    assert_eq!(Some(43210), best_order_thrust(&m, 0, 5));
}

#[test]
fn diagnostic_report_joins_outputs() {
    assert_eq!("7 -3", report("3,0,4,0,104,-3,99", 7));
    assert_eq!("", report("99", 7));
}

#[test]
fn wire_crossings() {
    let a = spaces_traversed(&Move::move_list_from_str("R8,U5,L5,D3").unwrap());
    let b = spaces_traversed(&Move::move_list_from_str("U7,R6,D4,L4").unwrap());
    assert_eq!(Some(6), closest_crossing(&a, &b));
    assert_eq!(Some(30), fastest_crossing(&a, &b));
    assert_eq!("159", DayThree {}.part_one("R75,D30,R83,U83,L12,D49,R71,U7,L72\nU62,R66,U55,R34,D71,R55,D58,R83"));
    assert_eq!("610", DayThree {}.part_two("R75,D30,R83,U83,L12,D49,R71,U7,L72\nU62,R66,U55,R34,D71,R55,D58,R83"));
    assert_eq!(None, closest_crossing(&vec![Point { x: 1, y: 0 }], &vec![Point { x: 0, y: 1 }]));
}

#[test]
fn amplifier_feedback_loop() {
    let m = Machine::from_str(
        "3,26,1001,26,-4,26,3,27,1002,27,2,27,1,27,26,27,4,27,1001,28,-1,28,1005,28,6,99,0,0,5",
    )
    .unwrap();
    assert_eq!(Some(139629729), run_amplifiers_looped(&m, vec![9, 8, 7, 6, 5]));
    assert_eq!(None, run_amplifiers_looped(&m, vec![]));
    assert_eq!(
        "139629729",
        DaySeven {}.part_two("3,26,1001,26,-4,26,3,27,1002,27,2,27,1,27,26,27,4,27,1001,28,-1,28,1005,28,6,99,0,0,5")
    );
}
