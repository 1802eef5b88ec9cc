use std::collections::HashSet;

use turing_sim::error::Error;
use turing_sim::turing_machine::table::TransitionTable;
use turing_sim::turing_machine::transition::{Direction, Transition};
use turing_sim::turing_machine::{TuringMachine, MAX_STEP};

#[test]
fn test_add_transition() {
    let tr1 =
        Transition::new(&vec!['a', 'a'], &vec![Direction::Right, Direction::Left], 1).unwrap();
    let tr2 = Transition::new(
        &vec!['a', '\0', '\0'],
        &vec![Direction::Stop, Direction::Right, Direction::Left],
        3,
    )
    .unwrap();
    let mut tm = TuringMachine::new(0, 2, &HashSet::from([0, 1, 2])).unwrap();
    assert_eq!(tm.insert_transition(0, &vec!['a', 'a'], &tr1), Ok(()));
    assert_eq!(tm.insert_transition(10, &vec!['a', 'a'], &tr1), Ok(()));
    assert_eq!(tm.insert_transition(0, &vec!['b', 'a'], &tr1), Ok(()));
    assert_eq!(tm.insert_transition(0, &vec!['b', 'a'], &tr1), Err(Error::Indeterminancy));
    assert_eq!(tm.insert_transition(0, &vec!['a', 'b'], &tr2), Err(Error::UnmatchingSizes(2, 3)));
}

#[test]
fn test_run_singletape() {
    let mut tm = TuringMachine::new(0, 1, &HashSet::from([0])).unwrap();
    let tr0 = Transition::new(&vec!['M'], &vec![Direction::Right], 1).unwrap();
    let tr1 = Transition::new(&vec!['M'], &vec![Direction::Right], 0).unwrap();
    tm.insert_transition(0, &vec!['a'], &tr0).expect("Unexpected error found adding transition");
    tm.insert_transition(1, &vec!['a'], &tr1).expect("Unexpected error found adding transition");
    assert_eq!(tm.run(""), Ok(true));
}

fn even_as() -> TuringMachine {
    let mut tm = TuringMachine::new(0, 1, &HashSet::from([0])).unwrap();
    let tr0 = Transition::new(&['M'], &[Direction::Right], 1).unwrap();
    let tr1 = Transition::new(&['M'], &[Direction::Right], 0).unwrap();
    tm.insert_transition(0, &['a'], &tr0).unwrap();
    tm.insert_transition(1, &['a'], &tr1).unwrap();
    tm
}

fn runs_forever() -> TuringMachine {
    let mut tm = TuringMachine::new(0, 1, &HashSet::from([0])).unwrap();
    let stay = Transition::new(&['\0'], &[Direction::Stop], 0).unwrap();
    tm.insert_transition(0, &['\0'], &stay).unwrap();
    tm
}

#[test]
fn run_decides_even_number_of_as() {
    let tm = even_as();
    assert_eq!(tm.run(""), Ok(true));
    assert_eq!(tm.run("a"), Ok(false));
    assert_eq!(tm.run("aa"), Ok(true));
    assert_eq!(tm.run("aaa"), Ok(false));
    assert_eq!(tm.run("aab"), Ok(true));
    assert_eq!(tm.run("ab"), Ok(false));
}

#[test]
fn run_counts_the_applied_transitions() {
    let tm = even_as();
    assert_eq!(tm.run_counted(""), (Ok(true), 0));
    assert_eq!(tm.run_counted("a"), (Ok(false), 1));
    assert_eq!(tm.run_counted("aaaa"), (Ok(true), 4));
    assert_eq!(tm.run_counted("aaba"), (Ok(true), 2));
}

#[test]
fn run_is_deterministic() {
    let tm = even_as();
    let first = tm.run_counted("aaaaa");
    let second = tm.run_counted("aaaaa");
    assert_eq!(first, second);
    assert_eq!(first, (Ok(false), 5));
    let looping = runs_forever();
    assert_eq!(looping.run_counted(""), looping.run_counted(""));
}

#[test]
fn run_stops_at_the_step_bound() {
    let tm = runs_forever();
    assert_eq!(tm.max_steps(), 500);
    assert_eq!(MAX_STEP, 500);
    assert_eq!(tm.run(""), Err(Error::MaxStepsReached));
    assert_eq!(tm.run_counted(""), (Err(Error::MaxStepsReached), 500));
    assert_eq!(tm.run("x"), Ok(true));
}

#[test]
fn step_bound_is_reached_only_when_the_machine_would_go_on() {
    let mut tm = even_as();
    let input = "a".repeat(500);
    assert_eq!(tm.run_counted(&input), (Ok(true), 500));
    let longer = "a".repeat(501);
    assert_eq!(tm.run_counted(&longer), (Err(Error::MaxStepsReached), 500));
    tm.set_max_steps(501);
    assert_eq!(tm.max_steps(), 501);
    assert_eq!(tm.run_counted(&longer), (Ok(false), 501));
    tm.set_max_steps(3);
    assert_eq!(tm.run_counted("aaa"), (Ok(false), 3));
    assert_eq!(tm.run_counted("aaaa"), (Err(Error::MaxStepsReached), 3));
    tm.set_max_steps(0);
    assert_eq!(tm.run_counted(""), (Ok(true), 0));
    assert_eq!(tm.run_counted("a"), (Err(Error::MaxStepsReached), 0));
}

#[test]
fn run_leaves_the_machine_as_it_was() {
    let tm = even_as();
    assert_eq!(tm.run("aa"), Ok(true));
    assert_eq!(tm.run("a"), Ok(false));
    assert_eq!(tm.run("aa"), Ok(true));
}

#[test]
fn initial_state_without_transition_is_judged_at_once() {
    let accepting = TuringMachine::new(3, 1, &HashSet::from([3])).unwrap();
    assert_eq!(accepting.run_counted("anything"), (Ok(true), 0));
    let rejecting = TuringMachine::new(3, 1, &HashSet::from([4])).unwrap();
    assert_eq!(rejecting.run_counted("anything"), (Ok(false), 0));
    let nothing = TuringMachine::new(0, 2, &HashSet::new()).unwrap();
    assert_eq!(nothing.run(""), Ok(false));
}

#[test]
fn new_refuses_zero_tapes() {
    let r = TuringMachine::new(0, 0, &HashSet::from([0]));
    assert!(matches!(r, Err(Error::TapeErrorCount)));
    assert!(TuringMachine::new(0, 1, &HashSet::from([0])).is_ok());
}

#[test]
fn second_transition_for_a_key_is_refused_and_the_first_stays() {
    let mut tm = TuringMachine::new(0, 2, &HashSet::from([0, 1, 2])).unwrap();
    let t1 = Transition::new(&['x', 'y'], &[Direction::Stop, Direction::Stop], 1).unwrap();
    let t2 = Transition::new(&['x', 'y'], &[Direction::Stop, Direction::Stop], 7).unwrap();
    assert_eq!(tm.insert_transition(0, &['a', '\0'], &t1), Ok(()));
    assert_eq!(tm.insert_transition(0, &['a', '\0'], &t1), Err(Error::Indeterminancy));
    assert_eq!(tm.insert_transition(0, &['a', '\0'], &t2), Err(Error::Indeterminancy));
    assert_eq!(tm.run_counted("a"), (Ok(true), 1));
}

#[test]
fn wrong_arity_is_refused_and_the_machine_stays() {
    let mut tm = TuringMachine::new(0, 2, &HashSet::from([1])).unwrap();
    let three = Transition::new(
        &['a', 'b', 'c'],
        &[Direction::Left, Direction::Right, Direction::Stop],
        1,
    )
    .unwrap();
    assert_eq!(
        tm.insert_transition(0, &['a', '\0'], &three),
        Err(Error::UnmatchingSizes(2, 3))
    );
    assert_eq!(tm.run_counted("a"), (Ok(false), 0));
    let two = Transition::new(&['a', 'b'], &[Direction::Stop, Direction::Stop], 1).unwrap();
    assert_eq!(tm.insert_transition(0, &['a'], &two), Err(Error::UnmatchingSizes(2, 1)));
    assert_eq!(
        tm.insert_transition(0, &['a', '\0', '\0'], &two),
        Err(Error::UnmatchingSizes(2, 3))
    );
    assert_eq!(tm.insert_transition(0, &['a'], &three), Err(Error::UnmatchingSizes(2, 3)));
    assert_eq!(tm.run_counted("a"), (Ok(false), 0));
    assert_eq!(tm.insert_transition(0, &['a', '\0'], &two), Ok(()));
    assert_eq!(tm.run_counted("a"), (Ok(true), 1));
}

#[test]
fn insertion_order_does_not_matter() {
    let t1 = Transition::new(&['M'], &[Direction::Right], 1).unwrap();
    let t2 = Transition::new(&['M'], &[Direction::Right], 0).unwrap();
    let mut one = TuringMachine::new(0, 1, &HashSet::from([0])).unwrap();
    one.insert_transition(0, &['a'], &t1).unwrap();
    one.insert_transition(1, &['a'], &t2).unwrap();
    let mut other = TuringMachine::new(0, 1, &HashSet::from([0])).unwrap();
    other.insert_transition(1, &['a'], &t2).unwrap();
    other.insert_transition(0, &['a'], &t1).unwrap();
    for input in ["", "a", "aa", "aaa", "aba"] {
        assert_eq!(one.run_counted(input), other.run_counted(input));
    }
}

#[test]
fn two_tapes_copy_and_compare() {
    // Copies the input to the second tape, goes back and checks that both
    // tapes hold the same string.
    let mut tm = TuringMachine::new(0, 2, &HashSet::from([3])).unwrap();
    let right = [Direction::Right, Direction::Right];
    let left = [Direction::Left, Direction::Left];
    let stop = [Direction::Stop, Direction::Stop];
    for c in ['a', 'b'] {
        let copy = Transition::new(&[c, c], &right, 0).unwrap();
        tm.insert_transition(0, &[c, '\0'], &copy).unwrap();
        let back = Transition::new(&[c, c], &left, 1).unwrap();
        tm.insert_transition(1, &[c, c], &back).unwrap();
    }
    let turn = Transition::new(&['\0', '\0'], &left, 1).unwrap();
    tm.insert_transition(0, &['\0', '\0'], &turn).unwrap();
    let done = Transition::new(&['\0', '\0'], &stop, 3).unwrap();
    tm.insert_transition(1, &['\0', '\0'], &done).unwrap();
    assert_eq!(tm.run_counted("ab"), (Ok(true), 6));
    assert_eq!(tm.run_counted("abba"), (Ok(true), 10));
    assert_eq!(tm.run_counted(""), (Ok(true), 2));
    assert_eq!(tm.run_counted("ac"), (Ok(false), 1));
}

#[test]
fn heads_move_left_of_the_origin() {
    let mut tm = TuringMachine::new(0, 1, &HashSet::from([2])).unwrap();
    let go_left = Transition::new(&['x'], &[Direction::Left], 1).unwrap();
    tm.insert_transition(0, &['a'], &go_left).unwrap();
    let mark = Transition::new(&['y'], &[Direction::Right], 2).unwrap();
    tm.insert_transition(1, &['\0'], &mark).unwrap();
    let stay = Transition::new(&['x'], &[Direction::Stop], 3).unwrap();
    tm.insert_transition(2, &['y'], &stay).unwrap();
    assert_eq!(tm.run_counted("a"), (Ok(true), 2));
}

#[test]
fn transition_new_checks_the_two_lengths() {
    let r = Transition::new(&['a', 'b'], &[Direction::Left], 0);
    assert!(matches!(r, Err(Error::TransitionSizeUnmatch(1, 2))));
    let r = Transition::new(&[], &[Direction::Left, Direction::Stop], 0);
    assert!(matches!(r, Err(Error::TransitionSizeUnmatch(2, 0))));
    let t = Transition::new(&['a', 'b'], &[Direction::Left, Direction::Stop], 9).unwrap();
    assert_eq!(t.len(), 2);
    assert_eq!(t.next(), 9);
    assert_eq!(t.write_slice(), &['a', 'b']);
    assert_eq!(t.move_slice(), &[Direction::Left, Direction::Stop]);
    let c = t.clone();
    assert_eq!(c.len(), 2);
    assert_eq!(c.next(), 9);
    assert_eq!(c.write_slice(), t.write_slice());
    assert_eq!(c.move_slice(), t.move_slice());
    let empty = Transition::new(&[], &[], 1).unwrap();
    assert_eq!(empty.len(), 0);
}

#[test]
fn table_insert_and_lookup() {
    let mut table = TransitionTable::new(2);
    assert_eq!(table.ntapes(), 2);
    let t1 = Transition::new(&['x', 'y'], &[Direction::Left, Direction::Right], 4).unwrap();
    let t2 = Transition::new(&['u', 'v'], &[Direction::Stop, Direction::Stop], 5).unwrap();
    assert!(table.lookup(0, &['a', 'b']).is_none());
    assert_eq!(table.insert(0, &['a', 'b'], &t1), Ok(()));
    assert_eq!(table.insert(0, &['b', 'a'], &t2), Ok(()));
    assert_eq!(table.insert(1, &['a', 'b'], &t2), Ok(()));
    assert_eq!(table.insert(0, &['a', 'b'], &t2), Err(Error::Indeterminancy));
    let found = table.lookup(0, &['a', 'b']).unwrap();
    assert_eq!(found.next(), 4);
    assert_eq!(found.write_slice(), &['x', 'y']);
    assert_eq!(found.move_slice(), &[Direction::Left, Direction::Right]);
    assert_eq!(table.lookup(0, &['b', 'a']).unwrap().next(), 5);
    assert_eq!(table.lookup(1, &['a', 'b']).unwrap().next(), 5);
    assert!(table.lookup(1, &['b', 'a']).is_none());
    assert!(table.lookup(0, &['a']).is_none());
    assert!(table.lookup(0, &['a', 'b', 'c']).is_none());
    let three = Transition::new(
        &['a', 'b', 'c'],
        &[Direction::Left, Direction::Right, Direction::Stop],
        1,
    )
    .unwrap();
    assert_eq!(table.insert(2, &['a', 'b'], &three), Err(Error::UnmatchingSizes(2, 3)));
    assert!(table.lookup(2, &['a', 'b']).is_none());
    assert_eq!(table.insert(2, &['a'], &t1), Err(Error::UnmatchingSizes(2, 1)));
    assert!(table.lookup(2, &['a']).is_none());
}

#[test]
fn large_state_numbers_are_fine() {
    let mut tm = TuringMachine::new(usize::MAX, 1, &HashSet::from([usize::MAX - 1])).unwrap();
    let t = Transition::new(&['b'], &[Direction::Stop], usize::MAX - 1).unwrap();
    assert_eq!(tm.insert_transition(usize::MAX, &['a'], &t), Ok(()));
    assert_eq!(tm.run_counted("a"), (Ok(true), 1));
}

#[test]
fn error_values_compare_and_clone() {
    let e = Error::UnkownDirection(String::from("Up"));
    assert_eq!(e.clone(), e);
    assert_ne!(e, Error::UnkownDirection(String::from("Down")));
    assert_eq!(Error::UnmatchingSizes(2, 3).clone(), Error::UnmatchingSizes(2, 3));
    assert_ne!(Error::UnmatchingSizes(2, 3), Error::TransitionSizeUnmatch(2, 3));
    assert_eq!(Error::ErrorParsing(String::from("x")).clone(), Error::ErrorParsing(String::from("x")));
    assert_eq!(Error::ErrorOpenFile(String::from("y")).clone(), Error::ErrorOpenFile(String::from("y")));
    assert_eq!(Error::Fail(String::from("z")).clone(), Error::Fail(String::from("z")));
    assert_eq!(Error::Indeterminancy.clone(), Error::Indeterminancy);
    assert_eq!(Error::MaxStepsReached.clone(), Error::MaxStepsReached);
    assert_eq!(Error::TapeErrorCount.clone(), Error::TapeErrorCount);
}

#[test]
fn machine_clone_runs_like_the_machine() {
    let mut tm = TuringMachine::new(0, 1, &HashSet::from([0])).unwrap();
    let tr0 = Transition::new(&['M'], &[Direction::Right], 1).unwrap();
    let tr1 = Transition::new(&['M'], &[Direction::Right], 0).unwrap();
    tm.insert_transition(0, &['a'], &tr0).unwrap();
    tm.set_max_steps(7);
    let mut copy = tm.clone();
    assert_eq!(copy.max_steps(), 7);
    assert_eq!(copy.run_counted("a"), tm.run_counted("a"));
    assert_eq!(copy.insert_transition(0, &['a'], &tr1), Err(Error::Indeterminancy));
    copy.insert_transition(1, &['a'], &tr1).unwrap();
    assert_eq!(copy.run_counted("aa"), (Ok(true), 2));
    assert_eq!(tm.run_counted("aa"), (Ok(false), 1));
}

#[test]
fn table_clone_holds_the_same_transitions() {
    let mut table = TransitionTable::new(1);
    let t1 = Transition::new(&['x'], &[Direction::Left], 4).unwrap();
    table.insert(0, &['a'], &t1).unwrap();
    let mut copy = table.clone();
    assert_eq!(copy.ntapes(), 1);
    assert_eq!(copy.lookup(0, &['a']).unwrap().next(), 4);
    assert_eq!(copy.insert(0, &['a'], &t1), Err(Error::Indeterminancy));
    copy.insert(1, &['a'], &t1).unwrap();
    assert!(table.lookup(1, &['a']).is_none());
}
