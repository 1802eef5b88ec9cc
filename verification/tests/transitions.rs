use turing_sim::text::{chars_of, push_decimal, string_of};
use turing_sim::turing_machine::record;
use turing_sim::turing_machine::tape::Tape;
use turing_sim::turing_machine::tape_function::transition::Transition;
use turing_sim::turing_machine::tape_function::TapeFunction;
use turing_sim::turing_machine::transition::Direction;

#[test]
fn test_add() {
    let mut f = TapeFunction::new();
    let tr1 = Transition::new((0, 'a', 'b', 1, Direction::Right));
    let tr2 = Transition::new((0, 'b', 'c', 2, Direction::Left));
    let tr3 = Transition::new((4, 'a', '2', 0, Direction::Stop));
    assert_eq!(f.add(tr1), None);
    assert_eq!(f.add(tr2), None);
    assert_eq!(f.add(tr3), None);
    assert_eq!(f.add(tr1), Some(tr1));
}

#[test]
fn test_get() {
    let mut f = TapeFunction::new();
    let tr1 = Transition::new((0, 'a', 'b', 1, Direction::Right));
    let tr2 = Transition::new((0, 'b', 'c', 2, Direction::Left));
    assert_eq!(f.add(tr1), None);
    assert_eq!(f.get(tr1.get().0, tr1.get().1), Some(&tr1));
    assert_eq!(f.get(tr2.get().0, tr2.get().1), None);
}

#[test]
fn transition_test_display() {
    let x = Transition::new((1, 'a', 'b', 2, Direction::Left));
    let str = x.to_string();
    assert_eq!(str, "[1, a, b, 2, L]");
    let vinf = vec![('a', 'a', Direction::Left), ('\0', '\0', Direction::Right)];
    let tr = record::Transition::new(0, 1, &vinf);
    assert_eq!(tr.to_string(), "[0 (a a L) (β β R) 1]");
}

#[test]
fn test_new() {
    let vinf = vec![('a', 'a', Direction::Left), ('\0', '\0', Direction::Right)];
    record::Transition::new(0, 1, &vinf);
}

#[test]
fn test_getters() {
    let vinf = vec![('a', 'a', Direction::Left), ('\0', '\0', Direction::Right)];
    let tr = record::Transition::new(0, 1, &vinf);
    assert_eq!(tr.state(), (0, 1));
    assert_eq!(tr.info(), vinf.as_slice());
}

#[test]
fn test_display() {
    let vinf = vec![('a', 'a', Direction::Left), ('\0', '\0', Direction::Right)];
    let tr = record::Transition::new(0, 1, &vinf);
    assert_eq!(tr.to_string(), "[0 (a a L) (β β R) 1]");
    let x = Transition::new((1, 'a', 'b', 2, Direction::Left));
    assert_eq!(x.to_string(), "[1, a, b, 2, L]");
    let mut tape = Tape::from_string("p");
    tape.move_left();
    tape.move_right();
    tape.move_right();
    tape.move_right();
    tape.move_left();
    assert_eq!(tape.to_string(), "|β|p|[β]|β|");
}

#[test]
fn add_puts_the_new_transition_in_the_place_of_the_old() {
    let mut f = TapeFunction::new();
    let first = Transition::new((0, 'a', 'b', 1, Direction::Right));
    let second = Transition::new((0, 'a', 'c', 2, Direction::Left));
    let other = Transition::new((1, 'a', 'd', 3, Direction::Stop));
    assert_eq!(f.add(first), None);
    assert_eq!(f.add(other), None);
    assert_eq!(f.add(second), Some(first));
    assert_eq!(f.get(0, 'a'), Some(&second));
    assert_eq!(f.get(1, 'a'), Some(&other));
    assert_eq!(f.add(first), Some(second));
    assert_eq!(f.get(0, 'a'), Some(&first));
    assert_eq!(f.get(0, 'b'), None);
    assert_eq!(f.get(2, 'a'), None);
    assert_eq!(f.get(usize::MAX, 'a'), None);
}

#[test]
fn transition_parts_come_back() {
    let parts = (7, 'x', 'y', 9, Direction::Stop);
    let t = Transition::new(parts);
    assert_eq!(t.get(), parts);
    let copy = t;
    assert_eq!(copy, t);
    assert_ne!(t, Transition::new((7, 'x', 'y', 9, Direction::Left)));
}

#[test]
fn display_writes_states_in_decimal() {
    let t = Transition::new((120, '\0', 'β', 4503, Direction::Stop));
    assert_eq!(t.to_string(), "[120, \0, β, 4503, S]");
    let t = Transition::new((0, 'a', 'a', 10, Direction::Right));
    assert_eq!(t.to_string(), "[0, a, a, 10, R]");
    let big = Transition::new((usize::MAX, 'a', 'a', 0, Direction::Right));
    assert_eq!(big.to_string(), format!("[{}, a, a, 0, R]", usize::MAX));
    let r = record::Transition::new(907, 65, &[]);
    assert_eq!(r.to_string(), "[907 65]");
    let r = record::Transition::new(12, 3, &[('x', '\0', Direction::Stop)]);
    assert_eq!(r.to_string(), "[12 (x β S) 3]");
}

#[test]
fn record_clone_keeps_the_parts() {
    let vinf = vec![('a', 'b', Direction::Left), ('c', 'd', Direction::Stop)];
    let tr = record::Transition::new(4, 5, &vinf);
    let c = tr.clone();
    assert_eq!(c.state(), (4, 5));
    assert_eq!(c.info(), vinf.as_slice());
}

#[test]
fn direction_text() {
    assert_eq!(Direction::Left.to_string(), "L");
    assert_eq!(Direction::Right.to_string(), "R");
    assert_eq!(Direction::Stop.to_string(), "S");
    assert_eq!(Direction::Left.to_char(), 'L');
    assert_eq!(Direction::Right.to_char(), 'R');
    assert_eq!(Direction::Stop.to_char(), 'S');
}

#[test]
fn text_helpers() {
    assert_eq!(chars_of("aβc"), vec!['a', 'β', 'c']);
    assert_eq!(chars_of(""), Vec::<char>::new());
    assert_eq!(string_of(&vec!['x', 'β', 'y']), "xβy");
    assert_eq!(string_of(&Vec::new()), "");
    let mut out = vec!['n', '='];
    push_decimal(&mut out, 0);
    push_decimal(&mut out, 7);
    push_decimal(&mut out, 10);
    push_decimal(&mut out, 9876543210);
    assert_eq!(string_of(&out), "n=07109876543210");
}

#[test]
fn tape_function_default_and_clone() {
    let mut f = TapeFunction::default();
    let tr = Transition::new((0, 'a', 'b', 1, Direction::Right));
    assert_eq!(f.get(0, 'a'), None);
    assert_eq!(f.add(tr), None);
    let mut g = f.clone();
    assert_eq!(g.get(0, 'a'), Some(&tr));
    let other = Transition::new((0, 'a', 'c', 1, Direction::Right));
    assert_eq!(g.add(other), Some(tr));
    assert_eq!(f.get(0, 'a'), Some(&tr));
}
