use gman::selector::{command_of, Command, KeyInput, Outcome, Selector};

#[test]
fn up_from_first_wraps_to_last() {
    let mut s = Selector::new(3);
    s.move_up();
    assert_eq!(s.cursor(), 2);
}

#[test]
fn down_from_last_wraps_to_first() {
    let mut s = Selector::new(3);
    s.move_down();
    s.move_down();
    assert_eq!(s.cursor(), 2);
    s.move_down();
    assert_eq!(s.cursor(), 0);
}

#[test]
fn single_entry_stays_put() {
    let mut s = Selector::new(1);
    s.move_down();
    assert_eq!(s.cursor(), 0);
    s.move_up();
    assert_eq!(s.cursor(), 0);
    assert_eq!(s.len(), 1);
}

#[test]
fn keys_map_to_commands() {
    assert_eq!(command_of(KeyInput::Char('q'), true), Command::Quit);
    assert_eq!(command_of(KeyInput::Esc, true), Command::Quit);
    assert_eq!(command_of(KeyInput::Char('j'), true), Command::MoveDown);
    assert_eq!(command_of(KeyInput::Down, true), Command::MoveDown);
    assert_eq!(command_of(KeyInput::Char('k'), true), Command::MoveUp);
    assert_eq!(command_of(KeyInput::Up, true), Command::MoveUp);
    assert_eq!(command_of(KeyInput::Enter, true), Command::Confirm);
    assert_eq!(command_of(KeyInput::Char('x'), true), Command::Ignore);
    assert_eq!(command_of(KeyInput::Other, true), Command::Ignore);
    assert_eq!(command_of(KeyInput::Enter, false), Command::Ignore);
}

#[test]
fn session_confirms_the_entry_under_the_cursor() {
    let mut s = Selector::new(4);
    assert_eq!(s.handle(Command::MoveDown), Outcome::Browsing);
    assert_eq!(s.handle(Command::MoveDown), Outcome::Browsing);
    assert_eq!(s.handle(Command::MoveUp), Outcome::Browsing);
    assert_eq!(s.handle(Command::Ignore), Outcome::Browsing);
    assert_eq!(s.handle(Command::Confirm), Outcome::Confirmed(1));
}

#[test]
fn session_quits_without_choice() {
    let mut s = Selector::new(2);
    assert_eq!(s.handle(Command::Quit), Outcome::Cancelled);
    assert_eq!(s.cursor(), 0);
}
