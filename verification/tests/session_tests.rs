use mrandomer::session::{choose_port, port_argument_is_usable, typed_port, PortChoice, PortError, Repetition};

#[test]
fn repetition_counts_down() {
    let mut s = Repetition::new();
    assert_eq!(s, Repetition { iter: 1, rep_assigned: false });
    s.start_round(4);
    assert_eq!(s, Repetition { iter: 4, rep_assigned: true });
    s.end_round(false);
    assert_eq!(s.iter, 3);
    s.start_round(100);
    assert_eq!(s.iter, 3);
    s.end_round(true);
    assert_eq!(s.iter, 3);
    s.end_round(false);
    s.end_round(false);
    s.end_round(false);
    assert!(!s.keeps_playing());
}

#[test]
fn single_repeat_plays_once() {
    let mut s = Repetition::new();
    assert!(s.keeps_playing());
    s.start_round(1);
    s.end_round(false);
    assert!(!s.keeps_playing());
}

#[test]
fn port_choice() {
    assert_eq!(choose_port(0, "ask"), PortChoice::NoPort);
    assert_eq!(choose_port(0, "5"), PortChoice::NoPort);
    assert_eq!(choose_port(1, "ask"), PortChoice::Port(0));
    assert_eq!(choose_port(1, "7"), PortChoice::Port(0));
    assert_eq!(choose_port(3, "ask"), PortChoice::Ask);
    assert_eq!(choose_port(3, " 2 "), PortChoice::Port(2));
}

#[test]
fn port_argument_usability() {
    assert!(port_argument_is_usable(0, "x"));
    assert!(port_argument_is_usable(1, "x"));
    assert!(port_argument_is_usable(2, "ask"));
    assert!(port_argument_is_usable(2, "1"));
    assert!(!port_argument_is_usable(2, "2"));
    assert!(!port_argument_is_usable(2, "x"));
    assert!(!port_argument_is_usable(2, "Ask"));
}

#[test]
fn typed_ports() {
    assert_eq!(typed_port(3, "1\n"), Ok(1));
    assert_eq!(typed_port(3, "3\n"), Err(PortError::InvalidPort));
    assert_eq!(typed_port(3, "one\n"), Err(PortError::NotANumber));
    assert_eq!(typed_port(3, "\n"), Err(PortError::NotANumber));
}
