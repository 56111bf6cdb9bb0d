use mrandomer::config::{CCValues, NoteValues, SysexValues};
use mrandomer::messages::{
    cc_drawable, cc_outcome, draw_cc, draw_note, draw_sysex, low_byte_of, note_drawable,
    note_message, random_slot_of, sysex_drawable, sysex_message, CcOutcome, ChannelMessage,
};

fn cc() -> CCValues {
    CCValues {
        name: None,
        number: None,
        minnumber: None,
        maxnumber: None,
        value: None,
        minvalue: None,
        maxvalue: None,
        pause: None,
        maxpause: None,
        minpause: None,
    }
}

fn note() -> NoteValues {
    NoteValues {
        number: None,
        minnumber: None,
        maxnumber: None,
        velocity: None,
        minvelocity: None,
        maxvelocity: None,
        duration: None,
        minduration: None,
        maxduration: None,
        pause: None,
        minpause: None,
        maxpause: None,
    }
}

fn sysex(items: &[&str]) -> SysexValues {
    SysexValues {
        name: None,
        message: Some(items.iter().map(|s| s.to_string()).collect()),
        pause: None,
        minpause: None,
        maxpause: None,
        r1minvalue: None,
        r1maxvalue: None,
        r2minvalue: None,
        r2maxvalue: None,
        r3minvalue: None,
        r3maxvalue: None,
    }
}

#[test]
fn cc_fixed_number_and_value() {
    let mut c = cc();
    c.number = Some(74);
    c.value = Some(100);
    c.pause = Some(250);
    assert_eq!(
        cc_outcome(&c, 1, 0, 0),
        CcOutcome::Send(ChannelMessage { status: 0xB0, number: 74, value: 100, duration: 0, pause: 250 })
    );
    assert_eq!(
        cc_outcome(&c, 16, 0, 0),
        CcOutcome::Send(ChannelMessage { status: 0xBF, number: 74, value: 100, duration: 0, pause: 250 })
    );
}

#[test]
fn cc_numbers_are_cut_to_a_byte() {
    let mut c = cc();
    c.number = Some(300);
    c.value = Some(257);
    assert_eq!(
        cc_outcome(&c, 2, 0, 0),
        CcOutcome::Send(ChannelMessage { status: 0xB1, number: 44, value: 1, duration: 0, pause: 0 })
    );
    assert_eq!(low_byte_of(511), 255);
}

#[test]
fn cc_random_value_uses_the_draws() {
    let mut c = cc();
    c.number = Some(129);
    c.minnumber = Some(10);
    c.maxnumber = Some(20);
    c.minvalue = Some(5);
    c.maxvalue = Some(50);
    assert_eq!(
        cc_outcome(&c, 3, 12, 40),
        CcOutcome::Send(ChannelMessage { status: 0xB2, number: 12, value: 40, duration: 0, pause: 0 })
    );
}

#[test]
fn cc_skipped_entries() {
    let mut c = cc();
    c.number = Some(7);
    assert_eq!(cc_outcome(&c, 1, 0, 0), CcOutcome::NoValueRange);
    c.minvalue = Some(9);
    c.maxvalue = Some(3);
    assert_eq!(cc_outcome(&c, 1, 0, 0), CcOutcome::MinAboveMax(7));
    c.maxvalue = Some(9);
    assert_eq!(cc_outcome(&c, 1, 0, 0), CcOutcome::MinEqualsMax(7));
}

#[test]
fn cc_drawable_needs_a_number_range() {
    let mut c = cc();
    assert!(!cc_drawable(&c));
    c.number = Some(1);
    assert!(cc_drawable(&c));
    c.number = Some(129);
    c.minnumber = Some(4);
    c.maxnumber = Some(4);
    assert!(!cc_drawable(&c));
    c.maxnumber = Some(5);
    assert!(cc_drawable(&c));
}

#[test]
fn cc_draws_stay_in_range_and_vary() {
    let mut c = cc();
    c.number = Some(129);
    c.minnumber = Some(20);
    c.maxnumber = Some(22);
    c.minvalue = Some(60);
    c.maxvalue = Some(62);
    let mut numbers = std::collections::BTreeSet::new();
    let mut values = std::collections::BTreeSet::new();
    for _ in 0..300 {
        match draw_cc(&c, 1) {
            CcOutcome::Send(m) => {
                assert!(20 <= m.number && m.number < 22);
                assert!(60 <= m.value && m.value < 62);
                assert_eq!(m.status, 0xB0);
                numbers.insert(m.number);
                values.insert(m.value);
            }
            other => panic!("unexpected {:?}", other),
        }
    }
    assert_eq!(numbers.len(), 2);
    assert_eq!(values.len(), 2);
}

#[test]
fn note_defaults() {
    let mut n = note();
    n.number = Some(60);
    n.velocity = Some(100);
    assert_eq!(
        note_message(&n, 1, 0, 0, 0, 0),
        ChannelMessage { status: 0x90, number: 60, value: 100, duration: 0, pause: 0 }
    );
}

#[test]
fn note_draws_are_used_where_asked() {
    let mut n = note();
    n.number = Some(129);
    n.minnumber = Some(40);
    n.maxnumber = Some(50);
    n.maxpause = Some(300);
    n.maxduration = Some(200);
    assert_eq!(
        note_message(&n, 10, 111, 222, 33, 44),
        ChannelMessage { status: 0x99, number: 44, value: 33, duration: 222, pause: 111 }
    );
    n.pause = Some(5);
    n.duration = Some(6);
    n.velocity = Some(7);
    assert_eq!(
        note_message(&n, 10, 111, 222, 33, 44),
        ChannelMessage { status: 0x99, number: 44, value: 7, duration: 6, pause: 5 }
    );
}

#[test]
fn note_drawable_checks_every_range() {
    let mut n = note();
    assert!(!note_drawable(&n));
    n.number = Some(60);
    assert!(note_drawable(&n));
    n.maxvelocity = Some(0);
    assert!(!note_drawable(&n));
    n.velocity = Some(90);
    assert!(note_drawable(&n));
    n.minpause = Some(10);
    n.maxpause = Some(10);
    assert!(!note_drawable(&n));
    n.pause = Some(1);
    assert!(note_drawable(&n));
}

#[test]
fn note_draws_stay_in_range() {
    let mut n = note();
    n.number = Some(129);
    n.minnumber = Some(36);
    n.maxnumber = Some(38);
    n.minpause = Some(100);
    n.maxpause = Some(102);
    n.minduration = Some(7);
    n.maxduration = Some(9);
    let mut seen = std::collections::BTreeSet::new();
    for _ in 0..300 {
        let m = draw_note(&n, 2);
        assert_eq!(m.status, 0x91);
        assert!(36 <= m.number && m.number < 38);
        assert!(m.value < 127);
        assert!(100 <= m.pause && m.pause < 102);
        assert!(7 <= m.duration && m.duration < 9);
        seen.insert(m.number);
    }
    assert_eq!(seen.len(), 2);
}

#[test]
fn sysex_template_bytes() {
    let s = sysex(&["0x41", "10", "r1", "zz", "r3", "F7"]);
    assert_eq!(
        sysex_message(&s, 0x43, 0x10, &vec![0, 0, 300, 0, 5, 0]),
        Some(vec![0xF0, 0x43, 0x10, 0x41, 0x10, 44, 5, 0xF7, 0xF7])
    );
}

#[test]
fn sysex_without_template() {
    let mut s = sysex(&[]);
    assert_eq!(sysex_message(&s, 1, 2, &vec![]), Some(vec![0xF0, 1, 2, 0xF7]));
    s.message = None;
    assert_eq!(sysex_message(&s, 1, 2, &vec![]), None);
    assert_eq!(draw_sysex(&s, 1, 2), None);
}

#[test]
fn sysex_slots() {
    assert_eq!(random_slot_of(&"r1".to_string()), 1);
    assert_eq!(random_slot_of(&"r2".to_string()), 2);
    assert_eq!(random_slot_of(&"r3".to_string()), 3);
    assert_eq!(random_slot_of(&"R1".to_string()), 0);
    assert_eq!(random_slot_of(&"r4".to_string()), 0);
}

#[test]
fn sysex_drawable_needs_used_ranges() {
    let mut s = sysex(&["7f", "r2"]);
    assert!(!sysex_drawable(&s));
    s.r2maxvalue = Some(3);
    assert!(sysex_drawable(&s));
    s.r1maxvalue = None;
    s.message = Some(vec!["r1".to_string()]);
    assert!(!sysex_drawable(&s));
}

#[test]
fn sysex_draws_stay_in_range() {
    let mut s = sysex(&["r1", "r2", "01"]);
    s.r1minvalue = Some(16);
    s.r1maxvalue = Some(18);
    s.r2minvalue = Some(0x7e);
    s.r2maxvalue = Some(0x7f);
    let mut seen = std::collections::BTreeSet::new();
    for _ in 0..300 {
        let m = draw_sysex(&s, 0x41, 0x10).unwrap();
        assert_eq!(m.len(), 7);
        assert_eq!(&m[0..3], &[0xF0, 0x41, 0x10]);
        assert!(m[3] == 16 || m[3] == 17);
        assert_eq!(m[4], 0x7e);
        assert_eq!(&m[5..], &[0x01, 0xF7]);
        seen.insert(m[3]);
    }
    assert_eq!(seen.len(), 2);
}
