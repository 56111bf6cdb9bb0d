use mrandomer::config::{
    cc_list_is_active, note_list_is_active, sysex_list_is_active, CCValues, Config, NoteValues,
    Settings, SysexValues,
};
use mrandomer::messages::{CcOutcome, ChannelMessage};
use mrandomer::round::{draw_round, play_round, round_actions, round_drawable, round_playable, Action, Round};
use mrandomer::session::Repetition;

fn config() -> Config {
    Config {
        synth: None,
        patch: None,
        channel: None,
        infiniteloop: None,
        repeat: None,
        msgdelay: None,
        cc: None,
        note: None,
        sysex: None,
        sysex_manufacturer_id: None,
        sysex_device_id: None,
    }
}

fn cc(name: &str, number: u64, value: u64) -> CCValues {
    CCValues {
        name: Some(name.to_string()),
        number: Some(number),
        minnumber: None,
        maxnumber: None,
        value: Some(value),
        minvalue: None,
        maxvalue: None,
        pause: Some(20),
        maxpause: None,
        minpause: None,
    }
}

fn note(number: u64, velocity: u64) -> NoteValues {
    NoteValues {
        number: Some(number),
        minnumber: None,
        maxnumber: None,
        velocity: Some(velocity),
        minvelocity: None,
        maxvelocity: None,
        duration: Some(500),
        minduration: None,
        maxduration: None,
        pause: Some(30),
        minpause: None,
        maxpause: None,
    }
}

fn sysex(items: &[&str]) -> SysexValues {
    SysexValues {
        name: Some("patch".to_string()),
        message: Some(items.iter().map(|s| s.to_string()).collect()),
        pause: None,
        minpause: None,
        maxpause: None,
        r1minvalue: None,
        r1maxvalue: None,
        r2minvalue: None,
        r2maxvalue: None,
        r3minvalue: None,
        r3maxvalue: None,
    }
}

#[test]
fn placeholders_turn_lists_off() {
    let c = CCValues::empty();
    assert_eq!(c.len(), 1);
    assert_eq!(c[0].name.as_deref(), Some("empty"));
    assert_eq!(c[0].number, Some(0));
    assert!(!cc_list_is_active(&c));
    let n = NoteValues::empty();
    assert_eq!(n.len(), 1);
    assert_eq!(n[0].number, Some(129));
    assert_eq!(n[0].velocity, Some(0));
    assert!(!note_list_is_active(&n));
    let s = SysexValues::empty();
    assert_eq!(s.len(), 1);
    assert_eq!(s[0].message, Some(vec!["empty".to_string()]));
    assert_eq!(s[0].r3maxvalue, Some(0));
    assert!(!sysex_list_is_active(&s));
}

#[test]
fn lists_are_on_unless_marked() {
    assert!(cc_list_is_active(&vec![cc("cutoff", 74, 1)]));
    assert!(!cc_list_is_active(&vec![cc("empty", 74, 1), cc("cutoff", 74, 1)]));
    assert!(note_list_is_active(&vec![note(60, 100)]));
    assert!(!note_list_is_active(&vec![note(129, 100)]));
    assert!(sysex_list_is_active(&vec![sysex(&["empty", "01"])]));
    assert!(!sysex_list_is_active(&vec![sysex(&["empty"])]));
}

#[test]
fn settings_defaults() {
    assert_eq!(
        Settings::from_config(&config()),
        Settings { repeat: 0, msgdelay: 100, infiniteloop: false, channel: 1, manufacturer_id: 0, device_id: 0 }
    );
    let mut c = config();
    c.repeat = Some(3);
    c.msgdelay = Some(5);
    c.infiniteloop = Some(true);
    c.channel = Some(10);
    c.sysex_manufacturer_id = Some(0x41);
    c.sysex_device_id = Some(0x10);
    assert_eq!(
        Settings::from_config(&c),
        Settings { repeat: 3, msgdelay: 5, infiniteloop: true, channel: 10, manufacturer_id: 0x41, device_id: 0x10 }
    );
}

#[test]
fn empty_patch_gives_an_empty_round() {
    let c = config();
    assert!(round_drawable(&c));
    let r = draw_round(&c);
    assert!(r.cc.is_empty() && r.notes.is_empty() && r.sysex.is_empty());
    assert!(round_actions(&r, 100).is_empty());
}

#[test]
fn round_of_fixed_patch() {
    let mut c = config();
    c.channel = Some(2);
    c.sysex_manufacturer_id = Some(0x43);
    c.cc = Some(vec![cc("a", 7, 100), cc("b", 8, 129)]);
    c.note = Some(vec![note(60, 90)]);
    c.sysex = Some(vec![sysex(&["0x01", "02"])]);
    assert!(round_drawable(&c));
    let r = draw_round(&c);
    assert_eq!(
        r.cc,
        vec![
            CcOutcome::Send(ChannelMessage { status: 0xB1, number: 7, value: 100, duration: 0, pause: 20 }),
            CcOutcome::NoValueRange,
        ]
    );
    assert_eq!(r.notes, vec![ChannelMessage { status: 0x91, number: 60, value: 90, duration: 500, pause: 30 }]);
    assert_eq!(r.sysex, vec![Some(vec![0xF0, 0x43, 0x00, 0x01, 0x02, 0xF7])]);
}

#[test]
fn actions_of_a_round() {
    let r = Round {
        cc: vec![
            CcOutcome::MinAboveMax(3),
            CcOutcome::Send(ChannelMessage { status: 0xB0, number: 1, value: 2, duration: 0, pause: 4 }),
        ],
        notes: vec![ChannelMessage { status: 0x90, number: 60, value: 64, duration: 250, pause: 10 }],
        sysex: vec![None, Some(vec![0xF0, 0, 0, 0xF7])],
    };
    let a = round_actions(&r, 100);
    let expected = vec![
        Action::Send(vec![0xB0, 1, 2]),
        Action::Sleep(0),
        Action::Send(vec![0x80, 1, 2]),
        Action::Sleep(4),
        Action::Sleep(100),
        Action::Send(vec![0x90, 60, 64]),
        Action::Sleep(250),
        Action::Send(vec![0x80, 60, 64]),
        Action::Sleep(10),
        Action::Sleep(100),
        Action::SendSysex(vec![0xF0, 0, 0, 0xF7]),
        Action::Sleep(100),
    ];
    assert_eq!(a.len(), expected.len());
    for (x, y) in a.iter().zip(expected.iter()) {
        match (x, y) {
            (Action::Send(p), Action::Send(q)) => assert_eq!(p, q),
            (Action::SendSysex(p), Action::SendSysex(q)) => assert_eq!(p, q),
            (Action::Sleep(p), Action::Sleep(q)) => assert_eq!(p, q),
            _ => panic!("actions differ"),
        }
    }
}

#[test]
fn rounds_that_cannot_be_drawn() {
    let mut c = config();
    c.cc = Some(vec![]);
    assert!(!round_drawable(&c));
    let mut c = config();
    c.channel = Some(0);
    c.note = Some(vec![note(60, 100)]);
    assert!(!round_drawable(&c));
    c.channel = Some(112);
    assert!(round_drawable(&c));
    c.cc = Some(vec![cc("a", 1, 1)]);
    assert!(!round_drawable(&c));
    c.channel = Some(80);
    assert!(round_drawable(&c));
    c.sysex = Some(vec![sysex(&["r1"])]);
    assert!(!round_drawable(&c));
}

#[test]
fn a_patch_is_played_repeat_times() {
    let mut c = config();
    c.repeat = Some(3);
    c.note = Some(vec![note(60, 100)]);
    let mut state = Repetition::new();
    let mut rounds = 0;
    while state.keeps_playing() {
        assert!(round_playable(&state, &c));
        let (round, actions) = play_round(&mut state, &c);
        assert_eq!(round.notes.len(), 1);
        assert_eq!(actions.len(), 5);
        rounds += 1;
        assert!(rounds <= 3);
    }
    assert_eq!(rounds, 3);
}

#[test]
fn repeat_zero_cannot_start() {
    let c = config();
    let state = Repetition::new();
    assert!(!round_playable(&state, &c));
}

#[test]
fn endless_patch_keeps_playing() {
    let mut c = config();
    c.repeat = Some(2);
    c.infiniteloop = Some(true);
    let mut state = Repetition::new();
    for _ in 0..10 {
        assert!(state.keeps_playing());
        assert!(round_playable(&state, &c));
        play_round(&mut state, &c);
        assert_eq!(state, Repetition { iter: 2, rep_assigned: true });
    }
}
