use vstd::prelude::*;

use crate::config::{
    cc_list_active, cc_list_is_active, note_list_active, note_list_is_active, settings_spec,
    sysex_list_active, sysex_list_is_active, Config, Settings,
};
use crate::session::{
    can_end_round, can_start_round, end_round_spec, start_round_spec, Repetition,
};
use crate::messages::{
    cc_can_draw, cc_drawable, cc_possible, draw_cc, draw_note, draw_sysex, note_can_draw,
    note_drawable, note_possible, sysex_can_draw, sysex_drawable, sysex_possible, CcOutcome,
    ChannelMessage,
};

verus! {

/// What a round draws from a patch: the outcome of each control-change
/// entry, the message of each note entry and the system-exclusive message of
/// each system-exclusive entry, in the patch's order. A list that is absent
/// or turned off gives none.
pub struct Round {
    pub cc: Vec<CcOutcome>,
    pub notes: Vec<ChannelMessage>,
    pub sysex: Vec<Option<Vec<u8>>>,
}

/// A step of playing a round: send a channel message (a failed send is
/// ignored), send a system-exclusive message (a failed send ends the run),
/// or wait a number of milliseconds.
pub enum Action {
    Send(Vec<u8>),
    SendSysex(Vec<u8>),
    Sleep(u64),
}

/// An action, with its bytes as a sequence.
pub enum ActionModel {
    Send(Seq<u8>),
    SendSysex(Seq<u8>),
    Sleep(u64),
}

impl View for Action {
    type V = ActionModel;

    open spec fn view(&self) -> ActionModel {
        match self {
            Action::Send(b) => ActionModel::Send(b@),
            Action::SendSysex(b) => ActionModel::SendSysex(b@),
            Action::Sleep(ms) => ActionModel::Sleep(*ms),
        }
    }
}

/// The note-off status byte that follows every channel message.
pub open spec fn note_off_status() -> u8 {
    0x80
}

/// Playing a channel message: send it, wait its duration, send a note-off
/// with its number and value, wait its pause, then wait `delay`.
pub open spec fn channel_actions(m: ChannelMessage, delay: u64) -> Seq<ActionModel> {
    seq![
        ActionModel::Send(seq![m.status, m.number, m.value]),
        ActionModel::Sleep(m.duration),
        ActionModel::Send(seq![note_off_status(), m.number, m.value]),
        ActionModel::Sleep(m.pause),
        ActionModel::Sleep(delay),
    ]
}

/// Playing the control-change outcomes: the messages in order, skipping the
/// entries that give none.
pub open spec fn cc_actions(outs: Seq<CcOutcome>, delay: u64) -> Seq<ActionModel>
    decreases outs.len(),
{
    if outs.len() == 0 {
        Seq::empty()
    } else {
        cc_actions(outs.drop_last(), delay) + match outs.last() {
            CcOutcome::Send(m) => channel_actions(m, delay),
            _ => Seq::empty(),
        }
    }
}

/// Playing the note messages in order.
pub open spec fn note_actions(msgs: Seq<ChannelMessage>, delay: u64) -> Seq<ActionModel>
    decreases msgs.len(),
{
    if msgs.len() == 0 {
        Seq::empty()
    } else {
        note_actions(msgs.drop_last(), delay) + channel_actions(msgs.last(), delay)
    }
}

/// Playing the system-exclusive messages in order: each is sent, then
/// `delay` is waited; entries without a message are skipped.
pub open spec fn sysex_actions(msgs: Seq<Option<Vec<u8>>>, delay: u64) -> Seq<ActionModel>
    decreases msgs.len(),
{
    if msgs.len() == 0 {
        Seq::empty()
    } else {
        sysex_actions(msgs.drop_last(), delay) + match msgs.last() {
            Some(b) => seq![ActionModel::SendSysex(b@), ActionModel::Sleep(delay)],
            None => Seq::empty(),
        }
    }
}

/// Playing a round: control changes, then notes, then system-exclusive
/// messages.
pub open spec fn round_actions_spec(round: Round, delay: u64) -> Seq<ActionModel> {
    cc_actions(round.cc@, delay) + note_actions(round.notes@, delay) + sysex_actions(
        round.sysex@,
        delay,
    )
}

/// A round can be drawn from the patch: each list that is present has an
/// entry, and each list that is played has ranges to draw from, and a channel
/// that its status bytes fit (1 to 80 for control changes, 1 to 112 for
/// notes).
pub open spec fn round_can_draw(config: Config) -> bool {
    let channel: u8 = settings_spec(&config).channel;
    &&& match config.cc {
        None => true,
        Some(v) => v@.len() > 0 && (cc_list_active(v@) ==> 1 <= channel <= 80 && forall|i: int|
            0 <= i < v@.len() ==> cc_can_draw(#[trigger] v@[i])),
    }
    &&& match config.note {
        None => true,
        Some(v) => v@.len() > 0 && (note_list_active(v@) ==> 1 <= channel <= 112 && forall|i: int|
            0 <= i < v@.len() ==> note_can_draw(#[trigger] v@[i])),
    }
    &&& match config.sysex {
        None => true,
        Some(v) => v@.len() > 0 && (sysex_list_active(v@) ==> forall|i: int|
            0 <= i < v@.len() ==> sysex_can_draw(#[trigger] v@[i])),
    }
}

/// The bytes of an optional message.
pub open spec fn bytes_of(o: Option<Vec<u8>>) -> Option<Seq<u8>> {
    match o {
        Some(v) => Some(v@),
        None => None,
    }
}

/// `round` is a round of the patch for some draws in the patch's ranges.
pub open spec fn round_possible(config: Config, round: Round) -> bool {
    let s: Settings = settings_spec(&config);
    &&& match config.cc {
        Some(v) if cc_list_active(v@) => round.cc@.len() == v@.len() && forall|i: int|
            0 <= i < v@.len() ==> cc_possible(v@[i], s.channel, #[trigger] round.cc@[i]),
        _ => round.cc@.len() == 0,
    }
    &&& match config.note {
        Some(v) if note_list_active(v@) => round.notes@.len() == v@.len() && forall|i: int|
            0 <= i < v@.len() ==> note_possible(v@[i], s.channel, #[trigger] round.notes@[i]),
        _ => round.notes@.len() == 0,
    }
    &&& match config.sysex {
        Some(v) if sysex_list_active(v@) => round.sysex@.len() == v@.len() && forall|i: int|
            0 <= i < v@.len() ==> sysex_possible(
                v@[i],
                s.manufacturer_id,
                s.device_id,
                bytes_of(#[trigger] round.sysex@[i]),
            ),
        _ => round.sysex@.len() == 0,
    }
}

/// Whether a round can be drawn from the patch.
pub fn round_drawable(config: &Config) -> (r: bool)
    ensures
        r == round_can_draw(*config),
{
    let channel: u8 = Settings::from_config(config).channel;
    let cc_ok: bool = match &config.cc {
        None => true,
        Some(v) => {
            if v.len() == 0 {
                false
            } else if !cc_list_is_active(v) {
                true
            } else if channel < 1 || channel > 80 {
                false
            } else {
                let mut ok: bool = true;
                let mut i: usize = 0;
                while i < v.len()
                    invariant
                        i <= v@.len(),
                        ok == forall|j: int| 0 <= j < i ==> cc_can_draw(#[trigger] v@[j]),
                    decreases v.len() - i,
                {
                    let this: bool = cc_drawable(&v[i]);
                    proof {
                        if !this {
                            assert(!cc_can_draw(v@[i as int]));
                        }
                    }
                    ok = ok && this;
                    i = i + 1;
                }
                ok
            }
        },
    };
    let note_ok: bool = match &config.note {
        None => true,
        Some(v) => {
            if v.len() == 0 {
                false
            } else if !note_list_is_active(v) {
                true
            } else if channel < 1 || channel > 112 {
                false
            } else {
                let mut ok: bool = true;
                let mut i: usize = 0;
                while i < v.len()
                    invariant
                        i <= v@.len(),
                        ok == forall|j: int| 0 <= j < i ==> note_can_draw(#[trigger] v@[j]),
                    decreases v.len() - i,
                {
                    let this: bool = note_drawable(&v[i]);
                    proof {
                        if !this {
                            assert(!note_can_draw(v@[i as int]));
                        }
                    }
                    ok = ok && this;
                    i = i + 1;
                }
                ok
            }
        },
    };
    let sysex_ok: bool = match &config.sysex {
        None => true,
        Some(v) => {
            if v.len() == 0 {
                false
            } else if !sysex_list_is_active(v) {
                true
            } else {
                let mut ok: bool = true;
                let mut i: usize = 0;
                while i < v.len()
                    invariant
                        i <= v@.len(),
                        ok == forall|j: int| 0 <= j < i ==> sysex_can_draw(#[trigger] v@[j]),
                    decreases v.len() - i,
                {
                    let this: bool = sysex_drawable(&v[i]);
                    proof {
                        if !this {
                            assert(!sysex_can_draw(v@[i as int]));
                        }
                    }
                    ok = ok && this;
                    i = i + 1;
                }
                ok
            }
        },
    };
    cc_ok && note_ok && sysex_ok
}

/// Draws a round from the patch.
pub fn draw_round(config: &Config) -> (r: Round)
    requires
        round_can_draw(*config),
    ensures
        round_possible(*config, r),
{
    let s: Settings = Settings::from_config(config);
    let mut cc: Vec<CcOutcome> = Vec::new();
    match &config.cc {
        Some(v) => {
            if cc_list_is_active(v) {
                let mut i: usize = 0;
                while i < v.len()
                    invariant
                        config.cc == Some(*v),
                        round_can_draw(*config),
                        cc_list_active(v@),
                        s == settings_spec(config),
                        i <= v@.len(),
                        cc@.len() == i,
                        forall|j: int|
                            0 <= j < i ==> cc_possible(v@[j], s.channel, #[trigger] cc@[j]),
                    decreases v.len() - i,
                {
                    assert(cc_can_draw(v@[i as int]));
                    let o: CcOutcome = draw_cc(&v[i], s.channel);
                    cc.push(o);
                    i = i + 1;
                }
            }
        },
        None => {},
    }
    let mut notes: Vec<ChannelMessage> = Vec::new();
    match &config.note {
        Some(v) => {
            if note_list_is_active(v) {
                let mut i: usize = 0;
                while i < v.len()
                    invariant
                        config.note == Some(*v),
                        round_can_draw(*config),
                        note_list_active(v@),
                        s == settings_spec(config),
                        i <= v@.len(),
                        notes@.len() == i,
                        forall|j: int|
                            0 <= j < i ==> note_possible(v@[j], s.channel, #[trigger] notes@[j]),
                    decreases v.len() - i,
                {
                    assert(note_can_draw(v@[i as int]));
                    let m: ChannelMessage = draw_note(&v[i], s.channel);
                    notes.push(m);
                    i = i + 1;
                }
            }
        },
        None => {},
    }
    let mut sysex: Vec<Option<Vec<u8>>> = Vec::new();
    match &config.sysex {
        Some(v) => {
            if sysex_list_is_active(v) {
                let mut i: usize = 0;
                while i < v.len()
                    invariant
                        config.sysex == Some(*v),
                        round_can_draw(*config),
                        sysex_list_active(v@),
                        s == settings_spec(config),
                        i <= v@.len(),
                        sysex@.len() == i,
                        forall|j: int|
                            0 <= j < i ==> sysex_possible(
                                v@[j],
                                s.manufacturer_id,
                                s.device_id,
                                bytes_of(#[trigger] sysex@[j]),
                            ),
                    decreases v.len() - i,
                {
                    assert(sysex_can_draw(v@[i as int]));
                    let m: Option<Vec<u8>> = draw_sysex(&v[i], s.manufacturer_id, s.device_id);
                    sysex.push(m);
                    i = i + 1;
                }
            }
        },
        None => {},
    }
    Round { cc, notes, sysex }
}

/// A copy of `v`.
pub fn copy_bytes(v: &Vec<u8>) -> (r: Vec<u8>)
    ensures
        r@ == v@,
{
    let mut r: Vec<u8> = Vec::new();
    let mut i: usize = 0;
    while i < v.len()
        invariant
            i <= v@.len(),
            r@ == v@.subrange(0, i as int),
        decreases v.len() - i,
    {
        r.push(v[i]);
        i = i + 1;
        assert(r@ =~= v@.subrange(0, i as int));
    }
    assert(r@ =~= v@);
    r
}

fn push_channel_actions(out: &mut Vec<Action>, m: ChannelMessage, delay: u64)
    ensures
        final(out)@.map_values(|a: Action| a@) == old(out)@.map_values(|a: Action| a@)
            + channel_actions(m, delay),
{
    out.push(Action::Send(vec![m.status, m.number, m.value]));
    out.push(Action::Sleep(m.duration));
    out.push(Action::Send(vec![0x80u8, m.number, m.value]));
    out.push(Action::Sleep(m.pause));
    out.push(Action::Sleep(delay));
    assert(final(out)@.map_values(|a: Action| a@) =~= old(out)@.map_values(|a: Action| a@)
        + channel_actions(m, delay));
}

/// The actions that play `round`, waiting `delay` milliseconds after each
/// message.
pub fn round_actions(round: &Round, delay: u64) -> (r: Vec<Action>)
    ensures
        r@.map_values(|a: Action| a@) == round_actions_spec(*round, delay),
{
    let mut out: Vec<Action> = Vec::new();
    let mut i: usize = 0;
    assert(round.cc@.subrange(0, 0) =~= Seq::<CcOutcome>::empty());
    assert(out@.map_values(|a: Action| a@) =~= cc_actions(round.cc@.subrange(0, 0), delay));
    while i < round.cc.len()
        invariant
            i <= round.cc@.len(),
            out@.map_values(|a: Action| a@) == cc_actions(round.cc@.subrange(0, i as int), delay),
        decreases round.cc.len() - i,
    {
        assert(round.cc@.subrange(0, i as int + 1).drop_last() =~= round.cc@.subrange(0, i as int));
        match round.cc[i] {
            CcOutcome::Send(m) => {
                push_channel_actions(&mut out, m, delay);
            },
            _ => {
                assert(out@.map_values(|a: Action| a@) =~= cc_actions(
                    round.cc@.subrange(0, i as int),
                    delay,
                ) + Seq::<ActionModel>::empty());
            },
        }
        i = i + 1;
    }
    assert(round.cc@.subrange(0, round.cc@.len() as int) =~= round.cc@);
    let ghost cc_part: Seq<ActionModel> = cc_actions(round.cc@, delay);
    let mut i: usize = 0;
    assert(round.notes@.subrange(0, 0) =~= Seq::<ChannelMessage>::empty());
    assert(out@.map_values(|a: Action| a@) =~= cc_part + note_actions(
        round.notes@.subrange(0, 0),
        delay,
    ));
    while i < round.notes.len()
        invariant
            i <= round.notes@.len(),
            out@.map_values(|a: Action| a@) == cc_part + note_actions(
                round.notes@.subrange(0, i as int),
                delay,
            ),
        decreases round.notes.len() - i,
    {
        assert(round.notes@.subrange(0, i as int + 1).drop_last() =~= round.notes@.subrange(
            0,
            i as int,
        ));
        push_channel_actions(&mut out, round.notes[i], delay);
        assert(out@.map_values(|a: Action| a@) =~= cc_part + note_actions(
            round.notes@.subrange(0, i as int + 1),
            delay,
        ));
        i = i + 1;
    }
    assert(round.notes@.subrange(0, round.notes@.len() as int) =~= round.notes@);
    let ghost cc_note_part: Seq<ActionModel> = cc_part + note_actions(round.notes@, delay);
    let mut i: usize = 0;
    assert(round.sysex@.subrange(0, 0) =~= Seq::<Option<Vec<u8>>>::empty());
    assert(out@.map_values(|a: Action| a@) =~= cc_note_part + sysex_actions(
        round.sysex@.subrange(0, 0),
        delay,
    ));
    while i < round.sysex.len()
        invariant
            i <= round.sysex@.len(),
            out@.map_values(|a: Action| a@) == cc_note_part + sysex_actions(
                round.sysex@.subrange(0, i as int),
                delay,
            ),
        decreases round.sysex.len() - i,
    {
        assert(round.sysex@.subrange(0, i as int + 1).drop_last() =~= round.sysex@.subrange(
            0,
            i as int,
        ));
        let ghost before: Seq<Action> = out@;
        match &round.sysex[i] {
            Some(b) => {
                let c: Vec<u8> = copy_bytes(b);
                out.push(Action::SendSysex(c));
                out.push(Action::Sleep(delay));
                assert(out@.map_values(|a: Action| a@) =~= before.map_values(|a: Action| a@)
                    + seq![ActionModel::SendSysex(b@), ActionModel::Sleep(delay)]);
            },
            None => {
                assert(out@.map_values(|a: Action| a@) =~= before.map_values(|a: Action| a@)
                    + Seq::<ActionModel>::empty());
            },
        }
        assert(round.sysex@.subrange(0, i as int + 1).last() == round.sysex@[i as int]);
        assert(out@.map_values(|a: Action| a@) =~= cc_note_part + sysex_actions(
            round.sysex@.subrange(0, i as int + 1),
            delay,
        ));
        i = i + 1;
    }
    assert(round.sysex@.subrange(0, round.sysex@.len() as int) =~= round.sysex@);
    out
}

/// Plays one round of the patch that was just read: takes the count of
/// rounds from it where this is the first round, draws the round, and counts
/// the round as done. Gives the round drawn and the actions that play it.
pub fn play_round(state: &mut Repetition, config: &Config) -> (r: (Round, Vec<Action>))
    requires
        can_start_round(*old(state), settings_spec(config).repeat),
        can_end_round(
            start_round_spec(*old(state), settings_spec(config).repeat),
            settings_spec(config).infiniteloop,
        ),
        round_can_draw(*config),
    ensures
        *final(state) == end_round_spec(
            start_round_spec(*old(state), settings_spec(config).repeat),
            settings_spec(config).infiniteloop,
        ),
        round_possible(*config, r.0),
        r.1@.map_values(|a: Action| a@) == round_actions_spec(r.0, settings_spec(config).msgdelay),
{
    let s: Settings = Settings::from_config(config);
    state.start_round(s.repeat);
    let round: Round = draw_round(config);
    let actions: Vec<Action> = round_actions(&round, s.msgdelay);
    state.end_round(s.infiniteloop);
    (round, actions)
}

/// Whether the round of the patch just read can be played from `state`.
pub fn round_playable(state: &Repetition, config: &Config) -> (r: bool)
    ensures
        r == (can_start_round(*state, settings_spec(config).repeat) && can_end_round(
            start_round_spec(*state, settings_spec(config).repeat),
            settings_spec(config).infiniteloop,
        ) && round_can_draw(*config)),
{
    let s: Settings = Settings::from_config(config);
    let startable: bool = state.rep_assigned || (1 <= s.repeat && s.repeat - 1 <= u64::MAX
        - state.iter);
    if !startable {
        return false;
    }
    let mut next: Repetition = *state;
    next.start_round(s.repeat);
    (s.infiniteloop || next.iter >= 1) && round_drawable(config)
}

/// Playing a list of channel messages is five steps per message, in the
/// list's order: block `i` sends message `i` (its status, number and value),
/// waits its duration, sends the note-off `0x80` with its number and value,
/// waits its pause, then waits `delay`.
pub proof fn lemma_note_actions_blocks(msgs: Seq<ChannelMessage>, delay: u64)
    ensures
        note_actions(msgs, delay).len() == 5 * msgs.len(),
        forall|i: int|
            #![trigger msgs[i]]
            0 <= i < msgs.len() ==> {
                let a = note_actions(msgs, delay);
                &&& a[5 * i] == ActionModel::Send(seq![msgs[i].status, msgs[i].number, msgs[i].value])
                &&& a[5 * i + 1] == ActionModel::Sleep(msgs[i].duration)
                &&& a[5 * i + 2] == ActionModel::Send(seq![0x80u8, msgs[i].number, msgs[i].value])
                &&& a[5 * i + 3] == ActionModel::Sleep(msgs[i].pause)
                &&& a[5 * i + 4] == ActionModel::Sleep(delay)
            },
    decreases msgs.len(),
{
    if msgs.len() > 0 {
        let prefix = msgs.drop_last();
        let n: int = msgs.len() - 1;
        lemma_note_actions_blocks(prefix, delay);
        let a = note_actions(msgs, delay);
        let p = note_actions(prefix, delay);
        assert(a == p + channel_actions(msgs.last(), delay));
        assert forall|i: int| #![trigger msgs[i]] 0 <= i < msgs.len() implies {
            &&& a[5 * i] == ActionModel::Send(seq![msgs[i].status, msgs[i].number, msgs[i].value])
            &&& a[5 * i + 1] == ActionModel::Sleep(msgs[i].duration)
            &&& a[5 * i + 2] == ActionModel::Send(seq![0x80u8, msgs[i].number, msgs[i].value])
            &&& a[5 * i + 3] == ActionModel::Sleep(msgs[i].pause)
            &&& a[5 * i + 4] == ActionModel::Sleep(delay)
        } by {
            if i < n {
                assert(prefix[i] == msgs[i]);
                assert(a[5 * i] == p[5 * i]);
                assert(a[5 * i + 1] == p[5 * i + 1]);
                assert(a[5 * i + 2] == p[5 * i + 2]);
                assert(a[5 * i + 3] == p[5 * i + 3]);
                assert(a[5 * i + 4] == p[5 * i + 4]);
            } else {
                assert(a[5 * i] == channel_actions(msgs.last(), delay)[0]);
                assert(a[5 * i + 1] == channel_actions(msgs.last(), delay)[1]);
                assert(a[5 * i + 2] == channel_actions(msgs.last(), delay)[2]);
                assert(a[5 * i + 3] == channel_actions(msgs.last(), delay)[3]);
                assert(a[5 * i + 4] == channel_actions(msgs.last(), delay)[4]);
            }
        }
    }
}

/// The messages that a list of control-change outcomes sends, in order.
pub open spec fn sent_messages(outs: Seq<CcOutcome>) -> Seq<ChannelMessage>
    decreases outs.len(),
{
    if outs.len() == 0 {
        Seq::empty()
    } else {
        sent_messages(outs.drop_last()) + match outs.last() {
            CcOutcome::Send(m) => seq![m],
            _ => Seq::empty(),
        }
    }
}

/// Playing control-change outcomes plays the messages that they send, in
/// order, as a list of notes is played; skipped entries play nothing.
pub proof fn lemma_cc_actions_play_sent(outs: Seq<CcOutcome>, delay: u64)
    ensures
        cc_actions(outs, delay) == note_actions(sent_messages(outs), delay),
        (forall|i: int| 0 <= i < outs.len() ==> (#[trigger] outs[i] is Send)) ==> sent_messages(
            outs,
        ) == outs.map_values(|o: CcOutcome| o->Send_0),
        (forall|i: int| 0 <= i < outs.len() ==> !(#[trigger] outs[i] is Send)) ==> cc_actions(
            outs,
            delay,
        ).len() == 0,
    decreases outs.len(),
{
    if outs.len() > 0 {
        let prefix = outs.drop_last();
        lemma_cc_actions_play_sent(prefix, delay);
        let sp = sent_messages(prefix);
        match outs.last() {
            CcOutcome::Send(m) => {
                assert(sent_messages(outs) == sp.push(m));
                assert(sp.push(m).drop_last() =~= sp);
            },
            _ => {
                assert(sent_messages(outs) =~= sp);
            },
        }
        if forall|i: int| 0 <= i < outs.len() ==> (#[trigger] outs[i] is Send) {
            assert forall|i: int| 0 <= i < prefix.len() implies (#[trigger] prefix[i] is Send) by {
                assert(prefix[i] == outs[i]);
            }
            assert(sent_messages(outs) =~= outs.map_values(|o: CcOutcome| o->Send_0));
        }
        if forall|i: int| 0 <= i < outs.len() ==> !(#[trigger] outs[i] is Send) {
            assert forall|i: int| 0 <= i < prefix.len() implies !(#[trigger] prefix[i] is Send) by {
                assert(prefix[i] == outs[i]);
            }
            assert(!(outs[outs.len() - 1] is Send));
        }
    }
}

/// Playing system-exclusive messages that are all present is two steps per
/// message, in order: block `i` sends message `i`, then waits `delay`.
pub proof fn lemma_sysex_actions_blocks(msgs: Seq<Option<Vec<u8>>>, delay: u64)
    requires
        forall|i: int| 0 <= i < msgs.len() ==> (#[trigger] msgs[i]) is Some,
    ensures
        sysex_actions(msgs, delay).len() == 2 * msgs.len(),
        forall|i: int|
            #![trigger msgs[i]]
            0 <= i < msgs.len() ==> sysex_actions(msgs, delay)[2 * i] == ActionModel::SendSysex(
                msgs[i]->0@,
            ) && sysex_actions(msgs, delay)[2 * i + 1] == ActionModel::Sleep(delay),
    decreases msgs.len(),
{
    if msgs.len() > 0 {
        let prefix = msgs.drop_last();
        let n: int = msgs.len() - 1;
        assert forall|i: int| 0 <= i < prefix.len() implies (#[trigger] prefix[i]) is Some by {
            assert(prefix[i] == msgs[i]);
        }
        lemma_sysex_actions_blocks(prefix, delay);
        assert(msgs[n] is Some);
        let a = sysex_actions(msgs, delay);
        let p = sysex_actions(prefix, delay);
        assert(a == p + seq![ActionModel::SendSysex(msgs[n]->0@), ActionModel::Sleep(delay)]);
        assert forall|i: int| #![trigger msgs[i]] 0 <= i < msgs.len() implies a[2 * i]
            == ActionModel::SendSysex(msgs[i]->0@) && a[2 * i + 1] == ActionModel::Sleep(delay) by {
            if i < n {
                assert(prefix[i] == msgs[i]);
                assert(a[2 * i] == p[2 * i]);
                assert(a[2 * i + 1] == p[2 * i + 1]);
            }
        }
    }
}

/// In the actions of a round, the notes come right after the control
/// changes, five steps per note in the round's order (block `i` sends note
/// `i`), and the system-exclusive messages follow.
pub proof fn lemma_round_note_blocks(round: Round, delay: u64, i: int)
    requires
        0 <= i < round.notes@.len(),
    ensures
        ({
            let a = round_actions_spec(round, delay);
            let c: int = cc_actions(round.cc@, delay).len() as int;
            let m = round.notes@[i];
            &&& a.len() == c + 5 * round.notes@.len() + sysex_actions(round.sysex@, delay).len()
            &&& a[c + 5 * i] == ActionModel::Send(seq![m.status, m.number, m.value])
            &&& a[c + 5 * i + 1] == ActionModel::Sleep(m.duration)
            &&& a[c + 5 * i + 2] == ActionModel::Send(seq![0x80u8, m.number, m.value])
            &&& a[c + 5 * i + 3] == ActionModel::Sleep(m.pause)
            &&& a[c + 5 * i + 4] == ActionModel::Sleep(delay)
        }),
{
    lemma_note_actions_blocks(round.notes@, delay);
    let ca = cc_actions(round.cc@, delay);
    let na = note_actions(round.notes@, delay);
    let sa = sysex_actions(round.sysex@, delay);
    let a = round_actions_spec(round, delay);
    let c: int = ca.len() as int;
    let m = round.notes@[i];
    assert(a == ca + na + sa);
    assert(a[c + 5 * i] == na[5 * i]);
    assert(a[c + 5 * i + 1] == na[5 * i + 1]);
    assert(a[c + 5 * i + 2] == na[5 * i + 2]);
    assert(a[c + 5 * i + 3] == na[5 * i + 3]);
    assert(a[c + 5 * i + 4] == na[5 * i + 4]);
}

} // verus!
