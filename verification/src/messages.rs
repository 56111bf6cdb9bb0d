use vstd::prelude::*;

use crate::config::{or_u64, CCValues, NoteValues, SysexValues};
use crate::random::random_in_range;
use crate::text::{
    chars_equal, chars_of, hex_byte_spec, hex_text, lemma_hex_byte_round_trip, parse_hex_byte,
};

verus! {

/// A MIDI channel message and its timing: `status number value` is sent,
/// then after `duration` milliseconds a note-off with the same number and
/// value, then a pause of `pause` milliseconds.
#[derive(Clone, Copy, Debug, PartialEq, Eq, Structural)]
pub struct ChannelMessage {
    pub status: u8,
    pub number: u8,
    pub value: u8,
    pub duration: u64,
    pub pause: u64,
}

/// What a control-change entry gives in a round: a message, or the reason
/// it is skipped (with the controller number where it has one).
#[derive(Clone, Copy, Debug, PartialEq, Eq, Structural)]
pub enum CcOutcome {
    Send(ChannelMessage),
    /// A random value was asked for, with both bounds 0.
    NoValueRange,
    /// A random value was asked for, with the lower bound above the upper.
    MinAboveMax(u8),
    /// A random value was asked for, with equal bounds.
    MinEqualsMax(u8),
}

/// The status byte of a control change on MIDI channel `channel` (1 to 16).
pub open spec fn cc_status(channel: u8) -> u8 {
    (0xB0 + channel - 1) as u8
}

/// The status byte of a note-on on MIDI channel `channel`.
pub open spec fn note_status(channel: u8) -> u8 {
    (0x90 + channel - 1) as u8
}

/// The low eight bits of `x` (`x as u8`).
pub open spec fn low_byte(x: u64) -> u8 {
    (x % 256) as u8
}

/// The low eight bits of `x`.
pub fn low_byte_of(x: u64) -> (r: u8)
    ensures
        r == low_byte(x),
{
    (x % 256) as u8
}

// ---------------------------------------------------------------------
// Control changes
// ---------------------------------------------------------------------

pub open spec fn cc_number(cc: CCValues) -> u64 {
    or_u64(cc.number, 129)
}

pub open spec fn cc_min_number(cc: CCValues) -> u64 {
    or_u64(cc.minnumber, cc_number(cc))
}

pub open spec fn cc_max_number(cc: CCValues) -> u64 {
    or_u64(cc.maxnumber, cc_number(cc))
}

pub open spec fn cc_value(cc: CCValues) -> u64 {
    or_u64(cc.value, 129)
}

pub open spec fn cc_min_value(cc: CCValues) -> u64 {
    or_u64(cc.minvalue, 0)
}

pub open spec fn cc_max_value(cc: CCValues) -> u64 {
    or_u64(cc.maxvalue, 0)
}

/// A random value is drawn for the entry's value.
pub open spec fn cc_draws_value(cc: CCValues) -> bool {
    cc_value(cc) == 129 && cc_min_value(cc) < cc_max_value(cc)
}

/// What a control-change entry gives on `channel`, where `number_draw` and
/// `value_draw` are the random numbers drawn for the controller number
/// (number 129) and for the value (value 129). Numbers are cut to their low
/// eight bits; the message has no duration.
pub open spec fn cc_outcome_spec(
    cc: CCValues,
    channel: u8,
    number_draw: u64,
    value_draw: u64,
) -> CcOutcome {
    let number: u8 = if cc_number(cc) == 129 {
        low_byte(number_draw)
    } else {
        low_byte(cc_number(cc))
    };
    let min: u64 = cc_min_value(cc);
    let max: u64 = cc_max_value(cc);
    let message = |value: u8|
        ChannelMessage {
            status: cc_status(channel),
            number,
            value,
            duration: 0,
            pause: or_u64(cc.pause, 0),
        };
    if cc_value(cc) == 129 {
        if min == 0 && max == 0 {
            CcOutcome::NoValueRange
        } else if min > max {
            CcOutcome::MinAboveMax(number)
        } else if min == max {
            CcOutcome::MinEqualsMax(number)
        } else {
            CcOutcome::Send(message(low_byte(value_draw)))
        }
    } else {
        CcOutcome::Send(message(low_byte(cc_value(cc))))
    }
}

/// The draws lie in the ranges that the entry gives for them.
pub open spec fn cc_draws_in_range(cc: CCValues, number_draw: u64, value_draw: u64) -> bool {
    &&& cc_number(cc) == 129 ==> cc_min_number(cc) <= number_draw < cc_max_number(cc)
    &&& cc_draws_value(cc) ==> cc_min_value(cc) <= value_draw < cc_max_value(cc)
}

/// The entry can be drawn: a random controller number has a non-empty range.
pub open spec fn cc_can_draw(cc: CCValues) -> bool {
    cc_number(cc) == 129 ==> cc_min_number(cc) < cc_max_number(cc)
}

/// `outcome` is what the entry gives for some draws in its ranges.
pub open spec fn cc_possible(cc: CCValues, channel: u8, outcome: CcOutcome) -> bool {
    exists|number_draw: u64, value_draw: u64|
        cc_draws_in_range(cc, number_draw, value_draw) && outcome == #[trigger] cc_outcome_spec(
            cc,
            channel,
            number_draw,
            value_draw,
        )
}

/// Whether the entry can be drawn.
pub fn cc_drawable(cc: &CCValues) -> (r: bool)
    ensures
        r == cc_can_draw(*cc),
{
    let number: u64 = match cc.number {
        Some(x) => x,
        None => 129,
    };
    let min: u64 = match cc.minnumber {
        Some(x) => x,
        None => number,
    };
    let max: u64 = match cc.maxnumber {
        Some(x) => x,
        None => number,
    };
    number != 129 || min < max
}

/// What a control-change entry gives on `channel` for the given draws.
pub fn cc_outcome(cc: &CCValues, channel: u8, number_draw: u64, value_draw: u64) -> (r: CcOutcome)
    requires
        1 <= channel <= 80,
    ensures
        r == cc_outcome_spec(*cc, channel, number_draw, value_draw),
{
    let number: u64 = match cc.number {
        Some(x) => x,
        None => 129,
    };
    let value: u64 = match cc.value {
        Some(x) => x,
        None => 129,
    };
    let min: u64 = match cc.minvalue {
        Some(x) => x,
        None => 0,
    };
    let max: u64 = match cc.maxvalue {
        Some(x) => x,
        None => 0,
    };
    let pause: u64 = match cc.pause {
        Some(x) => x,
        None => 0,
    };
    let status: u8 = 0xB0 + (channel - 1);
    let ccnumber: u8 = if number == 129 {
        low_byte_of(number_draw)
    } else {
        low_byte_of(number)
    };
    let ccvalue: u8 = if value == 129 {
        if min == 0 && max == 0 {
            return CcOutcome::NoValueRange;
        } else if min > max {
            return CcOutcome::MinAboveMax(ccnumber);
        } else if min == max {
            return CcOutcome::MinEqualsMax(ccnumber);
        } else {
            low_byte_of(value_draw)
        }
    } else {
        low_byte_of(value)
    };
    CcOutcome::Send(
        ChannelMessage { status, number: ccnumber, value: ccvalue, duration: 0, pause },
    )
}

/// Draws the random numbers of a control-change entry and gives what it
/// yields on `channel`.
pub fn draw_cc(cc: &CCValues, channel: u8) -> (r: CcOutcome)
    requires
        1 <= channel <= 80,
        cc_can_draw(*cc),
    ensures
        cc_possible(*cc, channel, r),
{
    let number: u64 = match cc.number {
        Some(x) => x,
        None => 129,
    };
    let value: u64 = match cc.value {
        Some(x) => x,
        None => 129,
    };
    let min: u64 = match cc.minvalue {
        Some(x) => x,
        None => 0,
    };
    let max: u64 = match cc.maxvalue {
        Some(x) => x,
        None => 0,
    };
    let number_draw: u64 = if number == 129 {
        let lo: u64 = match cc.minnumber {
            Some(x) => x,
            None => number,
        };
        let hi: u64 = match cc.maxnumber {
            Some(x) => x,
            None => number,
        };
        random_in_range(lo, hi)
    } else {
        0
    };
    let value_draw: u64 = if value == 129 && min < max {
        random_in_range(min, max)
    } else {
        0
    };
    let r: CcOutcome = cc_outcome(cc, channel, number_draw, value_draw);
    assert(cc_draws_in_range(*cc, number_draw, value_draw));
    r
}

// ---------------------------------------------------------------------
// Notes
// ---------------------------------------------------------------------

pub open spec fn note_number(note: NoteValues) -> u64 {
    or_u64(note.number, 129)
}

pub open spec fn note_min_number(note: NoteValues) -> u64 {
    or_u64(note.minnumber, note_number(note))
}

pub open spec fn note_max_number(note: NoteValues) -> u64 {
    or_u64(note.maxnumber, note_number(note))
}

pub open spec fn note_velocity(note: NoteValues) -> u64 {
    or_u64(note.velocity, 129)
}

pub open spec fn note_min_velocity(note: NoteValues) -> u64 {
    or_u64(note.minvelocity, 0)
}

pub open spec fn note_max_velocity(note: NoteValues) -> u64 {
    or_u64(note.maxvelocity, 127)
}

/// A random pause is drawn: the pause is 0 and its upper bound is not.
pub open spec fn note_draws_pause(note: NoteValues) -> bool {
    or_u64(note.pause, 0) == 0 && or_u64(note.maxpause, 0) != 0
}

/// A random duration is drawn: the duration is 0 and its upper bound is not.
pub open spec fn note_draws_duration(note: NoteValues) -> bool {
    or_u64(note.duration, 0) == 0 && or_u64(note.maxduration, 0) != 0
}

/// The note message of an entry on `channel`, for the random numbers drawn
/// for its pause, duration, velocity (velocity 129) and number (number 129).
/// A pause or duration of 0 with an upper bound of 0 stays 0.
pub open spec fn note_message_spec(
    note: NoteValues,
    channel: u8,
    pause_draw: u64,
    duration_draw: u64,
    velocity_draw: u64,
    number_draw: u64,
) -> ChannelMessage {
    ChannelMessage {
        status: note_status(channel),
        number: if note_number(note) == 129 {
            low_byte(number_draw)
        } else {
            low_byte(note_number(note))
        },
        value: if note_velocity(note) == 129 {
            low_byte(velocity_draw)
        } else {
            low_byte(note_velocity(note))
        },
        duration: if note_draws_duration(note) {
            duration_draw
        } else {
            or_u64(note.duration, 0)
        },
        pause: if note_draws_pause(note) {
            pause_draw
        } else {
            or_u64(note.pause, 0)
        },
    }
}

/// The draws lie in the ranges that the entry gives for them.
pub open spec fn note_draws_in_range(
    note: NoteValues,
    pause_draw: u64,
    duration_draw: u64,
    velocity_draw: u64,
    number_draw: u64,
) -> bool {
    &&& note_draws_pause(note) ==> or_u64(note.minpause, 0) <= pause_draw < or_u64(
        note.maxpause,
        0,
    )
    &&& note_draws_duration(note) ==> or_u64(note.minduration, 0) <= duration_draw < or_u64(
        note.maxduration,
        0,
    )
    &&& note_velocity(note) == 129 ==> note_min_velocity(note) <= velocity_draw
        < note_max_velocity(note)
    &&& note_number(note) == 129 ==> note_min_number(note) <= number_draw < note_max_number(note)
}

/// Every range that the entry draws from is non-empty.
pub open spec fn note_can_draw(note: NoteValues) -> bool {
    &&& note_draws_pause(note) ==> or_u64(note.minpause, 0) < or_u64(note.maxpause, 0)
    &&& note_draws_duration(note) ==> or_u64(note.minduration, 0) < or_u64(note.maxduration, 0)
    &&& note_velocity(note) == 129 ==> note_min_velocity(note) < note_max_velocity(note)
    &&& note_number(note) == 129 ==> note_min_number(note) < note_max_number(note)
}

/// `m` is the message of the entry for some draws in its ranges.
pub open spec fn note_possible(note: NoteValues, channel: u8, m: ChannelMessage) -> bool {
    exists|p: u64, d: u64, v: u64, n: u64|
        note_draws_in_range(note, p, d, v, n) && m == #[trigger] note_message_spec(
            note,
            channel,
            p,
            d,
            v,
            n,
        )
}

/// Whether the entry can be drawn.
pub fn note_drawable(note: &NoteValues) -> (r: bool)
    ensures
        r == note_can_draw(*note),
{
    let number: u64 = match note.number {
        Some(x) => x,
        None => 129,
    };
    let minnumber: u64 = match note.minnumber {
        Some(x) => x,
        None => number,
    };
    let maxnumber: u64 = match note.maxnumber {
        Some(x) => x,
        None => number,
    };
    let velocity: u64 = match note.velocity {
        Some(x) => x,
        None => 129,
    };
    let minvelocity: u64 = match note.minvelocity {
        Some(x) => x,
        None => 0,
    };
    let maxvelocity: u64 = match note.maxvelocity {
        Some(x) => x,
        None => 127,
    };
    let pause: u64 = match note.pause {
        Some(x) => x,
        None => 0,
    };
    let minpause: u64 = match note.minpause {
        Some(x) => x,
        None => 0,
    };
    let maxpause: u64 = match note.maxpause {
        Some(x) => x,
        None => 0,
    };
    let duration: u64 = match note.duration {
        Some(x) => x,
        None => 0,
    };
    let minduration: u64 = match note.minduration {
        Some(x) => x,
        None => 0,
    };
    let maxduration: u64 = match note.maxduration {
        Some(x) => x,
        None => 0,
    };
    (!(pause == 0 && maxpause != 0) || minpause < maxpause) && (!(duration == 0 && maxduration
        != 0) || minduration < maxduration) && (velocity != 129 || minvelocity < maxvelocity) && (
    number != 129 || minnumber < maxnumber)
}

/// The note message of an entry on `channel` for the given draws.
pub fn note_message(
    note: &NoteValues,
    channel: u8,
    pause_draw: u64,
    duration_draw: u64,
    velocity_draw: u64,
    number_draw: u64,
) -> (r: ChannelMessage)
    requires
        1 <= channel <= 112,
    ensures
        r == note_message_spec(*note, channel, pause_draw, duration_draw, velocity_draw, number_draw),
{
    let number: u64 = match note.number {
        Some(x) => x,
        None => 129,
    };
    let velocity: u64 = match note.velocity {
        Some(x) => x,
        None => 129,
    };
    let pause: u64 = match note.pause {
        Some(x) => x,
        None => 0,
    };
    let maxpause: u64 = match note.maxpause {
        Some(x) => x,
        None => 0,
    };
    let duration: u64 = match note.duration {
        Some(x) => x,
        None => 0,
    };
    let maxduration: u64 = match note.maxduration {
        Some(x) => x,
        None => 0,
    };
    let notepause: u64 = if pause == 0 {
        if maxpause != 0 {
            pause_draw
        } else {
            0
        }
    } else {
        pause
    };
    let noteduration: u64 = if duration == 0 {
        if maxduration != 0 {
            duration_draw
        } else {
            0
        }
    } else {
        duration
    };
    let notevelocity: u8 = if velocity == 129 {
        low_byte_of(velocity_draw)
    } else {
        low_byte_of(velocity)
    };
    let notenumber: u8 = if number == 129 {
        low_byte_of(number_draw)
    } else {
        low_byte_of(number)
    };
    ChannelMessage {
        status: 0x90 + (channel - 1),
        number: notenumber,
        value: notevelocity,
        duration: noteduration,
        pause: notepause,
    }
}

/// Draws the random numbers of a note entry (pause, duration, velocity,
/// number, in that order) and gives its message on `channel`.
pub fn draw_note(note: &NoteValues, channel: u8) -> (r: ChannelMessage)
    requires
        1 <= channel <= 112,
        note_can_draw(*note),
    ensures
        note_possible(*note, channel, r),
{
    let number: u64 = match note.number {
        Some(x) => x,
        None => 129,
    };
    let velocity: u64 = match note.velocity {
        Some(x) => x,
        None => 129,
    };
    let pause: u64 = match note.pause {
        Some(x) => x,
        None => 0,
    };
    let maxpause: u64 = match note.maxpause {
        Some(x) => x,
        None => 0,
    };
    let duration: u64 = match note.duration {
        Some(x) => x,
        None => 0,
    };
    let maxduration: u64 = match note.maxduration {
        Some(x) => x,
        None => 0,
    };
    let pause_draw: u64 = if pause == 0 && maxpause != 0 {
        let lo: u64 = match note.minpause {
            Some(x) => x,
            None => 0,
        };
        random_in_range(lo, maxpause)
    } else {
        0
    };
    let duration_draw: u64 = if duration == 0 && maxduration != 0 {
        let lo: u64 = match note.minduration {
            Some(x) => x,
            None => 0,
        };
        random_in_range(lo, maxduration)
    } else {
        0
    };
    let velocity_draw: u64 = if velocity == 129 {
        let lo: u64 = match note.minvelocity {
            Some(x) => x,
            None => 0,
        };
        let hi: u64 = match note.maxvelocity {
            Some(x) => x,
            None => 127,
        };
        random_in_range(lo, hi)
    } else {
        0
    };
    let number_draw: u64 = if number == 129 {
        let lo: u64 = match note.minnumber {
            Some(x) => x,
            None => number,
        };
        let hi: u64 = match note.maxnumber {
            Some(x) => x,
            None => number,
        };
        random_in_range(lo, hi)
    } else {
        0
    };
    let r: ChannelMessage = note_message(
        note,
        channel,
        pause_draw,
        duration_draw,
        velocity_draw,
        number_draw,
    );
    assert(note_draws_in_range(*note, pause_draw, duration_draw, velocity_draw, number_draw));
    r
}

// ---------------------------------------------------------------------
// System-exclusive messages
// ---------------------------------------------------------------------

/// The template items that stand for a random byte: `r1`, `r2` and `r3`
/// give 1, 2 and 3; every other item gives 0.
pub open spec fn random_slot(item: Seq<char>) -> nat {
    if item == seq!['r', '1'] {
        1
    } else if item == seq!['r', '2'] {
        2
    } else if item == seq!['r', '3'] {
        3
    } else {
        0
    }
}

/// The range that random slot `slot` of the entry draws from.
pub open spec fn slot_range(sysex: SysexValues, slot: nat) -> (u64, u64) {
    if slot == 1 {
        (or_u64(sysex.r1minvalue, 0), or_u64(sysex.r1maxvalue, 0))
    } else if slot == 2 {
        (or_u64(sysex.r2minvalue, 0), or_u64(sysex.r2maxvalue, 0))
    } else {
        (or_u64(sysex.r3minvalue, 0), or_u64(sysex.r3maxvalue, 0))
    }
}

/// The bytes that a template item gives: the low byte of its draw for a
/// random slot, the byte it writes in hexadecimal, or nothing for an item
/// that is neither.
pub open spec fn item_bytes(item: Seq<char>, draw: u64) -> Seq<u8> {
    if random_slot(item) != 0 {
        seq![low_byte(draw)]
    } else {
        match hex_byte_spec(item) {
            Some(b) => seq![b],
            None => Seq::empty(),
        }
    }
}

/// The bytes that the template items give, with `draws[i]` the draw for
/// item `i`.
pub open spec fn template_bytes(items: Seq<String>, draws: Seq<u64>) -> Seq<u8>
    decreases items.len(),
{
    if items.len() == 0 {
        Seq::empty()
    } else {
        template_bytes(items.drop_last(), draws.subrange(0, items.len() - 1)) + item_bytes(
            items.last()@,
            draws[items.len() - 1],
        )
    }
}

/// The system-exclusive message of an entry: none where it has no template;
/// else `0xF0`, the manufacturer and device numbers, the bytes of the
/// template, and `0xF7`.
pub open spec fn sysex_message_spec(
    sysex: SysexValues,
    manufacturer_id: u8,
    device_id: u8,
    draws: Seq<u64>,
) -> Option<Seq<u8>> {
    match sysex.message {
        None => None,
        Some(items) => Some(
            seq![0xF0u8, manufacturer_id, device_id] + template_bytes(items@, draws) + seq![0xF7u8],
        ),
    }
}

/// The draws lie in the ranges of the random slots they are drawn for.
pub open spec fn sysex_draws_in_range(sysex: SysexValues, draws: Seq<u64>) -> bool {
    match sysex.message {
        None => true,
        Some(items) => {
            &&& draws.len() == items@.len()
            &&& forall|i: int|
                0 <= i < draws.len() && random_slot(#[trigger] items@[i]@) != 0 ==> slot_range(
                    sysex,
                    random_slot(items@[i]@),
                ).0 <= draws[i] < slot_range(sysex, random_slot(items@[i]@)).1
        },
    }
}

/// Every random slot that `items` uses has a non-empty range in the entry.
pub open spec fn template_can_draw(sysex: SysexValues, items: Seq<String>) -> bool {
    forall|i: int|
        0 <= i < items.len() && random_slot(#[trigger] items[i]@) != 0 ==> slot_range(
            sysex,
            random_slot(items[i]@),
        ).0 < slot_range(sysex, random_slot(items[i]@)).1
}

/// Every random slot that the template uses has a non-empty range.
pub open spec fn sysex_can_draw(sysex: SysexValues) -> bool {
    match sysex.message {
        None => true,
        Some(items) => template_can_draw(sysex, items@),
    }
}

/// `m` is what the entry gives for some draws in its ranges.
pub open spec fn sysex_possible(
    sysex: SysexValues,
    manufacturer_id: u8,
    device_id: u8,
    m: Option<Seq<u8>>,
) -> bool {
    exists|draws: Seq<u64>|
        sysex_draws_in_range(sysex, draws) && m == #[trigger] sysex_message_spec(
            sysex,
            manufacturer_id,
            device_id,
            draws,
        )
}

/// The random slot of a template item.
pub fn random_slot_of(item: &String) -> (r: u8)
    ensures
        r as nat == random_slot(item@),
{
    let chars: Vec<char> = chars_of(item.as_str());
    let r1: Vec<char> = vec!['r', '1'];
    let r2: Vec<char> = vec!['r', '2'];
    let r3: Vec<char> = vec!['r', '3'];
    assert(r1@ =~= seq!['r', '1']);
    assert(r2@ =~= seq!['r', '2']);
    assert(r3@ =~= seq!['r', '3']);
    if chars_equal(chars.as_slice(), r1.as_slice()) {
        1
    } else if chars_equal(chars.as_slice(), r2.as_slice()) {
        2
    } else if chars_equal(chars.as_slice(), r3.as_slice()) {
        3
    } else {
        0
    }
}

/// The range of random slot `slot` of the entry.
pub fn slot_range_of(sysex: &SysexValues, slot: u8) -> (r: (u64, u64))
    ensures
        r == slot_range(*sysex, slot as nat),
{
    let (lo, hi): (&Option<u64>, &Option<u64>) = if slot == 1 {
        (&sysex.r1minvalue, &sysex.r1maxvalue)
    } else if slot == 2 {
        (&sysex.r2minvalue, &sysex.r2maxvalue)
    } else {
        (&sysex.r3minvalue, &sysex.r3maxvalue)
    };
    let lo: u64 = match lo {
        Some(x) => *x,
        None => 0,
    };
    let hi: u64 = match hi {
        Some(x) => *x,
        None => 0,
    };
    (lo, hi)
}

/// Whether the entry can be drawn.
pub fn sysex_drawable(sysex: &SysexValues) -> (r: bool)
    ensures
        r == sysex_can_draw(*sysex),
{
    match &sysex.message {
        None => true,
        Some(items) => {
            let mut i: usize = 0;
            while i < items.len()
                invariant
                    sysex.message == Some(*items),
                    i <= items@.len(),
                    forall|j: int|
                        0 <= j < i && random_slot(#[trigger] items@[j]@) != 0 ==> slot_range(
                            *sysex,
                            random_slot(items@[j]@),
                        ).0 < slot_range(*sysex, random_slot(items@[j]@)).1,
                decreases items.len() - i,
            {
                let slot: u8 = random_slot_of(&items[i]);
                if slot != 0 {
                    let (lo, hi): (u64, u64) = slot_range_of(sysex, slot);
                    if lo >= hi {
                        assert(random_slot(items@[i as int]@) != 0);
                        assert(!template_can_draw(*sysex, items@));
                        return false;
                    }
                }
                i = i + 1;
            }
            true
        },
    }
}

proof fn lemma_template_bytes_step(items: Seq<String>, draws: Seq<u64>, i: int)
    requires
        0 <= i < items.len(),
        items.len() <= draws.len(),
    ensures
        template_bytes(items.subrange(0, i + 1), draws.subrange(0, i + 1)) == template_bytes(
            items.subrange(0, i),
            draws.subrange(0, i),
        ) + item_bytes(items[i]@, draws[i]),
{
    let its: Seq<String> = items.subrange(0, i + 1);
    let ds: Seq<u64> = draws.subrange(0, i + 1);
    assert(its.drop_last() =~= items.subrange(0, i));
    assert(ds.subrange(0, its.len() - 1) =~= draws.subrange(0, i));
}

/// The system-exclusive message of an entry for the given draws, one per
/// template item.
pub fn sysex_message(sysex: &SysexValues, manufacturer_id: u8, device_id: u8, draws: &Vec<u64>) -> (r:
    Option<Vec<u8>>)
    requires
        sysex.message matches Some(items) ==> draws@.len() == items@.len(),
    ensures
        match r {
            Some(v) => sysex_message_spec(*sysex, manufacturer_id, device_id, draws@) == Some(v@),
            None => sysex_message_spec(*sysex, manufacturer_id, device_id, draws@) is None,
        },
{
    let items: &Vec<String> = match &sysex.message {
        Some(items) => items,
        None => {
            return None;
        },
    };
    let mut msg: Vec<u8> = Vec::new();
    msg.push(0xF0u8);
    msg.push(manufacturer_id);
    msg.push(device_id);
    let ghost head: Seq<u8> = seq![0xF0u8, manufacturer_id, device_id];
    assert(items@.subrange(0, 0) =~= Seq::<String>::empty());
    assert(msg@ =~= head + template_bytes(items@.subrange(0, 0), draws@.subrange(0, 0)));
    let mut i: usize = 0;
    while i < items.len()
        invariant
            draws@.len() == items@.len(),
            i <= items@.len(),
            head == seq![0xF0u8, manufacturer_id, device_id],
            msg@ == head + template_bytes(items@.subrange(0, i as int), draws@.subrange(0, i as int)),
        decreases items.len() - i,
    {
        let item: &String = &items[i];
        let slot: u8 = random_slot_of(item);
        let ghost before: Seq<u8> = msg@;
        if slot != 0 {
            msg.push(low_byte_of(draws[i]));
        } else {
            match parse_hex_byte(item.as_str()) {
                Some(b) => {
                    msg.push(b);
                },
                None => {},
            }
        }
        assert(msg@ =~= before + item_bytes(items@[i as int]@, draws@[i as int]));
        proof {
            lemma_template_bytes_step(items@, draws@, i as int);
        }
        i = i + 1;
    }
    msg.push(0xF7u8);
    assert(items@.subrange(0, items@.len() as int) =~= items@);
    assert(draws@.subrange(0, items@.len() as int) =~= draws@);
    Some(msg)
}

/// Draws a byte for each random slot of the entry's template and gives its
/// system-exclusive message.
pub fn draw_sysex(sysex: &SysexValues, manufacturer_id: u8, device_id: u8) -> (r: Option<Vec<u8>>)
    requires
        sysex_can_draw(*sysex),
    ensures
        match r {
            Some(v) => sysex_possible(*sysex, manufacturer_id, device_id, Some(v@)),
            None => sysex_possible(*sysex, manufacturer_id, device_id, None),
        },
{
    let mut draws: Vec<u64> = Vec::new();
    match &sysex.message {
        None => {},
        Some(items) => {
            let mut i: usize = 0;
            while i < items.len()
                invariant
                    sysex.message == Some(*items),
                    template_can_draw(*sysex, items@),
                    i <= items@.len(),
                    draws@.len() == i,
                    forall|j: int|
                        0 <= j < i && random_slot(#[trigger] items@[j]@) != 0 ==> slot_range(
                            *sysex,
                            random_slot(items@[j]@),
                        ).0 <= draws@[j] < slot_range(*sysex, random_slot(items@[j]@)).1,
                decreases items.len() - i,
            {
                let slot: u8 = random_slot_of(&items[i]);
                if slot != 0 {
                    let (lo, hi): (u64, u64) = slot_range_of(sysex, slot);
                    assert(random_slot(items@[i as int]@) != 0);
                    assert(slot_range(*sysex, random_slot(items@[i as int]@)).0 < slot_range(
                        *sysex,
                        random_slot(items@[i as int]@),
                    ).1);
                    draws.push(random_in_range(lo, hi));
                } else {
                    draws.push(0);
                }
                i = i + 1;
            }
        },
    }
    let r: Option<Vec<u8>> = sysex_message(sysex, manufacturer_id, device_id, &draws);
    assert(sysex_draws_in_range(*sysex, draws@));
    r
}

// ---------------------------------------------------------------------
// Laws
// ---------------------------------------------------------------------

/// A control change with a random value sends a value within its bounds,
/// and one with a random controller number a number within its bounds,
/// where the upper bound is at most 256 (so that no bit is cut off).
pub proof fn lemma_cc_draws_within_bounds(cc: CCValues, channel: u8, o: CcOutcome)
    requires
        cc_possible(cc, channel, o),
    ensures
        cc_draws_value(cc) && cc_max_value(cc) <= 256 ==> (o matches CcOutcome::Send(m)
            && cc_min_value(cc) <= m.value < cc_max_value(cc)),
        cc_number(cc) == 129 && cc_max_number(cc) <= 256 ==> (o matches CcOutcome::Send(m)
            ==> cc_min_number(cc) <= m.number < cc_max_number(cc)),
        o matches CcOutcome::Send(m) ==> m.status == cc_status(channel) && m.duration == 0
            && m.pause == or_u64(cc.pause, 0),
{
    let (a, b): (u64, u64) = choose|a: u64, b: u64|
        cc_draws_in_range(cc, a, b) && o == #[trigger] cc_outcome_spec(cc, channel, a, b);
    assert(cc_draws_in_range(cc, a, b) && o == cc_outcome_spec(cc, channel, a, b));
}

/// A note sends a velocity and a number within their bounds where they are
/// drawn and the upper bound is at most 256, and a drawn duration and pause
/// within theirs.
pub proof fn lemma_note_draws_within_bounds(note: NoteValues, channel: u8, m: ChannelMessage)
    requires
        note_possible(note, channel, m),
    ensures
        m.status == note_status(channel),
        note_velocity(note) == 129 && note_max_velocity(note) <= 256 ==> note_min_velocity(note)
            <= m.value < note_max_velocity(note),
        note_number(note) == 129 && note_max_number(note) <= 256 ==> note_min_number(note)
            <= m.number < note_max_number(note),
        note_draws_duration(note) ==> or_u64(note.minduration, 0) <= m.duration < or_u64(
            note.maxduration,
            0,
        ),
        note_draws_pause(note) ==> or_u64(note.minpause, 0) <= m.pause < or_u64(note.maxpause, 0),
{
    let (p, d, v, n): (u64, u64, u64, u64) = choose|p: u64, d: u64, v: u64, n: u64|
        note_draws_in_range(note, p, d, v, n) && m == #[trigger] note_message_spec(
            note,
            channel,
            p,
            d,
            v,
            n,
        );
    assert(note_draws_in_range(note, p, d, v, n) && m == note_message_spec(
        note,
        channel,
        p,
        d,
        v,
        n,
    ));
}

proof fn lemma_template_bytes_len(items: Seq<String>, draws: Seq<u64>)
    requires
        draws.len() == items.len(),
    ensures
        template_bytes(items, draws).len() <= items.len(),
    decreases items.len(),
{
    if items.len() > 0 {
        lemma_template_bytes_len(items.drop_last(), draws.subrange(0, items.len() - 1));
    }
}

/// A system-exclusive message starts with `0xF0`, the manufacturer and the
/// device numbers, ends with `0xF7`, and holds at most one byte per item of
/// its template.
pub proof fn lemma_sysex_framing(
    sysex: SysexValues,
    manufacturer_id: u8,
    device_id: u8,
    draws: Seq<u64>,
    msg: Seq<u8>,
)
    requires
        sysex.message matches Some(items) && draws.len() == items@.len(),
        sysex_message_spec(sysex, manufacturer_id, device_id, draws) == Some(msg),
    ensures
        4 <= msg.len() <= sysex.message->0@.len() + 4,
        msg[0] == 0xF0,
        msg[1] == manufacturer_id,
        msg[2] == device_id,
        msg.last() == 0xF7,
{
    lemma_template_bytes_len(sysex.message->0@, draws);
}

proof fn lemma_template_bytes_fixed(items: Seq<String>, d1: Seq<u64>, d2: Seq<u64>)
    requires
        d1.len() == items.len(),
        d2.len() == items.len(),
        forall|i: int| 0 <= i < items.len() ==> random_slot(#[trigger] items[i]@) == 0,
    ensures
        template_bytes(items, d1) == template_bytes(items, d2),
    decreases items.len(),
{
    if items.len() > 0 {
        let n: int = items.len() - 1;
        assert(random_slot(items[n]@) == 0);
        assert forall|i: int| 0 <= i < items.drop_last().len() implies random_slot(
            #[trigger] items.drop_last()[i]@,
        ) == 0 by {
            assert(items.drop_last()[i] == items[i]);
        }
        lemma_template_bytes_fixed(items.drop_last(), d1.subrange(0, n), d2.subrange(0, n));
    }
}

/// A template without random slots gives the same message whatever is drawn.
pub proof fn lemma_fixed_template(
    sysex: SysexValues,
    manufacturer_id: u8,
    device_id: u8,
    d1: Seq<u64>,
    d2: Seq<u64>,
)
    requires
        sysex.message matches Some(items) && d1.len() == items@.len() && d2.len()
            == items@.len() && forall|i: int|
            0 <= i < items@.len() ==> random_slot(#[trigger] items@[i]@) == 0,
    ensures
        sysex_message_spec(sysex, manufacturer_id, device_id, d1) == sysex_message_spec(
            sysex,
            manufacturer_id,
            device_id,
            d2,
        ),
{
    lemma_template_bytes_fixed(sysex.message->0@, d1, d2);
}

/// What a control change gives, field by field, in terms of the entry's
/// fields and the draws: it is sent exactly when its value is fixed (not 129)
/// or its value range is non-empty; a sent message has status `0xB0` plus
/// the channel less one, no duration, the entry's pause (default 0), the
/// controller number (or its draw, for 129) and the value (or its draw, for
/// 129) cut to eight bits; a skipped entry says which of the three reasons
/// holds, with the controller number.
pub proof fn lemma_cc_outcome_fields(cc: CCValues, channel: u8, number_draw: u64, value_draw: u64)
    requires
        1 <= channel <= 80,
    ensures
        ({
            let o = cc_outcome_spec(cc, channel, number_draw, value_draw);
            let number: u64 = match cc.number {
                Some(x) => x,
                None => 129,
            };
            let value: u64 = match cc.value {
                Some(x) => x,
                None => 129,
            };
            let min: u64 = match cc.minvalue {
                Some(x) => x,
                None => 0,
            };
            let max: u64 = match cc.maxvalue {
                Some(x) => x,
                None => 0,
            };
            let byte: int = if number == 129 {
                number_draw as int % 256
            } else {
                number as int % 256
            };
            &&& (o is Send) <==> (value != 129 || min < max)
            &&& o matches CcOutcome::Send(m) ==> {
                &&& m.status == 0xB0 + channel - 1
                &&& m.duration == 0
                &&& m.pause == match cc.pause {
                    Some(p) => p,
                    None => 0,
                }
                &&& m.number == byte
                &&& m.value == if value == 129 {
                    value_draw as int % 256
                } else {
                    value as int % 256
                }
            }
            &&& value == 129 && min == 0 && max == 0 ==> o == CcOutcome::NoValueRange
            &&& value == 129 && min > max ==> (o matches CcOutcome::MinAboveMax(n) && n == byte)
            &&& value == 129 && min == max && max != 0 ==> (o matches CcOutcome::MinEqualsMax(n)
                && n == byte)
        }),
{
}

/// What a note gives, field by field, in terms of the entry's fields and
/// the draws.
pub proof fn lemma_note_message_fields(
    note: NoteValues,
    channel: u8,
    pause_draw: u64,
    duration_draw: u64,
    velocity_draw: u64,
    number_draw: u64,
)
    requires
        1 <= channel <= 112,
    ensures
        ({
            let m = note_message_spec(
                note,
                channel,
                pause_draw,
                duration_draw,
                velocity_draw,
                number_draw,
            );
            let number: u64 = match note.number {
                Some(x) => x,
                None => 129,
            };
            let velocity: u64 = match note.velocity {
                Some(x) => x,
                None => 129,
            };
            let pause: u64 = match note.pause {
                Some(x) => x,
                None => 0,
            };
            let duration: u64 = match note.duration {
                Some(x) => x,
                None => 0,
            };
            let maxpause: u64 = match note.maxpause {
                Some(x) => x,
                None => 0,
            };
            let maxduration: u64 = match note.maxduration {
                Some(x) => x,
                None => 0,
            };
            &&& m.status == 0x90 + channel - 1
            &&& m.number == if number == 129 {
                number_draw as int % 256
            } else {
                number as int % 256
            }
            &&& m.value == if velocity == 129 {
                velocity_draw as int % 256
            } else {
                velocity as int % 256
            }
            &&& pause != 0 ==> m.pause == pause
            &&& pause == 0 && maxpause != 0 ==> m.pause == pause_draw
            &&& pause == 0 && maxpause == 0 ==> m.pause == 0
            &&& duration != 0 ==> m.duration == duration
            &&& duration == 0 && maxduration != 0 ==> m.duration == duration_draw
            &&& duration == 0 && maxduration == 0 ==> m.duration == 0
        }),
{
}

/// The random items of a template.
pub open spec fn is_random_item(item: Seq<char>) -> bool {
    item == seq!['r', '1'] || item == seq!['r', '2'] || item == seq!['r', '3']
}

proof fn lemma_random_items()
    ensures
        random_slot(seq!['r', '1']) == 1,
        random_slot(seq!['r', '2']) == 2,
        random_slot(seq!['r', '3']) == 3,
        forall|s: Seq<char>| random_slot(s) != 0 <==> is_random_item(s),
{
    assert(seq!['r', '2'] != seq!['r', '1']) by {
        assert(seq!['r', '2'][1] != seq!['r', '1'][1]);
    }
    assert(seq!['r', '3'] != seq!['r', '1']) by {
        assert(seq!['r', '3'][1] != seq!['r', '1'][1]);
    }
    assert(seq!['r', '3'] != seq!['r', '2']) by {
        assert(seq!['r', '3'][1] != seq!['r', '2'][1]);
    }
}

/// The draws that are in range for a template put the draw of each `r1`,
/// `r2` and `r3` item between that slot's own bounds: `r1minvalue` and
/// `r1maxvalue`, `r2minvalue` and `r2maxvalue`, `r3minvalue` and `r3maxvalue`
/// (each 0 where absent).
pub proof fn lemma_slot_draws_in_own_range(sysex: SysexValues, draws: Seq<u64>, i: int)
    requires
        sysex.message matches Some(items) && 0 <= i < items@.len(),
        sysex_draws_in_range(sysex, draws),
    ensures
        ({
            let item = sysex.message->0@[i]@;
            &&& item == seq!['r', '1'] ==> or_u64(sysex.r1minvalue, 0) <= draws[i] < or_u64(
                sysex.r1maxvalue,
                0,
            )
            &&& item == seq!['r', '2'] ==> or_u64(sysex.r2minvalue, 0) <= draws[i] < or_u64(
                sysex.r2maxvalue,
                0,
            )
            &&& item == seq!['r', '3'] ==> or_u64(sysex.r3minvalue, 0) <= draws[i] < or_u64(
                sysex.r3maxvalue,
                0,
            )
        }),
{
    lemma_random_items();
    let items = sysex.message->0@;
    if is_random_item(items[i]@) {
        assert(random_slot(items[i]@) != 0);
    }
}

/// A template can be drawn exactly when each slot that it uses has a
/// non-empty range of its own: the bounds of slots it does not use do not
/// matter.
pub proof fn lemma_drawable_iff_used_slots(sysex: SysexValues)
    requires
        sysex.message is Some,
    ensures
        sysex_can_draw(sysex) <==> forall|i: int|
            0 <= i < sysex.message->0@.len() ==> {
                &&& #[trigger] sysex.message->0@[i]@ == seq!['r', '1'] ==> or_u64(
                    sysex.r1minvalue,
                    0,
                ) < or_u64(sysex.r1maxvalue, 0)
                &&& sysex.message->0@[i]@ == seq!['r', '2'] ==> or_u64(sysex.r2minvalue, 0)
                    < or_u64(sysex.r2maxvalue, 0)
                &&& sysex.message->0@[i]@ == seq!['r', '3'] ==> or_u64(sysex.r3minvalue, 0)
                    < or_u64(sysex.r3maxvalue, 0)
            },
{
    lemma_random_items();
    let items = sysex.message->0@;
    if sysex_can_draw(sysex) {
        assert forall|i: int| 0 <= i < items.len() implies {
            &&& #[trigger] items[i]@ == seq!['r', '1'] ==> or_u64(sysex.r1minvalue, 0) < or_u64(
                sysex.r1maxvalue,
                0,
            )
            &&& items[i]@ == seq!['r', '2'] ==> or_u64(sysex.r2minvalue, 0) < or_u64(
                sysex.r2maxvalue,
                0,
            )
            &&& items[i]@ == seq!['r', '3'] ==> or_u64(sysex.r3minvalue, 0) < or_u64(
                sysex.r3maxvalue,
                0,
            )
        } by {
            if is_random_item(items[i]@) {
                assert(random_slot(items[i]@) != 0);
            }
        }
    } else {
        let i: int = choose|i: int|
            0 <= i < items.len() && random_slot(#[trigger] items[i]@) != 0 && !(slot_range(
                sysex,
                random_slot(items[i]@),
            ).0 < slot_range(sysex, random_slot(items[i]@)).1);
        assert(is_random_item(items[i]@));
    }
}

/// A template made only of random items gives one byte per item: the low
/// eight bits of that item's draw.
pub proof fn lemma_random_template_bytes(items: Seq<String>, draws: Seq<u64>)
    requires
        draws.len() == items.len(),
        forall|j: int| 0 <= j < items.len() ==> is_random_item(#[trigger] items[j]@),
    ensures
        template_bytes(items, draws).len() == items.len(),
        forall|j: int|
            0 <= j < items.len() ==> #[trigger] template_bytes(items, draws)[j] == draws[j] % 256,
    decreases items.len(),
{
    lemma_random_items();
    if items.len() > 0 {
        let n: int = items.len() - 1;
        let prefix: Seq<String> = items.drop_last();
        let pd: Seq<u64> = draws.subrange(0, n);
        assert forall|j: int| 0 <= j < prefix.len() implies is_random_item(
            #[trigger] prefix[j]@,
        ) by {
            assert(prefix[j] == items[j]);
        }
        lemma_random_template_bytes(prefix, pd);
        assert(is_random_item(items[n]@));
        assert(random_slot(items[n]@) != 0);
        let t = template_bytes(items, draws);
        assert forall|j: int| 0 <= j < items.len() implies #[trigger] t[j] == draws[j] % 256 by {
            if j < n {
                assert(t[j] == template_bytes(prefix, pd)[j]);
                assert(pd[j] == draws[j]);
            }
        }
    }
}

/// A system-exclusive message drawn from a template made only of `r1`,
/// `r2` and `r3` items has one byte per item, between `0xF0`, manufacturer,
/// device and `0xF7`; the byte of an `rN` item lies between `rNminvalue` and
/// `rNmaxvalue` where that bound is at most 256.
pub proof fn lemma_random_template_message(
    sysex: SysexValues,
    manufacturer_id: u8,
    device_id: u8,
    msg: Seq<u8>,
    i: int,
)
    requires
        sysex.message matches Some(items) && 0 <= i < items@.len() && forall|j: int|
            0 <= j < items@.len() ==> is_random_item(#[trigger] items@[j]@),
        sysex_possible(sysex, manufacturer_id, device_id, Some(msg)),
    ensures
        msg.len() == sysex.message->0@.len() + 4,
        msg[0] == 0xF0 && msg[1] == manufacturer_id && msg[2] == device_id && msg.last() == 0xF7,
        ({
            let item = sysex.message->0@[i]@;
            &&& item == seq!['r', '1'] && or_u64(sysex.r1maxvalue, 0) <= 256 ==> or_u64(
                sysex.r1minvalue,
                0,
            ) <= msg[3 + i] < or_u64(sysex.r1maxvalue, 0)
            &&& item == seq!['r', '2'] && or_u64(sysex.r2maxvalue, 0) <= 256 ==> or_u64(
                sysex.r2minvalue,
                0,
            ) <= msg[3 + i] < or_u64(sysex.r2maxvalue, 0)
            &&& item == seq!['r', '3'] && or_u64(sysex.r3maxvalue, 0) <= 256 ==> or_u64(
                sysex.r3minvalue,
                0,
            ) <= msg[3 + i] < or_u64(sysex.r3maxvalue, 0)
        }),
{
    let draws: Seq<u64> = choose|draws: Seq<u64>|
        sysex_draws_in_range(sysex, draws) && Some(msg) == #[trigger] sysex_message_spec(
            sysex,
            manufacturer_id,
            device_id,
            draws,
        );
    let items = sysex.message->0@;
    lemma_random_template_bytes(items, draws);
    lemma_slot_draws_in_own_range(sysex, draws, i);
    let t = template_bytes(items, draws);
    assert(msg == seq![0xF0u8, manufacturer_id, device_id] + t + seq![0xF7u8]);
    assert(msg[3 + i] == t[i]);
    assert(t[i] == draws[i] % 256);
}

/// A template whose items are bytes written as two hexadecimal digits gives
/// those bytes, in order, whatever is drawn.
pub proof fn lemma_hex_template_bytes(items: Seq<String>, bytes: Seq<u8>, draws: Seq<u64>)
    requires
        draws.len() == items.len(),
        bytes.len() == items.len(),
        forall|j: int| 0 <= j < items.len() ==> #[trigger] items[j]@ == hex_text(bytes[j]),
    ensures
        template_bytes(items, draws) == bytes,
    decreases items.len(),
{
    if items.len() > 0 {
        let n: int = items.len() - 1;
        let prefix: Seq<String> = items.drop_last();
        assert forall|j: int| 0 <= j < prefix.len() implies #[trigger] prefix[j]@ == hex_text(
            bytes.drop_last()[j],
        ) by {
            assert(prefix[j] == items[j]);
        }
        lemma_hex_template_bytes(prefix, bytes.drop_last(), draws.subrange(0, n));
        let b: u8 = bytes[n];
        assert(items[n]@ == hex_text(b));
        lemma_hex_byte_round_trip(b);
        assert(hex_text(b)[0] != 'r');
        assert(hex_text(b) != seq!['r', '1'] && hex_text(b) != seq!['r', '2'] && hex_text(b)
            != seq!['r', '3']) by {
            assert(seq!['r', '1'][0] == 'r');
            assert(seq!['r', '2'][0] == 'r');
            assert(seq!['r', '3'][0] == 'r');
        }
        assert(random_slot(items[n]@) == 0);
        assert(bytes =~= bytes.drop_last() + seq![b]);
    }
}

} // verus!
