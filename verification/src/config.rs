use vstd::prelude::*;

verus! {

/// One control-change entry of a patch. A field left out takes the
/// default that `messages::cc_outcome_spec` gives it; `number` and `value`
/// equal to 129 ask for a random draw between the matching bounds.
pub struct CCValues {
    pub name: Option<String>,
    pub number: Option<u64>,
    pub minnumber: Option<u64>,
    pub maxnumber: Option<u64>,
    pub value: Option<u64>,
    pub minvalue: Option<u64>,
    pub maxvalue: Option<u64>,
    pub pause: Option<u64>,
    pub maxpause: Option<u64>,
    pub minpause: Option<u64>,
}

/// One note entry of a patch; 129 for `number` or `velocity` and 0 for
/// `duration` or `pause` ask for a random draw between the matching bounds.
pub struct NoteValues {
    pub number: Option<u64>,
    pub minnumber: Option<u64>,
    pub maxnumber: Option<u64>,
    pub velocity: Option<u64>,
    pub minvelocity: Option<u64>,
    pub maxvelocity: Option<u64>,
    pub duration: Option<u64>,
    pub minduration: Option<u64>,
    pub maxduration: Option<u64>,
    pub pause: Option<u64>,
    pub minpause: Option<u64>,
    pub maxpause: Option<u64>,
}

/// One system-exclusive entry of a patch: `message` is a template whose
/// items are hexadecimal bytes or `r1`, `r2`, `r3`, which stand for a byte
/// drawn between the matching bounds.
pub struct SysexValues {
    pub name: Option<String>,
    pub message: Option<Vec<String>>,
    pub pause: Option<u64>,
    pub minpause: Option<u64>,
    pub maxpause: Option<u64>,
    pub r1minvalue: Option<u64>,
    pub r1maxvalue: Option<u64>,
    pub r2minvalue: Option<u64>,
    pub r2maxvalue: Option<u64>,
    pub r3minvalue: Option<u64>,
    pub r3maxvalue: Option<u64>,
}

/// A whole patch, as read from its file.
pub struct Config {
    pub synth: Option<String>,
    pub patch: Option<String>,
    pub channel: Option<u8>,
    pub infiniteloop: Option<bool>,
    pub repeat: Option<u64>,
    pub msgdelay: Option<u64>,
    pub cc: Option<Vec<CCValues>>,
    pub note: Option<Vec<NoteValues>>,
    pub sysex: Option<Vec<SysexValues>>,
    pub sysex_manufacturer_id: Option<u8>,
    pub sysex_device_id: Option<u8>,
}

/// The settings of a round once the defaults are filled in.
#[derive(Clone, Copy, Debug, PartialEq, Eq, Structural)]
pub struct Settings {
    pub repeat: u64,
    pub msgdelay: u64,
    pub infiniteloop: bool,
    pub channel: u8,
    pub manufacturer_id: u8,
    pub device_id: u8,
}

/// `o`, or `default` where it is absent.
pub open spec fn or_u64(o: Option<u64>, default: u64) -> u64 {
    match o {
        Some(x) => x,
        None => default,
    }
}

/// `o`, or `default` where it is absent.
pub open spec fn or_u8(o: Option<u8>, default: u8) -> u8 {
    match o {
        Some(x) => x,
        None => default,
    }
}

/// The text `empty`, which marks a placeholder entry.
pub open spec fn empty_text() -> Seq<char> {
    seq!['e', 'm', 'p', 't', 'y']
}

/// `o` holds the text `empty`.
pub open spec fn is_empty_text(o: Option<String>) -> bool {
    o matches Some(s) && s@ == empty_text()
}

/// The settings of a patch: a round repeats `repeat` times (default 0), waits
/// `msgdelay` milliseconds after each message (default 100), loops forever
/// where `infiniteloop` (default false), on MIDI channel `channel` (default 1),
/// and frames system-exclusive messages with the manufacturer and device
/// numbers (default 0).
pub open spec fn settings_spec(config: &Config) -> Settings {
    Settings {
        repeat: or_u64(config.repeat, 0),
        msgdelay: or_u64(config.msgdelay, 100),
        infiniteloop: match config.infiniteloop {
            Some(b) => b,
            None => false,
        },
        channel: or_u8(config.channel, 1),
        manufacturer_id: or_u8(config.sysex_manufacturer_id, 0),
        device_id: or_u8(config.sysex_device_id, 0),
    }
}

/// The control-change entry that stands for "no control changes".
pub open spec fn is_cc_placeholder(cc: CCValues) -> bool {
    &&& is_empty_text(cc.name)
    &&& cc.number == Some(0u64)
    &&& cc.minnumber == Some(0u64)
    &&& cc.maxnumber == Some(0u64)
    &&& cc.value == Some(0u64)
    &&& cc.minvalue == Some(0u64)
    &&& cc.maxvalue == Some(0u64)
    &&& cc.pause == Some(0u64)
    &&& cc.minpause == Some(0u64)
    &&& cc.maxpause == Some(0u64)
}

/// The note entry that stands for "no notes".
pub open spec fn is_note_placeholder(note: NoteValues) -> bool {
    &&& note.number == Some(129u64)
    &&& note.minnumber == Some(0u64)
    &&& note.maxnumber == Some(0u64)
    &&& note.velocity == Some(0u64)
    &&& note.minvelocity == Some(0u64)
    &&& note.maxvelocity == Some(0u64)
    &&& note.duration == Some(0u64)
    &&& note.minduration == Some(0u64)
    &&& note.maxduration == Some(0u64)
    &&& note.pause == Some(0u64)
    &&& note.minpause == Some(0u64)
    &&& note.maxpause == Some(0u64)
}

/// The template `["empty"]`, which stands for "no system-exclusive message".
pub open spec fn is_empty_template(o: Option<Vec<String>>) -> bool {
    o matches Some(m) && m@.len() == 1 && m@[0]@ == empty_text()
}

/// The system-exclusive entry that stands for "no system-exclusive messages".
pub open spec fn is_sysex_placeholder(sysex: SysexValues) -> bool {
    &&& is_empty_text(sysex.name)
    &&& is_empty_template(sysex.message)
    &&& sysex.pause == Some(0u64)
    &&& sysex.minpause == Some(0u64)
    &&& sysex.maxpause == Some(0u64)
    &&& sysex.r1minvalue == Some(0u64)
    &&& sysex.r1maxvalue == Some(0u64)
    &&& sysex.r2minvalue == Some(0u64)
    &&& sysex.r2maxvalue == Some(0u64)
    &&& sysex.r3minvalue == Some(0u64)
    &&& sysex.r3maxvalue == Some(0u64)
}

/// A list of control changes is played unless its first entry is named
/// `empty`.
pub open spec fn cc_list_active(list: Seq<CCValues>) -> bool {
    !is_empty_text(list[0].name)
}

/// A list of notes is played unless its first entry has number 129.
pub open spec fn note_list_active(list: Seq<NoteValues>) -> bool {
    list[0].number != Some(129u64)
}

/// A list of system-exclusive messages is played unless the template of its
/// first entry is `["empty"]`.
pub open spec fn sysex_list_active(list: Seq<SysexValues>) -> bool {
    !is_empty_template(list[0].message)
}

/// The text `empty`.
pub fn empty_string() -> (s: String)
    ensures
        s@ == empty_text(),
{
    let s: String = String::from_str("empty");
    proof {
        reveal_strlit("empty");
    }
    assert(s@ =~= empty_text());
    s
}

fn text_is_empty(o: &Option<String>) -> (r: bool)
    ensures
        r == is_empty_text(*o),
{
    match o {
        Some(s) => {
            let chars: Vec<char> = crate::text::chars_of(s.as_str());
            let empty: Vec<char> = vec!['e', 'm', 'p', 't', 'y'];
            assert(empty@ =~= empty_text());
            crate::text::chars_equal(chars.as_slice(), empty.as_slice())
        },
        None => false,
    }
}

fn template_is_empty(o: &Option<Vec<String>>) -> (r: bool)
    ensures
        r == is_empty_template(*o),
{
    match o {
        Some(m) => {
            if m.len() != 1 {
                return false;
            }
            let chars: Vec<char> = crate::text::chars_of(m[0].as_str());
            let empty: Vec<char> = vec!['e', 'm', 'p', 't', 'y'];
            assert(empty@ =~= empty_text());
            crate::text::chars_equal(chars.as_slice(), empty.as_slice())
        },
        None => false,
    }
}

impl CCValues {
    /// The control-change list used where a patch has none: one placeholder
    /// entry, which turns the list off.
    pub fn empty() -> (r: Vec<CCValues>)
        ensures
            r@.len() == 1,
            is_cc_placeholder(r@[0]),
            !cc_list_active(r@),
    {
        let x = CCValues {
            name: Some(empty_string()),
            number: Some(0),
            minnumber: Some(0),
            maxnumber: Some(0),
            value: Some(0),
            minvalue: Some(0),
            maxvalue: Some(0),
            pause: Some(0),
            minpause: Some(0),
            maxpause: Some(0),
        };
        vec![x]
    }
}

impl NoteValues {
    /// The note list used where a patch has none: one placeholder entry,
    /// which turns the list off.
    pub fn empty() -> (r: Vec<NoteValues>)
        ensures
            r@.len() == 1,
            is_note_placeholder(r@[0]),
            !note_list_active(r@),
    {
        let x = NoteValues {
            number: Some(129),
            minnumber: Some(0),
            maxnumber: Some(0),
            velocity: Some(0),
            minvelocity: Some(0),
            maxvelocity: Some(0),
            duration: Some(0),
            minduration: Some(0),
            maxduration: Some(0),
            pause: Some(0),
            minpause: Some(0),
            maxpause: Some(0),
        };
        vec![x]
    }
}

impl SysexValues {
    /// The system-exclusive list used where a patch has none: one
    /// placeholder entry, which turns the list off.
    pub fn empty() -> (r: Vec<SysexValues>)
        ensures
            r@.len() == 1,
            is_sysex_placeholder(r@[0]),
            !sysex_list_active(r@),
    {
        let x = SysexValues {
            name: Some(empty_string()),
            message: Some(vec![empty_string()]),
            pause: Some(0),
            minpause: Some(0),
            maxpause: Some(0),
            r1minvalue: Some(0),
            r1maxvalue: Some(0),
            r2minvalue: Some(0),
            r2maxvalue: Some(0),
            r3minvalue: Some(0),
            r3maxvalue: Some(0),
        };
        vec![x]
    }
}

/// Whether a non-empty list of control changes is played.
pub fn cc_list_is_active(list: &Vec<CCValues>) -> (r: bool)
    requires
        list.len() > 0,
    ensures
        r == cc_list_active(list@),
{
    !text_is_empty(&list[0].name)
}

/// Whether a non-empty list of notes is played.
pub fn note_list_is_active(list: &Vec<NoteValues>) -> (r: bool)
    requires
        list.len() > 0,
    ensures
        r == note_list_active(list@),
{
    match list[0].number {
        Some(n) => n != 129,
        None => true,
    }
}

/// Whether a non-empty list of system-exclusive messages is played.
pub fn sysex_list_is_active(list: &Vec<SysexValues>) -> (r: bool)
    requires
        list.len() > 0,
    ensures
        r == sysex_list_active(list@),
{
    !template_is_empty(&list[0].message)
}

impl Settings {
    /// The settings of `config`, with the defaults filled in.
    pub fn from_config(config: &Config) -> (s: Settings)
        ensures
            s == settings_spec(config),
    {
        Settings {
            repeat: match config.repeat {
                Some(x) => x,
                None => 0,
            },
            msgdelay: match config.msgdelay {
                Some(x) => x,
                None => 100,
            },
            infiniteloop: match config.infiniteloop {
                Some(x) => x,
                None => false,
            },
            channel: match config.channel {
                Some(x) => x,
                None => 1,
            },
            manufacturer_id: match config.sysex_manufacturer_id {
                Some(x) => x,
                None => 0,
            },
            device_id: match config.sysex_device_id {
                Some(x) => x,
                None => 0,
            },
        }
    }
}

/// Which lists of a patch are played, in terms of their first entry: a
/// control-change list unless that entry's name is the text `empty` (a
/// missing name keeps it on), a note list unless that entry's number is 129
/// (a missing number keeps it on), a system-exclusive list unless that
/// entry's template is exactly `["empty"]` (a missing template keeps it on).
pub proof fn lemma_lists_switched_by_first_entry(
    cc: Seq<CCValues>,
    notes: Seq<NoteValues>,
    sysex: Seq<SysexValues>,
)
    requires
        cc.len() > 0,
        notes.len() > 0,
        sysex.len() > 0,
    ensures
        cc_list_active(cc) <==> !(cc[0].name matches Some(n) && n@ == seq![
            'e',
            'm',
            'p',
            't',
            'y',
        ]),
        cc[0].name is None ==> cc_list_active(cc),
        note_list_active(notes) <==> !(notes[0].number matches Some(n) && n == 129),
        notes[0].number is None ==> note_list_active(notes),
        sysex_list_active(sysex) <==> !(sysex[0].message matches Some(m) && m@.len() == 1
            && m@[0]@ == seq!['e', 'm', 'p', 't', 'y']),
        sysex[0].message is None ==> sysex_list_active(sysex),
{
}

/// The settings of a patch take each field that is present, and the
/// default where it is absent: 0 rounds, 100 ms, no endless loop, channel 1,
/// manufacturer and device 0.
pub proof fn lemma_settings_fields(config: Config)
    ensures
        ({
            let s = settings_spec(&config);
            &&& config.repeat matches Some(r) ==> s.repeat == r
            &&& config.repeat is None ==> s.repeat == 0
            &&& config.msgdelay matches Some(d) ==> s.msgdelay == d
            &&& config.msgdelay is None ==> s.msgdelay == 100
            &&& config.infiniteloop matches Some(b) ==> s.infiniteloop == b
            &&& config.infiniteloop is None ==> !s.infiniteloop
            &&& config.channel matches Some(c) ==> s.channel == c
            &&& config.channel is None ==> s.channel == 1
            &&& config.sysex_manufacturer_id matches Some(m) ==> s.manufacturer_id == m
            &&& config.sysex_manufacturer_id is None ==> s.manufacturer_id == 0
            &&& config.sysex_device_id matches Some(d) ==> s.device_id == d
            &&& config.sysex_device_id is None ==> s.device_id == 0
        }),
{
}

} // verus!
