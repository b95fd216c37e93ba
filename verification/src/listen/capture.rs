//! Capture log and correlation.
//!
//! This module describes what was observed and never says what it means.
//! Frames are grouped and counted, and operator markers are correlated by
//! time, but nothing here labels a byte pattern as a command or a state.

use crate::text::{
    ascii_render, chars_eq, chars_lt, chars_of, hex_spaced, lemma_seq_lt_asymmetric,
    lemma_seq_lt_total, lemma_seq_lt_transitive, lower_text, owned, seq_lt, str_eq, to_lowercase,
    trim, trimmed,
};
use vstd::prelude::*;

verus! {

/// Physical actions the operator can mark.
#[derive(Debug, Clone, Copy, PartialEq, Eq, PartialOrd, Ord, Structural)]
pub enum Action {
    AncQuiet,
    AncAware,
    AncCustom,
    VolumeUp,
    VolumeDown,
    Play,
    Pause,
    ButtonPress,
    Power,
    Connect,
    Disconnect,
    Other,
}

pub open spec fn spec_action_label(a: Action) -> Seq<char> {
    match a {
        Action::AncQuiet => "ANC_QUIET"@,
        Action::AncAware => "ANC_AWARE"@,
        Action::AncCustom => "ANC_CUSTOM"@,
        Action::VolumeUp => "VOLUME_UP"@,
        Action::VolumeDown => "VOLUME_DOWN"@,
        Action::Play => "PLAY"@,
        Action::Pause => "PAUSE"@,
        Action::ButtonPress => "BUTTON_PRESS"@,
        Action::Power => "POWER"@,
        Action::Connect => "CONNECT"@,
        Action::Disconnect => "DISCONNECT"@,
        Action::Other => "OTHER"@,
    }
}

/// The action a typed key selects: trimmed, lower-cased, then matched.
pub open spec fn spec_action_from_key(k: Seq<char>) -> Option<Action> {
    let t = lower_text(trimmed(k));
    if t == "1"@ {
        Some(Action::AncQuiet)
    } else if t == "2"@ {
        Some(Action::AncAware)
    } else if t == "3"@ {
        Some(Action::AncCustom)
    } else if t == "u"@ {
        Some(Action::VolumeUp)
    } else if t == "d"@ {
        Some(Action::VolumeDown)
    } else if t == "p"@ {
        Some(Action::Play)
    } else if t == "s"@ {
        Some(Action::Pause)
    } else if t == "b"@ {
        Some(Action::ButtonPress)
    } else if t == "w"@ {
        Some(Action::Power)
    } else if t == "c"@ {
        Some(Action::Connect)
    } else if t == "x"@ {
        Some(Action::Disconnect)
    } else if t == "o"@ {
        Some(Action::Other)
    } else {
        None
    }
}

/// Actions in the alphabetical order of their labels.
pub open spec fn label_order(i: int) -> Action {
    if i == 0 { Action::AncAware }
    else if i == 1 { Action::AncCustom }
    else if i == 2 { Action::AncQuiet }
    else if i == 3 { Action::ButtonPress }
    else if i == 4 { Action::Connect }
    else if i == 5 { Action::Disconnect }
    else if i == 6 { Action::Other }
    else if i == 7 { Action::Pause }
    else if i == 8 { Action::Play }
    else if i == 9 { Action::Power }
    else if i == 10 { Action::VolumeDown }
    else { Action::VolumeUp }
}

fn label_order_at(i: usize) -> (r: Action)
    requires
        i < 12,
    ensures
        r == label_order(i as int),
{
    if i == 0 { Action::AncAware }
    else if i == 1 { Action::AncCustom }
    else if i == 2 { Action::AncQuiet }
    else if i == 3 { Action::ButtonPress }
    else if i == 4 { Action::Connect }
    else if i == 5 { Action::Disconnect }
    else if i == 6 { Action::Other }
    else if i == 7 { Action::Pause }
    else if i == 8 { Action::Play }
    else if i == 9 { Action::Power }
    else if i == 10 { Action::VolumeDown }
    else { Action::VolumeUp }
}

/// Position of an action in declaration order.
pub open spec fn action_index(a: Action) -> int {
    match a {
        Action::AncQuiet => 0,
        Action::AncAware => 1,
        Action::AncCustom => 2,
        Action::VolumeUp => 3,
        Action::VolumeDown => 4,
        Action::Play => 5,
        Action::Pause => 6,
        Action::ButtonPress => 7,
        Action::Power => 8,
        Action::Connect => 9,
        Action::Disconnect => 10,
        Action::Other => 11,
    }
}

fn action_slot(a: Action) -> (r: usize)
    ensures
        r == action_index(a),
        r < 12,
{
    match a {
        Action::AncQuiet => 0,
        Action::AncAware => 1,
        Action::AncCustom => 2,
        Action::VolumeUp => 3,
        Action::VolumeDown => 4,
        Action::Play => 5,
        Action::Pause => 6,
        Action::ButtonPress => 7,
        Action::Power => 8,
        Action::Connect => 9,
        Action::Disconnect => 10,
        Action::Other => 11,
    }
}

impl Action {
    /// Single-key codes the operator types during a capture.
    pub fn from_key(k: &str) -> (r: Option<Self>)
        ensures
            r == spec_action_from_key(k@),
    {
        let t = trim(k);
        let l = to_lowercase(t.as_str());
        let s = l.as_str();
        if str_eq(s, "1") {
            Some(Action::AncQuiet)
        } else if str_eq(s, "2") {
            Some(Action::AncAware)
        } else if str_eq(s, "3") {
            Some(Action::AncCustom)
        } else if str_eq(s, "u") {
            Some(Action::VolumeUp)
        } else if str_eq(s, "d") {
            Some(Action::VolumeDown)
        } else if str_eq(s, "p") {
            Some(Action::Play)
        } else if str_eq(s, "s") {
            Some(Action::Pause)
        } else if str_eq(s, "b") {
            Some(Action::ButtonPress)
        } else if str_eq(s, "w") {
            Some(Action::Power)
        } else if str_eq(s, "c") {
            Some(Action::Connect)
        } else if str_eq(s, "x") {
            Some(Action::Disconnect)
        } else if str_eq(s, "o") {
            Some(Action::Other)
        } else {
            None
        }
    }

    pub fn label(self) -> (r: &'static str)
        ensures
            r@ == spec_action_label(self),
    {
        match self {
            Action::AncQuiet => "ANC_QUIET",
            Action::AncAware => "ANC_AWARE",
            Action::AncCustom => "ANC_CUSTOM",
            Action::VolumeUp => "VOLUME_UP",
            Action::VolumeDown => "VOLUME_DOWN",
            Action::Play => "PLAY",
            Action::Pause => "PAUSE",
            Action::ButtonPress => "BUTTON_PRESS",
            Action::Power => "POWER",
            Action::Connect => "CONNECT",
            Action::Disconnect => "DISCONNECT",
            Action::Other => "OTHER",
        }
    }
}

pub const KEY_HELP: &'static str = "  1 ANC Quiet      2 ANC Aware     3 ANC Custom\n  u Volume Up      d Volume Down\n  p Play           s Pause\n  b Button press   w Power\n  c Connect        x Disconnect    o Other\n  q Quit and export";

#[derive(Debug, Clone, PartialEq, Eq)]
pub enum Event {
    /// Bytes the device sent: this capture never transmits.
    Frame {
        /// Milliseconds since capture start.
        at_ms: u128,
        timestamp: String,
        direction: &'static str,
        service_uuid: String,
        length: usize,
        hex: String,
        ascii: String,
    },
    /// A physical action the operator performed and marked.
    Marker { at_ms: u128, timestamp: String, action: Action },
    Note { at_ms: u128, timestamp: String, text: String },
}

pub open spec fn spec_at_ms(e: Event) -> u128 {
    match e {
        Event::Frame { at_ms, .. } => at_ms,
        Event::Marker { at_ms, .. } => at_ms,
        Event::Note { at_ms, .. } => at_ms,
    }
}

impl Event {
    pub fn at_ms(&self) -> (r: u128)
        ensures
            r == spec_at_ms(*self),
    {
        match self {
            Event::Frame { at_ms, .. } => *at_ms,
            Event::Marker { at_ms, .. } => *at_ms,
            Event::Note { at_ms, .. } => *at_ms,
        }
    }
}

pub fn to_hex(bytes: &[u8]) -> (r: String)
    ensures
        r@ == hex_spaced(bytes@),
{
    crate::text::hex_string(bytes)
}

/// Printable rendering, with non-printable bytes shown as `.`.
pub fn to_ascii(bytes: &[u8]) -> (r: String)
    ensures
        r@ == ascii_render(bytes@),
{
    crate::text::ascii_string(bytes)
}

/// How closely after a marker a frame must arrive to be considered related.
pub const CORRELATION_WINDOW_MS: u128 = 2000;

/// A group of identical frames and the actions that preceded them.
#[derive(Debug, Clone, PartialEq, Eq)]
pub struct FramePattern {
    pub hex: String,
    pub length: usize,
    pub occurrences: usize,
    /// Labels of actions this pattern was seen shortly after, with counts,
    /// in label order. Presence here means temporal proximity only.
    pub seen_after: Vec<(String, usize)>,
    /// Times it appeared with no marker in the preceding window.
    pub unprompted: usize,
}

impl FramePattern {
    /// How often this pattern followed the action with the given label.
    pub fn seen_after_count(&self, label: &str) -> (r: Option<usize>)
        ensures
            match r {
                Some(n) => exists|i: int|
                    0 <= i < self.seen_after@.len() && (#[trigger] self.seen_after@[i]).0@ == label@
                        && self.seen_after@[i].1 == n,
                None => forall|i: int|
                    0 <= i < self.seen_after@.len() ==> (#[trigger] self.seen_after@[i]).0@
                        != label@,
            },
    {
        let mut i: usize = 0;
        while i < self.seen_after.len()
            invariant
                i <= self.seen_after@.len(),
                forall|j: int| 0 <= j < i ==> (#[trigger] self.seen_after@[j]).0@ != label@,
            decreases self.seen_after.len() - i,
        {
            if str_eq(self.seen_after[i].0.as_str(), label) {
                return Some(self.seen_after[i].1);
            }
            i = i + 1;
        }
        None
    }
}

// ---------------------------------------------------------------------------
// The correlation rules
// ---------------------------------------------------------------------------

/// The markers of a capture, in order.
pub open spec fn markers_of(evs: Seq<Event>) -> Seq<(u128, Action)>
    decreases evs.len(),
{
    if evs.len() == 0 {
        Seq::empty()
    } else {
        match evs.last() {
            Event::Marker { at_ms, action, .. } => markers_of(evs.drop_last()).push((at_ms, action)),
            _ => markers_of(evs.drop_last()),
        }
    }
}

/// A marker at `m` may explain a frame at `t`.
pub open spec fn in_window(m: u128, t: u128) -> bool {
    m <= t && t - m <= CORRELATION_WINDOW_MS
}

/// The most recent marker within the window before `t`; among markers at the
/// same time, the last listed.
pub open spec fn preceding(ms: Seq<(u128, Action)>, t: u128) -> Option<(u128, Action)>
    decreases ms.len(),
{
    if ms.len() == 0 {
        None
    } else {
        let p = preceding(ms.drop_last(), t);
        let x = ms.last();
        if in_window(x.0, t) && (p is None || x.0 >= (p->0).0) {
            Some(x)
        } else {
            p
        }
    }
}

/// The frame an event is, if any: time, hex text and length.
pub open spec fn frame_of(e: Event) -> Option<(u128, Seq<char>, usize)> {
    match e {
        Event::Frame { at_ms, hex, length, .. } => Some((at_ms, hex@, length)),
        _ => None,
    }
}

/// Number of frames with the given hex text.
pub open spec fn count_frames(evs: Seq<Event>, h: Seq<char>) -> nat
    decreases evs.len(),
{
    if evs.len() == 0 {
        0
    } else {
        count_frames(evs.drop_last(), h) + match frame_of(evs.last()) {
            Some(f) => if f.1 == h {
                1nat
            } else {
                0nat
            },
            None => 0nat,
        }
    }
}

/// Number of frames with the given hex text that no marker explains.
pub open spec fn count_unprompted(evs: Seq<Event>, ms: Seq<(u128, Action)>, h: Seq<char>) -> nat
    decreases evs.len(),
{
    if evs.len() == 0 {
        0
    } else {
        count_unprompted(evs.drop_last(), ms, h) + match frame_of(evs.last()) {
            Some(f) => if f.1 == h && preceding(ms, f.0) is None {
                1nat
            } else {
                0nat
            },
            None => 0nat,
        }
    }
}

/// Number of frames with the given hex text that the given action explains.
pub open spec fn count_after(evs: Seq<Event>, ms: Seq<(u128, Action)>, h: Seq<char>, a: Action) -> nat
    decreases evs.len(),
{
    if evs.len() == 0 {
        0
    } else {
        count_after(evs.drop_last(), ms, h, a) + match frame_of(evs.last()) {
            Some(f) => if f.1 == h && (preceding(ms, f.0) matches Some(p) && p.1 == a) {
                1nat
            } else {
                0nat
            },
            None => 0nat,
        }
    }
}

/// The length recorded with the first frame of the given hex text.
pub open spec fn first_length(evs: Seq<Event>, h: Seq<char>) -> usize
    decreases evs.len(),
{
    if evs.len() == 0 {
        0
    } else if count_frames(evs.drop_last(), h) > 0 {
        first_length(evs.drop_last(), h)
    } else {
        match frame_of(evs.last()) {
            Some(f) => if f.1 == h {
                f.2
            } else {
                0
            },
            None => 0,
        }
    }
}

/// `(label, count)` for the first `n` actions in label order whose count is
/// not zero.
pub open spec fn seen_after_upto(evs: Seq<Event>, ms: Seq<(u128, Action)>, h: Seq<char>, n: nat) -> Seq<
    (Seq<char>, nat),
>
    decreases n,
{
    if n == 0 {
        Seq::empty()
    } else {
        let prev = seen_after_upto(evs, ms, h, (n - 1) as nat);
        let a = label_order(n - 1);
        let c = count_after(evs, ms, h, a);
        if c > 0 {
            prev.push((spec_action_label(a), c))
        } else {
            prev
        }
    }
}

pub open spec fn seen_view(s: Seq<(String, usize)>) -> Seq<(Seq<char>, nat)> {
    s.map_values(|e: (String, usize)| (e.0@, e.1 as nat))
}

/// A pattern reports its frames exactly: how many there are, the first
/// length, which markers preceded them and how many were unprompted.
pub open spec fn pattern_correct(evs: Seq<Event>, p: FramePattern) -> bool {
    let ms = markers_of(evs);
    &&& p.occurrences == count_frames(evs, p.hex@)
    &&& p.occurrences > 0
    &&& p.length == first_length(evs, p.hex@)
    &&& p.unprompted == count_unprompted(evs, ms, p.hex@)
    &&& seen_view(p.seen_after@) == seen_after_upto(evs, ms, p.hex@, 12)
}

/// Report order: most frequent first, then by hex text.
pub open spec fn pattern_before(a: FramePattern, b: FramePattern) -> bool {
    a.occurrences > b.occurrences || (a.occurrences == b.occurrences && seq_lt(a.hex@, b.hex@))
}

// ---------------------------------------------------------------------------
// Executable correlation
// ---------------------------------------------------------------------------

struct Group {
    hex: String,
    length: usize,
    occurrences: usize,
    per_action: Vec<usize>,
    unprompted: usize,
}

spec fn group_correct(evs: Seq<Event>, ms: Seq<(u128, Action)>, g: Group) -> bool {
    &&& g.occurrences == count_frames(evs, g.hex@)
    &&& g.occurrences > 0
    &&& g.length == first_length(evs, g.hex@)
    &&& g.unprompted == count_unprompted(evs, ms, g.hex@)
    &&& g.per_action@.len() == 12
    &&& forall|i: int| 0 <= i < 12 ==> #[trigger] g.per_action@[i] == count_after(evs, ms, g.hex@, action_order(i))
}

/// Actions in declaration order.
spec fn action_order(i: int) -> Action {
    if i == 0 { Action::AncQuiet }
    else if i == 1 { Action::AncAware }
    else if i == 2 { Action::AncCustom }
    else if i == 3 { Action::VolumeUp }
    else if i == 4 { Action::VolumeDown }
    else if i == 5 { Action::Play }
    else if i == 6 { Action::Pause }
    else if i == 7 { Action::ButtonPress }
    else if i == 8 { Action::Power }
    else if i == 9 { Action::Connect }
    else if i == 10 { Action::Disconnect }
    else { Action::Other }
}

proof fn lemma_counts_bounded(evs: Seq<Event>, ms: Seq<(u128, Action)>, h: Seq<char>)
    ensures
        count_frames(evs, h) <= evs.len(),
        count_unprompted(evs, ms, h) <= count_frames(evs, h),
        forall|a: Action| #[trigger] count_after(evs, ms, h, a) <= count_frames(evs, h),
    decreases evs.len(),
{
    if evs.len() > 0 {
        lemma_counts_bounded(evs.drop_last(), ms, h);
        assert forall|a: Action| #[trigger] count_after(evs, ms, h, a) <= count_frames(evs, h) by {
            assert(count_after(evs.drop_last(), ms, h, a) <= count_frames(evs.drop_last(), h));
        }
    }
}

/// How the counts move when one more event is seen.
proof fn lemma_counts_push(prev: Seq<Event>, e: Event, ms: Seq<(u128, Action)>, h: Seq<char>)
    ensures
        ({
            let cur = prev.push(e);
            let hit = frame_of(e) matches Some(f) && f.1 == h;
            &&& count_frames(cur, h) == count_frames(prev, h) + if hit {
                1nat
            } else {
                0nat
            }
            &&& count_unprompted(cur, ms, h) == count_unprompted(prev, ms, h) + if hit
                && preceding(ms, (frame_of(e)->0).0) is None {
                1nat
            } else {
                0nat
            }
            &&& forall|a: Action|
                #[trigger] count_after(cur, ms, h, a) == count_after(prev, ms, h, a) + if hit
                    && (preceding(ms, (frame_of(e)->0).0) matches Some(p) && p.1 == a) {
                    1nat
                } else {
                    0nat
                }
            &&& first_length(cur, h) == if count_frames(prev, h) > 0 {
                first_length(prev, h)
            } else if hit {
                (frame_of(e)->0).2
            } else {
                0
            }
        }),
{
    let cur = prev.push(e);
    assert(cur.drop_last() =~= prev);
    assert(cur.last() == e);
}

spec fn has_group(gs: Seq<Group>, h: Seq<char>) -> bool {
    exists|i: int| 0 <= i < gs.len() && (#[trigger] gs[i]).hex@ == h
}

spec fn groups_inv(evs: Seq<Event>, ms: Seq<(u128, Action)>, gs: Seq<Group>) -> bool {
    &&& forall|i: int, j: int| 0 <= i < j < gs.len() ==> gs[i].hex@ != gs[j].hex@
    &&& forall|i: int| 0 <= i < gs.len() ==> group_correct(evs, ms, #[trigger] gs[i])
    &&& forall|h: Seq<char>| #[trigger] count_frames(evs, h) > 0 ==> has_group(gs, h)
}

/// A group whose frames the new event is not one of stays correct.
proof fn lemma_group_untouched(prev: Seq<Event>, e: Event, ms: Seq<(u128, Action)>, g: Group)
    requires
        group_correct(prev, ms, g),
        !(frame_of(e) matches Some(f) && f.1 == g.hex@),
    ensures
        group_correct(prev.push(e), ms, g),
{
    lemma_counts_push(prev, e, ms, g.hex@);
    let cur = prev.push(e);
    assert forall|i: int| 0 <= i < 12 implies #[trigger] g.per_action@[i] == count_after(
        cur,
        ms,
        g.hex@,
        action_order(i),
    ) by {
        assert(count_after(cur, ms, g.hex@, action_order(i)) == count_after(prev, ms, g.hex@, action_order(i)));
    }
}

fn markers(events: &[Event]) -> (r: Vec<(u128, Action)>)
    ensures
        r@ == markers_of(events@),
{
    let mut out: Vec<(u128, Action)> = Vec::new();
    let mut i: usize = 0;
    while i < events.len()
        invariant
            i <= events@.len(),
            out@ == markers_of(events@.subrange(0, i as int)),
        decreases events.len() - i,
    {
        assert(events@.subrange(0, i + 1).drop_last() =~= events@.subrange(0, i as int));
        match &events[i] {
            Event::Marker { at_ms, action, .. } => {
                out.push((*at_ms, *action));
            },
            _ => {},
        }
        i = i + 1;
    }
    assert(events@.subrange(0, events@.len() as int) =~= events@);
    out
}

/// The action explaining a frame at `t`, if any.
pub open spec fn attribution(ms: Seq<(u128, Action)>, t: u128) -> Option<Action> {
    match preceding(ms, t) {
        Some(p) => Some(p.1),
        None => None,
    }
}

fn preceding_action(ms: &[(u128, Action)], t: u128) -> (r: Option<Action>)
    ensures
        r == attribution(ms@, t),
{
    let mut best: Option<(u128, Action)> = None;
    let mut i: usize = 0;
    while i < ms.len()
        invariant
            i <= ms@.len(),
            best == preceding(ms@.subrange(0, i as int), t),
        decreases ms.len() - i,
    {
        assert(ms@.subrange(0, i + 1).drop_last() =~= ms@.subrange(0, i as int));
        let (m, a) = ms[i];
        if m <= t && t - m <= CORRELATION_WINDOW_MS {
            let replace = match best {
                None => true,
                Some((bm, _)) => m >= bm,
            };
            if replace {
                best = Some((m, a));
            }
        }
        i = i + 1;
    }
    assert(ms@.subrange(0, ms@.len() as int) =~= ms@);
    match best {
        Some((_, a)) => Some(a),
        None => None,
    }
}

fn find_group(groups: &Vec<Group>, hex: &[char]) -> (r: Option<usize>)
    ensures
        match r {
            Some(i) => i < groups@.len() && groups@[i as int].hex@ == hex@,
            None => forall|i: int| 0 <= i < groups@.len() ==> (#[trigger] groups@[i]).hex@ != hex@,
        },
{
    let mut i: usize = 0;
    while i < groups.len()
        invariant
            i <= groups@.len(),
            forall|j: int| 0 <= j < i ==> (#[trigger] groups@[j]).hex@ != hex@,
        decreases groups.len() - i,
    {
        let g = chars_of(groups[i].hex.as_str());
        if chars_eq(&g, hex) {
            return Some(i);
        }
        i = i + 1;
    }
    None
}

fn zero_counts() -> (r: Vec<usize>)
    ensures
        r@.len() == 12,
        forall|i: int| 0 <= i < 12 ==> #[trigger] r@[i] == 0,
{
    let mut v: Vec<usize> = Vec::new();
    let mut i: usize = 0;
    while i < 12
        invariant
            i <= 12,
            v@.len() == i,
            forall|j: int| 0 <= j < i ==> #[trigger] v@[j] == 0,
        decreases 12 - i,
    {
        v.push(0);
        i = i + 1;
    }
    v
}

proof fn lemma_action_order(a: Action)
    ensures
        0 <= action_index(a) < 12,
        action_order(action_index(a)) == a,
{
}

proof fn lemma_action_order_injective(i: int)
    requires
        0 <= i < 12,
    ensures
        action_index(action_order(i)) == i,
{
}

/// Counts one more frame into an existing group.
fn bump_group(g: &mut Group, att: Option<Action>, Ghost(prev): Ghost<Seq<Event>>, Ghost(e): Ghost<Event>, Ghost(ms): Ghost<Seq<(u128, Action)>>)
    requires
        group_correct(prev, ms, *old(g)),
        frame_of(e) matches Some(f) && f.1 == old(g).hex@ && att == attribution(ms, f.0),
        prev.len() < usize::MAX,
    ensures
        group_correct(prev.push(e), ms, *final(g)),
        final(g).hex == old(g).hex,
{
    proof {
        lemma_counts_push(prev, e, ms, g.hex@);
        lemma_counts_bounded(prev, ms, g.hex@);
    }
    g.occurrences = g.occurrences + 1;
    match att {
        Some(a) => {
            let s = action_slot(a);
            proof {
                lemma_action_order(a);
                assert(g.per_action@[s as int] == count_after(prev, ms, g.hex@, a));
                assert(count_after(prev, ms, g.hex@, a) <= count_frames(prev, g.hex@));
            }
            let c = g.per_action[s];
            g.per_action.set(s, c + 1);
        },
        None => {
            g.unprompted = g.unprompted + 1;
        },
    }
    proof {
        let cur = prev.push(e);
        assert forall|i: int| 0 <= i < 12 implies #[trigger] g.per_action@[i] == count_after(
            cur,
            ms,
            g.hex@,
            action_order(i),
        ) by {
            lemma_action_order_injective(i);
            if att is Some {
                lemma_action_order(att->0);
            }
        }
    }
}

/// A group for the first frame of its kind.
fn new_group(hex: &String, length: usize, att: Option<Action>, Ghost(prev): Ghost<Seq<Event>>, Ghost(e): Ghost<Event>, Ghost(ms): Ghost<Seq<(u128, Action)>>) -> (g: Group)
    requires
        frame_of(e) matches Some(f) && f.1 == hex@ && f.2 == length && att == attribution(ms, f.0),
        count_frames(prev, hex@) == 0,
    ensures
        group_correct(prev.push(e), ms, g),
        g.hex@ == hex@,
{
    proof {
        lemma_counts_push(prev, e, ms, hex@);
        lemma_counts_bounded(prev, ms, hex@);
    }
    let mut per_action = zero_counts();
    let mut unprompted: usize = 0;
    match att {
        Some(a) => {
            let s = action_slot(a);
            per_action.set(s, 1);
        },
        None => {
            unprompted = 1;
        },
    }
    let g = Group { hex: hex.clone(), length, occurrences: 1, per_action, unprompted };
    proof {
        let cur = prev.push(e);
        assert forall|i: int| 0 <= i < 12 implies #[trigger] g.per_action@[i] == count_after(
            cur,
            ms,
            g.hex@,
            action_order(i),
        ) by {
            lemma_action_order_injective(i);
            if att is Some {
                lemma_action_order(att->0);
            }
            assert(count_after(prev, ms, hex@, action_order(i)) == 0);
        }
    }
    g
}

/// Takes one more event into the groups.
fn take_event(groups: &mut Vec<Group>, e: &Event, ms: &[(u128, Action)], Ghost(prev): Ghost<Seq<Event>>)
    requires
        groups_inv(prev, ms@, old(groups)@),
        prev.len() < usize::MAX,
    ensures
        groups_inv(prev.push(*e), ms@, final(groups)@),
{
    let ghost cur = prev.push(*e);
    let ghost old_groups = groups@;
    match e {
        Event::Frame { at_ms, hex, length, .. } => {
            let hc = chars_of(hex.as_str());
            let att = preceding_action(ms, *at_ms);
            match find_group(groups, &hc) {
                Some(idx) => {
                    let mut g = groups.remove(idx);
                    bump_group(&mut g, att, Ghost(prev), Ghost(*e), Ghost(ms@));
                    groups.insert(idx, g);
                    proof {
                        assert(groups@ =~= old_groups.update(idx as int, g));
                        assert forall|i: int| 0 <= i < groups@.len() implies group_correct(
                            cur,
                            ms@,
                            #[trigger] groups@[i],
                        ) by {
                            if i != idx {
                                assert(old_groups[i].hex@ != old_groups[idx as int].hex@);
                                lemma_group_untouched(prev, *e, ms@, old_groups[i]);
                            }
                        }
                        assert forall|h: Seq<char>| #[trigger] count_frames(cur, h) > 0 implies has_group(
                            groups@,
                            h,
                        ) by {
                            lemma_counts_push(prev, *e, ms@, h);
                            if h == hex@ {
                                assert(groups@[idx as int].hex@ == h);
                            } else {
                                assert(has_group(old_groups, h));
                                let i0 = choose|i: int| 0 <= i < old_groups.len() && (#[trigger] old_groups[i]).hex@ == h;
                                assert(groups@[i0].hex@ == h);
                            }
                        }
                    }
                },
                None => {
                    proof {
                        if count_frames(prev, hex@) > 0 {
                            assert(has_group(old_groups, hex@));
                        }
                    }
                    let g = new_group(hex, *length, att, Ghost(prev), Ghost(*e), Ghost(ms@));
                    groups.push(g);
                    proof {
                        assert forall|i: int| 0 <= i < groups@.len() implies group_correct(
                            cur,
                            ms@,
                            #[trigger] groups@[i],
                        ) by {
                            if i < old_groups.len() {
                                assert(groups@[i] == old_groups[i]);
                                lemma_group_untouched(prev, *e, ms@, old_groups[i]);
                            }
                        }
                        assert forall|h: Seq<char>| #[trigger] count_frames(cur, h) > 0 implies has_group(
                            groups@,
                            h,
                        ) by {
                            lemma_counts_push(prev, *e, ms@, h);
                            if h == hex@ {
                                assert(groups@[old_groups.len() as int].hex@ == h);
                            } else {
                                assert(has_group(old_groups, h));
                                let i0 = choose|i: int| 0 <= i < old_groups.len() && (#[trigger] old_groups[i]).hex@ == h;
                                assert(groups@[i0].hex@ == h);
                            }
                        }
                    }
                },
            }
        },
        _ => {
            proof {
                assert forall|i: int| 0 <= i < groups@.len() implies group_correct(
                    cur,
                    ms@,
                    #[trigger] groups@[i],
                ) by {
                    lemma_group_untouched(prev, *e, ms@, groups@[i]);
                }
                assert forall|h: Seq<char>| #[trigger] count_frames(cur, h) > 0 implies has_group(
                    groups@,
                    h,
                ) by {
                    lemma_counts_push(prev, *e, ms@, h);
                }
            }
        },
    }
}

/// Groups the frames of a capture, in order of first appearance.
fn group_frames(events: &[Event], ms: &[(u128, Action)]) -> (r: Vec<Group>)
    requires
        ms@ == markers_of(events@),
    ensures
        groups_inv(events@, ms@, r@),
{
    let mut groups: Vec<Group> = Vec::new();
    let mut k: usize = 0;
    proof {
        assert forall|h: Seq<char>| #[trigger] count_frames(events@.subrange(0, 0), h) > 0 implies has_group(
            groups@,
            h,
        ) by {
            assert(events@.subrange(0, 0).len() == 0);
        }
    }
    while k < events.len()
        invariant
            k <= events@.len(),
            groups_inv(events@.subrange(0, k as int), ms@, groups@),
        decreases events.len() - k,
    {
        proof {
            assert(events@.subrange(0, k + 1) =~= events@.subrange(0, k as int).push(events@[k as int]));
        }
        take_event(&mut groups, &events[k], ms, Ghost(events@.subrange(0, k as int)));
        k = k + 1;
    }
    assert(events@.subrange(0, events@.len() as int) =~= events@);
    groups
}

fn seen_after_of(g: &Group, Ghost(evs): Ghost<Seq<Event>>, Ghost(ms): Ghost<Seq<(u128, Action)>>) -> (r: Vec<(String, usize)>)
    requires
        group_correct(evs, ms, *g),
    ensures
        seen_view(r@) == seen_after_upto(evs, ms, g.hex@, 12),
{
    let mut out: Vec<(String, usize)> = Vec::new();
    let mut j: usize = 0;
    assert(seen_view(out@) =~= Seq::<(Seq<char>, nat)>::empty());
    while j < 12
        invariant
            j <= 12,
            group_correct(evs, ms, *g),
            seen_view(out@) == seen_after_upto(evs, ms, g.hex@, j as nat),
        decreases 12 - j,
    {
        let a = label_order_at(j);
        let s = action_slot(a);
        proof {
            lemma_action_order(a);
            assert(g.per_action@[s as int] == count_after(evs, ms, g.hex@, a));
        }
        let c = g.per_action[s];
        let ghost before = out@;
        if c > 0 {
            out.push((owned(a.label()), c));
            assert(seen_view(out@) =~= seen_view(before).push((spec_action_label(a), c as nat)));
        }
        j = j + 1;
    }
    out
}

proof fn lemma_before_total(a: FramePattern, b: FramePattern)
    requires
        a.hex@ != b.hex@,
    ensures
        pattern_before(a, b) || pattern_before(b, a),
{
    lemma_seq_lt_total(a.hex@, b.hex@);
}

proof fn lemma_before_transitive(a: FramePattern, b: FramePattern, c: FramePattern)
    requires
        pattern_before(a, b),
        pattern_before(b, c),
    ensures
        pattern_before(a, c),
{
    if a.occurrences == b.occurrences && b.occurrences == c.occurrences {
        lemma_seq_lt_transitive(a.hex@, b.hex@, c.hex@);
    }
}

fn before(a: &FramePattern, b: &FramePattern) -> (r: bool)
    ensures
        r == pattern_before(*a, *b),
{
    if a.occurrences != b.occurrences {
        return a.occurrences > b.occurrences;
    }
    let x = chars_of(a.hex.as_str());
    let y = chars_of(b.hex.as_str());
    chars_lt(&x, &y)
}

spec fn has_hex(s: Seq<FramePattern>, h: Seq<char>) -> bool {
    exists|i: int| 0 <= i < s.len() && (#[trigger] s[i]).hex@ == h
}

spec fn sorted_distinct(s: Seq<FramePattern>) -> bool {
    &&& forall|i: int, j: int| 0 <= i < j < s.len() ==> s[i].hex@ != s[j].hex@
    &&& forall|i: int, j: int| 0 <= i < j < s.len() ==> pattern_before(s[i], s[j])
}

/// Inserts a pattern at its place in report order.
fn insert_sorted(out: &mut Vec<FramePattern>, p: FramePattern) -> (pos: usize)
    requires
        sorted_distinct(old(out)@),
        !has_hex(old(out)@, p.hex@),
    ensures
        pos <= old(out)@.len(),
        final(out)@ == old(out)@.insert(pos as int, p),
        sorted_distinct(final(out)@),
{
    let mut pos: usize = 0;
    while pos < out.len() && !before(&p, &out[pos])
        invariant
            pos <= out@.len(),
            forall|i: int| 0 <= i < pos ==> !pattern_before(p, #[trigger] out@[i]),
        decreases out.len() - pos,
    {
        pos = pos + 1;
    }
    let ghost old_out = out@;
    proof {
        assert forall|j: int| 0 <= j < pos implies pattern_before(#[trigger] old_out[j], p) by {
            assert(old_out[j].hex@ != p.hex@);
            lemma_before_total(p, old_out[j]);
        }
        assert forall|j: int| pos <= j < old_out.len() implies pattern_before(p, #[trigger] old_out[j]) by {
            if j > pos {
                lemma_before_transitive(p, old_out[pos as int], old_out[j]);
            }
        }
    }
    out.insert(pos, p);
    proof {
        let s = out@;
        assert forall|i: int, j: int| 0 <= i < j < s.len() implies s[i].hex@ != s[j].hex@ by {
            if i == pos {
                assert(s[j] == old_out[j - 1]);
            } else if j == pos {
                assert(s[i] == old_out[i]);
            } else {
                let oi = if i < pos { i } else { i - 1 };
                let oj = if j < pos { j } else { j - 1 };
                assert(s[i] == old_out[oi]);
                assert(s[j] == old_out[oj]);
            }
        }
        assert forall|i: int, j: int| 0 <= i < j < s.len() implies pattern_before(s[i], s[j]) by {
            if i == pos {
                assert(s[j] == old_out[j - 1]);
            } else if j == pos {
                assert(s[i] == old_out[i]);
            } else {
                let oi = if i < pos { i } else { i - 1 };
                let oj = if j < pos { j } else { j - 1 };
                assert(s[i] == old_out[oi]);
                assert(s[j] == old_out[oj]);
            }
        }
    }
    pos
}

/// The patterns of each group, in the same order.
fn patterns_of(groups: &Vec<Group>, Ghost(evs): Ghost<Seq<Event>>, Ghost(ms): Ghost<Seq<(u128, Action)>>) -> (r: Vec<FramePattern>)
    requires
        ms == markers_of(evs),
        forall|i: int| 0 <= i < groups@.len() ==> group_correct(evs, ms, #[trigger] groups@[i]),
    ensures
        r@.len() == groups@.len(),
        forall|i: int| 0 <= i < r@.len() ==> (#[trigger] r@[i]).hex@ == groups@[i].hex@,
        forall|i: int| 0 <= i < r@.len() ==> pattern_correct(evs, #[trigger] r@[i]),
{
    let mut pats: Vec<FramePattern> = Vec::new();
    let mut k: usize = 0;
    while k < groups.len()
        invariant
            k <= groups@.len(),
            ms == markers_of(evs),
            forall|i: int| 0 <= i < groups@.len() ==> group_correct(evs, ms, #[trigger] groups@[i]),
            pats@.len() == k,
            forall|i: int| 0 <= i < k ==> (#[trigger] pats@[i]).hex@ == groups@[i].hex@,
            forall|i: int| 0 <= i < k ==> pattern_correct(evs, #[trigger] pats@[i]),
        decreases groups.len() - k,
    {
        let g = &groups[k];
        let seen_after = seen_after_of(g, Ghost(evs), Ghost(ms));
        pats.push(
            FramePattern {
                hex: g.hex.clone(),
                length: g.length,
                occurrences: g.occurrences,
                seen_after,
                unprompted: g.unprompted,
            },
        );
        k = k + 1;
    }
    pats
}

/// Groups identical frames and reports which marked actions preceded them,
/// most frequent first and then by hex text.
pub fn analyse(events: &[Event]) -> (r: Vec<FramePattern>)
    ensures
        forall|i: int, j: int| 0 <= i < j < r@.len() ==> r@[i].hex@ != r@[j].hex@,
        forall|i: int| 0 <= i < r@.len() ==> pattern_correct(events@, #[trigger] r@[i]),
        forall|h: Seq<char>|
            count_frames(events@, h) > 0 ==> exists|i: int| 0 <= i < r@.len() && (#[trigger] r@[i]).hex@ == h,
        forall|i: int, j: int| 0 <= i < j < r@.len() ==> pattern_before(r@[i], r@[j]),
{
    let ms = markers(events);
    let groups = group_frames(events, ms.as_slice());
    let mut pats = patterns_of(&groups, Ghost(events@), Ghost(ms@));
    let ghost all = pats@;
    proof {
        assert forall|i: int, j: int| 0 <= i < j < all.len() implies all[i].hex@ != all[j].hex@ by {
            assert(groups@[i].hex@ != groups@[j].hex@);
        }
    }
    let mut out: Vec<FramePattern> = Vec::new();
    while pats.len() > 0
        invariant
            forall|i: int, j: int| 0 <= i < j < all.len() ==> all[i].hex@ != all[j].hex@,
            forall|i: int| 0 <= i < all.len() ==> pattern_correct(events@, #[trigger] all[i]),
            pats@ == all.subrange(0, pats@.len() as int),
            pats@.len() <= all.len(),
            sorted_distinct(out@),
            forall|i: int| 0 <= i < out@.len() ==> pattern_correct(events@, #[trigger] out@[i]),
            forall|i: int| pats@.len() <= i < all.len() ==> has_hex(out@, #[trigger] all[i].hex@),
            forall|j: int|
                0 <= j < out@.len() ==> exists|i: int|
                    pats@.len() <= i < all.len() && (#[trigger] out@[j]).hex@ == (#[trigger] all[i]).hex@,
        decreases pats@.len(),
    {
        let ghost n = pats@.len();
        let ghost old_out = out@;
        let p = pats.pop().unwrap();
        assert(p == all[n - 1]);
        proof {
            if has_hex(old_out, p.hex@) {
                let j = choose|j: int| 0 <= j < old_out.len() && (#[trigger] old_out[j]).hex@ == p.hex@;
                let i = choose|i: int| n <= i < all.len() && (#[trigger] old_out[j]).hex@ == (#[trigger] all[i]).hex@;
                assert(all[i].hex@ != all[n - 1].hex@);
            }
        }
        let pos = insert_sorted(&mut out, p);
        proof {
            let s = out@;
            assert forall|i: int| 0 <= i < s.len() implies pattern_correct(events@, #[trigger] s[i]) by {
                if i < pos {
                    assert(s[i] == old_out[i]);
                } else if i > pos {
                    assert(s[i] == old_out[i - 1]);
                }
            }
            assert forall|i: int| n - 1 <= i < all.len() implies has_hex(s, #[trigger] all[i].hex@) by {
                if i == n - 1 {
                    assert(s[pos as int].hex@ == all[i].hex@);
                } else {
                    let j0 = choose|j: int| 0 <= j < old_out.len() && (#[trigger] old_out[j]).hex@ == all[i].hex@;
                    if j0 < pos {
                        assert(s[j0] == old_out[j0]);
                    } else {
                        assert(s[j0 + 1] == old_out[j0]);
                    }
                }
            }
            assert forall|j: int| 0 <= j < s.len() implies exists|i: int|
                n - 1 <= i < all.len() && (#[trigger] s[j]).hex@ == (#[trigger] all[i]).hex@ by {
                if j == pos {
                    assert(s[j].hex@ == all[n - 1].hex@);
                } else {
                    let oj = if j < pos { j } else { j - 1 };
                    assert(s[j] == old_out[oj]);
                    let i0 = choose|i: int| n <= i < all.len() && (#[trigger] old_out[oj]).hex@ == (#[trigger] all[i]).hex@;
                    assert(s[j].hex@ == all[i0].hex@);
                }
            }
        }
    }
    proof {
        assert forall|h: Seq<char>| count_frames(events@, h) > 0 implies exists|i: int|
            0 <= i < out@.len() && (#[trigger] out@[i]).hex@ == h by {
            assert(count_frames(events@, h) > 0);
            assert(has_group(groups@, h));
            let g = choose|i: int| 0 <= i < groups@.len() && (#[trigger] groups@[i]).hex@ == h;
            assert(all[g].hex@ == h);
            assert(has_hex(out@, all[g].hex@));
        }
    }
    out
}

// ---------------------------------------------------------------------------
// Every frame is accounted for once
// ---------------------------------------------------------------------------

/// Frames of the given hex text attributed to the first `n` actions in
/// label order.
pub open spec fn attributed(evs: Seq<Event>, ms: Seq<(u128, Action)>, h: Seq<char>, n: nat) -> nat
    decreases n,
{
    if n == 0 {
        0
    } else {
        attributed(evs, ms, h, (n - 1) as nat) + count_after(evs, ms, h, label_order(n - 1))
    }
}

/// How many of the first `n` actions in label order are `a`.
pub open spec fn label_hits(a: Action, n: nat) -> nat
    decreases n,
{
    if n == 0 {
        0
    } else {
        label_hits(a, (n - 1) as nat) + if label_order(n - 1) == a {
            1nat
        } else {
            0nat
        }
    }
}

proof fn lemma_each_action_listed_once(a: Action)
    ensures
        label_hits(a, 12) == 1,
{
    reveal_with_fuel(label_hits, 13);
}

/// Whether the last event is a frame of text `h` attributed to `a`.
spec fn last_attributed_to(evs: Seq<Event>, ms: Seq<(u128, Action)>, h: Seq<char>, a: Action) -> nat {
    match frame_of(evs.last()) {
        Some(f) => if f.1 == h && (preceding(ms, f.0) matches Some(p) && p.1 == a) {
            1nat
        } else {
            0nat
        },
        None => 0nat,
    }
}

proof fn lemma_attributed_step(evs: Seq<Event>, ms: Seq<(u128, Action)>, h: Seq<char>, n: nat)
    requires
        evs.len() > 0,
    ensures
        attributed(evs, ms, h, n) == attributed(evs.drop_last(), ms, h, n) + match frame_of(
            evs.last(),
        ) {
            Some(f) => match preceding(ms, f.0) {
                Some(p) => if f.1 == h {
                    label_hits(p.1, n)
                } else {
                    0nat
                },
                None => 0nat,
            },
            None => 0nat,
        },
    decreases n,
{
    if n > 0 {
        lemma_attributed_step(evs, ms, h, (n - 1) as nat);
    }
}

proof fn lemma_attributed_nothing(evs: Seq<Event>, ms: Seq<(u128, Action)>, h: Seq<char>, n: nat)
    requires
        evs.len() == 0,
    ensures
        attributed(evs, ms, h, n) == 0,
    decreases n,
{
    if n > 0 {
        lemma_attributed_nothing(evs, ms, h, (n - 1) as nat);
    }
}

proof fn lemma_accounted(evs: Seq<Event>, ms: Seq<(u128, Action)>, h: Seq<char>)
    ensures
        attributed(evs, ms, h, 12) + count_unprompted(evs, ms, h) == count_frames(evs, h),
    decreases evs.len(),
{
    if evs.len() == 0 {
        lemma_attributed_nothing(evs, ms, h, 12);
    } else {
        lemma_accounted(evs.drop_last(), ms, h);
        lemma_attributed_step(evs, ms, h, 12);
        match frame_of(evs.last()) {
            Some(f) => {
                match preceding(ms, f.0) {
                    Some(p) => {
                        lemma_each_action_listed_once(p.1);
                    },
                    None => {},
                }
            },
            None => {},
        }
    }
}

/// Sum of the counts of a `(label, count)` list.
pub open spec fn seen_total(s: Seq<(Seq<char>, nat)>) -> nat
    decreases s.len(),
{
    if s.len() == 0 {
        0
    } else {
        seen_total(s.drop_last()) + s.last().1
    }
}

proof fn lemma_seen_total(evs: Seq<Event>, ms: Seq<(u128, Action)>, h: Seq<char>, n: nat)
    ensures
        seen_total(seen_after_upto(evs, ms, h, n)) == attributed(evs, ms, h, n),
    decreases n,
{
    if n > 0 {
        lemma_seen_total(evs, ms, h, (n - 1) as nat);
        let prev = seen_after_upto(evs, ms, h, (n - 1) as nat);
        let a = label_order(n - 1);
        let c = count_after(evs, ms, h, a);
        if c > 0 {
            assert(prev.push((spec_action_label(a), c)).drop_last() =~= prev);
        }
    }
}

/// Every frame of a pattern is accounted for exactly once: it follows one
/// marked action within the window, or it is unprompted.
pub proof fn law_every_frame_accounted_once(evs: Seq<Event>, p: FramePattern)
    requires
        pattern_correct(evs, p),
    ensures
        seen_total(seen_view(p.seen_after@)) + p.unprompted == p.occurrences,
{
    lemma_seen_total(evs, markers_of(evs), p.hex@, 12);
    lemma_accounted(evs, markers_of(evs), p.hex@);
}

} // verus!
