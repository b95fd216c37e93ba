//! Turning decoded RFCOMM frames into the extract a user can share.
//!
//! A snoop log holds every device the phone talked to; the extract keeps a
//! single address and discards everything else, so it cannot leak traffic
//! of unrelated devices. It groups and counts observed bytes and interprets
//! nothing.

use super::btsnoop::{format_time, records_view, spec_direction_label, spec_format_time, Direction, Record};
use super::stack::{
    acl_buffer, cids_of, frame_view, frames_view, law_channels_registered_only_by_signalling,
    law_frames_only_on_registered_channels, le_u16_at, registered_cids_nonzero, spec_kind_label,
    spec_push, Decoder, DecoderModel, FrameView, RfcommFrame, RfcommFrameKind, H4_ACL,
    L2CAP_CID_SIGNALLING,
};
use crate::text::{
    ascii_render, ascii_string, chars_lt, chars_of, decimal, hex_spaced, hex_string,
    lemma_hex_spaced_ascii, spec_truncate_ascii, truncate_bytes, lemma_truncate_bytes_ascii,
    lemma_seq_lt_asymmetric, lemma_seq_lt_irreflexive, lemma_seq_lt_total,
    lemma_seq_lt_transitive, owned, push_char, push_decimal, push_decimal_right,
    push_hex_spaced, push_str, right_aligned, seq_lt, str_eq, to_uppercase, upper_text,
};
use vstd::prelude::*;

verus! {

/// The decoder's state before any record.
pub open spec fn fresh_model() -> DecoderModel {
    DecoderModel {
        handles: Map::empty(),
        pending: Map::empty(),
        rfcomm_cids: Map::empty(),
        pending_rfcomm: Map::empty(),
    }
}

/// Feeding records one after another: the final state and every frame
/// completed on the way, in order.
pub open spec fn decode_from(m: DecoderModel, recs: Seq<(i64, Direction, Seq<u8>)>) -> (
    DecoderModel,
    Seq<FrameView>,
)
    decreases recs.len(),
{
    if recs.len() == 0 {
        (m, Seq::empty())
    } else {
        let (m1, f1) = decode_from(m, recs.drop_last());
        let (m2, f2) = spec_push(m1, recs.last());
        (m2, f1 + f2)
    }
}

/// Every RFCOMM frame of a log, in order.
pub fn decode_all(records: &[Record]) -> (r: Vec<RfcommFrame>)
    ensures
        frames_view(r@) == decode_from(fresh_model(), records_view(records@)).1,
{
    let mut decoder = Decoder::new();
    let mut frames: Vec<RfcommFrame> = Vec::new();
    let mut i: usize = 0;
    assert(decoder@ =~= fresh_model());
    while i < records.len()
        invariant
            i <= records@.len(),
            (decoder@, frames_view(frames@)) == decode_from(
                fresh_model(),
                records_view(records@.subrange(0, i as int)),
            ),
        decreases records@.len() - i,
    {
        assert(records_view(records@.subrange(0, i + 1)).drop_last() =~= records_view(
            records@.subrange(0, i as int),
        ));
        let mut got = decoder.push(&records[i]);
        let ghost before = frames@;
        let ghost more = got@;
        frames.append(&mut got);
        assert(frames_view(frames@) =~= frames_view(before) + frames_view(more));
        i = i + 1;
    }
    assert(records@.subrange(0, records@.len() as int) =~= records@);
    frames
}

/// A sequence without any occurrence of `c`.
pub open spec fn without_char(s: Seq<char>, c: char) -> Seq<char>
    decreases s.len(),
{
    if s.len() == 0 {
        Seq::empty()
    } else if s.last() == c {
        without_char(s.drop_last(), c)
    } else {
        without_char(s.drop_last(), c).push(s.last())
    }
}

/// An address given on the command line, in the form frames carry it:
/// upper case, without `:` separators.
pub fn normalize_address(arg: &str) -> (r: String)
    ensures
        r@ == without_char(upper_text(arg@), ':'),
{
    let up = to_uppercase(arg);
    let cs = chars_of(up.as_str());
    let mut out = String::new();
    let mut i: usize = 0;
    while i < cs.len()
        invariant
            i <= cs@.len(),
            cs@ == upper_text(arg@),
            out@ == without_char(cs@.subrange(0, i as int), ':'),
        decreases cs@.len() - i,
    {
        assert(cs@.subrange(0, i + 1).drop_last() =~= cs@.subrange(0, i as int));
        if cs[i] != ':' {
            push_char(&mut out, cs[i]);
        }
        i = i + 1;
    }
    assert(cs@.subrange(0, cs@.len() as int) =~= cs@);
    out
}

// ---------------------------------------------------------------------------
// Which devices produced traffic
// ---------------------------------------------------------------------------

/// The address a frame is counted under.
pub open spec fn address_key(f: FrameView) -> Seq<char> {
    match f.2 {
        Some(a) => a,
        None => "unknown"@,
    }
}

/// How many frames are counted under an address.
pub open spec fn count_address(fs: Seq<FrameView>, k: Seq<char>) -> nat
    decreases fs.len(),
{
    if fs.len() == 0 {
        0
    } else {
        count_address(fs.drop_last(), k) + if address_key(fs.last()) == k {
            1nat
        } else {
            0nat
        }
    }
}

pub open spec fn counts_view(s: Seq<(String, usize)>) -> Seq<(Seq<char>, nat)> {
    s.map_values(|p: (String, usize)| (p.0@, p.1 as nat))
}

/// `r` lists every address with traffic once, in address order, with its
/// frame count.
pub open spec fn address_counts(fs: Seq<FrameView>, r: Seq<(Seq<char>, nat)>) -> bool {
    &&& forall|i: int, j: int| 0 <= i < j < r.len() ==> seq_lt(#[trigger] r[i].0, #[trigger] r[j].0)
    &&& forall|i: int|
        0 <= i < r.len() ==> (#[trigger] r[i]).1 == count_address(fs, r[i].0) && r[i].1 > 0
    &&& forall|k: int|
        0 <= k < fs.len() ==> exists|i: int| 0 <= i < r.len() && (#[trigger] r[i]).0 == address_key(#[trigger] fs[k])
}

proof fn lemma_count_absent(fs: Seq<FrameView>, k: Seq<char>)
    requires
        forall|i: int| 0 <= i < fs.len() ==> address_key(#[trigger] fs[i]) != k,
    ensures
        count_address(fs, k) == 0,
    decreases fs.len(),
{
    if fs.len() > 0 {
        assert(address_key(fs[fs.len() - 1]) != k);
        lemma_count_absent(fs.drop_last(), k);
    }
}

fn key_of(f: &RfcommFrame) -> (r: String)
    ensures
        r@ == address_key(frame_view(*f)),
{
    match &f.address {
        Some(a) => a.clone(),
        None => owned("unknown"),
    }
}

fn str_lt(a: &str, b: &str) -> (r: bool)
    ensures
        r == seq_lt(a@, b@),
{
    let x = chars_of(a);
    let y = chars_of(b);
    chars_lt(&x, &y)
}

/// The addresses that produced RFCOMM frames, in address order, each with
/// its frame count (`unknown` for frames whose connection was never seen).
pub fn count_by_address(frames: &[RfcommFrame]) -> (r: Vec<(String, usize)>)
    ensures
        address_counts(frames_view(frames@), counts_view(r@)),
{
    let ghost fs = frames_view(frames@);
    let mut out: Vec<(String, usize)> = Vec::new();
    let mut n: usize = 0;
    assert(counts_view(out@) =~= Seq::<(Seq<char>, nat)>::empty());
    while n < frames.len()
        invariant
            n <= frames@.len(),
            fs == frames_view(frames@),
            address_counts(fs.subrange(0, n as int), counts_view(out@)),
            out@.len() <= n,
        decreases frames@.len() - n,
    {
        let ghost prev = fs.subrange(0, n as int);
        let ghost next = fs.subrange(0, n + 1);
        assert(next.drop_last() =~= prev);
        let key = key_of(&frames[n]);
        let ghost k = key@;
        assert(address_key(next.last()) == k);
        let ghost before = counts_view(out@);
        let mut p: usize = 0;
        while p < out.len() && str_lt(out[p].0.as_str(), key.as_str())
            invariant
                p <= out@.len(),
                counts_view(out@) == before,
                key@ == k,
                forall|j: int| 0 <= j < p ==> seq_lt(#[trigger] before[j].0, k),
            decreases out@.len() - p,
        {
            assert(before[p as int] == (out@[p as int].0@, out@[p as int].1 as nat));
            p = p + 1;
        }
        assert forall|x: Seq<char>| x != k implies count_address(next, x) == count_address(prev, x) by {}
        assert(count_address(next, k) == count_address(prev, k) + 1);
        if p < out.len() && str_eq(out[p].0.as_str(), key.as_str()) {
            let c = out[p].1;
            assert(before[p as int] == (out@[p as int].0@, out@[p as int].1 as nat));
            assert(c == count_address(prev, k));
            assert(c < n + 1) by {
                assert(count_address(prev, k) <= prev.len()) by {
                    lemma_count_bounded(prev, k);
                }
            }
            let name = out[p].0.clone();
            out.set(p, (name, c + 1));
            proof {
                let after = counts_view(out@);
                assert(after =~= before.update(p as int, (k, (c + 1) as nat)));
                assert forall|i: int, j: int| 0 <= i < j < after.len() implies seq_lt(
                    #[trigger] after[i].0,
                    #[trigger] after[j].0,
                ) by {
                    assert(seq_lt(before[i].0, before[j].0));
                }
                assert forall|i: int| 0 <= i < after.len() implies (#[trigger] after[i]).1
                    == count_address(next, after[i].0) && after[i].1 > 0 by {
                    if i != p {
                        assert(before[i].0 != k) by {
                            lemma_seq_lt_irreflexive(k);
                            if i > p {
                                assert(seq_lt(before[p as int].0, before[i].0));
                            }
                        }
                    }
                }
                assert forall|m: int| #![trigger next[m]] 0 <= m < next.len() implies exists|i: int|
                    0 <= i < after.len() && (#[trigger] after[i]).0 == address_key(next[m]) by {
                    if m == n {
                        assert(after[p as int].0 == address_key(next[m]));
                    } else {
                        assert(next[m] == prev[m]);
                        let i = choose|i: int| 0 <= i < before.len() && (#[trigger] before[i]).0 == address_key(prev[m]);
                        assert(after[i].0 == before[i].0);
                    }
                }
            }
        } else {
            proof {
                if p < before.len() {
                    assert(before[p as int] == (out@[p as int].0@, out@[p as int].1 as nat));
                    lemma_seq_lt_total(before[p as int].0, k);
                }
                assert forall|m: int| 0 <= m < prev.len() implies address_key(#[trigger] prev[m]) != k by {
                    assert(prev[m] == fs[m]);
                    let i = choose|i: int| 0 <= i < before.len() && (#[trigger] before[i]).0 == address_key(prev[m]);
                    if i < p {
                        lemma_seq_lt_irreflexive(k);
                    } else {
                        if i > p {
                            assert(seq_lt(before[p as int].0, before[i].0));
                            lemma_seq_lt_transitive(k, before[p as int].0, before[i].0);
                        }
                        lemma_seq_lt_irreflexive(k);
                    }
                }
                lemma_count_absent(prev, k);
            }
            out.insert(p, (key, 1));
            proof {
                let after = counts_view(out@);
                assert(after =~= before.insert(p as int, (k, 1nat)));
                assert forall|i: int, j: int| 0 <= i < j < after.len() implies seq_lt(
                    #[trigger] after[i].0,
                    #[trigger] after[j].0,
                ) by {
                    if j < p {
                        assert(seq_lt(before[i].0, before[j].0));
                    } else if j == p {
                    } else if i < p {
                        if j - 1 > p {
                            assert(seq_lt(before[p as int].0, before[j - 1].0));
                            lemma_seq_lt_transitive(k, before[p as int].0, before[j - 1].0);
                        }
                        lemma_seq_lt_transitive(before[i].0, k, before[j - 1].0);
                    } else if i == p {
                        if j - 1 > p {
                            assert(seq_lt(before[p as int].0, before[j - 1].0));
                            lemma_seq_lt_transitive(k, before[p as int].0, before[j - 1].0);
                        }
                    } else {
                        assert(seq_lt(before[i - 1].0, before[j - 1].0));
                    }
                }
                assert forall|i: int| 0 <= i < after.len() implies (#[trigger] after[i]).1
                    == count_address(next, after[i].0) && after[i].1 > 0 by {
                    if i < p {
                        lemma_seq_lt_irreflexive(k);
                        assert(after[i] == before[i]);
                    } else if i > p {
                        assert(after[i] == before[i - 1]);
                        assert(before[i - 1].0 != k) by {
                            lemma_seq_lt_irreflexive(k);
                            lemma_seq_lt_asymmetric(before[p as int].0, k);
                            if i - 1 > p {
                                assert(seq_lt(before[p as int].0, before[i - 1].0));
                                lemma_seq_lt_transitive(k, before[p as int].0, before[i - 1].0);
                            }
                        }
                    }
                }
                assert forall|m: int| #![trigger next[m]] 0 <= m < next.len() implies exists|i: int|
                    0 <= i < after.len() && (#[trigger] after[i]).0 == address_key(next[m]) by {
                    if m == n {
                        assert(after[p as int].0 == address_key(next[m]));
                    } else {
                        assert(next[m] == prev[m]);
                        let i = choose|i: int| 0 <= i < before.len() && (#[trigger] before[i]).0 == address_key(prev[m]);
                        if i < p {
                            assert(after[i].0 == before[i].0);
                        } else {
                            assert(after[i + 1].0 == before[i].0);
                        }
                    }
                }
            }
        }
        n = n + 1;
    }
    assert(fs.subrange(0, frames@.len() as int) =~= fs);
    out
}

proof fn lemma_count_bounded(fs: Seq<FrameView>, k: Seq<char>)
    ensures
        count_address(fs, k) <= fs.len(),
    decreases fs.len(),
{
    if fs.len() > 0 {
        lemma_count_bounded(fs.drop_last(), k);
    }
}

/// The address with the most frames, ignoring `unknown`; among equals the
/// last in address order wins (as `Iterator::max_by_key` keeps the last
/// maximum).
pub open spec fn busiest(s: Seq<(Seq<char>, nat)>) -> Option<(Seq<char>, nat)>
    decreases s.len(),
{
    if s.len() == 0 {
        None
    } else {
        let b = busiest(s.drop_last());
        let e = s.last();
        if e.0 == "unknown"@ {
            b
        } else {
            match b {
                None => Some(e),
                Some(x) => if e.1 >= x.1 {
                    Some(e)
                } else {
                    b
                },
            }
        }
    }
}

/// The device to report on: the one asked for, or else the busiest.
pub fn select_target(filter: Option<String>, counts: &[(String, usize)]) -> (r: Option<String>)
    ensures
        match filter {
            Some(a) => r == Some(a),
            None => match busiest(counts_view(counts@)) {
                Some(b) => r matches Some(t) && t@ == b.0,
                None => r is None,
            },
        },
{
    if let Some(a) = filter {
        return Some(a);
    }
    let ghost cv = counts_view(counts@);
    let mut best: Option<usize> = None;
    let mut i: usize = 0;
    while i < counts.len()
        invariant
            i <= counts@.len(),
            cv == counts_view(counts@),
            match best {
                Some(b) => b < i && busiest(cv.subrange(0, i as int)) == Some(cv[b as int]),
                None => busiest(cv.subrange(0, i as int)) is None,
            },
        decreases counts@.len() - i,
    {
        assert(cv.subrange(0, i + 1).drop_last() =~= cv.subrange(0, i as int));
        if !str_eq(counts[i].0.as_str(), "unknown") {
            match best {
                None => {
                    best = Some(i);
                },
                Some(b) => {
                    if counts[i].1 >= counts[b].1 {
                        best = Some(i);
                    }
                },
            }
        }
        i = i + 1;
    }
    assert(cv.subrange(0, counts@.len() as int) =~= cv);
    match best {
        Some(b) => Some(counts[b].0.clone()),
        None => None,
    }
}


// ---------------------------------------------------------------------------
// The extract
// ---------------------------------------------------------------------------

/// The closing section of every extract: it interprets nothing.
pub const EXTRACT_INTERPRETATION: &'static str = "\nINTERPRETATION\n--------------\nNone. This report groups and counts observed bytes and nothing more.\n\nA recurring prefix is not necessarily an opcode, a differing byte is\nnot necessarily a parameter, and a frame sent near an action is not\nproof that it encodes that action. Assigning meaning requires\ncorrelating several captures of deliberately varied single actions.\n\nCapability statuses must NOT be changed on the strength of this file\nalone, and nothing here authorises transmitting anything to the\ndevice.\n";

/// The frames of one device.
pub open spec fn for_address(fs: Seq<FrameView>, address: Seq<char>) -> Seq<FrameView>
    decreases fs.len(),
{
    if fs.len() == 0 {
        Seq::empty()
    } else if fs.last().2 == Some(address) {
        for_address(fs.drop_last(), address).push(fs.last())
    } else {
        for_address(fs.drop_last(), address)
    }
}

/// Whether a frame carries application payload (the rest is link setup).
pub open spec fn carries_payload(f: FrameView) -> bool {
    f.4 == RfcommFrameKind::Uih && f.5.len() > 0
}

pub open spec fn payload_frames(fs: Seq<FrameView>) -> Seq<FrameView>
    decreases fs.len(),
{
    if fs.len() == 0 {
        Seq::empty()
    } else if carries_payload(fs.last()) {
        payload_frames(fs.drop_last()).push(fs.last())
    } else {
        payload_frames(fs.drop_last())
    }
}

/// Time, direction and DLCI, as every frame line starts.
pub open spec fn frame_lead(f: FrameView) -> Seq<char> {
    "  "@ + spec_format_time(f.0) + "  "@ + spec_direction_label(f.1) + "  DLCI "@
        + right_aligned(decimal(f.3 as nat), 2)
}

pub open spec fn link_lines(fs: Seq<FrameView>) -> Seq<char>
    decreases fs.len(),
{
    if fs.len() == 0 {
        Seq::empty()
    } else if fs.last().4 != RfcommFrameKind::Uih {
        link_lines(fs.drop_last()) + frame_lead(fs.last()) + "  "@ + spec_kind_label(fs.last().4)
            + "\n"@
    } else {
        link_lines(fs.drop_last())
    }
}

pub open spec fn payload_line(f: FrameView) -> Seq<char> {
    frame_lead(f) + "  "@ + right_aligned(decimal(f.5.len()), 3) + "B  "@ + hex_spaced(f.5)
        + "  |"@ + ascii_render(f.5) + "|\n"@
}

pub open spec fn payload_lines(fs: Seq<FrameView>) -> Seq<char>
    decreases fs.len(),
{
    if fs.len() == 0 {
        Seq::empty()
    } else {
        payload_lines(fs.drop_last()) + payload_line(fs.last())
    }
}

/// How many frames travel on a DLCI.
pub open spec fn count_dlci(fs: Seq<FrameView>, d: u8) -> nat
    decreases fs.len(),
{
    if fs.len() == 0 {
        0
    } else {
        count_dlci(fs.drop_last(), d) + if fs.last().3 == d {
            1nat
        } else {
            0nat
        }
    }
}

/// One line per DLCI below `upto` that carried frames, in DLCI order,
/// with `suffix` after the count.
pub open spec fn dlci_lines(fs: Seq<FrameView>, upto: nat, suffix: Seq<char>) -> Seq<char>
    decreases upto,
{
    if upto == 0 {
        Seq::empty()
    } else {
        let d = (upto - 1) as u8;
        dlci_lines(fs, (upto - 1) as nat, suffix) + if count_dlci(fs, d) > 0 {
            "  DLCI "@ + right_aligned(decimal(d as nat), 2) + " : "@ + decimal(count_dlci(fs, d))
                + suffix
        } else {
            Seq::empty()
        }
    }
}

/// The grouping key of a payload: its first (up to) four bytes in hex.
pub open spec fn prefix_key(f: FrameView) -> Seq<char> {
    hex_spaced(if f.5.len() <= 4 {
        f.5
    } else {
        f.5.subrange(0, 4)
    })
}

pub open spec fn count_prefix(fs: Seq<FrameView>, k: Seq<char>) -> nat
    decreases fs.len(),
{
    if fs.len() == 0 {
        0
    } else {
        count_prefix(fs.drop_last(), k) + if prefix_key(fs.last()) == k {
            1nat
        } else {
            0nat
        }
    }
}

/// Whether some entry has the key.
pub open spec fn has_key(r: Seq<(Seq<char>, nat)>, key: Seq<char>) -> bool {
    exists|i: int| 0 <= i < r.len() && r[i].0 == key
}

/// `a` ranks before `b`: more frequent first, ties in key order.
pub open spec fn ranks_before(a: (Seq<char>, nat), b: (Seq<char>, nat)) -> bool {
    a.1 > b.1 || (a.1 == b.1 && seq_lt(a.0, b.0))
}

/// `r` lists every prefix once with its count, most frequent first and
/// ties in key order.
pub open spec fn prefix_ranking(fs: Seq<FrameView>, r: Seq<(Seq<char>, nat)>) -> bool {
    &&& forall|i: int, j: int|
        0 <= i < j < r.len() ==> ranks_before(#[trigger] r[i], #[trigger] r[j])
    &&& forall|i: int|
        0 <= i < r.len() ==> (#[trigger] r[i]).1 == count_prefix(fs, r[i].0) && r[i].1 > 0
    &&& forall|k: int| 0 <= k < fs.len() ==> has_key(r, prefix_key(#[trigger] fs[k]))
}

pub open spec fn prefix_lines(r: Seq<(Seq<char>, nat)>) -> Seq<char>
    decreases r.len(),
{
    if r.len() == 0 {
        Seq::empty()
    } else {
        prefix_lines(r.drop_last()) + "  "@ + r.last().0 + "  x"@ + decimal(r.last().1) + "\n"@
    }
}

/// The first `n` entries (all of them if there are fewer).
pub open spec fn first_n<T>(s: Seq<T>, n: nat) -> Seq<T> {
    if s.len() <= n {
        s
    } else {
        s.subrange(0, n as int)
    }
}

/// The text extract for one device, given the ranking of its payload
/// prefixes.
pub open spec fn extract_text(
    all: Seq<FrameView>,
    address: Seq<char>,
    ranking: Seq<(Seq<char>, nat)>,
) -> Seq<char> {
    let mine = for_address(all, address);
    let data = payload_frames(mine);
    "BOSE btsnoop RFCOMM EXTRACT\n===========================\n\n"@ + ("Device        : "@
        + address + "\n"@) + ("RFCOMM frames : "@ + decimal(mine.len()) + "\n"@) + (
    "With payload  : "@ + decimal(data.len()) + "\n\n"@)
        + "Only traffic for the device above is included. Every other device in\nthe source log was discarded.\n\n"@
        + ("LINK EVENTS\n-----------\n"@ + link_lines(mine)) + (
    "\nPAYLOAD FRAMES\n--------------\n"@ + payload_lines(data)) + (
    "\nPAYLOAD FRAMES PER DLCI\n-----------------------\n"@ + dlci_lines(data, 256, " frames\n"@))
        + ("\nMOST COMMON 4-BYTE PREFIXES\n---------------------------\n"@ + prefix_lines(
        first_n(ranking, 25),
    )) + EXTRACT_INTERPRETATION@
}

fn copy_frame(f: &RfcommFrame) -> (r: RfcommFrame)
    ensures
        frame_view(r) == frame_view(*f),
{
    RfcommFrame {
        timestamp_us: f.timestamp_us,
        direction: f.direction,
        address: match &f.address {
            Some(a) => Some(a.clone()),
            None => None,
        },
        dlci: f.dlci,
        kind: f.kind,
        payload: vstd::slice::slice_to_vec(f.payload.as_slice()),
    }
}

/// The frames of one device, in order.
pub fn frames_for(frames: &[RfcommFrame], address: &str) -> (r: Vec<RfcommFrame>)
    ensures
        frames_view(r@) == for_address(frames_view(frames@), address@),
{
    let mut out: Vec<RfcommFrame> = Vec::new();
    let mut i: usize = 0;
    while i < frames.len()
        invariant
            i <= frames@.len(),
            frames_view(out@) == for_address(frames_view(frames@.subrange(0, i as int)), address@),
        decreases frames@.len() - i,
    {
        assert(frames_view(frames@.subrange(0, i + 1)).drop_last() =~= frames_view(
            frames@.subrange(0, i as int),
        ));
        let f = &frames[i];
        let mine = match &f.address {
            Some(a) => str_eq(a.as_str(), address),
            None => false,
        };
        if mine {
            let ghost before = out@;
            out.push(copy_frame(f));
            assert(frames_view(out@) =~= frames_view(before).push(frame_view(*f)));
        }
        i = i + 1;
    }
    assert(frames@.subrange(0, frames@.len() as int) =~= frames@);
    out
}

/// The payload-bearing frames, in order.
pub fn payload_only(frames: &[RfcommFrame]) -> (r: Vec<RfcommFrame>)
    ensures
        frames_view(r@) == payload_frames(frames_view(frames@)),
{
    let mut out: Vec<RfcommFrame> = Vec::new();
    let mut i: usize = 0;
    while i < frames.len()
        invariant
            i <= frames@.len(),
            frames_view(out@) == payload_frames(frames_view(frames@.subrange(0, i as int))),
        decreases frames@.len() - i,
    {
        assert(frames_view(frames@.subrange(0, i + 1)).drop_last() =~= frames_view(
            frames@.subrange(0, i as int),
        ));
        let f = &frames[i];
        if f.kind == RfcommFrameKind::Uih && f.payload.len() > 0 {
            let ghost before = out@;
            out.push(copy_frame(f));
            assert(frames_view(out@) =~= frames_view(before).push(frame_view(*f)));
        }
        i = i + 1;
    }
    assert(frames@.subrange(0, frames@.len() as int) =~= frames@);
    out
}

fn push_frame_lead(out: &mut String, f: &RfcommFrame)
    ensures
        final(out)@ == old(out)@ + frame_lead(frame_view(*f)),
{
    let ghost s0 = out@;
    push_str(out, "  ");
    let t = format_time(f.timestamp_us);
    push_str(out, t.as_str());
    push_str(out, "  ");
    push_str(out, f.direction.label());
    push_str(out, "  DLCI ");
    push_decimal_right(out, f.dlci as u128, 2);
    assert(out@ =~= s0 + frame_lead(frame_view(*f)));
}

fn push_link_lines(out: &mut String, frames: &[RfcommFrame])
    ensures
        final(out)@ == old(out)@ + link_lines(frames_view(frames@)),
{
    let ghost s0 = out@;
    let mut i: usize = 0;
    while i < frames.len()
        invariant
            i <= frames@.len(),
            out@ == s0 + link_lines(frames_view(frames@.subrange(0, i as int))),
        decreases frames@.len() - i,
    {
        assert(frames_view(frames@.subrange(0, i + 1)).drop_last() =~= frames_view(
            frames@.subrange(0, i as int),
        ));
        let f = &frames[i];
        if f.kind != RfcommFrameKind::Uih {
            let ghost s1 = out@;
            push_frame_lead(out, f);
            push_str(out, "  ");
            let k = f.kind.label();
            push_str(out, k.as_str());
            push_str(out, "\n");
            assert(out@ =~= s1 + (frame_lead(frame_view(*f)) + "  "@ + spec_kind_label(f.kind)
                + "\n"@));
        }
        i = i + 1;
    }
    assert(frames@.subrange(0, frames@.len() as int) =~= frames@);
}

fn push_payload_line(out: &mut String, f: &RfcommFrame)
    ensures
        final(out)@ == old(out)@ + payload_line(frame_view(*f)),
{
    let ghost s0 = out@;
    push_frame_lead(out, f);
    push_str(out, "  ");
    push_decimal_right(out, f.payload.len() as u128, 3);
    push_str(out, "B  ");
    push_hex_spaced(out, f.payload.as_slice());
    push_str(out, "  |");
    let a = ascii_string(f.payload.as_slice());
    push_str(out, a.as_str());
    push_str(out, "|\n");
    assert(out@ =~= s0 + payload_line(frame_view(*f)));
}

fn push_payload_lines(out: &mut String, frames: &[RfcommFrame])
    ensures
        final(out)@ == old(out)@ + payload_lines(frames_view(frames@)),
{
    let ghost s0 = out@;
    let mut i: usize = 0;
    while i < frames.len()
        invariant
            i <= frames@.len(),
            out@ == s0 + payload_lines(frames_view(frames@.subrange(0, i as int))),
        decreases frames@.len() - i,
    {
        assert(frames_view(frames@.subrange(0, i + 1)).drop_last() =~= frames_view(
            frames@.subrange(0, i as int),
        ));
        push_payload_line(out, &frames[i]);
        i = i + 1;
    }
    assert(frames@.subrange(0, frames@.len() as int) =~= frames@);
}

proof fn lemma_count_dlci_bounded(fs: Seq<FrameView>, d: u8)
    ensures
        count_dlci(fs, d) <= fs.len(),
    decreases fs.len(),
{
    if fs.len() > 0 {
        lemma_count_dlci_bounded(fs.drop_last(), d);
    }
}

/// Frame counts per DLCI, indexed by DLCI.
fn dlci_counts(frames: &[RfcommFrame]) -> (r: Vec<usize>)
    ensures
        r@.len() == 256,
        forall|d: int| 0 <= d < 256 ==> r@[d] == count_dlci(frames_view(frames@), d as u8),
{
    let mut counts: Vec<usize> = Vec::new();
    let mut d: usize = 0;
    while d < 256
        invariant
            d <= 256,
            counts@.len() == d,
            forall|k: int| 0 <= k < d ==> counts@[k] == 0,
        decreases 256 - d,
    {
        counts.push(0);
        d = d + 1;
    }
    let mut i: usize = 0;
    while i < frames.len()
        invariant
            i <= frames@.len(),
            counts@.len() == 256,
            forall|k: int|
                0 <= k < 256 ==> counts@[k] == count_dlci(
                    frames_view(frames@.subrange(0, i as int)),
                    k as u8,
                ),
        decreases frames@.len() - i,
    {
        let ghost prev = frames_view(frames@.subrange(0, i as int));
        assert(frames_view(frames@.subrange(0, i + 1)).drop_last() =~= prev);
        let x = frames[i].dlci as usize;
        proof {
            lemma_count_dlci_bounded(prev, x as u8);
        }
        let c = counts[x];
        counts.set(x, c + 1);
        proof {
            assert forall|k: int| 0 <= k < 256 implies counts@[k] == count_dlci(
                frames_view(frames@.subrange(0, i + 1)),
                k as u8,
            ) by {
                assert((k as u8) as int == k);
            }
        }
        i = i + 1;
    }
    assert(frames@.subrange(0, frames@.len() as int) =~= frames@);
    counts
}

/// Appends the per-DLCI lines, each ending with `suffix`.
fn push_dlci_lines(out: &mut String, frames: &[RfcommFrame], suffix: &str)
    ensures
        final(out)@ == old(out)@ + dlci_lines(frames_view(frames@), 256, suffix@),
{
    let counts = dlci_counts(frames);
    let ghost s0 = out@;
    let mut d: usize = 0;
    while d < 256
        invariant
            d <= 256,
            counts@.len() == 256,
            forall|k: int| 0 <= k < 256 ==> counts@[k] == count_dlci(frames_view(frames@), k as u8),
            out@ == s0 + dlci_lines(frames_view(frames@), d as nat, suffix@),
        decreases 256 - d,
    {
        let n = counts[d];
        assert(((d + 1 - 1) as u8) as int == d);
        if n > 0 {
            let ghost s1 = out@;
            push_str(out, "  DLCI ");
            push_decimal_right(out, d as u128, 2);
            push_str(out, " : ");
            push_decimal(out, n as u128);
            push_str(out, suffix);
            assert(out@ =~= s1 + ("  DLCI "@ + right_aligned(decimal(d as nat), 2) + " : "@
                + decimal(n as nat) + suffix@));
        }
        d = d + 1;
    }
}

proof fn lemma_rank_transitive(a: (Seq<char>, nat), b: (Seq<char>, nat), c: (Seq<char>, nat))
    requires
        ranks_before(a, b),
        ranks_before(b, c),
    ensures
        ranks_before(a, c),
{
    if a.1 == b.1 && b.1 == c.1 {
        lemma_seq_lt_transitive(a.0, b.0, c.0);
    }
}

proof fn lemma_rank_total(a: (Seq<char>, nat), b: (Seq<char>, nat))
    requires
        a.0 != b.0,
    ensures
        ranks_before(a, b) || ranks_before(b, a),
{
    lemma_seq_lt_total(a.0, b.0);
}

/// Distinct prefixes with their counts, in the order first seen.
pub open spec fn prefix_tally(fs: Seq<FrameView>, r: Seq<(Seq<char>, nat)>) -> bool {
    &&& forall|i: int, j: int| 0 <= i < j < r.len() ==> (#[trigger] r[i]).0 != (#[trigger] r[j]).0
    &&& forall|i: int|
        0 <= i < r.len() ==> (#[trigger] r[i]).1 == count_prefix(fs, r[i].0) && r[i].1 > 0
    &&& forall|k: int| 0 <= k < fs.len() ==> has_key(r, prefix_key(#[trigger] fs[k]))
}

proof fn lemma_count_prefix_absent(fs: Seq<FrameView>, k: Seq<char>)
    requires
        forall|i: int| 0 <= i < fs.len() ==> prefix_key(#[trigger] fs[i]) != k,
    ensures
        count_prefix(fs, k) == 0,
    decreases fs.len(),
{
    if fs.len() > 0 {
        assert(prefix_key(fs[fs.len() - 1]) != k);
        lemma_count_prefix_absent(fs.drop_last(), k);
    }
}

proof fn lemma_count_prefix_bounded(fs: Seq<FrameView>, k: Seq<char>)
    ensures
        count_prefix(fs, k) <= fs.len(),
    decreases fs.len(),
{
    if fs.len() > 0 {
        lemma_count_prefix_bounded(fs.drop_last(), k);
    }
}

fn prefix_string(f: &RfcommFrame) -> (r: String)
    ensures
        r@ == prefix_key(frame_view(*f)),
{
    let n = if f.payload.len() <= 4 {
        f.payload.len()
    } else {
        4
    };
    let head = vstd::slice::slice_subrange(f.payload.as_slice(), 0, n);
    proof {
        if f.payload@.len() <= 4 {
            assert(head@ =~= f.payload@);
        }
    }
    hex_string(head)
}

/// Tallies the payload prefixes.
fn tally_prefixes(frames: &[RfcommFrame]) -> (r: Vec<(String, usize)>)
    ensures
        prefix_tally(frames_view(frames@), counts_view(r@)),
{
    let ghost fs = frames_view(frames@);
    let mut out: Vec<(String, usize)> = Vec::new();
    let mut n: usize = 0;
    assert(counts_view(out@) =~= Seq::<(Seq<char>, nat)>::empty());
    while n < frames.len()
        invariant
            n <= frames@.len(),
            fs == frames_view(frames@),
            prefix_tally(fs.subrange(0, n as int), counts_view(out@)),
        decreases frames@.len() - n,
    {
        let ghost prev = fs.subrange(0, n as int);
        let ghost next = fs.subrange(0, n + 1);
        assert(next.drop_last() =~= prev);
        let key = prefix_string(&frames[n]);
        let ghost k = key@;
        assert(prefix_key(next.last()) == k);
        let ghost before = counts_view(out@);
        let mut p: usize = 0;
        let mut found = false;
        while p < out.len()
            invariant_except_break
                !found,
            invariant
                p <= out@.len(),
                counts_view(out@) == before,
                key@ == k,
                forall|j: int| 0 <= j < p ==> (#[trigger] before[j]).0 != k,
            ensures
                found ==> p < out@.len() && before[p as int].0 == k,
                !found ==> p == out@.len(),
            decreases out@.len() - p,
        {
            assert(before[p as int] == (out@[p as int].0@, out@[p as int].1 as nat));
            if str_eq(out[p].0.as_str(), key.as_str()) {
                found = true;
                break;
            }
            p = p + 1;
        }
        assert forall|x: Seq<char>| x != k implies count_prefix(next, x) == count_prefix(prev, x) by {}
        assert(count_prefix(next, k) == count_prefix(prev, k) + 1);
        if found {
            let c = out[p].1;
            assert(before[p as int] == (out@[p as int].0@, out@[p as int].1 as nat));
            proof {
                lemma_count_prefix_bounded(prev, k);
            }
            let name = out[p].0.clone();
            out.set(p, (name, c + 1));
            proof {
                let after = counts_view(out@);
                assert(after =~= before.update(p as int, (k, (c + 1) as nat)));
                assert forall|m: int| 0 <= m < next.len() implies has_key(after, prefix_key(#[trigger] next[m])) by {
                    if m == n {
                        assert(after[p as int].0 == prefix_key(next[m]));
                    } else {
                        assert(next[m] == prev[m]);
                        assert(has_key(before, prefix_key(prev[m])));
                        let i = choose|i: int| 0 <= i < before.len() && before[i].0 == prefix_key(prev[m]);
                        assert(after[i].0 == before[i].0);
                    }
                }
            }
        } else {
            proof {
                assert forall|m: int| 0 <= m < prev.len() implies prefix_key(#[trigger] prev[m]) != k by {
                    assert(prev[m] == fs[m]);
                    assert(has_key(before, prefix_key(prev[m])));
                    let i = choose|i: int| 0 <= i < before.len() && before[i].0 == prefix_key(prev[m]);
                }
                lemma_count_prefix_absent(prev, k);
            }
            out.push((key, 1));
            proof {
                let after = counts_view(out@);
                assert(after =~= before.push((k, 1nat)));
                assert forall|m: int| 0 <= m < next.len() implies has_key(after, prefix_key(#[trigger] next[m])) by {
                    if m == n {
                        assert(after[before.len() as int].0 == prefix_key(next[m]));
                    } else {
                        assert(next[m] == prev[m]);
                        assert(has_key(before, prefix_key(prev[m])));
                        let i = choose|i: int| 0 <= i < before.len() && before[i].0 == prefix_key(prev[m]);
                        assert(after[i].0 == before[i].0);
                    }
                }
            }
        }
        n = n + 1;
    }
    assert(fs.subrange(0, frames@.len() as int) =~= fs);
    out
}

/// Strictly ranked.
pub open spec fn ranked(s: Seq<(Seq<char>, nat)>) -> bool {
    forall|i: int, j: int| 0 <= i < j < s.len() ==> ranks_before(#[trigger] s[i], #[trigger] s[j])
}

/// Every entry of `a` is an entry of `b`.
pub open spec fn covered_by(a: Seq<(Seq<char>, nat)>, b: Seq<(Seq<char>, nat)>) -> bool {
    forall|i: int| 0 <= i < a.len() ==> b.contains(#[trigger] a[i])
}

proof fn lemma_insert_ranked(before: Seq<(Seq<char>, nat)>, e: (Seq<char>, nat), p: int)
    requires
        ranked(before),
        0 <= p <= before.len(),
        forall|j: int| 0 <= j < p ==> ranks_before(#[trigger] before[j], e),
        p < before.len() ==> ranks_before(e, before[p]),
    ensures
        ranked(before.insert(p, e)),
{
    let after = before.insert(p, e);
    assert forall|i: int, j: int| 0 <= i < j < after.len() implies ranks_before(
        #[trigger] after[i],
        #[trigger] after[j],
    ) by {
        if j < p {
            assert(after[i] == before[i] && after[j] == before[j]);
        } else if j == p {
            assert(after[i] == before[i]);
        } else if i < p {
            assert(after[i] == before[i] && after[j] == before[j - 1]);
            if j - 1 > p {
                lemma_rank_transitive(e, before[p], before[j - 1]);
            }
            lemma_rank_transitive(before[i], e, before[j - 1]);
        } else if i == p {
            assert(after[j] == before[j - 1]);
            if j - 1 > p {
                lemma_rank_transitive(e, before[p], before[j - 1]);
            }
        } else {
            assert(after[i] == before[i - 1] && after[j] == before[j - 1]);
        }
    }
}

proof fn lemma_insert_covers(
    before: Seq<(Seq<char>, nat)>,
    e: (Seq<char>, nat),
    p: int,
    tv: Seq<(Seq<char>, nat)>,
    m: int,
)
    requires
        0 <= p <= before.len(),
        0 <= m < tv.len(),
        tv[m] == e,
        covered_by(before, tv.subrange(0, m)),
        covered_by(tv.subrange(0, m), before),
    ensures
        covered_by(before.insert(p, e), tv.subrange(0, m + 1)),
        covered_by(tv.subrange(0, m + 1), before.insert(p, e)),
{
    let after = before.insert(p, e);
    let old_t = tv.subrange(0, m);
    let new_t = tv.subrange(0, m + 1);
    assert forall|i: int| 0 <= i < after.len() implies new_t.contains(#[trigger] after[i]) by {
        if i == p {
            assert(new_t[m] == after[i]);
        } else {
            let x = if i < p {
                before[i]
            } else {
                before[i - 1]
            };
            assert(after[i] == x);
            assert(old_t.contains(x));
            let t = choose|t: int| 0 <= t < old_t.len() && old_t[t] == x;
            assert(new_t[t] == x);
        }
    }
    assert forall|t: int| 0 <= t < new_t.len() implies after.contains(#[trigger] new_t[t]) by {
        if t == m {
            assert(after[p] == new_t[t]);
        } else {
            assert(new_t[t] == old_t[t]);
            assert(before.contains(old_t[t]));
            let i = choose|i: int| 0 <= i < before.len() && before[i] == old_t[t];
            if i < p {
                assert(after[i] == new_t[t]);
            } else {
                assert(after[i + 1] == new_t[t]);
            }
        }
    }
}

proof fn lemma_coverage_moves(fs: Seq<FrameView>, tv: Seq<(Seq<char>, nat)>, sv: Seq<(Seq<char>, nat)>)
    requires
        prefix_tally(fs, tv),
        covered_by(tv, sv),
    ensures
        forall|k: int| 0 <= k < fs.len() ==> has_key(sv, prefix_key(#[trigger] fs[k])),
{
    assert forall|k: int| 0 <= k < fs.len() implies has_key(sv, prefix_key(#[trigger] fs[k])) by {
        assert(has_key(tv, prefix_key(fs[k])));
        let t = choose|t: int| 0 <= t < tv.len() && tv[t].0 == prefix_key(fs[k]);
        assert(sv.contains(tv[t]));
        let w = choose|w: int| 0 <= w < sv.len() && sv[w] == tv[t];
        assert(sv[w].0 == prefix_key(fs[k]));
    }
}

/// The payload prefixes, most frequent first, ties in key order.
pub fn rank_prefixes(frames: &[RfcommFrame]) -> (r: Vec<(String, usize)>)
    ensures
        prefix_ranking(frames_view(frames@), counts_view(r@)),
{
    let ghost fs = frames_view(frames@);
    let tally = tally_prefixes(frames);
    let ghost tv = counts_view(tally@);
    let mut sorted: Vec<(String, usize)> = Vec::new();
    let mut m: usize = 0;
    assert(counts_view(sorted@) =~= Seq::<(Seq<char>, nat)>::empty());
    assert(tv.subrange(0, 0) =~= Seq::<(Seq<char>, nat)>::empty());
    while m < tally.len()
        invariant
            m <= tally@.len(),
            tv == counts_view(tally@),
            prefix_tally(fs, tv),
            ranked(counts_view(sorted@)),
            covered_by(counts_view(sorted@), tv.subrange(0, m as int)),
            covered_by(tv.subrange(0, m as int), counts_view(sorted@)),
        decreases tally@.len() - m,
    {
        let ghost before = counts_view(sorted@);
        let e_name = tally[m].0.clone();
        let e_count = tally[m].1;
        let ghost e = (e_name@, e_count as nat);
        assert(tv[m as int] == e);
        let mut p: usize = 0;
        while p < sorted.len() && (sorted[p].1 > e_count || (sorted[p].1 == e_count && str_lt(
            sorted[p].0.as_str(),
            e_name.as_str(),
        )))
            invariant
                p <= sorted@.len(),
                counts_view(sorted@) == before,
                e_name@ == e.0,
                e_count == e.1,
                forall|j: int| 0 <= j < p ==> ranks_before(#[trigger] before[j], e),
            decreases sorted@.len() - p,
        {
            assert(before[p as int] == (sorted@[p as int].0@, sorted@[p as int].1 as nat));
            p = p + 1;
        }
        proof {
            if p < before.len() {
                assert(before[p as int] == (sorted@[p as int].0@, sorted@[p as int].1 as nat));
                assert(tv.subrange(0, m as int).contains(before[p as int]));
                let t = choose|t: int| 0 <= t < m && tv.subrange(0, m as int)[t] == before[p as int];
                assert(tv[t] == before[p as int]);
                assert(tv[t].0 != tv[m as int].0);
                lemma_rank_total(before[p as int], e);
            }
            lemma_insert_ranked(before, e, p as int);
            lemma_insert_covers(before, e, p as int, tv, m as int);
        }
        sorted.insert(p, (e_name, e_count));
        assert(counts_view(sorted@) =~= before.insert(p as int, e));
        m = m + 1;
    }
    proof {
        let sv = counts_view(sorted@);
        assert(tv.subrange(0, tally@.len() as int) =~= tv);
        assert forall|i: int| 0 <= i < sv.len() implies (#[trigger] sv[i]).1 == count_prefix(
            fs,
            sv[i].0,
        ) && sv[i].1 > 0 by {
            assert(tv.contains(sv[i]));
            let t = choose|t: int| 0 <= t < tv.len() && tv[t] == sv[i];
            assert(tv[t] == sv[i]);
        }
        lemma_coverage_moves(fs, tv, sv);
        assert(ranked(sv));
        assert(prefix_ranking(fs, sv));
    }
    sorted
}

fn push_prefix_lines(out: &mut String, ranking: &[(String, usize)], limit: usize)
    ensures
        final(out)@ == old(out)@ + prefix_lines(first_n(counts_view(ranking@), limit as nat)),
{
    let ghost s0 = out@;
    let n = if ranking.len() <= limit {
        ranking.len()
    } else {
        limit
    };
    let ghost rv = counts_view(ranking@);
    let ghost want = first_n(rv, limit as nat);
    assert(want.len() == n);
    let mut i: usize = 0;
    while i < n
        invariant
            i <= n,
            n == want.len(),
            n <= ranking@.len(),
            rv == counts_view(ranking@),
            want == first_n(rv, limit as nat),
            out@ == s0 + prefix_lines(want.subrange(0, i as int)),
        decreases n - i,
    {
        assert(want.subrange(0, i + 1).drop_last() =~= want.subrange(0, i as int));
        assert(want[i as int] == rv[i as int]);
        push_str(out, "  ");
        push_str(out, ranking[i].0.as_str());
        push_str(out, "  x");
        push_decimal(out, ranking[i].1 as u128);
        push_str(out, "\n");
        i = i + 1;
    }
    assert(want.subrange(0, n as int) =~= want);
}

/// The text extract for one device.
pub fn extract(frames: &[RfcommFrame], address: &str) -> (r: String)
    ensures
        exists|ranking: Seq<(Seq<char>, nat)>|
            prefix_ranking(payload_frames(for_address(frames_view(frames@), address@)), ranking)
                && r@ == extract_text(frames_view(frames@), address@, ranking),
{
    let mine = frames_for(frames, address);
    let data = payload_only(mine.as_slice());
    let mut t = String::new();
    push_str(&mut t, "BOSE btsnoop RFCOMM EXTRACT\n===========================\n\n");
    push_str(&mut t, "Device        : ");
    push_str(&mut t, address);
    push_str(&mut t, "\n");
    push_str(&mut t, "RFCOMM frames : ");
    push_decimal(&mut t, mine.len() as u128);
    push_str(&mut t, "\n");
    push_str(&mut t, "With payload  : ");
    push_decimal(&mut t, data.len() as u128);
    push_str(&mut t, "\n\n");
    push_str(
        &mut t,
        "Only traffic for the device above is included. Every other device in\nthe source log was discarded.\n\n",
    );
    let ghost s1 = t@;
    push_str(&mut t, "LINK EVENTS\n-----------\n");
    push_link_lines(&mut t, mine.as_slice());
    let ghost s2 = t@;
    push_str(&mut t, "\nPAYLOAD FRAMES\n--------------\n");
    push_payload_lines(&mut t, data.as_slice());
    let ghost s3 = t@;
    push_str(&mut t, "\nPAYLOAD FRAMES PER DLCI\n-----------------------\n");
    push_dlci_lines(&mut t, data.as_slice(), " frames\n");
    let ghost s4 = t@;
    push_str(&mut t, "\nMOST COMMON 4-BYTE PREFIXES\n---------------------------\n");
    let ranking = rank_prefixes(data.as_slice());
    push_prefix_lines(&mut t, ranking.as_slice(), 25);
    let ghost s5 = t@;
    push_str(&mut t, EXTRACT_INTERPRETATION);
    proof {
        let all = frames_view(frames@);
        let mine_v = for_address(all, address@);
        let data_v = payload_frames(mine_v);
        assert(s2 =~= s1 + ("LINK EVENTS\n-----------\n"@ + link_lines(mine_v)));
        assert(s3 =~= s2 + ("\nPAYLOAD FRAMES\n--------------\n"@ + payload_lines(data_v)));
        assert(s4 =~= s3 + ("\nPAYLOAD FRAMES PER DLCI\n-----------------------\n"@ + dlci_lines(
            data_v,
            256,
            " frames\n"@,
        )));
        assert(t@ =~= extract_text(all, address@, counts_view(ranking@)));
    }
    t
}

// ---------------------------------------------------------------------------
// Machine-readable export and console summary
// ---------------------------------------------------------------------------

/// One payload frame as exported, one JSON object per line.
#[derive(Debug, Clone, PartialEq, Eq)]
pub struct ExportedFrame {
    pub time: String,
    pub timestamp_us: i64,
    pub direction: &'static str,
    pub dlci: u8,
    pub frame_type: String,
    pub length: usize,
    pub hex: String,
    pub ascii: String,
}

/// How a direction is written in the export.
pub open spec fn export_direction(d: Direction) -> Seq<char> {
    match d {
        Direction::Sent => "PHONE->DEVICE"@,
        Direction::Received => "DEVICE->PHONE"@,
    }
}

/// The export record of a frame.
pub open spec fn exported_from(f: FrameView, e: ExportedFrame) -> bool {
    &&& e.time@ == spec_format_time(f.0)
    &&& e.timestamp_us == f.0
    &&& e.direction@ == export_direction(f.1)
    &&& e.dlci == f.3
    &&& e.frame_type@ == spec_kind_label(f.4)
    &&& e.length == f.5.len()
    &&& e.hex@ == hex_spaced(f.5)
    &&& e.ascii@ == ascii_render(f.5)
}

/// The export records of a device's payload frames, in order.
pub fn exported_frames(frames: &[RfcommFrame], address: &str) -> (r: Vec<ExportedFrame>)
    ensures
        r@.len() == payload_frames(for_address(frames_view(frames@), address@)).len(),
        forall|i: int|
            0 <= i < r@.len() ==> exported_from(
                payload_frames(for_address(frames_view(frames@), address@))[i],
                #[trigger] r@[i],
            ),
{
    let mine = frames_for(frames, address);
    let data = payload_only(mine.as_slice());
    let mut out: Vec<ExportedFrame> = Vec::new();
    let mut i: usize = 0;
    while i < data.len()
        invariant
            i <= data@.len(),
            out@.len() == i,
            forall|k: int| 0 <= k < i ==> exported_from(frame_view(data@[k]), #[trigger] out@[k]),
        decreases data@.len() - i,
    {
        let f = &data[i];
        let e = ExportedFrame {
            time: format_time(f.timestamp_us),
            timestamp_us: f.timestamp_us,
            direction: match f.direction {
                Direction::Sent => "PHONE->DEVICE",
                Direction::Received => "DEVICE->PHONE",
            },
            dlci: f.dlci,
            frame_type: f.kind.label(),
            length: f.payload.len(),
            hex: hex_string(f.payload.as_slice()),
            ascii: ascii_string(f.payload.as_slice()),
        };
        out.push(e);
        i = i + 1;
    }
    proof {
        assert forall|k: int| 0 <= k < out@.len() implies exported_from(
            payload_frames(for_address(frames_view(frames@), address@))[k],
            #[trigger] out@[k],
        ) by {
            assert(frames_view(data@)[k] == frame_view(data@[k]));
        }
    }
    out
}

/// A console line for one of the first payload frames.
pub open spec fn console_frame_line(f: FrameView) -> Seq<char> {
    frame_lead(f) + "  "@ + right_aligned(decimal(f.5.len()), 3) + "B  "@ + spec_truncate_ascii(
        hex_spaced(f.5),
        48,
    ) + "\n"@
}

pub open spec fn console_frame_lines(fs: Seq<FrameView>) -> Seq<char>
    decreases fs.len(),
{
    if fs.len() == 0 {
        Seq::empty()
    } else {
        console_frame_lines(fs.drop_last()) + console_frame_line(fs.last())
    }
}

/// What is printed once the extract is written.
pub open spec fn console_text(all: Seq<FrameView>, address: Seq<char>) -> Seq<char> {
    let data = payload_frames(for_address(all, address));
    "Payload frames per DLCI:\n"@ + dlci_lines(data, 256, "\n"@) + "\nFirst payload frames:\n"@
        + console_frame_lines(first_n(data, 12))
        + "\nWrote btsnoop-rfcomm.jsonl\nWrote btsnoop-rfcomm.txt\n"@
}

/// The console summary for one device.
pub fn console_summary(frames: &[RfcommFrame], address: &str) -> (r: String)
    ensures
        r@ == console_text(frames_view(frames@), address@),
{
    let mine = frames_for(frames, address);
    let data = payload_only(mine.as_slice());
    let mut t = String::new();
    push_str(&mut t, "Payload frames per DLCI:\n");
    push_dlci_lines(&mut t, data.as_slice(), "\n");
    push_str(&mut t, "\nFirst payload frames:\n");
    let ghost s0 = t@;
    let ghost dv = frames_view(data@);
    let n = if data.len() <= 12 {
        data.len()
    } else {
        12
    };
    let ghost want = first_n(dv, 12);
    let mut i: usize = 0;
    while i < n
        invariant
            i <= n,
            n == want.len(),
            n <= data@.len(),
            dv == frames_view(data@),
            want == first_n(dv, 12),
            t@ == s0 + console_frame_lines(want.subrange(0, i as int)),
        decreases n - i,
    {
        assert(want.subrange(0, i + 1).drop_last() =~= want.subrange(0, i as int));
        assert(want[i as int] == frame_view(data@[i as int]));
        let f = &data[i];
        let ghost s1 = t@;
        push_frame_lead(&mut t, f);
        push_str(&mut t, "  ");
        push_decimal_right(&mut t, f.payload.len() as u128, 3);
        push_str(&mut t, "B  ");
        let hex = hex_string(f.payload.as_slice());
        proof {
            lemma_hex_spaced_ascii(f.payload@);
            lemma_truncate_bytes_ascii(hex@, 48);
        }
        let cut = truncate_bytes(hex.as_str(), 48);
        push_str(&mut t, cut.as_str());
        push_str(&mut t, "\n");
        assert(t@ =~= s1 + console_frame_line(frame_view(*f)));
        i = i + 1;
    }
    assert(want.subrange(0, n as int) =~= want);
    push_str(&mut t, "\nWrote btsnoop-rfcomm.jsonl\nWrote btsnoop-rfcomm.txt\n");
    t
}

/// The extract cannot leak other devices' traffic: every frame selected
/// for a device carries that device's address, and every payload frame in
/// it carries a payload.
pub proof fn law_extract_holds_only_the_target(fs: Seq<FrameView>, address: Seq<char>)
    ensures
        forall|i: int|
            0 <= i < for_address(fs, address).len() ==> (#[trigger] for_address(fs, address)[i]).2
                == Some(address),
        forall|i: int|
            0 <= i < payload_frames(for_address(fs, address)).len() ==> carries_payload(
                #[trigger] payload_frames(for_address(fs, address))[i],
            ),
    decreases fs.len(),
{
    if fs.len() > 0 {
        law_extract_holds_only_the_target(fs.drop_last(), address);
        lemma_payload_frames_carry(for_address(fs, address));
    }
}

proof fn lemma_payload_frames_carry(fs: Seq<FrameView>)
    ensures
        forall|i: int| 0 <= i < payload_frames(fs).len() ==> carries_payload(#[trigger] payload_frames(fs)[i]),
    decreases fs.len(),
{
    if fs.len() > 0 {
        lemma_payload_frames_carry(fs.drop_last());
        let prev = payload_frames(fs.drop_last());
        assert forall|i: int| 0 <= i < payload_frames(fs).len() implies carries_payload(
            #[trigger] payload_frames(fs)[i],
        ) by {
            if i < prev.len() {
                assert(payload_frames(fs)[i] == prev[i]);
            }
        }
    }
}

/// No state reached from a fresh decoder registers CID 0 as RFCOMM.
proof fn lemma_history_registers_no_null_channel(recs: Seq<(i64, Direction, Seq<u8>)>)
    ensures
        registered_cids_nonzero(decode_from(fresh_model(), recs).0),
    decreases recs.len(),
{
    if recs.len() > 0 {
        lemma_history_registers_no_null_channel(recs.drop_last());
        let m1 = decode_from(fresh_model(), recs.drop_last()).0;
        law_channels_registered_only_by_signalling(m1, recs.last(), 0);
    }
}

/// Over any log fed to a fresh decoder, a record yields a frame only if it
/// is an ACL record completing an L2CAP PDU on a non-zero CID, other than
/// the signalling channel, that the decoder registered as RFCOMM for that
/// connection before the record (registration happens only through
/// signalling on that handle, and a disconnection forgets it).
pub proof fn law_logged_frames_only_on_registered_channels(
    recs: Seq<(i64, Direction, Seq<u8>)>,
    i: int,
)
    requires
        0 <= i < recs.len(),
    ensures
        ({
            let m = decode_from(fresh_model(), recs.subrange(0, i)).0;
            let d = recs[i].2;
            let buf = acl_buffer(m, d);
            let cid = le_u16_at(buf, 2);
            spec_push(m, recs[i]).1.len() > 0 ==> {
                &&& d.len() >= 5
                &&& d[0] == H4_ACL
                &&& buf.len() >= 4
                &&& cid != L2CAP_CID_SIGNALLING
                &&& cid != 0
                &&& cids_of(m, le_u16_at(d, 1) & 0x0FFF).contains(cid)
            }
        }),
{
    lemma_history_registers_no_null_channel(recs.subrange(0, i));
    law_frames_only_on_registered_channels(decode_from(fresh_model(), recs.subrange(0, i)).0, recs[i]);
}

} // verus!
