//! HCI -> L2CAP -> RFCOMM decoding.
//!
//! Enough of the stack to recover application payloads from a snoop log.
//! The btsnoop container is big-endian; everything inside HCI is
//! little-endian, and Bluetooth addresses inside HCI events are stored
//! least-significant byte first.

use super::btsnoop::{record_view, Direction, Record};
use crate::text::{hex_pair, hex_upper_char, hex_upper_joined, push_char, push_str};
use std::collections::HashMap;
use vstd::prelude::*;

verus! {

broadcast use vstd::std_specs::hash::group_hash_axioms;

// --- H4 packet types ---
pub const H4_ACL: u8 = 0x02;
pub const H4_EVENT: u8 = 0x04;

// --- HCI events ---
pub const EVT_CONNECTION_COMPLETE: u8 = 0x03;
pub const EVT_DISCONNECTION_COMPLETE: u8 = 0x05;

// --- L2CAP ---
pub const L2CAP_CID_SIGNALLING: u16 = 0x0001;
pub const L2CAP_SIG_CONNECTION_REQUEST: u8 = 0x02;
pub const L2CAP_SIG_CONNECTION_RESPONSE: u8 = 0x03;
pub const L2CAP_PSM_RFCOMM: u16 = 0x0003;

// --- RFCOMM frame types, with the P/F bit masked off ---
pub const RFCOMM_SABM: u8 = 0x2F;
pub const RFCOMM_UA: u8 = 0x63;
pub const RFCOMM_DM: u8 = 0x0F;
pub const RFCOMM_DISC: u8 = 0x43;
pub const RFCOMM_UIH: u8 = 0xEF;
/// Poll/Final. On a UIH frame for a data DLCI this signals a leading credit
/// byte.
pub const RFCOMM_PF: u8 = 0x10;

#[derive(Debug, Clone, Copy, PartialEq, Eq, Structural)]
pub enum RfcommFrameKind {
    Sabm,
    Ua,
    Dm,
    Disc,
    Uih,
    Unknown(u8),
}

pub open spec fn spec_kind_label(k: RfcommFrameKind) -> Seq<char> {
    match k {
        RfcommFrameKind::Sabm => "SABM"@,
        RfcommFrameKind::Ua => "UA"@,
        RfcommFrameKind::Dm => "DM"@,
        RfcommFrameKind::Disc => "DISC"@,
        RfcommFrameKind::Uih => "UIH"@,
        RfcommFrameKind::Unknown(c) => "UNKNOWN(0x"@ + hex_pair(c) + ")"@,
    }
}

impl RfcommFrameKind {
    pub fn label(self) -> (r: String)
        ensures
            r@ == spec_kind_label(self),
    {
        let mut out = String::new();
        match self {
            RfcommFrameKind::Sabm => push_str(&mut out, "SABM"),
            RfcommFrameKind::Ua => push_str(&mut out, "UA"),
            RfcommFrameKind::Dm => push_str(&mut out, "DM"),
            RfcommFrameKind::Disc => push_str(&mut out, "DISC"),
            RfcommFrameKind::Uih => push_str(&mut out, "UIH"),
            RfcommFrameKind::Unknown(c) => {
                push_str(&mut out, "UNKNOWN(0x");
                push_char(&mut out, hex_upper_char(c / 16));
                push_char(&mut out, hex_upper_char(c % 16));
                push_str(&mut out, ")");
            },
        }
        assert(out@ =~= spec_kind_label(self));
        out
    }
}

#[derive(Debug, Clone, PartialEq, Eq)]
pub struct RfcommFrame {
    pub timestamp_us: i64,
    pub direction: Direction,
    /// Remote Bluetooth address, if the connection was seen being established.
    pub address: Option<String>,
    pub dlci: u8,
    pub kind: RfcommFrameKind,
    /// Application payload, with any credit byte already removed.
    pub payload: Vec<u8>,
}

/// A frame as its fields read.
pub type FrameView = (i64, Direction, Option<Seq<char>>, u8, RfcommFrameKind, Seq<u8>);

pub open spec fn frame_view(f: RfcommFrame) -> FrameView {
    (
        f.timestamp_us,
        f.direction,
        match f.address {
            Some(a) => Some(a@),
            None => None,
        },
        f.dlci,
        f.kind,
        f.payload@,
    )
}

pub open spec fn frames_view(s: Seq<RfcommFrame>) -> Seq<FrameView> {
    s.map_values(|f: RfcommFrame| frame_view(f))
}

/// What the decoder remembers between records.
#[verifier::ext_equal]
pub struct DecoderModel {
    /// HCI connection handle -> remote address.
    pub handles: Map<u16, Seq<char>>,
    /// Partially received L2CAP PDUs, keyed by handle.
    pub pending: Map<u16, Seq<u8>>,
    /// L2CAP CIDs known to carry RFCOMM, keyed by handle.
    pub rfcomm_cids: Map<u16, Seq<u16>>,
    /// `(handle, signalling identifier)` -> source CID of an RFCOMM connect
    /// request awaiting its response; the pair is packed as
    /// `handle * 256 + identifier`.
    pub pending_rfcomm: Map<u32, u16>,
}

/// Reassembles fragmented ACL data and decodes what it can.
pub struct Decoder {
    handles: HashMap<u16, String>,
    pending: HashMap<u16, Vec<u8>>,
    rfcomm_cids: HashMap<u16, Vec<u16>>,
    pending_rfcomm: HashMap<u32, u16>,
}

impl View for Decoder {
    type V = DecoderModel;

    closed spec fn view(&self) -> DecoderModel {
        DecoderModel {
            handles: self.handles@.map_values(|s: String| s@),
            pending: self.pending@.map_values(|v: Vec<u8>| v@),
            rfcomm_cids: self.rfcomm_cids@.map_values(|v: Vec<u16>| v@),
            pending_rfcomm: self.pending_rfcomm@,
        }
    }
}

// ---------------------------------------------------------------------------
// The decoding rules
// ---------------------------------------------------------------------------

/// Little-endian 16-bit value at `off`.
pub open spec fn le_u16_at(s: Seq<u8>, off: int) -> u16 {
    (s[off] as int + s[off + 1] as int * 256) as u16
}

/// A 6-byte little-endian address as conventional big-endian hex.
pub open spec fn addr_text(b: Seq<u8>) -> Seq<char> {
    hex_upper_joined(seq![b[5], b[4], b[3], b[2], b[1], b[0]])
}

/// The key of a pending RFCOMM connect request.
pub open spec fn sig_key(handle: u16, ident: u8) -> u32 {
    (handle as int * 256 + ident as int) as u32
}

/// The CIDs known to carry RFCOMM on a handle.
pub open spec fn cids_of(m: DecoderModel, handle: u16) -> Seq<u16> {
    if m.rfcomm_cids.contains_key(handle) {
        m.rfcomm_cids[handle]
    } else {
        Seq::empty()
    }
}

/// Adds a CID to a list unless it is zero or already present.
pub open spec fn add_cid(cids: Seq<u16>, c: u16) -> Seq<u16> {
    if c != 0 && !cids.contains(c) {
        cids.push(c)
    } else {
        cids
    }
}

/// An HCI event: Connection Complete learns an address, Disconnection
/// Complete forgets everything about the handle.
pub open spec fn spec_handle_event(m: DecoderModel, ev: Seq<u8>) -> DecoderModel {
    if ev.len() < 2 {
        m
    } else {
        let params = ev.subrange(2, ev.len() as int);
        if ev[0] == EVT_CONNECTION_COMPLETE && params.len() >= 9 {
            if params[0] == 0 {
                DecoderModel {
                    handles: m.handles.insert(
                        le_u16_at(params, 1) & 0x0FFF,
                        addr_text(params.subrange(3, 9)),
                    ),
                    pending: m.pending,
                    rfcomm_cids: m.rfcomm_cids,
                    pending_rfcomm: m.pending_rfcomm,
                }
            } else {
                m
            }
        } else if ev[0] == EVT_DISCONNECTION_COMPLETE && params.len() >= 3 {
            let h = le_u16_at(params, 1) & 0x0FFF;
            DecoderModel {
                handles: m.handles.remove(h),
                pending: m.pending.remove(h),
                rfcomm_cids: m.rfcomm_cids.remove(h),
                pending_rfcomm: m.pending_rfcomm,
            }
        } else {
            m
        }
    }
}

/// One L2CAP signalling command: an RFCOMM connection request is remembered,
/// and a successful response to it registers the channel's CIDs.
pub open spec fn spec_sig_command(
    m: DecoderModel,
    handle: u16,
    code: u8,
    ident: u8,
    params: Seq<u8>,
) -> DecoderModel {
    if code == L2CAP_SIG_CONNECTION_REQUEST && params.len() >= 4 {
        if le_u16_at(params, 0) == L2CAP_PSM_RFCOMM {
            DecoderModel {
                handles: m.handles,
                pending: m.pending,
                rfcomm_cids: m.rfcomm_cids,
                pending_rfcomm: m.pending_rfcomm.insert(
                    sig_key(handle, ident),
                    le_u16_at(params, 2),
                ),
            }
        } else {
            m
        }
    } else if code == L2CAP_SIG_CONNECTION_RESPONSE && params.len() >= 6 {
        if le_u16_at(params, 4) == 0 && m.pending_rfcomm.contains_key(sig_key(handle, ident)) {
            let req = m.pending_rfcomm[sig_key(handle, ident)];
            let cids = add_cid(
                add_cid(add_cid(cids_of(m, handle), le_u16_at(params, 0)), le_u16_at(params, 2)),
                req,
            );
            DecoderModel {
                handles: m.handles,
                pending: m.pending,
                rfcomm_cids: m.rfcomm_cids.insert(handle, cids),
                pending_rfcomm: m.pending_rfcomm.remove(sig_key(handle, ident)),
            }
        } else {
            m
        }
    } else {
        m
    }
}

/// The signalling commands of a payload from `off` onwards.
pub open spec fn spec_signalling(m: DecoderModel, handle: u16, data: Seq<u8>, off: int) -> DecoderModel
    decreases data.len() - off,
{
    if off < 0 || off + 4 > data.len() {
        m
    } else {
        let len = le_u16_at(data, off + 2) as int;
        let start = off + 4;
        if start + len > data.len() {
            m
        } else {
            spec_signalling(
                spec_sig_command(m, handle, data[off], data[off + 1], data.subrange(start, start + len)),
                handle,
                data,
                start + len,
            )
        }
    }
}

/// The frame type named by an RFCOMM control byte with P/F masked off.
pub open spec fn frame_kind(c: u8) -> RfcommFrameKind {
    if c == RFCOMM_SABM {
        RfcommFrameKind::Sabm
    } else if c == RFCOMM_UA {
        RfcommFrameKind::Ua
    } else if c == RFCOMM_DM {
        RfcommFrameKind::Dm
    } else if c == RFCOMM_DISC {
        RfcommFrameKind::Disc
    } else if c == RFCOMM_UIH {
        RfcommFrameKind::Uih
    } else {
        RfcommFrameKind::Unknown(c)
    }
}

/// The address remembered for a handle.
pub open spec fn address_of(m: DecoderModel, handle: u16) -> Option<Seq<char>> {
    if m.handles.contains_key(handle) {
        Some(m.handles[handle])
    } else {
        None
    }
}

/// Decodes one RFCOMM frame carried on a registered CID.
pub open spec fn spec_decode_rfcomm(
    m: DecoderModel,
    ts: i64,
    dir: Direction,
    handle: u16,
    data: Seq<u8>,
) -> Seq<FrameView> {
    if data.len() < 3 {
        Seq::empty()
    } else {
        let dlci = data[0] >> 2u8;
        let control = data[1];
        let kind = frame_kind(control & 0xEFu8);
        let one_byte_length = data[2] & 0x01u8 == 1;
        if !one_byte_length && data.len() < 4 {
            Seq::empty()
        } else {
            let length: int = if one_byte_length {
                (data[2] >> 1u8) as int
            } else {
                data[3] as int * 128 + (data[2] >> 1u8) as int
            };
            let off: int = if one_byte_length {
                3
            } else {
                4
            };
            if off + length > data.len() {
                Seq::empty()
            } else {
                let credit = kind == RfcommFrameKind::Uih && dlci != 0 && control & RFCOMM_PF != 0
                    && length > 0;
                let start = if credit {
                    off + 1
                } else {
                    off
                };
                let len = if credit {
                    length - 1
                } else {
                    length
                };
                seq![(ts, dir, address_of(m, handle), dlci, kind, data.subrange(start, start + len))]
            }
        }
    }
}

/// The decoder state with a handle's reassembly buffer replaced.
pub open spec fn with_pending(m: DecoderModel, handle: u16, buf: Seq<u8>) -> DecoderModel {
    DecoderModel {
        handles: m.handles,
        pending: m.pending.insert(handle, buf),
        rfcomm_cids: m.rfcomm_cids,
        pending_rfcomm: m.pending_rfcomm,
    }
}

/// An ACL packet: fragments are reassembled per handle; a complete PDU on
/// the signalling channel updates the RFCOMM registrations, and a complete
/// PDU on a registered CID is decoded as RFCOMM.
pub open spec fn spec_handle_acl(m: DecoderModel, ts: i64, dir: Direction, d: Seq<u8>) -> (
    DecoderModel,
    Seq<FrameView>,
) {
    if d.len() < 5 {
        (m, Seq::empty())
    } else {
        let header = le_u16_at(d, 1);
        let handle = header & 0x0FFF;
        let pb = (header >> 12u16) & 0x03;
        let len = le_u16_at(d, 3) as int;
        if d.len() - 5 < len {
            (m, Seq::empty())
        } else {
            let body = d.subrange(5, 5 + len);
            let prev = if m.pending.contains_key(handle) {
                m.pending[handle]
            } else {
                Seq::empty()
            };
            let buf = if pb == 1 {
                prev + body
            } else {
                body
            };
            if buf.len() < 4 {
                (with_pending(m, handle, buf), Seq::empty())
            } else {
                let l2 = le_u16_at(buf, 0) as int;
                if buf.len() < l2 + 4 {
                    (with_pending(m, handle, buf), Seq::empty())
                } else {
                    let cid = le_u16_at(buf, 2);
                    let payload = buf.subrange(4, 4 + l2);
                    let m2 = with_pending(m, handle, Seq::empty());
                    if cid == L2CAP_CID_SIGNALLING {
                        (spec_signalling(m2, handle, payload, 0), Seq::empty())
                    } else if !cids_of(m2, handle).contains(cid) {
                        (m2, Seq::empty())
                    } else {
                        (m2, spec_decode_rfcomm(m2, ts, dir, handle, payload))
                    }
                }
            }
        }
    }
}

/// Feeding one snoop record to the decoder: the new state and the frames it
/// completed.
pub open spec fn spec_push(m: DecoderModel, rec: (i64, Direction, Seq<u8>)) -> (
    DecoderModel,
    Seq<FrameView>,
) {
    let d = rec.2;
    if d.len() == 0 {
        (m, Seq::empty())
    } else if d[0] == H4_EVENT {
        (spec_handle_event(m, d.subrange(1, d.len() as int)), Seq::empty())
    } else if d[0] == H4_ACL {
        spec_handle_acl(m, rec.0, rec.1, d)
    } else {
        (m, Seq::empty())
    }
}

// ---------------------------------------------------------------------------
// Executable decoding
// ---------------------------------------------------------------------------

fn le_u16(b: &[u8], off: usize) -> (r: u16)
    requires
        off + 2 <= b@.len(),
    ensures
        r == le_u16_at(b@, off as int),
{
    (b[off] as u16) + (b[off + 1] as u16) * 256
}

/// Formats a 6-byte little-endian address as conventional big-endian hex.
pub fn format_addr(b: &[u8]) -> (r: String)
    requires
        b@.len() >= 6,
    ensures
        r@ == addr_text(b@),
{
    let mut s = String::new();
    let mut i: usize = 6;
    let ghost rev = seq![b@[5], b@[4], b@[3], b@[2], b@[1], b@[0]];
    while i > 0
        invariant
            i <= 6,
            b@.len() >= 6,
            rev == seq![b@[5], b@[4], b@[3], b@[2], b@[1], b@[0]],
            s@ == hex_upper_joined(rev.subrange(0, 6 - i)),
        decreases i,
    {
        i = i - 1;
        let x = b[i];
        push_char(&mut s, hex_upper_char(x / 16));
        push_char(&mut s, hex_upper_char(x % 16));
        proof {
            let t = rev.subrange(0, 6 - i);
            assert(t.drop_last() =~= rev.subrange(0, 6 - i - 1));
            assert(t.last() == x);
            assert(s@ =~= hex_upper_joined(t));
        }
    }
    assert(rev.subrange(0, 6) =~= rev);
    s
}

fn contains_cid(v: &Vec<u16>, c: u16) -> (r: bool)
    ensures
        r == v@.contains(c),
{
    let mut i: usize = 0;
    while i < v.len()
        invariant
            i <= v@.len(),
            forall|j: int| 0 <= j < i ==> v@[j] != c,
        decreases v.len() - i,
    {
        if v[i] == c {
            assert(v@[i as int] == c);
            return true;
        }
        i = i + 1;
    }
    false
}

fn push_cid(cids: &mut Vec<u16>, c: u16)
    ensures
        final(cids)@ == add_cid(old(cids)@, c),
{
    if c != 0 && !contains_cid(cids, c) {
        cids.push(c);
    }
}

fn frame_kind_of(c: u8) -> (r: RfcommFrameKind)
    ensures
        r == frame_kind(c),
{
    if c == RFCOMM_SABM {
        RfcommFrameKind::Sabm
    } else if c == RFCOMM_UA {
        RfcommFrameKind::Ua
    } else if c == RFCOMM_DM {
        RfcommFrameKind::Dm
    } else if c == RFCOMM_DISC {
        RfcommFrameKind::Disc
    } else if c == RFCOMM_UIH {
        RfcommFrameKind::Uih
    } else {
        RfcommFrameKind::Unknown(c)
    }
}

impl Decoder {
    pub fn new() -> (r: Self)
        ensures
            r@.handles == Map::<u16, Seq<char>>::empty(),
            r@.pending == Map::<u16, Seq<u8>>::empty(),
            r@.rfcomm_cids == Map::<u16, Seq<u16>>::empty(),
            r@.pending_rfcomm == Map::<u32, u16>::empty(),
    {
        let d = Decoder {
            handles: HashMap::new(),
            pending: HashMap::new(),
            rfcomm_cids: HashMap::new(),
            pending_rfcomm: HashMap::new(),
        };
        assert(d@.handles =~= Map::<u16, Seq<char>>::empty());
        assert(d@.pending =~= Map::<u16, Seq<u8>>::empty());
        assert(d@.rfcomm_cids =~= Map::<u16, Seq<u16>>::empty());
        d
    }

    /// The address learnt for a connection handle, if any.
    pub fn address_for(&self, handle: u16) -> (r: Option<String>)
        ensures
            match r {
                Some(a) => address_of(self@, handle) == Some(a@),
                None => address_of(self@, handle) is None,
            },
    {
        match self.handles.get(&handle) {
            Some(a) => Some(a.clone()),
            None => None,
        }
    }

    /// Whether no connection handle is currently known.
    pub fn knows_no_connections(&self) -> (r: bool)
        ensures
            r == self@.handles.is_empty(),
    {
        let r = self.handles.is_empty();
        assert(self@.handles.dom() =~= self.handles@.dom());
        r
    }

    /// Feeds one snoop record, returning any RFCOMM frames it completed.
    pub fn push(&mut self, rec: &Record) -> (r: Vec<RfcommFrame>)
        ensures
            (final(self)@, frames_view(r@)) == spec_push(old(self)@, record_view(*rec)),
    {
        if rec.data.len() == 0 {
            let r = Vec::new();
            assert(frames_view(r@) =~= Seq::<FrameView>::empty());
            return r;
        }
        let t = rec.data[0];
        if t == H4_EVENT {
            let ev = vstd::slice::slice_subrange(rec.data.as_slice(), 1, rec.data.len());
            self.handle_event(ev);
            let r = Vec::new();
            assert(frames_view(r@) =~= Seq::<FrameView>::empty());
            r
        } else if t == H4_ACL {
            self.handle_acl(rec)
        } else {
            let r = Vec::new();
            assert(frames_view(r@) =~= Seq::<FrameView>::empty());
            r
        }
    }

    fn handle_event(&mut self, ev: &[u8])
        ensures
            final(self)@ == spec_handle_event(old(self)@, ev@),
    {
        if ev.len() < 2 {
            return;
        }
        let code = ev[0];
        let params = vstd::slice::slice_subrange(ev, 2, ev.len());
        if code == EVT_CONNECTION_COMPLETE && params.len() >= 9 {
            if params[0] == 0x00 {
                let handle = le_u16(params, 1) & 0x0FFF;
                let addr = format_addr(vstd::slice::slice_subrange(params, 3, 9));
                self.handles.insert(handle, addr);
                assert(self@ =~= spec_handle_event(old(self)@, ev@));
            }
        } else if code == EVT_DISCONNECTION_COMPLETE && params.len() >= 3 {
            let handle = le_u16(params, 1) & 0x0FFF;
            self.handles.remove(&handle);
            self.pending.remove(&handle);
            self.rfcomm_cids.remove(&handle);
            assert(self@ =~= spec_handle_event(old(self)@, ev@));
        }
    }

    fn handle_acl(&mut self, rec: &Record) -> (r: Vec<RfcommFrame>)
        requires
            rec.data@.len() > 0,
        ensures
            (final(self)@, frames_view(r@)) == spec_handle_acl(
                old(self)@,
                rec.timestamp_us,
                rec.direction,
                rec.data@,
            ),
    {
        let d = rec.data.as_slice();
        if d.len() < 5 {
            let r = Vec::new();
            assert(frames_view(r@) =~= Seq::<FrameView>::empty());
            return r;
        }
        let header = le_u16(d, 1);
        let handle = header & 0x0FFF;
        let pb = (header >> 12) & 0x03;
        let len = le_u16(d, 3) as usize;
        if d.len() - 5 < len {
            let r = Vec::new();
            assert(frames_view(r@) =~= Seq::<FrameView>::empty());
            return r;
        }
        let body = vstd::slice::slice_subrange(d, 5, 5 + len);
        let ghost m0 = self@;
        let mut buf = match self.pending.remove(&handle) {
            Some(b) => b,
            None => Vec::new(),
        };
        let mut fresh = vstd::slice::slice_to_vec(body);
        if pb == 1 {
            buf.append(&mut fresh);
        } else {
            buf = fresh;
        }
        let ghost expected_buf = if pb == 1 {
            (if m0.pending.contains_key(handle) {
                m0.pending[handle]
            } else {
                Seq::empty()
            }) + body@
        } else {
            body@
        };
        assert(buf@ =~= expected_buf);
        if buf.len() < 4 {
            self.pending.insert(handle, buf);
            assert(self@ =~= with_pending(m0, handle, expected_buf));
            let r = Vec::new();
            assert(frames_view(r@) =~= Seq::<FrameView>::empty());
            return r;
        }
        let l2 = le_u16(buf.as_slice(), 0) as usize;
        if buf.len() - 4 < l2 {
            self.pending.insert(handle, buf);
            assert(self@ =~= with_pending(m0, handle, expected_buf));
            let r = Vec::new();
            assert(frames_view(r@) =~= Seq::<FrameView>::empty());
            return r;
        }
        let cid = le_u16(buf.as_slice(), 2);
        let payload = vstd::slice::slice_to_vec(
            vstd::slice::slice_subrange(buf.as_slice(), 4, 4 + l2),
        );
        self.pending.insert(handle, Vec::new());
        assert(self@ =~= with_pending(m0, handle, Seq::empty()));
        if cid == L2CAP_CID_SIGNALLING {
            self.handle_signalling(handle, payload.as_slice());
            let r = Vec::new();
            assert(frames_view(r@) =~= Seq::<FrameView>::empty());
            return r;
        }
        let is_rfcomm = match self.rfcomm_cids.get(&handle) {
            Some(v) => contains_cid(v, cid),
            None => false,
        };
        if !is_rfcomm {
            let r = Vec::new();
            assert(frames_view(r@) =~= Seq::<FrameView>::empty());
            return r;
        }
        self.decode_rfcomm(rec, handle, payload.as_slice())
    }

    fn handle_signalling(&mut self, handle: u16, data: &[u8])
        ensures
            final(self)@ == spec_signalling(old(self)@, handle, data@, 0),
    {
        let n = data.len();
        let mut off: usize = 0;
        while off <= n && n - off >= 4
            invariant
                n == data@.len(),
                off <= n,
                spec_signalling(old(self)@, handle, data@, 0) == spec_signalling(
                    self@,
                    handle,
                    data@,
                    off as int,
                ),
            ensures
                spec_signalling(old(self)@, handle, data@, 0) == self@,
            decreases n - off,
        {
            let code = data[off];
            let ident = data[off + 1];
            let len = le_u16(data, off + 2) as usize;
            let start = off + 4;
            if len > n - start {
                break;
            }
            let params = vstd::slice::slice_subrange(data, start, start + len);
            let ghost before = self@;
            self.signalling_command(handle, code, ident, params);
            assert(self@ == spec_sig_command(before, handle, code, ident, params@));
            off = start + len;
        }
    }

    fn signalling_command(&mut self, handle: u16, code: u8, ident: u8, params: &[u8])
        ensures
            final(self)@ == spec_sig_command(old(self)@, handle, code, ident, params@),
    {
        let key: u32 = (handle as u32) * 256 + (ident as u32);
        assert(key == sig_key(handle, ident));
        if code == L2CAP_SIG_CONNECTION_REQUEST && params.len() >= 4 {
            let psm = le_u16(params, 0);
            let source_cid = le_u16(params, 2);
            if psm == L2CAP_PSM_RFCOMM {
                self.pending_rfcomm.insert(key, source_cid);
                assert(self@ =~= spec_sig_command(old(self)@, handle, code, ident, params@));
            }
        } else if code == L2CAP_SIG_CONNECTION_RESPONSE && params.len() >= 6 {
            let dest_cid = le_u16(params, 0);
            let source_cid = le_u16(params, 2);
            let result = le_u16(params, 4);
            if result == 0 {
                match self.pending_rfcomm.remove(&key) {
                    Some(req_cid) => {
                        let ghost m0 = old(self)@;
                        let mut cids = match self.rfcomm_cids.remove(&handle) {
                            Some(v) => v,
                            None => Vec::new(),
                        };
                        assert(cids@ == cids_of(m0, handle));
                        push_cid(&mut cids, dest_cid);
                        push_cid(&mut cids, source_cid);
                        push_cid(&mut cids, req_cid);
                        self.rfcomm_cids.insert(handle, cids);
                        assert(self@ =~= spec_sig_command(m0, handle, code, ident, params@));
                    },
                    None => {},
                }
            }
        }
    }

    fn decode_rfcomm(&self, rec: &Record, handle: u16, data: &[u8]) -> (r: Vec<RfcommFrame>)
        ensures
            frames_view(r@) == spec_decode_rfcomm(
                self@,
                rec.timestamp_us,
                rec.direction,
                handle,
                data@,
            ),
    {
        if data.len() < 3 {
            let r = Vec::new();
            assert(frames_view(r@) =~= Seq::<FrameView>::empty());
            return r;
        }
        let dlci = data[0] >> 2;
        let control = data[1];
        assert(!RFCOMM_PF == 0xEFu8) by (bit_vector);
        let kind = frame_kind_of(control & !RFCOMM_PF);
        let length: usize;
        let mut off: usize;
        if data[2] & 0x01 == 1 {
            length = (data[2] >> 1) as usize;
            off = 3;
        } else {
            if data.len() < 4 {
                let r = Vec::new();
                assert(frames_view(r@) =~= Seq::<FrameView>::empty());
                return r;
            }
            let hi = data[3] as usize;
            let lo = (data[2] >> 1) as usize;
            length = hi * 128 + lo;
            off = 4;
        }
        if length > data.len() - off {
            let r = Vec::new();
            assert(frames_view(r@) =~= Seq::<FrameView>::empty());
            return r;
        }
        let mut length = length;
        if kind == RfcommFrameKind::Uih && dlci != 0 && control & RFCOMM_PF != 0 && length > 0 {
            off = off + 1;
            length = length - 1;
        }
        let address = match self.handles.get(&handle) {
            Some(a) => Some(a.clone()),
            None => None,
        };
        let payload = vstd::slice::slice_to_vec(
            vstd::slice::slice_subrange(data, off, off + length),
        );
        let mut r = Vec::new();
        r.push(
            RfcommFrame {
                timestamp_us: rec.timestamp_us,
                direction: rec.direction,
                address,
                dlci,
                kind,
                payload,
            },
        );
        assert(frames_view(r@) =~= spec_decode_rfcomm(
            self@,
            rec.timestamp_us,
            rec.direction,
            handle,
            data@,
        ));
        r
    }
}

// ---------------------------------------------------------------------------
// Laws of the decoder
// ---------------------------------------------------------------------------

/// A UIH frame as a sender encodes it (TS 07.10): the address octet
/// (DLCI, C/R and EA bits), the UIH control octet without P/F, the payload
/// length in one octet (7 bits, EA = 1) below 128 bytes or in two octets
/// (low 7 bits with EA = 0, then the next 8 bits) from 128 bytes on, the
/// payload and the FCS octet.
pub open spec fn encoded_uih(dlci: u8, payload: Seq<u8>, fcs: u8) -> Seq<u8> {
    let n = payload.len();
    let address = (dlci * 4 + 3) as u8;
    let length = if n < 128 {
        seq![(n * 2 + 1) as u8]
    } else {
        seq![((n % 128) * 2) as u8, (n / 128) as u8]
    };
    seq![address, RFCOMM_UIH] + length + payload + seq![fcs]
}

/// Decoding undoes encoding: a UIH frame on any DLCI, carrying any payload
/// shorter than 32768 bytes (one- or two-octet length), decodes to exactly
/// one UIH frame on that DLCI with exactly that payload.
pub proof fn law_uih_frames_decode_to_their_payload(
    m: DecoderModel,
    ts: i64,
    dir: Direction,
    handle: u16,
    dlci: u8,
    payload: Seq<u8>,
    fcs: u8,
)
    requires
        dlci < 64,
        payload.len() < 32768,
    ensures
        spec_decode_rfcomm(m, ts, dir, handle, encoded_uih(dlci, payload, fcs)) == seq![
            (ts, dir, address_of(m, handle), dlci, RfcommFrameKind::Uih, payload),
        ],
{
    let data = encoded_uih(dlci, payload, fcs);
    let n = payload.len();
    let address = (dlci * 4 + 3) as u8;
    assert(address >> 2u8 == dlci) by (bit_vector)
        requires
            address == (dlci * 4 + 3) as u8,
            dlci < 64,
    ;
    assert(RFCOMM_UIH & 0xEFu8 == RFCOMM_UIH && RFCOMM_UIH & RFCOMM_PF == 0) by (bit_vector);
    assert(data[0] == address && data[1] == RFCOMM_UIH);
    if n < 128 {
        let b = (n * 2 + 1) as u8;
        let nn = n as u8;
        assert(b == (nn * 2 + 1) as u8);
        assert(b & 1u8 == 1 && b >> 1u8 == nn) by (bit_vector)
            requires
                b == (nn * 2 + 1) as u8,
                nn < 128,
        ;
        assert(data[2] == b);
        assert(data.subrange(3, 3 + n as int) =~= payload);
    } else {
        let lo = ((n % 128) * 2) as u8;
        let r = (n % 128) as u8;
        let hi = (n / 128) as u8;
        assert(lo == (r * 2) as u8);
        assert(lo & 1u8 == 0 && lo >> 1u8 == r) by (bit_vector)
            requires
                lo == (r * 2) as u8,
                r < 128,
        ;
        assert(data[2] == lo && data[3] == hi);
        assert(hi as int * 128 + r as int == n);
        assert(data.subrange(4, 4 + n as int) =~= payload);
    }
}

/// The payload length of a frame whose first length octet has EA = 0 is
/// read from two octets, seven bits from the first and the rest from the
/// second: `data[3] * 128 + data[2] / 2`.
pub proof fn law_two_octet_length(
    m: DecoderModel,
    ts: i64,
    dir: Direction,
    handle: u16,
    data: Seq<u8>,
)
    requires
        data.len() >= 4,
        data[2] % 2 == 0,
        data[1] & RFCOMM_PF == 0,
        4 + data[3] as int * 128 + data[2] as int / 2 <= data.len(),
    ensures
        ({
            let r = spec_decode_rfcomm(m, ts, dir, handle, data);
            &&& r.len() == 1
            &&& r[0].5 == data.subrange(4, 4 + data[3] as int * 128 + data[2] as int / 2)
        }),
{
    let b = data[2];
    let c = data[1];
    assert(b % 2 == 0 ==> b & 1u8 == 0 && (b >> 1u8) as int == b as int / 2) by (bit_vector);
    assert(c & RFCOMM_PF == 0 ==> (c & 0xEFu8) & RFCOMM_PF == 0) by (bit_vector);
}

/// A record completes at most one RFCOMM frame.
pub proof fn law_at_most_one_frame_per_record(m: DecoderModel, rec: (i64, Direction, Seq<u8>))
    ensures
        spec_push(m, rec).1.len() <= 1,
{
}

/// HCI events set up and tear down connections; they never carry frames.
pub proof fn law_events_yield_no_frames(m: DecoderModel, rec: (i64, Direction, Seq<u8>))
    requires
        rec.2.len() > 0,
        rec.2[0] == H4_EVENT,
    ensures
        spec_push(m, rec).1.len() == 0,
{
}

/// A disconnection forgets everything known about its handle: its address,
/// any partial PDU and its RFCOMM channels.
pub proof fn law_disconnection_forgets_the_handle(m: DecoderModel, rec: (i64, Direction, Seq<u8>))
    requires
        rec.2.len() >= 6,
        rec.2[0] == H4_EVENT,
        rec.2[1] == EVT_DISCONNECTION_COMPLETE,
    ensures
        ({
            let h = le_u16_at(rec.2.subrange(3, rec.2.len() as int), 1) & 0x0FFF;
            let after = spec_push(m, rec).0;
            &&& !after.handles.contains_key(h)
            &&& !after.pending.contains_key(h)
            &&& !after.rfcomm_cids.contains_key(h)
        }),
{
    let ev = rec.2.subrange(1, rec.2.len() as int);
    assert(ev.subrange(2, ev.len() as int) =~= rec.2.subrange(3, rec.2.len() as int));
}

/// A frame is attributed to the address of its connection as the decoder
/// knew it, and never to another.
pub proof fn law_frames_carry_their_connection_address(
    m: DecoderModel,
    ts: i64,
    dir: Direction,
    handle: u16,
    data: Seq<u8>,
)
    ensures
        forall|i: int|
            0 <= i < spec_decode_rfcomm(m, ts, dir, handle, data).len() ==> (#[trigger] spec_decode_rfcomm(
                m,
                ts,
                dir,
                handle,
                data,
            )[i]).2 == address_of(m, handle),
{
}

/// An H4 ACL record for `handle` with packet-boundary flag `pb` carrying
/// `body` (the ACL header's length field is the body's length).
pub open spec fn acl_record(handle: u16, pb: u16, body: Seq<u8>) -> Seq<u8> {
    let header = (handle + pb * 4096) as u16;
    seq![
        H4_ACL,
        (header % 256) as u8,
        (header / 256) as u8,
        (body.len() % 256) as u8,
        (body.len() / 256) as u8,
    ] + body
}

proof fn lemma_acl_record_fields(handle: u16, pb: u16, body: Seq<u8>)
    requires
        handle < 4096,
        pb < 4,
        body.len() <= 0xFFFF,
    ensures
        ({
            let d = acl_record(handle, pb, body);
            &&& d.len() == 5 + body.len()
            &&& d[0] == H4_ACL
            &&& le_u16_at(d, 1) & 0x0FFF == handle
            &&& (le_u16_at(d, 1) >> 12u16) & 0x03 == pb
            &&& le_u16_at(d, 3) == body.len()
            &&& d.subrange(5, 5 + body.len() as int) == body
        }),
{
    let d = acl_record(handle, pb, body);
    let header = (handle + pb * 4096) as u16;
    assert(header == handle + pb * 4096);
    assert(le_u16_at(d, 1) == header);
    assert(le_u16_at(d, 3) == body.len());
    assert((header & 0x0FFF) == handle && ((header >> 12u16) & 0x03) == pb) by (bit_vector)
        requires
            header == handle + pb * 4096,
            handle < 4096,
            pb < 4,
    ;
    assert(d.subrange(5, 5 + body.len() as int) =~= body);
}

/// A fragmented L2CAP PDU decodes as the whole one does: sent as a start
/// fragment and a continuation, the first record completes nothing, and
/// the second leaves the decoder in the same state with the same frames as
/// the PDU sent in one record.
pub proof fn law_fragmented_pdu_decodes_as_whole(
    m: DecoderModel,
    ts1: i64,
    dir1: Direction,
    ts: i64,
    dir: Direction,
    handle: u16,
    pdu: Seq<u8>,
    k: int,
)
    requires
        handle < 4096,
        pdu.len() <= 0xFFFF,
        pdu.len() >= 4,
        le_u16_at(pdu, 0) + 4 == pdu.len(),
        0 < k < pdu.len(),
    ensures
        ({
            let whole = spec_push(m, (ts, dir, acl_record(handle, 2, pdu)));
            let first = spec_push(m, (ts1, dir1, acl_record(handle, 2, pdu.subrange(0, k))));
            let second = spec_push(
                first.0,
                (ts, dir, acl_record(handle, 1, pdu.subrange(k, pdu.len() as int))),
            );
            &&& first.1.len() == 0
            &&& second.1 == whole.1
            &&& second.0 == whole.0
        }),
{
    let head = pdu.subrange(0, k);
    let tail = pdu.subrange(k, pdu.len() as int);
    lemma_acl_record_fields(handle, 2, pdu);
    lemma_acl_record_fields(handle, 2, head);
    lemma_acl_record_fields(handle, 1, tail);
    if k >= 4 {
        assert(le_u16_at(head, 0) == le_u16_at(pdu, 0));
    }
    let first = spec_push(m, (ts1, dir1, acl_record(handle, 2, head)));
    assert(first.0 == with_pending(m, handle, head));
    assert(first.1.len() == 0);
    let m1 = first.0;
    assert(m1.pending.contains_key(handle) && m1.pending[handle] == head);
    assert(head + tail =~= pdu);
    let m2w = with_pending(m, handle, Seq::empty());
    let m2f = with_pending(m1, handle, Seq::empty());
    assert(m2w.pending =~= m2f.pending);
    assert(m2w == m2f);
}

/// No handle lists CID 0 (the null identifier) as carrying RFCOMM.
pub open spec fn registered_cids_nonzero(m: DecoderModel) -> bool {
    forall|h: u16| #[trigger] m.rfcomm_cids.contains_key(h) ==> !m.rfcomm_cids[h].contains(0u16)
}

proof fn lemma_add_cid_nonzero(cids: Seq<u16>, c: u16)
    requires
        !cids.contains(0u16),
    ensures
        !add_cid(cids, c).contains(0u16),
{
    if c != 0 && !cids.contains(c) {
        assert forall|i: int| 0 <= i < cids.push(c).len() implies cids.push(c)[i] != 0u16 by {
            if i < cids.len() {
                assert(cids.push(c)[i] == cids[i]);
            }
        }
    }
}

proof fn lemma_sig_command_frame(m: DecoderModel, handle: u16, code: u8, ident: u8, params: Seq<u8>)
    ensures
        ({
            let r = spec_sig_command(m, handle, code, ident, params);
            &&& r.handles == m.handles
            &&& r.pending == m.pending
            &&& forall|h: u16| h != handle ==> #[trigger] cids_of(r, h) == cids_of(m, h)
            &&& registered_cids_nonzero(m) ==> registered_cids_nonzero(r)
        }),
{
    let r = spec_sig_command(m, handle, code, ident, params);
    if code == L2CAP_SIG_CONNECTION_RESPONSE && params.len() >= 6 && le_u16_at(params, 4) == 0
        && m.pending_rfcomm.contains_key(sig_key(handle, ident)) && registered_cids_nonzero(m) {
        let req = m.pending_rfcomm[sig_key(handle, ident)];
        let c0 = cids_of(m, handle);
        assert(!c0.contains(0u16));
        lemma_add_cid_nonzero(c0, le_u16_at(params, 0));
        lemma_add_cid_nonzero(add_cid(c0, le_u16_at(params, 0)), le_u16_at(params, 2));
        lemma_add_cid_nonzero(
            add_cid(add_cid(c0, le_u16_at(params, 0)), le_u16_at(params, 2)),
            req,
        );
    }
}

proof fn lemma_signalling_frame(m: DecoderModel, handle: u16, data: Seq<u8>, off: int)
    ensures
        ({
            let r = spec_signalling(m, handle, data, off);
            &&& r.handles == m.handles
            &&& r.pending == m.pending
            &&& forall|h: u16| h != handle ==> #[trigger] cids_of(r, h) == cids_of(m, h)
            &&& registered_cids_nonzero(m) ==> registered_cids_nonzero(r)
        }),
    decreases data.len() - off,
{
    if off < 0 || off + 4 > data.len() {
    } else {
        let len = le_u16_at(data, off + 2) as int;
        let start = off + 4;
        if start + len <= data.len() {
            let m1 = spec_sig_command(m, handle, data[off], data[off + 1], data.subrange(start, start + len));
            lemma_sig_command_frame(m, handle, data[off], data[off + 1], data.subrange(start, start + len));
            lemma_signalling_frame(m1, handle, data, start + len);
        }
    }
}

/// The reassembled L2CAP buffer an ACL record completes or extends.
pub open spec fn acl_buffer(m: DecoderModel, d: Seq<u8>) -> Seq<u8> {
    let header = le_u16_at(d, 1);
    let handle = header & 0x0FFF;
    let pb = (header >> 12u16) & 0x03;
    let len = le_u16_at(d, 3) as int;
    let body = d.subrange(5, 5 + len);
    let prev = if m.pending.contains_key(handle) {
        m.pending[handle]
    } else {
        Seq::empty()
    };
    if pb == 1 {
        prev + body
    } else {
        body
    }
}

/// RFCOMM frames come only from registered channels: a record yields a
/// frame only if it is an ACL record whose completed L2CAP PDU is on a
/// non-zero CID, other than the signalling channel, that the decoder had
/// registered as RFCOMM for that connection handle.
pub proof fn law_frames_only_on_registered_channels(m: DecoderModel, rec: (i64, Direction, Seq<u8>))
    requires
        registered_cids_nonzero(m),
    ensures
        spec_push(m, rec).1.len() > 0 ==> {
            let d = rec.2;
            let buf = acl_buffer(m, d);
            let cid = le_u16_at(buf, 2);
            &&& d.len() >= 5
            &&& d[0] == H4_ACL
            &&& buf.len() >= 4
            &&& cid != L2CAP_CID_SIGNALLING
            &&& cid != 0
            &&& cids_of(m, le_u16_at(d, 1) & 0x0FFF).contains(cid)
        },
{
    let d = rec.2;
    if spec_push(m, rec).1.len() > 0 {
        let handle = le_u16_at(d, 1) & 0x0FFF;
        let m2 = with_pending(m, handle, Seq::empty());
        assert(cids_of(m2, handle) == cids_of(m, handle));
        if m.rfcomm_cids.contains_key(handle) {
            assert(!m.rfcomm_cids[handle].contains(0u16));
        }
    }
}

/// The registered RFCOMM channels change only through an HCI event (a
/// disconnection forgets them) or through a signalling PDU completed on
/// the same connection handle; and no step registers CID 0.
pub proof fn law_channels_registered_only_by_signalling(
    m: DecoderModel,
    rec: (i64, Direction, Seq<u8>),
    h: u16,
)
    ensures
        registered_cids_nonzero(m) ==> registered_cids_nonzero(spec_push(m, rec).0),
        cids_of(spec_push(m, rec).0, h) != cids_of(m, h) ==> {
            let d = rec.2;
            ||| (d.len() > 0 && d[0] == H4_EVENT)
            ||| {
                &&& d.len() >= 5
                &&& d[0] == H4_ACL
                &&& le_u16_at(d, 1) & 0x0FFF == h
                &&& acl_buffer(m, d).len() >= 4
                &&& le_u16_at(acl_buffer(m, d), 2) == L2CAP_CID_SIGNALLING
            }
        },
{
    let d = rec.2;
    if d.len() > 0 && d[0] == H4_EVENT {
        let ev = d.subrange(1, d.len() as int);
        let after = spec_handle_event(m, ev);
        if registered_cids_nonzero(m) {
            assert forall|k: u16| #[trigger] after.rfcomm_cids.contains_key(k) implies !after.rfcomm_cids[k].contains(0u16) by {
                assert(m.rfcomm_cids.contains_key(k));
            }
        }
    } else if d.len() >= 5 && d[0] == H4_ACL {
        let handle = le_u16_at(d, 1) & 0x0FFF;
        let len = le_u16_at(d, 3) as int;
        if d.len() - 5 >= len {
            let buf = acl_buffer(m, d);
            let m1 = with_pending(m, handle, buf);
            let m2 = with_pending(m, handle, Seq::empty());
            assert(forall|k: u16| #[trigger] cids_of(m1, k) == cids_of(m, k));
            assert(forall|k: u16| #[trigger] cids_of(m2, k) == cids_of(m, k));
            assert(registered_cids_nonzero(m) ==> registered_cids_nonzero(m1));
            assert(registered_cids_nonzero(m) ==> registered_cids_nonzero(m2));
            if buf.len() >= 4 && buf.len() >= le_u16_at(buf, 0) as int + 4 {
                let l2 = le_u16_at(buf, 0) as int;
                lemma_signalling_frame(m2, handle, buf.subrange(4, 4 + l2), 0);
            }
        }
    }
}

} // verus!
