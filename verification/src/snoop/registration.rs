//! Where the decoder's RFCOMM channels come from.
//!
//! The decoder trusts only an actual L2CAP handshake: a Connection Request
//! for the RFCOMM PSM and its successful Connection Response on the same
//! connection handle and signalling identifier. This module follows the
//! signalling commands and disconnections a log delivers to the decoder and
//! proves that every channel it decodes RFCOMM on was registered that way,
//! and has not been forgotten by a disconnection since.

use super::btsnoop::Direction;
use super::report::{decode_from, fresh_model, law_logged_frames_only_on_registered_channels};
use super::stack::{
    acl_buffer, add_cid, cids_of, le_u16_at, sig_key, spec_push, spec_sig_command,
    spec_signalling, with_pending, DecoderModel, EVT_DISCONNECTION_COMPLETE, H4_ACL, H4_EVENT,
    L2CAP_CID_SIGNALLING, L2CAP_PSM_RFCOMM, L2CAP_SIG_CONNECTION_REQUEST,
    L2CAP_SIG_CONNECTION_RESPONSE,
};
use vstd::prelude::*;

verus! {

/// What the decoder is told, in order: a signalling command completed on a
/// connection handle, or a handle's disconnection.
pub enum SigEvent {
    Command { handle: u16, code: u8, ident: u8, params: Seq<u8> },
    Disconnected { handle: u16 },
}

/// A Connection Request for the RFCOMM PSM on handle `h`.
pub open spec fn rfcomm_request_on(e: SigEvent, h: u16) -> bool {
    e matches SigEvent::Command { handle, code, params, .. } && handle == h && code
        == L2CAP_SIG_CONNECTION_REQUEST && params.len() >= 4 && le_u16_at(params, 0)
        == L2CAP_PSM_RFCOMM
}

/// The signalling identifier of a command.
pub open spec fn cmd_ident(e: SigEvent) -> u8 {
    match e {
        SigEvent::Command { ident, .. } => ident,
        SigEvent::Disconnected { .. } => 0,
    }
}

/// A command's parameters.
pub open spec fn cmd_params(e: SigEvent) -> Seq<u8> {
    match e {
        SigEvent::Command { params, .. } => params,
        SigEvent::Disconnected { .. } => Seq::empty(),
    }
}

/// A successful (result 0) Connection Response on handle `h` with
/// identifier `id`.
pub open spec fn accepting_response_on(e: SigEvent, h: u16, id: u8) -> bool {
    e matches SigEvent::Command { handle, code, ident, params } && handle == h && code
        == L2CAP_SIG_CONNECTION_RESPONSE && ident == id && params.len() >= 6 && le_u16_at(
        params,
        4,
    ) == 0
}

/// No disconnection of handle `h` after position `k` of the log.
pub open spec fn no_disconnection_after(log: Seq<SigEvent>, h: u16, k: int) -> bool {
    forall|i: int| k < i < log.len() ==> #[trigger] log[i] != (SigEvent::Disconnected { handle: h })
}

/// CID `c` on handle `h` was registered by an RFCOMM handshake in the log:
/// a request for the RFCOMM PSM at `j`, a successful response to it (same
/// handle and identifier) at `k > j`, `c` one of the request's source CID
/// and the response's destination and source CIDs, `c` not zero, and no
/// disconnection of `h` since the response.
pub open spec fn registered_by_handshake(log: Seq<SigEvent>, h: u16, c: u16) -> bool {
    exists|j: int, k: int|
        #![trigger log[j], log[k]]
        {
            &&& 0 <= j < k < log.len()
            &&& rfcomm_request_on(log[j], h)
            &&& accepting_response_on(log[k], h, cmd_ident(log[j]))
            &&& c != 0
            &&& (c == le_u16_at(cmd_params(log[j]), 2) || c == le_u16_at(cmd_params(log[k]), 0)
                || c == le_u16_at(cmd_params(log[k]), 2))
            &&& no_disconnection_after(log, h, k)
        }
}

/// An RFCOMM request with identifier `id` and source CID `cid` on handle
/// `h` is in the log.
pub open spec fn request_in_log(log: Seq<SigEvent>, h: u16, id: u8, cid: u16) -> bool {
    exists|j: int|
        #![trigger log[j]]
        0 <= j < log.len() && rfcomm_request_on(log[j], h) && cmd_ident(log[j]) == id && le_u16_at(
            cmd_params(log[j]),
            2,
        ) == cid
}

/// The decoder state agrees with the log: every registered CID came from a
/// handshake, and every remembered request was made.
pub open spec fn explained_by(m: DecoderModel, log: Seq<SigEvent>) -> bool {
    &&& forall|h: u16, c: u16| #[trigger] cids_of(m, h).contains(c) ==> registered_by_handshake(log, h, c)
    &&& forall|h: u16, id: u8|
        h < 4096 && #[trigger] m.pending_rfcomm.contains_key(sig_key(h, id)) ==> request_in_log(
            log,
            h,
            id,
            m.pending_rfcomm[sig_key(h, id)],
        )
}

proof fn lemma_sig_key_injective(h1: u16, id1: u8, h2: u16, id2: u8)
    requires
        h1 < 4096,
        h2 < 4096,
        sig_key(h1, id1) == sig_key(h2, id2),
    ensures
        h1 == h2 && id1 == id2,
{
}

/// Appending an event that is not a disconnection of `h` keeps every
/// handshake on `h` in the log standing.
proof fn lemma_log_extends(log: Seq<SigEvent>, more: Seq<SigEvent>)
    ensures
        forall|h: u16, c: u16|
            registered_by_handshake(log, h, c) && (forall|i: int|
                0 <= i < more.len() ==> #[trigger] more[i] != (SigEvent::Disconnected { handle: h }))
                ==> #[trigger] registered_by_handshake(log + more, h, c),
        forall|h: u16, id: u8, cid: u16|
            request_in_log(log, h, id, cid) ==> #[trigger] request_in_log(log + more, h, id, cid),
{
    let all = log + more;
    assert forall|h: u16, c: u16|
        registered_by_handshake(log, h, c) && (forall|i: int|
            0 <= i < more.len() ==> #[trigger] more[i] != (SigEvent::Disconnected { handle: h }))
            implies #[trigger] registered_by_handshake(all, h, c) by {
        let (j, k) = choose|j: int, k: int|
            #![trigger log[j], log[k]]
            {
                &&& 0 <= j < k < log.len()
                &&& rfcomm_request_on(log[j], h)
                &&& accepting_response_on(log[k], h, cmd_ident(log[j]))
                &&& c != 0
                &&& (c == le_u16_at(cmd_params(log[j]), 2) || c == le_u16_at(cmd_params(log[k]), 0)
                    || c == le_u16_at(cmd_params(log[k]), 2))
                &&& no_disconnection_after(log, h, k)
            };
        assert(all[j] == log[j] && all[k] == log[k]);
        assert forall|i: int| k < i < all.len() implies #[trigger] all[i] != (SigEvent::Disconnected {
            handle: h,
        }) by {
            if i < log.len() {
                assert(all[i] == log[i]);
            } else {
                assert(all[i] == more[i - log.len()]);
            }
        }
    }
    assert forall|h: u16, id: u8, cid: u16| request_in_log(log, h, id, cid) implies #[trigger] request_in_log(
        all,
        h,
        id,
        cid,
    ) by {
        let j = choose|j: int|
            #![trigger log[j]]
            0 <= j < log.len() && rfcomm_request_on(log[j], h) && cmd_ident(log[j]) == id
                && le_u16_at(cmd_params(log[j]), 2) == cid;
        assert(all[j] == log[j]);
    }
}

proof fn lemma_add_cid_members(cids: Seq<u16>, c: u16, x: u16)
    ensures
        add_cid(cids, c).contains(x) ==> cids.contains(x) || (x == c && c != 0),
{
    if add_cid(cids, c).contains(x) && !cids.contains(x) {
        let i = choose|i: int| 0 <= i < add_cid(cids, c).len() && add_cid(cids, c)[i] == x;
        if c != 0 && !cids.contains(c) {
            if i < cids.len() {
                assert(cids.push(c)[i] == cids[i]);
            }
        }
    }
}

/// One signalling command keeps the state explained by the log extended
/// with that command.
proof fn lemma_command_step(
    m: DecoderModel,
    log: Seq<SigEvent>,
    h: u16,
    code: u8,
    ident: u8,
    params: Seq<u8>,
)
    requires
        explained_by(m, log),
        h < 4096,
    ensures
        explained_by(
            spec_sig_command(m, h, code, ident, params),
            log.push(SigEvent::Command { handle: h, code, ident, params }),
        ),
{
    let e = SigEvent::Command { handle: h, code, ident, params };
    let log2 = log.push(e);
    assert(log2 =~= log + seq![e]);
    lemma_log_extends(log, seq![e]);
    let r = spec_sig_command(m, h, code, ident, params);
    assert(log2[log.len() as int] == e);
    assert forall|h2: u16, c: u16| #[trigger] cids_of(r, h2).contains(c) implies registered_by_handshake(
        log2,
        h2,
        c,
    ) by {
        assert(seq![e][0] == e);
        if cids_of(m, h2).contains(c) {
            assert(registered_by_handshake(log, h2, c));
        } else {
            // Only an accepting response can add CIDs, and only on `h`.
            assert(code == L2CAP_SIG_CONNECTION_RESPONSE && params.len() >= 6 && le_u16_at(params, 4)
                == 0 && m.pending_rfcomm.contains_key(sig_key(h, ident)) && h2 == h);
            let req = m.pending_rfcomm[sig_key(h, ident)];
            let c0 = cids_of(m, h);
            let c1 = add_cid(c0, le_u16_at(params, 0));
            let c2 = add_cid(c1, le_u16_at(params, 2));
            lemma_add_cid_members(c2, req, c);
            lemma_add_cid_members(c1, le_u16_at(params, 2), c);
            lemma_add_cid_members(c0, le_u16_at(params, 0), c);
            assert(request_in_log(log, h, ident, req));
            let j = choose|j: int|
                #![trigger log[j]]
                0 <= j < log.len() && rfcomm_request_on(log[j], h) && cmd_ident(log[j]) == ident
                    && le_u16_at(cmd_params(log[j]), 2) == req;
            let k = log.len() as int;
            assert(log2[j] == log[j]);
            assert(accepting_response_on(log2[k], h, cmd_ident(log2[j])));
            assert(no_disconnection_after(log2, h, k));
        }
    }
    assert forall|h2: u16, id: u8|
        h2 < 4096 && #[trigger] r.pending_rfcomm.contains_key(sig_key(h2, id)) implies request_in_log(
        log2,
        h2,
        id,
        r.pending_rfcomm[sig_key(h2, id)],
    ) by {
        if sig_key(h2, id) == sig_key(h, ident) {
            lemma_sig_key_injective(h2, id, h, ident);
            if code == L2CAP_SIG_CONNECTION_REQUEST && params.len() >= 4 && le_u16_at(params, 0)
                == L2CAP_PSM_RFCOMM {
                assert(rfcomm_request_on(log2[log.len() as int], h));
            } else {
                assert(m.pending_rfcomm.contains_key(sig_key(h2, id)));
                assert(request_in_log(log, h2, id, m.pending_rfcomm[sig_key(h2, id)]));
            }
        } else {
            assert(m.pending_rfcomm.contains_key(sig_key(h2, id)));
            assert(request_in_log(log, h2, id, m.pending_rfcomm[sig_key(h2, id)]));
        }
    }
}

/// The signalling commands a signalling PDU carries from `off` onwards, on
/// handle `h`, as the decoder reads them.
pub open spec fn sig_commands(h: u16, data: Seq<u8>, off: int) -> Seq<SigEvent>
    decreases data.len() - off,
{
    if off < 0 || off + 4 > data.len() {
        Seq::empty()
    } else {
        let len = le_u16_at(data, off + 2) as int;
        let start = off + 4;
        if start + len > data.len() {
            Seq::empty()
        } else {
            seq![
                SigEvent::Command {
                    handle: h,
                    code: data[off],
                    ident: data[off + 1],
                    params: data.subrange(start, start + len),
                },
            ] + sig_commands(h, data, start + len)
        }
    }
}

proof fn lemma_signalling_step(m: DecoderModel, log: Seq<SigEvent>, h: u16, data: Seq<u8>, off: int)
    requires
        explained_by(m, log),
        h < 4096,
    ensures
        explained_by(spec_signalling(m, h, data, off), log + sig_commands(h, data, off)),
    decreases data.len() - off,
{
    if off < 0 || off + 4 > data.len() {
        assert(log + sig_commands(h, data, off) =~= log);
    } else {
        let len = le_u16_at(data, off + 2) as int;
        let start = off + 4;
        if start + len > data.len() {
            assert(log + sig_commands(h, data, off) =~= log);
        } else {
            let params = data.subrange(start, start + len);
            let e = SigEvent::Command { handle: h, code: data[off], ident: data[off + 1], params };
            lemma_command_step(m, log, h, data[off], data[off + 1], params);
            let m1 = spec_sig_command(m, h, data[off], data[off + 1], params);
            lemma_signalling_step(m1, log.push(e), h, data, start + len);
            assert(log.push(e) + sig_commands(h, data, start + len) =~= log + sig_commands(
                h,
                data,
                off,
            ));
        }
    }
}

/// What one record tells the decoder about signalling and disconnections:
/// the commands of a signalling PDU it completes, or the disconnection it
/// reports.
pub open spec fn sig_events_of(m: DecoderModel, rec: (i64, Direction, Seq<u8>)) -> Seq<SigEvent> {
    let d = rec.2;
    if d.len() == 0 {
        Seq::empty()
    } else if d[0] == H4_EVENT {
        let ev = d.subrange(1, d.len() as int);
        let params = ev.subrange(2, ev.len() as int);
        if ev.len() >= 2 && ev[0] == EVT_DISCONNECTION_COMPLETE && params.len() >= 3 {
            seq![SigEvent::Disconnected { handle: le_u16_at(params, 1) & 0x0FFF }]
        } else {
            Seq::empty()
        }
    } else if d[0] == H4_ACL && d.len() >= 5 && d.len() - 5 >= le_u16_at(d, 3) {
        let buf = acl_buffer(m, d);
        let l2 = le_u16_at(buf, 0) as int;
        if buf.len() >= 4 && buf.len() >= l2 + 4 && le_u16_at(buf, 2) == L2CAP_CID_SIGNALLING {
            sig_commands(le_u16_at(d, 1) & 0x0FFF, buf.subrange(4, 4 + l2), 0)
        } else {
            Seq::empty()
        }
    } else {
        Seq::empty()
    }
}

/// Everything a log tells a fresh decoder about signalling and
/// disconnections, in order.
pub open spec fn signalling_log(recs: Seq<(i64, Direction, Seq<u8>)>) -> Seq<SigEvent>
    decreases recs.len(),
{
    if recs.len() == 0 {
        Seq::empty()
    } else {
        signalling_log(recs.drop_last()) + sig_events_of(
            decode_from(fresh_model(), recs.drop_last()).0,
            recs.last(),
        )
    }
}

proof fn lemma_push_step(m: DecoderModel, log: Seq<SigEvent>, rec: (i64, Direction, Seq<u8>))
    requires
        explained_by(m, log),
    ensures
        explained_by(spec_push(m, rec).0, log + sig_events_of(m, rec)),
{
    let d = rec.2;
    let after = spec_push(m, rec).0;
    let more = sig_events_of(m, rec);
    if d.len() == 0 || !(d[0] == H4_EVENT || d[0] == H4_ACL) {
        assert(log + more =~= log);
    } else if d[0] == H4_EVENT {
        let ev = d.subrange(1, d.len() as int);
        let params = ev.subrange(2, ev.len() as int);
        if ev.len() >= 2 && ev[0] == EVT_DISCONNECTION_COMPLETE && params.len() >= 3 {
            let gone = le_u16_at(params, 1) & 0x0FFF;
            lemma_log_extends(log, more);
            assert(more[0] == SigEvent::Disconnected { handle: gone });
            assert forall|h: u16, c: u16| #[trigger] cids_of(after, h).contains(c)
                implies registered_by_handshake(log + more, h, c) by {
                assert(h != gone);
                assert(cids_of(m, h).contains(c));
                assert(more[0] != (SigEvent::Disconnected { handle: h }));
            }
            assert forall|h: u16, id: u8|
                h < 4096 && #[trigger] after.pending_rfcomm.contains_key(sig_key(h, id)) implies request_in_log(
                log + more,
                h,
                id,
                after.pending_rfcomm[sig_key(h, id)],
            ) by {
                assert(request_in_log(log, h, id, m.pending_rfcomm[sig_key(h, id)]));
            }
        } else {
            assert(log + more =~= log);
            assert forall|h: u16, c: u16| #[trigger] cids_of(after, h).contains(c)
                implies registered_by_handshake(log, h, c) by {
                assert(cids_of(m, h).contains(c));
            }
        }
    } else {
        let header = le_u16_at(d, 1);
        let handle = header & 0x0FFF;
        assert(handle < 4096) by (bit_vector)
            requires
                handle == header & 0x0FFF,
        ;
        if d.len() >= 5 && d.len() - 5 >= le_u16_at(d, 3) {
            let buf = acl_buffer(m, d);
            let m1 = with_pending(m, handle, buf);
            let m2 = with_pending(m, handle, Seq::empty());
            assert(explained_by(m1, log)) by {
                assert forall|h: u16, c: u16| #[trigger] cids_of(m1, h).contains(c)
                    implies registered_by_handshake(log, h, c) by {
                    assert(cids_of(m, h).contains(c));
                }
            }
            assert(explained_by(m2, log)) by {
                assert forall|h: u16, c: u16| #[trigger] cids_of(m2, h).contains(c)
                    implies registered_by_handshake(log, h, c) by {
                    assert(cids_of(m, h).contains(c));
                }
            }
            let l2 = le_u16_at(buf, 0) as int;
            if buf.len() >= 4 && buf.len() >= l2 + 4 && le_u16_at(buf, 2) == L2CAP_CID_SIGNALLING {
                lemma_signalling_step(m2, log, handle, buf.subrange(4, 4 + l2), 0);
            } else {
                assert(log + more =~= log);
            }
        } else {
            assert(log + more =~= log);
        }
    }
}

/// A fresh decoder fed any log ends in a state that the log's signalling
/// explains.
proof fn lemma_history_explained(recs: Seq<(i64, Direction, Seq<u8>)>)
    ensures
        explained_by(decode_from(fresh_model(), recs).0, signalling_log(recs)),
    decreases recs.len(),
{
    if recs.len() == 0 {
        let m = fresh_model();
        assert forall|h: u16, c: u16| #[trigger] cids_of(m, h).contains(c) implies registered_by_handshake(
            Seq::empty(),
            h,
            c,
        ) by {
            assert(!m.rfcomm_cids.contains_key(h));
        }
    } else {
        let prefix = recs.drop_last();
        lemma_history_explained(prefix);
        let m1 = decode_from(fresh_model(), prefix).0;
        lemma_push_step(m1, signalling_log(prefix), recs.last());
    }
}

/// Over any log fed to a fresh decoder, a record yields RFCOMM frames only
/// if it is an ACL record completing an L2CAP PDU on a non-zero CID, other
/// than the signalling channel, that an earlier RFCOMM handshake on the
/// same connection handle registered: a Connection Request for the RFCOMM
/// PSM and its successful Connection Response with the same identifier,
/// the CID being the request's source CID or one of the response's two
/// CIDs, with no disconnection of that handle reported since the response.
pub proof fn law_frames_only_from_rfcomm_handshakes(recs: Seq<(i64, Direction, Seq<u8>)>, i: int)
    requires
        0 <= i < recs.len(),
    ensures
        ({
            let before = recs.subrange(0, i);
            let m = decode_from(fresh_model(), before).0;
            let d = recs[i].2;
            let buf = acl_buffer(m, d);
            let cid = le_u16_at(buf, 2);
            spec_push(m, recs[i]).1.len() > 0 ==> {
                &&& d.len() >= 5
                &&& d[0] == H4_ACL
                &&& buf.len() >= 4
                &&& cid != L2CAP_CID_SIGNALLING
                &&& registered_by_handshake(signalling_log(before), le_u16_at(d, 1) & 0x0FFF, cid)
            }
        }),
{
    let before = recs.subrange(0, i);
    law_logged_frames_only_on_registered_channels(recs, i);
    lemma_history_explained(before);
}

} // verus!
