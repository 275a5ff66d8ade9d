//! The engine's laws, each proved against the step predicates that the
//! engine's operations ensure.

use vstd::prelude::*;
use crate::json::JsonVal;
use crate::envelope::{EnvVal, env_id};
use crate::connection::{ConnView, FrameEvent, wf_conn, pending_has, pending_idx, request_step,
    respond_step, frame_step, dequeue_step, shutdown_step, take_step, internal_error_code};

verus! {

broadcast use vstd::seq::group_seq_axioms;

/// Any one operation of the engine, whatever its arguments.
pub open spec fn engine_step(pre: ConnView, post: ConnView) -> bool {
    ||| (exists|method: Seq<char>, params: JsonVal, id: int|
        request_step(pre, post, method, params, id))
    ||| (exists|id: int, outcome: Result<JsonVal, Seq<char>>| respond_step(pre, post, id, outcome))
    ||| (exists|line: Seq<char>, ev: FrameEvent| frame_step(pre, post, line, ev))
    ||| (exists|id: int, taken: Option<Seq<char>>| take_step(pre, post, id, taken))
    ||| (exists|r: Option<Seq<char>>| dequeue_step(pre, post, r))
    ||| (exists|drained: Seq<(int, Seq<char>)>| shutdown_step(pre, post, drained))
}

/// For every outgoing request, the id on the queued wire frame equals
/// the id keying the new pending entry.
pub proof fn law_request_wire_id(
    pre: ConnView,
    post: ConnView,
    method: Seq<char>,
    params: JsonVal,
    id: int,
)
    requires
        request_step(pre, post, method, params, id),
    ensures
        post.outgoing.len() == pre.outgoing.len() + 1,
        post.pending.len() == pre.pending.len() + 1,
        env_id(post.outgoing.last()) == id,
        post.pending.last().0 == id,
{
}

/// Across any run of the engine, ids handed out by `request` are
/// strictly increasing: a request issued from any later state gets a
/// greater id. No operation ever lowers the allocator.
pub proof fn law_ids_strictly_increase(
    s0: ConnView,
    s1: ConnView,
    method0: Seq<char>,
    params0: JsonVal,
    id0: int,
    s2: ConnView,
    s3: ConnView,
    method1: Seq<char>,
    params1: JsonVal,
    id1: int,
)
    requires
        request_step(s0, s1, method0, params0, id0),
        s1.next_id <= s2.next_id,
        request_step(s2, s3, method1, params1, id1),
    ensures
        id1 > id0,
{
}

/// No operation lowers the allocator, so the premise of
/// `law_ids_strictly_increase` holds across any run.
pub proof fn law_next_id_monotonic(pre: ConnView, post: ConnView)
    requires
        engine_step(pre, post),
    ensures
        post.next_id >= pre.next_id,
{
}

/// An error frame resolves its request at most once: it removes the
/// pending entry for its id, and no other entry carries that id.
pub proof fn law_resolve_removes(
    pre: ConnView,
    post: ConnView,
    line: Seq<char>,
    id: i32,
    method: String,
    error: crate::envelope::Error,
)
    requires
        wf_conn(pre),
        frame_step(pre, post, line, FrameEvent::Failed { id, method, error }),
    ensures
        pending_has(pre.pending, id as int),
        !pending_has(post.pending, id as int),
{
    let j = pending_idx(pre.pending, id as int);
    assert(0 <= j < pre.pending.len() && pre.pending[j].0 == id as int) by {
        match crate::envelope::decode_frame(line) {
            Some(EnvVal::ErrorResponse { id: fid, code, message }) => {
                assert(pending_has(pre.pending, fid));
            },
            _ => {},
        }
    }
    pre.pending.remove_ensures(j);
    if pending_has(post.pending, id as int) {
        let k = choose|k: int|
            0 <= k < post.pending.len() && post.pending[k].0 == id as int;
        if k < j {
            assert(post.pending[k] == pre.pending[k]);
        } else {
            assert(post.pending[k] == pre.pending[k + 1]);
        }
    }
}

/// Accepting a decoded success payload resolves its request at most
/// once: the removal leaves no entry carrying that id, so a second
/// acceptance finds nothing.
pub proof fn law_accept_removes(pre: ConnView, post: ConnView, id: int, taken: Option<Seq<char>>)
    requires
        wf_conn(pre),
        take_step(pre, post, id, taken),
        pending_has(pre.pending, id),
    ensures
        !pending_has(post.pending, id),
{
    let j = pending_idx(pre.pending, id);
    assert(0 <= j < pre.pending.len() && pre.pending[j].0 == id);
    pre.pending.remove_ensures(j);
    if pending_has(post.pending, id) {
        let k = choose|k: int| 0 <= k < post.pending.len() && post.pending[k].0 == id;
        if k < j {
            assert(post.pending[k] == pre.pending[k]);
        } else {
            assert(post.pending[k] == pre.pending[k + 1]);
        }
    }
}

/// A success frame whose payload is never accepted leaves the pending
/// table untouched: the entry stays for the caller's own deadline.
pub proof fn law_unaccepted_response_keeps_entry(
    pre: ConnView,
    post: ConnView,
    line: Seq<char>,
    id: i32,
    method: String,
    result: crate::json::Json,
)
    requires
        frame_step(pre, post, line, FrameEvent::Response { id, method, result }),
    ensures
        post.pending == pre.pending,
        post.outgoing == pre.outgoing,
        pending_has(post.pending, id as int),
{
    match crate::envelope::decode_frame(line) {
        Some(EnvVal::OkResponse { id: fid, result: fresult }) => {
            assert(pending_has(pre.pending, fid));
        },
        _ => {},
    }
}

/// A resolved id never becomes pending again: every engine operation
/// preserves "allocated but no longer pending".
pub proof fn law_resolved_stays_resolved(pre: ConnView, post: ConnView, id: int)
    requires
        wf_conn(pre),
        engine_step(pre, post),
        0 <= id < pre.next_id,
        !pending_has(pre.pending, id),
    ensures
        id < post.next_id,
        !pending_has(post.pending, id),
{
    if exists|method: Seq<char>, params: JsonVal, rid: int|
        request_step(pre, post, method, params, rid) {
        let (method, params, rid) = choose|method: Seq<char>, params: JsonVal, rid: int|
            request_step(pre, post, method, params, rid);
        if pending_has(post.pending, id) {
            let k = choose|k: int|
                0 <= k < post.pending.len() && post.pending[k].0 == id;
            if k < pre.pending.len() {
                assert(pre.pending[k].0 == id);
            } else {
                assert(post.pending[k].0 == rid);
            }
        }
    } else if exists|line: Seq<char>, ev: FrameEvent| frame_step(pre, post, line, ev) {
        let (line, ev) = choose|line: Seq<char>, ev: FrameEvent| frame_step(pre, post, line, ev);
        if pending_has(post.pending, id) {
            let k = choose|k: int|
                0 <= k < post.pending.len() && post.pending[k].0 == id;
            if post.pending == pre.pending {
                assert(pre.pending[k].0 == id);
            } else {
                match crate::envelope::decode_frame(line) {
                    Some(EnvVal::ErrorResponse { id: fid, code, message }) => {
                        let j = pending_idx(pre.pending, fid);
                        pre.pending.remove_ensures(j);
                        if k < j {
                            assert(pre.pending[k].0 == id);
                        } else {
                            assert(pre.pending[k + 1].0 == id);
                        }
                    },
                    _ => {},
                }
            }
        }
    } else if exists|tid: int, taken: Option<Seq<char>>| take_step(pre, post, tid, taken) {
        let (tid, taken) = choose|tid: int, taken: Option<Seq<char>>|
            take_step(pre, post, tid, taken);
        if pending_has(post.pending, id) {
            let k = choose|k: int|
                0 <= k < post.pending.len() && post.pending[k].0 == id;
            if post.pending == pre.pending {
                assert(pre.pending[k].0 == id);
            } else {
                let j = pending_idx(pre.pending, tid);
                pre.pending.remove_ensures(j);
                if k < j {
                    assert(pre.pending[k].0 == id);
                } else {
                    assert(pre.pending[k + 1].0 == id);
                }
            }
        }
    }
}

/// A response whose id has no pending entry is dropped without side
/// effect: the engine is left exactly as it was.
pub proof fn law_unmatched_response_dropped(
    pre: ConnView,
    post: ConnView,
    line: Seq<char>,
    ev: FrameEvent,
)
    requires
        frame_step(pre, post, line, ev),
        ev is Dropped,
    ensures
        post.next_id == pre.next_id,
        post.pending == pre.pending,
        post.outgoing == pre.outgoing,
{
}

/// A handler error yields exactly one error envelope on the wire, with
/// the internal error code and the handler's message.
pub proof fn law_handler_error_envelope(
    pre: ConnView,
    post: ConnView,
    id: int,
    message: Seq<char>,
)
    requires
        respond_step(pre, post, id, Err(message)),
    ensures
        post.outgoing.len() == pre.outgoing.len() + 1,
        post.outgoing.last() == (EnvVal::ErrorResponse {
            id,
            code: internal_error_code(),
            message,
        }),
        forall|k: int| 0 <= k < pre.outgoing.len() ==> post.outgoing[k] == pre.outgoing[k],
        post.pending == pre.pending,
{
    assert(forall|k: int|
        0 <= k < pre.outgoing.len() ==> post.outgoing[k] == pre.outgoing[k]);
}

/// Frames leave the queue whole and in order: one dequeue hands out the
/// first queued frame as one serialized line, and a second dequeue
/// hands out the frame queued after it.
pub proof fn law_frames_leave_in_order(
    s0: ConnView,
    s1: ConnView,
    s2: ConnView,
    r0: Option<Seq<char>>,
    r1: Option<Seq<char>>,
)
    requires
        s0.outgoing.len() >= 2,
        dequeue_step(s0, s1, r0),
        dequeue_step(s1, s2, r1),
    ensures
        r0 == Some(crate::json::ser(crate::envelope::env_to_jval(s0.outgoing[0]))),
        r1 == Some(crate::json::ser(crate::envelope::env_to_jval(s0.outgoing[1]))),
{
    assert(s1.outgoing.first() == s0.outgoing[1]);
}

/// Shutdown drains the whole pending table: every entry leaves, each
/// with a distinct id, and nothing stays pending.
pub proof fn law_shutdown_drains(pre: ConnView, post: ConnView, drained: Seq<(int, Seq<char>)>)
    requires
        wf_conn(pre),
        shutdown_step(pre, post, drained),
    ensures
        post.pending.len() == 0,
        drained == pre.pending,
        forall|k1: int, k2: int|
            0 <= k1 < k2 < drained.len() ==> #[trigger] drained[k1].0 != #[trigger] drained[k2].0,
{
}

} // verus!
