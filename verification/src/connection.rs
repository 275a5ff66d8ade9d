//! The connection engine.
//!
//! One engine runs on each endpoint. It owns the outgoing frame queue,
//! the pending-response table keyed by correlation id, and the monotonic
//! id allocator. The surrounding runtime pumps it: it writes the frames
//! `next_outgoing` hands out, feeds every received line to
//! `handle_frame`, dispatches `Incoming` events to the handler, and
//! hands the handler's outcome back through `respond`.

use vstd::prelude::*;
use crate::json::{Json, JsonVal, jval, ser};
use crate::envelope::{Envelope, EnvVal, Error, env_to_jval, decode_frame};

verus! {

broadcast use {vstd::std_specs::vec::group_vec_axioms, vstd::seq::group_seq_axioms};

/// The error code for engine-generated failures, including handler
/// errors surfaced on the wire.
pub open spec fn internal_error_code() -> int {
    -32603
}

/// The mathematical model of an engine: the next correlation id, the
/// pending table (id and method of every request awaiting a response,
/// in insertion order) and the queue of frames not yet written.
pub struct ConnView {
    pub next_id: int,
    pub pending: Seq<(int, Seq<char>)>,
    pub outgoing: Seq<EnvVal>,
}

/// Whether some pending entry carries `id`.
pub open spec fn pending_has(pending: Seq<(int, Seq<char>)>, id: int) -> bool {
    exists|k: int| 0 <= k < pending.len() && pending[k].0 == id
}

/// The position of the pending entry carrying `id`.
pub open spec fn pending_idx(pending: Seq<(int, Seq<char>)>, id: int) -> int {
    choose|k: int| 0 <= k < pending.len() && pending[k].0 == id
}

/// The engine invariant: every pending id was allocated here (it is
/// below the allocator), ids never repeat in the table, and every
/// queued frame carries an id the wire can hold.
pub open spec fn wf_conn(c: ConnView) -> bool {
    &&& 0 <= c.next_id <= i32::MAX
    &&& forall|k: int| 0 <= k < c.pending.len() ==> 0 <= #[trigger] c.pending[k].0 < c.next_id
    &&& forall|k1: int, k2: int|
        0 <= k1 < k2 < c.pending.len() ==> #[trigger] c.pending[k1].0
            != #[trigger] c.pending[k2].0
}

/// The engine.
pub struct Connection {
    next_id: i32,
    pending: Vec<(i32, String)>,
    outgoing: Vec<Envelope>,
}

impl View for Connection {
    type V = ConnView;

    closed spec fn view(&self) -> ConnView {
        ConnView {
            next_id: self.next_id as int,
            pending: Seq::new(
                self.pending@.len(),
                |k: int| (self.pending@[k].0 as int, self.pending@[k].1@),
            ),
            outgoing: Seq::new(self.outgoing@.len(), |k: int| self.outgoing@[k]@),
        }
    }
}

/// What one received line did to the engine.
pub enum FrameEvent {
    /// The line was not a frame; it was dropped and nothing changed.
    Malformed,
    /// The peer sent a request; the handler layer must answer it.
    Incoming { id: i32, method: String, params: Json },
    /// A success frame matched the pending entry for `id`; `method` is
    /// the method the request was sent under. The entry stays in place:
    /// the caller removes it with `take_pending` once the payload
    /// decodes, and leaves it to its own deadline otherwise.
    Response { id: i32, method: String, result: Json },
    /// An error frame matched the pending entry for `id`, which is now
    /// removed.
    Failed { id: i32, method: String, error: Error },
    /// A response arrived whose id has no pending entry; it was dropped
    /// and nothing changed.
    Dropped,
}

/// A `request` call: it allocates the next id, appends the pending
/// entry, and queues the request frame under that same id.
pub open spec fn request_step(
    pre: ConnView,
    post: ConnView,
    method: Seq<char>,
    params: JsonVal,
    id: int,
) -> bool {
    &&& id == pre.next_id
    &&& post.next_id == id + 1
    &&& post.pending == pre.pending.push((id, method))
    &&& post.outgoing == pre.outgoing.push(EnvVal::Request { id, method, params })
}

/// A handler outcome: exactly one response frame is queued for `id` —
/// a success frame, or an error frame with the internal error code and
/// the handler's message.
pub open spec fn respond_step(
    pre: ConnView,
    post: ConnView,
    id: int,
    outcome: Result<JsonVal, Seq<char>>,
) -> bool {
    &&& post.next_id == pre.next_id
    &&& post.pending == pre.pending
    &&& post.outgoing == pre.outgoing.push(
        match outcome {
            Ok(result) => EnvVal::OkResponse { id, result },
            Err(message) => EnvVal::ErrorResponse { id, code: internal_error_code(), message },
        },
    )
}

/// A dequeue of the next outgoing frame: when the queue is empty
/// nothing happens, otherwise exactly the first frame leaves, whole,
/// serialized as one line.
pub open spec fn dequeue_step(pre: ConnView, post: ConnView, r: Option<Seq<char>>) -> bool {
    &&& post.next_id == pre.next_id
    &&& post.pending == pre.pending
    &&& if pre.outgoing.len() == 0 {
        r is None && post.outgoing == pre.outgoing
    } else {
        (r matches Some(line) && line == ser(env_to_jval(pre.outgoing.first()))) && post.outgoing
            == pre.outgoing.drop_first()
    }
}

/// A shutdown: the pending table is emptied and handed back whole, in
/// order, for the caller to resolve with connection-closed errors.
pub open spec fn shutdown_step(
    pre: ConnView,
    post: ConnView,
    drained: Seq<(int, Seq<char>)>,
) -> bool {
    &&& post.next_id == pre.next_id
    &&& post.outgoing == pre.outgoing
    &&& post.pending == Seq::<(int, Seq<char>)>::empty()
    &&& drained == pre.pending
}

/// A removal of the pending entry for `id`: when one exists it leaves,
/// its stored method is handed back, and nothing else changes.
pub open spec fn take_step(
    pre: ConnView,
    post: ConnView,
    id: int,
    taken: Option<Seq<char>>,
) -> bool {
    &&& post.next_id == pre.next_id
    &&& post.outgoing == pre.outgoing
    &&& if pending_has(pre.pending, id) {
        (taken matches Some(m) && m == pre.pending[pending_idx(pre.pending, id)].1)
            && post.pending == pre.pending.remove(pending_idx(pre.pending, id))
    } else {
        taken is None && post.pending == pre.pending
    }
}

/// A received line. A request is forwarded untouched. A success frame
/// with a pending id is reported with its stored method and raw payload,
/// the entry left in place for the caller to accept or leave. An error
/// frame with a pending id resolves and removes the entry. A response
/// with no matching entry, and any unparseable line, is dropped without
/// effect.
pub open spec fn frame_step(pre: ConnView, post: ConnView, line: Seq<char>, ev: FrameEvent) -> bool {
    &&& post.next_id == pre.next_id
    &&& post.outgoing == pre.outgoing
    &&& match decode_frame(line) {
        None => ev is Malformed && post.pending == pre.pending,
        Some(EnvVal::Request { id, method, params }) => {
            &&& ev matches FrameEvent::Incoming { id: eid, method: emethod, params: eparams }
                && eid as int == id && emethod@ == method && eparams@ == params
            &&& post.pending == pre.pending
        },
        Some(EnvVal::OkResponse { id, result }) => {
            &&& post.pending == pre.pending
            &&& if pending_has(pre.pending, id) {
                ev matches FrameEvent::Response { id: eid, method, result: eresult }
                    && eid as int == id && method@ == pre.pending[pending_idx(pre.pending, id)].1
                    && eresult@ == result
            } else {
                ev is Dropped
            }
        },
        Some(EnvVal::ErrorResponse { id, code, message }) => {
            if pending_has(pre.pending, id) {
                &&& ev matches FrameEvent::Failed { id: eid, method, error }
                    && eid as int == id && method@ == pre.pending[pending_idx(pre.pending, id)].1
                    && error.code as int == code && error.message@ == message
                &&& post.pending == pre.pending.remove(pending_idx(pre.pending, id))
            } else {
                ev is Dropped && post.pending == pre.pending
            }
        },
    }
}

impl Connection {
    /// A fresh engine: ids start at zero, nothing pending, nothing
    /// queued.
    pub fn new() -> (c: Connection)
        ensures
            c@.next_id == 0,
            c@.pending =~= Seq::<(int, Seq<char>)>::empty(),
            c@.outgoing =~= Seq::<EnvVal>::empty(),
            wf_conn(c@),
    {
        Connection { next_id: 0, pending: Vec::new(), outgoing: Vec::new() }
    }

    /// How many requests still await a response.
    pub fn pending_len(&self) -> (n: usize)
        ensures
            n == self@.pending.len(),
    {
        self.pending.len()
    }

    /// The next correlation id the allocator will hand out.
    pub fn next_id(&self) -> (n: i32)
        ensures
            n as int == self@.next_id,
    {
        self.next_id
    }

    /// Whether any frame waits to be written.
    pub fn has_outgoing(&self) -> (b: bool)
        ensures
            b == (self@.outgoing.len() > 0),
    {
        self.outgoing.len() > 0
    }

    /// Sends a request: allocates the next id, records the pending
    /// entry, and queues a request frame carrying that same id.
    pub fn request(&mut self, method: String, params: Json) -> (id: i32)
        requires
            wf_conn(old(self)@),
            old(self)@.next_id < i32::MAX,
        ensures
            request_step(old(self)@, final(self)@, method@, params@, id as int),
            id as int == old(self)@.next_id,
            wf_conn(final(self)@),
    {
        let id = self.next_id;
        self.next_id = self.next_id + 1;
        let ghost pre_pending = self@.pending;
        let ghost pre_outgoing = self@.outgoing;
        self.pending.push((id, method.clone()));
        self.outgoing.push(Envelope::Request { id, method, params });
        proof {
            assert(self@.pending =~= pre_pending.push((id as int, method@)));
            assert(self@.outgoing =~= pre_outgoing.push(
                EnvVal::Request { id: id as int, method: method@, params: params@ },
            ));
        }
        id
    }

    /// Queues the handler's outcome for request `id`: one success
    /// frame, or one error frame with the internal error code and the
    /// handler's message.
    pub fn respond(&mut self, id: i32, outcome: Result<Json, String>)
        requires
            wf_conn(old(self)@),
        ensures
            respond_step(
                old(self)@,
                final(self)@,
                id as int,
                match outcome {
                    Ok(r) => Ok(r@),
                    Err(m) => Err(m@),
                },
            ),
            wf_conn(final(self)@),
    {
        let ghost pre_outgoing = self@.outgoing;
        let ghost model = match outcome {
            Ok(ref r) => Ok::<JsonVal, Seq<char>>(r@),
            Err(ref m) => Err::<JsonVal, Seq<char>>(m@),
        };
        match outcome {
            Ok(result) => {
                self.outgoing.push(Envelope::OkResponse { id, result });
            },
            Err(message) => {
                self.outgoing.push(
                    Envelope::ErrorResponse { id, error: Error { code: -32603, message } },
                );
            },
        }
        proof {
            assert(self@.outgoing =~= pre_outgoing.push(
                match model {
                    Ok(result) => EnvVal::OkResponse { id: id as int, result },
                    Err(message) => EnvVal::ErrorResponse {
                        id: id as int,
                        code: internal_error_code(),
                        message,
                    },
                },
            ));
            assert(self@.pending =~= old(self)@.pending);
        }
    }

    /// Takes the next frame to write, serialized as one line (without
    /// the newline). Frames leave whole and in the order they were
    /// queued.
    pub fn next_outgoing(&mut self) -> (r: Option<String>)
        requires
            wf_conn(old(self)@),
        ensures
            dequeue_step(
                old(self)@,
                final(self)@,
                match r {
                    Some(ref line) => Some(line@),
                    None => None,
                },
            ),
            wf_conn(final(self)@),
    {
        if self.outgoing.len() == 0 {
            proof {
                assert(final(self)@.outgoing =~= old(self)@.outgoing);
                assert(final(self)@.pending =~= old(self)@.pending);
            }
            return None;
        }
        let env = self.outgoing.remove(0);
        proof {
            assert(self@.outgoing =~= old(self)@.outgoing.drop_first());
            assert(self@.pending =~= old(self)@.pending);
        }
        Some(env.encode())
    }

    /// Handles one received line. Requests are forwarded to the handler
    /// layer. A success frame with a pending id is reported with its
    /// stored method, the entry left in place; an error frame resolves
    /// and removes its entry; a response with no matching entry, and any
    /// unparseable line, is dropped without side effect.
    pub fn handle_frame(&mut self, line: &str) -> (ev: FrameEvent)
        requires
            wf_conn(old(self)@),
        ensures
            frame_step(old(self)@, final(self)@, line@, ev),
            wf_conn(final(self)@),
    {
        let env = match Envelope::decode(line) {
            None => {
                return FrameEvent::Malformed;
            },
            Some(env) => env,
        };
        match env {
            Envelope::Request { id, method, params } => FrameEvent::Incoming {
                id,
                method,
                params,
            },
            Envelope::OkResponse { id, result } => {
                match self.peek_pending(id) {
                    None => FrameEvent::Dropped,
                    Some(method) => FrameEvent::Response { id, method, result },
                }
            },
            Envelope::ErrorResponse { id, error } => {
                match self.take_pending(id) {
                    None => FrameEvent::Dropped,
                    Some(method) => FrameEvent::Failed { id, method, error },
                }
            },
        }
    }

    /// The method stored under the pending entry for `id`, if one
    /// exists; the table is left untouched.
    pub fn peek_pending(&self, id: i32) -> (r: Option<String>)
        requires
            wf_conn(self@),
        ensures
            match r {
                Some(method) => pending_has(self@.pending, id as int) && method@
                    == self@.pending[pending_idx(self@.pending, id as int)].1,
                None => !pending_has(self@.pending, id as int),
            },
    {
        let mut i: usize = 0;
        while i < self.pending.len()
            invariant
                i <= self.pending@.len(),
                wf_conn(self@),
                forall|k: int| 0 <= k < i ==> self@.pending[k].0 != id as int,
            decreases self.pending@.len() - i,
        {
            if self.pending[i].0 == id {
                proof {
                    assert(self@.pending[i as int].0 == id as int);
                    assert(pending_has(self@.pending, id as int));
                    // ids are distinct, so the match at `i` is the match
                    let j = pending_idx(self@.pending, id as int);
                    assert(0 <= j < self@.pending.len() && self@.pending[j].0 == id as int);
                    assert(j == i as int) by {
                        if j < i as int {
                            assert(self@.pending[j].0 != id as int);
                        } else if j > i as int {
                            assert(self@.pending[i as int].0 != self@.pending[j].0);
                        }
                    }
                }
                return Some(self.pending[i].1.clone());
            }
            i = i + 1;
        }
        proof {
            if pending_has(self@.pending, id as int) {
                let j = pending_idx(self@.pending, id as int);
                assert(0 <= j < self@.pending.len() && self@.pending[j].0 == id as int);
                assert(false);
            }
        }
        None
    }

    /// Removes and returns the pending entry for `id`, if one exists.
    /// After a success frame is reported, the caller accepts the
    /// response by removing the entry here; an entry never accepted is
    /// left for the caller's own deadline and for shutdown.
    pub fn take_pending(&mut self, id: i32) -> (r: Option<String>)
        requires
            wf_conn(old(self)@),
        ensures
            take_step(
                old(self)@,
                final(self)@,
                id as int,
                match r {
                    Some(ref method) => Some(method@),
                    None => None,
                },
            ),
            wf_conn(final(self)@),
    {
        let ghost pre = self@.pending;
        let mut i: usize = 0;
        while i < self.pending.len()
            invariant
                i <= self.pending@.len(),
                self@.pending == pre,
                self@ == old(self)@,
                wf_conn(self@),
                forall|k: int| 0 <= k < i ==> pre[k].0 != id as int,
            decreases self.pending@.len() - i,
        {
            if self.pending[i].0 == id {
                let ghost prevec = self.pending@;
                let entry = self.pending.remove(i);
                proof {
                    assert(pre[i as int].0 == id as int);
                    assert(pending_has(pre, id as int));
                    // ids are distinct, so the match at `i` is the match
                    let j = pending_idx(pre, id as int);
                    assert(0 <= j < pre.len() && pre[j].0 == id as int);
                    assert(j == i as int) by {
                        if j < i as int {
                            assert(pre[j].0 != id as int);
                        } else if j > i as int {
                            assert(pre[i as int].0 != pre[j].0);
                        }
                    }
                    prevec.remove_ensures(i as int);
                    pre.remove_ensures(i as int);
                    assert forall|k: int| 0 <= k < self@.pending.len() implies self@.pending[k]
                        == pre.remove(i as int)[k] by {
                        if k < i as int {
                            assert(self.pending@[k] == prevec[k]);
                        } else {
                            assert(self.pending@[k] == prevec[k + 1]);
                        }
                    }
                    assert(self@.pending =~= pre.remove(i as int));
                    assert(self@.outgoing =~= old(self)@.outgoing);
                }
                return Some(entry.1);
            }
            i = i + 1;
        }
        proof {
            if pending_has(pre, id as int) {
                let j = pending_idx(pre, id as int);
                assert(0 <= j < pre.len() && pre[j].0 == id as int);
                assert(false);
            }
            assert(final(self)@.pending =~= old(self)@.pending);
            assert(final(self)@.outgoing =~= old(self)@.outgoing);
        }
        None
    }

    /// Shuts the connection down: empties the pending table and hands
    /// every drained entry back, in order, so the caller can resolve
    /// each with a connection-closed error.
    pub fn shutdown(&mut self) -> (drained: Vec<(i32, String)>)
        requires
            wf_conn(old(self)@),
        ensures
            shutdown_step(
                old(self)@,
                final(self)@,
                Seq::new(drained@.len(), |k: int| (drained@[k].0 as int, drained@[k].1@)),
            ),
            wf_conn(final(self)@),
    {
        let mut drained: Vec<(i32, String)> = Vec::new();
        core::mem::swap(&mut drained, &mut self.pending);
        proof {
            assert(self@.pending =~= Seq::<(int, Seq<char>)>::empty());
            assert(self@.outgoing =~= old(self)@.outgoing);
            assert(Seq::new(drained@.len(), |k: int| (drained@[k].0 as int, drained@[k].1@))
                =~= old(self)@.pending);
        }
        drained
    }
}

} // verus!
