//! The host dispatcher: translates validated operations into calls against
//! the host's node-registry capability, buffering the calls of an open
//! batch and flushing them atomically at commit.
//!
//! The dispatcher is a pure function from the operation list to the host
//! call sequence: the caller performs the calls. An error inside a batch
//! discards the batch's queued calls and asks the host to abort; an error
//! outside a batch stops the stream. Already committed batches stay
//! committed.

use vstd::prelude::*;

use crate::scan::ScanState;
use crate::scan::ScanStateV;
use crate::scan::entries_wf;
use crate::scan::scan_init;
use crate::scan::scan_op;
use crate::scan::scan_op_exec;
use crate::scan::scan_ops;
use crate::scan::validate_ops;
use crate::tmpltab::TemplateV;
use crate::tmpltab::templates_view;
use crate::wire::DecodeError;
use crate::wire::Limits;
use crate::wire::Operation;
use crate::wire::PropertyValue;
use crate::wire::TemplateDef;

verus! {

/// One call against the host capability, in the order the host must see
/// them.
#[derive(Debug, Clone, PartialEq, Eq)]
pub enum HostCall {
    RegisterTemplate { template_id: u16 },
    CloneTemplate { instance_id: u32, template_id: u16, parent_id: u32 },
    SetText { instance_id: u32, slot_id: u16, string_id: u32 },
    SetAttr { instance_id: u32, slot_id: u16, attr_name_id: u32, value_id: u32 },
    ToggleClass { instance_id: u32, class_name_id: u32, enabled: bool },
    AttachEvent { instance_id: u32, event_type_id: u32, handler_id: u32 },
    SetProperty { instance_id: u32, prop_name_id: u32, value: PropertyValue },
    AppendChild { parent_id: u32, child_id: u32 },
    Remove { instance_id: u32 },
    BeginBatch { batch_id: u32 },
    CommitBatch { batch_id: u32 },
    AbortBatch { batch_id: u32 },
}

/// The dispatcher's mathematical state: the reference scan, the calls
/// already handed to the host, the queued calls of the open batch, and the
/// template ids already registered (each is registered once).
pub struct DispatchSt {
    pub scan: ScanStateV,
    pub committed: Seq<HostCall>,
    pub pending: Option<(u32, Seq<HostCall>)>,
    pub registered: Seq<u16>,
}

pub open spec fn dispatch_init() -> DispatchSt {
    DispatchSt {
        scan: scan_init(),
        committed: Seq::empty(),
        pending: None,
        registered: Seq::empty(),
    }
}

/// The direct host call of a non-batch operation, if it makes one.
/// A `TemplateDef` whose template is already registered makes none.
pub open spec fn call_of(op: Operation, registered: Seq<u16>) -> Option<HostCall> {
    match op {
        Operation::TemplateDef(t) => if registered.contains(t.template_id) {
            None
        } else {
            Some(HostCall::RegisterTemplate { template_id: t.template_id })
        },
        Operation::Instantiate(p) => Some(
            HostCall::CloneTemplate {
                instance_id: p.instance_id,
                template_id: p.template_id,
                parent_id: p.parent_id,
            },
        ),
        Operation::PatchText(p) => Some(
            HostCall::SetText {
                instance_id: p.instance_id,
                slot_id: p.slot_id,
                string_id: p.string_id,
            },
        ),
        Operation::PatchAttr(p) => Some(
            HostCall::SetAttr {
                instance_id: p.instance_id,
                slot_id: p.slot_id,
                attr_name_id: p.attr_name_id,
                value_id: p.value_id,
            },
        ),
        Operation::PatchClassToggle(p) => Some(
            HostCall::ToggleClass {
                instance_id: p.instance_id,
                class_name_id: p.class_name_id,
                enabled: p.enabled,
            },
        ),
        Operation::AttachEvent(p) => Some(
            HostCall::AttachEvent {
                instance_id: p.instance_id,
                event_type_id: p.event_type_id,
                handler_id: p.handler_id,
            },
        ),
        Operation::SetProperty(p) => Some(
            HostCall::SetProperty {
                instance_id: p.instance_id,
                prop_name_id: p.prop_name_id,
                value: p.value,
            },
        ),
        Operation::AppendChild(p) => Some(
            HostCall::AppendChild { parent_id: p.parent_id, child_id: p.child_id },
        ),
        Operation::RemoveNode(p) => Some(HostCall::Remove { instance_id: p.instance_id }),
        Operation::BatchStart(_) => None,
        Operation::BatchCommit(_) => None,
    }
}

/// The registered-template list after an operation.
pub open spec fn registered_after(op: Operation, registered: Seq<u16>) -> Seq<u16> {
    match op {
        Operation::TemplateDef(t) => if registered.contains(t.template_id) {
            registered
        } else {
            registered.push(t.template_id)
        },
        _ => registered,
    }
}

/// The calls already given out when the dispatcher stops on an error: the
/// committed calls, plus an `AbortBatch` when a batch was open (its queued
/// calls are discarded; the host reverts its side effects).
pub open spec fn abort_calls(st: DispatchSt) -> Seq<HostCall> {
    match st.pending {
        Some((bid, _)) => st.committed.push(HostCall::AbortBatch { batch_id: bid }),
        None => st.committed,
    }
}

/// The queued calls of the open batch, or empty when none is open.
pub open spec fn pending_q(st: DispatchSt) -> Seq<HostCall> {
    match st.pending {
        Some((_, q)) => q,
        None => Seq::empty(),
    }
}

/// One dispatcher step: validate the operation with the scan, then emit or
/// queue its host call. `BatchStart` opens the queue; `BatchCommit` flushes
/// `BeginBatch`, the queued calls, and `CommitBatch`, in textual order.
pub open spec fn dispatch_step(
    tv: Seq<TemplateV>,
    n_strings: int,
    lim: Limits,
    st: DispatchSt,
    op: Operation,
) -> Result<DispatchSt, (Seq<HostCall>, DecodeError)> {
    match scan_op(tv, n_strings, lim, st.scan, op) {
        Err(e) => Err((abort_calls(st), e)),
        Ok(scan2) => Ok(
            match op {
                Operation::BatchStart(p) => DispatchSt {
                    scan: scan2,
                    pending: Some((p.batch_id, Seq::empty())),
                    ..st
                },
                Operation::BatchCommit(p) => DispatchSt {
                    scan: scan2,
                    committed: st.committed.push(HostCall::BeginBatch { batch_id: p.batch_id })
                        + pending_q(st) + seq![HostCall::CommitBatch { batch_id: p.batch_id }],
                    pending: None,
                    ..st
                },
                _ => {
                    let reg2 = registered_after(op, st.registered);
                    match call_of(op, st.registered) {
                        None => DispatchSt { scan: scan2, registered: reg2, ..st },
                        Some(c) => match st.pending {
                            Some((bid, q)) => DispatchSt {
                                scan: scan2,
                                pending: Some((bid, q.push(c))),
                                registered: reg2,
                                ..st
                            },
                            None => DispatchSt {
                                scan: scan2,
                                committed: st.committed.push(c),
                                registered: reg2,
                                ..st
                            },
                        },
                    }
                },
            },
        ),
    }
}

/// Run the dispatcher over an operation list, returning its state, or the
/// terminal calls and error.
pub open spec fn dispatch_steps(
    tv: Seq<TemplateV>,
    n_strings: int,
    lim: Limits,
    st: DispatchSt,
    ops: Seq<Operation>,
) -> Result<DispatchSt, (Seq<HostCall>, DecodeError)>
    decreases ops.len(),
{
    if ops.len() == 0 {
        Ok(st)
    } else {
        match dispatch_step(tv, n_strings, lim, st, ops[0]) {
            Err(r) => Err(r),
            Ok(st2) => dispatch_steps(tv, n_strings, lim, st2, ops.skip(1)),
        }
    }
}

/// The host call sequence and final error of dispatching an operation
/// list from a state: a batch still open at end of stream is aborted and
/// reported as `UnbalancedBatch`.
pub open spec fn dispatch_from(
    tv: Seq<TemplateV>,
    n_strings: int,
    lim: Limits,
    st: DispatchSt,
    ops: Seq<Operation>,
) -> (Seq<HostCall>, Option<DecodeError>) {
    match dispatch_steps(tv, n_strings, lim, st, ops) {
        Err((calls, e)) => (calls, Some(e)),
        Ok(st2) => match st2.pending {
            Some((bid, _)) => (
                st2.committed.push(HostCall::AbortBatch { batch_id: bid }),
                Some(DecodeError::UnbalancedBatch),
            ),
            None => (st2.committed, None),
        },
    }
}

/// What `dispatch` returns for a whole stream.
pub open spec fn dispatch_spec(
    tv: Seq<TemplateV>,
    n_strings: int,
    lim: Limits,
    ops: Seq<Operation>,
) -> (Seq<HostCall>, Option<DecodeError>) {
    dispatch_from(tv, n_strings, lim, dispatch_init(), ops)
}

/// An empty stream dispatches to zero host calls and no error.
pub proof fn lemma_dispatch_empty(tv: Seq<TemplateV>, n_strings: int, lim: Limits)
    ensures
        dispatch_spec(tv, n_strings, lim, Seq::empty()) == (Seq::<HostCall>::empty(), None::<
            DecodeError,
        >),
{
}

/// Batch atomicity: from any state with an open batch, a continuation that
/// never commits produces no further host call beyond the final
/// `AbortBatch`; everything queued for that batch is discarded.
pub proof fn lemma_batch_atomicity(
    tv: Seq<TemplateV>,
    n_strings: int,
    lim: Limits,
    st: DispatchSt,
    ops: Seq<Operation>,
    bid: u32,
    q: Seq<HostCall>,
)
    requires
        st.pending == Some((bid, q)),
        st.scan.batch is Some,
        forall|j: int| 0 <= j < ops.len() ==> !((#[trigger] ops[j]) is BatchCommit),
    ensures
        ({
            let (calls, err) = dispatch_from(tv, n_strings, lim, st, ops);
            calls == st.committed.push(HostCall::AbortBatch { batch_id: bid }) && err is Some
        }),
    decreases ops.len(),
{
    if ops.len() == 0 {
    } else {
        assert(!(ops[0] is BatchCommit));
        match dispatch_step(tv, n_strings, lim, st, ops[0]) {
            Err(_) => {
            },
            Ok(st2) => {
                match ops[0] {
                    Operation::BatchStart(_) => {
                        assert(st.scan.batch is Some);
                        assert(false);
                    },
                    _ => {
                        assert(st2.scan.batch is Some);
                        assert(st2.pending matches Some(p2) && p2.0 == bid && st2.committed
                            == st.committed);
                        assert(forall|j: int|
                            0 <= j < ops.skip(1).len() ==> !((#[trigger] ops.skip(1)[j])
                                is BatchCommit));
                        lemma_batch_atomicity(
                            tv,
                            n_strings,
                            lim,
                            st2,
                            ops.skip(1),
                            bid,
                            pending_q(st2),
                        );
                    },
                }
            },
        }
    }
}

/// A dispatch state whose open-batch bookkeeping agrees with its scan.
pub open spec fn batch_synced(st: DispatchSt) -> bool {
    st.pending is Some <==> st.scan.batch is Some
}

/// On operations the scan accepts, the dispatcher steps cleanly and tracks
/// the scan state.
pub proof fn lemma_dispatch_follows_scan(
    tv: Seq<TemplateV>,
    n_strings: int,
    lim: Limits,
    st: DispatchSt,
    ops: Seq<Operation>,
)
    requires
        batch_synced(st),
        scan_ops(tv, n_strings, lim, st.scan, ops) is Ok,
    ensures
        dispatch_steps(tv, n_strings, lim, st, ops) matches Ok(st2) && st2.scan == scan_ops(
            tv,
            n_strings,
            lim,
            st.scan,
            ops,
        )->Ok_0 && batch_synced(st2),
    decreases ops.len(),
{
    if ops.len() == 0 {
    } else {
        match dispatch_step(tv, n_strings, lim, st, ops[0]) {
            Err(_) => {
                assert(false);
            },
            Ok(st2) => {
                assert(batch_synced(st2));
                lemma_dispatch_follows_scan(tv, n_strings, lim, st2, ops.skip(1));
            },
        }
    }
}

/// A stream that passes validation dispatches to completion: the host sees
/// its calls and no error.
pub proof fn lemma_validated_stream_dispatches(
    tv: Seq<TemplateV>,
    n_strings: int,
    lim: Limits,
    ops: Seq<Operation>,
)
    requires
        validate_ops(tv, n_strings, lim, ops) is Ok,
    ensures
        dispatch_spec(tv, n_strings, lim, ops).1 is None,
{
    lemma_dispatch_follows_scan(tv, n_strings, lim, dispatch_init(), ops);
}

/// Dispatching a concatenation runs the second part from where the first
/// left off.
pub proof fn lemma_dispatch_steps_append(
    tv: Seq<TemplateV>,
    n_strings: int,
    lim: Limits,
    st: DispatchSt,
    a: Seq<Operation>,
    b: Seq<Operation>,
)
    ensures
        dispatch_steps(tv, n_strings, lim, st, a + b) == (match dispatch_steps(
            tv,
            n_strings,
            lim,
            st,
            a,
        ) {
            Err(r) => Err(r),
            Ok(st2) => dispatch_steps(tv, n_strings, lim, st2, b),
        }),
    decreases a.len(),
{
    if a.len() == 0 {
        assert(a + b =~= b);
    } else {
        assert((a + b)[0] == a[0]);
        match dispatch_step(tv, n_strings, lim, st, a[0]) {
            Err(_) => {
            },
            Ok(st2) => {
                assert((a + b).skip(1) =~= a.skip(1) + b);
                lemma_dispatch_steps_append(tv, n_strings, lim, st2, a.skip(1), b);
            },
        }
    }
}

/// The dispatcher's exec state.
pub struct Dispatcher {
    pub scan: ScanState,
    pub committed: Vec<HostCall>,
    pub has_pending: bool,
    pub pending_id: u32,
    pub pending_calls: Vec<HostCall>,
    pub registered: Vec<u16>,
}

impl View for Dispatcher {
    type V = DispatchSt;

    open spec fn view(&self) -> DispatchSt {
        DispatchSt {
            scan: self.scan@,
            committed: self.committed@,
            pending: if self.has_pending {
                Some((self.pending_id, self.pending_calls@))
            } else {
                None
            },
            registered: self.registered@,
        }
    }
}

/// Whether a template id was already registered.
fn is_registered(registered: &Vec<u16>, id: u16) -> (r: bool)
    ensures
        r == registered@.contains(id),
{
    let mut j: usize = 0;
    while j < registered.len()
        invariant
            j <= registered@.len(),
            forall|k: int| 0 <= k < j ==> registered@[k] != id,
        decreases registered@.len() - j,
    {
        if registered[j] == id {
            return true;
        }
        j = j + 1;
    }
    false
}

/// The direct host call of a non-batch operation, as `call_of` describes.
fn call_of_exec(op: &Operation, registered: &Vec<u16>) -> (r: Option<HostCall>)
    ensures
        r == call_of(*op, registered@),
{
    match op {
        Operation::TemplateDef(t) => {
            if is_registered(registered, t.template_id) {
                None
            } else {
                Some(HostCall::RegisterTemplate { template_id: t.template_id })
            }
        },
        Operation::Instantiate(p) => Some(
            HostCall::CloneTemplate {
                instance_id: p.instance_id,
                template_id: p.template_id,
                parent_id: p.parent_id,
            },
        ),
        Operation::PatchText(p) => Some(
            HostCall::SetText {
                instance_id: p.instance_id,
                slot_id: p.slot_id,
                string_id: p.string_id,
            },
        ),
        Operation::PatchAttr(p) => Some(
            HostCall::SetAttr {
                instance_id: p.instance_id,
                slot_id: p.slot_id,
                attr_name_id: p.attr_name_id,
                value_id: p.value_id,
            },
        ),
        Operation::PatchClassToggle(p) => Some(
            HostCall::ToggleClass {
                instance_id: p.instance_id,
                class_name_id: p.class_name_id,
                enabled: p.enabled,
            },
        ),
        Operation::AttachEvent(p) => Some(
            HostCall::AttachEvent {
                instance_id: p.instance_id,
                event_type_id: p.event_type_id,
                handler_id: p.handler_id,
            },
        ),
        Operation::SetProperty(p) => Some(
            HostCall::SetProperty {
                instance_id: p.instance_id,
                prop_name_id: p.prop_name_id,
                value: p.value,
            },
        ),
        Operation::AppendChild(p) => Some(
            HostCall::AppendChild { parent_id: p.parent_id, child_id: p.child_id },
        ),
        Operation::RemoveNode(p) => Some(HostCall::Remove { instance_id: p.instance_id }),
        Operation::BatchStart(_) => None,
        Operation::BatchCommit(_) => None,
    }
}

/// Dispatch an operation list against the host capability: returns the
/// host call sequence in the order the host must perform them, and the
/// error that stopped the stream, if one did, as `dispatch_spec` describes.
pub fn dispatch(
    templates: &Vec<TemplateDef>,
    n_strings: u32,
    lim: &Limits,
    ops: &Vec<Operation>,
) -> (r: (Vec<HostCall>, Option<DecodeError>))
    ensures
        (r.0@, r.1) == dispatch_spec(
            templates_view(templates@),
            n_strings as int,
            *lim,
            ops@,
        ),
{
    let ghost tv = templates_view(templates@);
    let mut d = Dispatcher {
        scan: ScanState { instances: Vec::new(), batch: None, batch_ops: 0 },
        committed: Vec::new(),
        has_pending: false,
        pending_id: 0,
        pending_calls: Vec::new(),
        registered: Vec::new(),
    };
    proof {
        assert(d@.scan.instances =~= scan_init().instances);
        assert(d@.committed =~= dispatch_init().committed);
        assert(d@.registered =~= dispatch_init().registered);
        assert(d@ == dispatch_init());
        assert(ops@.skip(0) =~= ops@);
    }
    let mut k: usize = 0;
    while k < ops.len()
        invariant
            k <= ops@.len(),
            tv == templates_view(templates@),
            entries_wf(d@.scan.instances, templates@.len() as int),
            d@.pending is Some <==> d@.scan.batch is Some,
            dispatch_steps(tv, n_strings as int, *lim, dispatch_init(), ops@) == dispatch_steps(
                tv,
                n_strings as int,
                *lim,
                d@,
                ops@.skip(k as int),
            ),
        decreases ops@.len() - k,
    {
        let ghost st_pre = d@;
        let ghost rest = ops@.skip(k as int);
        proof {
            assert(rest[0] == ops@[k as int]);
            assert(rest.skip(1) =~= ops@.skip(k as int + 1));
        }
        let step = scan_op_exec(templates, n_strings, lim, &mut d.scan, &ops[k]);
        match step {
            Err(e) => {
                // the scan rejected this operation: abort any open batch
                if d.has_pending {
                    let bid = d.pending_id;
                    d.committed.push(HostCall::AbortBatch { batch_id: bid });
                }
                proof {
                    assert(dispatch_step(tv, n_strings as int, *lim, st_pre, ops@[k as int])
                        == Err::<DispatchSt, (Seq<HostCall>, DecodeError)>((
                        abort_calls(st_pre),
                        e,
                    )));
                    assert(d.committed@ =~= abort_calls(st_pre));
                }
                return (d.committed, Some(e));
            },
            Ok(_) => {
            },
        }
        match &ops[k] {
            Operation::BatchStart(p) => {
                d.has_pending = true;
                d.pending_id = p.batch_id;
                d.pending_calls = Vec::new();
                proof {
                    assert(d@.pending == Some((p.batch_id, Seq::<HostCall>::empty())));
                }
            },
            Operation::BatchCommit(p) => {
                d.committed.push(HostCall::BeginBatch { batch_id: p.batch_id });
                let mut queued = Vec::new();
                core::mem::swap(&mut queued, &mut d.pending_calls);
                d.committed.append(&mut queued);
                d.committed.push(HostCall::CommitBatch { batch_id: p.batch_id });
                d.has_pending = false;
                proof {
                    assert(d@.committed =~= st_pre.committed.push(
                        HostCall::BeginBatch { batch_id: p.batch_id },
                    ) + pending_q(st_pre) + seq![
                        HostCall::CommitBatch { batch_id: p.batch_id },
                    ]);
                }
            },
            _ => {
                match call_of_exec(&ops[k], &d.registered) {
                    None => {
                    },
                    Some(c) => {
                        if d.has_pending {
                            d.pending_calls.push(c);
                        } else {
                            d.committed.push(c);
                        }
                    },
                }
                match &ops[k] {
                    Operation::TemplateDef(t) => {
                        if !is_registered(&d.registered, t.template_id) {
                            d.registered.push(t.template_id);
                        }
                    },
                    _ => {
                    },
                }
            },
        }
        proof {
            assert(dispatch_step(tv, n_strings as int, *lim, st_pre, ops@[k as int]) == Ok::<
                DispatchSt,
                (Seq<HostCall>, DecodeError),
            >(d@));
        }
        k = k + 1;
    }
    proof {
        assert(ops@.skip(ops@.len() as int) =~= Seq::<Operation>::empty());
    }
    if d.has_pending {
        let bid = d.pending_id;
        d.committed.push(HostCall::AbortBatch { batch_id: bid });
        return (d.committed, Some(DecodeError::UnbalancedBatch));
    }
    (d.committed, None)
}

} // verus!
