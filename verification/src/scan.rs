//! The opcode-stream validation scan: one pass over the operations that
//! tracks defined instance ids and the open batch, resolves every template,
//! string, instance and slot reference, and enforces the configured caps.
//!
//! The scan is the decoder's third pass; the encoder runs the same scan, so
//! that a stream it emits always decodes.

use vstd::prelude::*;

use crate::tmpltab::TemplateV;
use crate::wire::TemplateDef;
use crate::wire::DecodeError;
use crate::wire::Limits;
use crate::wire::Operation;
use crate::wire::PropertyValue;

verus! {

/// One tracked instance: its id, the template it was cloned from, whether
/// it is still alive, and whether it was removed inside the batch that is
/// currently open.
#[derive(Clone, Copy, Debug, PartialEq, Eq, Structural)]
pub struct ScanEntry {
    pub id: u32,
    pub template_id: u16,
    pub alive: bool,
    pub removed_in_batch: bool,
}

/// The mathematical state of the scan.
pub struct ScanStateV {
    pub instances: Seq<ScanEntry>,
    pub batch: Option<u32>,
    pub batch_ops: u32,
}

/// The scan state before the first operation: only the reserved root id 0
/// exists, and no batch is open.
pub open spec fn scan_init() -> ScanStateV {
    ScanStateV { instances: Seq::empty(), batch: None, batch_ops: 0 }
}

/// The index of the entry for `id`, or the length when absent.
pub open spec fn find_entry(entries: Seq<ScanEntry>, id: u32) -> int
    decreases entries.len(),
{
    if entries.len() == 0 {
        0
    } else if entries[0].id == id {
        0
    } else {
        1 + find_entry(entries.skip(1), id)
    }
}

/// Whether `id` may be referenced in the current state: the root id 0 is
/// always valid; otherwise the instance must exist and be alive, or have
/// been removed inside the still-open batch (the host may defer removal to
/// commit).
pub open spec fn ref_ok(st: ScanStateV, id: u32) -> bool {
    if id == 0 {
        true
    } else {
        let j = find_entry(st.instances, id);
        &&& j < st.instances.len()
        &&& (st.instances[j].alive || (st.batch is Some && st.instances[j].removed_in_batch))
    }
}

/// Whether `id` names a live, patchable instance (not the root), and its
/// entry index. Patches address slots, so they need the instance's template.
pub open spec fn patch_target(st: ScanStateV, id: u32) -> Option<ScanEntry> {
    if id == 0 {
        None
    } else {
        let j = find_entry(st.instances, id);
        if j < st.instances.len() && (st.instances[j].alive || (st.batch is Some
            && st.instances[j].removed_in_batch)) {
            Some(st.instances[j])
        } else {
            None
        }
    }
}

/// Whether template `t` has a slot with this id.
pub open spec fn has_slot(t: TemplateV, slot_id: u16) -> bool {
    exists|k: int| 0 <= k < t.bindings.len() && (#[trigger] t.bindings[k]).slot_id == slot_id
}

/// Count this operation against the open batch, if one is open.
pub open spec fn bump_batch(st: ScanStateV, lim: Limits) -> Result<ScanStateV, DecodeError> {
    if st.batch is Some {
        if st.batch_ops >= lim.max_batch_ops {
            Err(DecodeError::ResourceLimitExceeded)
        } else {
            Ok(ScanStateV { batch_ops: (st.batch_ops + 1) as u32, ..st })
        }
    } else {
        Ok(st)
    }
}

/// Clear the per-batch tombstone marks at commit.
pub open spec fn clear_batch_marks(entries: Seq<ScanEntry>) -> Seq<ScanEntry> {
    entries.map_values(|e: ScanEntry| ScanEntry { removed_in_batch: false, ..e })
}

/// Every tracked instance refers to a template inside the table. The scan
/// establishes this for every entry it adds.
pub open spec fn entries_wf(entries: Seq<ScanEntry>, n_templates: int) -> bool {
    forall|j: int| 0 <= j < entries.len() ==> (#[trigger] entries[j]).template_id < n_templates
}

/// One step of the scan. The error of each violated rule:
/// `TemplateNotFound` for a template id outside the table,
/// `StringOutOfBounds` for a string id outside the table,
/// `NodeNotFound` for an instance rule (an unknown or dead instance, a
/// patch on the root, re-use of an id, or a slot the template lacks),
/// `UnbalancedBatch` for a nested batch or a commit that does not match,
/// `ResourceLimitExceeded` for the instance and batch caps.
pub open spec fn scan_op(
    tv: Seq<TemplateV>,
    n_strings: int,
    lim: Limits,
    st: ScanStateV,
    op: Operation,
) -> Result<ScanStateV, DecodeError> {
    match op {
        Operation::BatchStart(p) => if st.batch is Some {
            Err(DecodeError::UnbalancedBatch)
        } else {
            Ok(ScanStateV { batch: Some(p.batch_id), batch_ops: 0, ..st })
        },
        Operation::BatchCommit(p) => if st.batch != Some(p.batch_id) {
            Err(DecodeError::UnbalancedBatch)
        } else {
            Ok(
                ScanStateV {
                    instances: clear_batch_marks(st.instances),
                    batch: None,
                    batch_ops: 0,
                },
            )
        },
        _ => match bump_batch(st, lim) {
            Err(e) => Err(e),
            Ok(st) => match op {
                Operation::TemplateDef(t) => if t.template_id >= tv.len() {
                    Err(DecodeError::TemplateNotFound)
                } else {
                    Ok(st)
                },
                Operation::Instantiate(p) => if p.template_id >= tv.len() {
                    Err(DecodeError::TemplateNotFound)
                } else if !ref_ok(st, p.parent_id) {
                    Err(DecodeError::NodeNotFound)
                } else if p.instance_id == 0 || find_entry(st.instances, p.instance_id)
                    < st.instances.len() {
                    Err(DecodeError::NodeNotFound)
                } else if st.instances.len() >= lim.max_instances {
                    Err(DecodeError::ResourceLimitExceeded)
                } else {
                    Ok(
                        ScanStateV {
                            instances: st.instances.push(
                                ScanEntry {
                                    id: p.instance_id,
                                    template_id: p.template_id,
                                    alive: true,
                                    removed_in_batch: false,
                                },
                            ),
                            ..st
                        },
                    )
                },
                Operation::PatchText(p) => match patch_target(st, p.instance_id) {
                    None => Err(DecodeError::NodeNotFound),
                    Some(e) => if p.string_id >= n_strings {
                        Err(DecodeError::StringOutOfBounds)
                    } else if !has_slot(tv[e.template_id as int], p.slot_id) {
                        Err(DecodeError::NodeNotFound)
                    } else {
                        Ok(st)
                    },
                },
                Operation::PatchAttr(p) => match patch_target(st, p.instance_id) {
                    None => Err(DecodeError::NodeNotFound),
                    Some(e) => if p.attr_name_id >= n_strings || p.value_id >= n_strings {
                        Err(DecodeError::StringOutOfBounds)
                    } else if !has_slot(tv[e.template_id as int], p.slot_id) {
                        Err(DecodeError::NodeNotFound)
                    } else {
                        Ok(st)
                    },
                },
                Operation::PatchClassToggle(p) => match patch_target(st, p.instance_id) {
                    None => Err(DecodeError::NodeNotFound),
                    Some(_) => if p.class_name_id >= n_strings {
                        Err(DecodeError::StringOutOfBounds)
                    } else {
                        Ok(st)
                    },
                },
                Operation::AttachEvent(p) => match patch_target(st, p.instance_id) {
                    None => Err(DecodeError::NodeNotFound),
                    Some(_) => if p.event_type_id >= n_strings {
                        Err(DecodeError::StringOutOfBounds)
                    } else {
                        Ok(st)
                    },
                },
                Operation::SetProperty(p) => match patch_target(st, p.instance_id) {
                    None => Err(DecodeError::NodeNotFound),
                    Some(_) => if p.prop_name_id >= n_strings {
                        Err(DecodeError::StringOutOfBounds)
                    } else {
                        match p.value {
                            PropertyValue::StringId(s) => if s >= n_strings {
                                Err(DecodeError::StringOutOfBounds)
                            } else {
                                Ok(st)
                            },
                            _ => Ok(st),
                        }
                    },
                },
                Operation::AppendChild(p) => if !ref_ok(st, p.parent_id) {
                    Err(DecodeError::NodeNotFound)
                } else if p.child_id == 0 || !ref_ok(st, p.child_id) {
                    Err(DecodeError::NodeNotFound)
                } else {
                    Ok(st)
                },
                Operation::RemoveNode(p) => {
                    let j = find_entry(st.instances, p.instance_id);
                    if p.instance_id == 0 || j >= st.instances.len() || !st.instances[j].alive {
                        Err(DecodeError::NodeNotFound)
                    } else {
                        Ok(
                            ScanStateV {
                                instances: st.instances.update(
                                    j,
                                    ScanEntry {
                                        alive: false,
                                        removed_in_batch: st.batch is Some,
                                        ..st.instances[j]
                                    },
                                ),
                                ..st
                            },
                        )
                    }
                },
                _ => Ok(st),
            },
        },
    }
}

/// Scan a whole operation list from a given state.
pub open spec fn scan_ops(
    tv: Seq<TemplateV>,
    n_strings: int,
    lim: Limits,
    st: ScanStateV,
    ops: Seq<Operation>,
) -> Result<ScanStateV, DecodeError>
    decreases ops.len(),
{
    if ops.len() == 0 {
        Ok(st)
    } else {
        match scan_op(tv, n_strings, lim, st, ops[0]) {
            Err(e) => Err(e),
            Ok(st2) => scan_ops(tv, n_strings, lim, st2, ops.skip(1)),
        }
    }
}

/// Validate a whole stream's operations: scan them from the initial state
/// and require that no batch is left open at end of stream.
pub open spec fn validate_ops(
    tv: Seq<TemplateV>,
    n_strings: int,
    lim: Limits,
    ops: Seq<Operation>,
) -> Result<ScanStateV, DecodeError> {
    match scan_ops(tv, n_strings, lim, scan_init(), ops) {
        Err(e) => Err(e),
        Ok(st) => if st.batch is Some {
            Err(DecodeError::UnbalancedBatch)
        } else {
            Ok(st)
        },
    }
}

pub proof fn lemma_scan_ops_snoc(
    tv: Seq<TemplateV>,
    n_strings: int,
    lim: Limits,
    st: ScanStateV,
    ops: Seq<Operation>,
    op: Operation,
)
    ensures
        scan_ops(tv, n_strings, lim, st, ops.push(op)) == (match scan_ops(
            tv,
            n_strings,
            lim,
            st,
            ops,
        ) {
            Err(e) => Err(e),
            Ok(st2) => scan_op(tv, n_strings, lim, st2, op),
        }),
    decreases ops.len(),
{
    if ops.len() == 0 {
        assert(ops.push(op)[0] == op);
        assert(ops.push(op).skip(1) =~= Seq::<Operation>::empty());
        match scan_op(tv, n_strings, lim, st, op) {
            Err(e) => {
            },
            Ok(st2) => {
                assert(scan_ops(tv, n_strings, lim, st2, Seq::<Operation>::empty()) == Ok::<
                    ScanStateV,
                    DecodeError,
                >(st2));
            },
        }
    } else {
        assert(ops.push(op)[0] == ops[0]);
        assert(ops.push(op).skip(1) =~= ops.skip(1).push(op));
        match scan_op(tv, n_strings, lim, st, ops[0]) {
            Err(e) => {
            },
            Ok(st2) => {
                lemma_scan_ops_snoc(tv, n_strings, lim, st2, ops.skip(1), op);
            },
        }
    }
}

/// The scan state after the first `j` operations of a stream.
pub open spec fn scan_prefix(
    tv: Seq<TemplateV>,
    n_strings: int,
    lim: Limits,
    ops: Seq<Operation>,
    j: int,
) -> Result<ScanStateV, DecodeError> {
    scan_ops(tv, n_strings, lim, scan_init(), ops.take(j))
}

/// A scan that accepts a list accepts every prefix of it.
pub proof fn lemma_scan_ok_prefix(
    tv: Seq<TemplateV>,
    n_strings: int,
    lim: Limits,
    st: ScanStateV,
    ops: Seq<Operation>,
    j: int,
)
    requires
        scan_ops(tv, n_strings, lim, st, ops) is Ok,
        0 <= j <= ops.len(),
    ensures
        scan_ops(tv, n_strings, lim, st, ops.take(j)) is Ok,
    decreases j,
{
    if j == 0 {
        assert(ops.take(0) =~= Seq::<Operation>::empty());
    } else {
        assert(ops.take(j)[0] == ops[0]);
        match scan_op(tv, n_strings, lim, st, ops[0]) {
            Err(_) => {
                assert(false);
            },
            Ok(st2) => {
                assert(ops.take(j).skip(1) =~= ops.skip(1).take(j - 1));
                lemma_scan_ok_prefix(tv, n_strings, lim, st2, ops.skip(1), j - 1);
            },
        }
    }
}

/// Reference integrity: in a stream that passes validation, every
/// operation's references resolve — at each position, the scan state built
/// by the preceding operations accepts the operation.
pub proof fn lemma_reference_integrity(
    tv: Seq<TemplateV>,
    n_strings: int,
    lim: Limits,
    ops: Seq<Operation>,
)
    requires
        validate_ops(tv, n_strings, lim, ops) is Ok,
    ensures
        forall|j: int|
            0 <= j < ops.len() ==> (#[trigger] scan_prefix(tv, n_strings, lim, ops, j)) is Ok
                && scan_op(
                tv,
                n_strings,
                lim,
                scan_prefix(tv, n_strings, lim, ops, j)->Ok_0,
                ops[j],
            ) is Ok,
{
    assert forall|j: int| 0 <= j < ops.len() implies (#[trigger] scan_prefix(
        tv,
        n_strings,
        lim,
        ops,
        j,
    )) is Ok && scan_op(
        tv,
        n_strings,
        lim,
        scan_prefix(tv, n_strings, lim, ops, j)->Ok_0,
        ops[j],
    ) is Ok by {
        lemma_scan_ok_prefix(tv, n_strings, lim, scan_init(), ops, j);
        lemma_scan_ok_prefix(tv, n_strings, lim, scan_init(), ops, j + 1);
        lemma_scan_ops_snoc(tv, n_strings, lim, scan_init(), ops.take(j), ops[j]);
        assert(ops.take(j + 1) =~= ops.take(j).push(ops[j]));
    }
}

/// The exec state of the scan, with the mathematical state as its view.
pub struct ScanState {
    pub instances: Vec<ScanEntry>,
    pub batch: Option<u32>,
    pub batch_ops: u32,
}

impl View for ScanState {
    type V = ScanStateV;

    open spec fn view(&self) -> ScanStateV {
        ScanStateV { instances: self.instances@, batch: self.batch, batch_ops: self.batch_ops }
    }
}

/// Find the entry index for `id`, as `find_entry` describes.
fn find_entry_exec(entries: &Vec<ScanEntry>, id: u32) -> (r: usize)
    ensures
        r == find_entry(entries@, id),
        r <= entries@.len(),
{
    let mut j: usize = 0;
    proof {
        lemma_find_entry_skip(entries@, id, 0);
    }
    while j < entries.len()
        invariant
            j <= entries@.len(),
            forall|k: int| 0 <= k < j ==> entries@[k].id != id,
            find_entry(entries@, id) >= j,
        decreases entries@.len() - j,
    {
        if entries[j].id == id {
            proof {
                lemma_find_entry_found(entries@, id, j as int);
            }
            return j;
        }
        proof {
            lemma_find_entry_skip(entries@, id, j + 1);
        }
        j = j + 1;
    }
    proof {
        lemma_find_entry_absent(entries@, id);
    }
    j
}

pub proof fn lemma_find_entry_found(entries: Seq<ScanEntry>, id: u32, j: int)
    requires
        0 <= j < entries.len(),
        entries[j].id == id,
        forall|k: int| 0 <= k < j ==> entries[k].id != id,
    ensures
        find_entry(entries, id) == j,
    decreases j,
{
    if j > 0 {
        lemma_find_entry_found(entries.skip(1), id, j - 1);
    }
}

pub proof fn lemma_find_entry_absent(entries: Seq<ScanEntry>, id: u32)
    requires
        forall|k: int| 0 <= k < entries.len() ==> entries[k].id != id,
    ensures
        find_entry(entries, id) == entries.len(),
    decreases entries.len(),
{
    if entries.len() > 0 {
        lemma_find_entry_absent(entries.skip(1), id);
    }
}

pub proof fn lemma_find_entry_nonneg(entries: Seq<ScanEntry>, id: u32)
    ensures
        find_entry(entries, id) >= 0,
    decreases entries.len(),
{
    if entries.len() > 0 && entries[0].id != id {
        lemma_find_entry_nonneg(entries.skip(1), id);
    }
}

pub proof fn lemma_find_entry_skip(entries: Seq<ScanEntry>, id: u32, j: int)
    requires
        0 <= j <= entries.len(),
        forall|k: int| 0 <= k < j ==> entries[k].id != id,
    ensures
        find_entry(entries, id) >= j,
    decreases j,
{
    lemma_find_entry_nonneg(entries, id);
    if j > 0 {
        assert(forall|k: int| 0 <= k < j - 1 ==> entries.skip(1)[k] == entries[k + 1]);
        lemma_find_entry_skip(entries.skip(1), id, j - 1);
    }
}

/// Whether the template has a slot with this id, as `has_slot` describes.
fn has_slot_exec(t: &TemplateDef, slot_id: u16) -> (r: bool)
    ensures
        r == has_slot(t@, slot_id),
{
    let mut k: usize = 0;
    while k < t.bindings.len()
        invariant
            k <= t.bindings@.len(),
            forall|j: int| 0 <= j < k ==> (#[trigger] t@.bindings[j]).slot_id != slot_id,
            t@.bindings.len() == t.bindings@.len(),
            forall|j: int|
                0 <= j < t.bindings@.len() ==> (#[trigger] t@.bindings[j]).slot_id == t.bindings@[
                    j].slot_id,
        decreases t.bindings@.len() - k,
    {
        if t.bindings[k].slot_id == slot_id {
            proof {
                assert(t@.bindings[k as int].slot_id == slot_id);
            }
            return true;
        }
        k = k + 1;
    }
    false
}

/// Whether `id` may be referenced, as `ref_ok` describes.
fn ref_ok_exec(st: &ScanState, id: u32) -> (r: bool)
    ensures
        r == ref_ok(st@, id),
{
    if id == 0 {
        return true;
    }
    let j = find_entry_exec(&st.instances, id);
    if j >= st.instances.len() {
        return false;
    }
    st.instances[j].alive || (st.batch.is_some() && st.instances[j].removed_in_batch)
}

/// The patchable instance named by `id`, as `patch_target` describes.
fn patch_target_exec(st: &ScanState, id: u32) -> (r: Option<ScanEntry>)
    ensures
        r == patch_target(st@, id),
{
    if id == 0 {
        return None;
    }
    let j = find_entry_exec(&st.instances, id);
    if j >= st.instances.len() {
        return None;
    }
    if st.instances[j].alive || (st.batch.is_some() && st.instances[j].removed_in_batch) {
        Some(st.instances[j])
    } else {
        None
    }
}

/// One step of the scan, as `scan_op` describes.
pub(crate) fn scan_op_exec(
    templates: &Vec<TemplateDef>,
    n_strings: u32,
    lim: &Limits,
    st: &mut ScanState,
    op: &Operation,
) -> (r: Result<(), DecodeError>)
    requires
        entries_wf(old(st)@.instances, templates@.len() as int),
    ensures
        r matches Ok(p) ==> entries_wf(final(st)@.instances, templates@.len() as int),
        r matches Ok(p) ==> scan_op(
            crate::tmpltab::templates_view(templates@),
            n_strings as int,
            *lim,
            old(st)@,
            *op,
        ) == Ok::<ScanStateV, DecodeError>(final(st)@),
        r matches Err(e) ==> scan_op(
            crate::tmpltab::templates_view(templates@),
            n_strings as int,
            *lim,
            old(st)@,
            *op,
        ) == Err::<ScanStateV, DecodeError>(e),
{
    let ghost tv = crate::tmpltab::templates_view(templates@);
    match op {
        Operation::BatchStart(p) => {
            if st.batch.is_some() {
                return Err(DecodeError::UnbalancedBatch);
            }
            st.batch = Some(p.batch_id);
            st.batch_ops = 0;
            Ok(())
        },
        Operation::BatchCommit(p) => {
            let matches_open = match &st.batch {
                Some(b) => *b == p.batch_id,
                None => false,
            };
            if !matches_open {
                return Err(DecodeError::UnbalancedBatch);
            }
            let ghost entries0 = st.instances@;
            let n = st.instances.len();
            let mut k: usize = 0;
            while k < n
                invariant
                    k <= n,
                    n == st.instances@.len(),
                    st.instances@.len() == entries0.len(),
                    forall|j: int|
                        0 <= j < k ==> st.instances@[j] == (ScanEntry {
                            removed_in_batch: false,
                            ..entries0[j]
                        }),
                    forall|j: int| k <= j < n ==> st.instances@[j] == entries0[j],
                decreases n - k,
            {
                let e = st.instances[k];
                st.instances.set(
                    k,
                    ScanEntry {
                        id: e.id,
                        template_id: e.template_id,
                        alive: e.alive,
                        removed_in_batch: false,
                    },
                );
                k = k + 1;
            }
            st.batch = None;
            st.batch_ops = 0;
            proof {
                assert(st.instances@ =~= clear_batch_marks(entries0));
            }
            Ok(())
        },
        _ => {
            if st.batch.is_some() {
                if st.batch_ops >= lim.max_batch_ops {
                    return Err(DecodeError::ResourceLimitExceeded);
                }
                st.batch_ops = st.batch_ops + 1;
            }
            let ghost stb = st@;
            proof {
                assert(bump_batch(old(st)@, *lim) == Ok::<ScanStateV, DecodeError>(stb));
            }
            match op {
                Operation::TemplateDef(t) => {
                    if t.template_id as usize >= templates.len() {
                        Err(DecodeError::TemplateNotFound)
                    } else {
                        Ok(())
                    }
                },
                Operation::Instantiate(p) => {
                    if p.template_id as usize >= templates.len() {
                        return Err(DecodeError::TemplateNotFound);
                    }
                    if !ref_ok_exec(st, p.parent_id) {
                        return Err(DecodeError::NodeNotFound);
                    }
                    let j = find_entry_exec(&st.instances, p.instance_id);
                    if p.instance_id == 0 || j < st.instances.len() {
                        return Err(DecodeError::NodeNotFound);
                    }
                    if st.instances.len() as u64 >= lim.max_instances as u64 {
                        return Err(DecodeError::ResourceLimitExceeded);
                    }
                    st.instances.push(
                        ScanEntry {
                            id: p.instance_id,
                            template_id: p.template_id,
                            alive: true,
                            removed_in_batch: false,
                        },
                    );
                    Ok(())
                },
                Operation::PatchText(p) => {
                    match patch_target_exec(st, p.instance_id) {
                        None => Err(DecodeError::NodeNotFound),
                        Some(e) => {
                            proof {
                                lemma_find_entry_nonneg(st@.instances, p.instance_id);
                                assert(e == st@.instances[find_entry(
                                    st@.instances,
                                    p.instance_id,
                                )]);
                                assert(e.template_id < templates@.len());
                                assert(tv[e.template_id as int] == templates@[
                                    e.template_id as int]@);
                            }
                            if p.string_id >= n_strings {
                                Err(DecodeError::StringOutOfBounds)
                            } else if !has_slot_exec(
                                &templates[e.template_id as usize],
                                p.slot_id,
                            ) {
                                Err(DecodeError::NodeNotFound)
                            } else {
                                Ok(())
                            }
                        },
                    }
                },
                Operation::PatchAttr(p) => {
                    match patch_target_exec(st, p.instance_id) {
                        None => Err(DecodeError::NodeNotFound),
                        Some(e) => {
                            proof {
                                lemma_find_entry_nonneg(st@.instances, p.instance_id);
                                assert(e == st@.instances[find_entry(
                                    st@.instances,
                                    p.instance_id,
                                )]);
                                assert(e.template_id < templates@.len());
                                assert(tv[e.template_id as int] == templates@[
                                    e.template_id as int]@);
                            }
                            if p.attr_name_id >= n_strings || p.value_id >= n_strings {
                                Err(DecodeError::StringOutOfBounds)
                            } else if !has_slot_exec(
                                &templates[e.template_id as usize],
                                p.slot_id,
                            ) {
                                Err(DecodeError::NodeNotFound)
                            } else {
                                Ok(())
                            }
                        },
                    }
                },
                Operation::PatchClassToggle(p) => {
                    match patch_target_exec(st, p.instance_id) {
                        None => Err(DecodeError::NodeNotFound),
                        Some(_) => {
                            if p.class_name_id >= n_strings {
                                Err(DecodeError::StringOutOfBounds)
                            } else {
                                Ok(())
                            }
                        },
                    }
                },
                Operation::AttachEvent(p) => {
                    match patch_target_exec(st, p.instance_id) {
                        None => Err(DecodeError::NodeNotFound),
                        Some(_) => {
                            if p.event_type_id >= n_strings {
                                Err(DecodeError::StringOutOfBounds)
                            } else {
                                Ok(())
                            }
                        },
                    }
                },
                Operation::SetProperty(p) => {
                    match patch_target_exec(st, p.instance_id) {
                        None => Err(DecodeError::NodeNotFound),
                        Some(_) => {
                            if p.prop_name_id >= n_strings {
                                Err(DecodeError::StringOutOfBounds)
                            } else {
                                match &p.value {
                                    PropertyValue::StringId(s) => {
                                        if *s >= n_strings {
                                            Err(DecodeError::StringOutOfBounds)
                                        } else {
                                            Ok(())
                                        }
                                    },
                                    _ => Ok(()),
                                }
                            }
                        },
                    }
                },
                Operation::AppendChild(p) => {
                    if !ref_ok_exec(st, p.parent_id) {
                        Err(DecodeError::NodeNotFound)
                    } else if p.child_id == 0 || !ref_ok_exec(st, p.child_id) {
                        Err(DecodeError::NodeNotFound)
                    } else {
                        Ok(())
                    }
                },
                Operation::RemoveNode(p) => {
                    let j = find_entry_exec(&st.instances, p.instance_id);
                    if p.instance_id == 0 || j >= st.instances.len() || !st.instances[j].alive {
                        return Err(DecodeError::NodeNotFound);
                    }
                    let e = st.instances[j];
                    let inside = st.batch.is_some();
                    st.instances.set(
                        j,
                        ScanEntry {
                            id: e.id,
                            template_id: e.template_id,
                            alive: false,
                            removed_in_batch: inside,
                        },
                    );
                    Ok(())
                },
                _ => Ok(()),
            }
        },
    }
}

/// Validate a whole operation list, as `validate_ops` describes.
pub fn validate_ops_exec(
    templates: &Vec<TemplateDef>,
    n_strings: u32,
    lim: &Limits,
    ops: &Vec<Operation>,
) -> (r: Result<(), DecodeError>)
    ensures
        r matches Ok(p) ==> validate_ops(
            crate::tmpltab::templates_view(templates@),
            n_strings as int,
            *lim,
            ops@,
        ) is Ok,
        r matches Err(e) ==> validate_ops(
            crate::tmpltab::templates_view(templates@),
            n_strings as int,
            *lim,
            ops@,
        ) == Err::<ScanStateV, DecodeError>(e),
{
    let ghost tv = crate::tmpltab::templates_view(templates@);
    let mut st = ScanState { instances: Vec::new(), batch: None, batch_ops: 0 };
    proof {
        assert(st@.instances =~= scan_init().instances);
        assert(st@ == scan_init());
        assert(ops@.take(0) =~= Seq::<Operation>::empty());
    }
    let mut k: usize = 0;
    while k < ops.len()
        invariant
            k <= ops@.len(),
            tv == crate::tmpltab::templates_view(templates@),
            entries_wf(st@.instances, templates@.len() as int),
            scan_ops(tv, n_strings as int, *lim, scan_init(), ops@.take(k as int)) == Ok::<
                ScanStateV,
                DecodeError,
            >(st@),
        decreases ops@.len() - k,
    {
        let ghost st_pre = st@;
        let step = scan_op_exec(templates, n_strings, lim, &mut st, &ops[k]);
        proof {
            lemma_scan_ops_snoc(
                tv,
                n_strings as int,
                *lim,
                scan_init(),
                ops@.take(k as int),
                ops@[k as int],
            );
            assert(ops@.take(k + 1) =~= ops@.take(k as int).push(ops@[k as int]));
        }
        match step {
            Err(e) => {
                proof {
                    assert(scan_ops(tv, n_strings as int, *lim, scan_init(), ops@.take(k + 1))
                        == Err::<ScanStateV, DecodeError>(e));
                    lemma_scan_ops_prefix_err(
                        tv,
                        n_strings as int,
                        *lim,
                        scan_init(),
                        ops@,
                        k + 1,
                        e,
                    );
                }
                return Err(e);
            },
            Ok(_) => {
            },
        }
        k = k + 1;
    }
    proof {
        assert(ops@.take(ops@.len() as int) =~= ops@);
    }
    if st.batch.is_some() {
        return Err(DecodeError::UnbalancedBatch);
    }
    Ok(())
}

/// A scan that fails on a prefix fails on the whole list with the same
/// error.
pub proof fn lemma_scan_ops_prefix_err(
    tv: Seq<TemplateV>,
    n_strings: int,
    lim: Limits,
    st: ScanStateV,
    ops: Seq<Operation>,
    k: int,
    e: DecodeError,
)
    requires
        0 <= k <= ops.len(),
        scan_ops(tv, n_strings, lim, st, ops.take(k)) == Err::<ScanStateV, DecodeError>(e),
    ensures
        scan_ops(tv, n_strings, lim, st, ops) == Err::<ScanStateV, DecodeError>(e),
    decreases k,
{
    if k == 0 {
        assert(ops.take(0) =~= Seq::<Operation>::empty());
        assert(false);
    } else {
        assert(ops.take(k)[0] == ops[0]);
        if ops.len() > 0 {
            match scan_op(tv, n_strings, lim, st, ops[0]) {
                Err(_) => {
                },
                Ok(st2) => {
                    assert(ops.take(k).skip(1) =~= ops.skip(1).take(k - 1));
                    lemma_scan_ops_prefix_err(tv, n_strings, lim, st2, ops.skip(1), k - 1, e);
                },
            }
        }
    }
}

/// When the scan finds an entry, it is the first with that id.
pub proof fn lemma_find_entry_hits(entries: Seq<ScanEntry>, id: u32)
    requires
        find_entry(entries, id) < entries.len(),
    ensures
        0 <= find_entry(entries, id),
        entries[find_entry(entries, id)].id == id,
    decreases entries.len(),
{
    if entries.len() > 0 && entries[0].id != id {
        lemma_find_entry_hits(entries.skip(1), id);
    }
}

} // verus!
