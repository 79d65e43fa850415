//! The mathematical model of the controller's ledger and the outcome of each
//! operation on it.
use vstd::prelude::*;
use crate::error::{ControlError, error_of_code, direct_error_of_code};
use crate::path::{valid_path, node_path, trim, is_descendant};

verus! {

/// The kernel flag that lets other programs share a control point with a
/// direct attachment.
pub const ALLOW_MULTI: u32 = 2;

/// How an attachment is tied to the process.
#[derive(Debug, Clone, Copy, PartialEq, Eq, Structural)]
pub enum Mechanism {
    /// Held through a link handle; released when the handle is released.
    LinkScoped,
    /// Registered directly with the control point; outlives the process
    /// unless detached explicitly.
    PersistentDirect,
}

/// Where an attachment stands in its lifecycle.
#[derive(Debug, Clone, Copy, PartialEq, Eq, Structural)]
pub enum AttachState {
    /// In force.
    Active,
    /// Detached by this process.
    Released,
    /// A raw attach failed in a way that may have left the program
    /// registered in the kernel. Terminal.
    PossibleLeak,
}

/// The kind of hook a direct attachment targets.
#[derive(Debug, Clone, Copy, PartialEq, Eq, Structural)]
pub enum AttachType {
    CgroupDevice,
    CgroupInetIngress,
    CgroupInetEgress,
    CgroupSockCreate,
    LsmMac,
    LsmCgroup,
}

/// Hooks of the security-module class: a failed raw attach of these may
/// leave the program registered with no handle to remove it.
pub open spec fn security_hook(t: AttachType) -> bool {
    t is LsmMac || t is LsmCgroup
}

impl AttachType {
    /// Whether this is a security-module hook.
    pub fn is_security_hook(&self) -> (r: bool)
        ensures
            r == security_hook(*self),
    {
        match self {
            AttachType::LsmMac | AttachType::LsmCgroup => true,
            _ => false,
        }
    }
}

/// One recorded (program, control point, mechanism) attachment.
#[derive(Debug, Clone, Copy, PartialEq, Eq, Structural)]
pub struct Attachment {
    /// Index of the program in the loaded object.
    pub program: usize,
    /// Index of the control-point node.
    pub node: usize,
    pub mechanism: Mechanism,
    pub state: AttachState,
}

/// A direct attach that the caller may now issue to the kernel.
#[derive(Debug, Clone, Copy, PartialEq, Eq, Structural)]
pub struct DirectRequest {
    pub program: usize,
    pub node: usize,
    pub attach_type: AttachType,
    /// Flags for the kernel call.
    pub flags: u32,
}

/// What a failed node deletion does to the rest of the teardown.
#[derive(Debug, Clone, Copy, PartialEq, Eq, Structural)]
pub enum DeletePolicy {
    /// Report the failure and go on with the remaining steps.
    BestEffort,
    /// Stop the teardown at the first failure.
    Strict,
}

/// One step of the shutdown sequence.
#[derive(Debug, Clone, Copy, PartialEq, Eq, Structural)]
pub enum TeardownStep {
    /// Release the link-scoped attachment of this index.
    ReleaseLink(usize),
    /// Remove the directory of the node of this index.
    DeleteNode(usize),
}

/// The abstract state of a controller. Nodes and attachments keep their
/// index for the whole life of the controller, in creation order.
pub ghost struct LedgerView {
    /// The path of each node ever created.
    pub paths: Seq<Seq<u8>>,
    /// Whether each node's directory still exists.
    pub live: Seq<bool>,
    /// The program names of the loaded object.
    pub programs: Seq<Seq<u8>>,
    /// Whether an object has been loaded.
    pub loaded: bool,
    /// Every attachment recorded, in creation order.
    pub attachments: Seq<Attachment>,
}

/// Node `j` exists and its directory is still in place.
pub open spec fn live_node(v: LedgerView, j: int) -> bool {
    0 <= j < v.paths.len() && v.live[j]
}

/// An attachment held through a link that has not been released.
pub open spec fn active_link(a: Attachment) -> bool {
    a.mechanism == Mechanism::LinkScoped && a.state == AttachState::Active
}

/// An active direct attachment of `program` to `node`.
pub open spec fn active_direct(a: Attachment, program: usize, node: usize) -> bool {
    &&& a.mechanism == Mechanism::PersistentDirect
    &&& a.state == AttachState::Active
    &&& a.program == program
    &&& a.node == node
}

/// The invariant of the node table: paths are valid, no two live nodes
/// share a path, and a node is created after every node it is nested in.
pub open spec fn nodes_wf(paths: Seq<Seq<u8>>, live: Seq<bool>) -> bool {
    &&& live.len() == paths.len()
    &&& forall|j: int| 0 <= j < paths.len() ==> node_path(#[trigger] paths[j])
    &&& forall|i: int, j: int|
        #![trigger live[i], live[j]]
        0 <= i < live.len() && 0 <= j < live.len() && live[i] && live[j] && i != j
            ==> paths[i] != paths[j]
    &&& forall|i: int, j: int|
        #![trigger live[i], live[j]]
        0 <= i < j < live.len() && live[i] && live[j] ==> !is_descendant(paths[i], paths[j])
}

/// The ledger's invariant.
pub open spec fn wf(v: LedgerView) -> bool {
    &&& nodes_wf(v.paths, v.live)
    &&& !v.loaded ==> v.programs.len() == 0
    &&& forall|k: int|
        0 <= k < v.attachments.len() ==> (#[trigger] v.attachments[k]).program < v.programs.len()
            && v.attachments[k].node < v.paths.len()
    // an identical direct attachment is never active twice
    &&& forall|k1: int, k2: int|
        0 <= k1 < v.attachments.len() && 0 <= k2 < v.attachments.len() && k1 != k2
            && #[trigger] v.attachments[k1].mechanism == Mechanism::PersistentDirect
            && #[trigger] v.attachments[k2].mechanism == Mechanism::PersistentDirect
            && v.attachments[k1].state == AttachState::Active
            && v.attachments[k2].state == AttachState::Active ==> v.attachments[k1].program
            != v.attachments[k2].program || v.attachments[k1].node != v.attachments[k2].node
}

/// Recording a direct attachment keeps the invariant, provided an active
/// one does not repeat an active identical pair.
pub proof fn lemma_push_direct(v: LedgerView, a: Attachment)
    requires
        wf(v),
        a.mechanism == Mechanism::PersistentDirect,
        a.program < v.programs.len(),
        a.node < v.paths.len(),
        a.state == AttachState::Active ==> !direct_exists(v, a.program, a.node),
    ensures
        wf(with_attachment(v, a)),
{
    let w = with_attachment(v, a);
    let k = v.attachments.len() as int;
    assert(w.paths == v.paths && w.live == v.live);
    assert forall|k1: int, k2: int|
        0 <= k1 < w.attachments.len() && 0 <= k2 < w.attachments.len() && k1 != k2
            && #[trigger] w.attachments[k1].mechanism == Mechanism::PersistentDirect
            && #[trigger] w.attachments[k2].mechanism == Mechanism::PersistentDirect
            && w.attachments[k1].state == AttachState::Active
            && w.attachments[k2].state == AttachState::Active implies w.attachments[k1].program
            != w.attachments[k2].program || w.attachments[k1].node != w.attachments[k2].node by {
        if k1 == k {
            assert(!active_direct(v.attachments[k2], a.program, a.node));
        } else if k2 == k {
            assert(!active_direct(v.attachments[k1], a.program, a.node));
        } else {
            assert(v.attachments[k1] == w.attachments[k1]);
            assert(v.attachments[k2] == w.attachments[k2]);
        }
    }
}

/// The ledger of a controller that has done nothing yet.
pub open spec fn empty_ledger() -> LedgerView {
    LedgerView {
        paths: Seq::empty(),
        live: Seq::empty(),
        programs: Seq::empty(),
        loaded: false,
        attachments: Seq::empty(),
    }
}

// ---------------------------------------------------------------- nodes

/// Some live node has path `p`, or lies below `p` (so `p` exists already).
pub open spec fn path_taken(v: LedgerView, p: Seq<u8>) -> bool {
    exists|i: int| live_node(v, i) && (v.paths[i] == p || is_descendant(v.paths[i], p))
}

/// Why creating a node at `p` is refused before any kernel call, if it is.
/// The path is judged without its trailing separators; the root always
/// exists.
pub open spec fn create_error(v: LedgerView, p: Seq<u8>) -> Option<ControlError> {
    if !valid_path(p) {
        Some(ControlError::InvalidPath)
    } else if trim(p).len() < 2 || path_taken(v, trim(p)) {
        Some(ControlError::AlreadyExists)
    } else {
        None
    }
}

/// What `create` returns when the directory call reported `status`
/// (0 for success, else an `errno`).
pub open spec fn create_result(v: LedgerView, p: Seq<u8>, status: i32) -> Result<
    usize,
    ControlError,
> {
    match create_error(v, p) {
        Some(e) => Err(e),
        None => if status != 0 {
            Err(error_of_code(status))
        } else {
            Ok(v.paths.len() as usize)
        },
    }
}

/// The ledger after node `p` was created.
pub open spec fn with_node(v: LedgerView, p: Seq<u8>) -> LedgerView {
    LedgerView { paths: v.paths.push(p), live: v.live.push(true), ..v }
}

/// Some live node lies below node `j`.
pub open spec fn has_live_descendant(v: LedgerView, j: int) -> bool {
    exists|i: int| live_node(v, i) && is_descendant(v.paths[i], v.paths[j])
}

/// Why deleting node `j` is refused before any kernel call, if it is.
/// Links that point at the node do not stop it: the kernel allows the
/// removal, and the shutdown sequence releases links first anyway.
pub open spec fn delete_error(v: LedgerView, j: int) -> Option<ControlError> {
    if !live_node(v, j) {
        Some(ControlError::NotFound)
    } else if has_live_descendant(v, j) {
        Some(ControlError::Conflict)
    } else {
        None
    }
}

/// What `delete` returns when the directory call reported `status`.
pub open spec fn delete_result(v: LedgerView, j: int, status: i32) -> Result<(), ControlError> {
    match delete_error(v, j) {
        Some(e) => Err(e),
        None => if status != 0 {
            Err(error_of_code(status))
        } else {
            Ok(())
        },
    }
}

/// The ledger after node `j` was removed.
pub open spec fn without_node(v: LedgerView, j: int) -> LedgerView {
    LedgerView { live: v.live.update(j, false), ..v }
}

// ---------------------------------------------------------------- attachments

/// Why attaching `program` to `node` is refused before any kernel call.
pub open spec fn attach_error(v: LedgerView, program: usize, node: usize) -> Option<ControlError> {
    if program >= v.programs.len() || !live_node(v, node as int) {
        Some(ControlError::NotFound)
    } else {
        None
    }
}

/// A fresh link-scoped attachment of `program` to `node`.
pub open spec fn link_of(program: usize, node: usize) -> Attachment {
    Attachment {
        program,
        node,
        mechanism: Mechanism::LinkScoped,
        state: AttachState::Active,
    }
}

/// The ledger after attachment `a` was recorded.
pub open spec fn with_attachment(v: LedgerView, a: Attachment) -> LedgerView {
    LedgerView { attachments: v.attachments.push(a), ..v }
}

/// What `attach_linked` returns when the kernel call reported `status`.
pub open spec fn attach_result(v: LedgerView, program: usize, node: usize, status: i32) -> Result<
    usize,
    ControlError,
> {
    match attach_error(v, program, node) {
        Some(e) => Err(e),
        None => if status != 0 {
            Err(error_of_code(status))
        } else {
            Ok(v.attachments.len() as usize)
        },
    }
}

/// The ledger after attachment `k` was released.
pub open spec fn released(v: LedgerView, k: int) -> LedgerView {
    LedgerView {
        attachments: v.attachments.update(
            k,
            Attachment { state: AttachState::Released, ..v.attachments[k] },
        ),
        ..v
    }
}

/// What `detach` returns: only link-scoped attachments can be released this way.
pub open spec fn detach_result(v: LedgerView, k: usize) -> Result<(), ControlError> {
    if k < v.attachments.len() && v.attachments[k as int].mechanism == Mechanism::LinkScoped {
        Ok(())
    } else {
        Err(ControlError::NotFound)
    }
}

/// An active direct attachment of `program` to `node` is recorded.
pub open spec fn direct_exists(v: LedgerView, program: usize, node: usize) -> bool {
    exists|k: int|
        0 <= k < v.attachments.len() && active_direct(#[trigger] v.attachments[k], program, node)
}

/// Why a direct attach of `program` to `node` is refused before any kernel
/// call, if it is. The sharing flag plays no part.
pub open spec fn direct_error(v: LedgerView, program: usize, node: usize) -> Option<ControlError> {
    match attach_error(v, program, node) {
        Some(e) => Some(e),
        None => if direct_exists(v, program, node) {
            Some(ControlError::Conflict)
        } else {
            None
        },
    }
}

/// A direct attachment of `program` to `node` in state `state`.
pub open spec fn direct_of(program: usize, node: usize, state: AttachState) -> Attachment {
    Attachment { program, node, mechanism: Mechanism::PersistentDirect, state }
}

/// What `open` returns when the open call on node `j` reported `status`.
pub open spec fn open_result(v: LedgerView, j: int, status: i32) -> Result<(), ControlError> {
    if !live_node(v, j) {
        Err(ControlError::NotFound)
    } else if status != 0 {
        Err(error_of_code(status))
    } else {
        Ok(())
    }
}

/// What `attach_direct` returns when the raw kernel call reported `status`.
pub open spec fn direct_result(
    v: LedgerView,
    program: usize,
    node: usize,
    t: AttachType,
    status: i32,
) -> Result<usize, ControlError> {
    match direct_error(v, program, node) {
        Some(e) => Err(e),
        None => if status == 0 {
            Ok(v.attachments.len() as usize)
        } else if security_hook(t) {
            Err(ControlError::PossibleLeak)
        } else {
            Err(direct_error_of_code(status))
        },
    }
}

/// The ledger after a direct attach that was issued to the kernel.
pub open spec fn after_direct(
    v: LedgerView,
    program: usize,
    node: usize,
    t: AttachType,
    status: i32,
) -> LedgerView {
    if direct_error(v, program, node) is Some {
        v
    } else if status == 0 {
        with_attachment(v, direct_of(program, node, AttachState::Active))
    } else if security_hook(t) {
        with_attachment(v, direct_of(program, node, AttachState::PossibleLeak))
    } else {
        v
    }
}

// ---------------------------------------------------------------- teardown

/// Release steps for the active links of index `i` and above, highest first.
pub open spec fn release_steps(a: Seq<Attachment>, i: int) -> Seq<TeardownStep>
    decreases a.len() - i,
{
    if i < 0 || i >= a.len() {
        Seq::empty()
    } else if active_link(a[i]) {
        release_steps(a, i + 1).push(TeardownStep::ReleaseLink(i as usize))
    } else {
        release_steps(a, i + 1)
    }
}

/// Delete steps for the live nodes of index `i` and above, newest first.
pub open spec fn delete_steps(live: Seq<bool>, i: int) -> Seq<TeardownStep>
    decreases live.len() - i,
{
    if i < 0 || i >= live.len() {
        Seq::empty()
    } else if live[i] {
        delete_steps(live, i + 1).push(TeardownStep::DeleteNode(i as usize))
    } else {
        delete_steps(live, i + 1)
    }
}

/// The shutdown sequence: every active link, newest first, then every live
/// node, newest first. Direct attachments are left in place.
pub open spec fn teardown_steps(v: LedgerView) -> Seq<TeardownStep> {
    release_steps(v.attachments, 0) + delete_steps(v.live, 0)
}

} // verus!
