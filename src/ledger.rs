//! The controller: an ownership ledger of control-point nodes, the loaded
//! object's programs and every attachment made, with the decision taken for
//! each operation and the record of its outcome.
//!
//! Each operation that ends in a kernel call comes in two parts: a `check_`
//! function that says whether the call may be issued (and with what
//! arguments), and a recording function that takes the status the kernel
//! call returned (0 for success, else an `errno`) and updates the ledger.
use vstd::prelude::*;
use crate::error::{ControlError, classify_attach_errno, classify_errno, error_of_code};
use crate::path::{
    is_descendant, kernel_form, trim, check_path, check_descendant, same_bytes, canonical, lemma_trim,
};
use crate::model::{
    AttachState, AttachType, Attachment, DeletePolicy, DirectRequest, LedgerView, Mechanism, TeardownStep,
    ALLOW_MULTI, active_direct, active_link, after_direct, attach_error, attach_result,
    create_error, create_result, delete_error, delete_result, delete_steps, detach_result,
    direct_error, direct_exists, direct_of, direct_result, empty_ledger, open_result,
    has_live_descendant, link_of, live_node, path_taken, release_steps, released,
    teardown_steps, wf, lemma_push_direct, with_attachment, with_node, without_node,
};

verus! {

/// Whether the teardown goes on after a node deletion with `outcome`.
pub fn continue_after_delete(policy: DeletePolicy, outcome: &Result<(), ControlError>) -> (r: bool)
    ensures
        r == (outcome is Ok || policy == DeletePolicy::BestEffort),
{
    match outcome {
        Ok(()) => true,
        Err(_) => policy == DeletePolicy::BestEffort,
    }
}

/// The ledger of one controller process.
pub struct Controller {
    paths: Vec<Vec<u8>>,
    live: Vec<bool>,
    programs: Vec<Vec<u8>>,
    loaded: bool,
    attachments: Vec<Attachment>,
}

impl View for Controller {
    type V = LedgerView;

    closed spec fn view(&self) -> LedgerView {
        LedgerView {
            paths: self.paths@.map_values(|p: Vec<u8>| p@),
            live: self.live@,
            programs: self.programs@.map_values(|p: Vec<u8>| p@),
            loaded: self.loaded,
            attachments: self.attachments@,
        }
    }
}

impl Controller {
    /// An empty ledger: no node, no object, no attachment.
    pub fn new() -> (r: Controller)
        ensures
            r@ == empty_ledger(),
            wf(r@),
    {
        let r = Controller {
            paths: Vec::new(),
            live: Vec::new(),
            programs: Vec::new(),
            loaded: false,
            attachments: Vec::new(),
        };
        assert(r@.paths =~= Seq::<Seq<u8>>::empty());
        assert(r@.programs =~= Seq::<Seq<u8>>::empty());
        r
    }

    /// Records the loaded object and the names of its programs. A controller
    /// owns one object: a second load is refused with `Conflict`.
    pub fn load_object(&mut self, names: Vec<Vec<u8>>) -> (r: Result<(), ControlError>)
        requires
            wf(old(self)@),
        ensures
            wf(final(self)@),
            r is Ok <==> !old(self)@.loaded,
            r is Err ==> r->Err_0 == ControlError::Conflict && final(self)@ == old(self)@,
            r is Ok ==> final(self)@ == (LedgerView {
                programs: names@.map_values(|p: Vec<u8>| p@),
                loaded: true,
                ..old(self)@
            }),
    {
        if self.loaded {
            return Err(ControlError::Conflict);
        }
        assert(self.attachments@.len() == 0) by {
            if self.attachments@.len() > 0 {
                assert(self@.attachments[0].program < self@.programs.len());
            }
        }
        let ghost v = self@;
        self.programs = names;
        self.loaded = true;
        assert(self@.paths == v.paths && self@.live == v.live);
        Ok(())
    }

    /// The index of the first program called `name`.
    pub fn program(&self, name: &Vec<u8>) -> (r: Result<usize, ControlError>)
        ensures
            r is Err <==> forall|i: int| 0 <= i < self@.programs.len() ==> self@.programs[i] != name@,
            r is Err ==> r->Err_0 == ControlError::NotFound,
            r is Ok ==> r->Ok_0 < self@.programs.len() && self@.programs[r->Ok_0 as int] == name@
                && forall|i: int| 0 <= i < r->Ok_0 ==> self@.programs[i] != name@,
    {
        let mut i: usize = 0;
        while i < self.programs.len()
            invariant
                i <= self.programs@.len(),
                forall|k: int| 0 <= k < i ==> self@.programs[k] != name@,
            decreases self.programs@.len() - i,
        {
            assert(self@.programs[i as int] == self.programs@[i as int]@);
            if same_bytes(&self.programs[i], name) {
                assert(self@.programs[i as int] == self.programs@[i as int]@);
                return Ok(i);
            }
            i = i + 1;
        }
        Err(ControlError::NotFound)
    }

    /// Whether a live node has path `p` or lies below it.
    fn taken(&self, p: &Vec<u8>) -> (r: bool)
        requires
            wf(self@),
        ensures
            r == path_taken(self@, p@),
    {
        let mut i: usize = 0;
        while i < self.paths.len()
            invariant
                wf(self@),
                i <= self.paths@.len(),
                forall|k: int| 0 <= k < i ==> !(live_node(self@, k) && (self@.paths[k] == p@
                    || is_descendant(self@.paths[k], p@))),
            decreases self.paths@.len() - i,
        {
            assert(self@.paths[i as int] == self.paths@[i as int]@);
            assert(live_node(self@, i as int) == self.live@[i as int]);
            if self.live[i] {
                if same_bytes(&self.paths[i], p) || check_descendant(&self.paths[i], p) {
                    assert(live_node(self@, i as int));
                    return true;
                }
            }
            i = i + 1;
        }
        false
    }

    /// Whether `path` may be created, and if so the NUL-terminated form of
    /// the path without its trailing separators, for the directory call.
    pub fn check_create(&self, path: &Vec<u8>) -> (r: Result<Vec<u8>, ControlError>)
        requires
            wf(self@),
        ensures
            r is Err <==> create_error(self@, path@) is Some,
            r is Err ==> r->Err_0 == create_error(self@, path@)->Some_0,
            r is Ok ==> r->Ok_0@ == kernel_form(trim(path@)),
    {
        if !check_path(path) {
            return Err(ControlError::InvalidPath);
        }
        let c = canonical(path);
        if c.len() < 2 || self.taken(&c) {
            return Err(ControlError::AlreadyExists);
        }
        let mut out = c;
        out.push(crate::path::NUL);
        Ok(out)
    }

    /// Records the creation of a node at `path`, whose directory call
    /// returned `status`. The node is recorded under `path` without its
    /// trailing separators. On success the node's index is returned.
    pub fn create(&mut self, path: &Vec<u8>, status: i32) -> (r: Result<usize, ControlError>)
        requires
            wf(old(self)@),
        ensures
            wf(final(self)@),
            r == create_result(old(self)@, path@, status),
            r is Ok ==> final(self)@ == with_node(old(self)@, trim(path@)),
            r is Err ==> final(self)@ == old(self)@,
    {
        if !check_path(path) {
            return Err(ControlError::InvalidPath);
        }
        let c = canonical(path);
        proof {
            lemma_trim(path@);
        }
        if c.len() < 2 || self.taken(&c) {
            return Err(ControlError::AlreadyExists);
        }
        if status != 0 {
            return Err(classify_errno(status));
        }
        let ghost v = self@;
        let ghost q = c@;
        let id = self.paths.len();
        self.paths.push(c);
        self.live.push(true);
        assert(self@.paths =~= v.paths.push(q));
        assert(self@.programs =~= v.programs);
        assert(self@ == with_node(v, q));
        assert forall|i: int, j: int|
            #![trigger self@.live[i], self@.live[j]]
            0 <= i < j < self@.live.len() && self@.live[i] && self@.live[j] implies !is_descendant(
            self@.paths[i],
            self@.paths[j],
        ) by {
            if j == id as int {
                assert(!(live_node(v, i) && (v.paths[i] == q || is_descendant(v.paths[i], q))));
            } else {
                assert(v.live[i] && v.live[j]);
            }
        }
        assert forall|i: int, j: int|
            #![trigger self@.live[i], self@.live[j]]
            0 <= i < self@.live.len() && 0 <= j < self@.live.len() && self@.live[i] && self@.live[j]
            && i != j implies self@.paths[i] != self@.paths[j] by {
            if j == id as int {
                assert(!(live_node(v, i) && (v.paths[i] == q || is_descendant(v.paths[i], q))));
            } else if i == id as int {
                assert(!(live_node(v, j) && (v.paths[j] == q || is_descendant(v.paths[j], q))));
            } else {
                assert(v.live[i] && v.live[j]);
            }
        }
        Ok(id)
    }

    /// Records the open call on node `id`, which returned `status`: a node
    /// unknown or removed here, or a directory removed from outside
    /// (`ENOENT`), gives `NotFound`.
    pub fn open(&self, id: usize, status: i32) -> (r: Result<(), ControlError>)
        requires
            wf(self@),
        ensures
            r == open_result(self@, id as int, status),
    {
        if id >= self.paths.len() || !self.live[id] {
            return Err(ControlError::NotFound);
        }
        if status != 0 {
            return Err(classify_errno(status));
        }
        Ok(())
    }

    /// Whether node `id` exists, and if so the NUL-terminated path to open
    /// a read-only descriptor on it.
    pub fn check_open(&self, id: usize) -> (r: Result<Vec<u8>, ControlError>)
        requires
            wf(self@),
        ensures
            r is Ok <==> live_node(self@, id as int),
            r is Err ==> r->Err_0 == ControlError::NotFound,
            r is Ok ==> r->Ok_0@ == kernel_form(self@.paths[id as int]),
    {
        if id >= self.paths.len() || !self.live[id] {
            return Err(ControlError::NotFound);
        }
        let mut out = self.paths[id].clone();
        out.push(crate::path::NUL);
        Ok(out)
    }

    /// Whether a live node lies below node `id`.
    fn live_descendant(&self, id: usize) -> (r: bool)
        requires
            wf(self@),
            id < self@.paths.len(),
        ensures
            r == has_live_descendant(self@, id as int),
    {
        let mut i: usize = 0;
        while i < self.paths.len()
            invariant
                wf(self@),
                id < self@.paths.len(),
                i <= self.paths@.len(),
                forall|k: int| 0 <= k < i ==> !(live_node(self@, k) && is_descendant(
                    self@.paths[k],
                    self@.paths[id as int],
                )),
            decreases self.paths@.len() - i,
        {
            assert(self@.paths[i as int] == self.paths@[i as int]@);
            assert(self@.paths[id as int] == self.paths@[id as int]@);
            if self.live[i] && check_descendant(&self.paths[i], &self.paths[id]) {
                assert(live_node(self@, i as int));
                return true;
            }
            i = i + 1;
        }
        false
    }

    /// Whether node `id` may be removed, and if so the NUL-terminated path
    /// for the directory call. A node with a live node below it is refused
    /// with `Conflict`; links that point at it do not stop it.
    pub fn check_delete(&self, id: usize) -> (r: Result<Vec<u8>, ControlError>)
        requires
            wf(self@),
        ensures
            r is Err <==> delete_error(self@, id as int) is Some,
            r is Err ==> r->Err_0 == delete_error(self@, id as int)->Some_0,
            r is Ok ==> r->Ok_0@ == kernel_form(self@.paths[id as int]),
    {
        let p = self.check_open(id);
        match p {
            Err(e) => Err(e),
            Ok(kp) => if self.live_descendant(id) {
                Err(ControlError::Conflict)
            } else {
                Ok(kp)
            },
        }
    }

    /// Records the removal of node `id`, whose directory call returned
    /// `status`. On failure the node stays live.
    pub fn delete(&mut self, id: usize, status: i32) -> (r: Result<(), ControlError>)
        requires
            wf(old(self)@),
        ensures
            wf(final(self)@),
            r == delete_result(old(self)@, id as int, status),
            r is Ok ==> final(self)@ == without_node(old(self)@, id as int),
            r is Err ==> final(self)@ == old(self)@,
    {
        if id >= self.paths.len() || !self.live[id] {
            return Err(ControlError::NotFound);
        }
        if self.live_descendant(id) {
            return Err(ControlError::Conflict);
        }
        if status != 0 {
            return Err(classify_errno(status));
        }
        let ghost v = self@;
        self.live.set(id, false);
        assert(self@.live =~= v.live.update(id as int, false));
        assert(self@.paths == v.paths);
        assert(self@.programs == v.programs);
        assert(self@ == without_node(v, id as int));
        assert forall|i: int, j: int|
            #![trigger self@.live[i], self@.live[j]]
            0 <= i < j < self@.live.len() && self@.live[i] && self@.live[j] implies !is_descendant(
            self@.paths[i],
            self@.paths[j],
        ) by {
            assert(v.live[i] && v.live[j]);
        }
        assert forall|i: int, j: int|
            #![trigger self@.live[i], self@.live[j]]
            0 <= i < self@.live.len() && 0 <= j < self@.live.len() && self@.live[i] && self@.live[j]
            && i != j implies self@.paths[i] != self@.paths[j] by {
            assert(v.live[i] && v.live[j]);
        }
        Ok(())
    }

    /// Whether `program` may be attached to `node`.
    pub fn check_attach(&self, program: usize, node: usize) -> (r: Result<(), ControlError>)
        requires
            wf(self@),
        ensures
            r is Err <==> attach_error(self@, program, node) is Some,
            r is Err ==> r->Err_0 == ControlError::NotFound,
    {
        if program >= self.programs.len() || node >= self.paths.len() || !self.live[node] {
            Err(ControlError::NotFound)
        } else {
            Ok(())
        }
    }

    /// Records a link-scoped attachment of `program` to `node`, whose kernel
    /// call returned `status`. Repeating the same pair makes a new, distinct
    /// link each time. On success the attachment's index is returned.
    pub fn attach_linked(&mut self, program: usize, node: usize, status: i32) -> (r: Result<
        usize,
        ControlError,
    >)
        requires
            wf(old(self)@),
        ensures
            wf(final(self)@),
            r == attach_result(old(self)@, program, node, status),
            r is Ok ==> final(self)@ == with_attachment(old(self)@, link_of(program, node)),
            r is Err ==> final(self)@ == old(self)@,
    {
        if let Err(e) = self.check_attach(program, node) {
            return Err(e);
        }
        if status != 0 {
            return Err(classify_errno(status));
        }
        let ghost v = self@;
        let k = self.attachments.len();
        self.attachments.push(
            Attachment {
                program,
                node,
                mechanism: Mechanism::LinkScoped,
                state: AttachState::Active,
            },
        );
        assert(self@.paths == v.paths && self@.live == v.live && self@.programs == v.programs);
        assert(self@ == with_attachment(v, link_of(program, node)));
        Ok(k)
    }

    /// Releases the link-scoped attachment `link`. Releasing one already
    /// released changes nothing. Other attachments are untouched.
    pub fn detach(&mut self, link: usize) -> (r: Result<(), ControlError>)
        requires
            wf(old(self)@),
        ensures
            wf(final(self)@),
            r == detach_result(old(self)@, link),
            r is Ok ==> final(self)@ == released(old(self)@, link as int),
            r is Err ==> final(self)@ == old(self)@,
    {
        if link >= self.attachments.len() || self.attachments[link].mechanism
            != Mechanism::LinkScoped {
            return Err(ControlError::NotFound);
        }
        let ghost v = self@;
        let a = self.attachments[link];
        self.attachments.set(link, Attachment { state: AttachState::Released, ..a });
        assert(self@.paths == v.paths && self@.live == v.live && self@.programs == v.programs);
        assert(self@ == released(v, link as int));
        Ok(())
    }

    /// The index of the active direct attachment of `program` to `node`.
    fn find_direct(&self, program: usize, node: usize) -> (r: Option<usize>)
        ensures
            r is None <==> !direct_exists(self@, program, node),
            r is Some ==> r->Some_0 < self@.attachments.len() && active_direct(
                self@.attachments[r->Some_0 as int],
                program,
                node,
            ),
    {
        let mut k: usize = 0;
        while k < self.attachments.len()
            invariant
                k <= self.attachments@.len(),
                forall|q: int|
                    0 <= q < k ==> !active_direct(#[trigger] self@.attachments[q], program, node),
            decreases self.attachments@.len() - k,
        {
            let a = self.attachments[k];
            if a.mechanism == Mechanism::PersistentDirect && a.state == AttachState::Active
                && a.program == program && a.node == node {
                assert(active_direct(self@.attachments[k as int], program, node));
                return Some(k);
            }
            k = k + 1;
        }
        None
    }

    /// Whether a direct attach of `program` to `node` may be issued, and if
    /// so the request to hand to the kernel. An identical active direct
    /// attachment is refused with `Conflict`, whatever `allow_multi` says;
    /// `allow_multi` only sets the sharing flag of the request.
    pub fn check_attach_direct(
        &self,
        program: usize,
        node: usize,
        attach_type: AttachType,
        allow_multi: bool,
    ) -> (r: Result<DirectRequest, ControlError>)
        requires
            wf(self@),
        ensures
            r is Err <==> direct_error(self@, program, node) is Some,
            r is Err ==> r->Err_0 == direct_error(self@, program, node)->Some_0,
            r is Ok ==> r->Ok_0 == (DirectRequest {
                program,
                node,
                attach_type,
                flags: if allow_multi { ALLOW_MULTI } else { 0 },
            }),
    {
        if let Err(e) = self.check_attach(program, node) {
            return Err(e);
        }
        if self.find_direct(program, node).is_some() {
            return Err(ControlError::Conflict);
        }
        let flags: u32 = if allow_multi { ALLOW_MULTI } else { 0 };
        Ok(DirectRequest { program, node, attach_type, flags })
    }

    /// Records a direct attach of `program` to `node`, whose raw kernel call
    /// returned `status`. A failure on a security-module hook is reported as
    /// `PossibleLeak` and recorded, since the program may remain registered;
    /// any other failure is classified by its status and leaves no record.
    pub fn attach_direct(
        &mut self,
        program: usize,
        node: usize,
        attach_type: AttachType,
        status: i32,
    ) -> (r: Result<usize, ControlError>)
        requires
            wf(old(self)@),
        ensures
            wf(final(self)@),
            r == direct_result(old(self)@, program, node, attach_type, status),
            final(self)@ == after_direct(old(self)@, program, node, attach_type, status),
    {
        if let Err(e) = self.check_attach(program, node) {
            return Err(e);
        }
        if self.find_direct(program, node).is_some() {
            return Err(ControlError::Conflict);
        }
        let ghost v = self@;
        let k = self.attachments.len();
        if status == 0 {
            self.attachments.push(
                Attachment {
                    program,
                    node,
                    mechanism: Mechanism::PersistentDirect,
                    state: AttachState::Active,
                },
            );
            assert(self@.paths == v.paths && self@.live == v.live && self@.programs == v.programs);
            assert(self@ == with_attachment(v, direct_of(program, node, AttachState::Active)));
            proof {
                lemma_push_direct(v, direct_of(program, node, AttachState::Active));
            }
            Ok(k)
        } else if attach_type.is_security_hook() {
            self.attachments.push(
                Attachment {
                    program,
                    node,
                    mechanism: Mechanism::PersistentDirect,
                    state: AttachState::PossibleLeak,
                },
            );
            assert(self@.paths == v.paths && self@.live == v.live && self@.programs == v.programs);
            assert(self@ == with_attachment(v, direct_of(program, node, AttachState::PossibleLeak)));
            proof {
                lemma_push_direct(v, direct_of(program, node, AttachState::PossibleLeak));
            }
            Err(ControlError::PossibleLeak)
        } else {
            Err(classify_attach_errno(status))
        }
    }

    /// Records the explicit removal of the direct attachment of `program` to
    /// `node`, whose kernel call returned `status`: the only way such an
    /// attachment is released. On success its index is returned.
    pub fn detach_direct(&mut self, program: usize, node: usize, status: i32) -> (r: Result<
        usize,
        ControlError,
    >)
        requires
            wf(old(self)@),
        ensures
            wf(final(self)@),
            r is Ok <==> direct_exists(old(self)@, program, node) && status == 0,
            !direct_exists(old(self)@, program, node) ==> r == Err::<usize, ControlError>(
                ControlError::NotFound,
            ),
            direct_exists(old(self)@, program, node) && status != 0 ==> r == Err::<
                usize,
                ControlError,
            >(error_of_code(status)),
            r is Ok ==> r->Ok_0 < old(self)@.attachments.len() && active_direct(
                old(self)@.attachments[r->Ok_0 as int],
                program,
                node,
            ) && final(self)@ == released(old(self)@, r->Ok_0 as int),
            r is Err ==> final(self)@ == old(self)@,
    {
        let found = self.find_direct(program, node);
        match found {
            None => Err(ControlError::NotFound),
            Some(k) => {
                if status != 0 {
                    return Err(classify_errno(status));
                }
                let ghost v = self@;
                let a = self.attachments[k];
                self.attachments.set(k, Attachment { state: AttachState::Released, ..a });
                assert(self@.paths == v.paths && self@.live == v.live && self@.programs
                    == v.programs);
                assert(self@ == released(v, k as int));
                Ok(k)
            },
        }
    }

    /// The shutdown sequence: release every active link, newest first, then
    /// remove every live node, newest first, so that a node goes before any
    /// node it is nested in. Direct attachments are deliberately left behind.
    pub fn teardown_plan(&self) -> (r: Vec<TeardownStep>)
        requires
            wf(self@),
        ensures
            r@ == teardown_steps(self@),
    {
        let mut out: Vec<TeardownStep> = Vec::new();
        let mut i: usize = self.attachments.len();
        assert(out@ =~= release_steps(self@.attachments, i as int));
        while i > 0
            invariant
                i <= self.attachments@.len(),
                out@ == release_steps(self@.attachments, i as int),
            decreases i,
        {
            i = i - 1;
            let a = self.attachments[i];
            if a.mechanism == Mechanism::LinkScoped && a.state == AttachState::Active {
                out.push(TeardownStep::ReleaseLink(i));
            }
        }
        let ghost rel = out@;
        let mut j: usize = self.live.len();
        assert(out@ =~= rel + delete_steps(self@.live, j as int));
        while j > 0
            invariant
                j <= self.live@.len(),
                rel == release_steps(self@.attachments, 0),
                out@ == rel + delete_steps(self@.live, j as int),
            decreases j,
        {
            j = j - 1;
            if self.live[j] {
                out.push(TeardownStep::DeleteNode(j));
                assert(out@ =~= rel + delete_steps(self@.live, j as int));
            } else {
                assert(out@ =~= rel + delete_steps(self@.live, j as int));
            }
        }
        out
    }

    /// The number of nodes ever created.
    pub fn node_count(&self) -> (r: usize)
        ensures
            r == self@.paths.len(),
    {
        self.paths.len()
    }

    /// Whether node `id` exists.
    pub fn is_live(&self, id: usize) -> (r: bool)
        requires
            wf(self@),
        ensures
            r == live_node(self@, id as int),
    {
        id < self.live.len() && self.live[id]
    }

    /// The path of node `id`, live or not.
    pub fn node_path(&self, id: usize) -> (r: Option<Vec<u8>>)
        ensures
            r is Some <==> id < self@.paths.len(),
            r is Some ==> r->Some_0@ == self@.paths[id as int],
    {
        if id < self.paths.len() {
            Some(self.paths[id].clone())
        } else {
            None
        }
    }

    /// Whether an object has been loaded.
    pub fn is_loaded(&self) -> (r: bool)
        ensures
            r == self@.loaded,
    {
        self.loaded
    }

    /// The number of attachments ever recorded.
    pub fn attachment_count(&self) -> (r: usize)
        ensures
            r == self@.attachments.len(),
    {
        self.attachments.len()
    }

    /// The attachment of index `k`.
    pub fn attachment(&self, k: usize) -> (r: Option<Attachment>)
        ensures
            r is Some <==> k < self@.attachments.len(),
            r is Some ==> r->Some_0 == self@.attachments[k as int],
    {
        if k < self.attachments.len() {
            Some(self.attachments[k])
        } else {
            None
        }
    }
}

} // verus!
