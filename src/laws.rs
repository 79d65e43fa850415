//! Properties that relate several operations of the controller, proved over
//! the ledger model that the operations' contracts are stated in.
use vstd::prelude::*;
use crate::error::ControlError;
use crate::path::{is_descendant, trim, valid_path};
use crate::model::{
    AttachState, AttachType, LedgerView, TeardownStep, delete_steps, release_steps, teardown_steps, active_link, after_direct, attach_error, attach_result,
    create_result, delete_result, direct_error, direct_result, link_of, live_node, released,
    wf, with_attachment, with_node, without_node,
};

verus! {

/// Creating a node and then deleting it leaves no live node at that path:
/// the deletion is allowed, succeeds when the directory call does, and the
/// live set is the one from before plus a removed entry.
pub proof fn lemma_create_then_delete(v: LedgerView, p: Seq<u8>)
    requires
        wf(v),
        create_result(v, p, 0) is Ok,
    ensures
        delete_result(with_node(v, trim(p)), v.paths.len() as int, 0) == Ok::<(), ControlError>(()),
        without_node(with_node(v, trim(p)), v.paths.len() as int).live == v.live.push(false),
        forall|i: int|
            live_node(without_node(with_node(v, trim(p)), v.paths.len() as int), i)
                ==> #[trigger] v.paths.push(trim(p))[i] != trim(p),
{
    let q = trim(p);
    let w = with_node(v, q);
    let j = v.paths.len() as int;
    assert(live_node(w, j));
    assert(!(exists|i: int| live_node(w, i) && is_descendant(w.paths[i], w.paths[j]))) by {
        assert forall|i: int| live_node(w, i) implies !is_descendant(w.paths[i], w.paths[j]) by {
            if i != j {
                assert(live_node(v, i));
                assert(!(live_node(v, i) && (v.paths[i] == q || is_descendant(v.paths[i], q))));
            }
        }
    }
    assert(without_node(w, j).live =~= v.live.push(false));
    assert forall|i: int| live_node(without_node(w, j), i) implies #[trigger] v.paths.push(q)[i] != q by {
        assert(live_node(v, i));
        assert(!(live_node(v, i) && (v.paths[i] == q || is_descendant(v.paths[i], q))));
    }
}

/// Creating the same path a second time, while the first node lives, is
/// refused with `AlreadyExists`, whatever the directory call would report;
/// the path may be written with or without trailing separators.
pub proof fn lemma_create_twice(v: LedgerView, p: Seq<u8>, again: Seq<u8>, status: i32)
    requires
        wf(v),
        create_result(v, p, 0) is Ok,
        valid_path(again),
        trim(again) == trim(p),
    ensures
        create_result(with_node(v, trim(p)), again, status) == Err::<usize, ControlError>(
            ControlError::AlreadyExists,
        ),
{
    let w = with_node(v, trim(p));
    assert(live_node(w, v.paths.len() as int) && w.paths[v.paths.len() as int] == trim(again));
}

/// The ledger after `n` link-scoped attachments of `program` to `node`.
pub open spec fn attach_links(v: LedgerView, program: usize, node: usize, n: nat) -> LedgerView
    decreases n,
{
    if n == 0 {
        v
    } else {
        with_attachment(attach_links(v, program, node, (n - 1) as nat), link_of(program, node))
    }
}

/// Attaching the same program to the same node `n` times succeeds every
/// time and yields `n` distinct active links, one per index; the earlier
/// attachments are untouched.
pub proof fn lemma_links_repeat(v: LedgerView, program: usize, node: usize, n: nat)
    requires
        wf(v),
        attach_error(v, program, node) is None,
        v.attachments.len() + n <= usize::MAX,
    ensures
        attach_links(v, program, node, n).attachments.len() == v.attachments.len() + n,
        forall|m: nat|
            m < n ==> #[trigger] attach_result(attach_links(v, program, node, m), program, node, 0)
                == Ok::<usize, ControlError>((v.attachments.len() + m) as usize),
        forall|q: int|
            0 <= q < v.attachments.len() ==> #[trigger] attach_links(
                v,
                program,
                node,
                n,
            ).attachments[q] == v.attachments[q],
        forall|q: int|
            v.attachments.len() <= q < v.attachments.len() + n ==> #[trigger] attach_links(
                v,
                program,
                node,
                n,
            ).attachments[q] == link_of(program, node),
    decreases n,
{
    if n > 0 {
        lemma_links_repeat(v, program, node, (n - 1) as nat);
        let prev = attach_links(v, program, node, (n - 1) as nat);
        assert(prev.paths == v.paths && prev.live == v.live && prev.programs == v.programs) by {
            lemma_links_frame(v, program, node, (n - 1) as nat);
        }
        assert forall|m: nat| m < n implies #[trigger] attach_result(
            attach_links(v, program, node, m),
            program,
            node,
            0,
        ) == Ok::<usize, ControlError>((v.attachments.len() + m) as usize) by {
            lemma_links_frame(v, program, node, m);
        }
    }
}

/// Adding links changes neither the nodes nor the programs.
proof fn lemma_links_frame(v: LedgerView, program: usize, node: usize, n: nat)
    ensures
        attach_links(v, program, node, n).paths == v.paths,
        attach_links(v, program, node, n).live == v.live,
        attach_links(v, program, node, n).programs == v.programs,
        attach_links(v, program, node, n).attachments.len() == v.attachments.len() + n,
    decreases n,
{
    if n > 0 {
        lemma_links_frame(v, program, node, (n - 1) as nat);
    }
}

/// Releasing one link leaves every other attachment as it was.
pub proof fn lemma_detach_one(v: LedgerView, k: int, q: int)
    requires
        0 <= k < v.attachments.len(),
        0 <= q < v.attachments.len(),
        q != k,
    ensures
        released(v, k).attachments[q] == v.attachments[q],
        released(v, k).attachments[k].state == AttachState::Released,
        released(v, k).attachments.len() == v.attachments.len(),
{
}

/// After a successful direct attach of `program` to `node`, a second direct
/// attach of the identical pair is refused with `Conflict`, whatever the
/// hook kind and the kernel status; a direct attach of the same program to
/// another node is judged exactly as before.
pub proof fn lemma_direct_unique(
    v: LedgerView,
    program: usize,
    node: usize,
    t: AttachType,
    t2: AttachType,
    status: i32,
    other: usize,
)
    requires
        wf(v),
        direct_result(v, program, node, t, 0) is Ok,
        other != node,
    ensures
        direct_result(after_direct(v, program, node, t, 0), program, node, t2, status) == Err::<
            usize,
            ControlError,
        >(ControlError::Conflict),
        direct_error(after_direct(v, program, node, t, 0), program, other) == direct_error(
            v,
            program,
            other,
        ),
{
    let w = after_direct(v, program, node, t, 0);
    let k = v.attachments.len() as int;
    assert(w.attachments[k].program == program);
    assert(crate::model::active_direct(w.attachments[k], program, node));
    let d1 = crate::model::direct_exists(w, program, other);
    let d0 = crate::model::direct_exists(v, program, other);
    assert(d1 == d0) by {
        if d1 {
            let q = choose|q: int|
                0 <= q < w.attachments.len() && crate::model::active_direct(
                    #[trigger] w.attachments[q],
                    program,
                    other,
                );
            assert(q != k);
            assert(crate::model::active_direct(v.attachments[q], program, other));
        }
        if d0 {
            let q = choose|q: int|
                0 <= q < v.attachments.len() && crate::model::active_direct(
                    #[trigger] v.attachments[q],
                    program,
                    other,
                );
            assert(w.attachments[q] == v.attachments[q]);
        }
    }
}

/// A node with a live node nested below it is never removed: its deletion
/// is refused with `Conflict`, whatever the directory call would report.
pub proof fn lemma_parent_kept(v: LedgerView, parent: int, child: int, status: i32)
    requires
        wf(v),
        live_node(v, parent),
        live_node(v, child),
        is_descendant(v.paths[child], v.paths[parent]),
    ensures
        delete_result(v, parent, status) == Err::<(), ControlError>(ControlError::Conflict),
{
}

/// The delete steps from index `i` on name live nodes of index `i` or
/// above, each live one once, in strictly decreasing order of index.
proof fn lemma_delete_steps_shape(live: Seq<bool>, i: int)
    requires
        0 <= i <= live.len(),
        live.len() <= usize::MAX,
    ensures
        forall|a: int|
            0 <= a < delete_steps(live, i).len() ==> (#[trigger] delete_steps(live, i)[a]) is DeleteNode
                && i <= delete_steps(live, i)[a]->DeleteNode_0 < live.len()
                && live[delete_steps(live, i)[a]->DeleteNode_0 as int],
        forall|a: int, b: int|
            0 <= a < b < delete_steps(live, i).len() ==> (#[trigger] delete_steps(live, i)[a])->DeleteNode_0
                > (#[trigger] delete_steps(live, i)[b])->DeleteNode_0,
        forall|j: int|
            i <= j < live.len() && live[j] ==> exists|a: int|
                0 <= a < delete_steps(live, i).len() && #[trigger] delete_steps(live, i)[a]
                    == TeardownStep::DeleteNode(j as usize),
    decreases live.len() - i,
{
    if i < live.len() {
        lemma_delete_steps_shape(live, i + 1);
        let rest = delete_steps(live, i + 1);
        if live[i] {
            let s = rest.push(TeardownStep::DeleteNode(i as usize));
            assert(s == delete_steps(live, i));
            assert(s[rest.len() as int] == TeardownStep::DeleteNode(i as usize));
            assert forall|j: int| i <= j < live.len() && live[j] implies exists|a: int|
                0 <= a < s.len() && #[trigger] s[a] == TeardownStep::DeleteNode(j as usize) by {
                if j > i {
                    let a = choose|a: int|
                        0 <= a < rest.len() && #[trigger] rest[a] == TeardownStep::DeleteNode(
                            j as usize,
                        );
                    assert(s[a] == rest[a]);
                }
            }
        } else {
            assert forall|j: int| i <= j < live.len() && live[j] implies exists|a: int|
                0 <= a < rest.len() && #[trigger] rest[a] == TeardownStep::DeleteNode(j as usize) by {
                assert(j != i);
            }
        }
    }
}

/// The shutdown sequence releases every active link, removes every live
/// node exactly once, and never removes a node before a node nested in it.
pub proof fn lemma_teardown_order(v: LedgerView)
    requires
        wf(v),
        v.paths.len() <= usize::MAX,
        v.attachments.len() <= usize::MAX,
    ensures
        forall|a: int, b: int|
            0 <= a < b < teardown_steps(v).len() && (#[trigger] teardown_steps(v)[a]) is DeleteNode
                && (#[trigger] teardown_steps(v)[b]) is DeleteNode ==> !is_descendant(
                v.paths[teardown_steps(v)[b]->DeleteNode_0 as int],
                v.paths[teardown_steps(v)[a]->DeleteNode_0 as int],
            ),
        forall|j: int|
            live_node(v, j) ==> exists|a: int|
                0 <= a < teardown_steps(v).len() && #[trigger] teardown_steps(v)[a]
                    == TeardownStep::DeleteNode(j as usize),
        forall|k: int|
            0 <= k < v.attachments.len() && active_link(#[trigger] v.attachments[k]) ==> exists|a: int|
                0 <= a < teardown_steps(v).len() && #[trigger] teardown_steps(v)[a]
                    == TeardownStep::ReleaseLink(k as usize),
{
    let r = release_steps(v.attachments, 0);
    let d = delete_steps(v.live, 0);
    let s = teardown_steps(v);
    lemma_delete_steps_shape(v.live, 0);
    lemma_release_steps_shape(v.attachments, 0);
    assert forall|a: int| 0 <= a < s.len() && (#[trigger] s[a]) is DeleteNode implies a >= r.len()
        && s[a] == d[a - r.len()] by {
        if a < r.len() {
            assert(s[a] == r[a]);
        }
    }
    assert forall|a: int, b: int|
        0 <= a < b < s.len() && (#[trigger] s[a]) is DeleteNode && (#[trigger] s[b]) is DeleteNode
        implies !is_descendant(
        v.paths[s[b]->DeleteNode_0 as int],
        v.paths[s[a]->DeleteNode_0 as int],
    ) by {
        let x = d[a - r.len()]->DeleteNode_0 as int;
        let y = d[b - r.len()]->DeleteNode_0 as int;
        assert(x > y);
        assert(v.live[x] && v.live[y]);
    }
    assert forall|j: int| live_node(v, j) implies exists|a: int|
        0 <= a < s.len() && #[trigger] s[a] == TeardownStep::DeleteNode(j as usize) by {
        let a = choose|a: int| 0 <= a < d.len() && #[trigger] d[a] == TeardownStep::DeleteNode(j as usize);
        assert(s[a + r.len()] == d[a]);
    }
    assert forall|k: int|
        0 <= k < v.attachments.len() && active_link(#[trigger] v.attachments[k]) implies exists|a: int|
        0 <= a < s.len() && #[trigger] s[a] == TeardownStep::ReleaseLink(k as usize) by {
        let a = choose|a: int| 0 <= a < r.len() && #[trigger] r[a] == TeardownStep::ReleaseLink(k as usize);
        assert(s[a] == r[a]);
    }
}

/// The release steps from index `i` on are release steps, one for each
/// active link of index `i` or above.
proof fn lemma_release_steps_shape(a: Seq<crate::model::Attachment>, i: int)
    requires
        0 <= i <= a.len(),
        a.len() <= usize::MAX,
    ensures
        forall|p: int|
            0 <= p < release_steps(a, i).len() ==> (#[trigger] release_steps(a, i)[p]) is ReleaseLink,
        forall|k: int|
            i <= k < a.len() && active_link(#[trigger] a[k]) ==> exists|p: int|
                0 <= p < release_steps(a, i).len() && #[trigger] release_steps(a, i)[p]
                    == TeardownStep::ReleaseLink(k as usize),
    decreases a.len() - i,
{
    if i < a.len() {
        lemma_release_steps_shape(a, i + 1);
        let rest = release_steps(a, i + 1);
        if active_link(a[i]) {
            let s = rest.push(TeardownStep::ReleaseLink(i as usize));
            assert(s == release_steps(a, i));
            assert(s[rest.len() as int] == TeardownStep::ReleaseLink(i as usize));
            assert forall|k: int| i <= k < a.len() && active_link(#[trigger] a[k]) implies exists|p: int|
                0 <= p < s.len() && #[trigger] s[p] == TeardownStep::ReleaseLink(k as usize) by {
                if k > i {
                    let p = choose|p: int|
                        0 <= p < rest.len() && #[trigger] rest[p] == TeardownStep::ReleaseLink(
                            k as usize,
                        );
                    assert(s[p] == rest[p]);
                }
            }
        } else {
            assert forall|k: int| i <= k < a.len() && active_link(#[trigger] a[k]) implies exists|p: int|
                0 <= p < rest.len() && #[trigger] rest[p] == TeardownStep::ReleaseLink(k as usize) by {
                assert(k != i);
            }
        }
    }
}

} // verus!
