use cgroup_attach::error::{classify_attach_errno, classify_errno, ControlError};
use cgroup_attach::ledger::{continue_after_delete, Controller};
use cgroup_attach::model::{
    AttachState, AttachType, Attachment, DeletePolicy, DirectRequest, Mechanism, TeardownStep,
};
use cgroup_attach::path::{canonical, check_descendant, check_path, kernel_path, same_bytes};

fn p(s: &str) -> Vec<u8> {
    s.as_bytes().to_vec()
}

fn loaded(names: &[&str]) -> Controller {
    let mut c = Controller::new();
    c.load_object(names.iter().map(|n| p(n)).collect()).unwrap();
    c
}

#[test]
fn errno_classification() {
    assert_eq!(classify_errno(2), ControlError::NotFound);
    assert_eq!(classify_errno(17), ControlError::AlreadyExists);
    assert_eq!(classify_errno(1), ControlError::PermissionDenied);
    assert_eq!(classify_errno(13), ControlError::PermissionDenied);
    assert_eq!(classify_errno(16), ControlError::IoFailure(16));
}

#[test]
fn path_validity() {
    assert!(check_path(&p("/root/a")));
    assert!(check_path(&p("/a")));
    assert!(check_path(&p("/")));
    assert!(check_path(&p("/root/a/")));
    assert!(!check_path(&p("")));
    assert!(!check_path(&p("root/a")));
    assert!(!check_path(&vec![b'/', b'a', 0, b'b']));
}

#[test]
fn trailing_separators_trimmed() {
    assert_eq!(canonical(&p("/root/a/")), p("/root/a"));
    assert_eq!(canonical(&p("/root/a//")), p("/root/a"));
    assert_eq!(canonical(&p("/root/a")), p("/root/a"));
    assert_eq!(canonical(&p("/")), p("/"));
    assert_eq!(canonical(&p("//")), p("/"));
}

#[test]
fn create_with_trailing_separator() {
    let mut c = Controller::new();
    assert_eq!(c.check_create(&p("/root/a/")), Ok(b"/root/a\0".to_vec()));
    assert_eq!(c.create(&p("/root/x/a/"), 2), Err(ControlError::NotFound));
    assert_eq!(c.create(&p("/root/a/"), 13), Err(ControlError::PermissionDenied));
    let id = c.create(&p("/root/a/"), 0).unwrap();
    assert_eq!(c.node_path(id), Some(p("/root/a")));
    assert_eq!(c.create(&p("/root/a"), 0), Err(ControlError::AlreadyExists));
    assert_eq!(c.create(&p("/root/a//"), 0), Err(ControlError::AlreadyExists));
}

#[test]
fn create_root_already_exists() {
    let mut c = Controller::new();
    assert_eq!(c.check_create(&p("/")), Err(ControlError::AlreadyExists));
    assert_eq!(c.create(&p("/"), 0), Err(ControlError::AlreadyExists));
    assert_eq!(c.create(&p("//"), 0), Err(ControlError::AlreadyExists));
}

#[test]
fn open_reports_removed_directory() {
    let mut c = Controller::new();
    let id = c.create(&p("/root/a"), 0).unwrap();
    assert_eq!(c.open(id, 0), Ok(()));
    assert_eq!(c.open(id, 2), Err(ControlError::NotFound));
    assert_eq!(c.open(id, 13), Err(ControlError::PermissionDenied));
    assert_eq!(c.open(4, 0), Err(ControlError::NotFound));
    c.delete(id, 0).unwrap();
    assert_eq!(c.open(id, 0), Err(ControlError::NotFound));
}

#[test]
fn raw_attach_errno_classification() {
    assert_eq!(classify_attach_errno(17), ControlError::Conflict);
    assert_eq!(classify_attach_errno(2), ControlError::NotFound);
    assert_eq!(classify_attach_errno(22), ControlError::IoFailure(22));
}

#[test]
fn path_nesting() {
    assert!(check_descendant(&p("/root/a/child"), &p("/root/a")));
    assert!(check_descendant(&p("/root/a/b/c"), &p("/root/a")));
    assert!(!check_descendant(&p("/root/ab"), &p("/root/a")));
    assert!(!check_descendant(&p("/root/a"), &p("/root/a")));
    assert!(!check_descendant(&p("/root"), &p("/root/a")));
    assert!(same_bytes(&p("/x"), &p("/x")));
    assert!(!same_bytes(&p("/x"), &p("/y")));
}

#[test]
fn kernel_path_is_nul_terminated() {
    assert_eq!(kernel_path(&p("/root/a")), Ok(b"/root/a\0".to_vec()));
    assert_eq!(kernel_path(&p("/root/a\0b")), Err(ControlError::InvalidPath));
}

#[test]
fn create_then_delete_leaves_no_node() {
    let mut c = Controller::new();
    assert_eq!(c.check_create(&p("/root/a")), Ok(b"/root/a\0".to_vec()));
    let id = c.create(&p("/root/a"), 0).unwrap();
    assert_eq!(id, 0);
    assert!(c.is_live(id));
    assert_eq!(c.check_delete(id), Ok(b"/root/a\0".to_vec()));
    assert_eq!(c.delete(id, 0), Ok(()));
    assert!(!c.is_live(id));
    assert_eq!(c.check_open(id), Err(ControlError::NotFound));
    // the path is free again
    assert_eq!(c.create(&p("/root/a"), 0), Ok(1));
}

#[test]
fn create_twice_already_exists() {
    let mut c = Controller::new();
    c.create(&p("/root/a"), 0).unwrap();
    assert_eq!(c.check_create(&p("/root/a")), Err(ControlError::AlreadyExists));
    assert_eq!(c.create(&p("/root/a"), 0), Err(ControlError::AlreadyExists));
    assert_eq!(c.create(&p("/root/a"), 17), Err(ControlError::AlreadyExists));
    assert_eq!(c.node_count(), 1);
}

#[test]
fn create_errors_from_status() {
    let mut c = Controller::new();
    assert_eq!(c.create(&p("/root/x/y"), 2), Err(ControlError::NotFound));
    assert_eq!(c.create(&p("/root/a"), 13), Err(ControlError::PermissionDenied));
    assert_eq!(c.create(&p("/root/a"), 17), Err(ControlError::AlreadyExists));
    assert_eq!(c.create(&p("/root/a"), 5), Err(ControlError::IoFailure(5)));
    assert_eq!(c.create(&p("relative"), 0), Err(ControlError::InvalidPath));
    assert_eq!(c.node_count(), 0);
}

#[test]
fn create_above_existing_child_already_exists() {
    let mut c = Controller::new();
    c.create(&p("/root/a"), 0).unwrap();
    c.create(&p("/root/a/child"), 0).unwrap();
    // a path that has a live node below it exists already
    c.delete(0, 0).unwrap_err();
    assert_eq!(c.check_create(&p("/root/a")), Err(ControlError::AlreadyExists));
}

#[test]
fn delete_failure_keeps_node() {
    let mut c = Controller::new();
    let id = c.create(&p("/root/a"), 0).unwrap();
    assert_eq!(c.delete(id, 16), Err(ControlError::IoFailure(16)));
    assert!(c.is_live(id));
    assert_eq!(c.delete(7, 0), Err(ControlError::NotFound));
}

#[test]
fn parent_delete_refused_while_child_lives() {
    let mut c = Controller::new();
    let a = c.create(&p("/root/a"), 0).unwrap();
    let child = c.create(&p("/root/a/child"), 0).unwrap();
    assert_eq!(c.check_delete(a), Err(ControlError::Conflict));
    assert_eq!(c.delete(a, 0), Err(ControlError::Conflict));
    assert!(c.is_live(a));
    assert!(c.is_live(child));
    assert_eq!(c.delete(child, 0), Ok(()));
    assert_eq!(c.delete(a, 0), Ok(()));
}

#[test]
fn load_object_once() {
    let mut c = Controller::new();
    assert!(!c.is_loaded());
    assert_eq!(c.load_object(vec![p("p1"), p("p2")]), Ok(()));
    assert!(c.is_loaded());
    assert_eq!(c.load_object(vec![p("p3")]), Err(ControlError::Conflict));
    assert_eq!(c.program(&p("p2")), Ok(1));
    assert_eq!(c.program(&p("p1")), Ok(0));
    assert_eq!(c.program(&p("p3")), Err(ControlError::NotFound));
}

#[test]
fn attach_requires_program_and_live_node() {
    let mut c = loaded(&["p1"]);
    let a = c.create(&p("/root/a"), 0).unwrap();
    assert_eq!(c.check_attach(1, a), Err(ControlError::NotFound));
    assert_eq!(c.check_attach(0, 5), Err(ControlError::NotFound));
    assert_eq!(c.attach_linked(0, 5, 0), Err(ControlError::NotFound));
    assert_eq!(c.attach_linked(0, a, 1), Err(ControlError::PermissionDenied));
    assert_eq!(c.attachment_count(), 0);
}

#[test]
fn repeated_links_are_independent() {
    let mut c = loaded(&["p1"]);
    let a = c.create(&p("/root/a"), 0).unwrap();
    let l1 = c.attach_linked(0, a, 0).unwrap();
    let l2 = c.attach_linked(0, a, 0).unwrap();
    let l3 = c.attach_linked(0, a, 0).unwrap();
    assert_eq!((l1, l2, l3), (0, 1, 2));
    assert_eq!(c.detach(l2), Ok(()));
    let active = Attachment { program: 0, node: a, mechanism: Mechanism::LinkScoped, state: AttachState::Active };
    assert_eq!(c.attachment(l1), Some(active));
    assert_eq!(c.attachment(l3), Some(active));
    assert_eq!(c.attachment(l2), Some(Attachment { state: AttachState::Released, ..active }));
    // releasing again changes nothing
    assert_eq!(c.detach(l2), Ok(()));
    assert_eq!(c.detach(9), Err(ControlError::NotFound));
}

#[test]
fn node_with_active_link_can_be_deleted() {
    let mut c = loaded(&["p1"]);
    let a = c.create(&p("/root/a"), 0).unwrap();
    let l = c.attach_linked(0, a, 0).unwrap();
    assert_eq!(c.check_delete(a), Ok(b"/root/a\0".to_vec()));
    assert_eq!(c.delete(a, 0), Ok(()));
    assert!(!c.is_live(a));
    assert_eq!(c.attachment(l).unwrap().state, AttachState::Active);
    assert_eq!(c.teardown_plan(), vec![TeardownStep::ReleaseLink(l)]);
    assert_eq!(c.detach(l), Ok(()));
}

#[test]
fn direct_attach_kernel_eexist_is_conflict() {
    let mut c = loaded(&["p1"]);
    let a = c.create(&p("/root/a"), 0).unwrap();
    assert_eq!(c.attach_direct(0, a, AttachType::CgroupDevice, 17), Err(ControlError::Conflict));
    assert_eq!(c.attachment_count(), 0);
}

#[test]
fn identical_direct_attach_conflicts() {
    let mut c = loaded(&["p1"]);
    let a = c.create(&p("/root/a"), 0).unwrap();
    let b = c.create(&p("/root/b"), 0).unwrap();
    assert_eq!(
        c.check_attach_direct(0, a, AttachType::CgroupDevice, true),
        Ok(DirectRequest { program: 0, node: a, attach_type: AttachType::CgroupDevice, flags: 2 })
    );
    assert_eq!(
        c.check_attach_direct(0, a, AttachType::CgroupDevice, false),
        Ok(DirectRequest { program: 0, node: a, attach_type: AttachType::CgroupDevice, flags: 0 })
    );
    assert_eq!(c.attach_direct(0, a, AttachType::CgroupDevice, 0), Ok(0));
    assert_eq!(c.check_attach_direct(0, a, AttachType::CgroupDevice, true), Err(ControlError::Conflict));
    assert_eq!(c.check_attach_direct(0, a, AttachType::CgroupDevice, false), Err(ControlError::Conflict));
    assert_eq!(c.attach_direct(0, a, AttachType::CgroupDevice, 0), Err(ControlError::Conflict));
    assert_eq!(c.attach_direct(0, b, AttachType::CgroupDevice, 0), Ok(1));
}

#[test]
fn direct_detach_then_reattach() {
    let mut c = loaded(&["p1"]);
    let a = c.create(&p("/root/a"), 0).unwrap();
    assert_eq!(c.detach_direct(0, a, 0), Err(ControlError::NotFound));
    c.attach_direct(0, a, AttachType::CgroupDevice, 0).unwrap();
    assert_eq!(c.detach_direct(0, a, 13), Err(ControlError::PermissionDenied));
    assert_eq!(c.detach_direct(0, a, 0), Ok(0));
    assert_eq!(c.attachment(0).unwrap().state, AttachState::Released);
    assert_eq!(c.attach_direct(0, a, AttachType::CgroupDevice, 0), Ok(1));
    // a direct attachment is not a link
    assert_eq!(c.detach(1), Err(ControlError::NotFound));
}

#[test]
fn scenario_linked_then_shutdown() {
    let mut c = Controller::new();
    let a = c.create(&p("/root/a"), 0).unwrap();
    c.load_object(vec![p("p1")]).unwrap();
    let prog = c.program(&p("p1")).unwrap();
    let link = c.attach_linked(prog, a, 0).unwrap();
    let running = false;
    assert!(!running);
    let plan = c.teardown_plan();
    assert_eq!(plan, vec![TeardownStep::ReleaseLink(link), TeardownStep::DeleteNode(a)]);
    for step in plan {
        match step {
            TeardownStep::ReleaseLink(k) => c.detach(k).unwrap(),
            TeardownStep::DeleteNode(n) => c.delete(n, 0).unwrap(),
        }
    }
    assert_eq!(c.attachment(link).unwrap().state, AttachState::Released);
    assert!(!c.is_live(a));
    assert_eq!(c.teardown_plan(), vec![]);
}

#[test]
fn scenario_direct_and_linked_on_nested_nodes() {
    let mut c = loaded(&["p1"]);
    let a = c.create(&p("/root/a"), 0).unwrap();
    let child = c.create(&p("/root/a/child"), 0).unwrap();
    let d = c.attach_direct(0, a, AttachType::CgroupDevice, 0).unwrap();
    let l = c.attach_linked(0, child, 0).unwrap();
    assert_ne!(d, l);
    assert_eq!(c.attachment(d).unwrap().mechanism, Mechanism::PersistentDirect);
    assert_eq!(c.attachment(l).unwrap().mechanism, Mechanism::LinkScoped);
    assert_eq!(
        c.teardown_plan(),
        vec![TeardownStep::ReleaseLink(l), TeardownStep::DeleteNode(child), TeardownStep::DeleteNode(a)]
    );
    // parent first is refused
    assert_eq!(c.delete(a, 0), Err(ControlError::Conflict));
    assert!(c.is_live(a));
    // the child goes first, its link still active
    assert_eq!(c.delete(child, 0), Ok(()));
    assert_eq!(c.delete(a, 0), Ok(()));
    assert_eq!(c.attachment(l).unwrap().state, AttachState::Active);
    c.detach(l).unwrap();
    // the direct attachment is left in place
    assert_eq!(c.attachment(d).unwrap().state, AttachState::Active);
}

#[test]
fn scenario_security_hook_failure_is_possible_leak() {
    let mut c = loaded(&["file_open_lsm"]);
    let a = c.create(&p("/root/a"), 0).unwrap();
    assert_eq!(c.attach_direct(0, a, AttachType::LsmMac, 22), Err(ControlError::PossibleLeak));
    assert_eq!(c.attachment(0).unwrap().state, AttachState::PossibleLeak);
    assert_eq!(c.attach_direct(0, a, AttachType::CgroupDevice, 22), Err(ControlError::IoFailure(22)));
    assert_eq!(c.attachment_count(), 1);
    assert!(AttachType::LsmCgroup.is_security_hook());
    assert!(!AttachType::CgroupDevice.is_security_hook());
}

#[test]
fn node_path_and_open() {
    let mut c = Controller::new();
    let a = c.create(&p("/root/a"), 0).unwrap();
    assert_eq!(c.node_path(a), Some(p("/root/a")));
    assert_eq!(c.node_path(3), None);
    assert_eq!(c.check_open(a), Ok(b"/root/a\0".to_vec()));
}

#[test]
fn delete_policy() {
    assert!(continue_after_delete(DeletePolicy::Strict, &Ok(())));
    assert!(!continue_after_delete(DeletePolicy::Strict, &Err(ControlError::IoFailure(16))));
    assert!(continue_after_delete(DeletePolicy::BestEffort, &Err(ControlError::IoFailure(16))));
}
