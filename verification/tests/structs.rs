use procsched::structs::{Program, Status, Thread};

#[test]
fn thread_new_kernel_has_entry_and_no_identifier() {
    let thread = Thread::new_kernel(0x8020_0000);
    assert_eq!(thread.tid(), None);
    assert_eq!(thread.host(), None);
    assert!(!thread.is_user());
    assert_eq!(thread.arguments(), [0, 0, 0]);
    assert!(matches!(thread.program(), Program::Kernel { entry: 0x8020_0000 }));
}

#[test]
fn thread_new_user_keeps_image_and_host() {
    let thread = Thread::new_user(vec![0x7f, b'E', b'L', b'F'], Some(3));
    assert_eq!(thread.tid(), None);
    assert_eq!(thread.host(), Some(3));
    assert!(thread.is_user());
    match thread.program() {
        Program::User { image } => assert_eq!(image, &vec![0x7f, b'E', b'L', b'F']),
        Program::Kernel { .. } => panic!("a user thread runs a user program"),
    }
}

#[test]
fn thread_new_user_without_host() {
    let thread = Thread::new_user(Vec::new(), None);
    assert_eq!(thread.host(), None);
    assert!(thread.is_user());
}

#[test]
fn thread_append_initial_arguments_replaces_all_three() {
    let mut thread = Thread::new_kernel(1);
    thread.append_initial_arguments([10, 20, 30]);
    assert_eq!(thread.arguments(), [10, 20, 30]);
    assert_eq!(thread.tid(), None);
    assert!(!thread.is_user());
}

#[test]
fn status_values_compare() {
    assert_eq!(Status::Exited(3), Status::Exited(3));
    assert_ne!(Status::Exited(3), Status::Exited(4));
    assert_ne!(Status::Ready, Status::Running);
    assert_ne!(Status::Sleeping, Status::Ready);
}
