use crow_core::checks::{hex_lower, FileCheckError, FileChecks, FileInfo};
use crow_core::logger::{build_log_path, init_log_handler};
use crow_core::sandbox::{LifecycleState, SandboxHandle, VirtualMachine};

fn info(path: &str) -> FileInfo {
    FileInfo {
        path: String::from(path),
    }
}

#[test]
fn hex_encodes_two_lowercase_digits_per_byte() {
    assert_eq!(hex_lower(&[]), "");
    assert_eq!(hex_lower(&[0xbe, 0xef]), "beef");
    assert_eq!(hex_lower(&[0x00, 0x0a, 0xff]), "000aff");
}

#[test]
fn hash_of_empty_input() {
    let hash = info("any").check_hash(&[]);
    assert_eq!(
        hash,
        "e3b0c44298fc1c149afbf4c8996fb92427ae41e4649b934ca495991b7852b855"
    );
}

#[test]
fn hash_of_known_bytes() {
    let hash = info("any").check_hash(b"abc");
    assert_eq!(
        hash,
        "ba7816bf8f01cfea414140de5dae2223b00361a396177a9cb410ff61f20015ad"
    );
}

#[test]
fn size_is_content_length() {
    assert_eq!(info("any").check_size(&[]), 0);
    assert_eq!(info("any").check_size(&[1, 2, 3, 4, 5]), 5);
}

#[test]
fn valid_names_are_accepted() {
    assert!(info("uploads/sample.bin").check_name().is_ok());
    assert!(info("/usr/bin/ls").check_name().is_ok());
    assert!(info("plain").check_name().is_ok());
    assert!(info("a/b/c.txt").check_name().is_ok());
}

#[test]
fn invalid_names_are_rejected() {
    assert_eq!(info("").check_name(), Err(FileCheckError::NoFileName));
    assert_eq!(info("dir/").check_name(), Err(FileCheckError::NoFileName));
    assert_eq!(info("/").check_name(), Err(FileCheckError::NoFileName));
    assert_eq!(info(".").check_name(), Err(FileCheckError::NoFileName));
    assert_eq!(info("..").check_name(), Err(FileCheckError::NoFileName));
    assert_eq!(info("a/..").check_name(), Err(FileCheckError::NoFileName));
}

#[test]
fn mime_type_follows_the_extension() {
    assert_eq!(info("notes.txt").check_type(), "text/plain");
    assert_eq!(info("page.html").check_type(), "text/html");
    assert_eq!(
        info("sample.withoutanytype").check_type(),
        "application/octet-stream"
    );
}

#[test]
fn log_paths_are_joined_under_the_log_directory() {
    assert_eq!(build_log_path("logs", "manager.log"), "logs/manager.log");
    assert_eq!(init_log_handler("daemon.log"), "logs/daemon.log");
}

#[test]
fn model_vm_transitions() {
    let mut vm = SandboxHandle::new(String::from("c-2"));
    assert!(vm.start().is_ok());
    assert_eq!(vm.lifecycle_state, LifecycleState::Running);
    assert!(vm.stop().is_ok());
    assert_eq!(vm.lifecycle_state, LifecycleState::Stopped);
    assert!(vm.restart().is_ok());
    assert_eq!(vm.lifecycle_state, LifecycleState::Running);
    vm.mark_destroyed();
    assert!(vm.start().is_err());
}
