//! What is asked of the trust authority, and what is to be run.

use elevated_exec::flags::{
    Flags, ALL, DEFAULTS, DESTROY_RIGHTS, EXTEND_RIGHTS, INTERACTION_ALLOWED, PARTIAL_RIGHTS,
    PREAUTHORIZE,
};
use elevated_exec::request::{
    admin_right, starts_with_char, AuthorizationRequest, ExecutionRequest, RequestError,
};

#[test]
fn the_administrative_right_is_asked_for_alone() {
    let request = AuthorizationRequest::administrator();
    assert_eq!(request.right_names(), &vec!["system.privilege.admin".to_string()]);
    assert_eq!(admin_right(), "system.privilege.admin");
    assert_eq!(request.flags().bits(), 19);
}

#[test]
fn a_request_holds_the_one_right_it_was_built_for() {
    let request = AuthorizationRequest::for_right("system.hdd.smart").unwrap();
    assert_eq!(request.right_names(), &vec!["system.hdd.smart".to_string()]);
    assert_eq!(request.flags(), Flags::acquire_policy());
    let empty = AuthorizationRequest::for_right("").unwrap();
    assert_eq!(empty.right_names(), &vec![String::new()]);
}

#[test]
fn a_right_name_with_a_zero_byte_is_refused() {
    assert_eq!(
        AuthorizationRequest::for_right("system\0admin").err(),
        Some(RequestError::InvalidRightName)
    );
    assert_eq!(AuthorizationRequest::for_right("\0").err(), Some(RequestError::InvalidRightName));
    assert_eq!(
        AuthorizationRequest::for_right("system.privilege.admin\0").err(),
        Some(RequestError::InvalidRightName)
    );
}

#[test]
fn the_negotiation_policy_is_prompt_preauthorize_extend() {
    let policy = Flags::acquire_policy();
    assert_eq!(policy.bits(), INTERACTION_ALLOWED | PREAUTHORIZE | EXTEND_RIGHTS);
    assert_eq!(policy.bits(), 19);
    assert!(policy.contains(Flags::from_bits_truncate(INTERACTION_ALLOWED)));
    assert!(policy.contains(Flags::from_bits_truncate(PREAUTHORIZE)));
    assert!(policy.contains(Flags::from_bits_truncate(EXTEND_RIGHTS)));
    assert!(policy.contains(Flags::defaults()));
    assert!(!policy.contains(Flags::from_bits_truncate(PARTIAL_RIGHTS)));
    assert!(!policy.contains(Flags::from_bits_truncate(DESTROY_RIGHTS)));
}

#[test]
fn the_process_is_launched_with_no_option() {
    assert_eq!(Flags::spawn_policy().bits(), 0);
    assert_eq!(Flags::spawn_policy(), Flags::defaults());
    assert_eq!(Flags::defaults().bits(), DEFAULTS);
}

#[test]
fn flag_sets_unite_and_drop_unknown_bits() {
    let a = Flags::from_bits_truncate(INTERACTION_ALLOWED);
    let b = Flags::from_bits_truncate(DESTROY_RIGHTS);
    assert_eq!(a.union(b).bits(), 9);
    assert!(a.union(b).contains(a));
    assert!(a.union(b).contains(b));
    assert!(!a.contains(b));
    assert_eq!(Flags::from_bits_truncate(0xffff_ffff).bits(), 31);
    assert_eq!(Flags::from_bits_truncate(0xffff_ffff).bits(), ALL);
    assert_eq!(Flags::from_bits_truncate(32).bits(), 0);
    assert_eq!(Flags::from_bits_truncate(48).bits(), 16);
}

#[test]
fn an_execution_request_takes_an_absolute_path_and_keeps_the_arguments() {
    let request = ExecutionRequest::new(
        "/bin/ls".to_string(),
        vec!["-la".to_string(), "a b".to_string(), String::new()],
    )
    .unwrap();
    assert_eq!(request.executable(), "/bin/ls");
    assert_eq!(request.args(), &vec!["-la".to_string(), "a b".to_string(), String::new()]);
    assert!(ExecutionRequest::new("/".to_string(), Vec::new()).is_ok());
}

#[test]
fn an_execution_request_refuses_a_relative_path() {
    assert_eq!(
        ExecutionRequest::new("ls".to_string(), Vec::new()).err(),
        Some(RequestError::RelativePath)
    );
    assert_eq!(
        ExecutionRequest::new(String::new(), Vec::new()).err(),
        Some(RequestError::RelativePath)
    );
    assert_eq!(
        ExecutionRequest::new("\u{e9}/bin".to_string(), Vec::new()).err(),
        Some(RequestError::RelativePath)
    );
}

#[test]
fn the_first_character_is_compared() {
    assert!(starts_with_char("/bin", '/'));
    assert!(starts_with_char("-h", '-'));
    assert!(!starts_with_char("", '/'));
    assert!(!starts_with_char("a/", '/'));
    assert!(starts_with_char("\u{e9}t\u{e9}", '\u{e9}'));
}
