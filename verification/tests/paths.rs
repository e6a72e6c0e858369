use nsdiag::paths::{named_netns_path, net_target_path, ns_path, u32_to_decimal, NamespaceKind,
    TargetError};

#[test]
fn decimal_of_small_numbers() {
    assert_eq!(u32_to_decimal(0), "0");
    assert_eq!(u32_to_decimal(7), "7");
    assert_eq!(u32_to_decimal(10), "10");
    assert_eq!(u32_to_decimal(42), "42");
}

#[test]
fn decimal_of_large_numbers() {
    assert_eq!(u32_to_decimal(65536), "65536");
    assert_eq!(u32_to_decimal(4294967295), "4294967295");
}

#[test]
fn mount_namespace_path() {
    assert_eq!(ns_path(NamespaceKind::Mount, 1234), "/proc/1234/ns/mnt");
}

#[test]
fn network_namespace_path() {
    assert_eq!(ns_path(NamespaceKind::Network, 1), "/proc/1/ns/net");
}

#[test]
fn named_namespace_path() {
    assert_eq!(named_netns_path("blue"), "/var/run/netns/blue");
    assert_eq!(named_netns_path(""), "/var/run/netns/");
}

#[test]
fn neither_name_nor_pid_is_rejected() {
    let r = net_target_path(&None, None);
    assert_eq!(r, Err(TargetError::Missing));
    assert_eq!(
        r.unwrap_err().message(),
        "either a namespace name or a PID must be provided"
    );
}

#[test]
fn pid_target_resolves_to_proc_path() {
    let r = net_target_path(&None, Some(567));
    assert_eq!(r.unwrap(), "/proc/567/ns/net");
}

#[test]
fn name_target_resolves_to_registry_path() {
    let r = net_target_path(&Some(String::from("blue")), None);
    assert_eq!(r.unwrap(), "/var/run/netns/blue");
}

#[test]
fn pid_takes_precedence_over_name() {
    let r = net_target_path(&Some(String::from("blue")), Some(89));
    assert_eq!(r.unwrap(), "/proc/89/ns/net");
}
