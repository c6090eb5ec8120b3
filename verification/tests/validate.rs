use balancer::validate::{
    is_valid_ipv4, is_valid_octet, lb_config_verdict, server_config_verdict, split_str,
};

#[test]
fn plain_octets_are_accepted() {
    assert!(is_valid_octet("0"));
    assert!(is_valid_octet("7"));
    assert!(is_valid_octet("255"));
}

#[test]
fn octets_above_255_are_rejected() {
    assert!(!is_valid_octet("256"));
    assert!(!is_valid_octet("999"));
    assert!(!is_valid_octet("99999999999999999999"));
}

#[test]
fn octet_accepts_leading_zeros_and_plus_sign() {
    // the same numerals the wizard's numeric parser accepts
    assert!(is_valid_octet("007"));
    assert!(is_valid_octet("+13"));
    assert!(is_valid_octet("0000000000255"));
}

#[test]
fn octet_rejects_non_digits_and_empty_runs() {
    assert!(!is_valid_octet(""));
    assert!(!is_valid_octet("+"));
    assert!(!is_valid_octet("12a"));
    assert!(!is_valid_octet("-1"));
    assert!(!is_valid_octet("1 "));
    assert!(!is_valid_octet("1+2"));
}

#[test]
fn well_formed_addresses_pass() {
    assert!(is_valid_ipv4("192.168.0.1"));
    assert!(is_valid_ipv4("0.0.0.0"));
    assert!(is_valid_ipv4("255.255.255.255"));
    assert!(is_valid_ipv4("01.2.3.4"));
}

#[test]
fn malformed_addresses_fail() {
    assert!(!is_valid_ipv4(""));
    assert!(!is_valid_ipv4("1.2.3"));
    assert!(!is_valid_ipv4("1.2.3.4.5"));
    assert!(!is_valid_ipv4("256.1.1.1"));
    assert!(!is_valid_ipv4("1..2.3"));
    assert!(!is_valid_ipv4("a.b.c.d"));
    assert!(!is_valid_ipv4("1.2.3.4 "));
}

#[test]
fn split_keeps_empty_runs() {
    assert_eq!(split_str("a.b.c", '.'), vec!["a", "b", "c"]);
    assert_eq!(split_str("..", '.'), vec!["", "", ""]);
    assert_eq!(split_str("", '.'), vec![""]);
    assert_eq!(split_str("abc", '.'), vec!["abc"]);
    assert_eq!(split_str(".x", '.'), vec!["", "x"]);
    assert_eq!(split_str("x.", '.'), vec!["x", ""]);
}

#[test]
fn lb_verdict_requires_every_node_live() {
    assert!(lb_config_verdict(&vec![true, true, true]));
    assert!(!lb_config_verdict(&vec![true, false, true]));
    assert!(lb_config_verdict(&Vec::new()));
}

#[test]
fn server_verdict_ignores_the_agents_own_liveness() {
    assert!(server_config_verdict(false, &vec![true, true]));
    assert!(!server_config_verdict(true, &vec![true, false]));
}
