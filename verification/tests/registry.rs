use cert_registry::certificate::{Certificate, RegistryError};
use cert_registry::ident::cert_id;
use cert_registry::registry::Registry;

fn issue(reg: &mut Registry, name: &str, course: &str, date: &str, timestamp: u64) -> Certificate {
    reg.issue_certificate(
        name.to_string(),
        course.to_string(),
        date.to_string(),
        timestamp,
    )
}

#[test]
fn issue_returns_unrevoked_record() {
    let mut reg = Registry::new();
    let c = issue(&mut reg, "Alice", "Rust 101", "2024-01-01", 1000);
    assert_eq!(c.id, "CERT-1000");
    assert_eq!(c.name, "Alice");
    assert_eq!(c.course, "Rust 101");
    assert_eq!(c.date, "2024-01-01");
    assert!(!c.revoked);
}

#[test]
fn issue_then_get_returns_equal_record() {
    let mut reg = Registry::new();
    let c = issue(&mut reg, "Bob", "Formal Methods", "2024-06-30", 42);
    let got = reg.get_certificate(c.id.clone()).expect("just-issued id must be present");
    assert_eq!(got, c);
}

#[test]
fn lifecycle_issue_verify_revoke() {
    let mut reg = Registry::new();
    let issued = issue(&mut reg, "Alice", "Rust 101", "2024-01-01", 1000);
    assert_eq!(issued.id, "CERT-1000");
    assert!(!issued.revoked);

    assert!(reg.verify_certificate("CERT-1000".to_string()));

    let revoked = reg
        .revoke_certificate("CERT-1000".to_string())
        .expect("revoking a known id must succeed");
    assert_eq!(revoked.id, issued.id);
    assert_eq!(revoked.name, issued.name);
    assert_eq!(revoked.course, issued.course);
    assert_eq!(revoked.date, issued.date);
    assert!(revoked.revoked);

    assert!(!reg.verify_certificate("CERT-1000".to_string()));

    let err = reg.revoke_certificate("CERT-9999".to_string());
    assert!(matches!(err, Err(RegistryError::NotFound)));

    let all = reg.get_all_certificates();
    assert_eq!(all.len(), 1);
    assert_eq!(all[0].id, "CERT-1000");
    assert_eq!(all[0].name, "Alice");
    assert_eq!(all[0].course, "Rust 101");
    assert_eq!(all[0].date, "2024-01-01");
    assert!(all[0].revoked);
}

#[test]
fn verify_unknown_id_is_false() {
    let reg = Registry::new();
    assert!(!reg.verify_certificate("CERT-1".to_string()));
}

#[test]
fn verify_revoked_and_unknown_both_false() {
    let mut reg = Registry::new();
    issue(&mut reg, "Dana", "Logic", "2023-12-12", 7);
    reg.revoke_certificate("CERT-7".to_string()).expect("known id");
    assert!(!reg.verify_certificate("CERT-7".to_string()));
    assert!(!reg.verify_certificate("CERT-8".to_string()));
}

#[test]
fn revoke_unknown_fails_and_changes_nothing() {
    let mut reg = Registry::new();
    let c = issue(&mut reg, "Eve", "Crypto", "2022-02-02", 3);
    let err = reg.revoke_certificate("CERT-4".to_string());
    assert!(matches!(err, Err(RegistryError::NotFound)));
    let all = reg.get_all_certificates();
    assert_eq!(all.len(), 1);
    let got = reg.get_certificate("CERT-3".to_string()).expect("still present");
    assert_eq!(got, c);
    assert!(reg.verify_certificate("CERT-3".to_string()));
}

#[test]
fn not_found_message_text() {
    let e = RegistryError::NotFound;
    assert_eq!(e.message(), "Certificate not found");
}

#[test]
fn revoke_is_idempotent() {
    let mut reg = Registry::new();
    issue(&mut reg, "Frank", "Databases", "2021-11-11", 55);
    let first = reg.revoke_certificate("CERT-55".to_string()).expect("first revoke");
    assert!(first.revoked);
    let second = reg.revoke_certificate("CERT-55".to_string()).expect("second revoke");
    assert!(second.revoked);
    assert_eq!(second, first);
    assert_eq!(reg.get_all_certificates().len(), 1);
}

#[test]
fn list_length_matches_number_of_issues() {
    let mut reg = Registry::new();
    assert_eq!(reg.get_all_certificates().len(), 0);
    issue(&mut reg, "A", "C1", "2024-01-01", 1);
    issue(&mut reg, "B", "C2", "2024-01-02", 2);
    issue(&mut reg, "C", "C3", "2024-01-03", 3);
    let all = reg.get_all_certificates();
    assert_eq!(all.len(), 3);
    for id in ["CERT-1", "CERT-2", "CERT-3"] {
        assert!(all.iter().any(|c| c.id == id));
    }
}

#[test]
fn same_timestamp_overwrites_earlier_record() {
    let mut reg = Registry::new();
    issue(&mut reg, "First", "C1", "2024-01-01", 500);
    issue(&mut reg, "Second", "C2", "2024-01-02", 500);
    let all = reg.get_all_certificates();
    assert_eq!(all.len(), 1);
    let got = reg.get_certificate("CERT-500".to_string()).expect("present");
    assert_eq!(got.name, "Second");
    assert_eq!(got.course, "C2");
}

#[test]
fn empty_strings_are_accepted() {
    let mut reg = Registry::new();
    let c = issue(&mut reg, "", "", "", 9);
    assert_eq!(c.id, "CERT-9");
    assert_eq!(c.name, "");
    assert_eq!(c.course, "");
    assert_eq!(c.date, "");
    assert!(reg.verify_certificate("CERT-9".to_string()));
}

#[test]
fn get_unknown_is_none() {
    let reg = Registry::new();
    assert!(reg.get_certificate("CERT-0".to_string()).is_none());
}

#[test]
fn id_format_exact_values() {
    assert_eq!(cert_id(0), "CERT-0");
    assert_eq!(cert_id(7), "CERT-7");
    assert_eq!(cert_id(10), "CERT-10");
    assert_eq!(cert_id(1000), "CERT-1000");
    assert_eq!(cert_id(100200), "CERT-100200");
    assert_eq!(cert_id(u64::MAX), "CERT-18446744073709551615");
}
