use sharedobject::host::{addresses_from, cpu_description, storage_identifiers};
use sharedobject::identity::{HostObservables, MetaData};
use sharedobject::text::{decimal_string, hex_string, join_strings};
use sharedobject::Error;

fn observables(username: &str) -> HostObservables {
    HostObservables {
        username: username.to_string(),
        mac_addresses: vec!["AA:BB:CC:DD:EE:FF".to_string()],
        machine_id: Some("mid".to_string()),
        disk_serials: vec!["sda".to_string(), "sdb".to_string()],
        cpu_info: "cpu".to_string(),
        motherboard_serial: None,
    }
}

#[test]
fn decimal_notation() {
    assert_eq!(decimal_string(0), "0");
    assert_eq!(decimal_string(7), "7");
    assert_eq!(decimal_string(10), "10");
    assert_eq!(decimal_string(255), "255");
    assert_eq!(decimal_string(u64::MAX), "18446744073709551615");
}

#[test]
fn hex_notation() {
    assert_eq!(hex_string(&vec![]), "");
    assert_eq!(hex_string(&vec![0x00, 0xab, 0xff, 0x10]), "00abff10");
}

#[test]
fn join_with_separator() {
    assert_eq!(join_strings(&vec![], "_"), "");
    assert_eq!(join_strings(&vec!["a".to_string()], "_"), "a");
    assert_eq!(join_strings(&vec!["a".to_string(), "bc".to_string(), "".to_string()], "_"), "a_bc_");
}

#[test]
fn combined_text_in_field_order() {
    let m = MetaData::from_observables(12, observables("alice"));
    assert_eq!(m.combined_text(), "12AA:BB:CC:DD:EE:FFmidsda_sdbcpu");
    let mut obs = observables("alice");
    obs.machine_id = None;
    obs.motherboard_serial = Some("SER".to_string());
    obs.mac_addresses = vec![];
    let m = MetaData::from_observables(1, obs);
    assert_eq!(m.combined_text(), "1sda_sdbcpuSER");
}

#[test]
fn digest_is_md5_hex_of_combined_text() {
    let m = MetaData::from_observables(12, observables("alice"));
    let expected = format!("{:x}", md5::compute("12AA:BB:CC:DD:EE:FFmidsda_sdbcpu"));
    assert_eq!(m.collective_hash, expected);
    assert_eq!(m.collective_hash.len(), 32);
    assert_eq!(m.generate_unique_hash(), expected);
}

#[test]
fn digest_of_version_only() {
    let obs = HostObservables {
        username: String::new(),
        mac_addresses: vec![],
        machine_id: None,
        disk_serials: vec![],
        cpu_info: String::new(),
        motherboard_serial: None,
    };
    let m = MetaData::from_observables(0, obs);
    assert_eq!(m.collective_hash, "cfcd208495d565ef66e7dff9f98764da");
}

#[test]
fn digest_ignores_username_but_equality_does_not() {
    let a = MetaData::from_observables(1, observables("alice"));
    let b = MetaData::from_observables(1, observables("bob"));
    assert_eq!(a.collective_hash, b.collective_hash);
    assert!(!a.matches_host(&b));
    assert!(a != b);
    assert!(MetaData::matches_digest(&b.collective_hash, &a));
}

#[test]
fn digest_depends_on_version_and_order() {
    let a = MetaData::from_observables(1, observables("alice"));
    let b = MetaData::from_observables(2, observables("alice"));
    assert_ne!(a.collective_hash, b.collective_hash);
    let mut obs = observables("alice");
    obs.disk_serials.reverse();
    let c = MetaData::from_observables(1, obs);
    assert_ne!(a.collective_hash, c.collective_hash);
}

#[test]
fn fresh_identity_matches_itself() {
    let a = MetaData::from_observables(3, observables("alice"));
    let b = MetaData::from_observables(3, observables("alice"));
    assert!(a.matches_host(&b));
    assert!(a == b);
    assert!(MetaData::matches_digest(&a.collective_hash, &b));
    assert!(!MetaData::matches_digest("0123", &b));
}

#[test]
fn storage_names_keep_present_non_empty_in_order() {
    let names = vec![
        Some("sdb".to_string()),
        None,
        Some(String::new()),
        Some("sda".to_string()),
        Some("sdb".to_string()),
    ];
    assert_eq!(storage_identifiers(names), vec!["sdb", "sda", "sdb"]);
    assert!(storage_identifiers(vec![]).is_empty());
}

#[test]
fn cpu_description_format() {
    let cpus = vec![
        ("Brand X".to_string(), "Vendor".to_string()),
        ("Other".to_string(), "Else".to_string()),
    ];
    assert_eq!(cpu_description(&cpus), "Brand X_Vendor_2cores");
    assert_eq!(cpu_description(&vec![]), "unknown_unknown_0cores");
}

#[test]
fn host_identity_matches_host() {
    let machine_id = Some("machine".to_string());
    let serial = None;
    match MetaData::new(4, &machine_id, &serial) {
        Ok(m) => {
            assert_eq!(m.version, 4);
            assert_eq!(m.machine_id, machine_id);
            assert_eq!(m.generate_unique_hash(), m.collective_hash);
            assert_eq!(MetaData::check(&m, &machine_id, &serial), Ok(true));
            assert_eq!(MetaData::check_hash(&m.collective_hash, 4, &machine_id, &serial), Ok(true));
            assert_eq!(MetaData::check(&m, &None, &serial), Ok(false));
        }
        Err(e) => assert_eq!(e, Error::HostQuery),
    }
}

#[test]
fn addresses_for_each_lookup_outcome() {
    assert_eq!(addresses_from(&Ok(Some("AA:BB:CC:DD:EE:FF".to_string()))), Ok(vec!["AA:BB:CC:DD:EE:FF".to_string()]));
    assert_eq!(addresses_from(&Ok(None)), Ok(vec![]));
    assert_eq!(addresses_from(&Err(mac_address::MacAddressError::InternalError)), Err(Error::HostQuery));
}

#[test]
fn digest_is_32_lowercase_hex_digits() {
    let m = MetaData::from_observables(9, observables("dave"));
    let h = m.generate_unique_hash();
    assert_eq!(h.len(), 32);
    assert!(h.chars().all(|c| c.is_ascii_digit() || ('a'..='f').contains(&c)));
}
