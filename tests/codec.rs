use std::io::{Cursor, Read};

use flate2::read::GzDecoder;
use flate2::write::GzEncoder;
use flate2::Compression;
use sharedobject::codec::{decode, encode, magic_bytes, Bundle, Dismantle, Validation, HEADER_LEN};
use sharedobject::identity::{HostObservables, MetaData};
use sharedobject::Error;

fn identity(version: u8) -> MetaData {
    MetaData::from_observables(
        version,
        HostObservables {
            username: "carol".to_string(),
            mac_addresses: vec!["01:02:03:04:05:06".to_string()],
            machine_id: None,
            disk_serials: vec!["nvme0n1".to_string()],
            cpu_info: "Chip_Maker_8cores".to_string(),
            motherboard_serial: Some("MB-1".to_string()),
        },
    )
}

fn archive(files: &[(&str, &str)]) -> Vec<u8> {
    let encoder = GzEncoder::new(Vec::new(), Compression::best());
    let mut builder = tar::Builder::new(encoder);
    for (path, contents) in files {
        let mut header = tar::Header::new_gnu();
        header.set_size(contents.len() as u64);
        header.set_mode(0o644);
        builder.append_data(&mut header, path, contents.as_bytes()).unwrap();
    }
    builder.into_inner().unwrap().finish().unwrap()
}

fn unpack(payload: &[u8]) -> Vec<(String, String)> {
    let mut archive = tar::Archive::new(GzDecoder::new(Cursor::new(payload.to_vec())));
    let mut out = Vec::new();
    for entry in archive.entries().unwrap() {
        let mut entry = entry.unwrap();
        let path = entry.path().unwrap().to_string_lossy().into_owned();
        let mut contents = String::new();
        entry.read_to_string(&mut contents).unwrap();
        out.push((path, contents));
    }
    out
}

#[test]
fn two_file_directory_round_trip() {
    let payload = archive(&[("a.txt", "hello"), ("b/c.txt", "world")]);
    let bundle = Bundle::new(identity(1));
    let container = bundle.create(&payload, 1).unwrap();
    assert_eq!(&container[..11], b"CODENAME-NT");
    assert_eq!(container[11], 1);
    let unpacked = Dismantle::new(&container).unwrap();
    assert_eq!(unpacked.get(), payload);
    assert!(unpacked.metadata == identity(1));
    assert_eq!(unpacked.get_meta(), identity(1).collective_hash);
    let files = unpack(&unpacked.get());
    assert_eq!(
        files,
        vec![
            ("a.txt".to_string(), "hello".to_string()),
            ("b/c.txt".to_string(), "world".to_string()),
        ]
    );
}

#[test]
fn frame_layout() {
    let payload = vec![9u8, 8, 7];
    let container = encode(&identity(5), &payload, 5).unwrap();
    assert_eq!(magic_bytes(), b"CODENAME-NT".to_vec());
    assert_eq!(&container[..11], b"CODENAME-NT");
    assert_eq!(container[11], 5);
    let declared = u64::from_le_bytes(container[12..20].try_into().unwrap());
    assert_eq!(declared as usize, container.len() - HEADER_LEN);
    assert_eq!(HEADER_LEN, 20);
}

#[test]
fn body_is_bincode_of_identity_then_payload() {
    let m = identity(2);
    let payload = vec![1u8, 2, 3, 4];
    let container = encode(&m, &payload, 2).unwrap();
    let expected = bincode::serialize(&(
        (
            m.version,
            &m.username,
            &m.mac_addresses,
            &m.machine_id,
            &m.disk_serials,
            &m.cpu_info,
            &m.motherboard_serial,
            &m.collective_hash,
        ),
        &payload,
    ))
    .unwrap();
    assert_eq!(&container[20..], &expected[..]);
}

#[test]
fn decode_round_trip() {
    let payload: Vec<u8> = (0..=255).collect();
    let container = encode(&identity(7), &payload, 7).unwrap();
    let (m, p) = decode(&container).unwrap();
    assert!(m == identity(7));
    assert_eq!(p, payload);
}

#[test]
fn empty_payload_round_trip() {
    let container = encode(&identity(0), &vec![], 0).unwrap();
    let (m, p) = decode(&container).unwrap();
    assert!(m == identity(0));
    assert!(p.is_empty());
}

#[test]
fn short_buffers_are_truncated() {
    for n in 0..HEADER_LEN {
        let buffer = vec![0u8; n];
        assert_eq!(decode(&buffer).err(), Some(Error::TruncatedContainer));
    }
    let container = encode(&identity(1), &vec![1, 2], 1).unwrap();
    assert_eq!(decode(&container[..19]).err(), Some(Error::TruncatedContainer));
}

#[test]
fn foreign_magic_is_unrecognized() {
    let mut container = encode(&identity(1), &vec![1, 2], 1).unwrap();
    container[0] = b'X';
    assert_eq!(decode(&container).err(), Some(Error::UnrecognizedFormat));
    let zeros = vec![0u8; 64];
    assert_eq!(decode(&zeros).err(), Some(Error::UnrecognizedFormat));
}

#[test]
fn version_mismatch_is_refused() {
    let container = encode(&identity(2), &vec![1, 2], 1).unwrap();
    assert_eq!(container[11], 1);
    assert_eq!(decode(&container).err(), Some(Error::VersionMismatch));
    let bundle = Bundle::new(identity(1));
    let container = bundle.create(&vec![3], 9).unwrap();
    assert_eq!(Dismantle::new(&container).err(), Some(Error::VersionMismatch));
}

#[test]
fn declared_length_past_the_end_is_truncated() {
    let container = encode(&identity(1), &vec![1, 2, 3], 1).unwrap();
    assert_eq!(decode(&container[..container.len() - 1]).err(), Some(Error::TruncatedContainer));
    let mut header = magic_bytes();
    header.push(1);
    header.extend_from_slice(&u64::MAX.to_le_bytes());
    assert_eq!(decode(&header).err(), Some(Error::TruncatedContainer));
}

#[test]
fn garbage_body_is_a_serialization_error() {
    let mut buffer = magic_bytes();
    buffer.push(1);
    buffer.extend_from_slice(&3u64.to_le_bytes());
    buffer.extend_from_slice(&[1, 2, 3]);
    assert_eq!(decode(&buffer).err(), Some(Error::Serialization));
}

#[test]
fn trailing_bytes_are_not_part_of_the_container() {
    let mut container = encode(&identity(3), &vec![5, 6], 3).unwrap();
    container.extend_from_slice(&[0xde, 0xad]);
    let (m, p) = decode(&container).unwrap();
    assert!(m == identity(3));
    assert_eq!(p, vec![5, 6]);
}

#[test]
fn decode_twice_gives_equal_results() {
    let container = encode(&identity(4), &vec![1, 1, 2, 3, 5], 4).unwrap();
    let (m1, p1) = decode(&container).unwrap();
    let (m2, p2) = decode(&container).unwrap();
    assert!(m1 == m2);
    assert_eq!(p1, p2);
    let broken = &container[..5];
    assert_eq!(decode(broken).err(), decode(broken).err());
}

#[test]
fn validate_against_identity() {
    let container = encode(&identity(1), &vec![1], 1).unwrap();
    assert_eq!(Validation::validate_against(&container, &identity(1)), Ok(true));
    assert_eq!(Validation::validate_against(&container, &identity(2)), Ok(false));
    assert_eq!(Validation::validate_against(&container[..3], &identity(1)), Err(Error::TruncatedContainer));
    let _ = Validation::new();
}

#[test]
fn validate_meta_reports_structural_errors() {
    let container = encode(&identity(1), &vec![1], 2).unwrap();
    assert_eq!(Validation::validate_meta(&container, &None, &None), Err(Error::VersionMismatch));
    assert_eq!(Validation::validate_meta(&[0u8; 4], &None, &None), Err(Error::TruncatedContainer));
}

#[test]
fn validate_meta_on_foreign_identity() {
    let container = encode(&identity(1), &vec![1], 1).unwrap();
    let r = Validation::validate_meta(&container, &None, &Some("MB-1".to_string()));
    assert!(r == Ok(false) || r == Err(Error::HostQuery));
}

#[test]
fn validate_meta_hash_on_this_host() {
    let machine_id = Some("m".to_string());
    if let Ok(m) = MetaData::new(6, &machine_id, &None) {
        assert_eq!(Validation::validate_meta_hash(6, &m.collective_hash, &machine_id, &None), Ok(true));
        assert_eq!(Validation::validate_meta_hash(6, "nope", &machine_id, &None), Ok(false));
        let container = encode(&m, &vec![], 6).unwrap();
        assert_eq!(Validation::validate_meta(&container, &machine_id, &None), Ok(true));
    }
}
