use bindgen_link::extract::{check_schema, extract_programs, verify_schema_matches};
use bindgen_link::records::ErrorKind;

fn chunk(bytes: &[u8]) -> Vec<u8> {
    let mut out = (bytes.len() as u32).to_le_bytes().to_vec();
    out.extend_from_slice(bytes);
    out
}

fn envelope(schema: &str, version: &str) -> Vec<u8> {
    format!("{{\"schema_version\":\"{}\",\"version\":\"{}\"}}", schema, version).into_bytes()
}

#[test]
fn matching_schema_yields_units_in_order() {
    let ours = wasm_bindgen_shared::SCHEMA_VERSION;
    let mut first = Vec::new();
    first.extend(chunk(&envelope(ours, "1.0")));
    first.extend(chunk(&[1, 2, 3]));
    first.extend(chunk(&envelope(ours, "1.0")));
    first.extend(chunk(&[4]));
    let second = [chunk(&envelope(ours, "1.0")), chunk(&[])].concat();
    let units = extract_programs(&vec![first, second]).unwrap();
    assert_eq!(units, vec![vec![1, 2, 3], vec![4], vec![]]);
}

#[test]
fn empty_sections_yield_nothing() {
    assert!(extract_programs(&vec![vec![], vec![]]).unwrap().is_empty());
}

#[test]
fn version_mismatch_names_both_versions() {
    let section = [chunk(&envelope("0.0.1", "0.2.40")), chunk(&[7])].concat();
    let err = extract_programs(&vec![section]).unwrap_err();
    assert_eq!(err.error_kind(), ErrorKind::VersionMismatch);
    match err {
        bindgen_link::records::Error::VersionMismatch { theirs, ours } => {
            assert_eq!(theirs, "0.2.40");
            assert_eq!(ours, wasm_bindgen_shared::version());
        }
        other => panic!("unexpected {:?}", other),
    }
}

#[test]
fn truncated_length_is_malformed() {
    let err = extract_programs(&vec![vec![10, 0, 0, 0, 1, 2]]).unwrap_err();
    assert_eq!(err.error_kind(), ErrorKind::MalformedSection);
    let err = extract_programs(&vec![vec![1, 0]]).unwrap_err();
    assert_eq!(err.error_kind(), ErrorKind::MalformedSection);
}

#[test]
fn envelope_without_unit_is_malformed() {
    let ours = wasm_bindgen_shared::SCHEMA_VERSION;
    let err = extract_programs(&vec![chunk(&envelope(ours, "1"))]).unwrap_err();
    assert_eq!(err.error_kind(), ErrorKind::MalformedSection);
}

#[test]
fn schema_check_outcomes() {
    let ours = b"1.2".to_vec();
    assert_eq!(check_schema(b"{\"schema_version\":\"1.2\"}", &ours).unwrap(), None);
    assert_eq!(
        check_schema(b"{\"schema_version\":\"1.3\",\"version\":\"0.9\"}", &ours).unwrap(),
        Some(b"0.9".to_vec())
    );
    let malformed: [&[u8]; 5] = [
        b"\"schema_version\":\"1.2\"}",
        b"{\"schema_version\":\"1.2\"",
        b"{\"other\":\"1.2\"}",
        b"{\"schema_version\":\"1.3\"}",
        &[b'{', 0xff, b'}'],
    ];
    for m in malformed.iter() {
        assert_eq!(check_schema(m, &ours).unwrap_err().error_kind(), ErrorKind::MalformedSection);
    }
}

#[test]
fn own_schema_is_accepted() {
    let env = envelope(wasm_bindgen_shared::SCHEMA_VERSION, "anything");
    assert_eq!(verify_schema_matches(&env).unwrap(), None);
    let other = envelope("nope", "7.7");
    assert_eq!(verify_schema_matches(&other).unwrap(), Some(b"7.7".to_vec()));
}
