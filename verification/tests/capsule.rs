use pycapsule::capsule::{import_outcome, PendingException, PyCapsule};
use pycapsule::name::{CapsuleError, CapsuleName};

#[test]
fn name_accepts_dotted() {
    let name = CapsuleName::new(b"unicodedata.ucnhash_CAPI".to_vec()).unwrap();
    assert_eq!(name.as_bytes().as_slice(), b"unicodedata.ucnhash_CAPI");
}

#[test]
fn name_rejects_interior_nul() {
    let r = CapsuleName::new(b"COMMA\0MA".to_vec());
    assert_eq!(r.err(), Some(CapsuleError::InteriorNul(5)));
    let r = CapsuleName::new(b"\0".to_vec());
    assert_eq!(r.err(), Some(CapsuleError::InteriorNul(0)));
}

#[test]
fn name_accepts_empty() {
    let name = CapsuleName::new(Vec::new()).unwrap();
    assert_eq!(name.as_bytes().len(), 0);
    assert_eq!(name.to_c_bytes(), vec![0u8]);
}

#[test]
fn c_bytes_append_terminating_nul() {
    let name = CapsuleName::new(b"unicodedata.ucnhash_CAPI".to_vec()).unwrap();
    assert_eq!(name.to_c_bytes().as_slice(), b"unicodedata.ucnhash_CAPI\0");
}

#[test]
fn from_segments_builds_dotted_name() {
    let pieces = vec![b"unicodedata".to_vec(), b"ucnhash_CAPI".to_vec()];
    let name = CapsuleName::from_segments(&pieces).unwrap();
    assert_eq!(name.as_bytes().as_slice(), b"unicodedata.ucnhash_CAPI");
}

#[test]
fn from_segments_single_piece() {
    let pieces = vec![b"sys".to_vec()];
    let name = CapsuleName::from_segments(&pieces).unwrap();
    assert_eq!(name.as_bytes().as_slice(), b"sys");
}

#[test]
fn from_segments_refuses_bad_pieces() {
    assert!(CapsuleName::from_segments(&Vec::new()).is_none());
    assert!(CapsuleName::from_segments(&vec![b"a.b".to_vec()]).is_none());
    assert!(CapsuleName::from_segments(&vec![b"a".to_vec(), b"b\0c".to_vec()]).is_none());
}

#[test]
fn segments_split_at_every_dot() {
    let name = CapsuleName::new(b"datetime.datetime_CAPI".to_vec()).unwrap();
    let pieces = name.segments();
    assert_eq!(pieces.len(), 2);
    assert_eq!(pieces[0].as_slice(), b"datetime");
    assert_eq!(pieces[1].as_slice(), b"datetime_CAPI");

    let name = CapsuleName::new(b"a.b.c".to_vec()).unwrap();
    let pieces = name.segments();
    assert_eq!(pieces, vec![b"a".to_vec(), b"b".to_vec(), b"c".to_vec()]);
}

#[test]
fn segments_of_dotless_name_is_one_piece() {
    let name = CapsuleName::new(b"capsdata".to_vec()).unwrap();
    assert_eq!(name.segments(), vec![b"capsdata".to_vec()]);
}

#[test]
fn segments_keep_empty_pieces() {
    let name = CapsuleName::new(b"a..b".to_vec()).unwrap();
    assert_eq!(
        name.segments(),
        vec![b"a".to_vec(), Vec::new(), b"b".to_vec()]
    );
}

#[test]
fn split_then_join_round_trip() {
    let name = CapsuleName::new(b"somemod.capsdata".to_vec()).unwrap();
    let pieces = name.segments();
    let rebuilt = CapsuleName::from_segments(&pieces).unwrap();
    assert_eq!(rebuilt.as_bytes(), name.as_bytes());
}

#[test]
fn capsule_hands_out_data_for_its_own_name() {
    let caps = PyCapsule::new(0x7f00_1234, b"somemod.capsdata".to_vec()).unwrap();
    assert_eq!(caps.data(), 0x7f00_1234);
    assert_eq!(caps.data_ref(b"somemod.capsdata".to_vec()), Ok(0x7f00_1234));
}

#[test]
fn capsule_refuses_any_other_name() {
    let caps = PyCapsule::new(0x1000, b"somemod.capsdata".to_vec()).unwrap();
    assert_eq!(
        caps.data_ref(b"somemod.capsdatb".to_vec()),
        Err(CapsuleError::WrongName)
    );
    assert_eq!(
        caps.data_ref(b"somemod.capsdat".to_vec()),
        Err(CapsuleError::WrongName)
    );
    assert_eq!(
        caps.data_ref(b"somemod.caps\0ata".to_vec()),
        Err(CapsuleError::InteriorNul(12))
    );
}

#[test]
fn capsule_data_ref_cstr_matches_exactly() {
    let caps = PyCapsule::new(0x2000, b"sys.capsfn".to_vec()).unwrap();
    let same = CapsuleName::new(b"sys.capsfn".to_vec()).unwrap();
    let other = CapsuleName::new(b"sys.capsgn".to_vec()).unwrap();
    assert_eq!(caps.data_ref_cstr(&same), Some(0x2000));
    assert_eq!(caps.data_ref_cstr(&other), None);
}

#[test]
fn capsule_new_rejects_nul_in_name() {
    let r = PyCapsule::new(0x1000, b"somemod\0capsdata".to_vec());
    assert_eq!(r.err(), Some(CapsuleError::InteriorNul(7)));
}

#[test]
fn new_data_behaves_as_new() {
    let caps = PyCapsule::new_data(0x3000, b"somemod.capsdata".to_vec()).unwrap();
    assert_eq!(caps.data_ref(b"somemod.capsdata".to_vec()), Ok(0x3000));
    assert_eq!(caps.name().as_bytes().as_slice(), b"somemod.capsdata");
}

#[test]
fn import_outcome_null_means_pending_exception() {
    assert_eq!(import_outcome(0), Err(PendingException));
}

#[test]
fn import_outcome_passes_nonnull_through() {
    assert_eq!(import_outcome(0x5555), Ok(0x5555));
}
