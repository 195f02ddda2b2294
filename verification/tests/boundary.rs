use apexsupport::apexinfo::AApexInfo;
use apexsupport::apexinfo::AApexInfoError;
use apexsupport::apexinfo::InvalidApexReason;
use apexsupport::as_error_code;
use apexsupport::manifest::ManifestError;
use apexsupport::AApexInfo_create;
use apexsupport::AApexInfo_destroy;
use apexsupport::AApexInfo_getName;
use apexsupport::AApexInfo_getVersion;
use apexsupport::AAPEXINFO_ERROR_GET_EXECUTABLE_PATH;
use apexsupport::AAPEXINFO_INVALID_APEX;
use apexsupport::AAPEXINFO_NO_APEX;
use apexsupport::AAPEXINFO_NULL;
use apexsupport::AAPEXINFO_OK;

fn adbd_manifest() -> Vec<u8> {
    let mut bytes = vec![0x0a, 0x10];
    bytes.extend_from_slice(b"com.android.adbd");
    bytes.extend_from_slice(&[0x10, 0xac, 0x02]);
    bytes
}

fn adbd_path() -> Result<Vec<u8>, String> {
    Ok(b"/apex/com.android.adbd/bin/adbd".to_vec())
}

fn adbd_files(path: &[u8]) -> Result<Vec<u8>, String> {
    if path == b"/apex/com.android.adbd/apex_manifest.pb" {
        Ok(adbd_manifest())
    } else {
        Err("not found".to_string())
    }
}

fn no_files(_: &[u8]) -> Result<Vec<u8>, String> {
    Err("not found".to_string())
}

fn created_handle() -> Option<Box<AApexInfo>> {
    let mut handle = None;
    assert_eq!(AApexInfo_create(Some(&mut handle), adbd_path, adbd_files), AAPEXINFO_OK);
    handle
}

#[test]
fn status_codes_are_fixed() {
    assert_eq!(AAPEXINFO_OK, 0);
    assert_eq!(AAPEXINFO_NULL, 1);
    assert_eq!(AAPEXINFO_NO_APEX, 2);
    assert_eq!(AAPEXINFO_ERROR_GET_EXECUTABLE_PATH, 3);
    assert_eq!(AAPEXINFO_INVALID_APEX, 4);
}

#[test]
fn each_failure_has_its_code() {
    assert_eq!(as_error_code(&AApexInfoError::PathNotFromApex(b"/system/bin/sh".to_vec())), 2);
    assert_eq!(as_error_code(&AApexInfoError::PathNotFromApex(Vec::new())), 2);
    assert_eq!(as_error_code(&AApexInfoError::ExePathUnavailable("denied".to_string())), 3);
    assert_eq!(
        as_error_code(&AApexInfoError::InvalidApex(InvalidApexReason::ManifestUnreadable(
            "denied".to_string()
        ))),
        4
    );
    assert_eq!(
        as_error_code(&AApexInfoError::InvalidApex(InvalidApexReason::ManifestMalformed(
            ManifestError::MissingVersion
        ))),
        4
    );
    assert_eq!(
        as_error_code(&AApexInfoError::InvalidApex(InvalidApexReason::NameMismatch {
            expected: b"a".to_vec(),
            declared: b"b".to_vec(),
        })),
        4
    );
}

#[test]
fn create_fills_the_slot_with_a_handle() {
    let mut handle = None;
    let code = AApexInfo_create(Some(&mut handle), adbd_path, adbd_files);
    assert_eq!(code, 0);
    assert!(handle.is_some());
    assert_eq!(AApexInfo_getName(handle.as_deref()), Some(&b"com.android.adbd\0"[..]));
    assert_eq!(AApexInfo_getVersion(handle.as_deref()), 300);
    AApexInfo_destroy(handle);
}

#[test]
fn create_without_a_slot_is_a_null_argument() {
    assert_eq!(AApexInfo_create(None, adbd_path, adbd_files), 1);
}

#[test]
fn create_without_a_slot_resolves_nothing() {
    let code = AApexInfo_create(
        None,
        || -> Result<Vec<u8>, String> { panic!("the path was asked for") },
        |_: &[u8]| -> Result<Vec<u8>, String> { panic!("a manifest was asked for") },
    );
    assert_eq!(code, AAPEXINFO_NULL);
}

#[test]
fn create_outside_a_module_leaves_the_slot_empty() {
    let mut handle = None;
    let code = AApexInfo_create(Some(&mut handle), || Ok(b"/system/bin/adbd".to_vec()), adbd_files);
    assert_eq!(code, 2);
    assert!(handle.is_none());
}

#[test]
fn create_without_a_path_leaves_the_slot_empty() {
    let mut handle = None;
    let code = AApexInfo_create(Some(&mut handle), || Err("denied".to_string()), adbd_files);
    assert_eq!(code, 3);
    assert!(handle.is_none());
}

#[test]
fn create_with_an_unusable_manifest_leaves_the_slot_empty() {
    let mut handle = None;
    let code = AApexInfo_create(Some(&mut handle), adbd_path, no_files);
    assert_eq!(code, 4);
    assert!(handle.is_none());
    let code = AApexInfo_create(Some(&mut handle), adbd_path, |_: &[u8]| Ok(vec![0xff]));
    assert_eq!(code, 4);
    assert!(handle.is_none());
    let code = AApexInfo_create(Some(&mut handle), adbd_path, |_: &[u8]| {
        Ok(vec![0x0a, 0x01, b'x', 0x10, 0x01])
    });
    assert_eq!(code, 4);
    assert!(handle.is_none());
}

#[test]
fn failed_create_leaves_an_earlier_handle_in_the_slot() {
    let mut handle = created_handle();
    let code = AApexInfo_create(Some(&mut handle), || Err("denied".to_string()), adbd_files);
    assert_eq!(code, 3);
    assert_eq!(AApexInfo_getName(handle.as_deref()), Some(&b"com.android.adbd\0"[..]));
    assert_eq!(AApexInfo_getVersion(handle.as_deref()), 300);
    let code = AApexInfo_create(Some(&mut handle), || Ok(b"/bin/sh".to_vec()), adbd_files);
    assert_eq!(code, 2);
    assert_eq!(AApexInfo_getVersion(handle.as_deref()), 300);
    let code = AApexInfo_create(Some(&mut handle), adbd_path, no_files);
    assert_eq!(code, 4);
    assert_eq!(AApexInfo_getVersion(handle.as_deref()), 300);
}

#[test]
fn destroy_of_an_absent_handle_does_nothing() {
    AApexInfo_destroy(None);
}

#[test]
fn destroy_takes_the_handle_back() {
    let handle = created_handle();
    assert!(handle.is_some());
    AApexInfo_destroy(handle);
}

#[test]
fn absent_handle_has_no_name() {
    assert_eq!(AApexInfo_getName(None), None);
}

#[test]
fn absent_handle_has_version_minus_one() {
    assert_eq!(AApexInfo_getVersion(None), -1);
}

#[test]
fn name_ends_with_its_only_zero_byte() {
    let handle = created_handle();
    let name = AApexInfo_getName(handle.as_deref()).unwrap();
    assert_eq!(name.last(), Some(&0));
    assert_eq!(name.iter().filter(|b| **b == 0).count(), 1);
    assert_eq!(&name[..name.len() - 1], b"com.android.adbd");
}

#[test]
fn accessors_answer_the_same_until_the_handle_is_destroyed() {
    let handle = created_handle();
    for _ in 0..3 {
        assert_eq!(AApexInfo_getName(handle.as_deref()), Some(&b"com.android.adbd\0"[..]));
        assert_eq!(AApexInfo_getVersion(handle.as_deref()), 300);
    }
    AApexInfo_destroy(handle);
}

#[test]
fn each_create_gives_a_handle_of_its_own() {
    let first = created_handle();
    let second = created_handle();
    AApexInfo_destroy(first);
    assert_eq!(AApexInfo_getName(second.as_deref()), Some(&b"com.android.adbd\0"[..]));
    assert_eq!(AApexInfo_getVersion(second.as_deref()), 300);
}
