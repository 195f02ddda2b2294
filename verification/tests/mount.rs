use apexsupport::mount::is_below_mount_root;
use apexsupport::mount::manifest_path_of;
use apexsupport::mount::module_name_of;
use apexsupport::mount::MANIFEST_FILE_NAME;
use apexsupport::mount::MOUNT_ROOT;
use apexsupport::mount::SEPARATOR;

#[test]
fn constants_spell_the_mount_layout() {
    assert_eq!(&MOUNT_ROOT, b"/apex");
    assert_eq!(&MANIFEST_FILE_NAME, b"apex_manifest.pb");
    assert_eq!(SEPARATOR, b'/');
}

#[test]
fn module_name_is_the_segment_after_the_mount_root() {
    assert_eq!(
        module_name_of(b"/apex/com.android.foo/bin/foo"),
        Some(b"com.android.foo".to_vec())
    );
    assert_eq!(module_name_of(b"/apex/a/b/c/d"), Some(b"a".to_vec()));
}

#[test]
fn module_directory_itself_names_the_module() {
    assert_eq!(module_name_of(b"/apex/com.android.foo"), Some(b"com.android.foo".to_vec()));
    assert_eq!(module_name_of(b"/apex/com.android.foo/"), Some(b"com.android.foo".to_vec()));
}

#[test]
fn path_outside_the_mount_root_names_no_module() {
    assert_eq!(module_name_of(b"/system/bin/foo"), None);
    assert_eq!(module_name_of(b"/data/apex/com.android.foo/bin/foo"), None);
    assert_eq!(module_name_of(b"apex/com.android.foo/bin/foo"), None);
    assert_eq!(module_name_of(b"/apeX/com.android.foo/bin/foo"), None);
    assert_eq!(module_name_of(b"/"), None);
    assert_eq!(module_name_of(b""), None);
}

#[test]
fn mount_root_is_matched_as_a_whole_segment() {
    assert_eq!(module_name_of(b"/apexfoo/bin/foo"), None);
    assert_eq!(module_name_of(b"/apex.d/com.android.foo/bin/foo"), None);
    assert!(!is_below_mount_root(b"/apexfoo/bin/foo"));
}

#[test]
fn mount_root_alone_names_no_module() {
    assert_eq!(module_name_of(b"/apex"), None);
    assert_eq!(module_name_of(b"/apex/"), None);
    assert!(!is_below_mount_root(b"/apex"));
    assert!(is_below_mount_root(b"/apex/"));
}

#[test]
fn empty_segment_after_the_mount_root_names_no_module() {
    assert_eq!(module_name_of(b"/apex//com.android.foo/bin/foo"), None);
    assert_eq!(module_name_of(b"/apex//"), None);
}

#[test]
fn segments_are_not_interpreted() {
    assert_eq!(module_name_of(b"/apex/../bin/foo"), Some(b"..".to_vec()));
    assert_eq!(
        module_name_of(b"/apex/com.android.foo@31/bin/foo"),
        Some(b"com.android.foo@31".to_vec())
    );
    assert_eq!(
        module_name_of(&[0x2f, 0x61, 0x70, 0x65, 0x78, 0x2f, 0xff, 0x00, 0x2f]),
        Some(vec![0xff, 0x00])
    );
}

#[test]
fn manifest_lies_directly_inside_the_module_directory() {
    assert_eq!(
        manifest_path_of(b"com.android.foo"),
        b"/apex/com.android.foo/apex_manifest.pb".to_vec()
    );
    assert_eq!(manifest_path_of(b""), b"/apex//apex_manifest.pb".to_vec());
}

#[test]
fn manifest_of_a_path_is_found_through_its_module_name() {
    let name = module_name_of(b"/apex/com.android.adbd/bin/adbd").unwrap();
    assert_eq!(manifest_path_of(&name), b"/apex/com.android.adbd/apex_manifest.pb".to_vec());
}
