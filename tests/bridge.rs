use appimg_igniter::bridge::{
    c_string_bytes, entry_names, extraction_result, registration_result, text_from_native,
    unregistration_result,
};
use appimg_igniter::error::AppimageError;

#[test]
fn c_strings_get_a_terminator() {
    assert_eq!(c_string_bytes(b"/tmp/a"), Some(b"/tmp/a\0".to_vec()));
    assert_eq!(c_string_bytes(b""), Some(vec![0u8]));
}

#[test]
fn c_strings_refuse_inner_nul() {
    assert_eq!(c_string_bytes(b"/tmp\0/a"), None);
    assert_eq!(c_string_bytes(b"\0"), None);
}

#[test]
fn native_text_is_repaired() {
    assert_eq!(text_from_native(&b"App.desktop".to_vec()), "App.desktop");
    assert_eq!(text_from_native(&vec![b'a', 0xff, b'b']), "a\u{FFFD}b");
}

#[test]
fn entry_names_keep_order() {
    let raw = vec![b"AppRun".to_vec(), vec![0xc3, 0xa9], vec![0xe2, 0x82]];
    assert_eq!(entry_names(&raw), vec!["AppRun", "é", "\u{FFFD}"]);
}

#[test]
fn registration_status_is_checked() {
    assert_eq!(registration_result(0), Ok(()));
    assert_eq!(registration_result(1), Err(AppimageError::RegistrationFailed));
    assert_eq!(registration_result(-1), Err(AppimageError::RegistrationFailed));
}

#[test]
fn unregistration_status_is_checked() {
    assert_eq!(unregistration_result(0), Ok(()));
    assert_eq!(unregistration_result(2), Err(AppimageError::UnregistrationFailed));
}

#[test]
fn extraction_status_names_the_entry() {
    let entry = "App.desktop".to_string();
    assert_eq!(extraction_result(0, &entry), Ok(()));
    assert_eq!(
        extraction_result(5, &entry),
        Err(AppimageError::ExtractionFailed { entry: "App.desktop".to_string() })
    );
}
