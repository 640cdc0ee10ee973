use appimg_igniter::detection::{appimage_type_from_code, AppimageType};
use appimg_igniter::error::AppimageError;

#[test]
fn known_codes_map_to_their_variant() {
    assert_eq!(appimage_type_from_code(-1), Ok(AppimageType::Invalid));
    assert_eq!(appimage_type_from_code(0), Ok(AppimageType::Legacy));
    assert_eq!(appimage_type_from_code(1), Ok(AppimageType::Type1));
    assert_eq!(appimage_type_from_code(2), Ok(AppimageType::Type2));
}

#[test]
fn other_codes_are_reported() {
    assert_eq!(appimage_type_from_code(3), Err(AppimageError::UnknownTypeCode { code: 3 }));
    assert_eq!(appimage_type_from_code(-2), Err(AppimageError::UnknownTypeCode { code: -2 }));
    assert_eq!(
        appimage_type_from_code(i32::MAX),
        Err(AppimageError::UnknownTypeCode { code: i32::MAX })
    );
}
