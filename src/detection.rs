use vstd::prelude::*;
use crate::error::AppimageError;

verus! {

/// The format variants of an AppImage bundle.
#[derive(Debug, Clone, Copy, PartialEq, Eq)]
pub enum AppimageType {
    Invalid,
    Legacy,
    Type1,
    Type2,
}

/// The variant that a classification code of the runtime stands for, if any.
pub open spec fn type_of_code(code: int) -> Option<AppimageType> {
    if code == -1 {
        Some(AppimageType::Invalid)
    } else if code == 0 {
        Some(AppimageType::Legacy)
    } else if code == 1 {
        Some(AppimageType::Type1)
    } else if code == 2 {
        Some(AppimageType::Type2)
    } else {
        None
    }
}

/// Reads a classification code returned by the runtime's type query.
/// Codes -1, 0, 1 and 2 map to their variant; any other code is an error
/// that carries it.
pub fn appimage_type_from_code(code: i32) -> (r: Result<AppimageType, AppimageError>)
    ensures
        type_of_code(code as int) matches Some(t) ==> r == Ok::<AppimageType, AppimageError>(t),
        type_of_code(code as int) is None ==> r == Err::<AppimageType, AppimageError>(
            AppimageError::UnknownTypeCode { code },
        ),
{
    if code == -1 {
        Ok(AppimageType::Invalid)
    } else if code == 0 {
        Ok(AppimageType::Legacy)
    } else if code == 1 {
        Ok(AppimageType::Type1)
    } else if code == 2 {
        Ok(AppimageType::Type2)
    } else {
        Err(AppimageError::UnknownTypeCode { code })
    }
}

} // verus!
