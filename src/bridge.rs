use vstd::prelude::*;
use vstd::utf8::{decode_utf8, valid_utf8};
use crate::error::AppimageError;

verus! {

/// What `String::from_utf8_lossy` makes of `b`.
pub uninterp spec fn lossy_of(b: Seq<u8>) -> Seq<char>;

/// Relies on `String::from_utf8_lossy`: its result depends on the bytes
/// alone, and well-formed UTF-8 is decoded as it stands.
#[verifier::external_body]
fn from_utf8_lossy(b: &[u8]) -> (r: String)
    ensures
        r@ == lossy_of(b@),
        valid_utf8(b@) ==> r@ == decode_utf8(b@),
{
    String::from_utf8_lossy(b).into_owned()
}

/// Recovers text from bytes handed over by the native runtime. Ill-formed
/// sequences are repaired rather than rejected, since the names inside a
/// third-party bundle are untrusted.
pub fn text_from_native(b: &Vec<u8>) -> (r: String)
    ensures
        r@ == lossy_of(b@),
        valid_utf8(b@) ==> r@ == decode_utf8(b@),
{
    from_utf8_lossy(b.as_slice())
}

/// Recovers the names of a bundle's file list, in order.
pub fn entry_names(raw: &Vec<Vec<u8>>) -> (r: Vec<String>)
    ensures
        r@.len() == raw@.len(),
        forall|i: int| 0 <= i < raw@.len() ==> (#[trigger] r@[i])@ == lossy_of(raw@[i]@),
{
    let mut r: Vec<String> = Vec::new();
    let mut i: usize = 0;
    while i < raw.len()
        invariant
            i <= raw@.len(),
            r@.len() == i,
            forall|j: int| 0 <= j < i ==> (#[trigger] r@[j])@ == lossy_of(raw@[j]@),
        decreases raw@.len() - i,
    {
        r.push(text_from_native(&raw[i]));
        i = i + 1;
    }
    r
}

/// The bytes of a C string holding `b`: `b` followed by a NUL, or `None`
/// when `b` itself holds a NUL, which a C string cannot carry.
pub fn c_string_bytes(b: &[u8]) -> (r: Option<Vec<u8>>)
    ensures
        r is None <==> b@.contains(0u8),
        r matches Some(v) ==> v@ == b@.push(0u8),
{
    let mut v: Vec<u8> = Vec::new();
    let mut i: usize = 0;
    while i < b.len()
        invariant
            i <= b@.len(),
            v@ == b@.take(i as int),
            !b@.take(i as int).contains(0u8),
        decreases b@.len() - i,
    {
        if b[i] == 0 {
            assert(b@[i as int] == 0u8);
            return None;
        }
        v.push(b[i]);
        i = i + 1;
        assert(v@ =~= b@.take(i as int));
        assert forall|j: int| 0 <= j < i implies b@.take(i as int)[j] != 0u8 by {
            if j < i - 1 {
                assert(b@.take(i as int)[j] == b@.take(i - 1)[j]);
            }
        }
    }
    assert(b@.take(i as int) =~= b@);
    v.push(0u8);
    Some(v)
}

/// The outcome of the runtime's registration call, by its status code.
pub fn registration_result(status: i32) -> (r: Result<(), AppimageError>)
    ensures
        r is Ok <==> status == 0,
        r is Err ==> r == Err::<(), AppimageError>(AppimageError::RegistrationFailed),
{
    if status == 0 {
        Ok(())
    } else {
        Err(AppimageError::RegistrationFailed)
    }
}

/// The outcome of the runtime's unregistration call, by its status code.
pub fn unregistration_result(status: i32) -> (r: Result<(), AppimageError>)
    ensures
        r is Ok <==> status == 0,
        r is Err ==> r == Err::<(), AppimageError>(AppimageError::UnregistrationFailed),
{
    if status == 0 {
        Ok(())
    } else {
        Err(AppimageError::UnregistrationFailed)
    }
}

/// The outcome of extracting `entry` from a bundle, by the status code of
/// the runtime's extraction call.
pub fn extraction_result(status: i32, entry: &String) -> (r: Result<(), AppimageError>)
    ensures
        r is Ok <==> status == 0,
        r matches Err(e) ==> e matches AppimageError::ExtractionFailed { entry: f } && f@ == entry@,
{
    if status == 0 {
        Ok(())
    } else {
        Err(AppimageError::ExtractionFailed { entry: entry.clone() })
    }
}

} // verus!
