//! Strings as the target reads them: nul-terminated, in UTF-16 or in bytes.

use vstd::prelude::*;
use vstd::slice::slice_to_vec;
use vstd::string::StringSliceAdditionalSpecFns;
use crate::error::SyringeError;
use widestring::error::ContainsNul;
use widestring::U16CString;

verus! {

#[verifier::external_type_specification]
#[verifier::external_body]
#[verifier::reject_recursive_types(C)]
pub struct ExContainsNul<C>(ContainsNul<C>);

/// The UTF-16 code units of a string, followed by one nul unit unless the
/// string ends in a nul character already.
pub uninterp spec fn wide_units(s: Seq<char>) -> Seq<u16>;

/// Whether a nul character stands anywhere in `s` but at its end.
pub open spec fn has_inner_nul(s: Seq<char>) -> bool {
    exists|i: int| 0 <= i < s.len() - 1 && s[i] == '\0'
}

/// `U16CString::from_str`, followed by `into_vec_with_nul`: the string in
/// UTF-16 with a nul terminator. It fails exactly when a nul character stands
/// before the end of the string. What comes back ends in a nul unit and holds
/// no other; it has at most two units for each character, and the
/// terminator.
#[verifier::external_body]
fn wide_c_string(s: &str) -> (r: Result<Vec<u16>, ContainsNul<u16>>)
    ensures
        r is Err <==> has_inner_nul(s@),
        r matches Ok(units) ==> {
            &&& units@ == wide_units(s@)
            &&& 0 < units@.len() <= 2 * s@.len() + 1
            &&& units@.last() == 0
            &&& forall|i: int| 0 <= i < units@.len() - 1 ==> units@[i] != 0
        },
{
    Ok(U16CString::from_str(s)?.into_vec_with_nul())
}

/// Whether a nul unit stands anywhere in `units` but at their end.
pub open spec fn has_inner_nul_unit(units: Seq<u16>) -> bool {
    exists|i: int| 0 <= i < units.len() - 1 && units[i] == 0
}

/// The units with a nul terminator: themselves when they end in a nul unit,
/// and with one added when they do not.
pub open spec fn terminated(units: Seq<u16>) -> Seq<u16> {
    if units.len() > 0 && units.last() == 0 {
        units
    } else {
        units.push(0u16)
    }
}

/// `U16CString::from_vec`, followed by `into_vec_with_nul`: the units with a
/// nul terminator. It fails exactly when a nul unit stands before the end of
/// the units.
#[verifier::external_body]
fn wide_c_string_of(units: Vec<u16>) -> (r: Result<Vec<u16>, ContainsNul<u16>>)
    ensures
        r is Err <==> has_inner_nul_unit(units@),
        r matches Ok(wide) ==> wide@ == terminated(units@),
{
    Ok(U16CString::from_vec(units)?.into_vec_with_nul())
}

/// The path in UTF-16 with a nul terminator.
///
/// A path with a nul character before its end cannot be encoded.
pub fn encode_wide(path: &str) -> (r: Result<Vec<u16>, SyringeError>)
    ensures
        match r {
            Ok(units) => !has_inner_nul(path@) && units@ == wide_units(path@) && 0 < units@.len()
                <= 2 * path@.len() + 1,
            Err(e) => has_inner_nul(path@) && e == SyringeError::PathEncoding,
        },
{
    match wide_c_string(path) {
        Ok(units) => Ok(units),
        Err(_) => Err(SyringeError::PathEncoding),
    }
}

/// The path, given in UTF-16, with a nul terminator.
///
/// A path with a nul unit before its end cannot be encoded.
pub fn terminate(path: &[u16]) -> (r: Result<Vec<u16>, SyringeError>)
    ensures
        match r {
            Ok(units) => !has_inner_nul_unit(path@) && units@ == terminated(path@),
            Err(e) => has_inner_nul_unit(path@) && e == SyringeError::PathEncoding,
        },
{
    match wide_c_string_of(slice_to_vec(path)) {
        Ok(units) => Ok(units),
        Err(_) => Err(SyringeError::PathEncoding),
    }
}

/// A copy of the units.
pub fn copy_units(units: &Vec<u16>) -> (r: Vec<u16>)
    ensures
        r@ == units@,
{
    slice_to_vec(units.as_slice())
}

/// The bytes of `units` in memory: each unit low byte first.
pub open spec fn le_image(units: Seq<u16>) -> Seq<u8> {
    Seq::new(
        2 * units.len(),
        |i: int|
            if i % 2 == 0 {
                (units[i / 2] % 256) as u8
            } else {
                (units[i / 2] / 256) as u8
            },
    )
}

/// Lays `units` out in memory, each unit low byte first.
pub fn le_bytes(units: &Vec<u16>) -> (r: Vec<u8>)
    ensures
        r@ == le_image(units@),
{
    let mut bytes: Vec<u8> = Vec::new();
    let mut i: usize = 0;
    while i < units.len()
        invariant
            0 <= i <= units.len(),
            bytes@ == le_image(units@.take(i as int)),
        decreases units.len() - i,
    {
        let unit = units[i];
        bytes.push((unit % 256) as u8);
        bytes.push((unit / 256) as u8);
        proof {
            assert(bytes@ =~= le_image(units@.take(i as int + 1)));
        }
        i += 1;
    }
    proof {
        assert(units@.take(i as int) =~= units@);
    }
    bytes
}

/// The image of the payload path in the target: the path in UTF-16 with a
/// nul terminator, each unit low byte first.
///
/// A path with a nul character before its end cannot be encoded.
pub fn encode_path(path: &str) -> (r: Result<Vec<u8>, SyringeError>)
    ensures
        match r {
            Ok(bytes) => !has_inner_nul(path@) && bytes@ == le_image(wide_units(path@)) && 2
                <= bytes@.len() <= 4 * path@.len() + 2,
            Err(e) => has_inner_nul(path@) && e == SyringeError::PathEncoding,
        },
{
    match encode_wide(path) {
        Ok(units) => Ok(le_bytes(&units)),
        Err(e) => Err(e),
    }
}

/// Whether the bytes hold a nul.
pub open spec fn has_nul(bytes: Seq<u8>) -> bool {
    exists|i: int| 0 <= i < bytes.len() && bytes[i] == 0
}

/// Looks for a nul among the bytes of `name`.
pub fn contains_nul(name: &str) -> (r: bool)
    ensures
        r == has_nul(name.spec_bytes()),
{
    let bytes = name.as_bytes();
    let mut i: usize = 0;
    while i < bytes.len()
        invariant
            0 <= i <= bytes.len(),
            bytes@ == name.spec_bytes(),
            forall|j: int| 0 <= j < i ==> bytes@[j] != 0,
        decreases bytes.len() - i,
    {
        if bytes[i] == 0 {
            return true;
        }
        i += 1;
    }
    false
}

/// The image of an export name in the target: its bytes, followed by a nul.
///
/// The name must not hold a nul itself.
pub fn encode_name(name: &str) -> (r: Vec<u8>)
    requires
        !has_nul(name.spec_bytes()),
    ensures
        r@ == name.spec_bytes().push(0u8),
{
    let mut bytes = slice_to_vec(name.as_bytes());
    bytes.push(0u8);
    bytes
}

} // verus!
