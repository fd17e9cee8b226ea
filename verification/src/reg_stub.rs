//! Registry access for builds without any registry: reads find nothing and
//! writes succeed without storing anything.
use vstd::prelude::*;

verus! {

/// The error type of registry writes (`std::io::Error`), carried through
/// without being looked into.
#[verifier::external_type_specification]
#[verifier::external_body]
pub struct ExIoError(std::io::Error);

/// A registry root.
pub type HKEY = isize;

pub const HKEY_CLASSES_ROOT: HKEY = 0;
pub const HKEY_CURRENT_USER: HKEY = 1;
pub const HKEY_LOCAL_MACHINE: HKEY = 2;
pub const HKEY_USERS: HKEY = 3;

pub fn read_string(hive: HKEY, path: &str, key: &str) -> (r: Option<String>)
    ensures
        r is None,
{
    None
}

pub fn write_string(hive: HKEY, path: &str, key: &str, val: &str) -> (r: Result<(), std::io::Error>)
    ensures
        r is Ok,
{
    Ok(())
}

pub fn read_u32(hive: HKEY, path: &str, key: &str) -> (r: Option<u32>)
    ensures
        r is None,
{
    None
}

pub fn write_u32(hive: HKEY, path: &str, key: &str, val: u32) -> (r: Result<(), std::io::Error>)
    ensures
        r is Ok,
{
    Ok(())
}

pub fn read_bool_str(hive: HKEY, path: &str, key: &str) -> (b: bool)
    ensures
        !b,
{
    false
}

pub fn write_bool_str(hive: HKEY, path: &str, key: &str, val: bool) -> (r: Result<(), std::io::Error>)
    ensures
        r is Ok,
{
    Ok(())
}

pub fn list_values(hive: HKEY, path: &str) -> (r: Option<Vec<(String, String)>>)
    ensures
        r is None,
{
    None
}

pub fn read_binary(hive: HKEY, path: &str, key: &str) -> (r: Option<Vec<u8>>)
    ensures
        r is None,
{
    None
}

pub fn write_binary(hive: HKEY, path: &str, key: &str, val: &[u8]) -> (r: Result<(), std::io::Error>)
    ensures
        r is Ok,
{
    Ok(())
}

pub fn delete_value(hive: HKEY, path: &str, key: &str) -> (r: Result<(), std::io::Error>)
    ensures
        r is Ok,
{
    Ok(())
}

} // verus!
