//! Byte-count conversions used by the memory reporting paths.

use vstd::prelude::*;

verus! {

/// Bytes expressed in whole kibibytes.
pub fn convert_bytes_to_kb(bytes: u64) -> (r: u64)
    ensures
        r == bytes / 1024,
{
    bytes / 1024
}

/// Bytes expressed in whole mebibytes.
pub fn convert_bytes_to_mb(bytes: u64) -> (r: u64)
    ensures
        r == bytes / 1024 / 1024,
{
    convert_bytes_to_kb(bytes) / 1024
}

/// Bytes expressed in whole gibibytes.
pub fn convert_bytes_to_gb(bytes: u64) -> (r: u64)
    ensures
        r == bytes / 1024 / 1024 / 1024,
{
    convert_bytes_to_mb(bytes) / 1024
}

/// Bytes expressed in whole tebibytes.
pub fn convert_bytes_to_tb(bytes: u64) -> (r: u64)
    ensures
        r == bytes / 1024 / 1024 / 1024 / 1024,
{
    convert_bytes_to_gb(bytes) / 1024
}

/// Bytes expressed in the largest unit that keeps the value nonzero,
/// together with that unit's name.
pub fn convert_bytes_to_any(bytes: u64) -> (r: (u64, &'static str))
    ensures
        bytes < 1024 ==> r.0 == bytes && r.1@ == "B"@,
        1024 <= bytes < 1024 * 1024 ==> r.0 == bytes / 1024 && r.1@ == "KiB"@,
        1024 * 1024 <= bytes < 1024 * 1024 * 1024 ==> r.0 == bytes / 1024 / 1024 && r.1@
            == "MiB"@,
        1024 * 1024 * 1024 <= bytes < 1024 * 1024 * 1024 * 1024 ==> r.0 == bytes / 1024 / 1024
            / 1024 && r.1@ == "GiB"@,
        bytes >= 1024 * 1024 * 1024 * 1024 ==> r.0 == bytes / 1024 / 1024 / 1024 / 1024 && r.1@
            == "TiB"@,
{
    if bytes < 1024 {
        (bytes, "B")
    } else if bytes < 1024 * 1024 {
        (convert_bytes_to_kb(bytes), "KiB")
    } else if bytes < 1024 * 1024 * 1024 {
        (convert_bytes_to_mb(bytes), "MiB")
    } else if bytes < 1024 * 1024 * 1024 * 1024 {
        (convert_bytes_to_gb(bytes), "GiB")
    } else {
        (convert_bytes_to_tb(bytes), "TiB")
    }
}

} // verus!
