//! What message signing needs to know: the key of a passphrase, and the timestamps of
//! signed links.
use vstd::prelude::*;
use vstd::string::*;
use vstd::utf8::*;
use crate::mission;
use crate::mission::sha256_digest;

verus! {

/// The start of 2015 in Unix time, from which signing timestamps count.
pub const MAVLINK_EPOCH_UNIX_SECS: u64 = 1_420_070_400;

/// The signing key of a passphrase: the digest of its UTF-8 bytes.
pub fn derive_signing_key(passphrase: &str) -> (r: [u8; 32])
    ensures
        r@ == mission::sha256(encode_utf8(passphrase@)),
{
    sha256_digest(passphrase.as_bytes())
}

/// The signing timestamp of a time: whole units of ten microseconds since the start of
/// 2015. A time before that counts as being in its first second.
pub open spec fn signing_ticks(unix_secs: int, subsec_micros: int) -> int {
    let secs = if unix_secs < MAVLINK_EPOCH_UNIX_SECS {
        0
    } else {
        unix_secs - MAVLINK_EPOCH_UNIX_SECS
    };
    secs * 100_000 + subsec_micros / 10
}

/// The signing timestamp of a time, given as Unix time in seconds and the microseconds of
/// the current second.
pub fn mavlink_signing_timestamp(unix_secs: u64, subsec_micros: u32) -> (r: u64)
    requires
        signing_ticks(unix_secs as int, subsec_micros as int) <= u64::MAX,
    ensures
        r == signing_ticks(unix_secs as int, subsec_micros as int),
{
    let secs_since_2015: u64 = if unix_secs < MAVLINK_EPOCH_UNIX_SECS {
        0
    } else {
        unix_secs - MAVLINK_EPOCH_UNIX_SECS
    };
    secs_since_2015 * 100_000 + (subsec_micros / 10) as u64
}

/// From 2015 on a later time never has an earlier timestamp.
pub proof fn law_timestamps_do_not_go_back(secs1: int, micros1: int, secs2: int, micros2: int)
    requires
        MAVLINK_EPOCH_UNIX_SECS <= secs1,
        0 <= micros1 < 1_000_000,
        0 <= micros2 < 1_000_000,
        secs1 < secs2 || (secs1 == secs2 && micros1 <= micros2),
    ensures
        signing_ticks(secs1, micros1) <= signing_ticks(secs2, micros2),
{
}

} // verus!
