use vstd::prelude::*;

pub mod error;
pub mod machine;
pub mod report;
pub mod textfmt;
pub mod objparse;
pub mod symbolicate;
pub mod text;

use crate::error::ErrorKind;

verus! {

/// The seven magic bytes that open every crash-record envelope: `plcrash`.
pub open spec fn spec_magic() -> Seq<u8> {
    seq![0x70u8, 0x6cu8, 0x63u8, 0x72u8, 0x61u8, 0x73u8, 0x68u8]
}

/// The byte of the magic at position `i`.
fn magic_byte(i: usize) -> (r: u8)
    requires
        i < 7,
    ensures
        r == spec_magic()[i as int],
{
    let bytes: [u8; 7] = [0x70, 0x6c, 0x63, 0x72, 0x61, 0x73, 0x68];
    bytes[i]
}

/// What decoding an envelope yields: the payload bytes after the 8-byte
/// header, or the exact error.  The magic must match on the first seven
/// bytes; the eighth byte is the version, and only version 1 is accepted.
pub open spec fn spec_read_report(data: Seq<u8>) -> Result<Seq<u8>, ErrorKind> {
    if !(data.len() >= 7 && data.subrange(0, 7) == spec_magic()) {
        Err(ErrorKind::WrongMagic)
    } else if !(data.len() >= 8 && data[7] == 1) {
        Err(ErrorKind::WrongVersion)
    } else {
        Ok(data.skip(8))
    }
}

/// Check the crash-record envelope and hand back the payload that follows
/// the 8-byte header.  The payload is a structured message in an externally
/// defined schema; turning it into a `CrashReport` value is the caller's
/// concern.
pub fn read_report(data: &[u8]) -> (r: Result<Vec<u8>, ErrorKind>)
    ensures
        match r {
            Ok(payload) => spec_read_report(data@) == Ok::<Seq<u8>, ErrorKind>(payload@),
            Err(e) => spec_read_report(data@) == Err::<Seq<u8>, ErrorKind>(e),
        },
{
    if data.len() < 7 {
        return Err(ErrorKind::WrongMagic);
    }
    let mut i: usize = 0;
    while i < 7
        invariant
            i <= 7,
            data@.len() >= 7,
            forall|j: int| 0 <= j < i ==> data@[j] == spec_magic()[j],
        decreases 7 - i,
    {
        if data[i] != magic_byte(i) {
            proof {
                assert(data@.subrange(0, 7)[i as int] != spec_magic()[i as int]);
                assert(data@.subrange(0, 7) != spec_magic());
            }
            return Err(ErrorKind::WrongMagic);
        }
        i = i + 1;
    }
    proof {
        assert(data@.subrange(0, 7) =~= spec_magic());
    }
    if data.len() < 8 || data[7] != 1 {
        return Err(ErrorKind::WrongVersion);
    }
    let mut payload: Vec<u8> = Vec::new();
    let mut k: usize = 8;
    while k < data.len()
        invariant
            8 <= k <= data@.len(),
            payload@ =~= data@.subrange(8, k as int),
        decreases data@.len() - k,
    {
        payload.push(data[k]);
        k = k + 1;
    }
    proof {
        assert(payload@ =~= data@.skip(8));
    }
    Ok(payload)
}

} // verus!
