use vstd::prelude::*;
use vstd::string::StringExecFns;

verus! {

/// A build identifier: sixteen bytes packed big-endian into two words,
/// `hi` holding bytes 0..8 and `lo` holding bytes 8..16.
#[derive(Clone, Copy, Debug, PartialEq, Eq, Structural)]
pub struct BuildId {
    pub hi: u64,
    pub lo: u64,
}

impl BuildId {
    pub open spec fn zero_spec() -> BuildId {
        BuildId { hi: 0, lo: 0 }
    }

    pub fn zero() -> (r: BuildId)
        ensures
            r == BuildId::zero_spec(),
    {
        BuildId { hi: 0, lo: 0 }
    }
}

/// The failure taxonomy of the whole pipeline.
///
/// `WrongMagic` and `WrongVersion` reject a crash-record envelope.
/// `ArchiveError` means the symbol archive could not be opened or read.
/// `BundleIdentityError` means a bundle's identity metadata could not be
/// parsed; it is fatal to the whole load.
/// `ObjectParseError` means a debug object's container format was not
/// recognized.
/// `ResolutionError` is a query-time failure inside the debug tables; it
/// carries the offending build identifier and the probe address.
#[derive(Clone, Copy, Debug, PartialEq, Eq, Structural)]
pub enum ErrorKind {
    WrongMagic,
    WrongVersion,
    ArchiveError,
    BundleIdentityError,
    ObjectParseError,
    ResolutionError(BuildId, u64),
}

impl ErrorKind {
    /// A short human-readable description of the error.
    pub fn message(&self) -> (r: String)
        ensures
            r@.len() > 0,
    {
        let r = match self {
            ErrorKind::WrongMagic => String::from_str("wrong magic in crash record header"),
            ErrorKind::WrongVersion => String::from_str("wrong version in crash record header"),
            ErrorKind::ArchiveError => String::from_str("error loading symbol archive"),
            ErrorKind::BundleIdentityError => String::from_str(
                "error parsing bundle identity metadata",
            ),
            ErrorKind::ObjectParseError => String::from_str("unrecognized debug object format"),
            ErrorKind::ResolutionError(_, _) => String::from_str(
                "error looking up address in debug tables",
            ),
        };
        proof {
            reveal_strlit("wrong magic in crash record header");
            reveal_strlit("wrong version in crash record header");
            reveal_strlit("error loading symbol archive");
            reveal_strlit("error parsing bundle identity metadata");
            reveal_strlit("unrecognized debug object format");
            reveal_strlit("error looking up address in debug tables");
        }
        r
    }
}

} // verus!
