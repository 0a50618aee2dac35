//! Protocol versions and the compatibility rule between them.

use vstd::prelude::*;

verus! {

/// A protocol version in MAJOR.MINOR form.
///
/// A change of the major number breaks the message layout; a change of the
/// minor number only adds to it.
#[derive(Debug, Clone, Copy, PartialEq, Eq, Structural)]
pub struct ProtocolVersion {
    pub major: u8,
    pub minor: u8,
}

impl ProtocolVersion {
    /// The version that this library speaks, as a ghost value: 1.0.
    pub open spec fn spec_current() -> ProtocolVersion {
        ProtocolVersion { major: 1, minor: 0 }
    }

    /// The version that this library speaks: 1.0.
    #[verifier::when_used_as_spec(spec_current)]
    pub fn current() -> (v: ProtocolVersion)
        ensures
            v == Self::spec_current(),
    {
        ProtocolVersion { major: 1, minor: 0 }
    }

    /// The compatibility rule: same major line, and `self` at least as new as `other`.
    pub open spec fn compatible_with(self, other: ProtocolVersion) -> bool {
        self.major == other.major && self.minor >= other.minor
    }

    /// Compatibility orders the versions of one major line: every version is
    /// compatible with itself, compatibility carries over from one version
    /// to the next, two versions compatible with each other are the same,
    /// and of two versions of one major line one is compatible with the other.
    pub proof fn lemma_compatibility_is_an_order(
        a: ProtocolVersion,
        b: ProtocolVersion,
        c: ProtocolVersion,
    )
        ensures
            a.compatible_with(a),
            a.compatible_with(b) && b.compatible_with(c) ==> a.compatible_with(c),
            a.compatible_with(b) && b.compatible_with(a) ==> a == b,
            a.major == b.major ==> a.compatible_with(b) || b.compatible_with(a),
            a.major != b.major ==> !a.compatible_with(b),
    {
    }

    /// Whether this version understands everything `other` can produce.
    pub fn is_compatible_with(&self, other: &ProtocolVersion) -> (ok: bool)
        ensures
            ok == self.compatible_with(*other),
    {
        self.major == other.major && self.minor >= other.minor
    }
}

} // verus!
