//! The strictness levels a traversal can run under. A level only ever
//! relaxes verification: it never changes what an entry decodes to, only
//! which checks run and whether a decode failure aborts the traversal.

use vstd::prelude::*;

verus! {

/// The four strictness levels, from skipping the whole-file checksum down
/// to tolerating undecodable entries.
#[derive(Clone, Copy, Debug, PartialEq, Eq, Structural)]
pub enum SafetyCheck {
    /// Skip the archive's trailing whole-file checksum; verify each object.
    SkipFileChecksumVerification,
    /// Skip the file checksum and the per-object identity verification.
    SkipFileAndObjectChecksumVerification,
    /// Skip both checksums and, additionally, report undecodable entries as
    /// skipped instead of aborting the traversal.
    SkipFileAndObjectChecksumVerificationAndNoAbortOnDecodeError,
    /// Verify everything and abort on any failure.
    All,
}

impl SafetyCheck {
    /// The names under which callers select a level.
    pub fn variants() -> (r: [&'static str; 4])
        ensures
            r@.len() == 4,
            r@[0]@ == "all"@,
            r@[1]@ == "skip-file-checksum"@,
            r@[2]@ == "skip-file-and-object-checksum"@,
            r@[3]@ == "skip-file-and-object-checksum-and-no-abort-on-decode"@,
    {
        [
            "all",
            "skip-file-checksum",
            "skip-file-and-object-checksum",
            "skip-file-and-object-checksum-and-no-abort-on-decode",
        ]
    }

    /// Whether this level verifies the archive's trailing checksum before
    /// the traversal begins.
    pub open spec fn spec_verifies_file_checksum(self) -> bool {
        self == SafetyCheck::All
    }

    /// Whether this level verifies each decoded object's recomputed
    /// identity against the one the index expects.
    pub open spec fn spec_verifies_object_checksum(self) -> bool {
        self == SafetyCheck::All || self == SafetyCheck::SkipFileChecksumVerification
    }

    /// Whether this level turns a per-entry decode failure into a skipped,
    /// reported object instead of aborting the whole traversal.
    pub open spec fn spec_tolerates_decode_errors(self) -> bool {
        self == SafetyCheck::SkipFileAndObjectChecksumVerificationAndNoAbortOnDecodeError
    }

    /// See `spec_verifies_file_checksum`.
    pub fn verifies_file_checksum(self) -> (r: bool)
        ensures
            r == self.spec_verifies_file_checksum(),
    {
        matches!(self, SafetyCheck::All)
    }

    /// See `spec_verifies_object_checksum`.
    pub fn verifies_object_checksum(self) -> (r: bool)
        ensures
            r == self.spec_verifies_object_checksum(),
    {
        matches!(self, SafetyCheck::All | SafetyCheck::SkipFileChecksumVerification)
    }

    /// See `spec_tolerates_decode_errors`.
    pub fn tolerates_decode_errors(self) -> (r: bool)
        ensures
            r == self.spec_tolerates_decode_errors(),
    {
        matches!(self, SafetyCheck::SkipFileAndObjectChecksumVerificationAndNoAbortOnDecodeError)
    }
}

} // verus!
