//! Stages and failure classes of image import, with their stable texts.

use vstd::prelude::*;

verus! {

#[derive(Debug, Clone, Copy, PartialEq, Eq, Structural, PartialOrd, Ord, Hash)]
pub enum ImageImportStage {
    Admission,
    SourceOpen,
    SourceRead,
    Header,
    Metadata,
    Decode,
    Finalize,
    Publication,
}

impl ImageImportStage {
    pub open spec fn text(self) -> &'static str {
        match self {
            ImageImportStage::Admission => "admission",
            ImageImportStage::SourceOpen => "source-open",
            ImageImportStage::SourceRead => "source-read",
            ImageImportStage::Header => "header",
            ImageImportStage::Metadata => "metadata",
            ImageImportStage::Decode => "decode",
            ImageImportStage::Finalize => "finalize",
            ImageImportStage::Publication => "publication",
        }
    }

    pub fn as_str(self) -> (r: &'static str)
        ensures
            r == self.text(),
    {
        match self {
            ImageImportStage::Admission => "admission",
            ImageImportStage::SourceOpen => "source-open",
            ImageImportStage::SourceRead => "source-read",
            ImageImportStage::Header => "header",
            ImageImportStage::Metadata => "metadata",
            ImageImportStage::Decode => "decode",
            ImageImportStage::Finalize => "finalize",
            ImageImportStage::Publication => "publication",
        }
    }
}

#[derive(Debug, Clone, Copy, PartialEq, Eq, Structural)]
pub enum ImageUnsupportedFeature {
    Animation,
    Interlacing,
    EmbeddedMetadata,
    OutputColorModel,
}

impl ImageUnsupportedFeature {
    pub open spec fn text(self) -> &'static str {
        match self {
            ImageUnsupportedFeature::Animation => "animation",
            ImageUnsupportedFeature::Interlacing => "interlacing",
            ImageUnsupportedFeature::EmbeddedMetadata => "embedded-metadata",
            ImageUnsupportedFeature::OutputColorModel => "output-color-model",
        }
    }

    pub fn as_str(self) -> (r: &'static str)
        ensures
            r == self.text(),
    {
        match self {
            ImageUnsupportedFeature::Animation => "animation",
            ImageUnsupportedFeature::Interlacing => "interlacing",
            ImageUnsupportedFeature::EmbeddedMetadata => "embedded-metadata",
            ImageUnsupportedFeature::OutputColorModel => "output-color-model",
        }
    }
}

#[derive(Debug, Clone, Copy, PartialEq, Eq, Structural)]
pub enum ImageSourceFailureKind {
    InvalidLogicalPath,
    NotFound,
    PermissionDenied,
    AllocationFailed,
    Unsupported,
    AuthorityRejected,
    Io,
}

impl ImageSourceFailureKind {
    pub open spec fn text(self) -> &'static str {
        match self {
            ImageSourceFailureKind::InvalidLogicalPath => "invalid-logical-path",
            ImageSourceFailureKind::NotFound => "not-found",
            ImageSourceFailureKind::PermissionDenied => "permission-denied",
            ImageSourceFailureKind::AllocationFailed => "allocation-failed",
            ImageSourceFailureKind::Unsupported => "unsupported",
            ImageSourceFailureKind::AuthorityRejected => "authority-rejected",
            ImageSourceFailureKind::Io => "io",
        }
    }

    pub fn as_str(self) -> (r: &'static str)
        ensures
            r == self.text(),
    {
        match self {
            ImageSourceFailureKind::InvalidLogicalPath => "invalid-logical-path",
            ImageSourceFailureKind::NotFound => "not-found",
            ImageSourceFailureKind::PermissionDenied => "permission-denied",
            ImageSourceFailureKind::AllocationFailed => "allocation-failed",
            ImageSourceFailureKind::Unsupported => "unsupported",
            ImageSourceFailureKind::AuthorityRejected => "authority-rejected",
            ImageSourceFailureKind::Io => "io",
        }
    }
}

#[derive(Debug, Clone, Copy, PartialEq, Eq, Structural)]
pub enum ImagePngFailureKind {
    Truncated,
    InvalidData,
    DecoderContract,
    AllocationFailed,
}

impl ImagePngFailureKind {
    pub open spec fn text(self) -> &'static str {
        match self {
            ImagePngFailureKind::Truncated => "truncated",
            ImagePngFailureKind::InvalidData => "invalid-data",
            ImagePngFailureKind::DecoderContract => "decoder-contract",
            ImagePngFailureKind::AllocationFailed => "allocation-failed",
        }
    }

    pub fn as_str(self) -> (r: &'static str)
        ensures
            r == self.text(),
    {
        match self {
            ImagePngFailureKind::Truncated => "truncated",
            ImagePngFailureKind::InvalidData => "invalid-data",
            ImagePngFailureKind::DecoderContract => "decoder-contract",
            ImagePngFailureKind::AllocationFailed => "allocation-failed",
        }
    }
}

#[derive(Debug, Clone, Copy, PartialEq, Eq, Structural)]
pub enum ImagePublicationFailureKind {
    AlreadyLoaded,
    SlotChanged,
    TargetMismatch,
    StateChanged,
    ReloadValueMissing,
    ReloadValueChanged,
    UnknownAsset,
    VersionExhausted,
    Stale,
}

impl ImagePublicationFailureKind {
    pub open spec fn text(self) -> &'static str {
        match self {
            ImagePublicationFailureKind::AlreadyLoaded => "already-loaded",
            ImagePublicationFailureKind::SlotChanged => "slot-changed",
            ImagePublicationFailureKind::TargetMismatch => "target-mismatch",
            ImagePublicationFailureKind::StateChanged => "state-changed",
            ImagePublicationFailureKind::ReloadValueMissing => "reload-value-missing",
            ImagePublicationFailureKind::ReloadValueChanged => "reload-value-changed",
            ImagePublicationFailureKind::UnknownAsset => "unknown-asset",
            ImagePublicationFailureKind::VersionExhausted => "version-exhausted",
            ImagePublicationFailureKind::Stale => "stale",
        }
    }

    pub fn as_str(self) -> (r: &'static str)
        ensures
            r == self.text(),
    {
        match self {
            ImagePublicationFailureKind::AlreadyLoaded => "already-loaded",
            ImagePublicationFailureKind::SlotChanged => "slot-changed",
            ImagePublicationFailureKind::TargetMismatch => "target-mismatch",
            ImagePublicationFailureKind::StateChanged => "state-changed",
            ImagePublicationFailureKind::ReloadValueMissing => "reload-value-missing",
            ImagePublicationFailureKind::ReloadValueChanged => "reload-value-changed",
            ImagePublicationFailureKind::UnknownAsset => "unknown-asset",
            ImagePublicationFailureKind::VersionExhausted => "version-exhausted",
            ImagePublicationFailureKind::Stale => "stale",
        }
    }

    /// Conflicts with a newer or different publication: everything but a target mismatch,
    /// an unknown asset and version exhaustion.
    pub fn is_stale_conflict(self) -> (r: bool)
        ensures
            r == !(self is TargetMismatch || self is UnknownAsset || self is VersionExhausted),
    {
        match self {
            ImagePublicationFailureKind::AlreadyLoaded
            | ImagePublicationFailureKind::SlotChanged
            | ImagePublicationFailureKind::StateChanged
            | ImagePublicationFailureKind::ReloadValueMissing
            | ImagePublicationFailureKind::ReloadValueChanged
            | ImagePublicationFailureKind::Stale => true,
            _ => false,
        }
    }
}

} // verus!
