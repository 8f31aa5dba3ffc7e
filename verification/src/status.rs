//! Job lifecycle statuses and output-line phase labels.

use vstd::prelude::*;

verus! {

/// Lifecycle status of one queued download job.
///
/// The only legal transitions are
/// `Queued -> Pending -> Downloading -> (Completed | Error)`;
/// `Completed` and `Error` are terminal.
#[derive(Clone, Copy, Debug, PartialEq, Eq, Structural)]
pub enum JobStatus {
    Queued,
    Pending,
    Downloading,
    Completed,
    Error,
}

impl JobStatus {
    /// A terminal job never transitions again; it can only be removed.
    pub open spec fn is_terminal(self) -> bool {
        self == JobStatus::Completed || self == JobStatus::Error
    }

    /// An active job is the one currently owned by the scheduler worker.
    pub open spec fn is_active(self) -> bool {
        self == JobStatus::Pending || self == JobStatus::Downloading
    }

    /// Executable test for [`JobStatus::is_terminal`].
    pub fn terminal(self) -> (r: bool)
        ensures
            r == self.is_terminal(),
    {
        match self {
            JobStatus::Completed => true,
            JobStatus::Error => true,
            _ => false,
        }
    }

    /// Executable test for [`JobStatus::is_active`].
    pub fn active(self) -> (r: bool)
        ensures
            r == self.is_active(),
    {
        match self {
            JobStatus::Pending => true,
            JobStatus::Downloading => true,
            _ => false,
        }
    }

    /// The wire label used for this status in events and snapshots.
    pub fn label(self) -> (r: String)
        ensures
            self == JobStatus::Queued ==> r@ == "queued"@,
            self == JobStatus::Pending ==> r@ == "pending"@,
            self == JobStatus::Downloading ==> r@ == "downloading"@,
            self == JobStatus::Completed ==> r@ == "completed"@,
            self == JobStatus::Error ==> r@ == "error"@,
    {
        match self {
            JobStatus::Queued => String::from_str("queued"),
            JobStatus::Pending => String::from_str("pending"),
            JobStatus::Downloading => String::from_str("downloading"),
            JobStatus::Completed => String::from_str("completed"),
            JobStatus::Error => String::from_str("error"),
        }
    }
}

/// Phase of the external downloader's pipeline, inferred from one output line.
#[derive(Clone, Copy, Debug, PartialEq, Eq, Structural)]
pub enum Phase {
    FetchingInfo,
    PreparingDownload,
    Downloading,
    ExtractingAudio,
    AddingMetadata,
    ConvertingThumbnail,
    EmbeddingThumbnail,
}

impl Phase {
    /// The human-readable label shown for this phase.
    pub fn label(self) -> (r: String)
        ensures
            self == Phase::FetchingInfo ==> r@ == "Fetching Info"@,
            self == Phase::PreparingDownload ==> r@ == "Preparing Download"@,
            self == Phase::Downloading ==> r@ == "Downloading"@,
            self == Phase::ExtractingAudio ==> r@ == "Extracting Audio"@,
            self == Phase::AddingMetadata ==> r@ == "Adding Metadata"@,
            self == Phase::ConvertingThumbnail ==> r@ == "Converting Thumbnail"@,
            self == Phase::EmbeddingThumbnail ==> r@ == "Embedding Thumbnail"@,
    {
        match self {
            Phase::FetchingInfo => String::from_str("Fetching Info"),
            Phase::PreparingDownload => String::from_str("Preparing Download"),
            Phase::Downloading => String::from_str("Downloading"),
            Phase::ExtractingAudio => String::from_str("Extracting Audio"),
            Phase::AddingMetadata => String::from_str("Adding Metadata"),
            Phase::ConvertingThumbnail => String::from_str("Converting Thumbnail"),
            Phase::EmbeddingThumbnail => String::from_str("Embedding Thumbnail"),
        }
    }
}

} // verus!
