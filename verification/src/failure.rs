//! Failures of a pipeline step and the messages they are reported with.
//!
//! Every failure names the step that failed and carries the cause that the
//! host observed. The message is the step's fixed prefix followed by the
//! cause; callers treat it as an opaque, human-readable diagnostic.

use vstd::prelude::*;
use vstd::string::StringExecFns;

verus! {

/// The step of the pipeline at which an operation failed.
#[derive(Clone, Copy, Debug, PartialEq, Eq, Structural)]
pub enum Stage {
    /// Sending the request or receiving the response head.
    Request,
    /// Creating the temporary archive file.
    CreateTempFile,
    /// Receiving the next chunk of the response body.
    ReadChunk,
    /// Appending a chunk to the temporary archive file.
    WriteChunk,
    /// Opening the archive file for extraction.
    OpenArchive,
    /// Removing the stale target directory.
    RemoveTarget,
    /// Creating the empty target directory.
    CreateTarget,
    /// Reading the archive's index.
    ReadArchive,
    /// Reading one entry of the archive.
    ReadEntry,
    /// Creating the directory of a directory entry.
    CreateDirectory,
    /// Creating the parent directory of a file entry.
    CreateParent,
    /// Creating the output file of a file entry.
    CreateFile,
    /// Copying the bytes of a file entry into its output file.
    CopyContent,
    /// Removing the temporary archive file after extraction.
    RemoveTempFile,
}

impl Stage {
    /// The text that opens the message of a failure at this stage.
    pub open spec fn prefix(self) -> Seq<char> {
        match self {
            Stage::Request => "Failed to download file: "@,
            Stage::CreateTempFile => "Failed to create temp file: "@,
            Stage::ReadChunk => "Failed to read chunk: "@,
            Stage::WriteChunk => "Failed to write chunk to file: "@,
            Stage::OpenArchive => "Failed to open temp file: "@,
            Stage::RemoveTarget => "Failed to remove target directory: "@,
            Stage::CreateTarget => "Failed to create target directory: "@,
            Stage::ReadArchive => "Failed to read zip archive: "@,
            Stage::ReadEntry => "Failed to read file from zip: "@,
            Stage::CreateDirectory => "Failed to create directory: "@,
            Stage::CreateParent => "Failed to create parent directory: "@,
            Stage::CreateFile => "Failed to create output file: "@,
            Stage::CopyContent => "Failed to copy file content: "@,
            Stage::RemoveTempFile => "Failed to remove temp file: "@,
        }
    }

    /// Computes [`Stage::prefix`].
    pub fn prefix_text(self) -> (text: &'static str)
        ensures
            text@ == self.prefix(),
    {
        match self {
            Stage::Request => "Failed to download file: ",
            Stage::CreateTempFile => "Failed to create temp file: ",
            Stage::ReadChunk => "Failed to read chunk: ",
            Stage::WriteChunk => "Failed to write chunk to file: ",
            Stage::OpenArchive => "Failed to open temp file: ",
            Stage::RemoveTarget => "Failed to remove target directory: ",
            Stage::CreateTarget => "Failed to create target directory: ",
            Stage::ReadArchive => "Failed to read zip archive: ",
            Stage::ReadEntry => "Failed to read file from zip: ",
            Stage::CreateDirectory => "Failed to create directory: ",
            Stage::CreateParent => "Failed to create parent directory: ",
            Stage::CreateFile => "Failed to create output file: ",
            Stage::CopyContent => "Failed to copy file content: ",
            Stage::RemoveTempFile => "Failed to remove temp file: ",
        }
    }
}

/// A failed step together with the cause that the host observed.
#[derive(Clone, Debug, PartialEq, Eq)]
pub struct Failure {
    pub stage: Stage,
    pub cause: String,
}

impl Failure {
    /// The message of the failure: the stage's prefix, then the cause.
    pub open spec fn text(self) -> Seq<char> {
        self.stage.prefix() + self.cause@
    }

    /// Renders the failure as the string that is handed to the caller.
    pub fn message(&self) -> (m: String)
        ensures
            m@ == self.text(),
    {
        let mut m = String::from_str(self.stage.prefix_text());
        m.append(self.cause.as_str());
        m
    }
}

} // verus!
