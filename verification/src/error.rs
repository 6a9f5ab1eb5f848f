//! What can go wrong while the manifest is loaded or a request is served.

use vstd::prelude::*;
use vstd::string::*;

verus! {

/// The errors of the service. Where one comes from the file system or from a
/// search, it carries the text of what was reported there.
#[derive(Debug)]
pub enum SpaError {
    /// A file that was found could not be read.
    FileSystemError(String),
    /// A file could not be handed to the client.
    ServeFileError(String),
    /// No build manifest lies under the static resources.
    BuildManifestNotFound,
    /// A path could not be turned into a search pattern.
    PathConversionError,
    /// A search pattern was malformed.
    GlobPatternError(String),
}

/// An error with its texts as character sequences.
pub enum SpaErrorView {
    FileSystemError(Seq<char>),
    ServeFileError(Seq<char>),
    BuildManifestNotFound,
    PathConversionError,
    GlobPatternError(Seq<char>),
}

impl View for SpaError {
    type V = SpaErrorView;

    open spec fn view(&self) -> SpaErrorView {
        match self {
            SpaError::FileSystemError(reason) => SpaErrorView::FileSystemError(reason@),
            SpaError::ServeFileError(reason) => SpaErrorView::ServeFileError(reason@),
            SpaError::BuildManifestNotFound => SpaErrorView::BuildManifestNotFound,
            SpaError::PathConversionError => SpaErrorView::PathConversionError,
            SpaError::GlobPatternError(reason) => SpaErrorView::GlobPatternError(reason@),
        }
    }
}

/// The line that describes `error` to a reader.
pub open spec fn error_message(error: SpaErrorView) -> Seq<char> {
    match error {
        SpaErrorView::FileSystemError(reason) => "File system error: "@ + reason,
        SpaErrorView::ServeFileError(reason) => "Failed to serve file: "@ + reason,
        SpaErrorView::BuildManifestNotFound => "Build manifest not found"@,
        SpaErrorView::PathConversionError => "Path conversion error"@,
        SpaErrorView::GlobPatternError(reason) => "Glob pattern error: "@ + reason,
    }
}

impl SpaError {
    /// The line that describes this error to a reader.
    pub fn message(&self) -> (text: String)
        ensures
            text@ == error_message(self@),
    {
        match self {
            SpaError::FileSystemError(reason) => {
                let mut text = "File system error: ".to_owned();
                text.append(reason.as_str());
                text
            },
            SpaError::ServeFileError(reason) => {
                let mut text = "Failed to serve file: ".to_owned();
                text.append(reason.as_str());
                text
            },
            SpaError::BuildManifestNotFound => "Build manifest not found".to_owned(),
            SpaError::PathConversionError => "Path conversion error".to_owned(),
            SpaError::GlobPatternError(reason) => {
                let mut text = "Glob pattern error: ".to_owned();
                text.append(reason.as_str());
                text
            },
        }
    }
}

} // verus!
