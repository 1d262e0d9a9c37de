//! What can stop an install.

use vstd::prelude::*;
use vstd::string::StringExecFns;

verus! {

/// Why a step of an install sequence could not be carried out. Every error
/// ends the install at once: nothing is retried and nothing is undone.
#[derive(Debug, Clone, PartialEq, Eq)]
pub enum InstallError {
    /// The anchor of a replace does not occur in the target file.
    AnchorNotFound { path: String, anchor: String },
    /// The target file of an edit could not be read: the project holds no
    /// file under that path.
    FileIo { path: String },
    /// A registration collides with an entry under the same name.
    RegistrationConflict { name: String },
}

/// An [`InstallError`] with its texts as character sequences.
pub enum InstallErrorView {
    AnchorNotFound { path: Seq<char>, anchor: Seq<char> },
    FileIo { path: Seq<char> },
    RegistrationConflict { name: Seq<char> },
}

impl View for InstallError {
    type V = InstallErrorView;

    open spec fn view(&self) -> InstallErrorView {
        match self {
            InstallError::AnchorNotFound { path, anchor } => InstallErrorView::AnchorNotFound {
                path: path@,
                anchor: anchor@,
            },
            InstallError::FileIo { path } => InstallErrorView::FileIo { path: path@ },
            InstallError::RegistrationConflict { name } => InstallErrorView::RegistrationConflict {
                name: name@,
            },
        }
    }
}

impl InstallErrorView {
    /// The message that a user is shown for this error.
    pub open spec fn message(self) -> Seq<char> {
        match self {
            InstallErrorView::AnchorNotFound { path, anchor } => "anchor not found in "@ + path
                + ": "@ + anchor,
            InstallErrorView::FileIo { path } => "cannot read "@ + path,
            InstallErrorView::RegistrationConflict { name } => "registration conflict: "@ + name,
        }
    }
}

impl InstallError {
    /// The message that a user is shown for this error.
    pub fn message(&self) -> (text: String)
        ensures
            text@ == self@.message(),
    {
        match self {
            InstallError::AnchorNotFound { path, anchor } => {
                let mut text = String::from_str("anchor not found in ");
                text.append(path.as_str());
                text.append(": ");
                text.append(anchor.as_str());
                text
            },
            InstallError::FileIo { path } => {
                let mut text = String::from_str("cannot read ");
                text.append(path.as_str());
                text
            },
            InstallError::RegistrationConflict { name } => {
                let mut text = String::from_str("registration conflict: ");
                text.append(name.as_str());
                text
            },
        }
    }
}

} // verus!
