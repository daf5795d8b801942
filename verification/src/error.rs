//! The ways in which a boot step can fail.

use vstd::prelude::*;

verus! {

/// A boot argument that the kernel command line has to carry.
#[derive(Clone, Copy, Debug, PartialEq, Eq, Structural)]
pub enum RequiredKey {
    SystemPartition,
    UserPartition,
}

impl RequiredKey {
    /// The key as it is written on the command line.
    pub open spec fn spec_name(self) -> Seq<char> {
        match self {
            RequiredKey::SystemPartition => "system_partition"@,
            RequiredKey::UserPartition => "user_partition"@,
        }
    }

    /// The key as it is written on the command line.
    pub fn name(self) -> (r: &'static str)
        ensures
            r@ == self.spec_name(),
    {
        match self {
            RequiredKey::SystemPartition => "system_partition",
            RequiredKey::UserPartition => "user_partition",
        }
    }
}

/// The broad class of an [`Error`].
#[derive(Clone, Copy, Debug, PartialEq, Eq, Structural)]
pub enum ErrorClass {
    /// The configuration or an argument is unusable.
    Input,
    /// Something that has to exist does not.
    NotFound,
    /// A system call failed.
    Os,
    /// A reply was handed in that does not answer the pending request.
    Protocol,
}

/// Why a step failed.
#[derive(Clone, Debug, PartialEq, Eq)]
pub enum Error {
    /// The command line lacks a required key.
    MissingKey { key: RequiredKey },
    /// A string bound for the kernel holds a NUL byte.
    InteriorNul,
    /// The image file to attach does not exist.
    BackingFileNotFound { path: String },
    /// No block device carries the partition UUID.
    PartitionNotFound { uuid: String },
    /// The directory to switch to does not exist.
    NewRootNotFound { path: String },
    /// A system call failed with this `errno`.
    Os { code: i32 },
    /// The reply does not answer the request that was pending.
    UnexpectedReply,
}

/// The mathematical content of an [`Error`].
pub enum ErrorView {
    MissingKey { key: RequiredKey },
    InteriorNul,
    BackingFileNotFound { path: Seq<char> },
    PartitionNotFound { uuid: Seq<char> },
    NewRootNotFound { path: Seq<char> },
    Os { code: i32 },
    UnexpectedReply,
}

impl View for Error {
    type V = ErrorView;

    open spec fn view(&self) -> ErrorView {
        match self {
            Error::MissingKey { key } => ErrorView::MissingKey { key: *key },
            Error::InteriorNul => ErrorView::InteriorNul,
            Error::BackingFileNotFound { path } => ErrorView::BackingFileNotFound { path: path@ },
            Error::PartitionNotFound { uuid } => ErrorView::PartitionNotFound { uuid: uuid@ },
            Error::NewRootNotFound { path } => ErrorView::NewRootNotFound { path: path@ },
            Error::Os { code } => ErrorView::Os { code: *code },
            Error::UnexpectedReply => ErrorView::UnexpectedReply,
        }
    }
}

impl ErrorView {
    /// The class an error falls in.
    pub open spec fn class(self) -> ErrorClass {
        match self {
            ErrorView::MissingKey { .. } => ErrorClass::Input,
            ErrorView::InteriorNul => ErrorClass::Input,
            ErrorView::BackingFileNotFound { .. } => ErrorClass::NotFound,
            ErrorView::PartitionNotFound { .. } => ErrorClass::NotFound,
            ErrorView::NewRootNotFound { .. } => ErrorClass::NotFound,
            ErrorView::Os { .. } => ErrorClass::Os,
            ErrorView::UnexpectedReply => ErrorClass::Protocol,
        }
    }

    /// The text that describes an error to a person. It names the key,
    /// path or UUID the error is about.
    pub open spec fn message(self) -> Seq<char> {
        match self {
            ErrorView::MissingKey { key } => "missing kernel argument: "@ + key.spec_name(),
            ErrorView::InteriorNul => "nul byte found in provided data"@,
            ErrorView::BackingFileNotFound { path } => "Backing file not found: "@ + path,
            ErrorView::PartitionNotFound { uuid } => "UUID "@ + uuid + " not found"@,
            ErrorView::NewRootNotFound { path } => "new root "@ + path + " does not exist"@,
            ErrorView::Os { code } => "os error "@ + crate::text::signed_decimal(code as int),
            ErrorView::UnexpectedReply => "reply does not answer the pending request"@,
        }
    }
}

impl Error {
    /// The class this error falls in.
    pub fn class(&self) -> (r: ErrorClass)
        ensures
            r == self@.class(),
    {
        match self {
            Error::MissingKey { .. } => ErrorClass::Input,
            Error::InteriorNul => ErrorClass::Input,
            Error::BackingFileNotFound { .. } => ErrorClass::NotFound,
            Error::PartitionNotFound { .. } => ErrorClass::NotFound,
            Error::NewRootNotFound { .. } => ErrorClass::NotFound,
            Error::Os { .. } => ErrorClass::Os,
            Error::UnexpectedReply => ErrorClass::Protocol,
        }
    }

    /// The text that describes this error to a person.
    pub fn message(&self) -> (r: String)
        ensures
            r@ == self@.message(),
    {
        match self {
            Error::MissingKey { key } => {
                let mut s = "missing kernel argument: ".to_string();
                s.append(key.name());
                s
            },
            Error::InteriorNul => "nul byte found in provided data".to_string(),
            Error::BackingFileNotFound { path } => {
                let mut s = "Backing file not found: ".to_string();
                s.append(path.as_str());
                s
            },
            Error::PartitionNotFound { uuid } => {
                let mut s = "UUID ".to_string();
                s.append(uuid.as_str());
                s.append(" not found");
                s
            },
            Error::NewRootNotFound { path } => {
                let mut s = "new root ".to_string();
                s.append(path.as_str());
                s.append(" does not exist");
                s
            },
            Error::Os { code } => {
                let mut s = "os error ".to_string();
                let digits = crate::text::signed_decimal_string(*code);
                s.append(digits.as_str());
                s
            },
            Error::UnexpectedReply => "reply does not answer the pending request".to_string(),
        }
    }
}

} // verus!
