use vstd::prelude::*;

verus! {

/// Why a build run failed. Each variant carries the message of the
/// collaborator that reported it.
#[derive(Debug)]
pub enum GenericBuildError {
    /// Reading the source tree or creating the output directory failed.
    IoError(String),
    /// A call to the container engine failed, or a command it ran exited non-zero.
    DockerError(String),
    /// Streaming output between tasks failed.
    InternalSendingError(String),
    /// An installed binary could not be parsed.
    ElfError(String),
    /// A discovered path does not lie under the expected root.
    TarLayoutError(String),
    /// A collaborator's JSON answer could not be parsed.
    JsonError(String),
    /// Anything else, including a cancelled run.
    OtherError(String),
}

impl GenericBuildError {
    /// The message carried by the error, whatever its kind.
    pub open spec fn spec_message(&self) -> Seq<char> {
        match self {
            GenericBuildError::IoError(m) => m@,
            GenericBuildError::DockerError(m) => m@,
            GenericBuildError::InternalSendingError(m) => m@,
            GenericBuildError::ElfError(m) => m@,
            GenericBuildError::TarLayoutError(m) => m@,
            GenericBuildError::JsonError(m) => m@,
            GenericBuildError::OtherError(m) => m@,
        }
    }

    /// The message carried by the error.
    pub fn message(&self) -> (r: &str)
        ensures
            r@ == self.spec_message(),
    {
        match self {
            GenericBuildError::IoError(m) => m.as_str(),
            GenericBuildError::DockerError(m) => m.as_str(),
            GenericBuildError::InternalSendingError(m) => m.as_str(),
            GenericBuildError::ElfError(m) => m.as_str(),
            GenericBuildError::TarLayoutError(m) => m.as_str(),
            GenericBuildError::JsonError(m) => m.as_str(),
            GenericBuildError::OtherError(m) => m.as_str(),
        }
    }
}

} // verus!
