use vstd::prelude::*;

use crate::error::GenericBuildError;

verus! {

/// The arguments handed to the image build: the extension's name and version.
pub struct BuildArgs {
    pub extension_name: String,
    pub extension_version: String,
}

/// The key under which the extension name is passed to the image build.
pub const EXTENSION_NAME_KEY: &'static str = "EXTENSION_NAME";

/// The key under which the extension version is passed to the image build.
pub const EXTENSION_VERSION_KEY: &'static str = "EXTENSION_VERSION";

/// Builds the argument map for the image build. Both values must be non-empty.
pub fn assemble_build_args(name: &str, version: &str) -> (r: Result<BuildArgs, GenericBuildError>)
    ensures
        r is Ok <==> (name@.len() > 0 && version@.len() > 0),
        r matches Ok(a) ==> a.extension_name@ == name@ && a.extension_version@ == version@,
        r matches Err(e) ==> e is OtherError,
{
    if name.unicode_len() == 0 || version.unicode_len() == 0 {
        return Err(GenericBuildError::OtherError(String::from_str("extension name and version must be non-empty")));
    }
    Ok(BuildArgs { extension_name: String::from_str(name), extension_version: String::from_str(version) })
}

impl BuildArgs {
    /// The map as (key, value) pairs: exactly the name entry, then the version entry.
    pub fn entries(&self) -> (r: Vec<(String, String)>)
        ensures
            r@.len() == 2,
            r@[0].0@ == EXTENSION_NAME_KEY@,
            r@[0].1@ == self.extension_name@,
            r@[1].0@ == EXTENSION_VERSION_KEY@,
            r@[1].1@ == self.extension_version@,
    {
        let mut r: Vec<(String, String)> = Vec::new();
        r.push((String::from_str(EXTENSION_NAME_KEY), self.extension_name.clone()));
        r.push((String::from_str(EXTENSION_VERSION_KEY), self.extension_version.clone()));
        r
    }
}

} // verus!
