use vstd::prelude::*;

use crate::args::{assemble_build_args, BuildArgs, EXTENSION_NAME_KEY, EXTENSION_VERSION_KEY};
use crate::error::GenericBuildError;
use crate::license::{is_under_root, normalize_licenses, relative_to_root};
use crate::pipeline::{is_terminal, phase_in_range, spec_next, Phase};

verus! {

/// The directory inside the container that receives the license files.
pub const LICENSE_DIR: &'static str = "/usr/licenses/";

/// The environment under which license files are copied: existing files are
/// kept as numbered backups.
pub const NUMBERED_BACKUP_ENV: &'static str = "VERSION_CONTROL=numbered";

/// Everything one build run is asked to do.
pub struct BuildRequest {
    /// The Dockerfile of the builder image.
    pub dockerfile: String,
    /// The target platform, if one is forced.
    pub platform: Option<String>,
    /// The install command, one token per argument.
    pub install_command: Vec<String>,
    /// The source tree, handed to the image build as its context.
    pub source_path: String,
    /// The local directory that receives the packaged files.
    pub output_path: String,
    pub extension_name: String,
    pub extension_version: String,
}

/// The texts of a sequence of strings.
pub open spec fn texts(v: Seq<String>) -> Seq<Seq<char>> {
    v.map_values(|s: String| s@)
}

/// The text of an optional string.
pub open spec fn opt_text(o: Option<String>) -> Option<Seq<char>> {
    match o {
        Some(s) => Some(s@),
        None => None,
    }
}

/// The command that creates the license directory.
pub open spec fn spec_mkdir_argv() -> Seq<Seq<char>> {
    seq!["mkdir"@, LICENSE_DIR@]
}

/// The command that copies one license file into the license directory,
/// keeping any file already there as a numbered backup.
pub open spec fn spec_copy_argv(license: Seq<char>) -> Seq<Seq<char>> {
    seq!["cp"@, "--backup"@, "--verbose"@, license, LICENSE_DIR@]
}

/// The engine call a run asks for next.
pub enum EngineAction {
    /// Build the builder image from the Dockerfile, the context directory and
    /// the build arguments.
    BuildImage {
        platform: Option<String>,
        dockerfile: String,
        context: String,
        args: Vec<(String, String)>,
    },
    /// Start a long-lived container from the image.
    StartContainer { platform: Option<String>, image: String },
    /// Run a command inside the container, with optional environment overrides.
    Exec { container: String, argv: Vec<String>, env: Option<Vec<String>> },
    /// Create the local output directory, with its parents, if absent.
    CreateOutputDir { path: String },
    /// Copy every file changed in the container into the output directory.
    Package { container: String, output: String, name: String, version: String },
    /// The run has ended: no further call.
    Finish,
}

/// A copy of an optional string.
fn copy_opt(o: &Option<String>) -> (r: Option<String>)
    ensures
        opt_text(r) == opt_text(*o),
{
    match o {
        Some(s) => Some(s.clone()),
        None => None,
    }
}

/// A copy of a sequence of strings.
fn copy_strings(v: &Vec<String>) -> (r: Vec<String>)
    ensures
        texts(r@) == texts(v@),
{
    let mut r: Vec<String> = Vec::new();
    let mut i: usize = 0;
    while i < v.len()
        invariant
            i <= v@.len(),
            r@.len() == i,
            forall|j: int| 0 <= j < i ==> #[trigger] r@[j]@ == v@[j]@,
        decreases v@.len() - i,
    {
        r.push(v[i].clone());
        i = i + 1;
    }
    assert(texts(r@) =~= texts(v@));
    r
}

/// The build arguments as handed to the image build.
pub open spec fn args_ok(entries: Seq<(String, String)>, args: BuildArgs) -> bool {
    &&& entries.len() == 2
    &&& entries[0].0@ == EXTENSION_NAME_KEY@
    &&& entries[0].1@ == args.extension_name@
    &&& entries[1].0@ == EXTENSION_VERSION_KEY@
    &&& entries[1].1@ == args.extension_version@
}

/// Two optional strings hold the same text, the second being the running container.
pub open spec fn is_container(c: String, container: Option<String>) -> bool {
    container matches Some(k) && c@ == k@
}

/// One run of the build: the request, the normalised license paths, the step
/// reached, and what the engine has handed back so far.
pub struct BuildPipeline {
    pub request: BuildRequest,
    pub args: BuildArgs,
    pub licenses: Vec<String>,
    pub phase: Phase,
    pub image: Option<String>,
    pub container: Option<String>,
    pub error: Option<GenericBuildError>,
}

impl BuildPipeline {
    /// The run's bookkeeping agrees with its step: a license step names a
    /// license, an image exists once built, a container once started, and an
    /// error is held exactly when the run failed.
    pub open spec fn wf(&self) -> bool {
        &&& phase_in_range(self.phase, self.licenses@.len())
        &&& self.licenses@.len() < usize::MAX
        &&& (self.phase is StartContainer ==> self.image is Some)
        &&& (!(self.phase is BuildImage || self.phase is StartContainer || self.phase is Failed)
            ==> self.container is Some)
        &&& (self.phase is Failed <==> self.error is Some)
    }

    /// The number of license files the run places.
    pub open spec fn n_licenses(&self) -> nat {
        self.licenses@.len()
    }

    /// Starts a run: assembles the build arguments and normalises the
    /// discovered license paths against the source root. Fails, before any
    /// engine call, if the name or version is empty or a path is not under the
    /// source root.
    pub fn new(request: BuildRequest, discovered: &Vec<String>) -> (r: Result<
        BuildPipeline,
        GenericBuildError,
    >)
        requires
            discovered@.len() < usize::MAX,
        ensures
            r is Ok <==> (request.extension_name@.len() > 0 && request.extension_version@.len() > 0
                && forall|i: int|
                0 <= i < discovered@.len() ==> is_under_root(
                    request.source_path@,
                    #[trigger] discovered@[i]@,
                )),
            r matches Ok(p) ==> {
                &&& p.wf()
                &&& p.phase == Phase::BuildImage
                &&& p.request == request
                &&& p.args.extension_name@ == request.extension_name@
                &&& p.args.extension_version@ == request.extension_version@
                &&& p.licenses@.len() == discovered@.len()
                &&& forall|i: int|
                    0 <= i < discovered@.len() ==> #[trigger] p.licenses@[i]@ == relative_to_root(
                        request.source_path@,
                        discovered@[i]@,
                    )
            },
            r matches Err(e) ==> (request.extension_name@.len() == 0
                || request.extension_version@.len() == 0) ==> e is OtherError,
            r matches Err(e) ==> (request.extension_name@.len() > 0
                && request.extension_version@.len() > 0) ==> e is TarLayoutError,
    {
        let args = match assemble_build_args(
            request.extension_name.as_str(),
            request.extension_version.as_str(),
        ) {
            Ok(a) => a,
            Err(e) => {
                return Err(e);
            },
        };
        let licenses = match normalize_licenses(request.source_path.as_str(), discovered) {
            Ok(l) => l,
            Err(e) => {
                return Err(e);
            },
        };
        Ok(
            BuildPipeline {
                request,
                args,
                licenses,
                phase: Phase::BuildImage,
                image: None,
                container: None,
                error: None,
            },
        )
    }

    /// The engine call that step `self.phase` stands for, with its arguments.
    pub open spec fn expected_action(&self, r: EngineAction) -> bool {
        match self.phase {
            Phase::BuildImage => r matches EngineAction::BuildImage {
                platform,
                dockerfile,
                context,
                args,
            } && opt_text(platform) == opt_text(self.request.platform) && dockerfile@
                == self.request.dockerfile@ && context@ == self.request.source_path@ && args_ok(
                args@,
                self.args,
            ),
            Phase::StartContainer => r matches EngineAction::StartContainer { platform, image }
                && opt_text(platform) == opt_text(self.request.platform) && (self.image matches Some(
                i) && image@ == i@),
            Phase::Install => r matches EngineAction::Exec { container, argv, env } && is_container(
                container,
                self.container,
            ) && texts(argv@) == texts(self.request.install_command@) && env is None,
            Phase::MakeLicenseDir => r matches EngineAction::Exec { container, argv, env }
                && is_container(container, self.container) && texts(argv@) == spec_mkdir_argv()
                && env is None,
            Phase::PlaceLicense(i) => r matches EngineAction::Exec { container, argv, env }
                && is_container(container, self.container) && texts(argv@) == spec_copy_argv(
                self.licenses@[i as int]@,
            ) && (env matches Some(e) && texts(e@) == seq![NUMBERED_BACKUP_ENV@]),
            Phase::PrepareOutput => r matches EngineAction::CreateOutputDir { path } && path@
                == self.request.output_path@,
            Phase::Package => r matches EngineAction::Package { container, output, name, version }
                && is_container(container, self.container) && output@ == self.request.output_path@
                && name@ == self.request.extension_name@ && version@
                == self.request.extension_version@,
            Phase::Done => r is Finish,
            Phase::Failed => r is Finish,
        }
    }

    /// The engine call the run asks for at its current step: none once it has ended.
    pub fn next_action(&self) -> (r: EngineAction)
        requires
            self.wf(),
        ensures
            self.expected_action(r),
    {
        proof {
            reveal_strlit("mkdir");
            reveal_strlit("cp");
            reveal_strlit("--backup");
            reveal_strlit("--verbose");
        }
        match self.phase {
            Phase::BuildImage => EngineAction::BuildImage {
                platform: copy_opt(&self.request.platform),
                dockerfile: self.request.dockerfile.clone(),
                context: self.request.source_path.clone(),
                args: self.args.entries(),
            },
            Phase::StartContainer => {
                let image = match &self.image {
                    Some(i) => i.clone(),
                    None => String::new(),
                };
                EngineAction::StartContainer { platform: copy_opt(&self.request.platform), image }
            },
            Phase::Install => EngineAction::Exec {
                container: self.container_id(),
                argv: copy_strings(&self.request.install_command),
                env: None,
            },
            Phase::MakeLicenseDir => {
                let mut argv: Vec<String> = Vec::new();
                argv.push(String::from_str("mkdir"));
                argv.push(String::from_str(LICENSE_DIR));
                assert(texts(argv@) =~= spec_mkdir_argv());
                EngineAction::Exec { container: self.container_id(), argv, env: None }
            },
            Phase::PlaceLicense(i) => {
                let mut argv: Vec<String> = Vec::new();
                argv.push(String::from_str("cp"));
                argv.push(String::from_str("--backup"));
                argv.push(String::from_str("--verbose"));
                argv.push(self.licenses[i].clone());
                argv.push(String::from_str(LICENSE_DIR));
                assert(texts(argv@) =~= spec_copy_argv(self.licenses@[i as int]@));
                let mut env: Vec<String> = Vec::new();
                env.push(String::from_str(NUMBERED_BACKUP_ENV));
                assert(texts(env@) =~= seq![NUMBERED_BACKUP_ENV@]);
                EngineAction::Exec { container: self.container_id(), argv, env: Some(env) }
            },
            Phase::PrepareOutput => EngineAction::CreateOutputDir {
                path: self.request.output_path.clone(),
            },
            Phase::Package => EngineAction::Package {
                container: self.container_id(),
                output: self.request.output_path.clone(),
                name: self.request.extension_name.clone(),
                version: self.request.extension_version.clone(),
            },
            Phase::Done => EngineAction::Finish,
            Phase::Failed => EngineAction::Finish,
        }
    }

    /// The id of the running container.
    fn container_id(&self) -> (r: String)
        requires
            self.container is Some,
        ensures
            is_container(r, self.container),
    {
        match &self.container {
            Some(c) => c.clone(),
            None => String::new(),
        }
    }

    /// Feeds the outcome of the engine call for the current step back into the
    /// run: on success the run moves one step forward, keeping the image name
    /// or container id the call handed back; on failure it ends failed with
    /// that error. A run that has ended ignores further outcomes.
    pub fn advance(&mut self, outcome: Result<String, GenericBuildError>)
        requires
            old(self).wf(),
        ensures
            final(self).wf(),
            final(self).phase == spec_next(old(self).phase, outcome is Ok, old(self).n_licenses()),
            final(self).request == old(self).request,
            final(self).args == old(self).args,
            final(self).licenses == old(self).licenses,
            (old(self).phase is BuildImage && outcome is Ok) ==> final(self).image == Some(
                outcome->Ok_0,
            ),
            !(old(self).phase is BuildImage && outcome is Ok) ==> final(self).image == old(self).image,
            (old(self).phase is StartContainer && outcome is Ok) ==> final(self).container == Some(
                outcome->Ok_0,
            ),
            !(old(self).phase is StartContainer && outcome is Ok) ==> final(self).container == old(self).container,
            (!is_terminal(old(self).phase) && outcome is Err) ==> final(self).error == Some(
                outcome->Err_0,
            ),
            !(!is_terminal(old(self).phase) && outcome is Err) ==> final(self).error == old(self).error,
    {
        if self.phase == Phase::Done || self.phase == Phase::Failed {
            return;
        }
        match outcome {
            Err(e) => {
                self.phase = Phase::Failed;
                self.error = Some(e);
            },
            Ok(id) => {
                let n = self.licenses.len();
                match self.phase {
                    Phase::BuildImage => {
                        self.image = Some(id);
                        self.phase = Phase::StartContainer;
                    },
                    Phase::StartContainer => {
                        self.container = Some(id);
                        self.phase = Phase::Install;
                    },
                    Phase::Install => {
                        self.phase = Phase::MakeLicenseDir;
                    },
                    Phase::MakeLicenseDir => {
                        if n > 0 {
                            self.phase = Phase::PlaceLicense(0);
                        } else {
                            self.phase = Phase::PrepareOutput;
                        }
                    },
                    Phase::PlaceLicense(i) => {
                        if i + 1 < n {
                            self.phase = Phase::PlaceLicense(i + 1);
                        } else {
                            self.phase = Phase::PrepareOutput;
                        }
                    },
                    Phase::PrepareOutput => {
                        self.phase = Phase::Package;
                    },
                    Phase::Package => {
                        self.phase = Phase::Done;
                    },
                    Phase::Done => {},
                    Phase::Failed => {},
                }
            },
        }
    }

    /// Stops the run between steps: a run that has not ended ends failed,
    /// with no further engine call. A run that has ended is left as it is.
    pub fn cancel(&mut self)
        requires
            old(self).wf(),
        ensures
            final(self).wf(),
            final(self).request == old(self).request,
            final(self).args == old(self).args,
            final(self).licenses == old(self).licenses,
            final(self).image == old(self).image,
            final(self).container == old(self).container,
            is_terminal(old(self).phase) ==> final(self).phase == old(self).phase,
            is_terminal(old(self).phase) ==> final(self).error == old(self).error,
            !is_terminal(old(self).phase) ==> final(self).phase == Phase::Failed,
            !is_terminal(old(self).phase) ==> (final(self).error matches Some(e) && e is OtherError),
    {
        if self.phase == Phase::Done || self.phase == Phase::Failed {
            return;
        }
        self.phase = Phase::Failed;
        self.error = Some(GenericBuildError::OtherError(String::from_str("build cancelled")));
    }

    /// The run's result once it has ended: success if every step succeeded,
    /// otherwise the first error reported.
    pub fn into_result(self) -> (r: Result<(), GenericBuildError>)
        requires
            self.wf(),
            is_terminal(self.phase),
        ensures
            r is Ok <==> self.phase is Done,
            r matches Err(e) ==> self.error == Some(e),
    {
        match self.error {
            Some(e) => Err(e),
            None => Ok(()),
        }
    }
}

} // verus!
