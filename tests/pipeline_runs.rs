use generic_build::error::GenericBuildError;
use generic_build::orchestrator::{BuildPipeline, BuildRequest, EngineAction, LICENSE_DIR};
use generic_build::pipeline::Phase;

fn request(install: &[&str]) -> BuildRequest {
    BuildRequest {
        dockerfile: "FROM postgres\n".to_string(),
        platform: Some("linux/amd64".to_string()),
        install_command: install.iter().map(|s| s.to_string()).collect(),
        source_path: "/src".to_string(),
        output_path: "/out".to_string(),
        extension_name: "pg_stat_statements".to_string(),
        extension_version: "1.10.0".to_string(),
    }
}

fn describe(a: &EngineAction) -> String {
    match a {
        EngineAction::BuildImage { .. } => "build".to_string(),
        EngineAction::StartContainer { image, .. } => format!("start {}", image),
        EngineAction::Exec { container, argv, env } => {
            let env = match env {
                Some(e) => format!(" [{}]", e.join(",")),
                None => String::new(),
            };
            format!("exec {} {}{}", container, argv.join(" "), env)
        }
        EngineAction::CreateOutputDir { path } => format!("mkdir-local {}", path),
        EngineAction::Package { container, output, name, version } => {
            format!("package {} {} {} {}", container, output, name, version)
        }
        EngineAction::Finish => "finish".to_string(),
    }
}

/// Drives a run with a scripted engine: the i-th call gets the i-th outcome
/// (true: success), or success once the script runs out.
fn drive(p: &mut BuildPipeline, script: &[bool]) -> Vec<String> {
    let mut log = Vec::new();
    let mut k = 0;
    loop {
        let a = p.next_action();
        log.push(describe(&a));
        if matches!(a, EngineAction::Finish) {
            return log;
        }
        let ok = k >= script.len() || script[k];
        let outcome = if !ok {
            Err(GenericBuildError::DockerError(format!("call {} failed", k)))
        } else {
            match a {
                EngineAction::BuildImage { .. } => Ok("make_builder_img".to_string()),
                EngineAction::StartContainer { .. } => Ok("05a11b4b1bd5".to_string()),
                _ => Ok(String::new()),
            }
        };
        p.advance(outcome);
        k += 1;
    }
}

#[test]
fn every_step_succeeding_reaches_done() {
    let found = vec!["/src/LICENSE".to_string(), "/src/contrib/COPYRIGHT".to_string()];
    let mut p = BuildPipeline::new(request(&["make", "install"]), &found).ok().unwrap();
    let log = drive(&mut p, &[]);
    assert_eq!(
        log,
        vec![
            "build",
            "start make_builder_img",
            "exec 05a11b4b1bd5 make install",
            "exec 05a11b4b1bd5 mkdir /usr/licenses/",
            "exec 05a11b4b1bd5 cp --backup --verbose LICENSE /usr/licenses/ [VERSION_CONTROL=numbered]",
            "exec 05a11b4b1bd5 cp --backup --verbose contrib/COPYRIGHT /usr/licenses/ [VERSION_CONTROL=numbered]",
            "mkdir-local /out",
            "package 05a11b4b1bd5 /out pg_stat_statements 1.10.0",
            "finish",
        ]
    );
    assert_eq!(p.phase, Phase::Done);
    assert!(p.into_result().is_ok());
}

#[test]
fn run_without_licenses_goes_from_mkdir_to_output() {
    let mut p = BuildPipeline::new(request(&["make", "install"]), &Vec::new()).ok().unwrap();
    let log = drive(&mut p, &[]);
    assert_eq!(log.len(), 7);
    assert_eq!(log[3], "exec 05a11b4b1bd5 mkdir /usr/licenses/");
    assert_eq!(log[4], "mkdir-local /out");
    assert_eq!(p.phase, Phase::Done);
}

#[test]
fn image_build_failure_issues_no_other_call() {
    let found = vec!["/src/LICENSE".to_string()];
    let mut p = BuildPipeline::new(request(&["make", "install"]), &found).ok().unwrap();
    let log = drive(&mut p, &[false]);
    assert_eq!(log, vec!["build", "finish"]);
    assert_eq!(p.phase, Phase::Failed);
    assert!(p.container.is_none());
    match p.into_result() {
        Err(GenericBuildError::DockerError(m)) => assert_eq!(m, "call 0 failed"),
        _ => panic!("expected the build error"),
    }
}

#[test]
fn install_failure_stops_before_license_dir() {
    let found = vec!["/src/COPYRIGHT".to_string()];
    let mut p = BuildPipeline::new(request(&["make", "install"]), &found).ok().unwrap();
    let log = drive(&mut p, &[true, true, false]);
    assert_eq!(
        log,
        vec!["build", "start make_builder_img", "exec 05a11b4b1bd5 make install", "finish"]
    );
    assert!(!log.iter().any(|l| l.contains(LICENSE_DIR) || l.starts_with("package")));
    assert_eq!(p.phase, Phase::Failed);
    assert!(matches!(p.into_result(), Err(GenericBuildError::DockerError(_))));
}

#[test]
fn failed_license_copy_fails_the_run() {
    let found = vec!["/src/LICENSE".to_string(), "/src/COPYRIGHT".to_string()];
    let mut p = BuildPipeline::new(request(&["make", "install"]), &found).ok().unwrap();
    let log = drive(&mut p, &[true, true, true, true, false]);
    assert_eq!(log.len(), 6);
    assert!(log[4].contains("cp --backup --verbose LICENSE"));
    assert_eq!(log[5], "finish");
    assert_eq!(p.phase, Phase::Failed);
}

#[test]
fn license_dir_comes_after_install_and_before_copies() {
    let found = vec!["/src/a/COPYRIGHT".to_string(), "/src/b/COPYRIGHT".to_string(), "/src/LICENSE".to_string()];
    let mut p = BuildPipeline::new(request(&["make", "install"]), &found).ok().unwrap();
    let log = drive(&mut p, &[]);
    let mkdir = log.iter().position(|l| l.ends_with("mkdir /usr/licenses/")).unwrap();
    let install = log.iter().position(|l| l.ends_with("make install")).unwrap();
    let first_copy = log.iter().position(|l| l.contains(" cp ")).unwrap();
    assert!(install < mkdir && mkdir < first_copy);
    assert_eq!(log.iter().filter(|l| l.contains(" cp ")).count(), 3);
}

#[test]
fn scenario_pg_stat_statements() {
    let found = vec!["/src/COPYRIGHT".to_string(), "/src/COPYRIGHT.~1~".to_string()];
    let mut p = BuildPipeline::new(request(&["make", "install"]), &found).ok().unwrap();
    assert_eq!(p.licenses, vec!["COPYRIGHT".to_string(), "COPYRIGHT.~1~".to_string()]);
    let log = drive(&mut p, &[]);
    assert_eq!(log[4], "exec 05a11b4b1bd5 cp --backup --verbose COPYRIGHT /usr/licenses/ [VERSION_CONTROL=numbered]");
    assert_eq!(
        log[5],
        "exec 05a11b4b1bd5 cp --backup --verbose COPYRIGHT.~1~ /usr/licenses/ [VERSION_CONTROL=numbered]"
    );
    assert_eq!(log[7], "package 05a11b4b1bd5 /out pg_stat_statements 1.10.0");
    assert_eq!(p.phase, Phase::Done);
}

#[test]
fn build_action_carries_request() {
    let p = BuildPipeline::new(request(&["make", "install"]), &Vec::new()).ok().unwrap();
    match p.next_action() {
        EngineAction::BuildImage { platform, dockerfile, context, args } => {
            assert_eq!(platform, Some("linux/amd64".to_string()));
            assert_eq!(dockerfile, "FROM postgres\n");
            assert_eq!(context, "/src");
            assert_eq!(args[0], ("EXTENSION_NAME".to_string(), "pg_stat_statements".to_string()));
            assert_eq!(args[1], ("EXTENSION_VERSION".to_string(), "1.10.0".to_string()));
        }
        _ => panic!("expected the image build"),
    }
}

#[test]
fn cancel_ends_the_run() {
    let mut p = BuildPipeline::new(request(&["make", "install"]), &Vec::new()).ok().unwrap();
    drive(&mut p, &[]);
    let mut q = BuildPipeline::new(request(&["make"]), &Vec::new()).ok().unwrap();
    q.advance(Ok("img".to_string()));
    q.cancel();
    assert_eq!(q.phase, Phase::Failed);
    assert!(matches!(q.next_action(), EngineAction::Finish));
    assert!(matches!(q.into_result(), Err(GenericBuildError::OtherError(_))));
    // an ended run is left as it is
    p.cancel();
    assert_eq!(p.phase, Phase::Done);
}

#[test]
fn new_refuses_bad_input() {
    let bad = vec!["/elsewhere/LICENSE".to_string()];
    assert!(matches!(
        BuildPipeline::new(request(&["make"]), &bad),
        Err(GenericBuildError::TarLayoutError(_))
    ));
    let mut r = request(&["make"]);
    r.extension_name = String::new();
    assert!(matches!(BuildPipeline::new(r, &Vec::new()), Err(GenericBuildError::OtherError(_))));
}
