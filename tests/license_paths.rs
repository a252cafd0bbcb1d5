use generic_build::args::{assemble_build_args, EXTENSION_NAME_KEY, EXTENSION_VERSION_KEY};
use generic_build::error::GenericBuildError;
use generic_build::license::{normalize_licenses, trim_license_path};

#[test]
fn build_args_hold_name_and_version() {
    let args = assemble_build_args("pg_stat_statements", "1.10.0").unwrap();
    assert_eq!(args.extension_name, "pg_stat_statements");
    assert_eq!(args.extension_version, "1.10.0");
    let entries = args.entries();
    assert_eq!(entries.len(), 2);
    assert_eq!(entries[0], (EXTENSION_NAME_KEY.to_string(), "pg_stat_statements".to_string()));
    assert_eq!(entries[1], (EXTENSION_VERSION_KEY.to_string(), "1.10.0".to_string()));
    assert_eq!(entries[0].0, "EXTENSION_NAME");
    assert_eq!(entries[1].0, "EXTENSION_VERSION");
}

#[test]
fn build_args_refuse_empty_values() {
    assert!(matches!(assemble_build_args("", "1.0"), Err(GenericBuildError::OtherError(_))));
    assert!(matches!(assemble_build_args("ext", ""), Err(GenericBuildError::OtherError(_))));
}

#[test]
fn trim_strips_root_and_separator() {
    assert_eq!(trim_license_path("/src", "/src/LICENSE").unwrap(), "LICENSE");
    assert_eq!(trim_license_path("/src", "/src/contrib/COPYRIGHT").unwrap(), "contrib/COPYRIGHT");
}

#[test]
fn trim_refuses_paths_outside_root() {
    assert!(matches!(trim_license_path("/src", "/other/LICENSE"), Err(GenericBuildError::TarLayoutError(_))));
    assert!(matches!(trim_license_path("/src", "/srcx/LICENSE"), Err(GenericBuildError::TarLayoutError(_))));
    assert!(matches!(trim_license_path("/src", "/src/"), Err(GenericBuildError::TarLayoutError(_))));
    assert!(matches!(trim_license_path("/src", "LICENSE"), Err(GenericBuildError::TarLayoutError(_))));
}

#[test]
fn normalize_keeps_discovery_order() {
    let found = vec!["/src/b/LICENSE".to_string(), "/src/COPYRIGHT".to_string(), "/src/a/NOTICE".to_string()];
    let out = normalize_licenses("/src", &found).unwrap();
    assert_eq!(out, vec!["b/LICENSE".to_string(), "COPYRIGHT".to_string(), "a/NOTICE".to_string()]);
}

#[test]
fn normalize_of_nothing_is_empty() {
    let out = normalize_licenses("/src", &Vec::new()).unwrap();
    assert!(out.is_empty());
}

#[test]
fn normalize_fails_on_one_bad_path() {
    let found = vec!["/src/LICENSE".to_string(), "/elsewhere/COPYING".to_string()];
    let err = normalize_licenses("/src", &found).unwrap_err();
    assert!(matches!(err, GenericBuildError::TarLayoutError(_)));
    assert!(!err.message().is_empty());
}
