//! Where the PDF goes.

use md_docs::controller::AppController;
use md_docs::domain::Config;
use md_docs::logger::FileLogger;
use std::path::PathBuf;

fn controller(config: Config) -> AppController {
    AppController::new(config, false, FileLogger::with_path(PathBuf::from("/tmp/mdocs-test.log")))
}

#[test]
fn app_controller_tests_test_resolve_output_explicit_path_used() {
    // When an explicit output path is given, it is used directly.
    let explicit = PathBuf::from("/tmp/my-output.pdf");
    assert!(explicit.extension().unwrap() == "pdf");

    let c = controller(Config::default());
    let out = c.resolve_output(&PathBuf::from("/home/user/docs/resume.md"), Some(explicit.clone()));
    assert_eq!(out, explicit);
}

#[test]
fn app_controller_tests_test_resolve_output_derived_from_input() {
    // resolve_output("resume.md", None) gives "resume.pdf" in the same directory.
    let input = PathBuf::from("/home/user/docs/resume.md");
    let expected_stem = "resume";
    assert_eq!(input.file_stem().unwrap().to_str().unwrap(), expected_stem);

    let c = controller(Config::default());
    let out = c.resolve_output(&input, None);
    assert_eq!(out, input.with_extension("pdf"));
    assert_eq!(out, PathBuf::from("/home/user/docs/resume.pdf"));
}

#[test]
fn e2e_test_resolve_output_explicit_path_used() {
    let explicit = PathBuf::from("/tmp/my-output.pdf");
    assert!(explicit.extension().unwrap() == "pdf");

    let c = controller(Config::default());
    let out = c.resolve_output(&PathBuf::from("notes.md"), Some(explicit.clone()));
    assert_eq!(out, explicit);
}

#[test]
fn e2e_test_resolve_output_derived_from_input() {
    let input = PathBuf::from("/home/user/docs/resume.md");
    let expected_stem = "resume";
    assert_eq!(input.file_stem().unwrap().to_str().unwrap(), expected_stem);

    let c = controller(Config::default());
    assert_eq!(c.resolve_output(&input, None), input.with_extension("pdf"));
}

#[test]
fn resolve_output_uses_configured_output_dir() {
    let config = Config::new(None, None, Some(PathBuf::from("/srv/pdfs")), None, vec![], vec![]);
    let c = controller(config);
    let out = c.resolve_output(&PathBuf::from("/home/user/docs/resume.md"), None);
    assert_eq!(out, PathBuf::from("/srv/pdfs/resume.pdf"));
}
