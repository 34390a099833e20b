use glopy::engine::{
    aggregate_exit_code, copy_with_retry, give_up_after, match_copy, run_batch, CopyError,
    CopyOutcome, BACKOFF_MS, EXIT_FILE_OPERATION, EXIT_GLOB, EXIT_OK, EXIT_VALIDATION,
    MAX_ATTEMPTS,
};
use glopy::fs_model::FsModel;
use glopy::paths::{accept_candidate, dest_path_bytes, file_name_bytes, path_under_dir};
use glopy::patterns::{build_globset, should_copy, PatternError, PatternSet};
use glopy::validate::{after_create_dest, error_exit_code, validate, ValidationError};
use glopy::Opt;

fn opt_with(create_dest: bool) -> Opt {
    Opt {
        excludes: Vec::new(),
        num_threads: 4,
        ignore_case: false,
        create_dest,
        no_overwrite: false,
        patterns: Vec::new(),
        source: String::from("."),
        dest: String::from("dest"),
    }
}

fn compile(patterns: &[&str], ignore_case: bool) -> PatternSet {
    let pats: Vec<String> = patterns.iter().map(|p| String::from(*p)).collect();
    build_globset(&pats, ignore_case).unwrap_or_else(|_| panic!("patterns must compile"))
}

// --- pattern compilation and matching ---

#[test]
fn glob_matches_by_extension() {
    let inc = compile(&["*.txt"], false);
    assert!(inc.matches("x.txt"));
    assert!(!inc.matches("x.log"));
}

#[test]
fn case_sensitivity_follows_ignore_case_flag() {
    let sensitive = compile(&["*.TXT"], false);
    assert!(!sensitive.matches("a.txt"));
    assert!(sensitive.matches("a.TXT"));
    let insensitive = compile(&["*.TXT"], true);
    assert!(insensitive.matches("a.txt"));
}

#[test]
fn empty_pattern_set_matches_nothing() {
    let empty = compile(&[], false);
    assert!(!empty.matches("a.txt"));
    assert!(!empty.matches(""));
}

#[test]
fn invalid_glob_reports_offending_pattern() {
    let pats = vec![String::from("*.txt"), String::from("a[b"), String::from("a[c")];
    match build_globset(&pats, false) {
        Err(PatternError::InvalidGlob { pattern }) => assert_eq!(pattern, "a[b"),
        _ => panic!("expected the first invalid pattern to be reported"),
    }
}

#[test]
fn exclude_takes_precedence_over_include() {
    let inc = compile(&["*.txt"], false);
    let exc = compile(&["a.*"], false);
    assert!(!should_copy("a.txt", &inc, &exc));
    assert!(should_copy("b.txt", &inc, &exc));
    assert!(!should_copy("b.log", &inc, &exc));
}

#[test]
fn glob_star_crosses_separators_by_default() {
    let inc = compile(&["*.txt"], false);
    assert!(inc.matches("sub/a.txt"));
    assert!(!inc.matches("sub/a.txt.bak"));
}

// --- path handling ---

#[test]
fn path_under_dir_detects_nesting() {
    assert!(path_under_dir("/src/dest/a.txt", "/src/dest"));
    assert!(path_under_dir("/src/dest", "/src/dest"));
    assert!(!path_under_dir("/src/destination/a.txt", "/src/dest"));
    assert!(!path_under_dir("/src/a.txt", "/src/dest"));
    assert!(path_under_dir("/a.txt", "/"));
}

#[test]
fn walker_excludes_destination_subtree() {
    assert!(!accept_candidate(true, "/src/dest/a.txt", "/src/dest"));
    assert!(accept_candidate(true, "/src/a.txt", "/src/dest"));
    assert!(!accept_candidate(false, "/src/sub", "/src/dest"));
}

#[test]
fn file_name_is_last_component() {
    assert_eq!(file_name_bytes("dirA/x.txt"), b"x.txt".to_vec());
    assert_eq!(file_name_bytes("x.txt"), b"x.txt".to_vec());
    assert_eq!(file_name_bytes("/a/b/c"), b"c".to_vec());
}

#[test]
fn destination_is_flattened() {
    assert_eq!(dest_path_bytes("dest", "dirA/x.txt"), b"dest/x.txt".to_vec());
    assert_eq!(dest_path_bytes("dest", "x.txt"), b"dest/x.txt".to_vec());
}

#[test]
fn same_base_name_collides_at_destination() {
    let a = dest_path_bytes("dest", "dirA/x.txt");
    let b = dest_path_bytes("dest", "dirB/x.txt");
    assert_eq!(a, b);
}

// --- validation ---

#[test]
fn missing_source_fails_validation() {
    assert_eq!(validate(&opt_with(true), false, false), Err(ValidationError::SourceNotFound));
    assert_eq!(validate(&opt_with(false), false, true), Err(ValidationError::SourceNotFound));
}

#[test]
fn missing_destination_fails_unless_creation_asked() {
    assert_eq!(validate(&opt_with(false), true, false), Err(ValidationError::DestNotFound));
    assert_eq!(validate(&opt_with(true), true, false), Ok(true));
    assert_eq!(validate(&opt_with(false), true, true), Ok(false));
}

#[test]
fn failed_destination_creation_is_reported() {
    assert_eq!(after_create_dest(true), Ok(()));
    assert_eq!(after_create_dest(false), Err(ValidationError::DestCreateError));
}

#[test]
fn validation_errors_map_to_their_exit_codes() {
    assert_eq!(error_exit_code(&ValidationError::SourceNotFound), EXIT_VALIDATION);
    assert_eq!(error_exit_code(&ValidationError::DestNotFound), EXIT_VALIDATION);
    assert_eq!(error_exit_code(&ValidationError::DestCreateError), EXIT_FILE_OPERATION);
}

// --- the copy engine ---

fn fails_then_succeeds(n: usize) -> Vec<Result<(), String>> {
    let mut v: Vec<Result<(), String>> = Vec::new();
    for k in 0..n {
        v.push(Err(format!("attempt {} was refused", k)));
    }
    v.push(Ok(()));
    v
}

#[test]
fn copier_reports_copied_iff_failures_stay_below_budget() {
    for n in 0..(MAX_ATTEMPTS + 2) {
        let r = copy_with_retry("a.txt", "dest/a.txt", true, false, &fails_then_succeeds(n));
        if n < MAX_ATTEMPTS {
            assert!(matches!(r, CopyOutcome::Copied));
        } else {
            match r {
                CopyOutcome::Failed(e) => {
                    assert_eq!(e.source, "a.txt");
                    assert_eq!(e.dest, "dest/a.txt");
                    assert_eq!(e.message, "attempt 2 was refused");
                }
                _ => panic!("the attempt budget must be exhausted"),
            }
        }
    }
}

#[test]
fn copier_skips_existing_destination_when_overwrite_is_off() {
    let r = copy_with_retry("a.txt", "dest/a.txt", false, true, &fails_then_succeeds(0));
    assert!(matches!(r, CopyOutcome::Skipped));
    let r2 = copy_with_retry("a.txt", "dest/a.txt", true, true, &fails_then_succeeds(0));
    assert!(matches!(r2, CopyOutcome::Copied));
}

#[test]
fn retry_succeeds_while_failures_stay_below_budget() {
    let inc = compile(&["*.txt"], false);
    let exc = compile(&[], false);
    for n in 0..MAX_ATTEMPTS {
        let r = match_copy("a.txt", "dest/a.txt", &inc, &exc, true, false, &fails_then_succeeds(n));
        assert_eq!(r.map_err(|_| ()), Ok(true));
    }
}

#[test]
fn retry_exhaustion_reports_copy_error() {
    let inc = compile(&["*.txt"], false);
    let exc = compile(&[], false);
    let r = match_copy(
        "a.txt",
        "dest/a.txt",
        &inc,
        &exc,
        true,
        false,
        &fails_then_succeeds(MAX_ATTEMPTS),
    );
    match r {
        Err(CopyError { source, dest, message }) => {
            assert_eq!(source, "a.txt");
            assert_eq!(dest, "dest/a.txt");
            assert_eq!(message, "attempt 2 was refused");
        }
        Ok(_) => panic!("three failing attempts must exhaust the budget"),
    }
}

#[test]
fn no_overwrite_skips_existing_destination() {
    let inc = compile(&["*.txt"], false);
    let exc = compile(&[], false);
    let r = match_copy("a.txt", "dest/a.txt", &inc, &exc, false, true, &fails_then_succeeds(0));
    assert_eq!(r.map_err(|_| ()), Ok(false));
    let again = match_copy("a.txt", "dest/a.txt", &inc, &exc, false, false, &fails_then_succeeds(0));
    assert_eq!(again.map_err(|_| ()), Ok(true));
}

#[test]
fn unselected_file_is_never_copied() {
    let inc = compile(&["*.txt"], false);
    let exc = compile(&["a.*"], false);
    let r = match_copy("a.txt", "dest/a.txt", &inc, &exc, true, false, &fails_then_succeeds(0));
    assert_eq!(r.map_err(|_| ()), Ok(false));
    let r2 = match_copy("b.log", "dest/b.log", &inc, &exc, true, false, &fails_then_succeeds(0));
    assert_eq!(r2.map_err(|_| ()), Ok(false));
}

#[test]
fn retry_policy_gives_up_at_budget() {
    assert!(!give_up_after(1));
    assert!(!give_up_after(MAX_ATTEMPTS - 1));
    assert!(give_up_after(MAX_ATTEMPTS));
    assert_eq!(BACKOFF_MS, 100);
}

#[test]
fn one_failed_copy_fails_the_whole_run() {
    assert_eq!(aggregate_exit_code(&vec![]), EXIT_OK);
    assert_eq!(aggregate_exit_code(&vec![true, true, true]), EXIT_OK);
    assert_eq!(aggregate_exit_code(&vec![true, false, true]), EXIT_FILE_OPERATION);
    assert_eq!(EXIT_VALIDATION, 1);
    assert_eq!(EXIT_GLOB, 2);
    assert_eq!(EXIT_FILE_OPERATION, 3);
}

// --- end to end over a small tree ---

#[test]
fn whole_tree_scenario() {
    // Source tree {a.txt, b.log, sub/a.txt}, include *.txt, no excludes,
    // empty destination, overwriting allowed.
    let inc = compile(&["*.txt"], false);
    let exc = compile(&[], false);
    let candidates = ["src/a.txt", "src/b.log", "src/sub/a.txt"];
    let mut copied: Vec<(Vec<u8>, &str)> = Vec::new();
    for src in candidates.iter() {
        assert!(accept_candidate(true, src, "dest"));
        let dest = dest_path_bytes("dest", src);
        let dest_str = String::from_utf8(dest.clone()).unwrap();
        match match_copy(src, &dest_str, &inc, &exc, true, false, &vec![Ok(())]) {
            Ok(true) => copied.push((dest, src)),
            Ok(false) => assert_eq!(*src, "src/b.log"),
            Err(_) => panic!("no copy may fail here"),
        }
    }
    // exactly the *.txt files were copied, both flattened onto dest/a.txt
    assert_eq!(copied.len(), 2);
    assert_eq!(copied[0].0, b"dest/a.txt".to_vec());
    assert_eq!(copied[1].0, b"dest/a.txt".to_vec());
    // last writer wins: the destination ends with the content of the
    // candidate processed last
    let last = copied.last().unwrap();
    assert_eq!(last.1, "src/sub/a.txt");
}

// --- whole batches against the remembered destination state ---

fn tree_candidates() -> Vec<String> {
    vec!["src/a.txt", "src/b.log", "src/sub/a.txt"].into_iter().map(String::from).collect()
}

#[test]
fn model_run_copies_exactly_the_selected_files() {
    let inc = compile(&["*.txt"], false);
    let exc = compile(&[], false);
    let mut fs = FsModel::new();
    let copies = run_batch(&tree_candidates(), &inc, &exc, false, "dest", &mut fs);
    // both *.txt files copied, flattened onto the same destination
    assert_eq!(copies, 2);
    // last writer wins at the collided destination
    assert_eq!(fs.read(&b"dest/a.txt".to_vec()).unwrap().as_str(), "src/sub/a.txt");
    // the unselected file was never written
    assert!(!fs.contains(&b"dest/b.log".to_vec()));
    assert!(fs.read(&b"dest/b.log".to_vec()).is_none());
}

#[test]
fn second_no_overwrite_run_copies_nothing() {
    let inc = compile(&["*.txt"], false);
    let exc = compile(&[], false);
    let mut fs = FsModel::new();
    // with overwriting off the first writer to dest/a.txt also blocks the
    // second candidate that flattens onto it
    let first = run_batch(&tree_candidates(), &inc, &exc, true, "dest", &mut fs);
    assert_eq!(first, 1);
    assert_eq!(fs.read(&b"dest/a.txt".to_vec()).unwrap().as_str(), "src/a.txt");
    // a second identical run finds everything present and copies nothing
    let second = run_batch(&tree_candidates(), &inc, &exc, true, "dest", &mut fs);
    assert_eq!(second, 0);
    assert_eq!(fs.read(&b"dest/a.txt".to_vec()).unwrap().as_str(), "src/a.txt");
}
