use maestro::repository::get_repository_name;
use maestro::worktree::{validate_branch_name, BranchNameError, Worktree};

#[test]
fn test_get_repository_name() {
    let path = "/some/path/my-repo";
    let name = get_repository_name(path).unwrap();
    assert_eq!(name, "my-repo");
}

#[test]
fn repository_name_of_root_is_refused() {
    assert!(get_repository_name("/").is_err());
    assert!(get_repository_name("/some/path/..").is_err());
    assert_eq!(get_repository_name("/some/path/repo/").unwrap(), "repo");
}

#[test]
fn test_worktree_struct() {
    let wt = Worktree::new(
        "/path/to/worktree".to_string(),
        "main".to_string(),
        false,
        false,
    );

    assert_eq!(wt.path, "/path/to/worktree".to_string());
    assert_eq!(wt.branch, "main");
    assert!(!wt.is_detached);
    assert!(!wt.is_locked);
}

#[test]
fn test_validate_branch_name_valid() {
    assert!(validate_branch_name("feature").is_ok());
    assert!(validate_branch_name("feature-1").is_ok());
    assert!(validate_branch_name("feature/test").is_ok());
    assert!(validate_branch_name("feature_test").is_ok());
    assert!(validate_branch_name("feature-1.0").is_ok());
}

#[test]
fn test_validate_branch_name_empty() {
    let result = validate_branch_name("");
    assert!(result.is_err());
    assert!(result.unwrap_err().message().contains("cannot be empty"));
}

#[test]
fn test_validate_branch_name_reserved() {
    let result = validate_branch_name("HEAD");
    assert!(result.is_err());
    assert!(result.unwrap_err().message().contains("reserved"));
}

#[test]
fn test_validate_branch_name_with_spaces() {
    let result = validate_branch_name("feature test");
    assert!(result.is_err());
    assert!(result.unwrap_err().message().contains("spaces"));
}

#[test]
fn test_validate_branch_name_with_slashes() {
    let result = validate_branch_name("/feature");
    assert!(result.is_err());
    let result = validate_branch_name("feature/");
    assert!(result.is_err());
    let result = validate_branch_name("feature//test");
    assert!(result.is_err());
}

#[test]
fn test_validate_branch_name_with_dots() {
    let result = validate_branch_name(".feature");
    assert!(result.is_err());
    let result = validate_branch_name("feature.");
    assert!(result.is_err());
    let result = validate_branch_name("feature..test");
    assert!(result.is_err());
}

#[test]
fn test_validate_branch_name_with_invalid_chars() {
    assert!(validate_branch_name("feature~test").is_err());
    assert!(validate_branch_name("feature^test").is_err());
    assert!(validate_branch_name("feature:test").is_err());
    assert!(validate_branch_name("feature?test").is_err());
    assert!(validate_branch_name("feature*test").is_err());
    assert!(validate_branch_name("feature[test").is_err());
    assert!(validate_branch_name("feature\\test").is_err());
    assert!(validate_branch_name("feature@{test").is_err());
}

#[test]
fn branch_name_errors_name_the_first_rule_broken() {
    assert_eq!(validate_branch_name(""), Err(BranchNameError::Empty));
    assert_eq!(validate_branch_name("HEAD"), Err(BranchNameError::Reserved));
    assert_eq!(validate_branch_name("HEADS"), Ok(()));
    assert_eq!(validate_branch_name("a b/"), Err(BranchNameError::HasSpace));
    assert_eq!(validate_branch_name("feature/"), Err(BranchNameError::EdgeSlash));
    assert_eq!(validate_branch_name("a//b"), Err(BranchNameError::DoubleSlash));
    assert_eq!(validate_branch_name("a."), Err(BranchNameError::EdgePeriod));
    assert_eq!(validate_branch_name("a..b"), Err(BranchNameError::DoublePeriod));
    // '~' is checked before ':' whatever their positions.
    assert_eq!(validate_branch_name("a:b~c"), Err(BranchNameError::ForbiddenChar('~')));
    assert_eq!(validate_branch_name("a@{b"), Err(BranchNameError::ForbiddenChar('@')));
    assert_eq!(
        BranchNameError::ForbiddenChar('\\').message(),
        "Branch name cannot contain '\\'"
    );
    assert_eq!(BranchNameError::AtBrace.message(), "Branch name cannot contain '@{'");
}

#[test]
fn porcelain_output_lists_other_worktrees() {
    let output = "worktree /repo\nHEAD abc\nbranch refs/heads/main\n\nworktree /repo-feature\nHEAD def\nbranch refs/heads/feature/x\nlocked\n\nworktree /repo-detached\nHEAD 123\ndetached\n";
    let wts = maestro::worktree::parse_worktree_list(output, "/repo");
    assert_eq!(wts.len(), 2);
    assert_eq!(wts[0], Worktree::new("/repo-feature".to_string(), "feature/x".to_string(), false, true));
    assert_eq!(wts[1], Worktree::new("/repo-detached".to_string(), "HEAD".to_string(), true, false));
}

#[test]
fn porcelain_output_with_crlf_and_plain_branch() {
    let output = "worktree /a\r\nbranch topic\r\n\r\nworktree /b";
    let wts = maestro::worktree::parse_worktree_list(output, "/root");
    assert_eq!(wts.len(), 2);
    assert_eq!(wts[0].path, "/a");
    assert_eq!(wts[0].branch, "topic");
    assert_eq!(wts[1].path, "/b");
    assert_eq!(wts[1].branch, "");
    assert!(maestro::worktree::parse_worktree_list("", "/root").is_empty());
}
