use ryu_core::git::{
    check_branch_request, check_workspace, clone_conflict_message, clone_folder_name, clone_port,
    commit_message, commit_push_action, default_include_unstaged, github_repository_name_from_path,
    parse_github_clone_url, remote_workspace, status_cwd, validate_folder_name,
    validate_review_paths, validated_replacements, GitCheckoutBody, GithubCloneTransport,
    ReverseEditBody, ReverseEditPlanBody,
};
use ryu_core::workspace::{
    directory_entries, folder_exists_message, list_target, listing_allowed, project_folder_name,
    DirItem, ListTarget,
};

const NON_DIR: &str = "/no/such/ryu/dir/xyz-does-not-exist";

#[test]
fn folder_name_accepts_plain_names() {
    assert!(validate_folder_name("My Project").is_ok());
    assert!(validate_folder_name("ryu-app_2").is_ok());
}

#[test]
fn folder_name_rejects_traversal_and_separators() {
    assert!(validate_folder_name("").is_err());
    assert!(validate_folder_name("..").is_err());
    assert!(validate_folder_name("a/b").is_err());
    assert!(validate_folder_name("a\\b").is_err());
    assert!(validate_folder_name("foo..bar").is_err());
    assert!(validate_folder_name("bad\nname").is_err());
}

#[test]
fn folder_name_errors_name_the_rule() {
    assert_eq!(validate_folder_name("").unwrap_err(), "A folder name is required");
    assert_eq!(validate_folder_name(&"x".repeat(121)).unwrap_err(), "That name is too long");
    assert!(validate_folder_name(&"x".repeat(120)).is_ok());
    assert_eq!(validate_folder_name("a..b").unwrap_err(), "That name is not allowed");
    assert_eq!(validate_folder_name("a/b").unwrap_err(), "A folder name cannot contain slashes");
    assert_eq!(
        validate_folder_name("a\tb").unwrap_err(),
        "A folder name cannot contain control characters"
    );
}

#[test]
fn github_clone_url_accepts_https_and_ssh() {
    let (https_name, t) = parse_github_clone_url("https://github.com/amajorai/ryu.git").unwrap();
    assert_eq!(https_name, "ryu");
    assert_eq!(t, GithubCloneTransport::Https);
    let (scp_name, t) = parse_github_clone_url("git@github.com:amajorai/ryu.git").unwrap();
    assert_eq!(scp_name, "ryu");
    assert_eq!(t, GithubCloneTransport::Ssh);
    let (ssh_name, t) = parse_github_clone_url("ssh://git@github.com/amajorai/ryu").unwrap();
    assert_eq!(ssh_name, "ryu");
    assert_eq!(t, GithubCloneTransport::Ssh);
    assert_eq!(clone_port(GithubCloneTransport::Https), 443);
    assert_eq!(clone_port(GithubCloneTransport::Ssh), 22);
}

#[test]
fn github_clone_url_rejects_other_hosts_and_extra_paths() {
    assert!(parse_github_clone_url("https://gitlab.com/org/repo").is_err());
    assert!(parse_github_clone_url("https://github.com/org/repo/tree/main").is_err());
    assert!(parse_github_clone_url("https://token@github.com/org/repo").is_err());
    assert!(parse_github_clone_url("ssh://root@github.com/org/repo").is_err());
}

#[test]
fn repository_names_come_from_owner_and_repository() {
    assert_eq!(github_repository_name_from_path("/amajorai/ryu.git").unwrap(), "ryu");
    assert_eq!(github_repository_name_from_path("amajorai/ryu").unwrap(), "ryu");
    assert_eq!(
        github_repository_name_from_path("/amajorai").unwrap_err(),
        "GitHub URL must include exactly owner/repository"
    );
    assert_eq!(
        github_repository_name_from_path("/a b/ryu").unwrap_err(),
        "GitHub URL contains an invalid repository path"
    );
    assert_eq!(
        github_repository_name_from_path("/owner/.git").unwrap_err(),
        "GitHub URL must include a repository name"
    );
}

#[test]
fn commit_defaults() {
    assert!(default_include_unstaged());
    assert_eq!(commit_push_action(None).unwrap(), "commit-push");
    assert_eq!(commit_push_action(Some("push")).unwrap(), "push");
    assert_eq!(commit_push_action(Some("rm-rf")).unwrap_err(), "invalid git action");
    assert_eq!(commit_message(None), "Update via Ryu");
    assert_eq!(commit_message(Some("   ")), "Update via Ryu");
    assert_eq!(commit_message(Some(" fix it ")), "fix it");
    assert_eq!(clone_folder_name(Some("  "), "ryu"), "ryu");
    assert_eq!(clone_folder_name(Some(" mine "), "ryu"), "mine");
}

#[test]
fn turn_file_endpoints_bound_requests_before_git() {
    let err = validate_review_paths(&vec![]).unwrap_err();
    assert!(err.contains("between 1 and 64"));
    let err = validated_replacements(ReverseEditPlanBody::TextReplacements { edits: Vec::new() })
        .err()
        .unwrap();
    assert!(err.contains("between 1 and 256"));
    assert!(validate_review_paths(&vec!["src/lib.rs".to_string()]).is_ok());
    assert!(validate_review_paths(&vec![String::new()]).is_err());
    let ok = validated_replacements(ReverseEditPlanBody::TextReplacements {
        edits: vec![ReverseEditBody::Replace {
            after: "new".to_string(),
            before: "old".to_string(),
            path: "a.txt".to_string(),
        }],
    })
    .ok()
    .unwrap();
    assert_eq!(ok.len(), 1);
    assert_eq!(ok[0].path, "a.txt");
    assert!(validated_replacements(ReverseEditPlanBody::TextReplacements {
        edits: vec![ReverseEditBody::Replace {
            after: "same".to_string(),
            before: "same".to_string(),
            path: "a.txt".to_string(),
        }],
    })
    .is_err());
}

#[test]
fn git_status_missing_cwd_is_bad_request() {
    assert_eq!(status_cwd(None).unwrap_err(), "cwd query param is required");
}

#[test]
fn git_status_empty_cwd_is_bad_request() {
    assert!(status_cwd(Some("")).is_err());
    assert_eq!(status_cwd(Some("/tmp")).unwrap(), "/tmp");
}

#[test]
fn git_checkout_rejects_empty_fields() {
    for (cwd, branch) in [("", "main"), ("/some/path", ""), ("", "")] {
        let body = GitCheckoutBody { cwd: cwd.to_string(), branch: branch.to_string() };
        assert_eq!(check_branch_request(&body, true).unwrap_err(), "cwd and branch are required");
    }
}

#[test]
fn git_checkout_rejects_non_dir_cwd() {
    let body = GitCheckoutBody { cwd: NON_DIR.to_string(), branch: "main".to_string() };
    assert!(check_branch_request(&body, false).unwrap_err().contains("not a directory"));
    assert!(check_branch_request(&body, true).is_ok());
}

#[test]
fn git_commit_push_rejects_empty_cwd() {
    assert_eq!(check_workspace("", true).unwrap_err(), "cwd is required");
}

#[test]
fn git_commit_push_rejects_non_dir_cwd() {
    assert!(check_workspace(NON_DIR, false).unwrap_err().contains("not a directory"));
    assert!(check_workspace("/home/u/p", true).is_ok());
}

#[test]
fn remote_actions_stay_inside_the_home_tree() {
    assert_eq!(remote_workspace(Some("/home/u/p"), Some("/home/u")).unwrap(), "/home/u/p");
    assert_eq!(remote_workspace(Some("/home/u"), Some("/home/u")).unwrap(), "/home/u");
    assert_eq!(
        remote_workspace(Some("/home/u2/p"), Some("/home/u")).unwrap_err(),
        "cwd must stay inside the node home directory"
    );
    assert_eq!(remote_workspace(None, Some("/home/u")).unwrap_err(), "cwd could not be resolved on the node");
    assert_eq!(remote_workspace(Some("/x"), None).unwrap_err(), "node home directory is unavailable");
    assert!(listing_allowed("/home/u/docs", "/home/u"));
    assert!(!listing_allowed("/etc", "/home/u"));
}

#[test]
fn create_project_folder_rejects_unsafe_names() {
    for bad in ["", "..", "a/b", "a\\b", "foo..bar"] {
        assert!(project_folder_name(bad).is_err(), "name {bad:?} should be rejected");
    }
    assert_eq!(project_folder_name("  Plans ").unwrap(), "Plans");
    assert_eq!(folder_exists_message("Plans"), "A folder named \"Plans\" already exists");
    assert_eq!(clone_conflict_message("ryu"), "A project folder named \"ryu\" already exists");
}

#[test]
fn list_directory_defaults_to_home_when_path_absent() {
    assert!(matches!(list_target(None), ListTarget::Home));
    assert!(matches!(list_target(Some("   ")), ListTarget::Home));
    match list_target(Some("~/\\code")) {
        ListTarget::UnderHome(rest) => assert_eq!(rest, "code"),
        _ => panic!("expected a path under home"),
    }
    match list_target(Some(" /srv/x ")) {
        ListTarget::Given(p) => assert_eq!(p, "/srv/x"),
        _ => panic!("expected the given path"),
    }
}

#[test]
fn list_directory_returns_child_dirs_and_hides_files_and_dotfiles() {
    let item = |name: &str, is_dir: bool| DirItem { name: name.to_string(), path: format!("/h/{name}"), is_dir };
    let items = vec![
        item("zeta", true),
        item(".git", true),
        item("notes.txt", false),
        item("Alpha", true),
        item("beta", true),
    ];
    let entries = directory_entries(&items);
    let names: Vec<&str> = entries.iter().map(|e| e.name.as_str()).collect();
    assert_eq!(names, vec!["Alpha", "beta", "zeta"]);
    assert_eq!(entries[0].path, "/h/Alpha");
    assert!(directory_entries(&vec![]).is_empty());
}

#[test]
fn directory_entries_keep_read_order_for_names_equal_but_for_case() {
    let item = |name: &str| DirItem { name: name.to_string(), path: format!("/h/{name}"), is_dir: true };
    let names = |items: Vec<DirItem>| -> Vec<String> {
        directory_entries(&items).into_iter().map(|e| e.name).collect()
    };
    assert_eq!(names(vec![item("foo"), item("Bar"), item("Foo")]), vec!["Bar", "foo", "Foo"]);
    assert_eq!(names(vec![item("Foo"), item("Bar"), item("foo")]), vec!["Bar", "Foo", "foo"]);
}

#[test]
fn git_branches_missing_cwd_is_bad_request() {
    assert_eq!(status_cwd(None).unwrap_err(), "cwd query param is required");
}

#[test]
fn git_create_branch_rejects_empty_and_non_dir() {
    let empty = GitCheckoutBody { cwd: String::new(), branch: "feature".to_string() };
    assert!(check_branch_request(&empty, true).is_err());
    let non_dir = GitCheckoutBody { cwd: NON_DIR.to_string(), branch: "feature".to_string() };
    assert!(check_branch_request(&non_dir, false).unwrap_err().contains("not a directory"));
}

#[test]
fn git_pull_and_sync_reject_empty_and_non_dir_cwd() {
    assert!(check_workspace("", true).is_err());
    assert!(check_workspace(NON_DIR, false).unwrap_err().contains("not a directory"));
}

#[test]
fn git_pull_request_rejects_empty_and_non_dir_cwd() {
    assert!(check_workspace("", true).is_err());
    assert!(check_workspace(NON_DIR, false).unwrap_err().contains("not a directory"));
}

#[test]
fn git_commit_push_rejects_invalid_action() {
    assert_eq!(commit_push_action(Some("rm-rf")).unwrap_err(), "invalid git action");
}

#[test]
fn list_directory_rejects_paths_outside_home_tree() {
    assert!(!listing_allowed("/tmp", "/home/u"));
    assert!(!listing_allowed("/home/user", "/home/u"));
    assert!(listing_allowed("/home/u", "/home/u"));
    assert!(listing_allowed("/home/u/code", "/home/u"));
}
