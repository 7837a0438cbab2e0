use shanti::github::{
    after_claim, after_clone_run, after_gh, parse_pr_json, parse_pr_url, plan_clone, pr_info_from, pr_info_of,
    Answer, Claim, CloneRun, GhRun, Lookup, PrUrl,
};

#[test]
fn test_parse_pr_url_valid() {
    let pr = parse_pr_url("https://github.com/Pix4D/platform-cloud-django-infra/pull/59").unwrap();
    assert_eq!(pr.owner, "Pix4D");
    assert_eq!(pr.repo, "platform-cloud-django-infra");
    assert_eq!(pr.number, 59);
}

#[test]
fn test_parse_pr_url_not_github() {
    assert!(parse_pr_url("https://gitlab.com/owner/repo/merge_requests/1").is_err());
}

#[test]
fn test_parse_pr_url_missing_pull_segment() {
    assert!(parse_pr_url("https://github.com/owner/repo/issues/1").is_err());
}

#[test]
fn test_parse_pr_url_non_numeric_number() {
    assert!(parse_pr_url("https://github.com/owner/repo/pull/abc").is_err());
}

#[test]
fn every_rejected_url_says_why() {
    let not_github = parse_pr_url("https://gitlab.com/owner/repo/merge_requests/1").unwrap_err();
    let no_pull = parse_pr_url("https://github.com/owner/repo/issues/1").unwrap_err();
    let no_number = parse_pr_url("https://github.com/owner/repo/pull/abc").unwrap_err();
    assert_ne!(not_github.message(), no_pull.message());
    assert_ne!(no_pull.message(), no_number.message());
    assert!(no_number.message().contains("invalid digit"));
}

#[test]
fn a_url_reads_back_as_what_it_was_written_from() {
    let url = PrUrl {
        owner: "acme".to_string(),
        repo: "widget".to_string(),
        number: 7,
    };
    assert_eq!(url.to_url(), "https://github.com/acme/widget/pull/7");
    assert_eq!(parse_pr_url(&url.to_url()), Ok(url.clone()));
    assert_eq!(url.endpoint(), "/repos/acme/widget/pulls/7");
    assert_eq!(
        url.api_url(),
        "https://api.github.com/repos/acme/widget/pulls/7"
    );
    assert_eq!(url.remote(), "git@github.com:acme/widget.git");
}

/// Whatever is already at the destination is reported by name, and no clone goes
/// on top of it.
#[test]
fn cloning_refuses_when_the_destination_already_exists() {
    let plan = plan_clone("owner", "shanti", "/repos").expect("a plain name");
    assert_eq!(plan.dest, "/repos/shanti");

    let message = after_claim(Claim::AlreadyExists, &plan.dest).expect("cloning onto a leftover");
    assert!(
        message.contains(&plan.dest),
        "the message must name the directory: {message}"
    );
    assert_eq!(after_claim(Claim::Created, &plan.dest), None);
    assert_eq!(
        after_claim(
            Claim::Failed {
                error: "read-only".to_string()
            },
            &plan.dest
        )
        .as_deref(),
        Some("Could not create /repos/shanti: read-only")
    );
}

#[test]
fn cloning_rejects_a_name_that_is_not_one_path_segment() {
    let dir = "/repos";
    for name in ["..", ".", "", "a/b", "../elsewhere"] {
        assert!(
            plan_clone("owner", name, dir).is_err(),
            "{name:?} was accepted as a repository name"
        );
    }
    assert!(plan_clone("../owner", "shanti", dir).is_err());
}

#[test]
fn a_rejected_name_is_quoted_in_the_reason() {
    assert_eq!(
        plan_clone("owner", "a/b", "/repos"),
        Err("Refusing to clone into an unsafe path: \"a/b\" is not a plain repository name"
            .to_string())
    );
    assert_eq!(
        plan_clone("a\"b/c", "shanti", "/repos"),
        Err("Refusing to clone from an unsafe name: \"a\\\"b/c\" is not a plain repository name"
            .to_string())
    );
}

#[test]
fn a_failed_clone_says_what_git_said() {
    assert_eq!(after_clone_run(CloneRun::Succeeded), None);
    assert_eq!(
        after_clone_run(CloneRun::Failed {
            stderr: " fatal: no access\n".to_string()
        })
        .as_deref(),
        Some("git clone failed: fatal: no access")
    );
    assert_eq!(
        after_clone_run(CloneRun::NotRun {
            error: "no git".to_string()
        })
        .as_deref(),
        Some("Failed to run git clone: no git")
    );
}

#[test]
fn the_credentials_of_gh_come_first() {
    assert_eq!(after_gh(GhRun::NotInstalled), Lookup::AskDirectly);
    assert_eq!(
        after_gh(GhRun::Succeeded { stdout: vec![123] }),
        Lookup::Read { body: vec![123] }
    );
    assert_eq!(
        after_gh(GhRun::Failed {
            stderr: "  ".to_string()
        }),
        Lookup::Fail {
            message: "GitHub auth failed \u{2014} set GITHUB_TOKEN or run `gh auth login`"
                .to_string()
        }
    );
    assert_eq!(
        after_gh(GhRun::Failed {
            stderr: "gh: Not Found (HTTP 404)\n".to_string()
        }),
        Lookup::Fail {
            message: "GitHub API error: gh: Not Found (HTTP 404)".to_string()
        }
    );
    assert_eq!(
        after_gh(GhRun::NotRun {
            error: "denied".to_string()
        }),
        Lookup::Fail {
            message: "Failed to run gh: denied".to_string()
        }
    );
}

#[test]
fn an_answer_is_read_out_of_its_json() {
    let body = br#"{"head": {"ref": "feature"}, "merged": true}"#.to_vec();
    let info = parse_pr_json(&body).expect("a pull request");
    assert_eq!(info.branch_name, "feature");
    assert!(info.is_merged);

    let open = br#"{"head": {"ref": "feature"}}"#.to_vec();
    assert!(!parse_pr_json(&open).expect("a pull request").is_merged);

    let missing = br#"{"head": {}}"#.to_vec();
    assert_eq!(
        parse_pr_json(&missing),
        Err("Unexpected GitHub API response: missing head.ref".to_string())
    );

    let refused = br#"{"message": "Not Found"}"#.to_vec();
    assert_eq!(
        parse_pr_json(&refused),
        Err("GitHub API error: Not Found".to_string())
    );

    let garbage = b"<html>".to_vec();
    assert!(parse_pr_json(&garbage)
        .unwrap_err()
        .starts_with("Failed to parse GitHub API response: "));
}

#[test]
fn a_field_counts_only_with_the_type_it_should_have() {
    let odd = br#"{"message": 7, "head": {"ref": "feature"}, "merged": "yes"}"#.to_vec();
    let info = parse_pr_json(&odd).expect("a pull request");
    assert_eq!(info.branch_name, "feature");
    assert!(!info.is_merged);

    let list = br#"["message"]"#.to_vec();
    assert_eq!(
        parse_pr_json(&list),
        Err("Unexpected GitHub API response: missing head.ref".to_string())
    );
}

#[test]
fn an_answer_that_was_not_read_says_why() {
    let why = || "no JSON".to_string();
    let text = Err("Failed to parse GitHub API response: no JSON".to_string());
    assert_eq!(pr_info_from(Err(why()), Ok(None), Ok(None)), text);
    assert_eq!(pr_info_from(Ok(None), Err(why()), Ok(None)), text);
    assert_eq!(pr_info_from(Ok(None), Ok(None), Err(why())), text);
    assert!(
        pr_info_from(Ok(None), Ok(Some("feature".to_string())), Ok(Some(true)))
            .expect("a pull request")
            .is_merged
    );
}

#[test]
fn a_message_outweighs_a_branch() {
    let answer = Answer {
        message: Some("Bad credentials".to_string()),
        branch: Some("feature".to_string()),
        merged: Some(true),
    };
    assert_eq!(
        pr_info_of(answer),
        Err("GitHub API error: Bad credentials".to_string())
    );
}
