use gt_tool::api::release::{
    create_release_url, delete_release, edit_release, get_latest_release, get_release,
    list_releases_url,
};
use gt_tool::api::release_attachment::{
    attachment_name, check_release_match_repo, delete_release_attachment,
    edit_release_attachment, get_release_attachment, list_release_attachments,
    release_assets_url,
};
use gt_tool::api::{classify_status, ReplyKind};
use gt_tool::commands::{
    authorization_value, match_release_by_tag, release_ids_with_tag, release_listing,
    release_submission, resolve_gitea_url, resolve_project, resolve_repo_fqrn, resolve_token,
    upload_precheck, user_agent, FileCheck, UploadPrecheck,
};
use gt_tool::structs::release::{Author, Release};
use gt_tool::Error;

fn s(x: &str) -> String {
    String::from(x)
}

fn release(id: usize, tag: &str) -> Release {
    Release {
        id,
        tag_name: s(tag),
        target_commitish: s("main"),
        name: format!("Release {tag}"),
        body: s(""),
        url: s(""),
        html_url: s(""),
        tarball_url: s(""),
        zipball_url: s(""),
        upload_url: s(""),
        draft: false,
        prerelease: false,
        created_at: s("2024-01-01T00:00:00Z"),
        published_at: s("2024-01-01T00:00:00Z"),
        author: Author {
            id: 1,
            login: s("robert"),
            login_name: s(""),
            source_id: 0,
            full_name: s("Robert"),
            email: s("robert@example.com"),
        },
    }
}

#[test]
fn gitea_url_prefers_the_command_line() {
    assert_eq!(resolve_gitea_url(Some(s("http://cli")), Some(s("http://conf"))).unwrap(), "http://cli");
    assert_eq!(resolve_gitea_url(None, Some(s("http://conf"))).unwrap(), "http://conf");
    assert!(matches!(resolve_gitea_url(None, None), Err(Error::MissingGiteaUrl)));
}

#[test]
fn repo_name_is_joined_from_the_configuration() {
    assert_eq!(resolve_repo_fqrn(Some(s("a/b")), Some(s("o")), Some(s("r"))).unwrap(), "a/b");
    assert_eq!(resolve_repo_fqrn(None, Some(s("robert")), Some(s("gt-tool"))).unwrap(), "robert/gt-tool");
    assert!(matches!(resolve_repo_fqrn(None, Some(s("o")), None), Err(Error::MissingRepoFRQN)));
    assert!(matches!(resolve_repo_fqrn(None, None, Some(s("r"))), Err(Error::MissingRepoFRQN)));
}

#[test]
fn token_prefers_the_environment() {
    assert_eq!(resolve_token(Some(s("env")), Some(s("conf"))), Some(s("env")));
    assert_eq!(resolve_token(None, Some(s("conf"))), Some(s("conf")));
    assert_eq!(resolve_token(None, None), None);
}

#[test]
fn project_prefers_the_command_line() {
    assert_eq!(resolve_project(Some(s("/x")), s("/cwd")), "/x");
    assert_eq!(resolve_project(None, s("/cwd")), "/cwd");
}

#[test]
fn header_values() {
    assert_eq!(authorization_value("abc123"), "token abc123");
    assert_eq!(user_agent("0.1.0"), "gt-tools-agent-0.1.0");
}

#[test]
fn submission_is_never_a_prerelease() {
    let option = release_submission(s("body"), true, s("name"), s("v1.0"), s("main"));
    assert_eq!(option.body, "body");
    assert!(option.draft);
    assert_eq!(option.name, "name");
    assert!(!option.prerelease);
    assert_eq!(option.tag_name, "v1.0");
    assert_eq!(option.target_commitish, "main");
}

#[test]
fn ids_with_tag_in_order() {
    let releases = vec![release(3, "v1"), release(5, "v2"), release(8, "v1")];
    assert_eq!(release_ids_with_tag(&s("v1"), &releases), vec![3, 8]);
    assert_eq!(release_ids_with_tag(&s("v2"), &releases), vec![5]);
    assert!(release_ids_with_tag(&s("v3"), &releases).is_empty());
}

#[test]
fn match_finds_the_tagged_release() {
    let releases = vec![release(3, "v1"), release(5, "v2"), release(8, "v3")];
    let found = match_release_by_tag(&s("v2"), releases).unwrap();
    assert_eq!(found.id, 5);
    assert_eq!(found.tag_name, "v2");
}

#[test]
fn match_without_the_tag_is_none() {
    let releases = vec![release(3, "v1"), release(5, "v2")];
    assert!(match_release_by_tag(&s("v9"), releases).is_none());
    assert!(match_release_by_tag(&s("v1"), vec![]).is_none());
}

#[test]
fn listing_puts_newest_last_with_blank_lines() {
    let entries = vec![s("newest"), s("middle"), s("oldest")];
    assert_eq!(release_listing(&entries), vec![s("oldest"), s(""), s("middle"), s(""), s("newest")]);
    assert_eq!(release_listing(&vec![s("only")]), vec![s("only")]);
    assert!(release_listing(&vec![]).is_empty());
}

#[test]
fn status_codes() {
    assert_eq!(classify_status(200), ReplyKind::Success);
    assert_eq!(classify_status(201), ReplyKind::Success);
    assert_eq!(classify_status(299), ReplyKind::Success);
    assert_eq!(classify_status(300), ReplyKind::Unexpected);
    assert_eq!(classify_status(404), ReplyKind::ClientError);
    assert_eq!(classify_status(499), ReplyKind::ClientError);
    assert_eq!(classify_status(500), ReplyKind::Unexpected);
    assert_eq!(classify_status(199), ReplyKind::Unexpected);
}

#[test]
fn release_urls() {
    assert_eq!(
        list_releases_url("https://demo.gitea.com", "robert/gt-tool"),
        "https://demo.gitea.com/api/v1/repos/robert/gt-tool/releases/"
    );
    assert_eq!(
        create_release_url("http://localhost:3000", "o/r"),
        "http://localhost:3000/api/v1/repos/o/r/releases"
    );
    assert_eq!(
        release_assets_url("http://localhost:3000", "o/r", 1205),
        "http://localhost:3000/api/v1/repos/o/r/releases/1205/assets"
    );
    assert_eq!(release_assets_url("h", "o/r", 0), "h/api/v1/repos/o/r/releases/0/assets");
    assert_eq!(
        release_assets_url("h", "o/r", usize::MAX),
        format!("h/api/v1/repos/o/r/releases/{}/assets", usize::MAX)
    );
}

#[test]
fn attachment_names_are_the_last_path_component() {
    assert_eq!(attachment_name("target/release/gt-tool"), "gt-tool");
    assert_eq!(attachment_name("README.md"), "README.md");
    assert_eq!(attachment_name("dir/"), "");
    assert_eq!(attachment_name("/abs/path/file.tar.gz"), "file.tar.gz");
    assert_eq!(attachment_name(""), "");
}

#[test]
fn unimplemented_requests_fail_with_placeholder() {
    assert!(matches!(get_release(1), Err(Error::Placeholder)));
    assert!(matches!(get_latest_release(), Err(Error::Placeholder)));
    assert!(matches!(edit_release(1), Err(Error::Placeholder)));
    assert!(matches!(delete_release(1), Err(Error::Placeholder)));
    check_release_match_repo();
    get_release_attachment();
    list_release_attachments();
    edit_release_attachment();
    delete_release_attachment();
}

#[test]
fn upload_precheck_reports_the_first_problem() {
    assert_eq!(upload_precheck(&vec![FileCheck::Exists, FileCheck::Exists]), UploadPrecheck::AllPresent);
    assert_eq!(upload_precheck(&vec![]), UploadPrecheck::AllPresent);
    assert_eq!(upload_precheck(&vec![FileCheck::Exists, FileCheck::Missing, FileCheck::Unknown]), UploadPrecheck::Missing(1));
    assert_eq!(upload_precheck(&vec![FileCheck::Unknown, FileCheck::Missing]), UploadPrecheck::Unchecked(0));
}
