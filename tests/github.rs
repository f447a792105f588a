use pinax::github::{after_create, after_existing, after_user, commit_api_url, extract_owner_repo, HttpReply, RepoStage, RepoStep};

fn pair(a: &str, b: &str) -> Option<(String, String)> {
    Some((a.to_string(), b.to_string()))
}

fn reply(success: bool, status: u16, text: &str, body: &str) -> HttpReply {
    HttpReply { success, status, status_text: text.to_string(), body: body.to_string() }
}

#[test]
fn owner_and_repo_from_urls() {
    assert_eq!(extract_owner_repo("https://github.com/owner/repo.git"), pair("owner", "repo"));
    assert_eq!(extract_owner_repo("https://github.com/owner/repo"), pair("owner", "repo"));
    assert_eq!(extract_owner_repo("git@github.com:owner/repo.git"), pair("owner", "repo"));
    assert_eq!(extract_owner_repo("  git@github.com:owner/repo \n"), pair("owner", "repo"));
    assert_eq!(extract_owner_repo("http://github.com/o/r/tree/main"), pair("o", "r"));
    assert_eq!(extract_owner_repo("https://gitlab.com/owner/repo"), None);
    assert_eq!(extract_owner_repo("git@github.com:solo"), None);
}

#[test]
fn commit_url() {
    assert_eq!(commit_api_url("o", "r", "abc"), "https://api.github.com/repos/o/r/commits/abc");
}

#[test]
fn creation_steps() {
    assert!(matches!(after_create(&reply(true, 201, "201 Created", "{}")), RepoStep::Decode(b) if b == "{}"));
    let exists = reply(false, 422, "422 Unprocessable Entity", "{\"message\":\"name already exists on this account\"}");
    assert!(matches!(after_create(&exists), RepoStep::Get(u, RepoStage::User) if u == "https://api.github.com/user"));
    match after_create(&reply(false, 401, "401 Unauthorized", "bad creds")) {
        RepoStep::Fail(m) => assert_eq!(m, "GitHub API error (401 Unauthorized): bad creds"),
        _ => panic!(),
    }
    match after_user(&exists, "proj", true, Some("me".to_string())) {
        RepoStep::Get(u, RepoStage::Existing) => assert_eq!(u, "https://api.github.com/repos/me/proj"),
        _ => panic!(),
    }
    assert!(matches!(after_user(&exists, "proj", true, None), RepoStep::Fail(_)));
    assert!(matches!(after_existing(&exists, &reply(true, 200, "200 OK", "{\"id\":1}")), RepoStep::Decode(_)));
    match after_existing(&exists, &reply(false, 404, "404 Not Found", "")) {
        RepoStep::Fail(m) => assert!(m.starts_with("GitHub API error (422 Unprocessable Entity)")),
        _ => panic!(),
    }
}
