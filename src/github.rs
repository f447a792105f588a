//! The hosting service's side: repository creation with recovery when the
//! repository already exists, and owner/repository names from remote URLs.
use vstd::prelude::*;
use vstd::string::*;
use crate::text::{
    chars_of, contains, contains_in, ends_with, has_prefix, has_suffix, replace_all, replace_vec, slice_vec,
    split_by, split_on, starts_with, string_from, trim, trim_vec, views,
};

verus! {

/// The body of a repository-creation request.
#[derive(Clone, Debug)]
pub struct CreateRepoRequest {
    pub name: String,
    pub description: Option<String>,
    pub private: bool,
}

/// A repository as the hosting service describes it.
#[derive(Clone, Debug)]
pub struct GitHubRepo {
    pub id: u64,
    pub name: String,
    pub full_name: String,
    pub html_url: String,
    pub ssh_url: String,
    pub clone_url: String,
}

/// `p` without one trailing `.git`.
pub open spec fn strip_git(p: Seq<char>) -> Seq<char> {
    if ends_with(p, ".git"@) {
        p.subrange(0, p.len() - 4)
    } else {
        p
    }
}

/// The first two `/`-separated pieces of a path, when it has two.
pub open spec fn first_two(p: Seq<char>) -> Option<(Seq<char>, Seq<char>)> {
    let parts = split_on(strip_git(p), '/');
    if parts.len() >= 2 {
        Some((parts[0], parts[1]))
    } else {
        None
    }
}

/// Owner and repository of a remote URL in SSH form (`git@github.com:o/r.git`)
/// or in HTTP(S) form (`https://github.com/o/r`).
pub open spec fn owner_repo(raw: Seq<char>) -> Option<(Seq<char>, Seq<char>)> {
    let url = trim(raw);
    let ssh = "git@github.com:"@;
    let from_ssh = if starts_with(url, ssh) {
        first_two(url.subrange(ssh.len() as int, url.len() as int))
    } else {
        None
    };
    if from_ssh is Some {
        from_ssh
    } else if contains(url, "github.com"@) {
        first_two(replace_all(replace_all(replace_all(url, "https://"@, Seq::empty()), "http://"@, Seq::empty()),
            "github.com/"@, Seq::empty()))
    } else {
        None
    }
}

fn first_two_of(p: &Vec<char>) -> (r: Option<(String, String)>)
    ensures
        r matches Some((a, b)) ==> first_two(p@) == Some((a@, b@)),
        r is None ==> first_two(p@) is None,
{
    let git = chars_of(".git");
    proof {
        reveal_strlit(".git");
    }
    let n = p.len();
    let body = if has_suffix(p, &git) { slice_vec(p, 0, n - 4) } else { slice_vec(p, 0, n) };
    assert(p@.subrange(0, n as int) == p@);
    let parts = split_by(&body, '/');
    if parts.len() >= 2 {
        assert(views(parts@)[0] == parts@[0]@);
        assert(views(parts@)[1] == parts@[1]@);
        Some((string_from(&parts[0]), string_from(&parts[1])))
    } else {
        None
    }
}

/// Owner and repository of a hosting-service remote URL.
pub fn extract_owner_repo(remote_url: &str) -> (r: Option<(String, String)>)
    ensures
        r matches Some((a, b)) ==> owner_repo(remote_url@) == Some((a@, b@)),
        r is None ==> owner_repo(remote_url@) is None,
{
    let raw = chars_of(remote_url);
    let url = trim_vec(&raw);
    let ssh = chars_of("git@github.com:");
    if has_prefix(&url, &ssh) {
        let n = url.len();
        let rest = slice_vec(&url, ssh.len(), n);
        if let Some(pair) = first_two_of(&rest) {
            return Some(pair);
        }
    }
    if contains_in(&url, &chars_of("github.com")) {
        let empty: Vec<char> = Vec::new();
        let a = replace_vec(&url, &chars_of("https://"), &empty);
        let b = replace_vec(&a, &chars_of("http://"), &empty);
        let c = replace_vec(&b, &chars_of("github.com/"), &empty);
        assert(empty@ == Seq::<char>::empty());
        return first_two_of(&c);
    }
    None
}

/// The service's address for one commit of a repository.
pub fn commit_api_url(owner: &str, repo: &str, hash: &str) -> (r: String)
    ensures
        r@ == "https://api.github.com/repos/"@ + owner@ + "/"@ + repo@ + "/commits/"@ + hash@,
{
    let mut s = String::new();
    s.append("https://api.github.com/repos/");
    s.append(owner);
    s.append("/");
    s.append(repo);
    s.append("/commits/");
    s.append(hash);
    assert(s@ =~= "https://api.github.com/repos/"@ + owner@ + "/"@ + repo@ + "/commits/"@ + hash@);
    s
}

/// The service's address for a repository of a user.
pub fn repo_api_url(login: &str, name: &str) -> (r: String)
    ensures
        r@ == "https://api.github.com/repos/"@ + login@ + "/"@ + name@,
{
    let mut s = String::new();
    s.append("https://api.github.com/repos/");
    s.append(login);
    s.append("/");
    s.append(name);
    assert(s@ =~= "https://api.github.com/repos/"@ + login@ + "/"@ + name@);
    s
}

/// A reply of the service.
#[derive(Clone, Debug)]
pub struct HttpReply {
    pub success: bool,
    /// The status code.
    pub status: u16,
    /// The status as shown to a user, such as `422 Unprocessable Entity`.
    pub status_text: String,
    pub body: String,
}

/// The stages of creating a repository.
#[derive(Clone, Copy, Debug, PartialEq, Eq, Structural)]
pub enum RepoStage {
    /// The reply to the creation request.
    Create,
    /// The reply that names the signed-in user.
    User,
    /// The reply that describes the repository that already existed.
    Existing,
}

/// What to do next while creating a repository.
#[derive(Debug)]
pub enum RepoStep {
    /// Fetch this address and come back in this stage.
    Get(String, RepoStage),
    /// Read the repository from this reply body.
    Decode(String),
    /// Stop with this message.
    Fail(String),
}

/// The message of a refused creation request.
pub open spec fn api_error_text(reply: HttpReply) -> Seq<char> {
    "GitHub API error ("@ + reply.status_text@ + "): "@ + reply.body@
}

/// A refusal that means that the repository already exists.
pub open spec fn already_exists(reply: HttpReply) -> bool {
    reply.status == 422 && contains(reply.body@, "name already exists"@)
}

fn api_error(reply: &HttpReply) -> (r: String)
    ensures
        r@ == api_error_text(*reply),
{
    let mut s = String::new();
    s.append("GitHub API error (");
    s.append(reply.status_text.as_str());
    s.append("): ");
    s.append(reply.body.as_str());
    assert(s@ =~= api_error_text(*reply));
    s
}

/// The step after the reply to a creation request: the new repository, or a
/// lookup of the signed-in user when the repository already exists, or the
/// service's error.
pub fn after_create(reply: &HttpReply) -> (r: RepoStep)
    ensures
        reply.success ==> (r matches RepoStep::Decode(b) && b@ == reply.body@),
        !reply.success && already_exists(*reply) ==> (r matches RepoStep::Get(u, RepoStage::User)
            && u@ == "https://api.github.com/user"@),
        !reply.success && !already_exists(*reply) ==> (r matches RepoStep::Fail(m) && m@ == api_error_text(*reply)),
{
    if reply.success {
        return RepoStep::Decode(reply.body.clone());
    }
    let body = chars_of(reply.body.as_str());
    if reply.status == 422 && contains_in(&body, &chars_of("name already exists")) {
        RepoStep::Get("https://api.github.com/user".to_string(), RepoStage::User)
    } else {
        RepoStep::Fail(api_error(reply))
    }
}

/// The step after the user lookup: fetch that user's repository of the
/// requested name, or fail with the creation request's error.
pub fn after_user(created: &HttpReply, name: &str, user_found: bool, login: Option<String>) -> (r: RepoStep)
    ensures
        user_found && login is Some ==> (r matches RepoStep::Get(u, RepoStage::Existing)
            && u@ == "https://api.github.com/repos/"@ + login->0@ + "/"@ + name@),
        !(user_found && login is Some) ==> (r matches RepoStep::Fail(m) && m@ == api_error_text(*created)),
{
    match login {
        Some(l) => {
            if user_found {
                RepoStep::Get(repo_api_url(l.as_str(), name), RepoStage::Existing)
            } else {
                RepoStep::Fail(api_error(created))
            }
        },
        None => RepoStep::Fail(api_error(created)),
    }
}

/// The step after fetching the repository that already existed.
pub fn after_existing(created: &HttpReply, reply: &HttpReply) -> (r: RepoStep)
    ensures
        reply.success ==> (r matches RepoStep::Decode(b) && b@ == reply.body@),
        !reply.success ==> (r matches RepoStep::Fail(m) && m@ == api_error_text(*created)),
{
    if reply.success {
        RepoStep::Decode(reply.body.clone())
    } else {
        RepoStep::Fail(api_error(created))
    }
}

} // verus!
