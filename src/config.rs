use vstd::prelude::*;
use vstd::string::StrSliceExecFns;

verus! {

/// The services that accept contract verification requests.
#[derive(Clone, Copy, Debug, PartialEq, Eq, Structural)]
pub enum VerificationProviderType {
    Etherscan,
    Sourcify,
    Blockscout,
}

/// Which verification provider to use, and its URL when it is a custom one.
#[derive(Clone, Debug)]
pub struct VerifierArgs {
    pub verifier: VerificationProviderType,
    pub verifier_url: Option<String>,
}

impl Default for VerifierArgs {
    fn default() -> (r: VerifierArgs)
        ensures
            r.verifier == VerificationProviderType::Etherscan,
            r.verifier_url is None,
    {
        VerifierArgs { verifier: VerificationProviderType::Etherscan, verifier_url: None }
    }
}

/// What is wrong with a configured verifier URL.
#[derive(Clone, Copy, Debug, PartialEq, Eq, Structural)]
pub enum VerifierUrlProblem {
    /// The text is not a URL.
    Invalid,
    /// The URL names a host and no API path.
    HostOnly,
}

/// The path of the URL written in `s`, or none when `s` is not a valid absolute URL.
pub uninterp spec fn url_path_of(s: Seq<char>) -> Option<Seq<char>>;

/// Relies on url::Url::parse (re-exported by reqwest) to parse an absolute URL, and on
/// url::Url::path for its path; both depend on the text alone.
#[verifier::external_body]
fn parse_url_path(s: &str) -> (r: Option<String>)
    ensures
        match r {
            Some(p) => url_path_of(s@) == Some(p@),
            None => url_path_of(s@) is None,
        },
{
    match reqwest::Url::parse(s) {
        Ok(url) => Some(url.path().to_string()),
        Err(_) => None,
    }
}

/// A path that holds nothing beyond the host: empty or a single slash.
pub open spec fn host_only_path(p: Seq<char>) -> bool {
    p.len() == 0 || p == seq!['/']
}

/// Whether a URL with this path consists of its host only.
pub fn is_host_only(path: &str) -> (r: bool)
    ensures
        r == host_only_path(path@),
{
    let n = path.unicode_len();
    if n == 0 {
        return true;
    }
    if n == 1 && path.get_char(0) == '/' {
        assert(path@ =~= seq!['/']);
        return true;
    }
    false
}

/// Checks a verifier URL before it is used: it must parse, and it must name more than
/// its host (an API endpoint such as `/api`).
pub fn check_verifier_url(url: &str) -> (r: Result<(), VerifierUrlProblem>)
    ensures
        match url_path_of(url@) {
            None => r == Err::<(), VerifierUrlProblem>(VerifierUrlProblem::Invalid),
            Some(p) => r == if host_only_path(p) {
                Err::<(), VerifierUrlProblem>(VerifierUrlProblem::HostOnly)
            } else {
                Ok::<(), VerifierUrlProblem>(())
            },
        },
{
    match parse_url_path(url) {
        None => Err(VerifierUrlProblem::Invalid),
        Some(p) => {
            if is_host_only(p.as_str()) {
                Err(VerifierUrlProblem::HostOnly)
            } else {
                Ok(())
            }
        },
    }
}

impl VerifierArgs {
    /// Checks the custom verifier URL, if one is configured.
    pub fn check_url(&self) -> (r: Result<(), VerifierUrlProblem>)
        ensures
            match &self.verifier_url {
                None => r == Ok::<(), VerifierUrlProblem>(()),
                Some(u) => match url_path_of(u@) {
                    None => r == Err::<(), VerifierUrlProblem>(VerifierUrlProblem::Invalid),
                    Some(p) => r == if host_only_path(p) {
                        Err::<(), VerifierUrlProblem>(VerifierUrlProblem::HostOnly)
                    } else {
                        Ok::<(), VerifierUrlProblem>(())
                    },
                },
            },
    {
        match &self.verifier_url {
            None => Ok(()),
            Some(u) => check_verifier_url(u.as_str()),
        }
    }
}

} // verus!
