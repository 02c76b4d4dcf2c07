use invariant_fuzz::config::{
    check_verifier_url, is_host_only, VerificationProviderType, VerifierArgs, VerifierUrlProblem,
};
use reqwest::Url;

#[test]
fn test_host_only() {
    assert!(!is_host_only(Url::parse("https://blockscout.net/api").unwrap().path()));
    assert!(is_host_only(Url::parse("https://blockscout.net/").unwrap().path()));
    assert!(is_host_only(Url::parse("https://blockscout.net").unwrap().path()));
}

#[test]
fn verifier_url_checks() {
    assert_eq!(check_verifier_url("https://blockscout.net/api"), Ok(()));
    assert_eq!(check_verifier_url("https://blockscout.net"), Err(VerifierUrlProblem::HostOnly));
    assert_eq!(check_verifier_url("not a url"), Err(VerifierUrlProblem::Invalid));
}

#[test]
fn default_verifier_is_etherscan() {
    let args = VerifierArgs::default();
    assert_eq!(args.verifier, VerificationProviderType::Etherscan);
    assert!(args.verifier_url.is_none());
    assert_eq!(args.check_url(), Ok(()));
    let custom = VerifierArgs {
        verifier: VerificationProviderType::Sourcify,
        verifier_url: Some("https://example.org/".to_string()),
    };
    assert_eq!(custom.check_url(), Err(VerifierUrlProblem::HostOnly));
}
