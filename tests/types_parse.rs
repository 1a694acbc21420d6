use cargo_prebuilt::types::{index_url_allowed, ReportType, SigType, SpecType, TypingError, VerifyType};

fn unknown_parts(e: TypingError) -> (String, String, String) {
    match e {
        TypingError::UnknownValue { t, possible, val } => (t, possible, val),
    }
}

#[test]
fn spec_type_parses_known_names() {
    assert_eq!(SpecType::from_str("cuhttp").unwrap(), SpecType::CustomHttp);
    assert_eq!(SpecType::from_str("cufile").unwrap(), SpecType::CustomFile);
    assert_eq!(SpecType::from_str("gh-pub").unwrap(), SpecType::GitHubPublic);
    assert_eq!(SpecType::default(), SpecType::GitHubPublic);
}

#[test]
fn spec_type_rejects_unknown_name() {
    let (t, possible, val) = unknown_parts(SpecType::from_str("gh-pri").unwrap_err());
    assert_eq!(t, "Spec");
    assert_eq!(possible, "cuhttp, cufile, gh-pub");
    assert_eq!(val, "gh-pri");
}

#[test]
fn sig_type_parses_and_defaults_to_minisign() {
    assert_eq!(SigType::from_str("none").unwrap(), SigType::Disabled);
    assert_eq!(SigType::from_str("minisign").unwrap(), SigType::MiniSign);
    assert_eq!(SigType::default(), SigType::MiniSign);
    let (t, _, val) = unknown_parts(SigType::from_str("gpg").unwrap_err());
    assert_eq!(t, "Sig");
    assert_eq!(val, "gpg");
}

#[test]
fn verify_type_parses_every_algorithm() {
    assert_eq!(VerifyType::from_str("none").unwrap(), VerifyType::Disabled);
    assert_eq!(VerifyType::from_str("sha3_512").unwrap(), VerifyType::Sha3_512);
    assert_eq!(VerifyType::from_str("sha3_256").unwrap(), VerifyType::Sha3_256);
    assert_eq!(VerifyType::from_str("sha512").unwrap(), VerifyType::Sha512);
    assert_eq!(VerifyType::from_str("sha256").unwrap(), VerifyType::Sha256);
    let (t, possible, val) = unknown_parts(VerifyType::from_str("md5").unwrap_err());
    assert_eq!(t, "Verify");
    assert_eq!(possible, "none, sha256, sha512, sha3_256, sha3_512");
    assert_eq!(val, "md5");
}

#[test]
fn verify_type_defaults_are_strongest_first() {
    let d: Vec<VerifyType> = VerifyType::get_defaults().into_iter().collect();
    assert_eq!(
        d,
        vec![VerifyType::Sha3_512, VerifyType::Sha3_256, VerifyType::Sha512, VerifyType::Sha256]
    );
}

#[test]
fn report_type_parses_and_defaults_to_license() {
    assert_eq!(ReportType::from_str("audit_dl").unwrap(), ReportType::AuditDL);
    assert_eq!(ReportType::from_str("audit_out").unwrap(), ReportType::AuditOut);
    assert_eq!(ReportType::from_str("deps_dl").unwrap(), ReportType::DepsDL);
    assert_eq!(ReportType::from_str("deps_out").unwrap(), ReportType::DepsOut);
    assert_eq!(ReportType::from_str("license_dl").unwrap(), ReportType::LicenseDL);
    assert_eq!(ReportType::from_str("license_out").unwrap(), ReportType::LicenseOut);
    let (t, _, val) = unknown_parts(ReportType::from_str("").unwrap_err());
    assert_eq!(t, "Report");
    assert_eq!(val, "");
    let d = ReportType::get_defaults();
    assert_eq!(d.len(), 1);
    assert!(d.contains(&ReportType::LicenseDL));
}

#[test]
fn typing_error_message_names_value_and_choices() {
    let e = SigType::from_str("gpg").unwrap_err();
    assert_eq!(
        e.message(),
        "Sig contains unknown value gpg. Try none, minisign. Do you have the right features enabled?"
    );
}

#[test]
fn plaintext_index_is_refused() {
    assert!(index_url_allowed(SpecType::GitHubPublic, "https://github.com/cargo-prebuilt/index"));
    assert!(!index_url_allowed(SpecType::GitHubPublic, "http://github.com/cargo-prebuilt/index"));
    assert!(!index_url_allowed(SpecType::CustomHttp, "https:/"));
    assert!(!index_url_allowed(SpecType::CustomHttp, ""));
    assert!(index_url_allowed(SpecType::CustomFile, "/srv/index"));
}
