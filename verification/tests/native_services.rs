use giskard::error::HarnessError;
use giskard::json::Json;
use giskard::native_services::{
    answer, auth_response, finish_login, invoke, is_absolute, login_params, settle, settle_with, LoginPlan, LoginReply,
    NativeServiceProviders, ProviderRun, ServiceKind, MAX_RESPONSE_BYTES,
};
use giskard::protocol::{RequestBody, ServerRequest};

fn j(text: &str) -> Json {
    Json::read(text.as_bytes()).unwrap()
}

fn attestation() -> ServerRequest {
    ServerRequest { method: "attestation/generate".into(), body: RequestBody::Modelled(Some(j("{}"))) }
}

fn refresh(params: &str) -> ServerRequest {
    ServerRequest {
        method: "account/chatgptAuthTokens/refresh".into(),
        body: RequestBody::AuthRefresh(j(params)),
    }
}

fn provider() -> Vec<String> {
    vec!["/bin/provider".into(), "arg".into()]
}

fn printed(text: &str) -> ProviderRun {
    ProviderRun::Printed { bytes: text.as_bytes().to_vec(), success: Some(true) }
}

#[test]
fn provider_contract_uses_stdin_and_filters_secret_fields() {
    let providers = NativeServiceProviders { attestation_command: provider(), external_auth_command: vec![] };
    let (kind, run) = providers.plan(&attestation()).unwrap();
    assert_eq!(run.command, provider());
    assert_eq!(run.payload, "{\"method\":\"attestation/generate\",\"params\":{},\"version\":1}\n");
    let document = settle(&printed(r#"{"token":"stub-attestation","private":"discard"}"#)).unwrap();
    assert_eq!(answer(&kind, &document).unwrap().to_text(), r#"{"token":"stub-attestation"}"#);
}

#[test]
fn refresh_passes_account_hint_and_reason() {
    let providers = NativeServiceProviders { external_auth_command: provider(), ..Default::default() };
    let (kind, run) = providers
        .plan(&refresh(r#"{"reason":"unauthorized","previousAccountId":"stub-account"}"#))
        .unwrap();
    assert_eq!(
        run.payload,
        "{\"method\":\"account/chatgptAuthTokens/refresh\",\"params\":{\"previousAccountId\":\"stub-account\",\"reason\":\"unauthorized\"},\"version\":1}\n"
    );
    let document = settle(&printed(r#"{"accessToken":"stub-access","chatgptAccountId":"stub-account"}"#)).unwrap();
    assert_eq!(
        answer(&kind, &document).unwrap().to_text(),
        r#"{"accessToken":"stub-access","chatgptAccountId":"stub-account","chatgptPlanType":null}"#
    );
}

#[test]
fn refresh_rejects_account_switches_without_echoing_identity_or_tokens() {
    let providers = NativeServiceProviders { external_auth_command: provider(), ..Default::default() };
    let (kind, _) = providers
        .plan(&refresh(r#"{"reason":"unauthorized","previousAccountId":"previous-account"}"#))
        .unwrap();
    let document = settle(&printed(r#"{"accessToken":"secret","chatgptAccountId":"other-account"}"#)).unwrap();
    assert_eq!(
        answer(&kind, &document).unwrap_err(),
        "native auth provider attempted to change accounts during refresh"
    );
    assert!(answer(&ServiceKind::Refresh { account: None }, &document).is_ok());
}

#[test]
fn provider_failures_are_bounded_and_redacted() {
    let big = vec![0u8; MAX_RESPONSE_BYTES as usize + 1];
    for (run, expected) in [
        (
            ProviderRun::Printed { bytes: b"secret".to_vec(), success: Some(false) },
            "native service provider exited unsuccessfully",
        ),
        (printed("secret"), "native service provider returned invalid JSON"),
        (
            ProviderRun::Printed { bytes: big, success: None },
            "native service provider response exceeded 65536 bytes",
        ),
        (ProviderRun::TimedOut, "native service provider timed out"),
        (ProviderRun::NotStarted, "native service provider could not be started"),
        (ProviderRun::NoInput, "native service provider stdin unavailable"),
        (ProviderRun::NoOutput, "native service provider stdout unavailable"),
        (ProviderRun::InputFailed, "native service provider input failed"),
        (ProviderRun::OutputFailed, "native service provider output failed"),
        (
            ProviderRun::Printed { bytes: vec![], success: None },
            "native service provider wait failed",
        ),
    ] {
        assert_eq!(settle(&run).unwrap_err(), expected);
    }
    assert!(invoke(&vec![], "test", Json::object()).is_err());
    assert!(NativeServiceProviders {
        attestation_command: vec!["relative".into()],
        ..Default::default()
    }
    .validate()
    .is_err());
    assert_eq!(
        NativeServiceProviders { attestation_command: provider(), external_auth_command: vec![] }.validate(),
        Ok(())
    );
    assert_eq!(
        NativeServiceProviders { attestation_command: vec![], external_auth_command: vec!["".into()] }.validate(),
        Err(HarnessError::Protocol("native service provider executable must be an absolute path".into()))
    );
    assert!(is_absolute("/x") && !is_absolute("x/") && !is_absolute(""));
}

#[test]
fn size_counts_before_the_exit_and_the_exit_before_the_document() {
    let limit = vec![b' '; MAX_RESPONSE_BYTES as usize];
    let run = ProviderRun::Printed { bytes: limit, success: Some(true) };
    assert_eq!(settle_with(&run, Some(Json::Null)).unwrap().to_text(), "null");
    assert_eq!(settle_with(&run, None).unwrap_err(), "native service provider returned invalid JSON");
    let run = ProviderRun::Printed { bytes: vec![], success: Some(false) };
    assert_eq!(
        settle_with(&run, Some(Json::Null)).unwrap_err(),
        "native service provider exited unsuccessfully"
    );
}

#[test]
fn invalid_auth_fields_never_echo_credentials() {
    for value in [
        j(r#"{"accessToken":"secret"}"#),
        j(r#"{"accessToken":"secret","chatgptAccountId":" "}"#),
        j(r#"{"accessToken":"secret","chatgptAccountId":"a","chatgptPlanType":42}"#),
    ] {
        assert!(!auth_response(&value).unwrap_err().contains("secret"));
    }
    assert_eq!(
        auth_response(&j(r#"{"accessToken":"t","chatgptAccountId":"a","chatgptPlanType":"business","x":1}"#))
            .unwrap()
            .to_text(),
        r#"{"accessToken":"t","chatgptAccountId":"a","chatgptPlanType":"business"}"#
    );
}

#[test]
fn refreshes_are_checked_before_anything_runs() {
    let providers = NativeServiceProviders { external_auth_command: provider(), ..Default::default() };
    let fault = |request: &ServerRequest| providers.plan(request).unwrap_err();
    assert_eq!(fault(&refresh(r#"{"reason":"other"}"#)), "unsupported native auth refresh reason");
    for hint in ["7", "\" \"", "[]"] {
        let params = format!(r#"{{"reason":"unauthorized","previousAccountId":{hint}}}"#);
        assert_eq!(fault(&refresh(&params)), "invalid native auth refresh account hint");
    }
    assert!(providers.plan(&refresh(r#"{"reason":"unauthorized","previousAccountId":null}"#)).is_ok());
    assert_eq!(
        fault(&attestation()),
        "native service unavailable: configure a trusted host provider in harness configuration"
    );
    let other = ServerRequest { method: "other".into(), body: RequestBody::Unmodelled(None) };
    assert_eq!(fault(&other), "unsupported native service");
    assert!(!NativeServiceProviders::handles(&other));
    assert!(NativeServiceProviders::handles(&attestation()));
    let relative = NativeServiceProviders { external_auth_command: vec!["relative".into()], ..Default::default() };
    assert_eq!(
        relative.plan(&refresh(r#"{"reason":"unauthorized"}"#)).unwrap_err(),
        "native service provider executable must be an absolute path"
    );
}

#[test]
fn external_auth_login_and_refresh_share_provider_and_stay_off_browser_stream() {
    let providers = NativeServiceProviders { external_auth_command: provider(), ..Default::default() };
    let run = match providers.login_plan() {
        LoginPlan::Run(run) => run,
        other => panic!("unexpected {other:?}"),
    };
    assert_eq!(
        run.payload,
        "{\"method\":\"account/login/start\",\"params\":{\"type\":\"chatgptAuthTokens\"},\"version\":1}\n"
    );
    let provided = settle(&printed(r#"{"accessToken":"stub-token","chatgptAccountId":"stub-account"}"#));
    assert_eq!(
        login_params(provided).unwrap().to_text(),
        r#"{"accessToken":"stub-token","chatgptAccountId":"stub-account","chatgptPlanType":null,"type":"chatgptAuthTokens"}"#
    );
    assert_eq!(finish_login(&LoginReply::Answered(j(r#"{"type":"chatgptAuthTokens"}"#))), Ok(()));
    let (kind, _) = providers
        .plan(&refresh(r#"{"reason":"unauthorized","previousAccountId":"stub-account"}"#))
        .unwrap();
    let document = settle(&printed(r#"{"accessToken":"stub-token","chatgptAccountId":"stub-account"}"#)).unwrap();
    assert_eq!(
        answer(&kind, &document).unwrap().to_text(),
        r#"{"accessToken":"stub-token","chatgptAccountId":"stub-account","chatgptPlanType":null}"#
    );
}

#[test]
fn external_login_rejection_does_not_echo_native_error_credentials() {
    let rejected = LoginReply::Rejected(HarnessError::Transport(
        "JSON-RPC error (-32000): rejected stub-secret".into(),
    ));
    let error = finish_login(&rejected).unwrap_err().describe();
    assert!(error.contains("Codex rejected external auth login"));
    assert!(!error.contains("stub-secret"));
    assert_eq!(
        finish_login(&LoginReply::TimedOut),
        Err(HarnessError::Protocol("external auth login timed out".into()))
    );
    assert_eq!(
        finish_login(&LoginReply::Answered(Json::Null)),
        Err(HarnessError::Protocol(
            "Codex returned an unexpected external auth login response".into()
        ))
    );
}

#[test]
fn a_login_needs_a_usable_provider() {
    assert!(matches!(NativeServiceProviders::default().login_plan(), LoginPlan::Skip));
    let relative = NativeServiceProviders { external_auth_command: vec!["relative".into()], ..Default::default() };
    assert!(matches!(relative.login_plan(), LoginPlan::Fail(HarnessError::Protocol(_))));
    assert_eq!(
        login_params(Err("native service provider timed out")).unwrap_err(),
        HarnessError::Protocol("native service provider timed out".into())
    );
    assert_eq!(
        login_params(Ok(Json::Null)).unwrap_err(),
        HarnessError::Protocol("native service provider response has a missing or empty required field".into())
    );
}
