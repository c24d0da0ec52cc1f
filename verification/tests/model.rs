use giskard::model::{non_premium_context_window, Effort, ModelDescriptor, ModelRef};

#[test]
fn session_defaults_respect_exact_pricing_boundaries_and_remote_capacity() {
    for model in [
        "gpt-6-astra",
        "gpt-5.6-sol",
        "gpt-5.6-terra",
        "gpt-5.6-luna",
        "gpt-5.5",
        "gpt-5.5-pro",
        "gpt-5.5-2026-04-23",
        "gpt-5.5-pro-2026-04-23",
        "gpt-5.4",
        "gpt-5.4-pro",
        "gpt-5.4-2026-03-05",
        "gpt-5.4-pro-2026-03-05",
    ] {
        let mut descriptor = ModelDescriptor::conservative("provider", model);
        for maximum in [100_000, 271_999, 272_000, 272_001, 1_050_000] {
            descriptor.advertised_context_window = Some(maximum);
            assert_eq!(descriptor.maximum_session_context_window(), maximum);
            assert_eq!(
                descriptor.default_session_context_window(),
                maximum.min(272_000),
                "{model}"
            );
        }
    }
    for model in [
        "gpt-5.4-mini",
        "gpt-5.4-nano",
        "gpt-5.6-cyber",
        "gpt-6-astra-custom",
        "other/gpt-6-astra",
        "unknown",
    ] {
        assert_eq!(non_premium_context_window(model), None);
        let mut descriptor = ModelDescriptor::conservative("provider", model);
        descriptor.advertised_context_window = Some(1_050_000);
        assert_eq!(descriptor.default_session_context_window(), 1_050_000);
    }
}

#[test]
fn session_capacity_falls_back_without_inventing_remote_metadata() {
    let mut descriptor = ModelDescriptor::conservative("provider", "gpt-6-astra");
    assert_eq!(descriptor.advertised_context_window, None);
    assert_eq!(descriptor.default_session_context_window(), 128_000);
    descriptor.context_window = 400_000;
    assert_eq!(descriptor.default_session_context_window(), 272_000);
    descriptor.advertised_context_window = Some(0);
    descriptor.context_window = 0;
    assert_eq!(descriptor.maximum_session_context_window(), 128_000);
}

#[test]
fn model_ref_key() {
    let m = ModelRef {
        provider: "openai".into(),
        model: "gpt-5.5".into(),
        reasoning_effort: None,
        service_tier: None,
    };
    assert_eq!(m.key(), "openai/gpt-5.5");
}

#[test]
fn model_ref_equality_provider_significant() {
    let a = ModelRef {
        provider: "openai".into(),
        model: "gpt-5.5".into(),
        reasoning_effort: None,
        service_tier: None,
    };
    let b = ModelRef {
        provider: "cloudflare-litellm".into(),
        model: "gpt-5.5".into(),
        reasoning_effort: None,
        service_tier: None,
    };
    assert_ne!(a, b, "same model on different providers must be distinct");
    assert_ne!(a.key(), b.key());
}

#[test]
fn conservative_fallback() {
    let d = ModelDescriptor::conservative("acme", "mystery-1");
    assert_eq!(
        d.context_window,
        ModelDescriptor::CONSERVATIVE_CONTEXT_WINDOW
    );
    assert!(!d.supports_reasoning_effort);
    assert_eq!(d.provider, "acme");
}

#[test]
fn effort_carries_any_text() {
    assert_eq!(Effort::new("xhigh").as_str(), "xhigh");
    assert_eq!(Effort::new(String::from("ultra")), Effort::new("ultra"));
    let m = ModelRef {
        provider: "p".into(),
        model: "m".into(),
        reasoning_effort: Some(Effort::new("high")),
        service_tier: Some("future-tier".into()),
    };
    assert_eq!(m.clone(), m);
}

#[test]
fn advertised_capacity_outlives_a_limited_session() {
    let mut descriptor = ModelDescriptor::conservative("provider", "other");
    descriptor.advertised_context_window = Some(922_000);
    for reported in [0, 1, 258_400, 2_000_000] {
        descriptor.context_window = reported;
        assert_eq!(descriptor.maximum_session_context_window(), 922_000);
    }
}

#[test]
fn a_default_never_exceeds_its_maximum() {
    for id in ["gpt-5.5", "unknown"] {
        for advertised in [None, Some(0), Some(1), Some(272_000), Some(u32::MAX)] {
            for ordinary in [0, 1, 272_001] {
                let mut descriptor = ModelDescriptor::conservative("provider", id);
                descriptor.advertised_context_window = advertised;
                descriptor.context_window = ordinary;
                let default = descriptor.default_session_context_window();
                assert!(0 < default && default <= descriptor.maximum_session_context_window());
            }
        }
    }
}
