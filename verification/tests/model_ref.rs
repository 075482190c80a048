use fabro::model_ref::{
    AmbiguousModelRef, ModelRef, ModelRegistry, ParseModelRefError, ResolvedModelRef,
};

struct TestRegistry {
    providers: &'static [&'static str],
    models: &'static [&'static str],
}

impl ModelRegistry for TestRegistry {
    fn is_provider(&self, token: &str) -> bool {
        self.providers.contains(&token)
    }

    fn is_model(&self, token: &str) -> bool {
        self.models.contains(&token)
    }
}

#[test]
fn parses_bare_token() {
    assert_eq!(
        "openai".parse::<ModelRef>().unwrap(),
        ModelRef::Bare("openai".into())
    );
}

#[test]
fn parses_colon_qualified() {
    assert_eq!(
        "gemini:gemini-flash".parse::<ModelRef>().unwrap(),
        ModelRef::Qualified {
            provider: "gemini".into(),
            selector: "gemini-flash".into(),
        }
    );
}

#[test]
fn parses_legacy_slash_qualified() {
    assert_eq!(
        "gemini/gemini-flash".parse::<ModelRef>().unwrap(),
        ModelRef::Qualified {
            provider: "gemini".into(),
            selector: "gemini-flash".into(),
        }
    );
}

#[test]
fn colon_qualified_selector_may_contain_slashes_and_colons() {
    assert_eq!(
        "openrouter:moonshotai/kimi-k3".parse::<ModelRef>().unwrap(),
        ModelRef::Qualified {
            provider: "openrouter".into(),
            selector: "moonshotai/kimi-k3".into(),
        }
    );
    assert_eq!(
        "bedrock:us.amazon.nova-micro-4-5-20251001-v1:0"
            .parse::<ModelRef>()
            .unwrap(),
        ModelRef::Qualified {
            provider: "bedrock".into(),
            selector: "us.amazon.nova-micro-4-5-20251001-v1:0".into(),
        }
    );
}

#[test]
fn rejects_too_many_slashes() {
    let err = "a/b/c".parse::<ModelRef>().unwrap_err();
    assert!(matches!(err, ParseModelRefError::TooManySlashes { .. }));
    assert_eq!(
        err.to_string(),
        r#"model reference "a/b/c": qualify it as "provider:selector" when the selector contains "/""#
    );
}

#[test]
fn rejects_empty_side() {
    assert!(matches!(
        "/foo".parse::<ModelRef>().unwrap_err(),
        ParseModelRefError::EmptySide { .. }
    ));
    assert!(matches!(
        "foo/".parse::<ModelRef>().unwrap_err(),
        ParseModelRefError::EmptySide { .. }
    ));
    assert!(matches!(
        ":foo".parse::<ModelRef>().unwrap_err(),
        ParseModelRefError::EmptySide { .. }
    ));
    assert!(matches!(
        "foo:".parse::<ModelRef>().unwrap_err(),
        ParseModelRefError::EmptySide { .. }
    ));
}

#[test]
fn rejects_empty_input() {
    assert!(matches!(
        "".parse::<ModelRef>().unwrap_err(),
        ParseModelRefError::Empty
    ));
}

#[test]
fn resolves_unique_provider_token() {
    let reg = TestRegistry {
        providers: &["openai"],
        models: &[],
    };
    let resolved = ModelRef::Bare("openai".into()).resolve(&reg).unwrap();
    assert_eq!(resolved, ResolvedModelRef::Provider("openai".into()));
}

#[test]
fn resolves_unique_model_token() {
    let reg = TestRegistry {
        providers: &[],
        models: &["gpt-5.4"],
    };
    let resolved = ModelRef::Bare("gpt-5.4".into()).resolve(&reg).unwrap();
    assert_eq!(
        resolved,
        ResolvedModelRef::Model {
            provider: None,
            selector: "gpt-5.4".into(),
        }
    );
}

#[test]
fn ambiguous_bare_token_errors() {
    let reg = TestRegistry {
        providers: &["ambiguous"],
        models: &["ambiguous"],
    };
    let err = ModelRef::Bare("ambiguous".into())
        .resolve(&reg)
        .unwrap_err();
    assert_eq!(err.input, "ambiguous");
}

#[test]
fn qualified_never_ambiguous() {
    let reg = TestRegistry {
        providers: &["ambiguous"],
        models: &["ambiguous"],
    };
    let resolved = ModelRef::Qualified {
        provider: "a".into(),
        selector: "b".into(),
    }
    .resolve(&reg)
    .unwrap();
    assert_eq!(
        resolved,
        ResolvedModelRef::Model {
            provider: Some("a".into()),
            selector: "b".into(),
        }
    );
}

#[test]
fn display_round_trip() {
    for input in [
        "openai",
        "gpt-5.4",
        "gemini:gemini-flash",
        "openrouter:moonshotai/kimi-k3",
    ] {
        let parsed: ModelRef = input.parse().unwrap();
        assert_eq!(parsed.to_string(), input);
    }
}

#[test]
fn display_canonicalizes_legacy_slash_separator() {
    let parsed: ModelRef = "gemini/gemini-flash".parse().unwrap();
    assert_eq!(parsed.to_string(), "gemini:gemini-flash");
}

#[test]
fn unknown_tokens_are_taken_for_models() {
    let reg = TestRegistry {
        providers: &[],
        models: &[],
    };
    assert_eq!(
        ModelRef::Bare("mystery".into()).resolve(&reg),
        Ok(ResolvedModelRef::Model {
            provider: None,
            selector: "mystery".into(),
        })
    );
}

#[test]
fn surrounding_white_space_is_ignored() {
    assert_eq!(
        ModelRef::parse(" \u{a0}gemini:flash\n"),
        Ok(ModelRef::Qualified {
            provider: "gemini".into(),
            selector: "flash".into(),
        })
    );
    assert_eq!(ModelRef::parse(" \t"), Err(ParseModelRefError::Empty));
}

#[test]
fn reference_errors_quote_their_input() {
    assert_eq!(ParseModelRefError::Empty.to_string(), "model reference is empty");
    assert_eq!(
        ModelRef::parse(" a\"b/").unwrap_err().to_string(),
        r#"model reference " a\"b/": provider and selector sides must both be non-empty"#
    );
    let ambiguous = AmbiguousModelRef {
        input: "x".into(),
        providers: vec!["x".into(), "y".into()],
        models: vec![],
    };
    assert_eq!(
        ambiguous.to_string(),
        r#"model reference "x" is ambiguous: matches provider names ["x", "y"] and model names []; qualify it as "provider:model""#
    );
}
