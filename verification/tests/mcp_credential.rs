use darkshell::bridge_error::BridgeError;
use darkshell::credential::{env_from_resolved, inject_credentials, CredentialProvider, CredentialSpec};
use std::collections::HashMap;

struct MockProvider {
    credentials: HashMap<(String, String), String>,
}

impl MockProvider {
    fn new(entries: Vec<(&str, &str, &str)>) -> Self {
        let mut credentials = HashMap::new();
        for (provider, key, value) in entries {
            credentials.insert((provider.to_string(), key.to_string()), value.to_string());
        }
        Self { credentials }
    }
}

impl CredentialProvider for MockProvider {
    fn resolve(&self, provider: &str, key: &str) -> Result<String, BridgeError> {
        self.credentials
            .get(&(provider.to_string(), key.to_string()))
            .cloned()
            .ok_or_else(|| BridgeError::CredentialNotFound {
                provider: provider.to_string(),
                key: key.to_string(),
            })
    }
}

struct UnavailableProvider;

impl CredentialProvider for UnavailableProvider {
    fn resolve(&self, _provider: &str, _key: &str) -> Result<String, BridgeError> {
        Err(BridgeError::ProviderUnavailable)
    }
}

fn spec(provider: &str, key: &str) -> CredentialSpec {
    CredentialSpec { provider: provider.to_string(), env_key: key.to_string() }
}

#[test]
fn inject_credentials_resolves_all_from_provider() {
    let provider = MockProvider::new(vec![
        ("perplexity", "PERPLEXITY_API_KEY", "secret-pplx-123"),
        ("tavily", "TAVILY_API_KEY", "secret-tvly-456"),
    ]);
    let specs = vec![spec("perplexity", "PERPLEXITY_API_KEY"), spec("tavily", "TAVILY_API_KEY")];
    let result = inject_credentials(&specs, &provider).expect("should resolve");
    assert_eq!(result.len(), 2);
    assert_eq!(result.get("PERPLEXITY_API_KEY").unwrap(), "secret-pplx-123");
    assert_eq!(result.get("TAVILY_API_KEY").unwrap(), "secret-tvly-456");
}

#[test]
fn inject_credentials_returns_error_when_key_missing() {
    let provider = MockProvider::new(vec![("perplexity", "PERPLEXITY_API_KEY", "secret-123")]);
    let specs = vec![spec("perplexity", "MISSING_KEY")];
    let err = inject_credentials(&specs, &provider).unwrap_err();
    match &err {
        BridgeError::CredentialNotFound { provider, key } => {
            assert_eq!(provider, "perplexity");
            assert_eq!(key, "MISSING_KEY");
        }
        other => panic!("expected CredentialNotFound, got: {other:?}"),
    }
    let msg = err.to_display_string();
    assert!(msg.contains("darkshell provider create"), "error should suggest fix: {msg}");
}

#[test]
fn inject_credentials_returns_error_when_provider_unavailable() {
    let provider = UnavailableProvider;
    let specs = vec![spec("perplexity", "PERPLEXITY_API_KEY")];
    let err = inject_credentials(&specs, &provider).unwrap_err();
    match &err {
        BridgeError::ProviderUnavailable => {}
        other => panic!("expected ProviderUnavailable, got: {other:?}"),
    }
    let msg = err.to_display_string();
    assert!(msg.contains("darkshell status"), "error should suggest fix: {msg}");
}

#[test]
fn inject_credentials_empty_specs_returns_empty_map() {
    let provider = MockProvider::new(vec![]);
    let result = inject_credentials(&vec![], &provider).expect("should succeed");
    assert!(result.is_empty());
}

#[test]
fn later_specs_override_earlier_ones_with_the_same_key() {
    let specs = vec![spec("a", "K"), spec("b", "J"), spec("c", "K")];
    let env = env_from_resolved(&specs, vec!["1".to_string(), "2".to_string(), "3".to_string()]);
    assert_eq!(env.len(), 2);
    assert_eq!(env.get("K").unwrap(), "3");
    assert_eq!(env.get("J").unwrap(), "2");
    let msg = BridgeError::CredentialNotFound { provider: "p".into(), key: "K".into() }.to_display_string();
    assert_eq!(msg, "provider 'p' exists but credential 'K' not found. Set with: darkshell provider create --name p --credential K=<value>");
}

/// A provider that records each request and fails on one provider name.
struct RecordingProvider {
    calls: std::cell::RefCell<Vec<(String, String)>>,
    failing: &'static str,
}

impl CredentialProvider for RecordingProvider {
    fn resolve(&self, provider: &str, key: &str) -> Result<String, BridgeError> {
        self.calls.borrow_mut().push((provider.to_string(), key.to_string()));
        if provider == self.failing {
            Err(BridgeError::CredentialNotFound { provider: provider.to_string(), key: key.to_string() })
        } else {
            Ok(format!("{provider}/{key}"))
        }
    }
}

#[test]
fn inject_credentials_asks_in_order_and_stops_at_the_first_error() {
    let specs = vec![spec("a", "KEY_A"), spec("b", "KEY_B"), spec("c", "KEY_C"), spec("d", "KEY_D")];
    let provider = RecordingProvider { calls: std::cell::RefCell::new(Vec::new()), failing: "c" };
    match inject_credentials(&specs, &provider) {
        Err(BridgeError::CredentialNotFound { provider: p, key }) => {
            assert_eq!(p, "c");
            assert_eq!(key, "KEY_C");
        }
        other => panic!("unexpected: {other:?}"),
    }
    let calls = provider.calls.borrow().clone();
    assert_eq!(
        calls,
        vec![
            ("a".to_string(), "KEY_A".to_string()),
            ("b".to_string(), "KEY_B".to_string()),
            ("c".to_string(), "KEY_C".to_string()),
        ]
    );
    let ok = RecordingProvider { calls: std::cell::RefCell::new(Vec::new()), failing: "none" };
    let m = inject_credentials(&vec![spec("a", "K"), spec("b", "K")], &ok).unwrap();
    assert_eq!(m.get("K").map(|v| v.as_str()), Some("b/K"));
    assert_eq!(ok.calls.borrow().len(), 2);
}
