//! A provider and a configuration that tests can rely on.
use vstd::prelude::*;
use vstd::string::*;

use crate::config::{
    Config, ConfigView, EmbeddedProviderConfig, EmbeddedView, FallbackPolicy, ProviderConfig,
    ProviderKind, ProviderView, RemoteProviderConfig, RemoteView,
};

verus! {

/// A provider that is always the same and needs nothing.
#[derive(Debug, Clone, Copy)]
pub struct TestNlp;

impl TestNlp {
    /// Its name.
    pub fn provider_name(&self) -> (r: &'static str)
        ensures
            r@ == "test"@,
    {
        "test"
    }

    /// It cannot distil.
    pub fn provider_can_distill(&self) -> (r: bool)
        ensures
            !r,
    {
        false
    }

    /// The name of its embedder.
    pub fn embedder_model_name(&self) -> (r: &'static str)
        ensures
            r@ == "test-embedder"@,
    {
        "test-embedder"
    }

    /// The dimension of its vectors.
    pub fn embedder_dimension(&self) -> (r: usize)
        ensures
            r == 384,
    {
        384
    }

    /// It finds no entities.
    pub fn extract_entities(&self, _text: &str) -> (r: Vec<String>)
        ensures
            r@.len() == 0,
    {
        Vec::new()
    }
}

/// The configuration of [`test_config`].
pub open spec fn plain_config() -> ConfigView {
    ConfigView {
        database_url: "postgres://test/test"@,
        host: "127.0.0.1"@,
        port: 8080,
        auto_migrate: false,
        fastembed_cache_dir: None,
        dev_mode: false,
        provider: ProviderView {
            kind: ProviderKind::Heuristic,
            fallback: FallbackPolicy::Fail,
            remote: RemoteView {
                backend: "openrouter"@,
                api_key: Seq::empty(),
                api_base: None,
                prompt_cache: true,
                extract_model: "m"@,
                extract_max_tokens: 0,
                extract_timeout_ms: 0,
                distill_model: "m"@,
                distill_max_tokens: 0,
                distill_timeout_ms: 0,
            },
            embedded: EmbeddedView { model: "m"@, context_size: 0, max_tokens: 0 },
        },
    }
}

/// A configuration without a key, a remote endpoint or development mode.
pub fn test_config() -> (r: Config)
    ensures
        r@ == plain_config(),
{
    Config {
        database_url: "postgres://test/test".to_owned(),
        host: "127.0.0.1".to_owned(),
        port: 8080,
        auto_migrate: false,
        fastembed_cache_dir: None,
        dev_mode: false,
        provider: ProviderConfig {
            kind: ProviderKind::Heuristic,
            fallback: FallbackPolicy::Fail,
            remote: RemoteProviderConfig {
                backend: "openrouter".to_owned(),
                api_key: String::new(),
                api_base: None,
                prompt_cache: true,
                extract_model: "m".to_owned(),
                extract_max_tokens: 0,
                extract_timeout_ms: 0,
                distill_model: "m".to_owned(),
                distill_max_tokens: 0,
                distill_timeout_ms: 0,
            },
            embedded: EmbeddedProviderConfig {
                model: "m".to_owned(),
                context_size: 0,
                max_tokens: 0,
            },
        },
    }
}

} // verus!
