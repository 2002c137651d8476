//! The configuration that the service runs with.
use vstd::prelude::*;

use crate::text::{clone_text, opt_text};

verus! {

/// Which provider extracts and distils.
#[derive(Debug, Clone, Copy, PartialEq, Eq, Structural)]
pub enum ProviderKind {
    Heuristic,
    Remote,
    Embedded,
}

/// What happens when the provider cannot be built.
#[derive(Debug, Clone, Copy, PartialEq, Eq, Structural)]
pub enum FallbackPolicy {
    Fail,
    Heuristic,
}

/// A provider behind an HTTP endpoint.
#[derive(Debug, Clone)]
pub struct RemoteProviderConfig {
    pub backend: String,
    pub api_key: String,
    pub api_base: Option<String>,
    pub prompt_cache: bool,
    pub extract_model: String,
    pub extract_max_tokens: u32,
    pub extract_timeout_ms: u32,
    pub distill_model: String,
    pub distill_max_tokens: u32,
    pub distill_timeout_ms: u32,
}

/// A provider inside the process.
#[derive(Debug, Clone)]
pub struct EmbeddedProviderConfig {
    pub model: String,
    pub context_size: u32,
    pub max_tokens: u32,
}

/// The provider and its settings.
#[derive(Debug, Clone)]
pub struct ProviderConfig {
    pub kind: ProviderKind,
    pub fallback: FallbackPolicy,
    pub remote: RemoteProviderConfig,
    pub embedded: EmbeddedProviderConfig,
}

/// The whole configuration.
#[derive(Debug, Clone)]
pub struct Config {
    pub database_url: String,
    pub host: String,
    pub port: u16,
    pub auto_migrate: bool,
    pub fastembed_cache_dir: Option<String>,
    pub dev_mode: bool,
    pub provider: ProviderConfig,
}

/// A [`RemoteProviderConfig`] over character sequences.
#[verifier::ext_equal]
pub struct RemoteView {
    pub backend: Seq<char>,
    pub api_key: Seq<char>,
    pub api_base: Option<Seq<char>>,
    pub prompt_cache: bool,
    pub extract_model: Seq<char>,
    pub extract_max_tokens: u32,
    pub extract_timeout_ms: u32,
    pub distill_model: Seq<char>,
    pub distill_max_tokens: u32,
    pub distill_timeout_ms: u32,
}

/// An [`EmbeddedProviderConfig`] over character sequences.
#[verifier::ext_equal]
pub struct EmbeddedView {
    pub model: Seq<char>,
    pub context_size: u32,
    pub max_tokens: u32,
}

/// A [`ProviderConfig`] over character sequences.
#[verifier::ext_equal]
pub struct ProviderView {
    pub kind: ProviderKind,
    pub fallback: FallbackPolicy,
    pub remote: RemoteView,
    pub embedded: EmbeddedView,
}

/// A [`Config`] over character sequences.
#[verifier::ext_equal]
pub struct ConfigView {
    pub database_url: Seq<char>,
    pub host: Seq<char>,
    pub port: u16,
    pub auto_migrate: bool,
    pub fastembed_cache_dir: Option<Seq<char>>,
    pub dev_mode: bool,
    pub provider: ProviderView,
}

impl View for RemoteProviderConfig {
    type V = RemoteView;

    open spec fn view(&self) -> RemoteView {
        RemoteView {
            backend: self.backend@,
            api_key: self.api_key@,
            api_base: opt_text(self.api_base),
            prompt_cache: self.prompt_cache,
            extract_model: self.extract_model@,
            extract_max_tokens: self.extract_max_tokens,
            extract_timeout_ms: self.extract_timeout_ms,
            distill_model: self.distill_model@,
            distill_max_tokens: self.distill_max_tokens,
            distill_timeout_ms: self.distill_timeout_ms,
        }
    }
}

impl View for EmbeddedProviderConfig {
    type V = EmbeddedView;

    open spec fn view(&self) -> EmbeddedView {
        EmbeddedView {
            model: self.model@,
            context_size: self.context_size,
            max_tokens: self.max_tokens,
        }
    }
}

impl View for ProviderConfig {
    type V = ProviderView;

    open spec fn view(&self) -> ProviderView {
        ProviderView {
            kind: self.kind,
            fallback: self.fallback,
            remote: self.remote@,
            embedded: self.embedded@,
        }
    }
}

impl View for Config {
    type V = ConfigView;

    open spec fn view(&self) -> ConfigView {
        ConfigView {
            database_url: self.database_url@,
            host: self.host@,
            port: self.port,
            auto_migrate: self.auto_migrate,
            fastembed_cache_dir: opt_text(self.fastembed_cache_dir),
            dev_mode: self.dev_mode,
            provider: self.provider@,
        }
    }
}

impl ProviderConfig {
    /// A copy of the configuration.
    pub fn copied(&self) -> (r: ProviderConfig)
        ensures
            r@ == self@,
    {
        ProviderConfig {
            kind: self.kind,
            fallback: self.fallback,
            remote: RemoteProviderConfig {
                backend: self.remote.backend.clone(),
                api_key: self.remote.api_key.clone(),
                api_base: clone_text(&self.remote.api_base),
                prompt_cache: self.remote.prompt_cache,
                extract_model: self.remote.extract_model.clone(),
                extract_max_tokens: self.remote.extract_max_tokens,
                extract_timeout_ms: self.remote.extract_timeout_ms,
                distill_model: self.remote.distill_model.clone(),
                distill_max_tokens: self.remote.distill_max_tokens,
                distill_timeout_ms: self.remote.distill_timeout_ms,
            },
            embedded: EmbeddedProviderConfig {
                model: self.embedded.model.clone(),
                context_size: self.embedded.context_size,
                max_tokens: self.embedded.max_tokens,
            },
        }
    }
}

} // verus!
