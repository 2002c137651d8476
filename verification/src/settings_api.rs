//! The settings page's decisions: which endpoint may be asked with the key,
//! what a draft resolves to, and what is wrong with what was saved.
use vstd::prelude::*;
use vstd::string::*;

use crate::config::{ProviderConfig, ProviderKind, ProviderView};
use crate::error::{AppError, ErrorView};
use crate::settings::{resolve, resolved, settings_fault, tidied, SystemSettings};
use crate::text::{join, joined, opt_text, same_text, strip_end, texts, trim_end_char};
use crate::views::SettingsInfo;

verus! {

/// An endpoint whose models are asked for.
#[derive(Debug, Clone)]
pub struct ModelsQuery {
    pub base: String,
}

/// The name of a provider's kind.
pub open spec fn kind_name(kind: ProviderKind) -> Seq<char> {
    match kind {
        ProviderKind::Remote => "remote"@,
        ProviderKind::Embedded => "embedded"@,
        ProviderKind::Heuristic => "heuristic"@,
    }
}

/// The name of a provider's kind.
pub fn kind_label(kind: ProviderKind) -> (r: &'static str)
    ensures
        r@ == kind_name(kind),
{
    match kind {
        ProviderKind::Remote => "remote",
        ProviderKind::Embedded => "embedded",
        ProviderKind::Heuristic => "heuristic",
    }
}

/// What the page of the settings shows: what is stored, what it comes to over
/// the environment, and what is live.
pub fn view(
    env: &ProviderConfig,
    stored: SystemSettings,
    live_provider: String,
    live_models: Option<(String, String)>,
    can_distill: bool,
) -> (r: SettingsInfo)
    ensures
        ({
            let e = resolved(env@, stored@);
            &&& r.stored@ == stored@
            &&& r.effective_provider@ == kind_name(e.kind)
            &&& r.effective_backend@ == e.remote.backend
            &&& opt_text(r.effective_api_base) == e.remote.api_base
            &&& r.effective_extract_model@ == e.remote.extract_model
            &&& r.effective_distill_model@ == e.remote.distill_model
            &&& r.effective_extract_timeout_ms == e.remote.extract_timeout_ms
            &&& r.effective_distill_timeout_ms == e.remote.distill_timeout_ms
            &&& r.live_provider@ == live_provider@
            &&& r.live_models == live_models
            &&& r.can_distill == can_distill
            &&& r.env_has_key == (env@.remote.api_key.len() > 0)
        }),
{
    let effective = resolve(env, &stored);
    let env_has_key = !env.remote.api_key.as_str().is_empty();
    SettingsInfo {
        stored,
        effective_provider: kind_label(effective.kind),
        effective_backend: effective.remote.backend,
        effective_api_base: effective.remote.api_base,
        effective_extract_model: effective.remote.extract_model,
        effective_distill_model: effective.remote.distill_model,
        effective_extract_timeout_ms: effective.remote.extract_timeout_ms,
        effective_distill_timeout_ms: effective.remote.distill_timeout_ms,
        live_provider,
        live_models,
        can_distill,
        env_has_key,
    }
}

/// Whether the key may go with a probe of `requested`: only the base in effect
/// qualifies, but for slashes at the end.
pub open spec fn key_may_travel(effective: Option<Seq<char>>, requested: Seq<char>) -> bool {
    match effective {
        Some(e) => strip_end(e, '/') == strip_end(requested, '/'),
        None => false,
    }
}

/// Whether the environment's key may accompany a probe of `requested`.
pub fn probe_key_allowed(effective: Option<&str>, requested: &str) -> (r: bool)
    ensures
        r == key_may_travel(
            match effective {
                Some(e) => Some(e@),
                None => None,
            },
            requested@,
        ),
{
    match effective {
        Some(e) => {
            let a = trim_end_char(e, '/');
            let b = trim_end_char(requested, '/');
            same_text(a.as_str(), b.as_str())
        },
        None => false,
    }
}

/// The key that goes with a probe: the environment's, to the base in effect.
pub fn probe_key(env: &ProviderConfig, stored: &SystemSettings, requested: &str) -> (r: Option<
    String,
>)
    ensures
        opt_text(r) == (if env@.remote.api_key.len() > 0 && key_may_travel(
            resolved(env@, stored@).remote.api_base,
            requested@,
        ) {
            Some(env@.remote.api_key)
        } else {
            None
        }),
{
    let effective = resolve(env, stored);
    if env.remote.api_key.as_str().is_empty() {
        return None;
    }
    let base = match &effective.remote.api_base {
        Some(b) => Some(b.as_str()),
        None => None,
    };
    if probe_key_allowed(base, requested) {
        Some(env.remote.api_key.clone())
    } else {
        None
    }
}

/// What the saved configuration is checked against: the models that its
/// endpoint serves, or why they could not be listed.
pub type Listed = Result<Vec<String>, String>;

/// A [`Listed`] over character sequences.
pub open spec fn listed_view(l: Listed) -> Result<Seq<Seq<char>>, Seq<char>> {
    match l {
        Ok(v) => Ok(texts(v@)),
        Err(e) => Err(e@),
    }
}

/// The models of an endpoint are worth listing: a remote provider is running
/// and has a base.
pub open spec fn checks_models(cfg: ProviderView, applied: Seq<char>) -> bool {
    cfg.kind == ProviderKind::Remote && applied != "heuristic"@ && cfg.remote.api_base is Some
}

/// The endpoint that is asked at startup for its models, and the key to ask it
/// with: that of a remote provider that has a base.
pub fn startup_check(cfg: &ProviderConfig) -> (r: Option<(String, Option<String>)>)
    ensures
        match r {
            Some((base, key)) => {
                &&& cfg@.kind == ProviderKind::Remote
                &&& cfg@.remote.api_base == Some(base@)
                &&& opt_text(key) == (if cfg@.remote.api_key.len() > 0 {
                    Some(cfg@.remote.api_key)
                } else {
                    None
                })
            },
            None => cfg@.kind != ProviderKind::Remote || cfg@.remote.api_base is None,
        },
{
    if cfg.kind == ProviderKind::Remote {
        if let Some(base) = &cfg.remote.api_base {
            let key = if cfg.remote.api_key.as_str().is_empty() {
                None
            } else {
                Some(cfg.remote.api_key.clone())
            };
            return Some((base.clone(), key));
        }
    }
    None
}

/// The endpoint to list, and the key to list it with.
pub fn models_to_check(cfg: &ProviderConfig, applied: &str) -> (r: Option<(String, Option<String>)>)
    ensures
        match r {
            Some((base, key)) => {
                &&& checks_models(cfg@, applied@)
                &&& cfg@.remote.api_base == Some(base@)
                &&& opt_text(key) == (if cfg@.remote.api_key.len() > 0 {
                    Some(cfg@.remote.api_key)
                } else {
                    None
                })
            },
            None => !checks_models(cfg@, applied@),
        },
{
    if same_text(applied, "heuristic") {
        None
    } else {
        startup_check(cfg)
    }
}

/// The warning for a model that the endpoint does not serve.
pub open spec fn not_served(role: Seq<char>, model: Seq<char>) -> Seq<char> {
    role + " model '"@ + model + "' is not served by the endpoint — every "@ + role
        + " call will fail until it is pulled or changed"@
}

/// The warning for a role's model, where it is not among those served.
pub open spec fn role_warnings(
    role: Seq<char>,
    model: Seq<char>,
    models: Seq<Seq<char>>,
) -> Seq<Seq<char>> {
    if models.contains(model) {
        Seq::empty()
    } else {
        seq![not_served(role, model)]
    }
}

/// Everything that was saved but will not work.
pub open spec fn warnings_of(
    cfg: ProviderView,
    applied: Seq<char>,
    listed: Result<Seq<Seq<char>>, Seq<char>>,
) -> Seq<Seq<char>> {
    if cfg.kind == ProviderKind::Remote && applied == "heuristic"@ {
        seq![
            "the saved config resolves to a remote provider but construction failed, so the pipeline fell back to heuristic — check the base URL, and the API key in the server environment if the backend needs one"@,
        ]
    } else if checks_models(cfg, applied) {
        match listed {
            Ok(models) => role_warnings("extract"@, cfg.remote.extract_model, models)
                + role_warnings("distill"@, cfg.remote.distill_model, models),
            Err(e) => seq![
                "saved and applied, but the endpoint's model list could not be checked ("@ + e
                    + ") — model names are unverified"@,
            ],
        }
    } else {
        Seq::empty()
    }
}

/// Whether a text is in a list.
pub fn has_model(models: &Vec<String>, model: &str) -> (r: bool)
    ensures
        r == texts(models@).contains(model@),
{
    let mut i: usize = 0;
    while i < models.len()
        invariant
            i <= models@.len(),
            forall|j: int| 0 <= j < i ==> texts(models@)[j] != model@,
        decreases models@.len() - i,
    {
        if same_text(models[i].as_str(), model) {
            assert(texts(models@)[i as int] == model@);
            return true;
        }
        i += 1;
    }
    false
}

fn warn_role(warnings: &mut Vec<String>, role: &str, model: &str, models: &Vec<String>)
    ensures
        texts(final(warnings)@) == texts(old(warnings)@) + role_warnings(
            role@,
            model@,
            texts(models@),
        ),
{
    if !has_model(models, model) {
        let mut w = String::from_str(role);
        w.append(" model '");
        w.append(model);
        w.append("' is not served by the endpoint — every ");
        w.append(role);
        w.append(" call will fail until it is pulled or changed");
        warnings.push(w);
    }
    assert(texts(warnings@) =~= texts(old(warnings)@) + role_warnings(
        role@,
        model@,
        texts(models@),
    ));
}

/// Everything that was saved but will not work. `listed` is what the endpoint
/// of [`models_to_check`] answered; it is not read where there is none.
pub fn provider_warnings(cfg: &ProviderConfig, applied: &str, listed: &Listed) -> (r: Vec<String>)
    ensures
        texts(r@) == warnings_of(cfg@, applied@, listed_view(*listed)),
{
    let wanted_remote = cfg.kind == ProviderKind::Remote;
    let mut warnings: Vec<String> = Vec::new();
    if wanted_remote && same_text(applied, "heuristic") {
        warnings.push(
            "the saved config resolves to a remote provider but construction failed, so the pipeline fell back to heuristic — check the base URL, and the API key in the server environment if the backend needs one".to_owned(),
        );
    }
    if wanted_remote && !same_text(applied, "heuristic") && cfg.remote.api_base.is_some() {
        match listed {
            Ok(models) => {
                warn_role(&mut warnings, "extract", cfg.remote.extract_model.as_str(), models);
                warn_role(&mut warnings, "distill", cfg.remote.distill_model.as_str(), models);
            },
            Err(e) => {
                let mut w = String::from_str(
                    "saved and applied, but the endpoint's model list could not be checked (",
                );
                w.append(e.as_str());
                w.append(") — model names are unverified");
                warnings.push(w);
            },
        }
    }
    assert(texts(warnings@) =~= warnings_of(cfg@, applied@, listed_view(*listed)));
    warnings
}

/// The warnings on one line, where there are any.
pub fn warning_line(warnings: &Vec<String>) -> (r: Option<String>)
    ensures
        opt_text(r) == (if warnings@.len() == 0 {
            None
        } else {
            Some(joined(texts(warnings@), " | "@))
        }),
{
    if warnings.len() == 0 {
        None
    } else {
        Some(join(warnings, " | "))
    }
}

/// The kind of endpoint that a remote provider talks to.
#[derive(Debug, Clone, Copy, PartialEq, Eq, Structural)]
pub enum RemoteBackend {
    Anthropic,
    OpenAI,
    OpenRouter,
}

/// The backend of a name; every name but two is OpenRouter's.
pub open spec fn backend_of(name: Seq<char>) -> RemoteBackend {
    if name == "anthropic"@ {
        RemoteBackend::Anthropic
    } else if name == "openai"@ {
        RemoteBackend::OpenAI
    } else {
        RemoteBackend::OpenRouter
    }
}

/// The backend of a name.
pub fn backend_named(name: &str) -> (r: RemoteBackend)
    ensures
        r == backend_of(name@),
{
    if same_text(name, "anthropic") {
        RemoteBackend::Anthropic
    } else if same_text(name, "openai") {
        RemoteBackend::OpenAI
    } else {
        RemoteBackend::OpenRouter
    }
}

/// The configuration to try a draft with: one that resolves to a remote
/// provider.
pub fn test_extraction(env: &ProviderConfig, draft: SystemSettings) -> (r: Result<
    (ProviderConfig, RemoteBackend),
    AppError,
>)
    ensures
        ({
            let s = tidied(draft@);
            let cfg = resolved(env@, s);
            match r {
                Ok((c, backend)) => {
                    &&& settings_fault(s) is None
                    &&& cfg.kind == ProviderKind::Remote
                    &&& c@ == cfg
                    &&& backend == backend_of(cfg.remote.backend)
                },
                Err(e) => match settings_fault(s) {
                    Some(fault) => e@ == ErrorView::BadRequest(fault),
                    None => cfg.kind != ProviderKind::Remote && e@ == ErrorView::BadRequest(
                        "nothing to test: the draft resolves to the heuristic provider, which runs in-process and cannot fail to be reached"@,
                    ),
                },
            }
        }),
{
    match draft.normalised() {
        Ok(s) => {
            let cfg = resolve(env, &s);
            if cfg.kind != ProviderKind::Remote {
                return Err(
                    AppError::bad_request(
                        "nothing to test: the draft resolves to the heuristic provider, which runs in-process and cannot fail to be reached",
                    ),
                );
            }
            let backend = backend_named(cfg.remote.backend.as_str());
            Ok((cfg, backend))
        },
        Err(e) => Err(AppError::BadRequest(e)),
    }
}

// ---------------------------------------------------------------------------
// At startup
// ---------------------------------------------------------------------------
/// How grave a finding is.
#[derive(Debug, Clone, Copy, PartialEq, Eq, Structural)]
pub enum Severity {
    Info,
    Warn,
    Error,
}

/// What there is to say of a role's model at startup.
pub open spec fn role_report(
    role: Seq<char>,
    model: Seq<char>,
    base: Seq<char>,
    models: Seq<Seq<char>>,
) -> (Severity, Seq<char>) {
    if models.contains(model) {
        (Severity::Info, role + " model '"@ + model + "' present at "@ + base)
    } else {
        (
            Severity::Error,
            role + " model '"@ + model + "' is NOT served by "@ + base + " — every "@ + role
                + " call will fail. Available: "@ + joined(models, ", "@)
                + ". Fix it on the admin settings page."@,
        )
    }
}

/// What there is to say of the models at startup.
pub open spec fn startup_report(
    cfg: ProviderView,
    base: Seq<char>,
    listed: Result<Seq<Seq<char>>, Seq<char>>,
) -> Seq<(Severity, Seq<char>)> {
    match listed {
        Ok(models) => seq![
            role_report("extract"@, cfg.remote.extract_model, base, models),
            role_report("distill"@, cfg.remote.distill_model, base, models),
        ],
        Err(e) => seq![
            (
                Severity::Warn,
                "could not verify models at "@ + base + " ("@ + e
                    + ") — if the model server is still starting this resolves itself; otherwise extraction will fail"@,
            ),
        ],
    }
}

/// Findings by their contents.
pub open spec fn findings_view(v: Seq<(Severity, String)>) -> Seq<(Severity, Seq<char>)> {
    v.map_values(|f: (Severity, String)| (f.0, f.1@))
}

fn report_role(role: &str, model: &str, base: &str, models: &Vec<String>) -> (r: (
    Severity,
    String,
))
    ensures
        (r.0, r.1@) == role_report(role@, model@, base@, texts(models@)),
{
    let mut line = String::from_str(role);
    line.append(" model '");
    line.append(model);
    if has_model(models, model) {
        line.append("' present at ");
        line.append(base);
        (Severity::Info, line)
    } else {
        line.append("' is NOT served by ");
        line.append(base);
        line.append(" — every ");
        line.append(role);
        line.append(" call will fail. Available: ");
        line.append(join(models, ", ").as_str());
        line.append(". Fix it on the admin settings page.");
        (Severity::Error, line)
    }
}

/// What there is to say at startup, given what the endpoint at `base` answered.
pub fn verify_models_at_startup(cfg: &ProviderConfig, base: &str, listed: &Listed) -> (r: Vec<
    (Severity, String),
>)
    ensures
        findings_view(r@) == startup_report(cfg@, base@, listed_view(*listed)),
{
    let mut out: Vec<(Severity, String)> = Vec::new();
    match listed {
        Ok(models) => {
            out.push(report_role("extract", cfg.remote.extract_model.as_str(), base, models));
            out.push(report_role("distill", cfg.remote.distill_model.as_str(), base, models));
        },
        Err(e) => {
            let mut line = String::from_str("could not verify models at ");
            line.append(base);
            line.append(" (");
            line.append(e.as_str());
            line.append(
                ") — if the model server is still starting this resolves itself; otherwise extraction will fail",
            );
            out.push((Severity::Warn, line));
        },
    }
    assert(findings_view(out@) =~= startup_report(cfg@, base@, listed_view(*listed)));
    out
}

// ---------------------------------------------------------------------------
// Laws
// ---------------------------------------------------------------------------
/// A configuration whose models are all served, by an endpoint that answers,
/// draws no warning; neither does one that asks for no remote provider.
pub proof fn law_no_warning_without_cause(
    cfg: ProviderView,
    applied: Seq<char>,
    models: Seq<Seq<char>>,
)
    requires
        cfg.kind != ProviderKind::Remote || (applied != "heuristic"@ && models.contains(
            cfg.remote.extract_model,
        ) && models.contains(cfg.remote.distill_model)),
    ensures
        warnings_of(cfg, applied, Ok(models)) == Seq::<Seq<char>>::empty(),
{
    assert(warnings_of(cfg, applied, Ok(models)) =~= Seq::<Seq<char>>::empty());
}

/// Whatever was saved and will not work is said: a remote provider that could not
/// be built, an endpoint that could not be asked, and each of the two models that
/// the endpoint does not serve, the extracting one first.
pub proof fn law_every_cause_draws_its_warning(
    cfg: ProviderView,
    applied: Seq<char>,
    models: Seq<Seq<char>>,
    fault: Seq<char>,
)
    requires
        cfg.kind == ProviderKind::Remote,
    ensures
        applied == "heuristic"@ ==> warnings_of(cfg, applied, Ok(models)).len() == 1,
        applied != "heuristic"@ && cfg.remote.api_base is Some ==> {
            let w = warnings_of(cfg, applied, Ok(models));
            let extracts = models.contains(cfg.remote.extract_model);
            let distils = models.contains(cfg.remote.distill_model);
            &&& w.len() == (if extracts {
                0int
            } else {
                1
            }) + (if distils {
                0int
            } else {
                1
            })
            &&& !extracts ==> w[0] == "extract model '"@ + cfg.remote.extract_model
                + "' is not served by the endpoint — every extract call will fail until it is pulled or changed"@
            &&& !distils ==> w.last() == "distill model '"@ + cfg.remote.distill_model
                + "' is not served by the endpoint — every distill call will fail until it is pulled or changed"@
            &&& warnings_of(cfg, applied, Err(fault)).len() == 1
        },
{
    reveal_strlit("extract");
    reveal_strlit("distill");
    reveal_strlit(" model '");
    reveal_strlit("extract model '");
    reveal_strlit("distill model '");
    reveal_strlit("' is not served by the endpoint — every ");
    reveal_strlit(" call will fail until it is pulled or changed");
    reveal_strlit(
        "' is not served by the endpoint — every extract call will fail until it is pulled or changed",
    );
    reveal_strlit(
        "' is not served by the endpoint — every distill call will fail until it is pulled or changed",
    );
    assert(not_served("extract"@, cfg.remote.extract_model) =~= "extract model '"@
        + cfg.remote.extract_model
        + "' is not served by the endpoint — every extract call will fail until it is pulled or changed"@);
    assert(not_served("distill"@, cfg.remote.distill_model) =~= "distill model '"@
        + cfg.remote.distill_model
        + "' is not served by the endpoint — every distill call will fail until it is pulled or changed"@);
}

/// The key travels to the endpoint that is in effect and to no other; slashes at
/// the end make no difference.
pub proof fn law_key_travels_to_the_endpoint_in_effect(
    effective: Seq<char>,
    requested: Seq<char>,
)
    ensures
        !key_may_travel(None, requested),
        key_may_travel(Some(effective), effective),
        key_may_travel(Some(effective), effective.push('/')),
        key_may_travel(Some(effective.push('/')), effective),
        effective.len() > 0 && effective.last() != '/' && requested.len() > 0 && requested.last()
            != '/' && effective != requested ==> !key_may_travel(Some(effective), requested),
{
    assert(effective.push('/').drop_last() =~= effective);
}

/// At startup each model is reported on, the extracting one first: as there where
/// it is served, as a fault where it is not; an endpoint that does not answer draws
/// a warning only.
pub proof fn law_startup_reports_on_each_model(
    cfg: ProviderView,
    base: Seq<char>,
    models: Seq<Seq<char>>,
    fault: Seq<char>,
)
    ensures
        ({
            let r = startup_report(cfg, base, Ok(models));
            &&& r.len() == 2
            &&& r[0].0 == (if models.contains(cfg.remote.extract_model) {
                Severity::Info
            } else {
                Severity::Error
            })
            &&& r[1].0 == (if models.contains(cfg.remote.distill_model) {
                Severity::Info
            } else {
                Severity::Error
            })
        }),
        startup_report(cfg, base, Err(fault)).len() == 1,
        startup_report(cfg, base, Err(fault))[0].0 == Severity::Warn,
{
}

/// Each backend is known by its name; any other name stands for the router.
pub proof fn law_backends_by_name(name: Seq<char>)
    ensures
        backend_of("anthropic"@) == RemoteBackend::Anthropic,
        backend_of("openai"@) == RemoteBackend::OpenAI,
        name != "anthropic"@ && name != "openai"@ ==> backend_of(name) == RemoteBackend::OpenRouter,
        kind_name(ProviderKind::Remote) == "remote"@,
        kind_name(ProviderKind::Heuristic) == "heuristic"@,
        kind_name(ProviderKind::Embedded) == "embedded"@,
{
    reveal_strlit("anthropic");
    reveal_strlit("openai");
    assert("anthropic"@[0] == 'a' && "openai"@[0] == 'o');
}

} // verus!
