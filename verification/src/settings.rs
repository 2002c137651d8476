//! System provider settings: the stored layer over the environment. The API
//! key is never stored; it always comes from the environment.
use vstd::prelude::*;
use vstd::string::*;

use crate::config::{ProviderConfig, ProviderKind, ProviderView, RemoteView};
use crate::json::{get_items, get_member, get_text, items, json_of, member, member_text, parse_json};
use crate::text::{
    ascending, ascii_lower, decimal_int, decimal_int_text, find, find_from, find_last, from_range,
    insert_ascending, last_place, lemma_trim_idempotent, occurs_at, opt_text,
    same_ignoring_ascii_case, same_text, strip_end, text_at, texts, to_chars, trim, trim_end_char,
    trimmed,
};

verus! {

/// The stored override. A field that is `None` inherits the environment.
#[derive(Debug, Clone)]
pub struct SystemSettings {
    pub provider: Option<String>,
    pub remote_backend: Option<String>,
    pub api_base: Option<String>,
    pub extract_model: Option<String>,
    pub distill_model: Option<String>,
    pub extract_timeout_ms: Option<i32>,
    pub distill_timeout_ms: Option<i32>,
}

/// A [`SystemSettings`] over character sequences.
#[verifier::ext_equal]
pub struct SettingsView {
    pub provider: Option<Seq<char>>,
    pub remote_backend: Option<Seq<char>>,
    pub api_base: Option<Seq<char>>,
    pub extract_model: Option<Seq<char>>,
    pub distill_model: Option<Seq<char>>,
    pub extract_timeout_ms: Option<i32>,
    pub distill_timeout_ms: Option<i32>,
}

impl View for SystemSettings {
    type V = SettingsView;

    open spec fn view(&self) -> SettingsView {
        SettingsView {
            provider: opt_text(self.provider),
            remote_backend: opt_text(self.remote_backend),
            api_base: opt_text(self.api_base),
            extract_model: opt_text(self.extract_model),
            distill_model: opt_text(self.distill_model),
            extract_timeout_ms: self.extract_timeout_ms,
            distill_timeout_ms: self.distill_timeout_ms,
        }
    }
}

/// Settings that override nothing.
pub open spec fn no_settings() -> SettingsView {
    SettingsView {
        provider: None,
        remote_backend: None,
        api_base: None,
        extract_model: None,
        distill_model: None,
        extract_timeout_ms: None,
        distill_timeout_ms: None,
    }
}

impl Default for SystemSettings {
    fn default() -> (r: SystemSettings)
        ensures
            r@ == no_settings(),
    {
        SystemSettings {
            provider: None,
            remote_backend: None,
            api_base: None,
            extract_model: None,
            distill_model: None,
            extract_timeout_ms: None,
            distill_timeout_ms: None,
        }
    }
}

// ---------------------------------------------------------------------------
// Endpoints
// ---------------------------------------------------------------------------
/// The characters that end the host part of a URL.
pub open spec fn ends_host(c: char) -> bool {
    c == '/' || c == '?' || c == '#'
}

/// The front of `s`, up to what ends a host.
pub open spec fn authority(s: Seq<char>) -> Seq<char>
    decreases s.len(),
{
    if s.len() == 0 || ends_host(s[0]) {
        Seq::empty()
    } else {
        seq![s[0]] + authority(s.drop_first())
    }
}

/// What stands behind the last `@`, or all of it.
pub open spec fn without_user(s: Seq<char>) -> Seq<char> {
    match last_place(s, '@') {
        Some(p) => s.skip(p + 1),
        None => s,
    }
}

/// What stands before the last colon, or all of it.
pub open spec fn without_port(s: Seq<char>) -> Seq<char> {
    match last_place(s, ':') {
        Some(p) => s.take(p),
        None => s,
    }
}

/// Square brackets.
pub open spec fn is_bracket(c: char) -> bool {
    c == '[' || c == ']'
}

/// `s` without the brackets it begins with.
pub open spec fn open_stripped(s: Seq<char>) -> Seq<char>
    decreases s.len(),
{
    if s.len() > 0 && is_bracket(s[0]) {
        open_stripped(s.drop_first())
    } else {
        s
    }
}

/// `s` without the brackets it ends with.
pub open spec fn close_stripped(s: Seq<char>) -> Seq<char>
    decreases s.len(),
{
    if s.len() > 0 && is_bracket(s.last()) {
        close_stripped(s.drop_last())
    } else {
        s
    }
}

/// `s` without brackets at either end.
pub open spec fn unbracketed(s: Seq<char>) -> Seq<char> {
    close_stripped(open_stripped(s))
}

/// The IPv6 address of a cloud's instance metadata.
pub open spec fn is_metadata_v6(host: Seq<char>) -> bool {
    ascii_lower(host) == ascii_lower("fd00:ec2::254"@)
}

/// The other addresses of instance metadata: link-local, and by name.
pub open spec fn is_metadata_host(host: Seq<char>) -> bool {
    occurs_at(host, "169.254."@, 0) || ascii_lower(host) == ascii_lower(
        "metadata.google.internal"@,
    )
}

/// What is wrong with the host of a URL, if anything.
pub open spec fn host_fault(host: Seq<char>) -> Option<Seq<char>> {
    let hostname = unbracketed(without_port(host));
    let whole = unbracketed(host);
    if hostname.len() == 0 {
        Some("no host in URL"@)
    } else if is_metadata_v6(whole) {
        Some(whole + " is a cloud metadata address"@)
    } else if is_metadata_host(hostname) || is_metadata_v6(hostname) {
        Some(hostname + " is a cloud metadata address"@)
    } else {
        None
    }
}

/// What is wrong with a base URL, if anything.
pub open spec fn url_fault(raw: Seq<char>) -> Option<Seq<char>> {
    let url = trimmed(raw);
    match find_from(url, "://"@, 0) {
        None => Some("must start with http:// or https://"@),
        Some(p) => {
            let scheme = url.take(p);
            if scheme != "http"@ && scheme != "https"@ {
                Some("scheme '"@ + scheme + "' is not allowed (http/https only)"@)
            } else {
                host_fault(without_user(authority(url.skip(p + 3))))
            }
        },
    }
}

/// The place at which the host part that begins at `from` ends.
fn authority_end(s: &Vec<char>, from: usize) -> (r: usize)
    requires
        from <= s@.len(),
    ensures
        from <= r <= s@.len(),
        authority(s@.skip(from as int)) == s@.subrange(from as int, r as int),
{
    let ghost rest = s@.skip(from as int);
    let mut to: usize = from;
    assert(s@.subrange(from as int, to as int) + authority(rest) =~= authority(rest));
    while to < s.len() && !(s[to] == '/' || s[to] == '?' || s[to] == '#')
        invariant
            from <= to <= s@.len(),
            rest == s@.skip(from as int),
            authority(rest) == s@.subrange(from as int, to as int) + authority(s@.skip(to as int)),
        decreases s@.len() - to,
    {
        proof {
            let tail = s@.skip(to as int);
            assert(tail.drop_first() =~= s@.skip(to + 1));
            assert(s@.subrange(from as int, to as int) + (seq![tail[0]] + authority(
                tail.drop_first(),
            )) =~= s@.subrange(from as int, to + 1) + authority(s@.skip(to + 1)));
        }
        to += 1;
    }
    assert(authority(s@.skip(to as int)) =~= Seq::empty());
    assert(s@.subrange(from as int, to as int) + Seq::<char>::empty() =~= s@.subrange(
        from as int,
        to as int,
    ));
    to
}

fn is_bracket_char(c: char) -> (r: bool)
    ensures
        r == is_bracket(c),
{
    c == '[' || c == ']'
}

/// The text without brackets at either end.
fn trim_brackets(s: &str) -> (r: String)
    ensures
        r@ == unbracketed(s@),
{
    let chars = to_chars(s);
    let n: usize = chars.len();
    let mut from: usize = 0;
    assert(s@.skip(0) =~= s@);
    while from < n && is_bracket_char(chars[from])
        invariant
            chars@ == s@,
            n == s@.len(),
            from <= n,
            open_stripped(s@) == open_stripped(s@.skip(from as int)),
        decreases n - from,
    {
        assert(s@.skip(from as int).drop_first() =~= s@.skip(from + 1));
        from += 1;
    }
    let ghost rest = s@.skip(from as int);
    let mut to: usize = n;
    assert(rest.take(to - from) =~= rest);
    while to > from && is_bracket_char(chars[to - 1])
        invariant
            chars@ == s@,
            n == s@.len(),
            from <= to <= n,
            rest == s@.skip(from as int),
            close_stripped(rest) == close_stripped(rest.take(to - from)),
        decreases to,
    {
        assert(rest.take(to - from).drop_last() =~= rest.take(to - from - 1));
        to -= 1;
    }
    assert(rest.take(to - from) =~= s@.subrange(from as int, to as int));
    from_range(&chars, from, to)
}

/// Whether a text begins with another.
fn begins_with(s: &str, t: &str) -> (r: bool)
    ensures
        r == occurs_at(s@, t@, 0),
{
    let a = to_chars(s);
    let b = to_chars(t);
    text_at(&a, &b, 0)
}

fn metadata_refusal(host: String) -> (r: String)
    ensures
        r@ == host@ + " is a cloud metadata address"@,
{
    let mut message = host;
    message.append(" is a cloud metadata address");
    message
}

/// Refuses a host that the service must not call.
fn check_host(host: &str) -> (r: Result<(), String>)
    ensures
        match r {
            Ok(_) => host_fault(host@) is None,
            Err(e) => host_fault(host@) == Some(e@),
        },
{
    let chars = to_chars(host);
    let bare = match find_last(&chars, ':') {
        Some(p) => from_range(&chars, 0, p),
        None => host.to_owned(),
    };
    let hostname = trim_brackets(bare.as_str());
    let whole = trim_brackets(host);
    if hostname.as_str().is_empty() {
        return Err("no host in URL".to_owned());
    }
    if same_ignoring_ascii_case(whole.as_str(), "fd00:ec2::254") {
        return Err(metadata_refusal(whole));
    }
    if begins_with(hostname.as_str(), "169.254.") || same_ignoring_ascii_case(
        hostname.as_str(),
        "metadata.google.internal",
    ) || same_ignoring_ascii_case(hostname.as_str(), "fd00:ec2::254") {
        return Err(metadata_refusal(hostname));
    }
    Ok(())
}

/// Refuses an endpoint that the service must not be talked into calling: one
/// that is not HTTP, has no host, or is a cloud's metadata service.
pub fn validate_base_url(raw: &str) -> (r: Result<(), String>)
    ensures
        match r {
            Ok(_) => url_fault(raw@) is None,
            Err(e) => url_fault(raw@) == Some(e@),
        },
{
    let url = trim(raw);
    let chars = to_chars(url.as_str());
    let mark = to_chars("://");
    proof {
        reveal_strlit("://");
    }
    match find(&chars, &mark, 0) {
        None => Err("must start with http:// or https://".to_owned()),
        Some(p) => {
            let scheme = from_range(&chars, 0, p);
            assert(scheme@ =~= url@.take(p as int));
            if !same_text(scheme.as_str(), "http") && !same_text(scheme.as_str(), "https") {
                let mut message = String::from_str("scheme '");
                message.append(scheme.as_str());
                message.append("' is not allowed (http/https only)");
                return Err(message);
            }
            assert(p + 3 <= chars.len());
            let end = authority_end(&chars, p + 3);
            let part = to_chars(from_range(&chars, p + 3, end).as_str());
            let host = match find_last(&part, '@') {
                Some(q) => {
                    assert(part@.subrange(q + 1, part@.len() as int) =~= part@.skip(q + 1));
                    from_range(&part, q + 1, part.len())
                },
                None => {
                    assert(part@.subrange(0, part@.len() as int) =~= part@);
                    from_range(&part, 0, part.len())
                },
            };
            check_host(host.as_str())
        },
    }
}

// ---------------------------------------------------------------------------
// Normalising
// ---------------------------------------------------------------------------
/// A text trimmed; a blank one is as good as none.
pub open spec fn tidy(s: Option<Seq<char>>) -> Option<Seq<char>> {
    match s {
        Some(t) => if trimmed(t).len() == 0 {
            None
        } else {
            Some(trimmed(t))
        },
        None => None,
    }
}

/// A text trimmed; a blank one is as good as none.
pub fn norm(s: Option<String>) -> (r: Option<String>)
    ensures
        opt_text(r) == tidy(opt_text(s)),
{
    match s {
        Some(t) => {
            let t = trim(t.as_str());
            if t.as_str().is_empty() {
                None
            } else {
                Some(t)
            }
        },
        None => None,
    }
}

/// The settings with their texts tidied.
pub open spec fn tidied(s: SettingsView) -> SettingsView {
    SettingsView {
        provider: tidy(s.provider),
        remote_backend: tidy(s.remote_backend),
        api_base: tidy(s.api_base),
        extract_model: tidy(s.extract_model),
        distill_model: tidy(s.distill_model),
        ..s
    }
}

/// What is wrong with a provider name.
pub open spec fn provider_fault(p: Option<Seq<char>>) -> Option<Seq<char>> {
    match p {
        Some(p) => if p == "heuristic"@ || p == "remote"@ {
            None
        } else {
            Some("provider must be 'heuristic' or 'remote', got '"@ + p + "'"@)
        },
        None => None,
    }
}

/// What is wrong with a backend name.
pub open spec fn backend_fault(b: Option<Seq<char>>) -> Option<Seq<char>> {
    match b {
        Some(b) => if b == "openai"@ || b == "anthropic"@ || b == "openrouter"@ {
            None
        } else {
            Some(
                "remote_backend must be 'openai', 'anthropic' or 'openrouter', got '"@ + b + "'"@,
            )
        },
        None => None,
    }
}

/// What is wrong with a base URL that may be missing.
pub open spec fn base_fault(u: Option<Seq<char>>) -> Option<Seq<char>> {
    match u {
        Some(u) => url_fault(u),
        None => None,
    }
}

/// What is wrong with a timeout.
pub open spec fn timeout_fault(label: Seq<char>, t: Option<i32>) -> Option<Seq<char>> {
    match t {
        Some(ms) => if 1000 <= ms <= 600000 {
            None
        } else {
            Some(label + " must be between 1000 and 600000, got "@ + decimal_int(ms as int))
        },
        None => None,
    }
}

/// The first thing that is wrong with tidied settings.
pub open spec fn settings_fault(s: SettingsView) -> Option<Seq<char>> {
    if provider_fault(s.provider) is Some {
        provider_fault(s.provider)
    } else if backend_fault(s.remote_backend) is Some {
        backend_fault(s.remote_backend)
    } else if base_fault(s.api_base) is Some {
        base_fault(s.api_base)
    } else if timeout_fault("extract_timeout_ms"@, s.extract_timeout_ms) is Some {
        timeout_fault("extract_timeout_ms"@, s.extract_timeout_ms)
    } else {
        timeout_fault("distill_timeout_ms"@, s.distill_timeout_ms)
    }
}

/// Refuses a timeout outside of one second to ten minutes.
fn check_timeout(label: &str, t: Option<i32>) -> (r: Result<(), String>)
    ensures
        match r {
            Ok(_) => timeout_fault(label@, t) is None,
            Err(e) => timeout_fault(label@, t) == Some(e@),
        },
{
    if let Some(ms) = t {
        if ms < 1000 || ms > 600000 {
            let mut message = String::from_str(label);
            message.append(" must be between 1000 and 600000, got ");
            message.append(decimal_int_text(ms as i64).as_str());
            return Err(message);
        }
    }
    Ok(())
}

impl SystemSettings {
    /// Whether nothing is overridden.
    pub fn is_empty(&self) -> (r: bool)
        ensures
            r <==> self@ == no_settings(),
    {
        self.provider.is_none() && self.remote_backend.is_none() && self.api_base.is_none()
            && self.extract_model.is_none() && self.distill_model.is_none()
            && self.extract_timeout_ms.is_none() && self.distill_timeout_ms.is_none()
    }

    /// Tidies and checks settings as submitted.
    pub fn normalised(self) -> (r: Result<SystemSettings, String>)
        ensures
            match r {
                Ok(s) => s@ == tidied(self@) && settings_fault(tidied(self@)) is None,
                Err(e) => settings_fault(tidied(self@)) == Some(e@),
            },
    {
        let s = SystemSettings {
            provider: norm(self.provider),
            remote_backend: norm(self.remote_backend),
            api_base: norm(self.api_base),
            extract_model: norm(self.extract_model),
            distill_model: norm(self.distill_model),
            extract_timeout_ms: self.extract_timeout_ms,
            distill_timeout_ms: self.distill_timeout_ms,
        };
        if let Some(p) = &s.provider {
            if !same_text(p.as_str(), "heuristic") && !same_text(p.as_str(), "remote") {
                let mut message = String::from_str(
                    "provider must be 'heuristic' or 'remote', got '",
                );
                message.append(p.as_str());
                message.append("'");
                return Err(message);
            }
        }
        if let Some(b) = &s.remote_backend {
            if !same_text(b.as_str(), "openai") && !same_text(b.as_str(), "anthropic")
                && !same_text(b.as_str(), "openrouter") {
                let mut message = String::from_str(
                    "remote_backend must be 'openai', 'anthropic' or 'openrouter', got '",
                );
                message.append(b.as_str());
                message.append("'");
                return Err(message);
            }
        }
        if let Some(u) = &s.api_base {
            match validate_base_url(u.as_str()) {
                Ok(_) => {},
                Err(e) => {
                    return Err(e);
                },
            }
        }
        match check_timeout("extract_timeout_ms", s.extract_timeout_ms) {
            Ok(_) => {},
            Err(e) => {
                return Err(e);
            },
        }
        match check_timeout("distill_timeout_ms", s.distill_timeout_ms) {
            Ok(_) => {},
            Err(e) => {
                return Err(e);
            },
        }
        Ok(s)
    }
}

// ---------------------------------------------------------------------------
// Resolving
// ---------------------------------------------------------------------------
/// The environment with the stored settings over it.
pub open spec fn resolved(env: ProviderView, db: SettingsView) -> ProviderView {
    ProviderView {
        kind: match db.provider {
            Some(p) => if p == "remote"@ {
                ProviderKind::Remote
            } else {
                ProviderKind::Heuristic
            },
            None => env.kind,
        },
        remote: RemoteView {
            backend: match db.remote_backend {
                Some(b) => b,
                None => env.remote.backend,
            },
            api_base: match db.api_base {
                Some(u) => Some(u),
                None => env.remote.api_base,
            },
            extract_model: match db.extract_model {
                Some(m) => m,
                None => env.remote.extract_model,
            },
            distill_model: match db.distill_model {
                Some(m) => m,
                None => env.remote.distill_model,
            },
            extract_timeout_ms: match db.extract_timeout_ms {
                Some(t) => t as u32,
                None => env.remote.extract_timeout_ms,
            },
            distill_timeout_ms: match db.distill_timeout_ms {
                Some(t) => t as u32,
                None => env.remote.distill_timeout_ms,
            },
            ..env.remote
        },
        ..env
    }
}

/// Overlays the stored settings on the environment.
pub fn resolve(env: &ProviderConfig, db: &SystemSettings) -> (r: ProviderConfig)
    ensures
        r@ == resolved(env@, db@),
{
    let mut cfg = env.copied();
    if let Some(p) = &db.provider {
        cfg.kind = if same_text(p.as_str(), "remote") {
            ProviderKind::Remote
        } else {
            ProviderKind::Heuristic
        };
    }
    if let Some(b) = &db.remote_backend {
        cfg.remote.backend = b.clone();
    }
    if let Some(u) = &db.api_base {
        cfg.remote.api_base = Some(u.clone());
    }
    if let Some(m) = &db.extract_model {
        cfg.remote.extract_model = m.clone();
    }
    if let Some(m) = &db.distill_model {
        cfg.remote.distill_model = m.clone();
    }
    if let Some(t) = db.extract_timeout_ms {
        cfg.remote.extract_timeout_ms =
        #[verifier::truncate]
        (t as u32);
    }
    if let Some(t) = db.distill_timeout_ms {
        cfg.remote.distill_timeout_ms =
        #[verifier::truncate]
        (t as u32);
    }
    cfg
}

/// The configuration in effect: the stored settings over the environment, or
/// the environment alone where they could not be read.
pub fn resolve_loaded(env: &ProviderConfig, loaded: &Option<SystemSettings>) -> (r: ProviderConfig)
    ensures
        match loaded {
            Some(db) => r@ == resolved(env@, db@),
            None => r@ == env@,
        },
{
    match loaded {
        Some(db) => resolve(env, db),
        None => env.copied(),
    }
}

// ---------------------------------------------------------------------------
// Model lists
// ---------------------------------------------------------------------------
/// Texts that may be missing, as character sequences.
pub open spec fn opt_texts(v: Seq<Option<String>>) -> Seq<Option<Seq<char>>> {
    v.map_values(|s: Option<String>| opt_text(s))
}

/// What a list of names comes to: the names that are there, in order and each
/// once, or that there are none.
pub open spec fn lists_models(
    fields: Seq<Option<Seq<char>>>,
    r: Result<Vec<String>, String>,
) -> bool {
    match r {
        Ok(v) => {
            &&& v@.len() > 0
            &&& ascending(texts(v@))
            &&& forall|t: Seq<char>| #[trigger] texts(v@).contains(t) <==> fields.contains(Some(t))
        },
        Err(e) => e@ == "the endpoint reports no models"@ && forall|i: int|
            0 <= i < fields.len() ==> (#[trigger] fields[i]) is None,
    }
}

/// The items of the `data` list of a document.
pub open spec fn data_items(body: Seq<char>) -> Option<Seq<Seq<char>>> {
    match member(body, "data"@) {
        Some(data) => items(data),
        None => None,
    }
}

/// The names that are there, in order and each once.
pub fn models_from(fields: &Vec<Option<String>>) -> (r: Result<Vec<String>, String>)
    ensures
        lists_models(opt_texts(fields@), r),
{
    let ghost all = opt_texts(fields@);
    let mut models: Vec<String> = Vec::new();
    let mut i: usize = 0;
    while i < fields.len()
        invariant
            i <= fields@.len(),
            all == opt_texts(fields@),
            ascending(texts(models@)),
            forall|t: Seq<char>| #[trigger]
                texts(models@).contains(t) <==> all.take(i as int).contains(Some(t)),
        decreases fields@.len() - i,
    {
        let ghost was = texts(models@);
        if let Some(id) = &fields[i] {
            insert_ascending(&mut models, id.clone());
        }
        proof {
            let now = all.take(i as int);
            let next = all.take(i + 1);
            assert(next =~= now.push(all[i as int]));
            assert forall|t: Seq<char>| #[trigger] texts(models@).contains(t) <==> next.contains(
                Some(t),
            ) by {
                assert(texts(models@).contains(t) <==> was.contains(t) || all[i as int] == Some(t));
                if now.contains(Some(t)) {
                    let k = choose|k: int| 0 <= k < now.len() && now[k] == Some(t);
                    assert(next[k] == Some(t));
                }
                if all[i as int] == Some(t) {
                    assert(next[i as int] == Some(t));
                }
                if next.contains(Some(t)) {
                    let k = choose|k: int| 0 <= k < next.len() && next[k] == Some(t);
                    if k < i {
                        assert(now[k] == Some(t));
                    }
                }
            }
        }
        i += 1;
    }
    assert(all.take(i as int) =~= all);
    if models.len() == 0 {
        assert forall|k: int| 0 <= k < all.len() implies (#[trigger] all[k]) is None by {
            if let Some(t) = all[k] {
                assert(all.contains(Some(t)));
                assert(texts(models@).contains(t));
            }
        }
        return Err("the endpoint reports no models".to_owned());
    }
    Ok(models)
}

/// The name in each item of a list.
pub open spec fn names_in(list: Seq<Seq<char>>) -> Seq<Option<Seq<char>>> {
    list.map_values(|t: Seq<char>| member_text(t, "id"@))
}

fn read_names(list: &Vec<String>) -> (r: Vec<Option<String>>)
    ensures
        opt_texts(r@) == names_in(texts(list@)),
{
    let mut out: Vec<Option<String>> = Vec::new();
    let mut i: usize = 0;
    while i < list.len()
        invariant
            i <= list@.len(),
            out@.len() == i,
            forall|j: int|
                0 <= j < i ==> opt_text(#[trigger] out@[j]) == member_text(list@[j]@, "id"@),
        decreases list@.len() - i,
    {
        out.push(get_text(list[i].as_str(), "id"));
        i += 1;
    }
    assert(opt_texts(out@) =~= names_in(texts(list@)));
    out
}

/// Reads a list of models, `{"data":[{"id":..}]}`.
pub fn parse_models_json(body: &str) -> (r: Result<Vec<String>, String>)
    ensures
        match json_of(body@) {
            Err(fault) => r matches Err(e) && e@ == "model list is not JSON: "@ + fault,
            Ok(_) => match data_items(body@) {
                None => r matches Err(e) && e@ == "model list has no 'data' array"@,
                Some(list) => lists_models(names_in(list), r),
            },
        },
{
    if let Err(fault) = parse_json(body) {
        let mut message = String::from_str("model list is not JSON: ");
        message.append(fault.as_str());
        return Err(message);
    }
    let list = match get_member(body, "data") {
        Some(data) => get_items(data.as_str()),
        None => None,
    };
    match list {
        None => Err("model list has no 'data' array".to_owned()),
        Some(list) => {
            let names = read_names(&list);
            models_from(&names)
        },
    }
}

/// A request for an endpoint's models.
#[derive(Debug, Clone)]
pub struct ModelsRequest {
    pub url: String,
    pub bearer: Option<String>,
}

/// A key that is worth sending.
pub open spec fn key_to_send(key: Option<Seq<char>>) -> Option<Seq<char>> {
    match key {
        Some(k) => if trimmed(k).len() == 0 {
            None
        } else {
            Some(k)
        },
        None => None,
    }
}

/// A key that is worth sending: one that is not blank.
pub fn bearer(key: Option<&str>) -> (r: Option<String>)
    ensures
        opt_text(r) == key_to_send(
            match key {
                Some(k) => Some(k@),
                None => None,
            },
        ),
{
    match key {
        Some(k) => if trim(k).as_str().is_empty() {
            None
        } else {
            Some(k.to_owned())
        },
        None => None,
    }
}

/// The address of something that an endpoint serves: its base, without the slashes
/// at its end, and the path.
pub open spec fn endpoint(base: Seq<char>, path: Seq<char>) -> Seq<char> {
    strip_end(base, '/') + path
}

/// What to ask an endpoint for its models; nothing is asked of an endpoint that
/// must not be called.
pub fn models_request(base_url: &str, api_key: Option<&str>) -> (r: Result<ModelsRequest, String>)
    ensures
        match r {
            Ok(q) => {
                &&& url_fault(base_url@) is None
                &&& q.url@ == strip_end(base_url@, '/') + "/models"@
                &&& opt_text(q.bearer) == key_to_send(
                    match api_key {
                        Some(k) => Some(k@),
                        None => None,
                    },
                )
            },
            Err(e) => url_fault(base_url@) == Some(e@),
        },
        r matches Ok(q) ==> q.url@ == endpoint(base_url@, "/models"@),
{
    match validate_base_url(base_url) {
        Ok(_) => {
            let mut url = trim_end_char(base_url, '/');
            url.append("/models");
            Ok(ModelsRequest { url, bearer: bearer(api_key) })
        },
        Err(e) => Err(e),
    }
}

// ---------------------------------------------------------------------------
// Laws
// ---------------------------------------------------------------------------
/// Settings that override nothing leave the environment as it is.
pub proof fn law_no_settings_is_the_environment(env: ProviderView)
    ensures
        resolved(env, no_settings()) == env,
{
    assert(resolved(env, no_settings()) =~= env);
}

/// Whatever is stored, the key in effect is the environment's.
pub proof fn law_key_comes_from_the_environment(env: ProviderView, db: SettingsView)
    ensures
        resolved(env, db).remote.api_key == env.remote.api_key,
{
}

/// Stored settings win, field by field, and resolving twice is resolving once.
pub proof fn law_resolve_twice(env: ProviderView, db: SettingsView)
    ensures
        resolved(resolved(env, db), db) == resolved(env, db),
{
    assert(resolved(resolved(env, db), db) =~= resolved(env, db));
}

/// Normalising what was normalised changes nothing and finds nothing wrong.
pub proof fn law_normalise_twice(s: SettingsView)
    ensures
        tidied(tidied(s)) == tidied(s),
        settings_fault(tidied(s)) is None ==> settings_fault(tidied(tidied(s))) is None,
{
    assert forall|t: Option<Seq<char>>| tidy(#[trigger] tidy(t)) == tidy(t) by {
        if let Some(x) = t {
            lemma_trim_idempotent(x);
        }
    }
    assert(tidied(tidied(s)) =~= tidied(s));
}

/// Text without the characters that end a host.
pub open spec fn inside_authority(s: Seq<char>) -> bool {
    forall|i: int| 0 <= i < s.len() ==> !ends_host(#[trigger] s[i])
}

proof fn lemma_authority(front: Seq<char>, tail: Seq<char>)
    requires
        inside_authority(front),
        tail.len() == 0 || ends_host(tail[0]),
    ensures
        authority(front + tail) == front,
    decreases front.len(),
{
    if front.len() == 0 {
        assert(front + tail =~= tail);
        assert(authority(tail) =~= front);
    } else {
        let rest = front.drop_first();
        assert((front + tail).drop_first() =~= rest + tail);
        lemma_authority(rest, tail);
        assert(!ends_host(front[0]));
        assert(seq![front[0]] + rest =~= front);
    }
}

proof fn lemma_last_place(front: Seq<char>, c: char, tail: Seq<char>)
    requires
        !tail.contains(c),
    ensures
        last_place(front + seq![c] + tail, c) == Some(front.len() as int),
    decreases tail.len(),
{
    let all = front + seq![c] + tail;
    if tail.len() > 0 {
        assert(all.last() == tail.last());
        assert(tail.contains(tail.last()));
        assert(all.drop_last() =~= front + seq![c] + tail.drop_last());
        assert(!tail.drop_last().contains(c)) by {
            if tail.drop_last().contains(c) {
                let k = choose|k: int| 0 <= k < tail.drop_last().len() && tail.drop_last()[k] == c;
                assert(tail[k] == c);
            }
        }
        lemma_last_place(front, c, tail.drop_last());
    }
}

/// Credentials in a URL cannot disguise its host: whatever stands before the
/// last `@`, the host that is checked is the one behind it.
pub proof fn law_credentials_do_not_hide_the_host(user: Seq<char>, host: Seq<char>, tail: Seq<char>)
    requires
        inside_authority(user),
        inside_authority(host),
        !host.contains('@'),
        tail.len() == 0 || ends_host(tail[0]),
    ensures
        without_user(authority(user + seq!['@'] + host + tail)) == host,
{
    let front = user + seq!['@'] + host;
    assert(inside_authority(front)) by {
        assert forall|i: int| 0 <= i < front.len() implies !ends_host(#[trigger] front[i]) by {
            if i < user.len() {
                assert(front[i] == user[i]);
            } else if i > user.len() {
                assert(front[i] == host[i - user.len() - 1]);
            }
        }
    }
    lemma_authority(front, tail);
    lemma_last_place(user, '@', host);
    assert(front.skip((user.len() + 1) as int) =~= host);
}

/// What is accepted is an HTTP endpoint with a host that is no metadata address.
pub proof fn law_accepted_url(raw: Seq<char>)
    requires
        url_fault(raw) is None,
    ensures
        find_from(trimmed(raw), "://"@, 0) matches Some(p) && {
            let url = trimmed(raw);
            let host = without_user(authority(url.skip(p + 3)));
            let name = unbracketed(without_port(host));
            &&& url.take(p) == "http"@ || url.take(p) == "https"@
            &&& name.len() > 0
            &&& !is_metadata_host(name) && !is_metadata_v6(name)
            &&& !is_metadata_v6(unbracketed(host))
        },
{
}

/// The host of a URL, with its port and without its credentials.
pub open spec fn host_of(raw: Seq<char>) -> Option<Seq<char>> {
    match find_from(trimmed(raw), "://"@, 0) {
        Some(p) => Some(without_user(authority(trimmed(raw).skip(p + 3)))),
        None => None,
    }
}

/// Three forms of metadata address are refused, with or without credentials
/// before them, brackets around them and a port behind them: a host that begins
/// with `169.254.`, `metadata.google.internal` and `fd00:ec2::254`, the latter
/// two in any ASCII case.
pub proof fn law_metadata_is_refused(raw: Seq<char>)
    requires
        host_of(raw) matches Some(host) && {
            let name = unbracketed(without_port(host));
            is_metadata_host(name) || is_metadata_v6(name) || is_metadata_v6(unbracketed(host))
        },
    ensures
        host_fault(host_of(raw)->Some_0) is Some,
        url_fault(raw) is Some,
{
}

/// What is stored wins, field by field, and what is not comes from the
/// environment; nothing else of the environment changes.
pub proof fn law_stored_settings_win(env: ProviderView, db: SettingsView)
    ensures
        ({
            let r = resolved(env, db);
            &&& db.provider == Some("remote"@) ==> r.kind == ProviderKind::Remote
            &&& db.provider == Some("heuristic"@) ==> r.kind == ProviderKind::Heuristic
            &&& db.provider is None ==> r.kind == env.kind
            &&& db.remote_backend matches Some(b) ==> r.remote.backend == b
            &&& db.remote_backend is None ==> r.remote.backend == env.remote.backend
            &&& db.api_base is Some ==> r.remote.api_base == db.api_base
            &&& db.api_base is None ==> r.remote.api_base == env.remote.api_base
            &&& db.extract_model matches Some(m) ==> r.remote.extract_model == m
            &&& db.extract_model is None ==> r.remote.extract_model == env.remote.extract_model
            &&& db.distill_model matches Some(m) ==> r.remote.distill_model == m
            &&& db.distill_model is None ==> r.remote.distill_model == env.remote.distill_model
            &&& db.extract_timeout_ms matches Some(t) ==> t >= 0 ==> r.remote.extract_timeout_ms == t
            &&& db.extract_timeout_ms is None ==> r.remote.extract_timeout_ms
                == env.remote.extract_timeout_ms
            &&& db.distill_timeout_ms matches Some(t) ==> t >= 0 ==> r.remote.distill_timeout_ms == t
            &&& db.distill_timeout_ms is None ==> r.remote.distill_timeout_ms
                == env.remote.distill_timeout_ms
            &&& r.fallback == env.fallback && r.embedded == env.embedded
            &&& r.remote.prompt_cache == env.remote.prompt_cache
            &&& r.remote.extract_max_tokens == env.remote.extract_max_tokens
            &&& r.remote.distill_max_tokens == env.remote.distill_max_tokens
        }),
{
    reveal_strlit("remote");
    reveal_strlit("heuristic");
    assert("remote"@[0] == 'r' && "heuristic"@[0] == 'h');
}

/// A text that was cleared is a text that was never set; any other keeps what it
/// says, without space around it.
pub proof fn law_cleared_is_never_set(s: Seq<char>)
    ensures
        tidy(None) is None,
        trimmed(s).len() == 0 ==> tidy(Some(s)) is None,
        trimmed(s).len() > 0 ==> tidy(Some(s)) == Some(trimmed(s)),
{
}

/// What can be saved: one of two providers, one of three backends, a base that may
/// be called, and timeouts between a second and ten minutes, each where it is
/// given.
pub proof fn law_what_can_be_saved(s: SettingsView)
    ensures
        settings_fault(s) is None <==> {
            &&& s.provider matches Some(p) ==> p == "heuristic"@ || p == "remote"@
            &&& s.remote_backend matches Some(b) ==> b == "openai"@ || b == "anthropic"@ || b
                == "openrouter"@
            &&& s.api_base matches Some(u) ==> url_fault(u) is None
            &&& s.extract_timeout_ms matches Some(t) ==> 1000 <= t <= 10 * 60 * 1000
            &&& s.distill_timeout_ms matches Some(t) ==> 1000 <= t <= 10 * 60 * 1000
        },
        tidied(s).extract_timeout_ms == s.extract_timeout_ms,
        tidied(s).distill_timeout_ms == s.distill_timeout_ms,
        tidied(s).provider == tidy(s.provider) && tidied(s).remote_backend == tidy(s.remote_backend),
        tidied(s).api_base == tidy(s.api_base),
        tidied(s).extract_model == tidy(s.extract_model),
        tidied(s).distill_model == tidy(s.distill_model),
{
}

/// A key that says something is sent as it is; a blank one is not.
pub proof fn law_key_is_sent_as_it_is(key: Seq<char>)
    ensures
        key_to_send(None) is None,
        trimmed(key).len() == 0 ==> key_to_send(Some(key)) is None,
        trimmed(key).len() > 0 ==> key_to_send(Some(key)) == Some(key),
{
}

/// An HTTP endpoint on an ordinary host, with or without a port or a path, is
/// accepted.
pub proof fn law_plain_endpoints_are_accepted(host: Seq<char>, port: Seq<char>, path: Seq<char>)
    requires
        host.len() > 0,
        forall|i: int|
            0 <= i < host.len() ==> !ends_host(#[trigger] host[i]) && host[i] != ':' && host[i]
                != '@' && !is_bracket(host[i]),
        forall|i: int|
            0 <= i < port.len() ==> !ends_host(#[trigger] port[i]) && port[i] != ':' && port[i]
                != '@',
        path.len() == 0 || ends_host(path[0]),
        !is_metadata_host(host),
        trimmed("http://"@ + host + seq![':'] + port + path) == "http://"@ + host + seq![':'] + port
            + path,
        trimmed("https://"@ + host + path) == "https://"@ + host + path,
    ensures
        url_fault("http://"@ + host + seq![':'] + port + path) is None,
        url_fault("https://"@ + host + path) is None,
{
    reveal_strlit("http://");
    reveal_strlit("https://");
    reveal_strlit("http");
    reveal_strlit("https");
    reveal_strlit("://");
    reveal_strlit("fd00:ec2::254");
    let full = host + seq![':'] + port;
    let a = "http://"@ + host + seq![':'] + port + path;
    let b = "https://"@ + host + path;
    lemma_scheme(a, 4);
    lemma_scheme(b, 5);
    assert(a.take(4) =~= "http"@);
    assert(b.take(5) =~= "https"@);
    assert(a.skip(7) =~= full + path);
    assert(b.skip(8) =~= host + path);
    assert(inside_authority(full));
    assert(inside_authority(host));
    lemma_authority(full, path);
    lemma_authority(host, path);
    lemma_no_place(full, '@');
    lemma_no_place(host, '@');
    assert(!port.contains(':'));
    lemma_last_place(host, ':', port);
    lemma_no_place(host, ':');
    assert(full.take(host.len() as int) =~= host);
    lemma_unbracketed(host);
    assert(unbracketed(host) == host);
    assert(!is_metadata_v6(host)) by {
        if is_metadata_v6(host) {
            let v = "fd00:ec2::254"@;
            assert(ascii_lower(host).len() == host.len() && ascii_lower(v).len() == v.len());
            assert(v[4] == ':');
            assert(ascii_lower(v)[4] == ':');
            assert(ascii_lower(host)[4] == ascii_lower(v)[4]);
            assert(host[4] == ':');
        }
    }
    lemma_not_v6(host, port);
}

proof fn lemma_scheme(url: Seq<char>, p: int)
    requires
        4 <= p <= 5,
        url.len() >= p + 3,
        url[p] == ':' && url[p + 1] == '/' && url[p + 2] == '/',
        forall|i: int| 0 <= i < p ==> #[trigger] url[i] != ':',
    ensures
        find_from(url, "://"@, 0) == Some(p),
{
    reveal_strlit("://");
    reveal_with_fuel(find_from, 7);
    let t = "://"@;
    assert forall|i: int| 0 <= i < p implies !#[trigger] occurs_at(url, t, i) by {
        if occurs_at(url, t, i) {
            assert(url.subrange(i, i + 3)[0] == url[i]);
        }
    }
    assert(url.subrange(p, p + 3) =~= t);
    assert(occurs_at(url, t, p));
    assert(!occurs_at(url, t, 0) && !occurs_at(url, t, 1) && !occurs_at(url, t, 2) && !occurs_at(
        url,
        t,
        3,
    ));
    if p == 5 {
        assert(!occurs_at(url, t, 4));
    }
}

proof fn lemma_no_place(s: Seq<char>, c: char)
    requires
        forall|i: int| 0 <= i < s.len() ==> #[trigger] s[i] != c,
    ensures
        last_place(s, c) is None,
    decreases s.len(),
{
    if s.len() > 0 {
        assert(s[s.len() - 1] != c);
        assert forall|i: int| 0 <= i < s.drop_last().len() implies #[trigger] s.drop_last()[i]
            != c by {
            assert(s[i] != c);
        }
        lemma_no_place(s.drop_last(), c);
    }
}

proof fn lemma_unbracketed(s: Seq<char>)
    requires
        s.len() > 0,
        !is_bracket(s[0]),
        !is_bracket(s.last()),
    ensures
        unbracketed(s) == s,
{
}

proof fn lemma_not_v6(host: Seq<char>, port: Seq<char>)
    requires
        host.len() > 0,
        forall|i: int|
            0 <= i < host.len() ==> #[trigger] host[i] != ':' && !is_bracket(host[i]),
        forall|i: int| 0 <= i < port.len() ==> #[trigger] port[i] != ':',
    ensures
        !is_metadata_v6(unbracketed(host + seq![':'] + port)),
{
    reveal_strlit("fd00:ec2::254");
    let full = host + seq![':'] + port;
    let v = "fd00:ec2::254"@;
    assert(open_stripped(full) == full);
    lemma_close_is_front(full);
    let s = close_stripped(full);
    if is_metadata_v6(s) {
        assert(ascii_lower(s).len() == s.len() && ascii_lower(v).len() == v.len());
        assert forall|i: int| 0 <= i < s.len() implies (s[i] == ':' <==> #[trigger] v[i] == ':') by {
            assert(ascii_lower(s)[i] == ascii_lower(v)[i]);
        }
        assert(v[4] == ':' && v[8] == ':' && v[9] == ':');
        assert(s[4] == full[4] && s[8] == full[8]);
        let n = host.len() as int;
        assert(full[n] == ':');
        if n != 4 {
            if n > 4 {
                assert(full[4] == host[4]);
            } else {
                assert(full[4] == port[4 - n - 1]);
            }
        }
        assert(full[8] == port[8 - n - 1]);
    }
}

proof fn lemma_close_is_front(s: Seq<char>)
    ensures
        close_stripped(s).len() <= s.len(),
        close_stripped(s) == s.take(close_stripped(s).len() as int),
    decreases s.len(),
{
    if s.len() > 0 && is_bracket(s.last()) {
        lemma_close_is_front(s.drop_last());
        let n = close_stripped(s).len() as int;
        assert(s.drop_last().take(n) =~= s.take(n));
    } else {
        assert(s.take(s.len() as int) =~= s);
    }
}

/// An endpoint is called under its base, whether or not that ends with slashes.
pub proof fn law_slashes_make_no_difference(base: Seq<char>, path: Seq<char>)
    ensures
        endpoint(base.push('/'), path) == endpoint(base, path),
        base.len() == 0 || base.last() != '/' ==> endpoint(base, path) == base + path,
{
    crate::text::law_stripping_takes_only_the_end(base, '/');
}

/// The models that are listed are all that are named, each once, in the order of
/// their names; where none is named, that is said.
pub proof fn law_every_model_is_listed(
    fields: Seq<Option<Seq<char>>>,
    r: Result<Vec<String>, String>,
    i: int,
)
    requires
        lists_models(fields, r),
        0 <= i < fields.len(),
    ensures
        fields[i] matches Some(name) ==> (r matches Ok(v) && texts(v@).contains(name)),
        r matches Ok(v) ==> forall|k: int|
            0 <= k < v@.len() ==> fields.contains(Some((#[trigger] v@[k])@)),
        r matches Ok(v) ==> forall|j: int, k: int|
            0 <= j < k < v@.len() ==> crate::text::text_less(
                (#[trigger] v@[j])@,
                (#[trigger] v@[k])@,
            ),
{
    if let Some(name) = fields[i] {
        assert(fields.contains(Some(name)));
    }
    if let Ok(v) = r {
        assert forall|k: int| 0 <= k < v@.len() implies fields.contains(
            Some((#[trigger] v@[k])@),
        ) by {
            assert(texts(v@)[k] == v@[k]@);
            assert(texts(v@).contains(v@[k]@));
        }
        assert forall|j: int, k: int| 0 <= j < k < v@.len() implies crate::text::text_less(
            (#[trigger] v@[j])@,
            (#[trigger] v@[k])@,
        ) by {
            assert(texts(v@)[j] == v@[j]@ && texts(v@)[k] == v@[k]@);
        }
    }
}

} // verus!
