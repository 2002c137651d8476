//! The pages of the admin interface, as text.
use vstd::prelude::*;
use vstd::string::*;

use crate::assets::{
    CATALOG, CHAIN_NODE, CURATE, CURATED, CURATED_NONE, CURATE_2, CURATE_3, CURATE_NONE,
    DASHBOARD, KEYS_HEAD, LOCAL_TIME_JS, LOGIN_FORM, LOGIN_FORM_2, MAP, MAP_JS, MODE_SELECT,
    NO_DISTILL, NO_MODEL_BANNER, PAGE_HEAD, PLAYGROUND, PLAYGROUND_2, PLAYGROUND_3,
    PLAYGROUND_4, PROPOSALS, REVOKE, SETTINGS, SETTINGS_2, SETTINGS_3, SETTINGS_4, SETTINGS_5,
    SETTINGS_JS, STATE, TOKENS_FOOT, TOKENS_HEAD, TYPE_SELECT,
};
use crate::dev_mode::{carries_banner, law_banner_marks_development, BANNER_CLASS};
use crate::ids::{id_text, lemma_id_text_len, write_id};
use crate::json::{
    get_items, get_member, get_text, items, json_pretty, member, member_text, pretty, quote,
    quote_opt, quoted, text_or_null,
};
use crate::playground::Settings;
use crate::settings::SystemSettings;
use crate::text::{
    contains, decimal, decimal_int, decimal_int_text, decimal_text, first_chars, join, joined, lemma_assoc,
    opt_text, same_text, texts,
};
use crate::time::Timestamp;

verus! {

// ---------------------------------------------------------------------------
// The site
// ---------------------------------------------------------------------------
/// What every page needs to know: whether it runs in development mode, which is
/// settled once, and what is running, whose text never holds the class of the
/// banner that marks development mode.
#[derive(Debug)]
pub struct Site {
    dev_mode: Option<bool>,
    build: String,
}

impl Site {
    #[verifier::type_invariant]
    spec fn build_is_plain(&self) -> bool {
        self.well_formed()
    }

    /// What was settled on development mode, if anything.
    pub closed spec fn settled(self) -> Option<bool> {
        self.dev_mode
    }

    /// What is running.
    pub closed spec fn running(self) -> Seq<char> {
        self.build@
    }

    /// What holds of every site: what is running does not read like a banner.
    pub open spec fn well_formed(self) -> bool {
        !carries_banner(self.running())
    }

    /// A site that runs this, with nothing settled yet; none where the text
    /// reads like a banner.
    pub fn new(build: String) -> (r: Option<Site>)
        ensures
            match r {
                Some(site) => site.well_formed() && site.settled() is None && site.running()
                    == build@,
                None => carries_banner(build@),
            },
    {
        if contains(build.as_str(), BANNER_CLASS) {
            None
        } else {
            Some(Site { dev_mode: None, build })
        }
    }
}

/// Whether pages are marked as being in development mode.
pub open spec fn dev_shown(site: Site) -> bool {
    site.settled() == Some(true)
}

/// Whether a site is another for which it was then said whether it is in
/// development mode: what was settled before stays.
pub open spec fn settles(before: Site, on: bool, after: Site) -> bool {
    &&& after.settled() == (match before.settled() {
        Some(b) => Some(b),
        None => Some(on),
    })
    &&& after.running() == before.running()
}

/// Settles whether the site is in development mode. What was settled stays.
pub fn set_dev_mode(site: &mut Site, on: bool)
    ensures
        settles(*old(site), on, *final(site)),
        final(site).well_formed(),
{
    proof {
        use_type_invariant(&*site);
    }
    if site.dev_mode.is_none() {
        site.dev_mode = Some(on);
    }
}

/// Whether the site is in development mode; it is not, until that is settled.
pub fn dev_mode_on(site: &Site) -> (r: bool)
    ensures
        r == dev_shown(*site),
{
    match site.dev_mode {
        Some(b) => b,
        None => false,
    }
}

/// A record as the pages show it. `importance` is written out already, and
/// `payload` is the text of a document.
#[derive(Debug, Clone)]
pub struct RawAdminRow {
    pub id: u128,
    pub record_type: String,
    pub content: String,
    pub event_time: Timestamp,
    pub source: String,
    pub project_id: Option<String>,
    pub container_id: Option<String>,
    pub mode: Option<String>,
    pub importance: Option<String>,
    pub state_kind: Option<String>,
    pub state_key: Option<String>,
    pub entities: Vec<String>,
    pub superseded: bool,
    pub payload: Option<String>,
}

// ---------------------------------------------------------------------------
// Small parts
// ---------------------------------------------------------------------------
/// A character as it stands in a page.
pub open spec fn esc_char(c: char) -> Seq<char> {
    if c == '&' {
        "&amp;"@
    } else if c == '<' {
        "&lt;"@
    } else if c == '>' {
        "&gt;"@
    } else if c == '"' {
        "&quot;"@
    } else if c == '\'' {
        "&#39;"@
    } else {
        seq![c]
    }
}

/// A text as it stands in a page.
pub open spec fn esc_text(s: Seq<char>) -> Seq<char>
    decreases s.len(),
{
    if s.len() == 0 {
        Seq::empty()
    } else {
        esc_text(s.drop_last()) + esc_char(s.last())
    }
}

/// Writes a text so that a page shows it and does not obey it.
pub fn esc(s: &str) -> (r: String)
    ensures
        r@ == esc_text(s@),
{
    let mut out = String::new();
    for c in it: s.chars()
        invariant
            it.seq() == s@,
            out@ == esc_text(s@.take(it.index())),
    {
        proof {
            let k = it.index();
            assert(s@.take(k + 1).drop_last() =~= s@.take(k));
            assert(s@.take(k + 1).last() == c);
        }
        let ghost was = out@;
        if c == '&' {
            out.append("&amp;");
        } else if c == '<' {
            out.append("&lt;");
        } else if c == '>' {
            out.append("&gt;");
        } else if c == '"' {
            out.append("&quot;");
        } else if c == '\'' {
            out.append("&#39;");
        } else {
            out.push(c);
            assert(out@ =~= was + seq![c]);
        }
    }
    assert(s@.take(s@.len() as int) =~= s@);
    out
}

/// A text that may be missing, as it stands in a page.
pub open spec fn esc_or(o: Option<Seq<char>>, otherwise: Seq<char>) -> Seq<char> {
    match o {
        Some(t) => esc_text(t),
        None => esc_text(otherwise),
    }
}

fn esc_opt(o: &Option<String>, otherwise: &str) -> (r: String)
    ensures
        r@ == esc_or(opt_text(*o), otherwise@),
{
    match o {
        Some(t) => esc(t.as_str()),
        None => esc(otherwise),
    }
}

/// A text between two others, where it is there, or another text.
pub open spec fn opt_html(
    o: Option<Seq<char>>,
    before: Seq<char>,
    after: Seq<char>,
    otherwise: Seq<char>,
) -> Seq<char> {
    match o {
        Some(t) => before + esc_text(t) + after,
        None => otherwise,
    }
}

fn write_opt(o: &Option<String>, before: &str, after: &str, otherwise: &str) -> (r: String)
    ensures
        r@ == opt_html(opt_text(*o), before@, after@, otherwise@),
{
    match o {
        Some(t) => {
            let mut out = String::from_str(before);
            out.append(esc(t.as_str()).as_str());
            out.append(after);
            out
        },
        None => otherwise.to_owned(),
    }
}

/// The mark of a type.
pub open spec fn pill_text(t: Seq<char>) -> Seq<char> {
    r#"<span class="pill t-"#@ + t + r#"">"#@ + t + "</span>"@
}

/// The mark of a type.
pub fn type_pill(t: &str) -> (r: String)
    ensures
        r@ == pill_text(t@),
{
    let mut out = String::from_str(r#"<span class="pill t-"#);
    out.append(t);
    out.append(r#"">"#);
    out.append(t);
    out.append("</span>");
    out
}

/// The front of an id.
pub fn short_id(id: u128) -> (r: String)
    ensures
        r@ == id_text(id).take(8),
{
    proof {
        lemma_id_text_len(id);
    }
    first_chars(write_id(id).as_str(), 8)
}

/// A point in time that a browser can show in its own zone.
pub open spec fn when_text(t: Timestamp) -> Seq<char> {
    r#"<time datetime=""#@ + t.rfc3339() + r#"" class="ts">"#@ + t.minute() + " UTC</time>"@
}

/// A point in time, for a machine as RFC 3339 writes it, and for a reader to the
/// minute in UTC.
pub fn format_when(t: Timestamp) -> (r: String)
    ensures
        r@ == when_text(t),
{
    let mut out = String::from_str(r#"<time datetime=""#);
    out.append(t.to_rfc3339().as_str());
    out.append(r#"" class="ts">"#);
    out.append(t.to_minute().as_str());
    out.append(" UTC</time>");
    out
}

// ---------------------------------------------------------------------------
// The frame of a page
// ---------------------------------------------------------------------------
/// The banner of a page in development mode.
pub const DEV_BANNER: &'static str = r#"<div class="dev-banner">⚠ DEV MODE — auth bypassed. Every request runs as <code>user_id=dev</code>. Don't expose this server to the internet.</div>"#;

/// The banner of the login page in development mode.
pub const LOGIN_DEV_BANNER: &'static str = r#"<div class="dev-banner">⚠ DEV MODE — auth bypassed</div>"#;

/// A link of the navigation; the page that is shown is marked.
pub open spec fn nav_item(active: Seq<char>, name: Seq<char>, href: Seq<char>, label: Seq<char>) -> Seq<char> {
    r#"<a href=""#@
        + href
        + r#"" class=""#@
        + (if name == active {
        "active"@
    } else {
        ""@
    })
        + r#"">"#@
        + label
        + "</a>"@
}

/// A link of the navigation.
fn write_nav_item(active: &str, name: &str, href: &str, label: &str) -> (html: String)
    ensures
        html@ == nav_item(active@, name@, href@, label@),
{
    let mut out = String::from_str(r#"<a href=""#);
    out.append(href);
    out.append(r#"" class=""#);
    out.append(if same_text(name, active) { "active" } else { "" });
    out.append(r#"">"#);
    out.append(label);
    out.append("</a>");
    out
}

/// The navigation.
pub open spec fn nav_text(active: Seq<char>, user_id: Seq<char>) -> Seq<char> {
    r#"<nav class="nav">
  <span class="brand">flashback ✦ admin</span>
  "#@
        + nav_item(active, "dashboard"@, "/admin"@, "Dashboard"@)
        + r#"
  "#@
        + nav_item(active, "records"@, "/admin/records"@, "Records"@)
        + r#"
  "#@
        + nav_item(active, "curated"@, "/admin/curated"@, "Curated"@)
        + r#"
  "#@
        + nav_item(active, "state"@, "/admin/state"@, "State"@)
        + r#"
  "#@
        + nav_item(active, "catalog"@, "/admin/catalog"@, "Catalog"@)
        + r#"
  "#@
        + nav_item(active, "proposals"@, "/admin/proposals"@, "Proposals"@)
        + r#"
  "#@
        + nav_item(active, "map"@, "/admin/map"@, "Map"@)
        + r#"
  "#@
        + nav_item(active, "curate"@, "/admin/curate"@, "Curate"@)
        + r#"
  "#@
        + nav_item(active, "playground"@, "/admin/playground"@, "Playground"@)
        + r#"
  "#@
        + nav_item(active, "settings"@, "/admin/settings"@, "Settings"@)
        + r#"
  "#@
        + nav_item(active, "tokens"@, "/admin/tokens"@, "Tokens"@)
        + r#"
  <span class="spacer"></span>
  <span class="user">"#@
        + user_id
        + r#"</span>
  <a href="/admin/logout">logout</a>
</nav>"#@
}

/// The navigation, with the page that is shown marked.
pub fn render_nav(active: &str, user_id: &str) -> (html: String)
    ensures
        html@ == nav_text(active@, user_id@),
{
    let mut out = String::from_str(r#"<nav class="nav">
  <span class="brand">flashback ✦ admin</span>
  "#);
    out.append(write_nav_item(active, "dashboard", "/admin", "Dashboard").as_str());
    out.append(r#"
  "#);
    out.append(write_nav_item(active, "records", "/admin/records", "Records").as_str());
    out.append(r#"
  "#);
    out.append(write_nav_item(active, "curated", "/admin/curated", "Curated").as_str());
    out.append(r#"
  "#);
    out.append(write_nav_item(active, "state", "/admin/state", "State").as_str());
    out.append(r#"
  "#);
    out.append(write_nav_item(active, "catalog", "/admin/catalog", "Catalog").as_str());
    out.append(r#"
  "#);
    out.append(write_nav_item(active, "proposals", "/admin/proposals", "Proposals").as_str());
    out.append(r#"
  "#);
    out.append(write_nav_item(active, "map", "/admin/map", "Map").as_str());
    out.append(r#"
  "#);
    out.append(write_nav_item(active, "curate", "/admin/curate", "Curate").as_str());
    out.append(r#"
  "#);
    out.append(write_nav_item(active, "playground", "/admin/playground", "Playground").as_str());
    out.append(r#"
  "#);
    out.append(write_nav_item(active, "settings", "/admin/settings", "Settings").as_str());
    out.append(r#"
  "#);
    out.append(write_nav_item(active, "tokens", "/admin/tokens", "Tokens").as_str());
    out.append(r#"
  <span class="spacer"></span>
  <span class="user">"#);
    out.append(user_id);
    out.append(r#"</span>
  <a href="/admin/logout">logout</a>
</nav>"#);
    out
}

/// A page: its head, the navigation, what it shows, and what is running.
pub open spec fn page_text(site: Site, active: Seq<char>, user_id: Seq<char>, content: Seq<char>) -> Seq<char> {
    PAGE_HEAD@
        + active
        + r#"</title>
<link rel="stylesheet" href="/admin/style.css" />
</head>
<body>
"#@
        + (if dev_shown(site) {
        DEV_BANNER@
    } else {
        ""@
    })
        + r#"
"#@
        + nav_text(active, user_id)
        + r#"
<main class="page">
"#@
        + content
        + r#"
</main>
<footer class="build">"#@
        + site.running()
        + r#"</footer>
"#@
        + LOCAL_TIME_JS@
        + r#"
</body>
</html>"#@
}

/// A page. It carries the banner exactly in development mode, unless what it is
/// given to show carries one.
pub fn page(site: &Site, active: &str, user_id: &str, content: &str) -> (html: String)
    ensures
        html@ == page_text(*site, active@, user_id@, content@),
        carries_banner(html@) == (dev_shown(*site) || carries_banner(active@) || carries_banner(
            user_id@,
        ) || carries_banner(content@)),
{
    proof {
        use_type_invariant(site);
        law_banner_marks_development(*site, active@, user_id@, content@);
    }
    let mut out = String::from_str(PAGE_HEAD);
    out.append(active);
    out.append(r#"</title>
<link rel="stylesheet" href="/admin/style.css" />
</head>
<body>
"#);
    out.append(if dev_mode_on(site) { DEV_BANNER } else { "" });
    out.append(r#"
"#);
    out.append(render_nav(active, user_id).as_str());
    out.append(r#"
<main class="page">
"#);
    out.append(content);
    out.append(r#"
</main>
<footer class="build">"#);
    out.append(site.build.as_str());
    out.append(r#"</footer>
"#);
    out.append(LOCAL_TIME_JS);
    out.append(r#"
</body>
</html>"#);
    out
}

/// The login page.
pub open spec fn login_text(site: Site, error: Option<Seq<char>>) -> Seq<char> {
    LOGIN_FORM@
        + (if dev_shown(site) {
        LOGIN_DEV_BANNER@
    } else {
        ""@
    })
        + r#"
  <div class="login-box">
    <h1>flashback ✦</h1>
    <p class="sub">paste a bearer token to access the admin UI</p>
    "#@
        + (match error {
        Some(e) => "<div class=\"error\">"@ + esc_text(e) + "</div>"@,
        None => ""@,
    })
        + LOGIN_FORM_2@
}

/// The login page, with what went wrong.
pub fn login_page(site: &Site, error: Option<&str>) -> (html: String)
    ensures
        html@ == login_text(
            *site,
            match error {
                Some(e) => Some(e@),
                None => None,
            },
        ),
{
    let error_html = match error {
        Some(e) => {
            let mut h = String::from_str("<div class=\"error\">");
            h.append(esc(e).as_str());
            h.append("</div>");
            h
        },
        None => String::from_str(""),
    };
    let mut out = String::from_str(LOGIN_FORM);
    out.append(if dev_mode_on(site) { LOGIN_DEV_BANNER } else { "" });
    out.append(r#"
  <div class="login-box">
    <h1>flashback ✦</h1>
    <p class="sub">paste a bearer token to access the admin UI</p>
    "#);
    out.append(error_html.as_str());
    out.append(LOGIN_FORM_2);
    out
}

// ---------------------------------------------------------------------------
// Dashboard
// ---------------------------------------------------------------------------
/// What the dashboard counts.
#[derive(Debug, Clone)]
pub struct DashboardStats {
    pub records_total: i64,
    pub records_terminal: i64,
    pub state_objects: i64,
    pub curated_nodes: i64,
    pub proposals_pending: i64,
    pub tokens_active: i64,
    pub provider: String,
    pub embedder_model: String,
    pub embedder_dim: usize,
}

/// A row of the recent records.
pub open spec fn recent_row(r: RawAdminRow) -> Seq<char> {
    "<tr><td>"@
        + pill_text(r.record_type@)
        + r#"</td><td><a href="/admin/records/"#@
        + id_text(r.id)
        + r#""><div class="content-preview">"#@
        + esc_text(r.content@)
        + r#"</div></a></td><td class="mono muted">"#@
        + when_text(r.event_time)
        + "</td></tr>"@
}

/// A row of the recent records.
fn write_recent_row(r: &RawAdminRow) -> (html: String)
    ensures
        html@ == recent_row(*r),
{
    let mut out = String::from_str("<tr><td>");
    out.append(type_pill(r.record_type.as_str()).as_str());
    out.append(r#"</td><td><a href="/admin/records/"#);
    out.append(write_id(r.id).as_str());
    out.append(r#""><div class="content-preview">"#);
    out.append(esc(r.content.as_str()).as_str());
    out.append(r#"</div></a></td><td class="mono muted">"#);
    out.append(format_when(r.event_time).as_str());
    out.append("</td></tr>");
    out
}

/// The rows of the recent records.
pub open spec fn recent_rows(v: Seq<RawAdminRow>) -> Seq<char>
    decreases v.len(),
{
    if v.len() == 0 {
        Seq::empty()
    } else {
        recent_rows(v.drop_last()) + recent_row(v.last())
    }
}

fn append_recent_rows(out: &mut String, v: &Vec<RawAdminRow>)
    ensures
        final(out)@ == old(out)@ + recent_rows(v@),
{
    let ghost head = out@;
    let mut i: usize = 0;
    assert(head + recent_rows(v@.take(0)) =~= head);
    while i < v.len()
        invariant
            i <= v@.len(),
            out@ == head + recent_rows(v@.take(i as int)),
        decreases v@.len() - i,
    {
        let item = write_recent_row(&v[i]);
        out.append(item.as_str());
        proof {
            assert(v@.take(i + 1).drop_last() =~= v@.take(i as int));
            assert(v@.take(i + 1).last() == v@[i as int]);
            lemma_assoc(head, recent_rows(v@.take(i as int)), item@);
        }
        i += 1;
    }
    assert(v@.take(i as int) =~= v@);
}

/// The card of the recent records.
pub open spec fn recent_card(recent: Seq<RawAdminRow>) -> Seq<char> {
    if recent.len() == 0 {
        r#"<div class="card"><h2 style="margin-top:0">Recent records</h2>"#@
            + r#"<p class="muted">No records yet. Ingest some via POST /records.</p>"#@
            + "</div>"@
    } else {
        r#"<div class="card"><h2 style="margin-top:0">Recent records</h2>"#@
            + "<table><thead><tr><th>type</th><th>content</th><th>event</th></tr></thead><tbody>"@
            + recent_rows(recent) + "</tbody></table>"@ + "</div>"@
    }
}

fn write_recent_card(recent: &Vec<RawAdminRow>) -> (r: String)
    ensures
        r@ == recent_card(recent@),
{
    let mut out = String::from_str(r#"<div class="card"><h2 style="margin-top:0">Recent records</h2>"#);
    if recent.len() == 0 {
        out.append(r#"<p class="muted">No records yet. Ingest some via POST /records.</p>"#);
    } else {
        out.append("<table><thead><tr><th>type</th><th>content</th><th>event</th></tr></thead><tbody>");
        append_recent_rows(&mut out, recent);
        out.append("</tbody></table>");
    }
    out.append("</div>");
    out
}

/// What the dashboard shows.
pub open spec fn dashboard_body(s: DashboardStats, recent: Seq<RawAdminRow>) -> Seq<char> {
    r#"<h1>Dashboard</h1>
<div class="stat-grid">
  <div class="stat"><div class="label">Records (terminal)</div><div class="value">"#@
        + decimal_int(s.records_terminal as int)
        + r#"</div></div>
  <div class="stat"><div class="label">Records (all)</div><div class="value">"#@
        + decimal_int(s.records_total as int)
        + r#"</div></div>
  <div class="stat"><div class="label">State objects</div><div class="value">"#@
        + decimal_int(s.state_objects as int)
        + r#"</div></div>
  <div class="stat"><div class="label">Curated nodes</div><div class="value">"#@
        + decimal_int(s.curated_nodes as int)
        + r#"</div></div>
  <div class="stat"><div class="label">Proposals pending</div><div class="value">"#@
        + decimal_int(s.proposals_pending as int)
        + r#"</div></div>
  <div class="stat"><div class="label">Active tokens</div><div class="value">"#@
        + decimal_int(s.tokens_active as int)
        + r#"</div></div>
</div>
<div class="row">
  <div class="card">
    <h2 style="margin-top:0">Engine</h2>
    <p><span class="muted">Embedder:</span> "#@
        + esc_text(s.embedder_model@)
        + " ("@
        + decimal(s.embedder_dim as nat)
        + r#"d)</p>
    <p><span class="muted">Extraction provider:</span> <code>"#@
        + esc_text(s.provider@)
        + DASHBOARD@
        + recent_card(recent)
}

/// What the dashboard shows.
fn write_dashboard(s: &DashboardStats, recent: &Vec<RawAdminRow>) -> (html: String)
    ensures
        html@ == dashboard_body(*s, recent@),
{
    let mut out = String::from_str(r#"<h1>Dashboard</h1>
<div class="stat-grid">
  <div class="stat"><div class="label">Records (terminal)</div><div class="value">"#);
    out.append(decimal_int_text(s.records_terminal).as_str());
    out.append(r#"</div></div>
  <div class="stat"><div class="label">Records (all)</div><div class="value">"#);
    out.append(decimal_int_text(s.records_total).as_str());
    out.append(r#"</div></div>
  <div class="stat"><div class="label">State objects</div><div class="value">"#);
    out.append(decimal_int_text(s.state_objects).as_str());
    out.append(r#"</div></div>
  <div class="stat"><div class="label">Curated nodes</div><div class="value">"#);
    out.append(decimal_int_text(s.curated_nodes).as_str());
    out.append(r#"</div></div>
  <div class="stat"><div class="label">Proposals pending</div><div class="value">"#);
    out.append(decimal_int_text(s.proposals_pending).as_str());
    out.append(r#"</div></div>
  <div class="stat"><div class="label">Active tokens</div><div class="value">"#);
    out.append(decimal_int_text(s.tokens_active).as_str());
    out.append(r#"</div></div>
</div>
<div class="row">
  <div class="card">
    <h2 style="margin-top:0">Engine</h2>
    <p><span class="muted">Embedder:</span> "#);
    out.append(esc(s.embedder_model.as_str()).as_str());
    out.append(" (");
    out.append(decimal_text(s.embedder_dim as u64).as_str());
    out.append(r#"d)</p>
    <p><span class="muted">Extraction provider:</span> <code>"#);
    out.append(esc(s.provider.as_str()).as_str());
    out.append(DASHBOARD);
    out.append(write_recent_card(recent).as_str());
    out
}

/// The dashboard.
pub open spec fn dashboard_page(site: Site, user_id: Seq<char>, stats: DashboardStats, recent: Seq<RawAdminRow>) -> Seq<char> {
    page_text(site, "dashboard"@, user_id, dashboard_body(stats, recent))
}

/// The dashboard.
pub fn dashboard(site: &Site, user_id: &str, stats: DashboardStats, recent: &Vec<RawAdminRow>) -> (r: String)
    ensures
        r@ == dashboard_page(*site, user_id@, stats, recent@),
{
    let content = write_dashboard(&stats, recent);
    page(site, "dashboard", user_id, content.as_str())
}

// ---------------------------------------------------------------------------
// Records
// ---------------------------------------------------------------------------
/// The filter of the record list.
#[derive(Debug, Clone)]
pub struct RecordsFilter {
    pub record_type: Option<String>,
    pub project_id: Option<String>,
    pub container_id: Option<String>,
    pub mode: Option<String>,
    pub include_superseded: bool,
}

impl Default for RecordsFilter {
    fn default() -> (r: RecordsFilter)
        ensures
            r.record_type is None && r.project_id is None && r.container_id is None,
            r.mode is None && !r.include_superseded,
    {
        RecordsFilter {
            record_type: None,
            project_id: None,
            container_id: None,
            mode: None,
            include_superseded: false,
        }
    }
}

/// A choice.
pub open spec fn option_text(t: Seq<char>, chosen: bool) -> Seq<char> {
    r#"<option value=""#@
        + t
        + r#"" "#@
        + (if chosen {
        "selected"@
    } else {
        ""@
    })
        + ">"@
        + t
        + "</option>"@
}

/// A choice.
fn write_option(t: &str, chosen: bool) -> (html: String)
    ensures
        html@ == option_text(t@, chosen),
{
    let mut out = String::from_str(r#"<option value=""#);
    out.append(t);
    out.append(r#"" "#);
    out.append(if chosen { "selected" } else { "" });
    out.append(">");
    out.append(t);
    out.append("</option>");
    out
}

/// Whether a filter is set to this value.
fn chosen(o: &Option<String>, t: &str) -> (r: bool)
    ensures
        r == (opt_text(*o) == Some(t@)),
{
    match o {
        Some(x) => same_text(x.as_str(), t),
        None => false,
    }
}

/// The choice of a type.
pub open spec fn type_choice(f: RecordsFilter) -> Seq<char> {
    TYPE_SELECT@
        + (if f.record_type is None {
        "selected"@
    } else {
        ""@
    })
        + r#">any</option>
              "#@
        + option_text("conversation"@, opt_text(f.record_type) == Some("conversation"@))
        + "\n"@
        + option_text("document"@, opt_text(f.record_type) == Some("document"@))
        + "\n"@
        + option_text("state_object"@, opt_text(f.record_type) == Some("state_object"@))
        + r#"
            </select></div>"#@
}

/// The choice of a type.
fn write_type_choice(f: &RecordsFilter) -> (html: String)
    ensures
        html@ == type_choice(*f),
{
    let mut out = String::from_str(TYPE_SELECT);
    out.append(if f.record_type.is_none() { "selected" } else { "" });
    out.append(r#">any</option>
              "#);
    out.append(write_option("conversation", chosen(&f.record_type, "conversation")).as_str());
    out.append("\n");
    out.append(write_option("document", chosen(&f.record_type, "document")).as_str());
    out.append("\n");
    out.append(write_option("state_object", chosen(&f.record_type, "state_object")).as_str());
    out.append(r#"
            </select></div>"#);
    out
}

/// The field for a project.
pub open spec fn project_field(f: RecordsFilter) -> Seq<char> {
    r#"<div><label class="muted">Project</label><br />
            <input type="text" name="project_id" value=""#@
        + esc_or(opt_text(f.project_id), ""@)
        + r#"" placeholder="any" style="min-width:160px" /></div>"#@
}

/// The field for a project.
fn write_project_field(f: &RecordsFilter) -> (html: String)
    ensures
        html@ == project_field(*f),
{
    let mut out = String::from_str(r#"<div><label class="muted">Project</label><br />
            <input type="text" name="project_id" value=""#);
    out.append(esc_opt(&f.project_id, "").as_str());
    out.append(r#"" placeholder="any" style="min-width:160px" /></div>"#);
    out
}

/// The field for a session.
pub open spec fn session_field(f: RecordsFilter) -> Seq<char> {
    r#"<div><label class="muted">Session</label><br />
            <input type="text" name="container_id" value=""#@
        + esc_or(opt_text(f.container_id), ""@)
        + r#"" placeholder="any" style="min-width:160px" /></div>"#@
}

/// The field for a session.
fn write_session_field(f: &RecordsFilter) -> (html: String)
    ensures
        html@ == session_field(*f),
{
    let mut out = String::from_str(r#"<div><label class="muted">Session</label><br />
            <input type="text" name="container_id" value=""#);
    out.append(esc_opt(&f.container_id, "").as_str());
    out.append(r#"" placeholder="any" style="min-width:160px" /></div>"#);
    out
}

/// The choices of a mode.
pub open spec fn mode_options(names: Seq<Seq<char>>, mode: Option<Seq<char>>) -> Seq<Seq<char>> {
    names.map_values(|m: Seq<char>| option_text(esc_text(m), mode == Some(m)))
}

fn write_mode_options(names: &Vec<String>, mode: &Option<String>) -> (r: String)
    ensures
        r@ == joined(mode_options(texts(names@), opt_text(*mode)), "\n"@),
{
    let ghost all = mode_options(texts(names@), opt_text(*mode));
    let mut parts: Vec<String> = Vec::new();
    let mut i: usize = 0;
    while i < names.len()
        invariant
            i <= names@.len(),
            all == mode_options(texts(names@), opt_text(*mode)),
            parts@.len() == i,
            forall|j: int| 0 <= j < i ==> (#[trigger] parts@[j])@ == all[j],
        decreases names@.len() - i,
    {
        let m = &names[i];
        assert(texts(names@)[i as int] == m@);
        parts.push(write_option(esc(m.as_str()).as_str(), chosen(mode, m.as_str())));
        i += 1;
    }
    assert(texts(parts@) =~= all);
    join(&parts, "\n")
}

/// The choice of a mode.
pub open spec fn mode_choice(f: RecordsFilter, names: Seq<Seq<char>>) -> Seq<char> {
    MODE_SELECT@
        + (if f.mode is None {
        "selected"@
    } else {
        ""@
    })
        + r#">any</option>
              "#@
        + joined(mode_options(names, opt_text(f.mode)), "\n"@)
        + r#"
            </select></div>"#@
}

/// The choice of a mode.
fn write_mode_choice(f: &RecordsFilter, names: &Vec<String>) -> (html: String)
    ensures
        html@ == mode_choice(*f, texts(names@)),
{
    let mut out = String::from_str(MODE_SELECT);
    out.append(if f.mode.is_none() { "selected" } else { "" });
    out.append(r#">any</option>
              "#);
    out.append(write_mode_options(names, &f.mode).as_str());
    out.append(r#"
            </select></div>"#);
    out
}

/// The form of the filter.
pub open spec fn filter_form(f: RecordsFilter, names: Seq<Seq<char>>) -> Seq<char> {
    r#"<form method="get" action="/admin/records" class="card" style="display:flex;flex-wrap:wrap;gap:12px;align-items:flex-end">"#@
        + type_choice(f)
        + project_field(f)
        + session_field(f)
        + mode_choice(f, names)
        + r#"<div><label><input type="checkbox" name="include_superseded" value="1" "#@
        + (if f.include_superseded {
        "checked"@
    } else {
        ""@
    })
        + " /> include superseded</label></div>"@
        + r#"<div><button type="submit">Apply</button></div>"#@
        + "</form>"@
}

/// The form of the filter.
fn write_filter_form(f: &RecordsFilter, names: &Vec<String>) -> (html: String)
    ensures
        html@ == filter_form(*f, texts(names@)),
{
    let mut out = String::from_str(r#"<form method="get" action="/admin/records" class="card" style="display:flex;flex-wrap:wrap;gap:12px;align-items:flex-end">"#);
    out.append(write_type_choice(f).as_str());
    out.append(write_project_field(f).as_str());
    out.append(write_session_field(f).as_str());
    out.append(write_mode_choice(f, names).as_str());
    out.append(r#"<div><label><input type="checkbox" name="include_superseded" value="1" "#);
    out.append(if f.include_superseded { "checked" } else { "" });
    out.append(" /> include superseded</label></div>");
    out.append(r#"<div><button type="submit">Apply</button></div>"#);
    out.append("</form>");
    out
}

/// Texts in a row.
pub open spec fn tags(v: Seq<String>) -> Seq<char>
    decreases v.len(),
{
    if v.len() == 0 {
        Seq::empty()
    } else {
        tags(v.drop_last()) + r#"<span class="tag">"#@ + esc_text(v.last()@) + "</span>"@
    }
}

/// At most `take` of the entities.
pub open spec fn entities_text(v: Seq<String>, take: nat) -> Seq<char> {
    if v.len() == 0 {
        r#"<span class="muted">—</span>"#@
    } else if v.len() <= take {
        r#"<div class="tag-list">"#@ + tags(v) + "</div>"@
    } else {
        r#"<div class="tag-list">"#@ + tags(v.take(take as int)) + "</div>"@
    }
}

/// At most `take` of the entities, as tags.
pub fn render_entities(entities: &Vec<String>, take: usize) -> (r: String)
    ensures
        r@ == entities_text(entities@, take as nat),
{
    if entities.len() == 0 {
        return String::from_str(r#"<span class="muted">—</span>"#);
    }
    let n: usize = if entities.len() <= take {
        entities.len()
    } else {
        take
    };
    let mut out = String::from_str(r#"<div class="tag-list">"#);
    let ghost head = out@;
    let mut i: usize = 0;
    assert(head + tags(entities@.take(0)) =~= head);
    while i < n
        invariant
            i <= n <= entities@.len(),
            out@ == head + tags(entities@.take(i as int)),
        decreases n - i,
    {
        out.append(r#"<span class="tag">"#);
        out.append(esc(entities[i].as_str()).as_str());
        out.append("</span>");
        proof {
            assert(entities@.take(i + 1).drop_last() =~= entities@.take(i as int));
            assert(out@ =~= head + tags(entities@.take(i + 1)));
        }
        i += 1;
    }
    proof {
        if entities@.len() <= take {
            assert(entities@.take(n as int) =~= entities@);
        }
    }
    out.append("</div>");
    out
}

/// A row of the record list.
pub open spec fn record_row(r: RawAdminRow) -> Seq<char> {
    "<tr><td>"@
        + pill_text(r.record_type@)
        + r#"</td><td><a href="/admin/records/"#@
        + id_text(r.id)
        + r#"">"#@
        + opt_html(opt_text(r.state_key), "<strong>"@, "</strong> &nbsp;"@, ""@)
        + r#"<div class="content-preview">"#@
        + esc_text(r.content@)
        + "</div></a>"@
        + (if r.superseded {
        r#" <span class="pill" style="color:var(--bad)">superseded</span>"#@
    } else {
        ""@
    })
        + "</td><td>"@
        + entities_text(r.entities@, 5)
        + "</td><td>"@
        + opt_html(opt_text(r.mode), "<code>"@, "</code>"@, r#"<span class="muted">—</span>"#@)
        + r#"</td><td class="mono muted">"#@
        + when_text(r.event_time)
        + "</td></tr>"@
}

/// A row of the record list.
fn write_record_row(r: &RawAdminRow) -> (html: String)
    ensures
        html@ == record_row(*r),
{
    let mut out = String::from_str("<tr><td>");
    out.append(type_pill(r.record_type.as_str()).as_str());
    out.append(r#"</td><td><a href="/admin/records/"#);
    out.append(write_id(r.id).as_str());
    out.append(r#"">"#);
    out.append(write_opt(&r.state_key, "<strong>", "</strong> &nbsp;", "").as_str());
    out.append(r#"<div class="content-preview">"#);
    out.append(esc(r.content.as_str()).as_str());
    out.append("</div></a>");
    out.append(if r.superseded { r#" <span class="pill" style="color:var(--bad)">superseded</span>"# } else { "" });
    out.append("</td><td>");
    out.append(render_entities(&r.entities, 5).as_str());
    out.append("</td><td>");
    out.append(write_opt(&r.mode, "<code>", "</code>", r#"<span class="muted">—</span>"#).as_str());
    out.append(r#"</td><td class="mono muted">"#);
    out.append(format_when(r.event_time).as_str());
    out.append("</td></tr>");
    out
}

/// The rows of the record list.
pub open spec fn record_rows(v: Seq<RawAdminRow>) -> Seq<char>
    decreases v.len(),
{
    if v.len() == 0 {
        Seq::empty()
    } else {
        record_rows(v.drop_last()) + record_row(v.last())
    }
}

fn append_record_rows(out: &mut String, v: &Vec<RawAdminRow>)
    ensures
        final(out)@ == old(out)@ + record_rows(v@),
{
    let ghost head = out@;
    let mut i: usize = 0;
    assert(head + record_rows(v@.take(0)) =~= head);
    while i < v.len()
        invariant
            i <= v@.len(),
            out@ == head + record_rows(v@.take(i as int)),
        decreases v@.len() - i,
    {
        let item = write_record_row(&v[i]);
        out.append(item.as_str());
        proof {
            assert(v@.take(i + 1).drop_last() =~= v@.take(i as int));
            assert(v@.take(i + 1).last() == v@[i as int]);
            lemma_assoc(head, record_rows(v@.take(i as int)), item@);
        }
        i += 1;
    }
    assert(v@.take(i as int) =~= v@);
}

/// The table of the record list.
pub open spec fn records_table(records: Seq<RawAdminRow>) -> Seq<char> {
    if records.len() == 0 {
        r#"<table>
<thead><tr>
  <th>type</th>
  <th>content</th>
  <th>entities</th>
  <th>mode</th>
  <th>event</th>
</tr></thead>
<tbody>"#@
            + record_rows(records)
            + r#"<tr><td colspan="5"><p class="muted" style="text-align:center;padding:16px">No records match the current filter.</p></td></tr>"#@
            + "</tbody></table>"@
    } else {
        r#"<table>
<thead><tr>
  <th>type</th>
  <th>content</th>
  <th>entities</th>
  <th>mode</th>
  <th>event</th>
</tr></thead>
<tbody>"#@
            + record_rows(records) + "</tbody></table>"@
    }
}

fn write_records_table(records: &Vec<RawAdminRow>) -> (r: String)
    ensures
        r@ == records_table(records@),
{
    let mut out = String::from_str(r#"<table>
<thead><tr>
  <th>type</th>
  <th>content</th>
  <th>entities</th>
  <th>mode</th>
  <th>event</th>
</tr></thead>
<tbody>"#);
    append_record_rows(&mut out, records);
    if records.len() == 0 {
        out.append(r#"<tr><td colspan="5"><p class="muted" style="text-align:center;padding:16px">No records match the current filter.</p></td></tr>"#);
    }
    out.append("</tbody></table>");
    out
}

/// A row of the census.
pub open spec fn key_row(x: (String, i64)) -> Seq<char> {
    r#"<tr><td class="mono">"#@
        + esc_text(x.0@)
        + r#"</td><td class="muted">"#@
        + decimal_int(x.1 as int)
        + "</td></tr>"@
}

/// A row of the census.
fn write_key_row(x: &(String, i64)) -> (html: String)
    ensures
        html@ == key_row(*x),
{
    let mut out = String::from_str(r#"<tr><td class="mono">"#);
    out.append(esc(x.0.as_str()).as_str());
    out.append(r#"</td><td class="muted">"#);
    out.append(decimal_int_text(x.1).as_str());
    out.append("</td></tr>");
    out
}

/// The rows of the census.
pub open spec fn key_rows(v: Seq<(String, i64)>) -> Seq<char>
    decreases v.len(),
{
    if v.len() == 0 {
        Seq::empty()
    } else {
        key_rows(v.drop_last()) + key_row(v.last())
    }
}

fn append_key_rows(out: &mut String, v: &Vec<(String, i64)>)
    ensures
        final(out)@ == old(out)@ + key_rows(v@),
{
    let ghost head = out@;
    let mut i: usize = 0;
    assert(head + key_rows(v@.take(0)) =~= head);
    while i < v.len()
        invariant
            i <= v@.len(),
            out@ == head + key_rows(v@.take(i as int)),
        decreases v@.len() - i,
    {
        let item = write_key_row(&v[i]);
        out.append(item.as_str());
        proof {
            assert(v@.take(i + 1).drop_last() =~= v@.take(i as int));
            assert(v@.take(i + 1).last() == v@[i as int]);
            lemma_assoc(head, key_rows(v@.take(i as int)), item@);
        }
        i += 1;
    }
    assert(v@.take(i as int) =~= v@);
}

/// The census of what writers put into payloads.
pub open spec fn key_panel(keys: Seq<(String, i64)>) -> Seq<char> {
    if keys.len() == 0 {
        Seq::empty()
    } else {
        KEYS_HEAD@ + key_rows(keys) + r#"</tbody></table>
</div>"#@
    }
}

/// The census of what writers put into payloads.
pub fn payload_key_panel(keys: &Vec<(String, i64)>) -> (r: String)
    ensures
        r@ == key_panel(keys@),
{
    if keys.len() == 0 {
        return String::new();
    }
    let mut out = String::from_str(KEYS_HEAD);
    append_key_rows(&mut out, keys);
    out.append(r#"</tbody></table>
</div>"#);
    out
}

/// A part of a query, where its value is set.
pub open spec fn query_part(name: Seq<char>, o: Option<Seq<char>>) -> Seq<Seq<char>> {
    match o {
        Some(t) => seq![name + t],
        None => Seq::empty(),
    }
}

/// The parts of the query that stands for a filter.
pub open spec fn query_parts(f: RecordsFilter) -> Seq<Seq<char>> {
    query_part("type="@, opt_text(f.record_type)) + query_part(
        "project_id="@,
        opt_text(f.project_id),
    ) + query_part("container_id="@, opt_text(f.container_id)) + query_part(
        "mode="@,
        opt_text(f.mode),
    ) + (if f.include_superseded {
        seq!["include_superseded=1"@]
    } else {
        Seq::empty()
    })
}

fn push_part(parts: &mut Vec<String>, name: &str, o: &Option<String>)
    ensures
        texts(final(parts)@) == texts(old(parts)@) + query_part(name@, opt_text(*o)),
{
    if let Some(t) = o {
        let mut p = String::from_str(name);
        p.append(t.as_str());
        parts.push(p);
    }
    assert(texts(parts@) =~= texts(old(parts)@) + query_part(name@, opt_text(*o)));
}

/// The query that stands for a filter.
pub fn build_query_string(f: &RecordsFilter) -> (r: String)
    ensures
        r@ == joined(query_parts(*f), "&"@),
{
    let mut parts: Vec<String> = Vec::new();
    assert(texts(parts@) + query_part("type="@, opt_text(f.record_type)) =~= query_part(
        "type="@,
        opt_text(f.record_type),
    ));
    push_part(&mut parts, "type=", &f.record_type);
    push_part(&mut parts, "project_id=", &f.project_id);
    push_part(&mut parts, "container_id=", &f.container_id);
    push_part(&mut parts, "mode=", &f.mode);
    if f.include_superseded {
        parts.push("include_superseded=1".to_owned());
    }
    assert(texts(parts@) =~= query_parts(*f));
    join(&parts, "&")
}

/// What the record list shows.
pub open spec fn records_body(f: RecordsFilter, names: Seq<Seq<char>>, records: Seq<RawAdminRow>, total: i64, keys: Seq<(String, i64)>) -> Seq<char> {
    r#"<h1>Records</h1>
<p class="muted">"#@
        + decimal_int(total as int)
        + " total matching this filter. URL state: <code>?"@
        + esc_text(joined(query_parts(f), "&"@))
        + r#"</code></p>
"#@
        + filter_form(f, names)
        + r#"
"#@
        + records_table(records)
        + r#"
"#@
        + key_panel(keys)
}

/// What the record list shows.
fn write_records(f: &RecordsFilter, names: &Vec<String>, records: &Vec<RawAdminRow>, total: i64, keys: &Vec<(String, i64)>) -> (html: String)
    ensures
        html@ == records_body(*f, texts(names@), records@, total, keys@),
{
    let mut out = String::from_str(r#"<h1>Records</h1>
<p class="muted">"#);
    out.append(decimal_int_text(total).as_str());
    out.append(" total matching this filter. URL state: <code>?");
    out.append(esc(build_query_string(f).as_str()).as_str());
    out.append(r#"</code></p>
"#);
    out.append(write_filter_form(f, names).as_str());
    out.append(r#"
"#);
    out.append(write_records_table(records).as_str());
    out.append(r#"
"#);
    out.append(payload_key_panel(keys).as_str());
    out
}

/// The record list.
pub open spec fn records_page(site: Site, user_id: Seq<char>, filter: RecordsFilter, mode_names: Seq<Seq<char>>, records: Seq<RawAdminRow>, total: i64, payload_keys: Seq<(String, i64)>) -> Seq<char> {
    page_text(site, "records"@, user_id, records_body(filter, mode_names, records, total, payload_keys))
}

/// The record list.
pub fn records_list(site: &Site, user_id: &str, filter: &RecordsFilter, mode_names: &Vec<String>, records: &Vec<RawAdminRow>, total: i64, payload_keys: &Vec<(String, i64)>) -> (r: String)
    ensures
        r@ == records_page(*site, user_id@, *filter, texts(mode_names@), records@, total, payload_keys@),
{
    let content = write_records(filter, mode_names, records, total, payload_keys);
    page(site, "records", user_id, content.as_str())
}

// ---------------------------------------------------------------------------
// One record
// ---------------------------------------------------------------------------
/// A node of a chain.
pub open spec fn chain_node(r: RawAdminRow, is_terminal: bool, is_current: bool) -> Seq<char> {
    r#"<div class=""#@
        + (if is_terminal {
        "chain-node terminal"@
    } else {
        "chain-node"@
    })
        + CHAIN_NODE@
        + id_text(r.id)
        + r#"">"#@
        + id_text(r.id).take(8)
        + "</a></strong>"@
        + (if is_terminal {
        r#" <span class="pill t-semantic">current</span>"#@
    } else {
        ""@
    })
        + r#" <span class="mono muted">"#@
        + when_text(r.event_time)
        + "</span>"@
        + (if is_current {
        " (this record)"@
    } else {
        ""@
    })
        + r#"
      <div class="content-preview" style="margin-top:6px;color:var(--fg-0)">"#@
        + esc_text(r.content@)
        + r#"</div>
    </div>
  </div>
</div>"#@
}

/// A node of a chain.
fn write_chain_node(r: &RawAdminRow, is_terminal: bool, is_current: bool) -> (html: String)
    ensures
        html@ == chain_node(*r, is_terminal, is_current),
{
    let mut out = String::from_str(r#"<div class=""#);
    out.append(if is_terminal { "chain-node terminal" } else { "chain-node" });
    out.append(CHAIN_NODE);
    out.append(write_id(r.id).as_str());
    out.append(r#"">"#);
    out.append(short_id(r.id).as_str());
    out.append("</a></strong>");
    out.append(if is_terminal { r#" <span class="pill t-semantic">current</span>"# } else { "" });
    out.append(r#" <span class="mono muted">"#);
    out.append(format_when(r.event_time).as_str());
    out.append("</span>");
    out.append(if is_current { " (this record)" } else { "" });
    out.append(r#"
      <div class="content-preview" style="margin-top:6px;color:var(--fg-0)">"#);
    out.append(esc(r.content.as_str()).as_str());
    out.append(r#"</div>
    </div>
  </div>
</div>"#);
    out
}

/// The first `n` nodes of a chain, with an arrow between each two.
pub open spec fn chain_nodes(chain: Seq<RawAdminRow>, n: int, terminal: Option<u128>, current: u128) -> Seq<char>
    decreases n,
{
    if n <= 0 {
        Seq::empty()
    } else {
        let r = chain[n - 1];
        chain_nodes(chain, n - 1, terminal, current) + chain_node(
            r,
            terminal == Some(r.id),
            current == r.id,
        ) + (if n < chain.len() {
            r#"<div class="chain-arrow">↓ superseded by</div>"#@
        } else {
            ""@
        })
    }
}

/// A chain, oldest first.
pub open spec fn chain_text(chain: Seq<RawAdminRow>, terminal: Option<u128>, current: u128) -> Seq<char> {
    if chain.len() == 0 {
        r#"<p class="muted">No supersede chain.</p>"#@
    } else {
        r#"<div class="chain">"#@ + chain_nodes(chain, chain.len() as int, terminal, current) + "</div>"@
    }
}

/// A chain, oldest first, with its end and the record at hand marked.
pub fn render_chain(chain: &Vec<RawAdminRow>, terminal_id: Option<u128>, current_id: u128) -> (r: String)
    ensures
        r@ == chain_text(chain@, terminal_id, current_id),
{
    if chain.len() == 0 {
        return String::from_str(r#"<p class="muted">No supersede chain.</p>"#);
    }
    let mut out = String::from_str(r#"<div class="chain">"#);
    let ghost head = out@;
    let n: usize = chain.len();
    let mut i: usize = 0;
    assert(head + chain_nodes(chain@, 0, terminal_id, current_id) =~= head);
    while i < n
        invariant
            i <= n == chain@.len(),
            out@ == head + chain_nodes(chain@, i as int, terminal_id, current_id),
        decreases n - i,
    {
        let r = &chain[i];
        let is_terminal = match terminal_id {
            Some(t) => t == r.id,
            None => false,
        };
        let node = write_chain_node(r, is_terminal, current_id == r.id);
        out.append(node.as_str());
        let arrow = if i < n - 1 {
            r#"<div class="chain-arrow">↓ superseded by</div>"#
        } else {
            ""
        };
        out.append(arrow);
        proof {
            let before = chain_nodes(chain@, i as int, terminal_id, current_id);
            lemma_assoc(head, before, node@);
            lemma_assoc(head, before + node@, arrow@);
        }
        i += 1;
    }
    out.append("</div>");
    out
}

/// The first record of a chain that is not superseded.
pub open spec fn chain_end(chain: Seq<RawAdminRow>) -> Option<u128>
    decreases chain.len(),
{
    if chain.len() == 0 {
        None
    } else if !chain[0].superseded {
        Some(chain[0].id)
    } else {
        chain_end(chain.drop_first())
    }
}

fn find_chain_end(chain: &Vec<RawAdminRow>) -> (r: Option<u128>)
    ensures
        r == chain_end(chain@),
{
    let mut i: usize = 0;
    assert(chain@.skip(0) =~= chain@);
    while i < chain.len()
        invariant
            i <= chain@.len(),
            chain_end(chain@) == chain_end(chain@.skip(i as int)),
        decreases chain@.len() - i,
    {
        assert(chain@.skip(i as int).drop_first() =~= chain@.skip(i + 1));
        if !chain[i].superseded {
            return Some(chain[i].id);
        }
        i += 1;
    }
    None
}

/// The payload of a record, over several lines.
pub open spec fn payload_html(payload: Option<Seq<char>>) -> Seq<char> {
    match payload {
        Some(p) => r#"<pre class="json">"#@ + esc_text(json_pretty(p)) + "</pre>"@,
        None => r#"<p class="muted">No structured payload on this record.</p>"#@,
    }
}

fn write_payload(payload: &Option<String>) -> (r: String)
    ensures
        r@ == payload_html(opt_text(*payload)),
{
    match payload {
        Some(p) => {
            let mut out = String::from_str(r#"<pre class="json">"#);
            out.append(esc(pretty(p.as_str()).as_str()).as_str());
            out.append("</pre>");
            out
        },
        None => String::from_str(r#"<p class="muted">No structured payload on this record.</p>"#),
    }
}

/// How important a record is, where it says so.
pub open spec fn importance_note(importance: Option<Seq<char>>) -> Seq<char> {
    match importance {
        Some(i) => " · importance "@ + i,
        None => ""@,
    }
}

fn write_importance(importance: &Option<String>) -> (r: String)
    ensures
        r@ == importance_note(opt_text(*importance)),
{
    match importance {
        Some(i) => {
            let mut out = String::from_str(" · importance ");
            out.append(i.as_str());
            out
        },
        None => String::from_str(""),
    }
}

/// What the page of a record shows.
pub open spec fn detail_body(r: RawAdminRow, chain: Seq<RawAdminRow>) -> Seq<char> {
    r#"<p><a href="/admin/records">← back to records</a></p>
<h1>"#@
        + pill_text(r.record_type@)
        + r#" <span class="mono muted" style="font-size:14px;font-weight:normal">"#@
        + id_text(r.id)
        + r#"</span></h1>

<div class="row">
  <div class="card">
    <h2 style="margin-top:0">Content</h2>
    <pre class="json">"#@
        + esc_text(r.content@)
        + r#"</pre>
    <p class="muted" style="margin-top:12px;font-size:12px">
      event "#@
        + when_text(r.event_time)
        + " · source <code>"@
        + esc_text(r.source@)
        + "</code>"@
        + importance_note(opt_text(r.importance))
        + opt_html(opt_text(r.mode), " · mode <code>"@, "</code>"@, ""@)
        + (if r.superseded {
        r#" · <span class="pill" style="color:var(--bad)">superseded</span>"#@
    } else {
        ""@
    })
        + r#"
    </p>
    <div style="margin-top:16px">
      <span class="muted">entities:</span> "#@
        + entities_text(r.entities@, usize::MAX as nat)
        + r#"
    </div>
    "#@
        + opt_html(opt_text(r.project_id), r#"<p class="muted" style="margin-top:6px">project: <code>"#@, "</code></p>"@, ""@)
        + r#"
    "#@
        + opt_html(opt_text(r.container_id), r#"<p class="muted">session: <code>"#@, "</code></p>"@, ""@)
        + r#"
  </div>
  <div class="card">
    <h2 style="margin-top:0">Payload</h2>
    "#@
        + payload_html(opt_text(r.payload))
        + r#"
  </div>
</div>

<div class="card">
  <h2 style="margin-top:0">Supersede chain ("#@
        + decimal(chain.len() as nat)
        + " node"@
        + (if chain.len() == 1 {
        ""@
    } else {
        "s"@
    })
        + r#")</h2>
  "#@
        + chain_text(chain, chain_end(chain), r.id)
        + r#"
</div>"#@
}

/// What the page of a record shows.
fn write_detail(r: &RawAdminRow, chain: &Vec<RawAdminRow>) -> (html: String)
    ensures
        html@ == detail_body(*r, chain@),
{
    let mut out = String::from_str(r#"<p><a href="/admin/records">← back to records</a></p>
<h1>"#);
    out.append(type_pill(r.record_type.as_str()).as_str());
    out.append(r#" <span class="mono muted" style="font-size:14px;font-weight:normal">"#);
    out.append(write_id(r.id).as_str());
    out.append(r#"</span></h1>

<div class="row">
  <div class="card">
    <h2 style="margin-top:0">Content</h2>
    <pre class="json">"#);
    out.append(esc(r.content.as_str()).as_str());
    out.append(r#"</pre>
    <p class="muted" style="margin-top:12px;font-size:12px">
      event "#);
    out.append(format_when(r.event_time).as_str());
    out.append(" · source <code>");
    out.append(esc(r.source.as_str()).as_str());
    out.append("</code>");
    out.append(write_importance(&r.importance).as_str());
    out.append(write_opt(&r.mode, " · mode <code>", "</code>", "").as_str());
    out.append(if r.superseded { r#" · <span class="pill" style="color:var(--bad)">superseded</span>"# } else { "" });
    out.append(r#"
    </p>
    <div style="margin-top:16px">
      <span class="muted">entities:</span> "#);
    out.append(render_entities(&r.entities, usize::MAX).as_str());
    out.append(r#"
    </div>
    "#);
    out.append(write_opt(&r.project_id, r#"<p class="muted" style="margin-top:6px">project: <code>"#, "</code></p>", "").as_str());
    out.append(r#"
    "#);
    out.append(write_opt(&r.container_id, r#"<p class="muted">session: <code>"#, "</code></p>", "").as_str());
    out.append(r#"
  </div>
  <div class="card">
    <h2 style="margin-top:0">Payload</h2>
    "#);
    out.append(write_payload(&r.payload).as_str());
    out.append(r#"
  </div>
</div>

<div class="card">
  <h2 style="margin-top:0">Supersede chain ("#);
    out.append(decimal_text(chain.len() as u64).as_str());
    out.append(" node");
    out.append(if chain.len() == 1 { "" } else { "s" });
    out.append(r#")</h2>
  "#);
    out.append(render_chain(chain, find_chain_end(chain), r.id).as_str());
    out.append(r#"
</div>"#);
    out
}

/// The page of a record.
pub open spec fn detail_page(site: Site, user_id: Seq<char>, r: RawAdminRow, chain: Seq<RawAdminRow>) -> Seq<char> {
    page_text(site, "records"@, user_id, detail_body(r, chain))
}

/// The page of a record, with its chain.
pub fn record_detail(site: &Site, user_id: &str, r: &RawAdminRow, chain: &Vec<RawAdminRow>) -> (s: String)
    ensures
        s@ == detail_page(*site, user_id@, *r, chain@),
{
    let content = write_detail(r, chain);
    page(site, "records", user_id, content.as_str())
}

// ---------------------------------------------------------------------------
// The curated layer
// ---------------------------------------------------------------------------
/// A node of the curated layer.
#[derive(Debug, Clone)]
pub struct CuratedNodeView {
    pub kind: String,
    pub content: String,
    pub level: i32,
    pub created_at: Timestamp,
}

/// A row of the curated layer.
pub open spec fn curated_row(n: CuratedNodeView) -> Seq<char> {
    "<tr><td>"@
        + pill_text(n.kind@)
        + r#"</td><td class="mono">"#@
        + decimal_int(n.level as int)
        + r#"</td><td><div class="content-preview">"#@
        + esc_text(n.content@)
        + r#"</div></td><td class="mono muted">"#@
        + when_text(n.created_at)
        + "</td></tr>"@
}

/// A row of the curated layer.
fn write_curated_row(n: &CuratedNodeView) -> (html: String)
    ensures
        html@ == curated_row(*n),
{
    let mut out = String::from_str("<tr><td>");
    out.append(type_pill(n.kind.as_str()).as_str());
    out.append(r#"</td><td class="mono">"#);
    out.append(decimal_int_text(n.level as i64).as_str());
    out.append(r#"</td><td><div class="content-preview">"#);
    out.append(esc(n.content.as_str()).as_str());
    out.append(r#"</div></td><td class="mono muted">"#);
    out.append(format_when(n.created_at).as_str());
    out.append("</td></tr>");
    out
}

/// The rows of the curated layer.
pub open spec fn curated_rows(v: Seq<CuratedNodeView>) -> Seq<char>
    decreases v.len(),
{
    if v.len() == 0 {
        Seq::empty()
    } else {
        curated_rows(v.drop_last()) + curated_row(v.last())
    }
}

fn append_curated_rows(out: &mut String, v: &Vec<CuratedNodeView>)
    ensures
        final(out)@ == old(out)@ + curated_rows(v@),
{
    let ghost head = out@;
    let mut i: usize = 0;
    assert(head + curated_rows(v@.take(0)) =~= head);
    while i < v.len()
        invariant
            i <= v@.len(),
            out@ == head + curated_rows(v@.take(i as int)),
        decreases v@.len() - i,
    {
        let item = write_curated_row(&v[i]);
        out.append(item.as_str());
        proof {
            assert(v@.take(i + 1).drop_last() =~= v@.take(i as int));
            assert(v@.take(i + 1).last() == v@[i as int]);
            lemma_assoc(head, curated_rows(v@.take(i as int)), item@);
        }
        i += 1;
    }
    assert(v@.take(i as int) =~= v@);
}

/// The nodes of the curated layer.
pub open spec fn curated_table(v: Seq<CuratedNodeView>) -> Seq<char> {
    if v.len() == 0 {
        CURATED_NONE@
    } else {
        "<table><thead><tr><th>kind</th><th>level</th><th>content</th><th>created</th></tr></thead><tbody>"@ + curated_rows(v) + "</tbody></table>"@
    }
}

fn write_curated_table(v: &Vec<CuratedNodeView>) -> (r: String)
    ensures
        r@ == curated_table(v@),
{
    if v.len() == 0 {
        return String::from_str(CURATED_NONE);
    }
    let mut out = String::from_str("<table><thead><tr><th>kind</th><th>level</th><th>content</th><th>created</th></tr></thead><tbody>");
    append_curated_rows(&mut out, v);
    out.append("</tbody></table>");
    out
}

/// What the curated layer shows.
pub open spec fn curated_body(nodes: Seq<CuratedNodeView>) -> Seq<char> {
    CURATED@
        + curated_table(nodes)
}

/// What the curated layer shows.
fn write_curated(nodes: &Vec<CuratedNodeView>) -> (html: String)
    ensures
        html@ == curated_body(nodes@),
{
    let mut out = String::from_str(CURATED);
    out.append(write_curated_table(nodes).as_str());
    out
}

/// The curated layer.
pub open spec fn curated_page(site: Site, user_id: Seq<char>, nodes: Seq<CuratedNodeView>) -> Seq<char> {
    page_text(site, "curated"@, user_id, curated_body(nodes))
}

/// The curated layer.
pub fn curated_list(site: &Site, user_id: &str, nodes: &Vec<CuratedNodeView>) -> (r: String)
    ensures
        r@ == curated_page(*site, user_id@, nodes@),
{
    let content = write_curated(nodes);
    page(site, "curated", user_id, content.as_str())
}

// ---------------------------------------------------------------------------
// State objects
// ---------------------------------------------------------------------------
/// The card of a state object.
pub open spec fn state_card(s: RawAdminRow) -> Seq<char> {
    r#"<div class="card">
  <h2 style="margin-top:0"><a href="/admin/records/"#@
        + id_text(s.id)
        + r#""><code>"#@
        + esc_or(opt_text(s.state_kind), "?"@)
        + "/"@
        + esc_or(opt_text(s.state_key), "?"@)
        + r#"</code></a></h2>
  <pre class="json">"#@
        + esc_text(s.content@)
        + r#"</pre>
  <p class="muted" style="font-size:12px">updated "#@
        + when_text(s.event_time)
        + r#"</p>
</div>"#@
}

/// The card of a state object.
fn write_state_card(s: &RawAdminRow) -> (html: String)
    ensures
        html@ == state_card(*s),
{
    let mut out = String::from_str(r#"<div class="card">
  <h2 style="margin-top:0"><a href="/admin/records/"#);
    out.append(write_id(s.id).as_str());
    out.append(r#""><code>"#);
    out.append(esc_opt(&s.state_kind, "?").as_str());
    out.append("/");
    out.append(esc_opt(&s.state_key, "?").as_str());
    out.append(r#"</code></a></h2>
  <pre class="json">"#);
    out.append(esc(s.content.as_str()).as_str());
    out.append(r#"</pre>
  <p class="muted" style="font-size:12px">updated "#);
    out.append(format_when(s.event_time).as_str());
    out.append(r#"</p>
</div>"#);
    out
}

/// The cards of the state objects.
pub open spec fn state_cards(v: Seq<RawAdminRow>) -> Seq<char>
    decreases v.len(),
{
    if v.len() == 0 {
        Seq::empty()
    } else {
        state_cards(v.drop_last()) + state_card(v.last())
    }
}

fn append_state_cards(out: &mut String, v: &Vec<RawAdminRow>)
    ensures
        final(out)@ == old(out)@ + state_cards(v@),
{
    let ghost head = out@;
    let mut i: usize = 0;
    assert(head + state_cards(v@.take(0)) =~= head);
    while i < v.len()
        invariant
            i <= v@.len(),
            out@ == head + state_cards(v@.take(i as int)),
        decreases v@.len() - i,
    {
        let item = write_state_card(&v[i]);
        out.append(item.as_str());
        proof {
            assert(v@.take(i + 1).drop_last() =~= v@.take(i as int));
            assert(v@.take(i + 1).last() == v@[i as int]);
            lemma_assoc(head, state_cards(v@.take(i as int)), item@);
        }
        i += 1;
    }
    assert(v@.take(i as int) =~= v@);
}

/// The state objects.
pub open spec fn state_section(v: Seq<RawAdminRow>) -> Seq<char> {
    if v.len() == 0 {
        r#"<p class="muted">No state objects yet. Create one via POST /records/state/todo_list (or any other kind).</p>"#@
    } else {
        state_cards(v)
    }
}

fn write_state_section(v: &Vec<RawAdminRow>) -> (r: String)
    ensures
        r@ == state_section(v@),
{
    if v.len() == 0 {
        return String::from_str(r#"<p class="muted">No state objects yet. Create one via POST /records/state/todo_list (or any other kind).</p>"#);
    }
    let mut out = String::new();
    append_state_cards(&mut out, v);
    assert(out@ =~= state_cards(v@));
    out
}

/// What the page of the state objects shows.
pub open spec fn state_body(states: Seq<RawAdminRow>) -> Seq<char> {
    STATE@
        + state_section(states)
}

/// What the page of the state objects shows.
fn write_state(states: &Vec<RawAdminRow>) -> (html: String)
    ensures
        html@ == state_body(states@),
{
    let mut out = String::from_str(STATE);
    out.append(write_state_section(states).as_str());
    out
}

/// The state objects.
pub open spec fn state_page(site: Site, user_id: Seq<char>, states: Seq<RawAdminRow>) -> Seq<char> {
    page_text(site, "state"@, user_id, state_body(states))
}

/// The state objects.
pub fn state_list(site: &Site, user_id: &str, states: &Vec<RawAdminRow>) -> (r: String)
    ensures
        r@ == state_page(*site, user_id@, states@),
{
    let content = write_state(states);
    page(site, "state", user_id, content.as_str())
}

// ---------------------------------------------------------------------------
// The catalog
// ---------------------------------------------------------------------------
/// A store that the catalog knows. `schema` is the text of a document.
#[derive(Debug, Clone)]
pub struct StoreRow {
    pub name: String,
    pub kind: String,
    pub description: Option<String>,
    pub schema: Option<String>,
    pub last_synced_at: Option<Timestamp>,
}

/// A store with what it holds.
#[derive(Debug, Clone)]
pub struct StoreView {
    pub store: StoreRow,
    pub record_count: i64,
    pub lineage: String,
}

/// The stores, by their kind.
#[derive(Debug, Clone)]
pub struct CatalogView {
    pub raw: Vec<StoreView>,
    pub curated: Vec<StoreView>,
    pub operational: Vec<StoreView>,
    pub external: Vec<StoreView>,
}

/// A declared schema, over several lines.
pub open spec fn schema_html(schema: Option<Seq<char>>) -> Seq<char> {
    match schema {
        Some(p) => r#"<pre class="json">"#@ + esc_text(json_pretty(p)) + "</pre>"@,
        None => r#"<p class="muted">no declared schema</p>"#@,
    }
}

fn write_schema(schema: &Option<String>) -> (r: String)
    ensures
        r@ == schema_html(opt_text(*schema)),
{
    match schema {
        Some(p) => {
            let mut out = String::from_str(r#"<pre class="json">"#);
            out.append(esc(pretty(p.as_str()).as_str()).as_str());
            out.append("</pre>");
            out
        },
        None => String::from_str(r#"<p class="muted">no declared schema</p>"#),
    }
}

/// When a store was last synced.
pub open spec fn synced_text(at: Option<Timestamp>) -> Seq<char> {
    match at {
        Some(t) => "synced "@ + when_text(t),
        None => "never synced"@,
    }
}

fn write_synced(at: Option<Timestamp>) -> (r: String)
    ensures
        r@ == synced_text(at),
{
    match at {
        Some(t) => {
            let mut out = String::from_str("synced ");
            out.append(format_when(t).as_str());
            out
        },
        None => String::from_str("never synced"),
    }
}

/// The card of a store.
pub open spec fn store_card(s: StoreView) -> Seq<char> {
    r#"<div class="card">
  <h3 style="margin-top:0"><code>"#@
        + esc_text(s.store.name@)
        + r#"</code> <span class="pill">"#@
        + esc_text(s.store.kind@)
        + r#"</span></h3>
  <p><strong>"#@
        + decimal_int(s.record_count as int)
        + r#"</strong> records · <span class="muted">"#@
        + esc_text(s.lineage@)
        + r#"</span></p>
  <p class="muted" style="font-size:12px">"#@
        + esc_or(opt_text(s.store.description), ""@)
        + r#"</p>
  "#@
        + schema_html(opt_text(s.store.schema))
        + r#"
  <p class="muted" style="font-size:12px">"#@
        + synced_text(s.store.last_synced_at)
        + r#"</p>
</div>"#@
}

/// The card of a store.
fn write_store_card(s: &StoreView) -> (html: String)
    ensures
        html@ == store_card(*s),
{
    let mut out = String::from_str(r#"<div class="card">
  <h3 style="margin-top:0"><code>"#);
    out.append(esc(s.store.name.as_str()).as_str());
    out.append(r#"</code> <span class="pill">"#);
    out.append(esc(s.store.kind.as_str()).as_str());
    out.append(r#"</span></h3>
  <p><strong>"#);
    out.append(decimal_int_text(s.record_count).as_str());
    out.append(r#"</strong> records · <span class="muted">"#);
    out.append(esc(s.lineage.as_str()).as_str());
    out.append(r#"</span></p>
  <p class="muted" style="font-size:12px">"#);
    out.append(esc_opt(&s.store.description, "").as_str());
    out.append(r#"</p>
  "#);
    out.append(write_schema(&s.store.schema).as_str());
    out.append(r#"
  <p class="muted" style="font-size:12px">"#);
    out.append(write_synced(s.store.last_synced_at).as_str());
    out.append(r#"</p>
</div>"#);
    out
}

/// The cards of the stores.
pub open spec fn store_cards(v: Seq<StoreView>) -> Seq<char>
    decreases v.len(),
{
    if v.len() == 0 {
        Seq::empty()
    } else {
        store_cards(v.drop_last()) + store_card(v.last())
    }
}

fn append_store_cards(out: &mut String, v: &Vec<StoreView>)
    ensures
        final(out)@ == old(out)@ + store_cards(v@),
{
    let ghost head = out@;
    let mut i: usize = 0;
    assert(head + store_cards(v@.take(0)) =~= head);
    while i < v.len()
        invariant
            i <= v@.len(),
            out@ == head + store_cards(v@.take(i as int)),
        decreases v@.len() - i,
    {
        let item = write_store_card(&v[i]);
        out.append(item.as_str());
        proof {
            assert(v@.take(i + 1).drop_last() =~= v@.take(i as int));
            assert(v@.take(i + 1).last() == v@[i as int]);
            lemma_assoc(head, store_cards(v@.take(i as int)), item@);
        }
        i += 1;
    }
    assert(v@.take(i as int) =~= v@);
}

/// The stores of a kind.
pub open spec fn stores_html(v: Seq<StoreView>) -> Seq<char> {
    if v.len() == 0 {
        r#"<p class="muted">none</p>"#@
    } else {
        store_cards(v)
    }
}

fn write_stores(v: &Vec<StoreView>) -> (r: String)
    ensures
        r@ == stores_html(v@),
{
    if v.len() == 0 {
        return String::from_str(r#"<p class="muted">none</p>"#);
    }
    let mut out = String::new();
    append_store_cards(&mut out, v);
    assert(out@ =~= store_cards(v@));
    out
}

/// A section of the catalog.
pub open spec fn section_text(title: Seq<char>, blurb: Seq<char>, stores: Seq<StoreView>) -> Seq<char> {
    r#"<section style="margin-top:24px">
  <h2>"#@
        + title
        + r#"</h2>
  <p class="muted">"#@
        + blurb
        + r#"</p>
  "#@
        + stores_html(stores)
        + r#"
</section>"#@
}

/// A section of the catalog.
fn write_section(title: &str, blurb: &str, stores: &Vec<StoreView>) -> (html: String)
    ensures
        html@ == section_text(title@, blurb@, stores@),
{
    let mut out = String::from_str(r#"<section style="margin-top:24px">
  <h2>"#);
    out.append(title);
    out.append(r#"</h2>
  <p class="muted">"#);
    out.append(blurb);
    out.append(r#"</p>
  "#);
    out.append(write_stores(stores).as_str());
    out.append(r#"
</section>"#);
    out
}

/// What the catalog shows.
pub open spec fn catalog_body(c: CatalogView) -> Seq<char> {
    CATALOG@
        + section_text("Raw"@, "The immutable source of truth."@, c.raw@)
        + r#"
"#@
        + section_text("Curated"@, "Derived from raw and rebuildable from it."@, c.curated@)
        + r#"
"#@
        + section_text("Operational"@, "Live systems that publish slices into the lake."@, c.operational@)
        + r#"
"#@
        + section_text("External"@, "Outside sources the lake ingests from."@, c.external@)
}

/// What the catalog shows.
fn write_catalog(c: &CatalogView) -> (html: String)
    ensures
        html@ == catalog_body(*c),
{
    let mut out = String::from_str(CATALOG);
    out.append(write_section("Raw", "The immutable source of truth.", &c.raw).as_str());
    out.append(r#"
"#);
    out.append(write_section("Curated", "Derived from raw and rebuildable from it.", &c.curated).as_str());
    out.append(r#"
"#);
    out.append(write_section("Operational", "Live systems that publish slices into the lake.", &c.operational).as_str());
    out.append(r#"
"#);
    out.append(write_section("External", "Outside sources the lake ingests from.", &c.external).as_str());
    out
}

/// The catalog.
pub open spec fn catalog_page(site: Site, user_id: Seq<char>, catalog: CatalogView) -> Seq<char> {
    page_text(site, "catalog"@, user_id, catalog_body(catalog))
}

/// The catalog.
pub fn catalog_view(site: &Site, user_id: &str, catalog: &CatalogView) -> (r: String)
    ensures
        r@ == catalog_page(*site, user_id@, *catalog),
{
    let content = write_catalog(catalog);
    page(site, "catalog", user_id, content.as_str())
}

// ---------------------------------------------------------------------------
// Proposals
// ---------------------------------------------------------------------------
/// A proposal. `body` is the text of a document.
#[derive(Debug, Clone)]
pub struct ProposalRow {
    pub id: u128,
    pub title: String,
    pub kind: String,
    pub status: String,
    pub body: String,
    pub decided_by: Option<String>,
    pub decided_at: Option<Timestamp>,
    pub created_at: Timestamp,
}

/// A text in a proposal; empty where it is missing.
pub open spec fn said(body: Seq<char>, name: Seq<char>) -> Seq<char> {
    match member_text(body, name) {
        Some(t) => t,
        None => ""@,
    }
}

fn read_said(body: &str, name: &str) -> (r: String)
    ensures
        r@ == said(body@, name@),
{
    match get_text(body, name) {
        Some(t) => t,
        None => String::from_str(""),
    }
}

/// How many records a proposal names as evidence.
pub open spec fn evidence_count(body: Seq<char>) -> nat {
    match member(body, "evidence"@) {
        Some(list) => match items(list) {
            Some(v) => v.len(),
            None => 0,
        },
        None => 0,
    }
}

fn count_evidence(body: &str) -> (r: usize)
    ensures
        r == evidence_count(body@),
{
    match get_member(body, "evidence") {
        Some(list) => match get_items(list.as_str()) {
            Some(v) => v.len(),
            None => 0,
        },
        None => 0,
    }
}

/// The mark of a status.
pub open spec fn status_pill(status: Seq<char>) -> Seq<char> {
    if status == "proposed"@ {
        r#"<span class="pill" style="color:var(--fg-0)">proposed</span>"#@
    } else if status == "approved"@ {
        r#"<span class="pill" style="color:var(--good)">approved</span>"#@
    } else if status == "denied"@ {
        r#"<span class="pill" style="color:var(--bad)">denied</span>"#@
    } else if status == "executed"@ {
        r#"<span class="pill" style="color:var(--good)">executed</span>"#@
    } else {
        r#"<span class="pill">?</span>"#@
    }
}

fn status_mark(status: &str) -> (r: &'static str)
    ensures
        r@ == status_pill(status@),
{
    if same_text(status, "proposed") {
        r#"<span class="pill" style="color:var(--fg-0)">proposed</span>"#
    } else if same_text(status, "approved") {
        r#"<span class="pill" style="color:var(--good)">approved</span>"#
    } else if same_text(status, "denied") {
        r#"<span class="pill" style="color:var(--bad)">denied</span>"#
    } else if same_text(status, "executed") {
        r#"<span class="pill" style="color:var(--good)">executed</span>"#
    } else {
        r#"<span class="pill">?</span>"#
    }
}

/// The buttons of a proposal.
pub open spec fn decision_form(id: u128) -> Seq<char> {
    r#"<form method="post" action="/admin/proposals/"#@
        + id_text(id)
        + r#"/approve" class="inline">
     <button type="submit" class="btn">approve</button>
   </form>
   <form method="post" action="/admin/proposals/"#@
        + id_text(id)
        + r#"/deny" class="inline">
     <button type="submit" class="btn danger">deny</button>
   </form>"#@
}

/// The buttons of a proposal.
fn write_decision_form(id: u128) -> (html: String)
    ensures
        html@ == decision_form(id),
{
    let mut out = String::from_str(r#"<form method="post" action="/admin/proposals/"#);
    out.append(write_id(id).as_str());
    out.append(r#"/approve" class="inline">
     <button type="submit" class="btn">approve</button>
   </form>
   <form method="post" action="/admin/proposals/"#);
    out.append(write_id(id).as_str());
    out.append(r#"/deny" class="inline">
     <button type="submit" class="btn danger">deny</button>
   </form>"#);
    out
}

/// Who decided, and when.
pub open spec fn decided_text(by: Option<Seq<char>>, at: Option<Timestamp>) -> Seq<char> {
    match (by, at) {
        (Some(who), Some(t)) => "by "@ + esc_text(who) + " · "@ + when_text(t),
        (None, Some(t)) => when_text(t),
        _ => ""@,
    }
}

fn write_decided(by: &Option<String>, at: Option<Timestamp>) -> (r: String)
    ensures
        r@ == decided_text(opt_text(*by), at),
{
    match at {
        Some(t) => match by {
            Some(who) => {
                let mut out = String::from_str("by ");
                out.append(esc(who.as_str()).as_str());
                out.append(" · ");
                out.append(format_when(t).as_str());
                out
            },
            None => format_when(t),
        },
        None => String::from_str(""),
    }
}

/// What can be done with a proposal: it can be decided while it is proposed.
/// Nothing is ever carried out from here.
pub open spec fn actions_html(p: ProposalRow) -> Seq<char> {
    if p.status@ == "proposed"@ {
        decision_form(p.id)
    } else {
        r#"<span class="muted" style="font-size:12px">"#@ + decided_text(opt_text(p.decided_by), p.decided_at) + "</span>"@
    }
}

fn write_actions(p: &ProposalRow) -> (r: String)
    ensures
        r@ == actions_html(*p),
{
    if same_text(p.status.as_str(), "proposed") {
        write_decision_form(p.id)
    } else {
        let mut out = String::from_str(r#"<span class="muted" style="font-size:12px">"#);
        out.append(write_decided(&p.decided_by, p.decided_at).as_str());
        out.append("</span>");
        out
    }
}

/// Why it is proposed.
pub open spec fn rationale_html(rationale: Seq<char>) -> Seq<char> {
    if rationale.len() == 0 {
        ""@
    } else {
        "<p><strong>Rationale:</strong> "@ + esc_text(rationale) + "</p>"@
    }
}

fn write_rationale(rationale: &str) -> (r: String)
    ensures
        r@ == rationale_html(rationale@),
{
    if rationale.is_empty() {
        return String::from_str("");
    }
    let mut out = String::from_str("<p><strong>Rationale:</strong> ");
    out.append(esc(rationale).as_str());
    out.append("</p>");
    out
}

/// The card of a proposal.
pub open spec fn proposal_card(p: ProposalRow) -> Seq<char> {
    r#"<div class="card">
  <h2 style="margin-top:0">"#@
        + esc_text(p.title@)
        + r#" <span class="pill">"#@
        + esc_text(p.kind@)
        + "</span> "@
        + status_pill(p.status@)
        + r#"</h2>
  <p><strong>Action:</strong> "#@
        + esc_text(said(p.body@, "action"@))
        + r#"</p>
  "#@
        + rationale_html(said(p.body@, "rationale"@))
        + r#"
  <p class="muted" style="font-size:12px">"#@
        + decimal(evidence_count(p.body@))
        + " evidence record(s) · created "@
        + when_text(p.created_at)
        + r#"</p>
  <div style="display:flex;gap:8px">"#@
        + actions_html(p)
        + r#"</div>
</div>"#@
}

/// The card of a proposal.
fn write_proposal(p: &ProposalRow) -> (html: String)
    ensures
        html@ == proposal_card(*p),
{
    let mut out = String::from_str(r#"<div class="card">
  <h2 style="margin-top:0">"#);
    out.append(esc(p.title.as_str()).as_str());
    out.append(r#" <span class="pill">"#);
    out.append(esc(p.kind.as_str()).as_str());
    out.append("</span> ");
    out.append(status_mark(p.status.as_str()));
    out.append(r#"</h2>
  <p><strong>Action:</strong> "#);
    out.append(esc(read_said(p.body.as_str(), "action").as_str()).as_str());
    out.append(r#"</p>
  "#);
    out.append(write_rationale(read_said(p.body.as_str(), "rationale").as_str()).as_str());
    out.append(r#"
  <p class="muted" style="font-size:12px">"#);
    out.append(decimal_text(count_evidence(p.body.as_str()) as u64).as_str());
    out.append(" evidence record(s) · created ");
    out.append(format_when(p.created_at).as_str());
    out.append(r#"</p>
  <div style="display:flex;gap:8px">"#);
    out.append(write_actions(p).as_str());
    out.append(r#"</div>
</div>"#);
    out
}

/// The cards of the proposals.
pub open spec fn proposal_cards(v: Seq<ProposalRow>) -> Seq<char>
    decreases v.len(),
{
    if v.len() == 0 {
        Seq::empty()
    } else {
        proposal_cards(v.drop_last()) + proposal_card(v.last())
    }
}

fn append_proposals(out: &mut String, v: &Vec<ProposalRow>)
    ensures
        final(out)@ == old(out)@ + proposal_cards(v@),
{
    let ghost head = out@;
    let mut i: usize = 0;
    assert(head + proposal_cards(v@.take(0)) =~= head);
    while i < v.len()
        invariant
            i <= v@.len(),
            out@ == head + proposal_cards(v@.take(i as int)),
        decreases v@.len() - i,
    {
        let item = write_proposal(&v[i]);
        out.append(item.as_str());
        proof {
            assert(v@.take(i + 1).drop_last() =~= v@.take(i as int));
            assert(v@.take(i + 1).last() == v@[i as int]);
            lemma_assoc(head, proposal_cards(v@.take(i as int)), item@);
        }
        i += 1;
    }
    assert(v@.take(i as int) =~= v@);
}

/// The proposals.
pub open spec fn proposals_html(v: Seq<ProposalRow>) -> Seq<char> {
    if v.len() == 0 {
        r#"<p class="muted">No proposals. The lake surfaces a suggestion here — it never acts on its own; you decide.</p>"#@
    } else {
        proposal_cards(v)
    }
}

fn write_proposals(v: &Vec<ProposalRow>) -> (r: String)
    ensures
        r@ == proposals_html(v@),
{
    if v.len() == 0 {
        return String::from_str(r#"<p class="muted">No proposals. The lake surfaces a suggestion here — it never acts on its own; you decide.</p>"#);
    }
    let mut out = String::new();
    append_proposals(&mut out, v);
    assert(out@ =~= proposal_cards(v@));
    out
}

/// What the queue of proposals shows.
pub open spec fn proposals_body(v: Seq<ProposalRow>) -> Seq<char> {
    PROPOSALS@
        + proposals_html(v)
}

/// What the queue of proposals shows.
fn write_proposals_body(v: &Vec<ProposalRow>) -> (html: String)
    ensures
        html@ == proposals_body(v@),
{
    let mut out = String::from_str(PROPOSALS);
    out.append(write_proposals(v).as_str());
    out
}

/// The queue of proposals.
pub open spec fn proposals_page(site: Site, user_id: Seq<char>, proposals: Seq<ProposalRow>) -> Seq<char> {
    page_text(site, "proposals"@, user_id, proposals_body(proposals))
}

/// The queue of proposals.
pub fn proposals_view(site: &Site, user_id: &str, proposals: &Vec<ProposalRow>) -> (r: String)
    ensures
        r@ == proposals_page(*site, user_id@, proposals@),
{
    let content = write_proposals_body(proposals);
    page(site, "proposals", user_id, content.as_str())
}

// ---------------------------------------------------------------------------
// Tokens
// ---------------------------------------------------------------------------
/// A token, as far as it is shown.
#[derive(Debug, Clone)]
pub struct TokenView {
    pub id: u128,
    pub prefix: String,
    pub user_id: String,
    pub name: Option<String>,
    pub created_at: Timestamp,
    pub last_used_at: Option<Timestamp>,
    pub revoked_at: Option<Timestamp>,
}

/// Whether a token is in use.
pub open spec fn token_status(t: TokenView) -> Seq<char> {
    match (t.revoked_at, t.last_used_at) {
        (Some(_), _) => r#"<span class="pill" style="color:var(--bad)">revoked</span>"#@,
        (None, Some(u)) => r#"<span class="pill" style="color:var(--good)">active</span> <span class="muted mono">used "#@ + when_text(u) + "</span>"@,
        (None, None) => r#"<span class="pill">unused</span>"#@,
    }
}

fn write_token_status(t: &TokenView) -> (r: String)
    ensures
        r@ == token_status(*t),
{
    if t.revoked_at.is_some() {
        return String::from_str(r#"<span class="pill" style="color:var(--bad)">revoked</span>"#);
    }
    match t.last_used_at {
        Some(u) => {
            let mut out = String::from_str(r#"<span class="pill" style="color:var(--good)">active</span> <span class="muted mono">used "#);
            out.append(format_when(u).as_str());
            out.append("</span>");
            out
        },
        None => String::from_str(r#"<span class="pill">unused</span>"#),
    }
}

/// The button that revokes a token.
pub open spec fn revoke_form(id: u128) -> Seq<char> {
    r#"<form method="post" action="/admin/tokens/"#@
        + id_text(id)
        + REVOKE@
}

/// The button that revokes a token.
fn write_revoke_form(id: u128) -> (html: String)
    ensures
        html@ == revoke_form(id),
{
    let mut out = String::from_str(r#"<form method="post" action="/admin/tokens/"#);
    out.append(write_id(id).as_str());
    out.append(REVOKE);
    out
}

/// What can be done with a token: it can be revoked, once.
pub open spec fn token_action(t: TokenView) -> Seq<char> {
    if t.revoked_at is None {
        revoke_form(t.id)
    } else {
        ""@
    }
}

fn write_token_action(t: &TokenView) -> (r: String)
    ensures
        r@ == token_action(*t),
{
    if t.revoked_at.is_none() {
        write_revoke_form(t.id)
    } else {
        String::from_str("")
    }
}

/// A row of the tokens.
pub open spec fn token_row(t: TokenView) -> Seq<char> {
    r#"<tr>
  <td class="mono">"#@
        + esc_text(t.prefix@)
        + r#"</td>
  <td>"#@
        + esc_or(opt_text(t.name), ""@)
        + r#"</td>
  <td>"#@
        + esc_text(t.user_id@)
        + r#"</td>
  <td>"#@
        + token_status(t)
        + r#"</td>
  <td class="mono muted">"#@
        + when_text(t.created_at)
        + r#"</td>
  <td class="right">"#@
        + token_action(t)
        + r#"</td>
</tr>"#@
}

/// A row of the tokens.
fn write_token_row(t: &TokenView) -> (html: String)
    ensures
        html@ == token_row(*t),
{
    let mut out = String::from_str(r#"<tr>
  <td class="mono">"#);
    out.append(esc(t.prefix.as_str()).as_str());
    out.append(r#"</td>
  <td>"#);
    out.append(esc_opt(&t.name, "").as_str());
    out.append(r#"</td>
  <td>"#);
    out.append(esc(t.user_id.as_str()).as_str());
    out.append(r#"</td>
  <td>"#);
    out.append(write_token_status(t).as_str());
    out.append(r#"</td>
  <td class="mono muted">"#);
    out.append(format_when(t.created_at).as_str());
    out.append(r#"</td>
  <td class="right">"#);
    out.append(write_token_action(t).as_str());
    out.append(r#"</td>
</tr>"#);
    out
}

/// The rows of the tokens.
pub open spec fn token_rows(v: Seq<TokenView>) -> Seq<char>
    decreases v.len(),
{
    if v.len() == 0 {
        Seq::empty()
    } else {
        token_rows(v.drop_last()) + token_row(v.last())
    }
}

fn append_token_rows(out: &mut String, v: &Vec<TokenView>)
    ensures
        final(out)@ == old(out)@ + token_rows(v@),
{
    let ghost head = out@;
    let mut i: usize = 0;
    assert(head + token_rows(v@.take(0)) =~= head);
    while i < v.len()
        invariant
            i <= v@.len(),
            out@ == head + token_rows(v@.take(i as int)),
        decreases v@.len() - i,
    {
        let item = write_token_row(&v[i]);
        out.append(item.as_str());
        proof {
            assert(v@.take(i + 1).drop_last() =~= v@.take(i as int));
            assert(v@.take(i + 1).last() == v@[i as int]);
            lemma_assoc(head, token_rows(v@.take(i as int)), item@);
        }
        i += 1;
    }
    assert(v@.take(i as int) =~= v@);
}

/// What the page of the tokens shows.
pub open spec fn tokens_body(tokens: Seq<TokenView>) -> Seq<char> {
    TOKENS_HEAD@ + token_rows(tokens) + TOKENS_FOOT@
}

fn write_tokens(tokens: &Vec<TokenView>) -> (r: String)
    ensures
        r@ == tokens_body(tokens@),
{
    let mut out = String::from_str(TOKENS_HEAD);
    append_token_rows(&mut out, tokens);
    out.append(TOKENS_FOOT);
    out
}

/// The tokens.
pub open spec fn tokens_page(site: Site, user_id: Seq<char>, tokens: Seq<TokenView>) -> Seq<char> {
    page_text(site, "tokens"@, user_id, tokens_body(tokens))
}

/// The tokens.
pub fn tokens_list(site: &Site, user_id: &str, tokens: &Vec<TokenView>) -> (r: String)
    ensures
        r@ == tokens_page(*site, user_id@, tokens@),
{
    let content = write_tokens(tokens);
    page(site, "tokens", user_id, content.as_str())
}

// ---------------------------------------------------------------------------
// The map
// ---------------------------------------------------------------------------
/// What the map shows.
pub open spec fn map_body(nodes: usize, edges: usize) -> Seq<char> {
    r#"<h1>Mind map</h1>
<p class="muted">"#@
        + decimal(nodes as nat)
        + " records, "@
        + decimal(edges as nat)
        + MAP@
        + MAP_JS@
}

/// What the map shows.
fn write_map(nodes: usize, edges: usize) -> (html: String)
    ensures
        html@ == map_body(nodes, edges),
{
    let mut out = String::from_str(r#"<h1>Mind map</h1>
<p class="muted">"#);
    out.append(decimal_text(nodes as u64).as_str());
    out.append(" records, ");
    out.append(decimal_text(edges as u64).as_str());
    out.append(MAP);
    out.append(MAP_JS);
    out
}

/// The map.
pub open spec fn map_page(site: Site, user_id: Seq<char>, node_count: usize, edge_count: usize) -> Seq<char> {
    page_text(site, "map"@, user_id, map_body(node_count, edge_count))
}

/// The map.
pub fn map_view(site: &Site, user_id: &str, node_count: usize, edge_count: usize) -> (r: String)
    ensures
        r@ == map_page(*site, user_id@, node_count, edge_count),
{
    let content = write_map(node_count, edge_count);
    page(site, "map", user_id, content.as_str())
}

// ---------------------------------------------------------------------------
// Curation
// ---------------------------------------------------------------------------
/// A row of the counts.
pub open spec fn count_row(x: (String, i64)) -> Seq<char> {
    "<tr><td>"@
        + pill_text(x.0@)
        + r#"</td><td class="mono">"#@
        + decimal_int(x.1 as int)
        + "</td></tr>"@
}

/// A row of the counts.
fn write_count_row(x: &(String, i64)) -> (html: String)
    ensures
        html@ == count_row(*x),
{
    let mut out = String::from_str("<tr><td>");
    out.append(type_pill(x.0.as_str()).as_str());
    out.append(r#"</td><td class="mono">"#);
    out.append(decimal_int_text(x.1).as_str());
    out.append("</td></tr>");
    out
}

/// The rows of the counts.
pub open spec fn count_rows(v: Seq<(String, i64)>) -> Seq<char>
    decreases v.len(),
{
    if v.len() == 0 {
        Seq::empty()
    } else {
        count_rows(v.drop_last()) + count_row(v.last())
    }
}

fn append_count_rows(out: &mut String, v: &Vec<(String, i64)>)
    ensures
        final(out)@ == old(out)@ + count_rows(v@),
{
    let ghost head = out@;
    let mut i: usize = 0;
    assert(head + count_rows(v@.take(0)) =~= head);
    while i < v.len()
        invariant
            i <= v@.len(),
            out@ == head + count_rows(v@.take(i as int)),
        decreases v@.len() - i,
    {
        let item = write_count_row(&v[i]);
        out.append(item.as_str());
        proof {
            assert(v@.take(i + 1).drop_last() =~= v@.take(i as int));
            assert(v@.take(i + 1).last() == v@[i as int]);
            lemma_assoc(head, count_rows(v@.take(i as int)), item@);
        }
        i += 1;
    }
    assert(v@.take(i as int) =~= v@);
}

/// The counts, or that there are none.
pub open spec fn counts_html(v: Seq<(String, i64)>) -> Seq<char> {
    if v.len() == 0 {
        CURATE_NONE@
    } else {
        count_rows(v)
    }
}

fn write_counts(v: &Vec<(String, i64)>) -> (r: String)
    ensures
        r@ == counts_html(v@),
{
    if v.len() == 0 {
        return String::from_str(CURATE_NONE);
    }
    let mut out = String::new();
    append_count_rows(&mut out, v);
    assert(out@ =~= count_rows(v@));
    out
}

/// Whether the provider distils.
pub open spec fn distill_note(can_distill: bool, provider: Seq<char>) -> Seq<char> {
    if can_distill {
        r#"<p class="muted" style="font-size:13px">Distillation uses provider <code>"#@
            + esc_text(provider)
            + "</code> — LLM-grade fact extraction is available.</p>"@
    } else {
        r#"<div class="error" style="background:rgba(255,189,85,0.08);border-color:var(--warn);color:var(--warn)">
                Current provider <code>"#@
            + esc_text(provider)
            + NO_DISTILL@
    }
}

fn write_distill_note(can_distill: bool, provider: &str) -> (r: String)
    ensures
        r@ == distill_note(can_distill, provider@),
{
    if can_distill {
        let mut out = String::from_str(r#"<p class="muted" style="font-size:13px">Distillation uses provider <code>"#);
        out.append(esc(provider).as_str());
        out.append("</code> — LLM-grade fact extraction is available.</p>");
        out
    } else {
        let mut out = String::from_str(r#"<div class="error" style="background:rgba(255,189,85,0.08);border-color:var(--warn);color:var(--warn)">
                Current provider <code>"#);
        out.append(esc(provider).as_str());
        out.append(NO_DISTILL);
        out
    }
}

/// What the page of the curation shows.
pub open spec fn curate_body(user_id: Seq<char>, counts: Seq<(String, i64)>, can_distill: bool, provider: Seq<char>) -> Seq<char> {
    CURATE@
        + distill_note(can_distill, provider)
        + CURATE_2@
        + esc_text(user_id)
        + CURATE_3@
        + counts_html(counts)
        + r#"</tbody>
</table>"#@
}

/// What the page of the curation shows.
fn write_curate(user_id: &str, counts: &Vec<(String, i64)>, can_distill: bool, provider: &str) -> (html: String)
    ensures
        html@ == curate_body(user_id@, counts@, can_distill, provider@),
{
    let mut out = String::from_str(CURATE);
    out.append(write_distill_note(can_distill, provider).as_str());
    out.append(CURATE_2);
    out.append(esc(user_id).as_str());
    out.append(CURATE_3);
    out.append(write_counts(counts).as_str());
    out.append(r#"</tbody>
</table>"#);
    out
}

/// The page of the curation.
pub open spec fn curate_page(site: Site, user_id: Seq<char>, counts: Seq<(String, i64)>, can_distill: bool, provider: Seq<char>) -> Seq<char> {
    page_text(site, "curate"@, user_id, curate_body(user_id, counts, can_distill, provider))
}

/// The page of the curation.
pub fn curate_view(site: &Site, user_id: &str, counts: &Vec<(String, i64)>, provider_can_distill: bool, provider_name: &str) -> (r: String)
    ensures
        r@ == curate_page(*site, user_id@, counts@, provider_can_distill, provider_name@),
{
    let content = write_curate(user_id, counts, provider_can_distill, provider_name);
    page(site, "curate", user_id, content.as_str())
}

// ---------------------------------------------------------------------------
// Settings
// ---------------------------------------------------------------------------
/// What the page of the settings shows: what is stored, what it comes to over
/// the environment, and what is live.
#[derive(Debug, Clone)]
pub struct SettingsInfo {
    pub stored: SystemSettings,
    pub effective_provider: &'static str,
    pub effective_backend: String,
    pub effective_api_base: Option<String>,
    pub effective_extract_model: String,
    pub effective_distill_model: String,
    pub effective_extract_timeout_ms: u32,
    pub effective_distill_timeout_ms: u32,
    pub live_provider: String,
    pub live_models: Option<(String, String)>,
    pub can_distill: bool,
    pub env_has_key: bool,
}

/// The mark of the live provider.
pub open spec fn live_pill(info: SettingsInfo) -> Seq<char> {
    if info.can_distill {
        r#"<span class="pill" style="color:var(--good)">live: "#@
            + esc_text(info.live_provider@)
            + "</span>"@
    } else {
        r#"<span class="pill" style="color:var(--warn)">live: "#@
            + esc_text(info.live_provider@)
            + " — no semantic facts</span>"@
    }
}

fn write_live_pill(info: &SettingsInfo) -> (r: String)
    ensures
        r@ == live_pill(*info),
{
    if info.can_distill {
        let mut out = String::from_str(r#"<span class="pill" style="color:var(--good)">live: "#);
        out.append(esc(info.live_provider.as_str()).as_str());
        out.append("</span>");
        out
    } else {
        let mut out = String::from_str(r#"<span class="pill" style="color:var(--warn)">live: "#);
        out.append(esc(info.live_provider.as_str()).as_str());
        out.append(" — no semantic facts</span>");
        out
    }
}

/// The models that are live.
pub open spec fn live_models_text(models: Option<(Seq<char>, Seq<char>)>) -> Seq<char> {
    match models {
        Some((e, d)) => if e == d {
            "model <code>"@ + esc_text(e) + "</code>"@
        } else {
            "extract <code>"@ + esc_text(e) + "</code> · distill <code>"@ + esc_text(d)
                + "</code>"@
        },
        None => "no model (provider runs without one)"@,
    }
}

/// The models that are live, by their views.
pub open spec fn models_view(models: Option<(String, String)>) -> Option<(Seq<char>, Seq<char>)> {
    match models {
        Some((e, d)) => Some((e@, d@)),
        None => None,
    }
}

fn write_live_models(models: &Option<(String, String)>) -> (r: String)
    ensures
        r@ == live_models_text(models_view(*models)),
{
    match models {
        Some((e, d)) => {
            if same_text(e.as_str(), d.as_str()) {
                let mut out = String::from_str("model <code>");
                out.append(esc(e.as_str()).as_str());
                out.append("</code>");
                out
            } else {
                let mut out = String::from_str("extract <code>");
                out.append(esc(e.as_str()).as_str());
                out.append("</code> · distill <code>");
                out.append(esc(d.as_str()).as_str());
                out.append("</code>");
                out
            }
        },
        None => String::from_str("no model (provider runs without one)"),
    }
}

/// A number as JSON, or null.
pub open spec fn number_json(o: Option<i32>) -> Seq<char> {
    match o {
        Some(n) => decimal_int(n as int),
        None => "null"@,
    }
}

fn write_number_json(o: Option<i32>) -> (r: String)
    ensures
        r@ == number_json(o),
{
    match o {
        Some(n) => decimal_int_text(n as i64),
        None => String::from_str("null"),
    }
}

/// What the page hands to its script, as JSON.
pub open spec fn settings_json(info: SettingsInfo) -> Seq<char> {
    r#"{"effective":{"api_base":"#@
        + text_or_null(opt_text(info.effective_api_base))
        + r#","backend":"#@
        + quoted(info.effective_backend@)
        + r#","distill_model":"#@
        + quoted(info.effective_distill_model@)
        + r#","distill_timeout_ms":"#@
        + decimal(info.effective_distill_timeout_ms as nat)
        + r#","extract_model":"#@
        + quoted(info.effective_extract_model@)
        + r#","extract_timeout_ms":"#@
        + decimal(info.effective_extract_timeout_ms as nat)
        + r#","provider":"#@
        + quoted(info.effective_provider@)
        + r#"},"stored":{"api_base":"#@
        + text_or_null(opt_text(info.stored.api_base))
        + r#","distill_model":"#@
        + text_or_null(opt_text(info.stored.distill_model))
        + r#","distill_timeout_ms":"#@
        + number_json(info.stored.distill_timeout_ms)
        + r#","extract_model":"#@
        + text_or_null(opt_text(info.stored.extract_model))
        + r#","extract_timeout_ms":"#@
        + number_json(info.stored.extract_timeout_ms)
        + r#","provider":"#@
        + text_or_null(opt_text(info.stored.provider))
        + r#","remote_backend":"#@
        + text_or_null(opt_text(info.stored.remote_backend))
        + "}}"@
}

/// What the page hands to its script, as JSON.
fn write_settings_json(info: &SettingsInfo) -> (html: String)
    ensures
        html@ == settings_json(*info),
{
    let mut out = String::from_str(r#"{"effective":{"api_base":"#);
    out.append(quote_opt(&info.effective_api_base).as_str());
    out.append(r#","backend":"#);
    out.append(quote(info.effective_backend.as_str()).as_str());
    out.append(r#","distill_model":"#);
    out.append(quote(info.effective_distill_model.as_str()).as_str());
    out.append(r#","distill_timeout_ms":"#);
    out.append(decimal_text(info.effective_distill_timeout_ms as u64).as_str());
    out.append(r#","extract_model":"#);
    out.append(quote(info.effective_extract_model.as_str()).as_str());
    out.append(r#","extract_timeout_ms":"#);
    out.append(decimal_text(info.effective_extract_timeout_ms as u64).as_str());
    out.append(r#","provider":"#);
    out.append(quote(info.effective_provider).as_str());
    out.append(r#"},"stored":{"api_base":"#);
    out.append(quote_opt(&info.stored.api_base).as_str());
    out.append(r#","distill_model":"#);
    out.append(quote_opt(&info.stored.distill_model).as_str());
    out.append(r#","distill_timeout_ms":"#);
    out.append(write_number_json(info.stored.distill_timeout_ms).as_str());
    out.append(r#","extract_model":"#);
    out.append(quote_opt(&info.stored.extract_model).as_str());
    out.append(r#","extract_timeout_ms":"#);
    out.append(write_number_json(info.stored.extract_timeout_ms).as_str());
    out.append(r#","provider":"#);
    out.append(quote_opt(&info.stored.provider).as_str());
    out.append(r#","remote_backend":"#);
    out.append(quote_opt(&info.stored.remote_backend).as_str());
    out.append("}}");
    out
}

/// A character inside a script element.
pub open spec fn island_char(c: char) -> Seq<char> {
    if c == '<' {
        "\\u003c"@
    } else {
        seq![c]
    }
}

/// A text inside a script element: no character of it can begin a tag.
pub open spec fn island_text(s: Seq<char>) -> Seq<char>
    decreases s.len(),
{
    if s.len() == 0 {
        Seq::empty()
    } else {
        island_text(s.drop_last()) + island_char(s.last())
    }
}

fn island(s: &str) -> (r: String)
    ensures
        r@ == island_text(s@),
{
    let mut out = String::new();
    for c in it: s.chars()
        invariant
            it.seq() == s@,
            out@ == island_text(s@.take(it.index())),
    {
        proof {
            let k = it.index();
            assert(s@.take(k + 1).drop_last() =~= s@.take(k));
            assert(s@.take(k + 1).last() == c);
        }
        let ghost was = out@;
        if c == '<' {
            out.append("\\u003c");
        } else {
            out.push(c);
            assert(out@ =~= was + seq![c]);
        }
    }
    assert(s@.take(s@.len() as int) =~= s@);
    out
}

/// What is said of the key where there is one, and where there is none.
pub const KEY_PRESENT: &'static str =
    "an API key is present in the server environment and is sent to the endpoint";

pub const KEY_ABSENT: &'static str =
    "no API key in the server environment — fine for local endpoints; hosted backends need one set there (keys are never stored in the database)";

/// What the page of the settings shows.
pub open spec fn settings_body(info: SettingsInfo) -> Seq<char> {
    r#"<div style="display:flex;align-items:baseline;gap:12px;flex-wrap:wrap">
  <h1 style="margin-bottom:4px">Settings</h1>
  "#@
        + live_pill(info)
        + SETTINGS@
        + live_models_text(models_view(info.live_models))
        + SETTINGS_2@
        + esc_text(info.effective_provider@)
        + SETTINGS_3@
        + esc_text(info.effective_backend@)
        + SETTINGS_4@
        + (if info.env_has_key {
        KEY_PRESENT@
    } else {
        KEY_ABSENT@
    })
        + SETTINGS_5@
        + island_text(settings_json(info))
        + r#"</script>
"#@
        + SETTINGS_JS@
}

/// What the page of the settings shows.
fn write_settings(info: &SettingsInfo) -> (html: String)
    ensures
        html@ == settings_body(*info),
{
    let mut out = String::from_str(r#"<div style="display:flex;align-items:baseline;gap:12px;flex-wrap:wrap">
  <h1 style="margin-bottom:4px">Settings</h1>
  "#);
    out.append(write_live_pill(info).as_str());
    out.append(SETTINGS);
    out.append(write_live_models(&info.live_models).as_str());
    out.append(SETTINGS_2);
    out.append(esc(info.effective_provider).as_str());
    out.append(SETTINGS_3);
    out.append(esc(info.effective_backend.as_str()).as_str());
    out.append(SETTINGS_4);
    out.append(if info.env_has_key { KEY_PRESENT } else { KEY_ABSENT });
    out.append(SETTINGS_5);
    out.append(island(write_settings_json(info).as_str()).as_str());
    out.append(r#"</script>
"#);
    out.append(SETTINGS_JS);
    out
}

/// The settings.
pub open spec fn settings_page(site: Site, user_id: Seq<char>, info: SettingsInfo) -> Seq<char> {
    page_text(site, "settings"@, user_id, settings_body(info))
}

/// The settings.
pub fn settings_view(site: &Site, user_id: &str, info: &SettingsInfo) -> (r: String)
    ensures
        r@ == settings_page(*site, user_id@, *info),
{
    let content = write_settings(info);
    page(site, "settings", user_id, content.as_str())
}

// ---------------------------------------------------------------------------
// The playground
// ---------------------------------------------------------------------------
/// What is said of the model: nothing where the sandbox names its own, which one
/// is inherited, or that there is none.
pub open spec fn model_banner(configured: bool, system_model: Option<Seq<char>>) -> Seq<char> {
    if configured {
        ""@
    } else {
        match system_model {
            Some(m) => r#"<p class="muted" style="margin:12px 0;font-size:13px">
  Turns use the system provider — <code>"#@
                + esc_text(m)
                + r#"</code>, the model that distills your
  memories. Set a base URL and model in ⚙ settings to probe a different one.
</p>"#@,
            None => NO_MODEL_BANNER@,
        }
    }
}

fn write_model_banner(configured: bool, system_model: &Option<String>) -> (r: String)
    ensures
        r@ == model_banner(configured, opt_text(*system_model)),
{
    if configured {
        return String::from_str("");
    }
    match system_model {
        Some(m) => {
            let mut out = String::from_str(r#"<p class="muted" style="margin:12px 0;font-size:13px">
  Turns use the system provider — <code>"#);
            out.append(esc(m.as_str()).as_str());
            out.append(r#"</code>, the model that distills your
  memories. Set a base URL and model in ⚙ settings to probe a different one.
</p>"#);
            out
        },
        None => String::from_str(NO_MODEL_BANNER),
    }
}

/// How many memories are set to be retrieved.
pub open spec fn limit_text(limit: Option<i32>) -> Seq<char> {
    match limit {
        Some(n) => decimal_int(n as int),
        None => ""@,
    }
}

fn write_limit(limit: Option<i32>) -> (r: String)
    ensures
        r@ == limit_text(limit),
{
    match limit {
        Some(n) => decimal_int_text(n as i64),
        None => String::from_str(""),
    }
}

/// What the playground shows.
pub open spec fn playground_body(user_id: Seq<char>, can_distill: bool, s: Settings, system_model: Option<Seq<char>>) -> Seq<char> {
    r#"<div style="display:flex;align-items:baseline;gap:12px;flex-wrap:wrap">
  <h1 style="margin-bottom:4px">Playground</h1>
  "#@
        + (if can_distill {
        r#"<span class="pill" style="color:var(--good)">distillation on</span>"#@
    } else {
        r#"<span class="pill" style="color:var(--warn)">heuristic provider — no semantic facts yet</span>"#@
    })
        + PLAYGROUND@
        + model_banner(s.base_url is Some && s.model is Some, system_model)
        + r#"

<div class="card" id="pg-settings" style="display:"#@
        + (if s.base_url is Some && s.model is Some {
        "none"@
    } else {
        ""@
    })
        + r#"">
  <div class="row" style="gap:8px;flex-wrap:wrap">
    <input id="pg-base" value=""#@
        + esc_or(opt_text(s.base_url), ""@)
        + r#"" placeholder="http://127.0.0.1:1234/v1 — base URL" style="flex:2;min-width:240px" />
    <input id="pg-model" value=""#@
        + esc_or(opt_text(s.model), ""@)
        + r#"" placeholder="model name (required)" style="flex:1;min-width:180px" />
    <input id="pg-limit" value=""#@
        + limit_text(s.context_limit)
        + PLAYGROUND_2@
        + esc_or(opt_text(s.system_prompt), ""@)
        + PLAYGROUND_3@
        + user_id
        + PLAYGROUND_4@
}

/// What the playground shows.
fn write_playground(user_id: &str, can_distill: bool, s: &Settings, system_model: &Option<String>) -> (html: String)
    ensures
        html@ == playground_body(user_id@, can_distill, *s, opt_text(*system_model)),
{
    let mut out = String::from_str(r#"<div style="display:flex;align-items:baseline;gap:12px;flex-wrap:wrap">
  <h1 style="margin-bottom:4px">Playground</h1>
  "#);
    out.append(if can_distill { r#"<span class="pill" style="color:var(--good)">distillation on</span>"# } else { r#"<span class="pill" style="color:var(--warn)">heuristic provider — no semantic facts yet</span>"# });
    out.append(PLAYGROUND);
    out.append(write_model_banner(s.base_url.is_some() && s.model.is_some(), system_model).as_str());
    out.append(r#"

<div class="card" id="pg-settings" style="display:"#);
    out.append(if s.base_url.is_some() && s.model.is_some() { "none" } else { "" });
    out.append(r#"">
  <div class="row" style="gap:8px;flex-wrap:wrap">
    <input id="pg-base" value=""#);
    out.append(esc_opt(&s.base_url, "").as_str());
    out.append(r#"" placeholder="http://127.0.0.1:1234/v1 — base URL" style="flex:2;min-width:240px" />
    <input id="pg-model" value=""#);
    out.append(esc_opt(&s.model, "").as_str());
    out.append(r#"" placeholder="model name (required)" style="flex:1;min-width:180px" />
    <input id="pg-limit" value=""#);
    out.append(write_limit(s.context_limit).as_str());
    out.append(PLAYGROUND_2);
    out.append(esc_opt(&s.system_prompt, "").as_str());
    out.append(PLAYGROUND_3);
    out.append(user_id);
    out.append(PLAYGROUND_4);
    out
}

/// The playground.
pub open spec fn playground_page(site: Site, user_id: Seq<char>, can_distill: bool, settings: Settings, system_model: Option<Seq<char>>) -> Seq<char> {
    page_text(site, "playground"@, user_id, playground_body(user_id, can_distill, settings, system_model))
}

/// The playground.
pub fn playground_view(site: &Site, user_id: &str, can_distill: bool, settings: &Settings, system_model: &Option<String>) -> (r: String)
    ensures
        r@ == playground_page(*site, user_id@, can_distill, *settings, opt_text(*system_model)),
{
    let content = write_playground(user_id, can_distill, settings, system_model);
    page(site, "playground", user_id, content.as_str())
}

// ---------------------------------------------------------------------------
// Laws
// ---------------------------------------------------------------------------
/// Whether a character can begin or end a tag or an attribute.
pub open spec fn is_markup(c: char) -> bool {
    c == '<' || c == '>' || c == '"' || c == '\''
}

/// Nothing that a page shows can become part of its markup: a text that was
/// escaped holds no character that begins or ends a tag or an attribute.
pub proof fn law_escaped_text_is_inert(s: Seq<char>)
    ensures
        forall|i: int| 0 <= i < esc_text(s).len() ==> !is_markup(#[trigger] esc_text(s)[i]),
    decreases s.len(),
{
    if s.len() > 0 {
        law_escaped_text_is_inert(s.drop_last());
        reveal_strlit("&amp;");
        reveal_strlit("&lt;");
        reveal_strlit("&gt;");
        reveal_strlit("&quot;");
        reveal_strlit("&#39;");
        let front = esc_text(s.drop_last());
        let last = esc_char(s.last());
        assert forall|i: int| 0 <= i < last.len() implies !is_markup(#[trigger] last[i]) by {}
        assert forall|i: int| 0 <= i < esc_text(s).len() implies !is_markup(
            #[trigger] esc_text(s)[i],
        ) by {
            if i < front.len() {
                assert(esc_text(s)[i] == front[i]);
            } else {
                assert(esc_text(s)[i] == last[i - front.len()]);
            }
        }
    }
}

/// No value that the settings page hands to its script can close the element
/// that holds it.
pub proof fn law_island_opens_no_tag(s: Seq<char>)
    ensures
        !island_text(s).contains('<'),
    decreases s.len(),
{
    if s.len() > 0 {
        law_island_opens_no_tag(s.drop_last());
        reveal_strlit("\\u003c");
        let front = island_text(s.drop_last());
        let last = island_char(s.last());
        assert forall|i: int| 0 <= i < last.len() implies last[i] != '<' by {}
        assert forall|i: int| 0 <= i < island_text(s).len() implies island_text(s)[i] != '<' by {
            if i < front.len() {
                assert(island_text(s)[i] == front[i]);
                assert(front.contains(front[i]));
            } else {
                assert(island_text(s)[i] == last[i - front.len()]);
            }
        }
    }
}

} // verus!
