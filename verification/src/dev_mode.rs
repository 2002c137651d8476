//! Development mode on the pages: it is settled once, and a page carries the
//! banner exactly in it.
use vstd::prelude::*;

use crate::assets::{LOCAL_TIME_JS, LOGIN_FORM, LOGIN_FORM_2, PAGE_HEAD};
use crate::text::{has_text, occurs_at};
use crate::views::{
    dev_shown, esc_text, login_text, nav_item, nav_text, page_text, settles, Site, DEV_BANNER,
    LOGIN_DEV_BANNER,
};

verus! {

/// The class of a banner, by which it is known.
pub const BANNER_CLASS: &'static str = "dev-banner";

/// Whether a page, or a part of one, carries a banner.
pub open spec fn carries_banner(s: Seq<char>) -> bool {
    has_text(s, BANNER_CLASS@)
}

/// A character that is not in the name of the class.
spec fn outside(c: char) -> bool {
    c != 'd' && c != 'e' && c != 'v' && c != '-' && c != 'b' && c != 'a' && c != 'n' && c != 'r'
}

/// A text in which the middle of the name, a `v` before a hyphen, does not stand.
spec fn quiet(s: Seq<char>) -> bool {
    forall|i: int| 0 <= i < s.len() - 1 && #[trigger] s[i] == 'v' ==> s[i + 1] != '-'
}

/// A part of a page that carries no banner and across whose ends none can stand.
spec fn calm(s: Seq<char>) -> bool {
    &&& s.len() > 0
    &&& outside(s[0])
    &&& outside(s.last())
    &&& !carries_banner(s)
}

proof fn lemma_class()
    ensures
        BANNER_CLASS@ == seq!['d', 'e', 'v', '-', 'b', 'a', 'n', 'n', 'e', 'r'],
{
    reveal_strlit("dev-banner");
    assert(BANNER_CLASS@ =~= seq!['d', 'e', 'v', '-', 'b', 'a', 'n', 'n', 'e', 'r']);
}

proof fn lemma_quiet(s: Seq<char>)
    requires
        quiet(s),
    ensures
        !carries_banner(s),
{
    lemma_class();
    let m = BANNER_CLASS@;
    assert forall|i: int| !#[trigger] occurs_at(s, m, i) by {
        if occurs_at(s, m, i) {
            let part = s.subrange(i, i + m.len());
            assert(part[2] == s[i + 2] && part[3] == s[i + 3]);
            assert(s[i + 2] == 'v');
        }
    }
}

/// No banner stands across a seam at which a character is outside the name.
proof fn lemma_seam(s: Seq<char>, t: Seq<char>)
    requires
        s.len() == 0 || t.len() == 0 || outside(s.last()) || outside(t[0]),
    ensures
        carries_banner(s + t) == (carries_banner(s) || carries_banner(t)),
{
    lemma_class();
    let m = BANNER_CLASS@;
    let n = s.len() as int;
    if carries_banner(s) {
        let i = choose|i: int| #[trigger] occurs_at(s, m, i);
        assert((s + t).subrange(i, i + m.len()) =~= s.subrange(i, i + m.len()));
        assert(occurs_at(s + t, m, i));
    }
    if carries_banner(t) {
        let i = choose|i: int| #[trigger] occurs_at(t, m, i);
        assert((s + t).subrange(n + i, n + i + m.len()) =~= t.subrange(i, i + m.len()));
        assert(occurs_at(s + t, m, n + i));
    }
    if carries_banner(s + t) {
        let i = choose|i: int| #[trigger] occurs_at(s + t, m, i);
        let part = (s + t).subrange(i, i + m.len());
        if i + m.len() <= n {
            assert(s.subrange(i, i + m.len()) =~= part);
            assert(occurs_at(s, m, i));
        } else if i >= n {
            assert(t.subrange(i - n, i - n + m.len()) =~= part);
            assert(occurs_at(t, m, i - n));
        } else {
            assert(part[n - 1 - i] == s.last());
            assert(part[n - i] == t[0]);
            assert(!outside(m[n - 1 - i]) && !outside(m[n - i]));
        }
    }
}

/// A part that carries no banner adds none.
proof fn lemma_add_calm(s: Seq<char>, t: Seq<char>)
    requires
        calm(t),
    ensures
        carries_banner(s + t) == carries_banner(s),
        (s + t).len() > 0,
        outside((s + t).last()),
        s.len() > 0 ==> (s + t)[0] == s[0],
{
    lemma_seam(s, t);
    assert((s + t).last() == t.last());
}

/// Behind a part that ends outside the name, another one adds its own banner.
proof fn lemma_add(s: Seq<char>, t: Seq<char>)
    requires
        s.len() > 0,
        outside(s.last()),
    ensures
        carries_banner(s + t) == (carries_banner(s) || carries_banner(t)),
        (s + t).len() > 0,
        (s + t)[0] == s[0],
{
    lemma_seam(s, t);
}

proof fn lemma_page_head()
    ensures
        calm(PAGE_HEAD@),
{
    reveal_strlit(r#"<!doctype html>
<html lang="en">
<head>
<meta charset="utf-8" />
<meta name="viewport" content="width=device-width, initial-scale=1" />
<title>Flashback — "#);
    lemma_quiet(PAGE_HEAD@);
}

proof fn lemma_local_time()
    ensures
        calm(LOCAL_TIME_JS@),
{
    reveal_strlit(r#"<script>
for (const el of document.querySelectorAll("time.ts")) {
  const d = new Date(el.getAttribute("datetime"));
  if (!isNaN(d)) {
    el.textContent = d.toLocaleString(undefined, {
      year: "numeric", month: "2-digit", day: "2-digit",
      hour: "2-digit", minute: "2-digit",
    });
    el.title = el.getAttribute("datetime");
  }
}
</script>"#);
    lemma_quiet(LOCAL_TIME_JS@);
}

proof fn lemma_frame()
    ensures
        calm(r#"</title>
<link rel="stylesheet" href="/admin/style.css" />
</head>
<body>
"#@),
        calm(r#"
"#@),
        calm(r#"
<main class="page">
"#@),
        calm(r#"
</main>
<footer class="build">"#@),
        calm(r#"</footer>
"#@),
        calm(r#"
</body>
</html>"#@),
{
    reveal_strlit(r#"</title>
<link rel="stylesheet" href="/admin/style.css" />
</head>
<body>
"#);
    lemma_quiet(r#"</title>
<link rel="stylesheet" href="/admin/style.css" />
</head>
<body>
"#@);
    reveal_strlit(r#"
"#);
    lemma_quiet(r#"
"#@);
    reveal_strlit(r#"
<main class="page">
"#);
    lemma_quiet(r#"
<main class="page">
"#@);
    reveal_strlit(r#"
</main>
<footer class="build">"#);
    lemma_quiet(r#"
</main>
<footer class="build">"#@);
    reveal_strlit(r#"</footer>
"#);
    lemma_quiet(r#"</footer>
"#@);
    reveal_strlit(r#"
</body>
</html>"#);
    lemma_quiet(r#"
</body>
</html>"#@);
}

proof fn lemma_nav_frame()
    ensures
        calm(r#"<nav class="nav">
  <span class="brand">flashback ✦ admin</span>
  "#@),
        calm(r#"
  "#@),
        calm(r#"
  <span class="spacer"></span>
  <span class="user">"#@),
        calm(r#"</span>
  <a href="/admin/logout">logout</a>
</nav>"#@),
{
    reveal_strlit(r#"<nav class="nav">
  <span class="brand">flashback ✦ admin</span>
  "#);
    lemma_quiet(r#"<nav class="nav">
  <span class="brand">flashback ✦ admin</span>
  "#@);
    reveal_strlit(r#"
  "#);
    lemma_quiet(r#"
  "#@);
    reveal_strlit(r#"
  <span class="spacer"></span>
  <span class="user">"#);
    lemma_quiet(r#"
  <span class="spacer"></span>
  <span class="user">"#@);
    reveal_strlit(r#"</span>
  <a href="/admin/logout">logout</a>
</nav>"#);
    lemma_quiet(r#"</span>
  <a href="/admin/logout">logout</a>
</nav>"#@);
}

proof fn lemma_login_frame()
    ensures
        calm(LOGIN_FORM@),
        calm(r#"
  <div class="login-box">
    <h1>flashback ✦</h1>
    <p class="sub">paste a bearer token to access the admin UI</p>
    "#@),
        calm(LOGIN_FORM_2@),
{
    reveal_strlit(r#"<!doctype html>
<html lang="en">
<head>
<meta charset="utf-8" />
<title>Flashback — login</title>
<link rel="stylesheet" href="/admin/style.css" />
</head>
<body class="login-page">
  "#);
    lemma_quiet(LOGIN_FORM@);
    reveal_strlit(r#"
  <div class="login-box">
    <h1>flashback ✦</h1>
    <p class="sub">paste a bearer token to access the admin UI</p>
    "#);
    lemma_quiet(r#"
  <div class="login-box">
    <h1>flashback ✦</h1>
    <p class="sub">paste a bearer token to access the admin UI</p>
    "#@);
    reveal_strlit(r#"
    <form method="post" action="/admin/login">
      <input type="password" name="token" placeholder="fb_..." autofocus required />
      <button type="submit">Sign in</button>
    </form>
    <p class="muted" style="margin-top:24px;font-size:12px;text-align:center">
      Don't have a token?<br />
      <code>flashback token mint --user=&lt;u&gt; --name=&lt;label&gt;</code>
    </p>
  </div>
</body>
</html>"#);
    lemma_quiet(LOGIN_FORM_2@);
}

proof fn lemma_nav_item(active: Seq<char>, name: Seq<char>, href: Seq<char>, label: Seq<char>)
    requires
        !carries_banner(href),
        !carries_banner(label),
    ensures
        calm(nav_item(active, name, href, label)),
{
    let front = r#"<a href=""#@;
    let class = r#"" class=""#@;
    let close = r#"">"#@;
    let end = "</a>"@;
    let mark = if name == active {
        "active"@
    } else {
        ""@
    };
    reveal_strlit(r#"<a href=""#);
    reveal_strlit(r#"" class=""#);
    reveal_strlit(r#"">"#);
    reveal_strlit("</a>");
    reveal_strlit("active");
    reveal_strlit("");
    lemma_quiet(front);
    lemma_quiet(class);
    lemma_quiet(close);
    lemma_quiet(end);
    lemma_quiet(mark);
    lemma_add(front, href);
    lemma_add_calm(front + href, class);
    lemma_add(front + href + class, mark);
    lemma_add_calm(front + href + class + mark, close);
    lemma_add(front + href + class + mark + close, label);
    lemma_add_calm(front + href + class + mark + close + label, end);
    assert(nav_item(active, name, href, label) == front + href + class + mark + close + label
        + end);
}

proof fn lemma_links(active: Seq<char>)
    ensures
        calm(nav_item(active, "dashboard"@, "/admin"@, "Dashboard"@)),
        calm(nav_item(active, "records"@, "/admin/records"@, "Records"@)),
        calm(nav_item(active, "curated"@, "/admin/curated"@, "Curated"@)),
        calm(nav_item(active, "state"@, "/admin/state"@, "State"@)),
        calm(nav_item(active, "catalog"@, "/admin/catalog"@, "Catalog"@)),
        calm(nav_item(active, "proposals"@, "/admin/proposals"@, "Proposals"@)),
        calm(nav_item(active, "map"@, "/admin/map"@, "Map"@)),
        calm(nav_item(active, "curate"@, "/admin/curate"@, "Curate"@)),
        calm(nav_item(active, "playground"@, "/admin/playground"@, "Playground"@)),
        calm(nav_item(active, "settings"@, "/admin/settings"@, "Settings"@)),
        calm(nav_item(active, "tokens"@, "/admin/tokens"@, "Tokens"@)),
{
    reveal_strlit("/admin");
    reveal_strlit("Dashboard");
    lemma_quiet("/admin"@);
    lemma_quiet("Dashboard"@);
    lemma_nav_item(active, "dashboard"@, "/admin"@, "Dashboard"@);
    reveal_strlit("/admin/records");
    reveal_strlit("Records");
    lemma_quiet("/admin/records"@);
    lemma_quiet("Records"@);
    lemma_nav_item(active, "records"@, "/admin/records"@, "Records"@);
    reveal_strlit("/admin/curated");
    reveal_strlit("Curated");
    lemma_quiet("/admin/curated"@);
    lemma_quiet("Curated"@);
    lemma_nav_item(active, "curated"@, "/admin/curated"@, "Curated"@);
    reveal_strlit("/admin/state");
    reveal_strlit("State");
    lemma_quiet("/admin/state"@);
    lemma_quiet("State"@);
    lemma_nav_item(active, "state"@, "/admin/state"@, "State"@);
    reveal_strlit("/admin/catalog");
    reveal_strlit("Catalog");
    lemma_quiet("/admin/catalog"@);
    lemma_quiet("Catalog"@);
    lemma_nav_item(active, "catalog"@, "/admin/catalog"@, "Catalog"@);
    reveal_strlit("/admin/proposals");
    reveal_strlit("Proposals");
    lemma_quiet("/admin/proposals"@);
    lemma_quiet("Proposals"@);
    lemma_nav_item(active, "proposals"@, "/admin/proposals"@, "Proposals"@);
    reveal_strlit("/admin/map");
    reveal_strlit("Map");
    lemma_quiet("/admin/map"@);
    lemma_quiet("Map"@);
    lemma_nav_item(active, "map"@, "/admin/map"@, "Map"@);
    reveal_strlit("/admin/curate");
    reveal_strlit("Curate");
    lemma_quiet("/admin/curate"@);
    lemma_quiet("Curate"@);
    lemma_nav_item(active, "curate"@, "/admin/curate"@, "Curate"@);
    reveal_strlit("/admin/playground");
    reveal_strlit("Playground");
    lemma_quiet("/admin/playground"@);
    lemma_quiet("Playground"@);
    lemma_nav_item(active, "playground"@, "/admin/playground"@, "Playground"@);
    reveal_strlit("/admin/settings");
    reveal_strlit("Settings");
    lemma_quiet("/admin/settings"@);
    lemma_quiet("Settings"@);
    lemma_nav_item(active, "settings"@, "/admin/settings"@, "Settings"@);
    reveal_strlit("/admin/tokens");
    reveal_strlit("Tokens");
    lemma_quiet("/admin/tokens"@);
    lemma_quiet("Tokens"@);
    lemma_nav_item(active, "tokens"@, "/admin/tokens"@, "Tokens"@);
}

/// Two parts that carry no banner, one behind the other.
proof fn lemma_calm_pair(s: Seq<char>, t: Seq<char>)
    requires
        calm(s),
        calm(t),
    ensures
        calm(s + t),
{
    lemma_add_calm(s, t);
}

proof fn lemma_nav(active: Seq<char>, user_id: Seq<char>)
    ensures
        carries_banner(nav_text(active, user_id)) == carries_banner(user_id),
        nav_text(active, user_id).len() > 0,
        outside(nav_text(active, user_id)[0]),
        outside(nav_text(active, user_id).last()),
{
    lemma_nav_frame();
    lemma_links(active);
    let gap = r#"
  "#@;
    let s0 = r#"<nav class="nav">
  <span class="brand">flashback ✦ admin</span>
  "#@;
    let s1 = s0 + nav_item(active, "dashboard"@, "/admin"@, "Dashboard"@);
    lemma_calm_pair(s0, nav_item(active, "dashboard"@, "/admin"@, "Dashboard"@));
    let s2 = s1 + gap;
    lemma_calm_pair(s1, gap);
    let s3 = s2 + nav_item(active, "records"@, "/admin/records"@, "Records"@);
    lemma_calm_pair(s2, nav_item(active, "records"@, "/admin/records"@, "Records"@));
    let s4 = s3 + gap;
    lemma_calm_pair(s3, gap);
    let s5 = s4 + nav_item(active, "curated"@, "/admin/curated"@, "Curated"@);
    lemma_calm_pair(s4, nav_item(active, "curated"@, "/admin/curated"@, "Curated"@));
    let s6 = s5 + gap;
    lemma_calm_pair(s5, gap);
    let s7 = s6 + nav_item(active, "state"@, "/admin/state"@, "State"@);
    lemma_calm_pair(s6, nav_item(active, "state"@, "/admin/state"@, "State"@));
    let s8 = s7 + gap;
    lemma_calm_pair(s7, gap);
    let s9 = s8 + nav_item(active, "catalog"@, "/admin/catalog"@, "Catalog"@);
    lemma_calm_pair(s8, nav_item(active, "catalog"@, "/admin/catalog"@, "Catalog"@));
    let s10 = s9 + gap;
    lemma_calm_pair(s9, gap);
    let s11 = s10 + nav_item(active, "proposals"@, "/admin/proposals"@, "Proposals"@);
    lemma_calm_pair(s10, nav_item(active, "proposals"@, "/admin/proposals"@, "Proposals"@));
    let s12 = s11 + gap;
    lemma_calm_pair(s11, gap);
    let s13 = s12 + nav_item(active, "map"@, "/admin/map"@, "Map"@);
    lemma_calm_pair(s12, nav_item(active, "map"@, "/admin/map"@, "Map"@));
    let s14 = s13 + gap;
    lemma_calm_pair(s13, gap);
    let s15 = s14 + nav_item(active, "curate"@, "/admin/curate"@, "Curate"@);
    lemma_calm_pair(s14, nav_item(active, "curate"@, "/admin/curate"@, "Curate"@));
    let s16 = s15 + gap;
    lemma_calm_pair(s15, gap);
    let s17 = s16 + nav_item(active, "playground"@, "/admin/playground"@, "Playground"@);
    lemma_calm_pair(s16, nav_item(active, "playground"@, "/admin/playground"@, "Playground"@));
    let s18 = s17 + gap;
    lemma_calm_pair(s17, gap);
    let s19 = s18 + nav_item(active, "settings"@, "/admin/settings"@, "Settings"@);
    lemma_calm_pair(s18, nav_item(active, "settings"@, "/admin/settings"@, "Settings"@));
    let s20 = s19 + gap;
    lemma_calm_pair(s19, gap);
    let s21 = s20 + nav_item(active, "tokens"@, "/admin/tokens"@, "Tokens"@);
    lemma_calm_pair(s20, nav_item(active, "tokens"@, "/admin/tokens"@, "Tokens"@));
    let before = r#"
  <span class="spacer"></span>
  <span class="user">"#@;
    let behind = r#"</span>
  <a href="/admin/logout">logout</a>
</nav>"#@;
    let front = s21 + before;
    lemma_calm_pair(s21, before);
    lemma_add(front, user_id);
    lemma_add_calm(front + user_id, behind);
    assert(nav_text(active, user_id) == front + user_id + behind);
}

proof fn lemma_banners()
    ensures
        carries_banner(DEV_BANNER@),
        carries_banner(LOGIN_DEV_BANNER@),
        !carries_banner(""@),
{
    lemma_class();
    let m = BANNER_CLASS@;
    reveal_strlit(r#"<div class="dev-banner">⚠ DEV MODE — auth bypassed. Every request runs as <code>user_id=dev</code>. Don't expose this server to the internet.</div>"#);
    reveal_strlit(r#"<div class="dev-banner">⚠ DEV MODE — auth bypassed</div>"#);
    reveal_strlit("");
    assert(DEV_BANNER@.subrange(12, 22) =~= m);
    assert(occurs_at(DEV_BANNER@, m, 12));
    assert(LOGIN_DEV_BANNER@.subrange(12, 22) =~= m);
    assert(occurs_at(LOGIN_DEV_BANNER@, m, 12));
    lemma_quiet(""@);
}

/// A page carries the banner exactly in development mode, unless what it is
/// given to show carries one.
pub proof fn law_banner_marks_development(
    site: Site,
    active: Seq<char>,
    user_id: Seq<char>,
    content: Seq<char>,
)
    requires
        site.well_formed(),
    ensures
        carries_banner(page_text(site, active, user_id, content)) == (dev_shown(site)
            || carries_banner(active) || carries_banner(user_id) || carries_banner(content)),
{
    lemma_page_head();
    lemma_local_time();
    lemma_frame();
    lemma_nav(active, user_id);
    lemma_banners();
    let banner = if dev_shown(site) {
        DEV_BANNER@
    } else {
        ""@
    };
    let nav = nav_text(active, user_id);
    let t1 = r#"</title>
<link rel="stylesheet" href="/admin/style.css" />
</head>
<body>
"#@;
    let line = r#"
"#@;
    let t2 = r#"
<main class="page">
"#@;
    let t3 = r#"
</main>
<footer class="build">"#@;
    let t4 = r#"</footer>
"#@;
    let t5 = r#"
</body>
</html>"#@;
    let s1 = PAGE_HEAD@ + active;
    lemma_add(PAGE_HEAD@, active);
    let s2 = s1 + t1;
    lemma_add_calm(s1, t1);
    let s3 = s2 + banner;
    lemma_add(s2, banner);
    let s4 = s3 + line;
    lemma_add_calm(s3, line);
    let s5 = s4 + nav;
    lemma_add(s4, nav);
    let s6 = s5 + t2;
    lemma_add_calm(s5, t2);
    let s7 = s6 + content;
    lemma_add(s6, content);
    let s8 = s7 + t3;
    lemma_add_calm(s7, t3);
    let s9 = s8 + site.running();
    lemma_add(s8, site.running());
    let s10 = s9 + t4;
    lemma_add_calm(s9, t4);
    let s11 = s10 + LOCAL_TIME_JS@;
    lemma_add_calm(s10, LOCAL_TIME_JS@);
    lemma_add_calm(s11, t5);
    assert(page_text(site, active, user_id, content) == s11 + t5);
}

/// The login page carries its banner exactly in development mode, unless the
/// error that it shows carries one.
pub proof fn law_login_banner_marks_development(site: Site, error: Option<Seq<char>>)
    ensures
        carries_banner(login_text(site, error)) == (dev_shown(site) || (error is Some
            && carries_banner(esc_text(error->Some_0)))),
{
    lemma_login_frame();
    lemma_banners();
    let banner = if dev_shown(site) {
        LOGIN_DEV_BANNER@
    } else {
        ""@
    };
    let box_front = r#"
  <div class="login-box">
    <h1>flashback ✦</h1>
    <p class="sub">paste a bearer token to access the admin UI</p>
    "#@;
    let shown = match error {
        Some(e) => "<div class=\"error\">"@ + esc_text(e) + "</div>"@,
        None => ""@,
    };
    if let Some(e) = error {
        reveal_strlit("<div class=\"error\">");
        reveal_strlit("</div>");
        lemma_quiet("<div class=\"error\">"@);
        lemma_quiet("</div>"@);
        lemma_add("<div class=\"error\">"@, esc_text(e));
        lemma_add_calm("<div class=\"error\">"@ + esc_text(e), "</div>"@);
    }
    let s1 = LOGIN_FORM@ + banner;
    lemma_add(LOGIN_FORM@, banner);
    let s2 = s1 + box_front;
    lemma_add_calm(s1, box_front);
    let s3 = s2 + shown;
    lemma_add(s2, shown);
    lemma_add_calm(s3, LOGIN_FORM_2@);
    assert(login_text(site, error) == s3 + LOGIN_FORM_2@);
}

/// Development mode is settled once: it is off until then, the first word on it
/// stands whatever comes after, and a page that is given nothing else with a
/// banner carries one exactly where that first word was yes.
pub proof fn law_first_word_on_development_stands(
    fresh: Site,
    first: bool,
    once: Site,
    second: bool,
    twice: Site,
    active: Seq<char>,
    user_id: Seq<char>,
    content: Seq<char>,
)
    requires
        fresh.well_formed(),
        fresh.settled() is None,
        settles(fresh, first, once),
        settles(once, second, twice),
        !carries_banner(active),
        !carries_banner(user_id),
        !carries_banner(content),
    ensures
        !dev_shown(fresh),
        dev_shown(once) == first,
        dev_shown(twice) == first,
        !carries_banner(page_text(fresh, active, user_id, content)),
        carries_banner(page_text(once, active, user_id, content)) == first,
        page_text(twice, active, user_id, content) == page_text(once, active, user_id, content),
{
    law_banner_marks_development(fresh, active, user_id, content);
    law_banner_marks_development(once, active, user_id, content);
}

} // verus!
