//! What the admin pages decide: logins, filters, ownership, and the labels of
//! the map.
use vstd::prelude::*;
use vstd::string::*;

use crate::error::{AppError, ErrorView};
use crate::memory::MemoryRow;
use crate::settings::{norm, tidy};
use crate::text::{
    clone_text, find_char, first_chars, join, joined, lemma_char_from, lemma_trim_idempotent, lines,
    lines_of, opt_text, same_text, texts, to_chars, trim, trimmed,
};

verus! {

/// Why an admin page could not be shown.
#[derive(Debug, Clone)]
pub enum Error {
    Db(String),
    NotFound,
}

/// What the browser is answered: a status and a text.
pub fn into_response(e: &Error) -> (r: (u16, &'static str))
    ensures
        match e {
            Error::NotFound => r.0 == 404 && r.1@ == "not found"@,
            Error::Db(_) => r.0 == 500 && r.1@ == "internal error"@,
        },
{
    match e {
        Error::NotFound => (404, "not found"),
        Error::Db(_) => (500, "internal error"),
    }
}

/// A failure of the service as the admin pages see it: of the database, or else
/// there is nothing to show.
pub fn app_err_to_admin(e: AppError) -> (r: Error)
    ensures
        match e@ {
            ErrorView::Database(m) => r matches Error::Db(x) && x@ == m,
            _ => r == Error::NotFound,
        },
{
    match e {
        AppError::Database(db) => Error::Db(db),
        _ => Error::NotFound,
    }
}

// ---------------------------------------------------------------------------
// Logging in
// ---------------------------------------------------------------------------
/// Why the login page is shown.
#[derive(Debug, Clone)]
pub struct LoginQuery {
    pub reason: Option<String>,
}

/// A login.
#[derive(Debug, Clone)]
pub struct LoginForm {
    pub token: String,
}

/// What the login page says for a reason.
pub open spec fn login_message(reason: Option<Seq<char>>) -> Option<Seq<char>> {
    if reason == Some("unauth"@) {
        Some("Your session expired or no token was set."@)
    } else if reason == Some("bad-token"@) {
        Some("That token is invalid or revoked."@)
    } else {
        None
    }
}

/// What the login page says.
pub fn login_form(q: &LoginQuery) -> (r: Option<&'static str>)
    ensures
        match r {
            Some(m) => login_message(opt_text(q.reason)) == Some(m@),
            None => login_message(opt_text(q.reason)) is None,
        },
{
    match &q.reason {
        Some(reason) => if same_text(reason.as_str(), "unauth") {
            Some("Your session expired or no token was set.")
        } else if same_text(reason.as_str(), "bad-token") {
            Some("That token is invalid or revoked.")
        } else {
            None
        },
        None => None,
    }
}

/// The token of a login, trimmed; a blank one is none.
pub fn login_token(form: &LoginForm) -> (r: Option<String>)
    ensures
        opt_text(r) == tidy(Some(form.token@)),
{
    empty_to_none(&form.token)
}

/// The cookie of a session.
pub fn session_cookie(token: &str) -> (r: String)
    ensures
        r@ == "flashback_token="@ + token@
            + "; Path=/; HttpOnly; SameSite=Lax; Max-Age=2592000"@,
{
    let mut cookie = String::from_str("flashback_token=");
    cookie.append(token);
    cookie.append("; Path=/; HttpOnly; SameSite=Lax; Max-Age=2592000");
    cookie
}

/// Where a login leads: back with a reason, or on with a cookie.
#[derive(Debug, Clone)]
pub enum LoginOutcome {
    Refused,
    Welcome { cookie: String },
}

/// Where a login leads, given its token and whether the store knows it.
pub fn login_submit(token: &Option<String>, known: bool) -> (r: LoginOutcome)
    ensures
        match r {
            LoginOutcome::Refused => *token is None || !known,
            LoginOutcome::Welcome { cookie } => token matches Some(t) && known && cookie@
                == "flashback_token="@ + t@
                + "; Path=/; HttpOnly; SameSite=Lax; Max-Age=2592000"@,
        },
{
    match token {
        Some(t) => if known {
            LoginOutcome::Welcome { cookie: session_cookie(t.as_str()) }
        } else {
            LoginOutcome::Refused
        },
        None => LoginOutcome::Refused,
    }
}

// ---------------------------------------------------------------------------
// Filters
// ---------------------------------------------------------------------------
/// The filter of a list.
#[derive(Debug, Clone)]
pub struct MemoryQuery {
    pub memory_type: Option<String>,
    pub project_id: Option<String>,
    pub session_id: Option<String>,
    pub mode: Option<String>,
    pub include_superseded: Option<String>,
}

/// A [`MemoryQuery`] over character sequences.
#[verifier::ext_equal]
pub struct QueryView {
    pub memory_type: Option<Seq<char>>,
    pub project_id: Option<Seq<char>>,
    pub session_id: Option<Seq<char>>,
    pub mode: Option<Seq<char>>,
    pub include_superseded: Option<Seq<char>>,
}

impl View for MemoryQuery {
    type V = QueryView;

    open spec fn view(&self) -> QueryView {
        QueryView {
            memory_type: opt_text(self.memory_type),
            project_id: opt_text(self.project_id),
            session_id: opt_text(self.session_id),
            mode: opt_text(self.mode),
            include_superseded: opt_text(self.include_superseded),
        }
    }
}

impl Default for MemoryQuery {
    fn default() -> (r: MemoryQuery)
        ensures
            r@ == (QueryView {
                memory_type: None,
                project_id: None,
                session_id: None,
                mode: None,
                include_superseded: None,
            }),
    {
        MemoryQuery {
            memory_type: None,
            project_id: None,
            session_id: None,
            mode: None,
            include_superseded: None,
        }
    }
}

/// Whether a form value says yes.
pub open spec fn says_yes(v: Option<Seq<char>>) -> bool {
    v == Some("1"@) || v == Some("true"@) || v == Some("on"@)
}

/// A filter with its values tidied, and one way of saying yes.
pub open spec fn cleaned(q: QueryView) -> QueryView {
    QueryView {
        memory_type: tidy(q.memory_type),
        project_id: tidy(q.project_id),
        session_id: tidy(q.session_id),
        mode: tidy(q.mode),
        include_superseded: if says_yes(q.include_superseded) {
            Some("1"@)
        } else {
            None
        },
    }
}

/// A text trimmed; a blank one is as good as none.
pub fn empty_to_none(s: &String) -> (r: Option<String>)
    ensures
        opt_text(r) == tidy(Some(s@)),
{
    let t = trim(s.as_str());
    if t.as_str().is_empty() {
        None
    } else {
        Some(t)
    }
}

impl MemoryQuery {
    /// Whether superseded memories are wanted too.
    pub fn include_super(&self) -> (r: bool)
        ensures
            r == says_yes(self@.include_superseded),
    {
        match &self.include_superseded {
            Some(v) => same_text(v.as_str(), "1") || same_text(v.as_str(), "true") || same_text(
                v.as_str(),
                "on",
            ),
            None => false,
        }
    }

    /// The filter with its values tidied.
    pub fn clean(&self) -> (r: MemoryQuery)
        ensures
            r@ == cleaned(self@),
    {
        MemoryQuery {
            memory_type: norm(clone_text(&self.memory_type)),
            project_id: norm(clone_text(&self.project_id)),
            session_id: norm(clone_text(&self.session_id)),
            mode: norm(clone_text(&self.mode)),
            include_superseded: if self.include_super() {
                Some("1".to_owned())
            } else {
                None
            },
        }
    }
}

/// Cleaning a clean filter changes nothing, and cleaning never changes whether
/// superseded memories are wanted.
pub proof fn law_clean_twice(q: QueryView)
    ensures
        cleaned(cleaned(q)) == cleaned(q),
        says_yes(cleaned(q).include_superseded) == says_yes(q.include_superseded),
{
    assert forall|t: Option<Seq<char>>| tidy(#[trigger] tidy(t)) == tidy(t) by {
        if let Some(x) = t {
            lemma_trim_idempotent(x);
        }
    }
    assert(cleaned(cleaned(q)) =~= cleaned(q));
}

// ---------------------------------------------------------------------------
// Ownership
// ---------------------------------------------------------------------------
/// Whether a memory may be deleted: only by its owner. To anyone else it does
/// not exist.
pub fn delete_memory_owned_by(owner: &Option<String>, user_id: &str) -> (r: Result<(), Error>)
    ensures
        match r {
            Ok(_) => opt_text(*owner) == Some(user_id@),
            Err(e) => opt_text(*owner) != Some(user_id@) && e == Error::NotFound,
        },
{
    let own = match owner {
        Some(u) => same_text(u.as_str(), user_id),
        None => false,
    };
    if own {
        Ok(())
    } else {
        Err(Error::NotFound)
    }
}

/// The memory whose page is shown: the user's own.
pub fn load_memory_detail(row: Option<MemoryRow>, user_id: &str) -> (r: Result<MemoryRow, Error>)
    ensures
        match r {
            Ok(m) => row == Some(m) && m.user_id@ == user_id@,
            Err(e) => (row is None || row->Some_0.user_id@ != user_id@) && e == Error::NotFound,
        },
{
    match row {
        Some(m) => if same_text(m.user_id.as_str(), user_id) {
            Ok(m)
        } else {
            Err(Error::NotFound)
        },
        None => Err(Error::NotFound),
    }
}

// ---------------------------------------------------------------------------
// Consolidation
// ---------------------------------------------------------------------------
/// Which consolidation is run.
#[derive(Debug, Clone, Copy, PartialEq, Eq, Structural)]
pub enum ConsolidateKind {
    Daily,
    Weekly,
}

/// Why none is run.
#[derive(Debug, Clone, Copy, PartialEq, Eq, Structural)]
pub enum ConsolidateError {
    UnknownKind,
}

/// Which consolidation a name stands for.
pub fn run_consolidate_kind(kind: &str) -> (r: Result<ConsolidateKind, ConsolidateError>)
    ensures
        match r {
            Ok(ConsolidateKind::Daily) => kind@ == "daily"@,
            Ok(ConsolidateKind::Weekly) => kind@ != "daily"@ && kind@ == "weekly"@,
            Err(_) => kind@ != "daily"@ && kind@ != "weekly"@,
        },
{
    if same_text(kind, "daily") {
        Ok(ConsolidateKind::Daily)
    } else if same_text(kind, "weekly") {
        Ok(ConsolidateKind::Weekly)
    } else {
        Err(ConsolidateError::UnknownKind)
    }
}

// ---------------------------------------------------------------------------
// Labels of the map
// ---------------------------------------------------------------------------
/// The lines, trimmed, without blank ones.
pub open spec fn trimmed_lines(v: Seq<Seq<char>>) -> Seq<Seq<char>>
    decreases v.len(),
{
    if v.len() == 0 {
        Seq::empty()
    } else {
        let front = trimmed_lines(v.drop_last());
        let t = trimmed(v.last());
        if t.len() == 0 {
            front
        } else {
            front.push(t)
        }
    }
}

/// A text on one line.
pub open spec fn one_line(s: Seq<char>) -> Seq<char> {
    joined(trimmed_lines(lines_of(s)), " · "@)
}

/// A text on one line, cut to `n` characters. One that is cut ends with an
/// ellipsis.
pub open spec fn preview_of(s: Seq<char>, n: nat) -> Seq<char> {
    if one_line(s).len() <= n {
        one_line(s)
    } else {
        one_line(s).take(n as int).push('…')
    }
}

/// A text on one line, cut to `n` characters.
pub fn preview(s: &str, n: usize) -> (r: String)
    ensures
        r@ == preview_of(s@, n as nat),
{
    let all = lines(s);
    let ghost whole = lines_of(s@);
    let mut parts: Vec<String> = Vec::new();
    let mut i: usize = 0;
    assert(texts(parts@) =~= trimmed_lines(whole.take(0)));
    while i < all.len()
        invariant
            i <= all@.len(),
            whole == texts(all@),
            texts(parts@) == trimmed_lines(whole.take(i as int)),
        decreases all@.len() - i,
    {
        let ghost before = texts(parts@);
        let t = trim(all[i].as_str());
        assert(whole.take(i + 1).drop_last() =~= whole.take(i as int));
        assert(whole.take(i + 1).last() == all@[i as int]@);
        if !t.as_str().is_empty() {
            parts.push(t);
            assert(texts(parts@) =~= before.push(t@));
        }
        i += 1;
    }
    assert(whole.take(i as int) =~= whole);
    let line = join(&parts, " · ");
    if to_chars(line.as_str()).len() <= n {
        line
    } else {
        let mut out = first_chars(line.as_str(), n);
        out.push('…');
        out
    }
}

/// The first of the texts that holds a space.
pub open spec fn first_phrase(v: Seq<Seq<char>>) -> Option<Seq<char>>
    decreases v.len(),
{
    if v.len() == 0 {
        None
    } else if v[0].contains(' ') {
        Some(v[0])
    } else {
        first_phrase(v.drop_first())
    }
}

/// What a memory is called in the map: its key, else its first entity of more
/// than one word, else its first entity, else the front of its text.
pub open spec fn label_of(r: MemoryRow) -> Seq<char> {
    match r.state_key {
        Some(key) => key@,
        None => match first_phrase(texts(r.entities@)) {
            Some(e) => e,
            None => if r.entities@.len() > 0 {
                r.entities@[0]@
            } else {
                preview_of(r.content@, 28)
            },
        },
    }
}

fn has_space(s: &str) -> (r: bool)
    ensures
        r == s@.contains(' '),
{
    let chars = to_chars(s);
    proof {
        lemma_char_from(s@, ' ', 0);
    }
    find_char(&chars, ' ', 0).is_some()
}

/// What a memory is called in the map.
pub fn node_label(r: &MemoryRow) -> (s: String)
    ensures
        s@ == label_of(*r),
{
    if let Some(key) = &r.state_key {
        return key.clone();
    }
    let ghost all = texts(r.entities@);
    let mut i: usize = 0;
    assert(all.skip(0) =~= all);
    while i < r.entities.len()
        invariant
            i <= r.entities@.len(),
            all == texts(r.entities@),
            r.state_key is None,
            first_phrase(all) == first_phrase(all.skip(i as int)),
        decreases r.entities@.len() - i,
    {
        assert(all.skip(i as int).drop_first() =~= all.skip(i + 1));
        assert(all.skip(i as int)[0] == r.entities@[i as int]@);
        if has_space(r.entities[i].as_str()) {
            return r.entities[i].clone();
        }
        i += 1;
    }
    if r.entities.len() > 0 {
        return r.entities[0].clone();
    }
    preview(r.content.as_str(), 28)
}

/// A memory as the map shows it. `importance` holds the bits of a number.
#[derive(Debug, Clone)]
pub struct MapNode {
    pub id: u128,
    pub node_type: String,
    pub label: String,
    pub content: String,
    pub importance: u32,
    pub superseded: bool,
}

/// A memory as the map shows it.
pub fn map_node(r: &MemoryRow) -> (n: MapNode)
    ensures
        n.id == r.id,
        n.node_type@ == r.memory_type@,
        n.label@ == label_of(*r),
        n.content@ == preview_of(r.content@, 220),
        n.importance == r.importance,
        n.superseded == (r.superseded_by is Some),
        drawn_as(*r, n),
{
    MapNode {
        id: r.id,
        node_type: r.memory_type.clone(),
        label: node_label(r),
        content: preview(r.content.as_str(), 220),
        importance: r.importance,
        superseded: r.superseded_by.is_some(),
    }
}

/// Whether a memory is drawn as this node.
pub open spec fn drawn_as(r: MemoryRow, n: MapNode) -> bool {
    &&& n.id == r.id
    &&& n.node_type@ == r.memory_type@
    &&& n.label@ == label_of(r)
    &&& n.content@ == preview_of(r.content@, 220)
    &&& n.importance == r.importance
    &&& n.superseded == (r.superseded_by is Some)
}

/// A preview is never longer than asked for, but for the ellipsis.
pub proof fn law_preview_is_short(s: Seq<char>, n: nat)
    ensures
        preview_of(s, n).len() <= n + 1,
        preview_of(s, n).len() == n + 1 ==> preview_of(s, n).last() == '…',
{
}

/// A preview that has room for its text is the whole of it, on one line; one that
/// has not is a front part of it with an ellipsis.
pub proof fn law_preview_shows_what_it_has_room_for(s: Seq<char>, n: nat)
    ensures
        one_line(s).len() <= n ==> preview_of(s, n) == one_line(s),
        one_line(s).len() > n ==> preview_of(s, n) == one_line(s).take(n as int) + seq!['…'],
        one_line(s) == joined(trimmed_lines(lines_of(s)), " · "@),
{
    if one_line(s).len() > n {
        assert(one_line(s).take(n as int).push('…') =~= one_line(s).take(n as int) + seq!['…']);
    }
}

/// Lines keep their order and their words; those that say nothing are left out.
pub proof fn law_lines_that_say_something_stay(v: Seq<Seq<char>>, line: Seq<char>)
    ensures
        trimmed_lines(Seq::empty()) == Seq::<Seq<char>>::empty(),
        trimmed(line).len() > 0 ==> trimmed_lines(v.push(line)) == trimmed_lines(v).push(
            trimmed(line),
        ),
        trimmed(line).len() == 0 ==> trimmed_lines(v.push(line)) == trimmed_lines(v),
{
    assert(v.push(line).drop_last() =~= v);
    assert(v.push(line).last() == line);
}

/// A node is labelled by the key of its state; else by the first of its entities
/// that is more than one word, else by the first; else by the front of what it
/// says.
pub proof fn law_labels(r: MemoryRow)
    ensures
        r.state_key matches Some(key) ==> label_of(r) == key@,
        r.state_key is None && r.entities@.len() == 0 ==> label_of(r) == preview_of(r.content@, 28),
        r.state_key is None && r.entities@.len() > 0 ==> exists|i: int|
            0 <= i < r.entities@.len() && label_of(r) == (#[trigger] r.entities@[i])@ && (i == 0
                || label_of(r).contains(' ')) && forall|j: int|
                0 <= j < i ==> !(#[trigger] r.entities@[j])@.contains(' '),
        r.state_key is None && r.entities@.len() > 0 && !label_of(r).contains(' ') ==> forall|j: int|
            0 <= j < r.entities@.len() ==> !(#[trigger] r.entities@[j])@.contains(' '),
{
    let v = texts(r.entities@);
    lemma_first_phrase(v);
    if r.state_key is None && r.entities@.len() > 0 {
        match first_phrase(v) {
            Some(e) => {
                let i = choose|i: int|
                    0 <= i < v.len() && #[trigger] v[i] == e && e.contains(' ') && forall|j: int|
                        0 <= j < i ==> !(#[trigger] v[j]).contains(' ');
                assert(r.entities@[i]@ == e);
                assert forall|j: int| 0 <= j < i implies !(#[trigger] r.entities@[j])@.contains(
                    ' ',
                ) by {
                    assert(v[j] == r.entities@[j]@);
                }
            },
            None => {
                assert(r.entities@[0]@ == label_of(r));
                assert forall|j: int| 0 <= j < r.entities@.len() implies !(
                #[trigger] r.entities@[j])@.contains(' ') by {
                    assert(v[j] == r.entities@[j]@);
                }
            },
        }
    }
}

proof fn lemma_first_phrase(v: Seq<Seq<char>>)
    ensures
        match first_phrase(v) {
            Some(e) => exists|i: int|
                0 <= i < v.len() && #[trigger] v[i] == e && e.contains(' ') && forall|j: int|
                    0 <= j < i ==> !(#[trigger] v[j]).contains(' '),
            None => forall|j: int| 0 <= j < v.len() ==> !(#[trigger] v[j]).contains(' '),
        },
    decreases v.len(),
{
    if v.len() > 0 {
        if v[0].contains(' ') {
            assert(v[0] == v[0]);
        } else {
            let rest = v.drop_first();
            lemma_first_phrase(rest);
            match first_phrase(rest) {
                Some(e) => {
                    let i = choose|i: int|
                        0 <= i < rest.len() && #[trigger] rest[i] == e && e.contains(' ')
                            && forall|j: int| 0 <= j < i ==> !(#[trigger] rest[j]).contains(' ');
                    assert(v[i + 1] == e);
                    assert forall|j: int| 0 <= j < i + 1 implies !(#[trigger] v[j]).contains(' ') by {
                        if j > 0 {
                            assert(v[j] == rest[j - 1]);
                        }
                    }
                },
                None => {
                    assert forall|j: int| 0 <= j < v.len() implies !(#[trigger] v[j]).contains(' ') by {
                        if j > 0 {
                            assert(v[j] == rest[j - 1]);
                        }
                    }
                },
            }
        }
    }
}

/// A filter keeps what it says, without space around it; what is superseded is
/// included only where a box was ticked. A login is explained only where it is
/// known what went wrong.
pub proof fn law_filters_keep_what_they_say(q: QueryView, reason: Option<Seq<char>>)
    ensures
        cleaned(q).memory_type == tidy(q.memory_type),
        cleaned(q).project_id == tidy(q.project_id),
        cleaned(q).session_id == tidy(q.session_id),
        cleaned(q).mode == tidy(q.mode),
        says_yes(cleaned(q).include_superseded) <==> says_yes(q.include_superseded),
        says_yes(Some("1"@)) && says_yes(Some("true"@)) && says_yes(Some("on"@)),
        !says_yes(None) && !says_yes(Some("0"@)) && !says_yes(Some("false"@)),
        login_message(reason) is Some <==> reason == Some("unauth"@) || reason == Some(
            "bad-token"@,
        ),
        login_message(Some("unauth"@)) == Some("Your session expired or no token was set."@),
        login_message(Some("bad-token"@)) == Some("That token is invalid or revoked."@),
{
    reveal_strlit("0");
    reveal_strlit("1");
    reveal_strlit("on");
    reveal_strlit("true");
    reveal_strlit("false");
    reveal_strlit("unauth");
    reveal_strlit("bad-token");
    assert("0"@[0] == '0' && "1"@[0] == '1' && "on"@[0] == 'o');
    assert("true"@[0] == 't' && "false"@[0] == 'f');
    assert("unauth"@[0] == 'u' && "bad-token"@[0] == 'b');
}

/// A node of the map is the memory that it stands for: under its id, of its type,
/// as important, superseded exactly where it is, with the front of what it says.
pub proof fn law_nodes_are_their_memories(r: MemoryRow, n: MapNode)
    requires
        drawn_as(r, n),
    ensures
        n.id == r.id && n.node_type@ == r.memory_type@ && n.importance == r.importance,
        n.superseded <==> r.superseded_by is Some,
        r.state_key matches Some(key) ==> n.label@ == key@,
        one_line(r.content@).len() <= 220 ==> n.content@ == one_line(r.content@),
        n.content@.len() <= 221,
{
}

} // verus!
