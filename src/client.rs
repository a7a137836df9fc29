use vstd::prelude::*;
use std::collections::HashMap;
use std::sync::Arc;
use zbus::blocking::Connection;
use zbus::Message;
use crate::window::{WindowEntry, PropValue, text_view};
use crate::cascade::{Strategy, Reply, Cascade, run, complete_run, remaining, asked_at, answered_by, lemma_fixed_session_consistent};

verus! {

#[verifier::external_type_specification]
#[verifier::external_body]
pub struct ExConnection(Connection);

#[verifier::external_type_specification]
#[verifier::external_body]
pub struct ExMessage(Message);

/// Relies on `zbus::blocking::Connection::session`: opens a connection to the
/// session bus, or fails when none can be reached.
#[verifier::external_body]
fn session_bus() -> (r: Option<Connection>) {
    Connection::session().ok()
}

/// Relies on `zbus::blocking::Connection::call_method`: calls `method` with no
/// arguments and blocks until the reply or a failure comes back.
#[verifier::external_body]
fn call_method(conn: &Connection, service: &str, path: &str, iface: &str, method: &str) -> (r: Option<Arc<Message>>) {
    conn.call_method(Some(service), path, Some(iface), method, &()).ok()
}

/// Relies on `zbus::Message::body` into a map from window id to named
/// properties; the windows come in the order in which the map is walked.
#[verifier::external_body]
fn windows_body(msg: &Message) -> (r: Option<Vec<WindowEntry>>) {
    msg.body::<HashMap<u64, HashMap<String, zbus::zvariant::Value<'_>>>>().ok().map(
        |ws| ws.into_iter().map(|(id, props)| WindowEntry {
            id,
            properties: props.into_iter().map(|(k, v)| match v {
                zbus::zvariant::Value::Bool(b) => (k, PropValue::Bool(b)),
                zbus::zvariant::Value::Str(s) => (k, PropValue::Text(s.to_string())),
                _ => (k, PropValue::Other),
            }).collect(),
        }).collect(),
    )
}

/// Relies on `zbus::Message::body` into a `String`: the body as text, or a
/// failure when it is not a single string.
#[verifier::external_body]
fn text_body(msg: &Message) -> (r: Option<String>) {
    msg.body::<String>().ok()
}

/// Whether a reply has the shape that strategy `s` decodes its body into.
pub open spec fn reply_fits(s: Strategy, r: Reply) -> bool {
    match r {
        Reply::Failed => true,
        Reply::Windows(_) => s == Strategy::Introspection,
        Reply::Text(_) => s != Strategy::Introspection,
    }
}

/// The service, object path, interface and method that strategy `s` calls.
pub open spec fn call_target(s: Strategy) -> (Seq<char>, Seq<char>, Seq<char>, Seq<char>) {
    match s {
        Strategy::Introspection => (
            "org.gnome.Shell"@,
            "/dev/wxwee/SafeIntrospect"@,
            "dev.wxwee.SafeIntrospect"@,
            "GetWindows"@,
        ),
        Strategy::ActiveWindow => (
            "org.gnome.Shell"@,
            "/com/k0kubun/Xremap"@,
            "com.k0kubun.Xremap"@,
            "ActiveWindow"@,
        ),
        Strategy::LegacyWmClass => (
            "org.gnome.Shell"@,
            "/com/k0kubun/Xremap"@,
            "com.k0kubun.Xremap"@,
            "WMClass"@,
        ),
    }
}

/// The service, object path, interface and method that strategy `s` calls.
pub fn target(s: Strategy) -> (r: (&'static str, &'static str, &'static str, &'static str))
    ensures
        (r.0@, r.1@, r.2@, r.3@) == call_target(s),
{
    match s {
        Strategy::Introspection => (
            "org.gnome.Shell",
            "/dev/wxwee/SafeIntrospect",
            "dev.wxwee.SafeIntrospect",
            "GetWindows",
        ),
        Strategy::ActiveWindow => (
            "org.gnome.Shell",
            "/com/k0kubun/Xremap",
            "com.k0kubun.Xremap",
            "ActiveWindow",
        ),
        Strategy::LegacyWmClass => (
            "org.gnome.Shell",
            "/com/k0kubun/Xremap",
            "com.k0kubun.Xremap",
            "WMClass",
        ),
    }
}

/// Calls the method `target(s)` names, with no arguments, and decodes its
/// body: a window snapshot for introspection, text for the others. A failed
/// call or body gives `Reply::Failed`.
fn ask(conn: &Connection, s: Strategy) -> (r: Reply)
    ensures
        reply_fits(s, r),
{
    let (service, path, iface, method) = target(s);
    match call_method(conn, service, path, iface, method) {
        Some(msg) => match s {
            Strategy::Introspection => match windows_body(&msg) {
                Some(ws) => Reply::Windows(ws),
                None => Reply::Failed,
            },
            _ => match text_body(&msg) {
                Some(t) => Reply::Text(t),
                None => Reply::Failed,
            },
        },
        None => Reply::Failed,
    }
}

/// Whether every reply of `rs` has the shape of the strategy that asked for it.
pub open spec fn replies_fit(rs: Seq<Reply>) -> bool {
    forall|i: int| 0 <= i < rs.len() ==> reply_fits(asked_at(rs, i), #[trigger] rs[i])
}

/// Runs a whole resolution over `conn`, asking each strategy in turn until one
/// yields an identifier; also gives the replies received, in order.
fn resolve(conn: &Connection) -> (r: (Option<String>, Ghost<Seq<Reply>>))
    ensures
        complete_run(r.1@),
        replies_fit(r.1@),
        text_view(r.0) == run(r.1@).found,
{
    let mut cascade = Cascade::new();
    let ghost mut rs: Seq<Reply> = Seq::empty();
    proof {
        assert(run(rs) == crate::cascade::initial_state());
    }
    loop
        invariant
            cascade@ == run(rs),
            forall|i: int| 0 <= i < rs.len() ==> (#[trigger] run(rs.take(i))).pending is Some,
            replies_fit(rs),
        ensures
            cascade@ == run(rs),
            cascade@.pending is None,
            forall|i: int| 0 <= i < rs.len() ==> (#[trigger] run(rs.take(i))).pending is Some,
            replies_fit(rs),
        decreases remaining(cascade@),
    {
        let s = match cascade.pending() {
            Some(s) => s,
            None => break,
        };
        let reply = ask(conn, s);
        let ghost g = reply;
        proof {
            let next = rs.push(g);
            assert(next.drop_last() =~= rs);
            assert(next.take(rs.len() as int) =~= rs);
            assert forall|i: int| 0 <= i < next.len() implies (#[trigger] run(next.take(i))).pending is Some by {
                if i < rs.len() {
                    assert(next.take(i) =~= rs.take(i));
                }
            }
            assert forall|i: int| 0 <= i < next.len() implies reply_fits(asked_at(next, i), #[trigger] next[i]) by {
                if i < rs.len() {
                    assert(next.take(i) =~= rs.take(i));
                    assert(next[i] == rs[i]);
                }
            }
        }
        cascade.feed(reply);
        proof {
            rs = rs.push(g);
        }
    }
    assert(complete_run(rs));
    (cascade.outcome(), Ghost(rs))
}

/// A client that asks the GNOME session which application has focus.
pub struct GnomeClient {
    connection: Option<Connection>,
    replies: Ghost<Seq<Reply>>,
}

impl GnomeClient {
    /// Whether a session-bus connection is held.
    pub closed spec fn connected(&self) -> bool {
        self.connection is Some
    }

    /// The replies that the last resolution received, in the order in which
    /// its strategies were asked; empty when it could make no call.
    pub closed spec fn last_replies(&self) -> Seq<Reply> {
        self.replies@
    }

    /// A client that holds no connection yet.
    pub fn new() -> (c: GnomeClient)
        ensures
            !c.connected(),
            c.last_replies() == Seq::<Reply>::empty(),
    {
        GnomeClient { connection: None, replies: Ghost(Seq::empty()) }
    }

    /// Opens a session-bus connection; on failure the client is left as it was.
    fn connect(&mut self)
        ensures
            final(self).connected() || final(self).connection == old(self).connection,
            old(self).connected() ==> final(self).connected(),
            final(self).replies == old(self).replies,
    {
        match session_bus() {
            Some(c) => self.connection = Some(c),
            None => {},
        }
    }

    /// Whether a resolution finds an identifier now: the whole cascade is run
    /// afresh, as `current_application` runs it. The replies it received are
    /// recorded as `last_replies`; what they are depends on the session.
    pub fn supported(&mut self) -> (r: bool)
        ensures
            old(self).connected() ==> final(self).connected(),
            !final(self).connected() ==> !r && final(self).last_replies() == Seq::<Reply>::empty(),
            final(self).connected() ==> complete_run(final(self).last_replies())
                && replies_fit(final(self).last_replies())
                && r == run(final(self).last_replies()).found is Some,
    {
        self.connect();
        self.current_application().is_some()
    }

    /// The window-manager class of the focused application, drawn from the
    /// first strategy that yields one; nothing when none does or when the
    /// session bus cannot be reached.
    ///
    /// The strategies are asked in their fixed order, each at most once, each
    /// by calling the method `target` names; the replies received are recorded
    /// as `last_replies`, and the result is what the cascade draws from them.
    /// Which replies come back depends on the session, so nothing more can be
    /// said of the result here.
    pub fn current_application(&mut self) -> (r: Option<String>)
        ensures
            old(self).connected() ==> final(self).connected(),
            !final(self).connected() ==> r is None && final(self).last_replies() == Seq::<Reply>::empty(),
            final(self).connected() ==> complete_run(final(self).last_replies())
                && replies_fit(final(self).last_replies())
                && text_view(r) == run(final(self).last_replies()).found,
    {
        self.connect();
        let (r, replies) = match &self.connection {
            Some(conn) => resolve(conn),
            None => (None, Ghost(Seq::empty())),
        };
        self.replies = replies;
        r
    }
}

/// Against a session whose state stays fixed, what `supported` answers is
/// whether `current_application` finds an identifier: each records a complete
/// resolution, and two resolutions answered by the same session are equal.
pub proof fn lemma_supported_agrees(
    probed: GnomeClient,
    resolved: GnomeClient,
    session: spec_fn(Strategy) -> Reply,
)
    requires
        complete_run(probed.last_replies()),
        complete_run(resolved.last_replies()),
        answered_by(probed.last_replies(), session),
        answered_by(resolved.last_replies(), session),
    ensures
        probed.last_replies() == resolved.last_replies(),
        (run(probed.last_replies()).found is Some) == (run(resolved.last_replies()).found is Some),
{
    lemma_fixed_session_consistent(session, probed.last_replies(), resolved.last_replies());
}

} // verus!
