use vstd::prelude::*;
use crate::window::{WindowEntry, focused_class, focused_wm_class, text_view, is_focused, lemma_no_focus};
use crate::payload::{payload_class, active_window_class};

verus! {

/// The ways of asking the session which application has focus, in the order
/// in which they are tried.
#[derive(PartialEq, Eq, Structural, Clone, Copy, Debug)]
pub enum Strategy {
    /// The shell extension's `GetWindows` introspection.
    Introspection,
    /// The companion service's `ActiveWindow` method.
    ActiveWindow,
    /// The companion service's older `WMClass` method.
    LegacyWmClass,
}

/// What came back from the call that a strategy makes, once decoded.
pub enum Reply {
    /// The call or the decoding of its body failed.
    Failed,
    /// A window snapshot, in the order in which it was walked.
    Windows(Vec<WindowEntry>),
    /// A text body.
    Text(String),
}

/// The strategy tried after `s`, if any.
pub open spec fn successor(s: Strategy) -> Option<Strategy> {
    match s {
        Strategy::Introspection => Some(Strategy::ActiveWindow),
        Strategy::ActiveWindow => Some(Strategy::LegacyWmClass),
        Strategy::LegacyWmClass => None,
    }
}

/// The application identifier that strategy `s` draws from reply `r`.
pub open spec fn strategy_yield(s: Strategy, r: Reply) -> Option<Seq<char>> {
    match (s, r) {
        (Strategy::Introspection, Reply::Windows(ws)) => focused_class(ws@),
        (Strategy::ActiveWindow, Reply::Text(t)) => payload_class(t@),
        (Strategy::LegacyWmClass, Reply::Text(t)) => Some(t@),
        _ => None,
    }
}

/// Where a resolution stands: the strategy still to try, and what was found.
pub struct CascadeState {
    pub pending: Option<Strategy>,
    pub found: Option<Seq<char>>,
}

/// A resolution begins with the introspection strategy and nothing found.
pub open spec fn initial_state() -> CascadeState {
    CascadeState { pending: Some(Strategy::Introspection), found: None }
}

/// Feeding the reply of the pending strategy: a value ends the resolution,
/// anything else moves on to the next strategy.
pub open spec fn step(st: CascadeState, r: Reply) -> CascadeState {
    match st.pending {
        Some(s) => match strategy_yield(s, r) {
            Some(c) => CascadeState { pending: None, found: Some(c) },
            None => CascadeState { pending: successor(s), found: None },
        },
        None => st,
    }
}

/// The state after feeding `rs`, one reply after another, from the start.
pub open spec fn run(rs: Seq<Reply>) -> CascadeState
    decreases rs.len(),
{
    if rs.len() == 0 {
        initial_state()
    } else {
        step(run(rs.drop_last()), rs.last())
    }
}

/// Whether `rs` are the replies of one complete resolution: each was asked
/// for by the strategy then pending, and no strategy is left to try.
pub open spec fn complete_run(rs: Seq<Reply>) -> bool {
    &&& forall|i: int| 0 <= i < rs.len() ==> (#[trigger] run(rs.take(i))).pending is Some
    &&& run(rs).pending is None
}

/// The number of strategies still to try, which every reply decreases.
pub open spec fn remaining(st: CascadeState) -> nat {
    match st.pending {
        Some(Strategy::Introspection) => 3,
        Some(Strategy::ActiveWindow) => 2,
        Some(Strategy::LegacyWmClass) => 1,
        None => 0,
    }
}

/// An ongoing resolution: the strategy to try next and the identifier found.
pub struct Cascade {
    pending: Option<Strategy>,
    found: Option<String>,
}

impl View for Cascade {
    type V = CascadeState;

    closed spec fn view(&self) -> CascadeState {
        CascadeState { pending: self.pending, found: text_view(self.found) }
    }
}

/// Draws the identifier that strategy `s` yields from its reply.
pub fn evaluate(s: Strategy, r: &Reply) -> (o: Option<String>)
    ensures
        text_view(o) == strategy_yield(s, *r),
{
    match (s, r) {
        (Strategy::Introspection, Reply::Windows(ws)) => focused_wm_class(ws),
        (Strategy::ActiveWindow, Reply::Text(t)) => active_window_class(t.as_str()),
        (Strategy::LegacyWmClass, Reply::Text(t)) => Some(t.clone()),
        _ => None,
    }
}

impl Cascade {
    /// A resolution that has tried nothing yet.
    pub fn new() -> (c: Cascade)
        ensures
            c@ == initial_state(),
    {
        Cascade { pending: Some(Strategy::Introspection), found: None }
    }

    /// The strategy to try next; nothing once the resolution is over.
    pub fn pending(&self) -> (s: Option<Strategy>)
        ensures
            s == self@.pending,
    {
        self.pending
    }

    /// Records the reply of the pending strategy.
    pub fn feed(&mut self, r: Reply)
        requires
            old(self)@.pending is Some,
        ensures
            final(self)@ == step(old(self)@, r),
            remaining(final(self)@) < remaining(old(self)@),
    {
        let s = match self.pending {
            Some(s) => s,
            None => return,
        };
        let o = evaluate(s, &r);
        match o {
            Some(c) => {
                self.pending = None;
                self.found = Some(c);
            },
            None => {
                self.pending = match s {
                    Strategy::Introspection => Some(Strategy::ActiveWindow),
                    Strategy::ActiveWindow => Some(Strategy::LegacyWmClass),
                    Strategy::LegacyWmClass => None,
                };
                self.found = None;
            },
        }
    }

    /// The identifier found so far: the resolution's answer once nothing is pending.
    pub fn outcome(self) -> (r: Option<String>)
        ensures
            text_view(r) == self@.found,
    {
        self.found
    }
}

/// Every resolution starts with introspection, and a value that introspection
/// yields ends it at once: neither companion-service strategy is asked.
pub proof fn lemma_introspection_first(r: Reply)
    requires
        strategy_yield(Strategy::Introspection, r) is Some,
    ensures
        initial_state().pending == Some(Strategy::Introspection),
        run(seq![r]).pending is None,
        run(seq![r]).found == strategy_yield(Strategy::Introspection, r),
        complete_run(seq![r]),
{
    lemma_run_one(r);
    assert(seq![r].take(0) =~= Seq::<Reply>::empty());
}

/// The state after a single reply.
proof fn lemma_run_one(r: Reply)
    ensures
        run(seq![r]) == step(initial_state(), r),
{
    assert(seq![r].drop_last() =~= Seq::<Reply>::empty());
    assert(run(Seq::<Reply>::empty()) == initial_state());
    assert(seq![r].last() == r);
}

/// A failed introspection call is no error: the resolution goes on with the
/// `ActiveWindow` strategy, nothing found yet.
pub proof fn lemma_failed_introspection_continues()
    ensures
        run(seq![Reply::Failed]) == (CascadeState { pending: Some(Strategy::ActiveWindow), found: None }),
{
    lemma_run_one(Reply::Failed);
}

/// A snapshot in which no window has focus yields nothing, and the resolution
/// goes on with the `ActiveWindow` strategy.
pub proof fn lemma_unfocused_snapshot_continues(ws: Vec<WindowEntry>)
    requires
        forall|j: int| 0 <= j < ws@.len() ==> !is_focused(#[trigger] ws@[j]),
    ensures
        strategy_yield(Strategy::Introspection, Reply::Windows(ws)) is None,
        run(seq![Reply::Windows(ws)]) == (CascadeState { pending: Some(Strategy::ActiveWindow), found: None }),
{
    lemma_no_focus(ws@);
    lemma_run_one(Reply::Windows(ws));
}

/// When none of the three strategies yields a value, the resolution ends
/// with nothing found, after asking each of them once.
pub proof fn lemma_all_fail(r1: Reply, r2: Reply, r3: Reply)
    requires
        strategy_yield(Strategy::Introspection, r1) is None,
        strategy_yield(Strategy::ActiveWindow, r2) is None,
        strategy_yield(Strategy::LegacyWmClass, r3) is None,
    ensures
        complete_run(seq![r1, r2, r3]),
        run(seq![r1, r2, r3]) == (CascadeState { pending: None, found: None }),
{
    let rs = seq![r1, r2, r3];
    lemma_run_one(r1);
    assert(rs.drop_last() =~= seq![r1, r2]);
    assert(seq![r1, r2].drop_last() =~= seq![r1]);
    assert(run(seq![r1, r2]) == step(run(seq![r1]), r2));
    assert(run(rs) == step(run(seq![r1, r2]), r3));
    assert(rs.take(0) =~= Seq::<Reply>::empty());
    assert(rs.take(1) =~= seq![r1]);
    assert(rs.take(2) =~= seq![r1, r2]);
}

/// Whether each reply of `rs` is what `session` answers to the strategy that
/// was pending when it came: the replies of a session whose state stays fixed.
pub open spec fn answered_by(rs: Seq<Reply>, session: spec_fn(Strategy) -> Reply) -> bool {
    forall|i: int| 0 <= i < rs.len() ==> rs[i] == session((#[trigger] run(rs.take(i))).pending->Some_0)
}

proof fn lemma_same_prefix(rs1: Seq<Reply>, rs2: Seq<Reply>, session: spec_fn(Strategy) -> Reply, n: int)
    requires
        answered_by(rs1, session),
        answered_by(rs2, session),
        0 <= n <= rs1.len(),
        n <= rs2.len(),
    ensures
        rs1.take(n) == rs2.take(n),
    decreases n,
{
    if n > 0 {
        lemma_same_prefix(rs1, rs2, session, n - 1);
        assert(run(rs1.take(n - 1)) == run(rs2.take(n - 1)));
        assert(rs1[n - 1] == rs2[n - 1]);
        assert(rs1.take(n) =~= rs1.take(n - 1).push(rs1[n - 1]));
        assert(rs2.take(n) =~= rs2.take(n - 1).push(rs2[n - 1]));
    }
}

/// Against a session whose state stays fixed, every complete resolution asks
/// the same strategies and gets the same replies; so whether one finds an
/// identifier (what `supported` answers) agrees with what another returns.
pub proof fn lemma_fixed_session_consistent(
    session: spec_fn(Strategy) -> Reply,
    rs1: Seq<Reply>,
    rs2: Seq<Reply>,
)
    requires
        complete_run(rs1),
        complete_run(rs2),
        answered_by(rs1, session),
        answered_by(rs2, session),
    ensures
        rs1 == rs2,
        run(rs1).found == run(rs2).found,
        (run(rs1).found is Some) == (run(rs2).found is Some),
{
    if rs1.len() < rs2.len() {
        lemma_same_prefix(rs1, rs2, session, rs1.len() as int);
        assert(rs1.take(rs1.len() as int) =~= rs1);
        assert(run(rs2.take(rs1.len() as int)).pending is Some);
    } else if rs2.len() < rs1.len() {
        lemma_same_prefix(rs1, rs2, session, rs2.len() as int);
        assert(rs2.take(rs2.len() as int) =~= rs2);
        assert(run(rs1.take(rs2.len() as int)).pending is Some);
    } else {
        lemma_same_prefix(rs1, rs2, session, rs1.len() as int);
        assert(rs1.take(rs1.len() as int) =~= rs1);
        assert(rs2.take(rs2.len() as int) =~= rs2);
    }
}

/// The strategy that was pending when the `i`-th reply of `rs` came.
pub open spec fn asked_at(rs: Seq<Reply>, i: int) -> Strategy {
    run(rs.take(i)).pending->Some_0
}

/// The fixed order of the strategies.
pub open spec fn strategy_order() -> Seq<Strategy> {
    seq![Strategy::Introspection, Strategy::ActiveWindow, Strategy::LegacyWmClass]
}

proof fn lemma_pending_in_order(rs: Seq<Reply>, i: int)
    requires
        0 <= i <= rs.len(),
        forall|j: int| 0 <= j < rs.len() ==> (#[trigger] run(rs.take(j))).pending is Some,
        i < rs.len() || run(rs.take(i)).pending is Some,
    ensures
        i < 3,
        run(rs.take(i)).pending == Some(strategy_order()[i]),
    decreases i,
{
    if i == 0 {
        assert(rs.take(0) =~= Seq::<Reply>::empty());
    } else {
        lemma_pending_in_order(rs, i - 1);
        assert(rs.take(i).drop_last() =~= rs.take(i - 1));
        assert(rs.take(i).last() == rs[i - 1]);
    }
}

/// A complete resolution asks at least one and at most three strategies, in
/// their fixed order, starting with introspection: its `i`-th reply answers
/// the `i`-th strategy, and no strategy is asked twice.
pub proof fn lemma_calls_in_order(rs: Seq<Reply>)
    requires
        complete_run(rs),
    ensures
        1 <= rs.len() <= 3,
        forall|i: int| 0 <= i < rs.len() ==> asked_at(rs, i) == #[trigger] strategy_order()[i],
{
    if rs.len() == 0 {
        assert(rs =~= Seq::<Reply>::empty());
    }
    assert forall|i: int| 0 <= i < rs.len() implies asked_at(rs, i) == #[trigger] strategy_order()[i] by {
        lemma_pending_in_order(rs, i);
    }
    lemma_pending_in_order(rs, rs.len() - 1);
}

/// In a complete resolution every strategy but the last asked yields nothing,
/// the answer is what the last one yields, and there is no answer only when
/// all three strategies were asked. So introspection is always asked first, a
/// value from it ends the resolution with one call, and a failed or unfocused
/// introspection is followed by the `ActiveWindow` call.
pub proof fn lemma_run_outcome(rs: Seq<Reply>)
    requires
        complete_run(rs),
    ensures
        1 <= rs.len() <= 3,
        forall|i: int| 0 <= i < rs.len() ==> asked_at(rs, i) == #[trigger] strategy_order()[i],
        forall|i: int| 0 <= i < rs.len() - 1 ==> (#[trigger] strategy_yield(strategy_order()[i], rs[i])) is None,
        run(rs).found == strategy_yield(strategy_order()[rs.len() - 1], rs[rs.len() - 1]),
        run(rs).found is None ==> rs.len() == 3,
{
    lemma_calls_in_order(rs);
    assert forall|i: int| 0 <= i < rs.len() - 1 implies (#[trigger] strategy_yield(strategy_order()[i], rs[i])) is None by {
        assert(rs.take(i + 1).drop_last() =~= rs.take(i));
        assert(rs.take(i + 1).last() == rs[i]);
        assert(run(rs.take(i + 1)).pending is Some);
        assert(run(rs.take(i)).pending == Some(strategy_order()[i]));
    }
    let n = rs.len() - 1;
    assert(rs.drop_last() =~= rs.take(n));
    assert(run(rs.take(n)).pending == Some(strategy_order()[n]));
}

} // verus!
