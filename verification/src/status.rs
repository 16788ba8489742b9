//! The per-container status watcher: a state machine that records a
//! subscription to lifecycle-state change notifications and forwards every
//! decoded change onto the bus, failing closed on the first unrecognized
//! token.

use vstd::prelude::*;
use crate::messages::{
    bus_extended, decode_spec, lemma_bus_extended_refl, lemma_bus_extended_trans,
    lemma_tagged_one, lemma_views_of_push, str_views, tagged, views_of, ContainerState,
    MonitorError, MonitorErrorView, NamedUpdate, Update, UpdateView,
};

verus! {

/// The lifecycle of one watcher or executor instance. `Stopped` and `Failed`
/// are terminal: no instance ever transitions out of them.
#[derive(Debug, Clone, Copy, PartialEq, Eq, Structural)]
pub enum WatchPhase {
    Created,
    Connecting,
    Active,
    Stopped,
    Failed,
}

/// The diagnostic emitted when a status watcher starts connecting.
pub open spec fn msg_connecting() -> Seq<char> {
    "Connecting to systemd"@
}

/// The diagnostic emitted when a status watcher begins monitoring.
pub open spec fn msg_monitoring() -> Seq<char> {
    "Monitoring"@
}

/// The context prefix a status watcher puts before a setup failure.
pub open spec fn status_setup_prefix() -> Seq<char> {
    "Failed to set up status monitoring: "@
}

/// The context prefix a status watcher puts before a mid-stream failure.
pub open spec fn status_stream_prefix() -> Seq<char> {
    "Failed to get updated state: "@
}

/// Append one update onto a bus vector, tagged with the given container name.
pub fn emit(bus: &mut Vec<NamedUpdate>, name: &String, inner: Update)
    ensures
        bus_extended(old(bus)@, final(bus)@, name@, seq![inner@]),
{
    let ghost pre = bus@;
    let ghost gi = inner@;
    let u = NamedUpdate { container_name: name.clone(), inner };
    let ghost gu = u;
    bus.push(u);
    proof {
        lemma_views_of_push(pre, gu);
        lemma_tagged_one(name@, gi);
        assert(views_of(pre).push(gu@) =~= views_of(pre) + tagged(name@, seq![gi]));
    }
}

/// What one raw token does to a status watcher in a given phase: an active
/// watcher emits the decoded state, or one failure and dies; a watcher in any
/// other phase emits nothing and does not change.
pub open spec fn status_token_step(p: WatchPhase, token: Seq<char>) -> (WatchPhase, Seq<
    UpdateView,
>) {
    if p is Active {
        match decode_spec(token) {
            Some(st) => (WatchPhase::Active, seq![UpdateView::State(st)]),
            None => (
                WatchPhase::Failed,
                seq![UpdateView::Error(MonitorErrorView::Decode { token })],
            ),
        }
    } else {
        (p, Seq::<UpdateView>::empty())
    }
}

/// The phase reached and the events emitted by feeding a whole token
/// sequence, one token at a time.
pub open spec fn status_run(p: WatchPhase, tokens: Seq<Seq<char>>) -> (WatchPhase, Seq<UpdateView>)
    decreases tokens.len(),
{
    if tokens.len() == 0 {
        (p, Seq::<UpdateView>::empty())
    } else {
        let first = status_token_step(p, tokens[0]);
        let rest = status_run(first.0, tokens.drop_first());
        (rest.0, first.1 + rest.1)
    }
}

/// One long-lived watcher of one container's lifecycle state.
pub struct StatusWatcher {
    container_name: String,
    phase: WatchPhase,
    history: Ghost<Seq<UpdateView>>,
}

impl StatusWatcher {
    /// The name of the container this watcher observes.
    pub closed spec fn name(self) -> Seq<char> {
        self.container_name@
    }

    /// The phase this watcher is in.
    pub closed spec fn phase(self) -> WatchPhase {
        self.phase
    }

    /// Every event this instance has ever emitted, in emission order.
    pub closed spec fn history(self) -> Seq<UpdateView> {
        self.history@
    }

    /// The shape an emission history has in each phase: the connecting
    /// diagnostic comes first, the monitoring diagnostic second, state
    /// changes only while active, and a failure only as the last event.
    pub open spec fn history_wf(h: Seq<UpdateView>, p: WatchPhase) -> bool {
        match p {
            WatchPhase::Created => h.len() == 0,
            WatchPhase::Connecting => h.len() == 1 && h[0] == UpdateView::Log(msg_connecting()),
            WatchPhase::Active | WatchPhase::Stopped => h.len() >= 2 && h[0] == UpdateView::Log(
                msg_connecting(),
            ) && h[1] == UpdateView::Log(msg_monitoring()) && (forall|i: int|
                2 <= i < h.len() ==> h[i] is State),
            WatchPhase::Failed => h.len() >= 2 && h[0] == UpdateView::Log(msg_connecting())
                && h.last() is Error && (h.len() == 2 || (h[1] == UpdateView::Log(msg_monitoring())
                && (forall|i: int| 2 <= i < h.len() - 1 ==> h[i] is State))),
        }
    }

    /// A well-formed watcher's history matches its phase.
    pub open spec fn wf(self) -> bool {
        Self::history_wf(self.history(), self.phase())
    }

    /// Create a watcher for one container. It has emitted nothing yet.
    pub fn new(container_name: String) -> (w: Self)
        ensures
            w.wf(),
            w.phase() is Created,
            w.name() == container_name@,
            w.history() == Seq::<UpdateView>::empty(),
    {
        StatusWatcher {
            container_name,
            phase: WatchPhase::Created,
            history: Ghost(Seq::empty()),
        }
    }

    /// Announce the connection attempt: the watcher's first event.
    pub fn begin(&mut self, bus: &mut Vec<NamedUpdate>)
        requires
            old(self).wf(),
            old(self).phase() is Created,
        ensures
            final(self).wf(),
            final(self).phase() is Connecting,
            final(self).name() == old(self).name(),
            final(self).history() == old(self).history() + seq![UpdateView::Log(msg_connecting())],
            bus_extended(
                old(bus)@,
                final(bus)@,
                old(self).name(),
                seq![UpdateView::Log(msg_connecting())],
            ),
    {
        let msg = String::from_str("Connecting to systemd");
        emit(bus, &self.container_name, Update::Log(msg));
        self.phase = WatchPhase::Connecting;
        self.history = Ghost(self.history@ + seq![UpdateView::Log(msg_connecting())]);
        proof {
            assert(self.history@ =~= seq![UpdateView::Log(msg_connecting())]);
        }
    }

    /// The subscription is established: announce monitoring.
    pub fn on_connected(&mut self, bus: &mut Vec<NamedUpdate>)
        requires
            old(self).wf(),
            old(self).phase() is Connecting,
        ensures
            final(self).wf(),
            final(self).phase() is Active,
            final(self).name() == old(self).name(),
            final(self).history() == old(self).history() + seq![UpdateView::Log(msg_monitoring())],
            bus_extended(
                old(bus)@,
                final(bus)@,
                old(self).name(),
                seq![UpdateView::Log(msg_monitoring())],
            ),
    {
        let msg = String::from_str("Monitoring");
        emit(bus, &self.container_name, Update::Log(msg));
        self.phase = WatchPhase::Active;
        self.history = Ghost(self.history@ + seq![UpdateView::Log(msg_monitoring())]);
    }

    /// The subscription could not be established: emit the one failure, with
    /// the watcher's stage prefix before the caller's context, and die.
    pub fn fail_setup(&mut self, context: &str, bus: &mut Vec<NamedUpdate>)
        requires
            old(self).wf(),
            old(self).phase() is Connecting,
        ensures
            final(self).wf(),
            final(self).phase() is Failed,
            final(self).name() == old(self).name(),
            final(self).history() == old(self).history() + seq![
                UpdateView::Error(
                    (MonitorErrorView::Setup { context: status_setup_prefix() + context@ }),
                ),
            ],
            bus_extended(
                old(bus)@,
                final(bus)@,
                old(self).name(),
                seq![
                    UpdateView::Error(
                        (MonitorErrorView::Setup { context: status_setup_prefix() + context@ }),
                    ),
                ],
            ),
    {
        let mut msg = String::from_str("Failed to set up status monitoring: ");
        msg.append(context);
        emit(bus, &self.container_name, Update::Error(MonitorError::Setup { context: msg }));
        self.phase = WatchPhase::Failed;
        self.history = Ghost(
            self.history@ + seq![
                UpdateView::Error(
                    MonitorErrorView::Setup { context: status_setup_prefix() + context@ },
                ),
            ],
        );
    }

    /// The notification stream errored mid-flight: emit the one failure,
    /// with the watcher's stage prefix before the caller's context, and die.
    pub fn fail_stream(&mut self, context: &str, bus: &mut Vec<NamedUpdate>)
        requires
            old(self).wf(),
            old(self).phase() is Active,
        ensures
            final(self).wf(),
            final(self).phase() is Failed,
            final(self).name() == old(self).name(),
            final(self).history() == old(self).history() + seq![
                UpdateView::Error(
                    (MonitorErrorView::Operational { context: status_stream_prefix() + context@ }),
                ),
            ],
            bus_extended(
                old(bus)@,
                final(bus)@,
                old(self).name(),
                seq![
                    UpdateView::Error(
                        (MonitorErrorView::Operational {
                            context: status_stream_prefix() + context@,
                        }),
                    ),
                ],
            ),
    {
        let mut msg = String::from_str("Failed to get updated state: ");
        msg.append(context);
        emit(
            bus,
            &self.container_name,
            Update::Error(MonitorError::Operational { context: msg }),
        );
        self.phase = WatchPhase::Failed;
        self.history = Ghost(
            self.history@ + seq![
                UpdateView::Error(
                    MonitorErrorView::Operational { context: status_stream_prefix() + context@ },
                ),
            ],
        );
    }

    /// Whether this watcher is still actively forwarding state changes.
    pub fn is_active(&self) -> (r: bool)
        ensures
            r == (self.phase() is Active),
    {
        matches!(self.phase, WatchPhase::Active)
    }

    /// One raw state-change token arrived. An active watcher decodes it and
    /// emits the state, or emits one decode failure and dies; a watcher in
    /// any other phase emits nothing and does not change.
    pub fn on_token(&mut self, token: &str, bus: &mut Vec<NamedUpdate>)
        requires
            old(self).wf(),
        ensures
            final(self).wf(),
            final(self).name() == old(self).name(),
            final(self).phase() == status_token_step(old(self).phase(), token@).0,
            final(self).history() == old(self).history() + status_token_step(
                old(self).phase(),
                token@,
            ).1,
            bus_extended(
                old(bus)@,
                final(bus)@,
                old(self).name(),
                status_token_step(old(self).phase(), token@).1,
            ),
    {
        match self.phase {
            WatchPhase::Active => {
                match ContainerState::from_systemd(token) {
                    Ok(st) => {
                        emit(bus, &self.container_name, Update::State(st));
                        self.history = Ghost(self.history@ + seq![UpdateView::State(st)]);
                        proof {
                            assert(final(self).wf());
                        }
                    },
                    Err(e) => {
                        emit(
                            bus,
                            &self.container_name,
                            Update::Error(MonitorError::Decode { token: e.token }),
                        );
                        self.phase = WatchPhase::Failed;
                        self.history = Ghost(
                            self.history@ + seq![
                                UpdateView::Error(MonitorErrorView::Decode { token: token@ }),
                            ],
                        );
                        proof {
                            assert(final(self).wf());
                        }
                    },
                }
            },
            _ => {
                proof {
                    lemma_bus_extended_refl(bus@, self.name());
                    assert(self.history@ =~= self.history@ + Seq::<UpdateView>::empty());
                }
            },
        }
    }

    /// The subscription stream ended. An active watcher stops cleanly with no
    /// further event; a watcher in any other phase does not change.
    pub fn on_stream_end(&mut self)
        requires
            old(self).wf(),
        ensures
            final(self).wf(),
            final(self).name() == old(self).name(),
            final(self).history() == old(self).history(),
            final(self).phase() == (if old(self).phase() is Active {
                WatchPhase::Stopped
            } else {
                old(self).phase()
            }),
    {
        match self.phase {
            WatchPhase::Active => {
                self.phase = WatchPhase::Stopped;
            },
            _ => {},
        }
    }

    /// Feed a whole sequence of raw tokens, one at a time, in order.
    pub fn feed_tokens(&mut self, tokens: &Vec<String>, bus: &mut Vec<NamedUpdate>)
        requires
            old(self).wf(),
        ensures
            final(self).wf(),
            final(self).name() == old(self).name(),
            final(self).phase() == status_run(old(self).phase(), str_views(tokens@)).0,
            final(self).history() == old(self).history() + status_run(
                old(self).phase(),
                str_views(tokens@),
            ).1,
            bus_extended(
                old(bus)@,
                final(bus)@,
                old(self).name(),
                status_run(old(self).phase(), str_views(tokens@)).1,
            ),
    {
        let ghost toks = str_views(tokens@);
        let n = tokens.len();
        let mut i: usize = 0;
        proof {
            lemma_bus_extended_refl(bus@, self.name());
            assert(self.history@ =~= self.history@ + Seq::<UpdateView>::empty());
            lemma_status_run_take_zero(self.phase, toks);
        }
        while i < n
            invariant
                i <= n,
                n == tokens.len(),
                toks == str_views(tokens@),
                self.wf(),
                self.name() == old(self).name(),
                self.phase() == status_run(old(self).phase(), toks.take(i as int)).0,
                self.history() == old(self).history() + status_run(
                    old(self).phase(),
                    toks.take(i as int),
                ).1,
                bus_extended(
                    old(bus)@,
                    bus@,
                    old(self).name(),
                    status_run(old(self).phase(), toks.take(i as int)).1,
                ),
            decreases n - i,
        {
            let ghost pre_bus = bus@;
            let ghost pre_hist = self.history@;
            let ghost pre_phase = self.phase;
            self.on_token(tokens[i].as_str(), bus);
            proof {
                let prefix = toks.take(i as int);
                let step = status_token_step(pre_phase, toks[i as int]);
                lemma_status_run_snoc(old(self).phase(), prefix, toks[i as int]);
                assert(prefix.push(toks[i as int]) =~= toks.take(i as int + 1));
                lemma_bus_extended_trans(
                    old(bus)@,
                    pre_bus,
                    bus@,
                    old(self).name(),
                    status_run(old(self).phase(), prefix).1,
                    step.1,
                );
                assert((old(self).history() + status_run(old(self).phase(), prefix).1) + step.1
                    =~= old(self).history() + (status_run(old(self).phase(), prefix).1 + step.1));
            }
            i = i + 1;
        }
        proof {
            assert(toks.take(n as int) =~= toks);
        }
    }
}

/// Running no tokens emits nothing and keeps the phase.
pub proof fn lemma_status_run_take_zero(p: WatchPhase, tokens: Seq<Seq<char>>)
    ensures
        status_run(p, tokens.take(0)) == (p, Seq::<UpdateView>::empty()),
{
    assert(tokens.take(0) =~= Seq::<Seq<char>>::empty());
    assert(status_run(p, tokens.take(0)).1 == Seq::<UpdateView>::empty());
}

/// A run over `tokens.push(t)` is the run over `tokens` followed by one step.
pub proof fn lemma_status_run_snoc(p: WatchPhase, tokens: Seq<Seq<char>>, t: Seq<char>)
    ensures
        status_run(p, tokens.push(t)).0 == status_token_step(
            status_run(p, tokens).0,
            t,
        ).0,
        status_run(p, tokens.push(t)).1 == status_run(p, tokens).1 + status_token_step(
            status_run(p, tokens).0,
            t,
        ).1,
    decreases tokens.len(),
{
    if tokens.len() == 0 {
        reveal_with_fuel(status_run, 2);
        assert(tokens.push(t)[0] == t);
        assert(tokens.push(t).drop_first() =~= Seq::<Seq<char>>::empty());
        let first = status_token_step(p, t);
        assert(status_run(first.0, tokens.push(t).drop_first()).1
            == Seq::<UpdateView>::empty());
        assert(status_run(p, tokens.push(t)).1 =~= first.1);
        assert(status_run(p, tokens).1 + first.1 =~= first.1);
    } else {
        let first = status_token_step(p, tokens[0]);
        assert(tokens.push(t)[0] == tokens[0]);
        assert(tokens.push(t).drop_first() =~= tokens.drop_first().push(t));
        lemma_status_run_snoc(first.0, tokens.drop_first(), t);
        let rest = status_run(first.0, tokens.drop_first());
        let step = status_token_step(rest.0, t);
        assert(first.1 + (rest.1 + step.1) =~= (first.1 + rest.1) + step.1);
    }
}

/// A watcher that is not active ignores every token: it emits nothing and
/// its phase never changes.
pub proof fn lemma_status_run_inert(p: WatchPhase, tokens: Seq<Seq<char>>)
    requires
        !(p is Active),
    ensures
        status_run(p, tokens).0 == p,
        status_run(p, tokens).1 == Seq::<UpdateView>::empty(),
    decreases tokens.len(),
{
    if tokens.len() != 0 {
        lemma_status_run_inert(p, tokens.drop_first());
        assert(status_run(p, tokens).1 =~= Seq::<UpdateView>::empty());
    }
}

/// A status watcher never records a state-change event before at least one
/// diagnostic log event: whenever the history holds a state change, a log
/// event stands strictly before it — and the very first event of such a
/// history is the connecting diagnostic.
pub proof fn lemma_state_change_after_diagnostic(w: StatusWatcher, i: int)
    requires
        w.wf(),
        0 <= i < w.history().len(),
        w.history()[i] is State,
    ensures
        exists|j: int| 0 <= j < i && w.history()[j] is Log,
        w.history()[0] == UpdateView::Log(msg_connecting()),
{
    let h = w.history();
    match w.phase() {
        WatchPhase::Created => {
            assert(false);
        },
        WatchPhase::Connecting => {
            assert(h[0] is Log);
            assert(false);
        },
        WatchPhase::Active | WatchPhase::Stopped => {
            assert(h[0] is Log);
            assert(i != 0);
            assert(0 <= 0 < i && h[0] is Log);
        },
        WatchPhase::Failed => {
            assert(h[0] is Log);
            if h.len() == 2 {
                assert(h[1] is Error);
                assert(false);
            } else {
                assert(i != 0);
                assert(0 <= 0 < i && h[0] is Log);
            }
        },
    }
}

/// A failure terminates the watcher that produced it: in any well-formed
/// status watcher's history, a failure event can only stand last — no event
/// of this watcher ever follows one.
pub proof fn lemma_failure_is_terminal(w: StatusWatcher, i: int)
    requires
        w.wf(),
        0 <= i < w.history().len(),
        w.history()[i] is Error,
    ensures
        i == w.history().len() - 1,
        w.phase() is Failed,
{
    let h = w.history();
    match w.phase() {
        WatchPhase::Created => {
            assert(false);
        },
        WatchPhase::Connecting => {
            assert(h[0] is Log);
            assert(false);
        },
        WatchPhase::Active | WatchPhase::Stopped => {
            assert(h[0] is Log && h[1] is Log);
            if 2 <= i {
                assert(h[i] is State);
            }
            assert(false);
        },
        WatchPhase::Failed => {
            assert(h[0] is Log);
            if h.len() > 2 && i < h.len() - 1 {
                assert(h[1] is Log);
                if 2 <= i {
                    assert(h[i] is State);
                }
                assert(false);
            }
        },
    }
}

/// Fault isolation: a failed watcher emits nothing however it is fed, while
/// what an active watcher emits is a function of its own feed alone.
pub proof fn lemma_fault_isolation(
    a: StatusWatcher,
    b: StatusWatcher,
    tokens: Seq<Seq<char>>,
)
    requires
        a.wf(),
        b.wf(),
        a.phase() is Failed,
        b.phase() is Active,
    ensures
        status_run(a.phase(), tokens).1 == Seq::<UpdateView>::empty(),
        status_run(b.phase(), tokens) == status_run(WatchPhase::Active, tokens),
{
    lemma_status_run_inert(a.phase(), tokens);
}

/// Ordering: an active watcher fed only valid tokens stays active and emits
/// exactly the decoded states, one per token, in feed order.
pub proof fn lemma_ordered_emissions(tokens: Seq<Seq<char>>)
    requires
        forall|i: int| 0 <= i < tokens.len() ==> decode_spec(tokens[i]) is Some,
    ensures
        status_run(WatchPhase::Active, tokens).0 is Active,
        status_run(WatchPhase::Active, tokens).1.len() == tokens.len(),
        forall|i: int|
            0 <= i < tokens.len() ==> status_run(WatchPhase::Active, tokens).1[i]
                == UpdateView::State(decode_spec(tokens[i])->Some_0),
    decreases tokens.len(),
{
    if tokens.len() != 0 {
        let first = status_token_step(WatchPhase::Active, tokens[0]);
        assert(decode_spec(tokens[0]) is Some);
        lemma_ordered_emissions(tokens.drop_first());
        let rest = status_run(WatchPhase::Active, tokens.drop_first());
        assert forall|i: int| 0 <= i < tokens.len() implies status_run(
            WatchPhase::Active,
            tokens,
        ).1[i] == UpdateView::State(decode_spec(tokens[i])->Some_0) by {
            if i == 0 {
                assert((first.1 + rest.1)[0] == first.1[0]);
            } else {
                assert((first.1 + rest.1)[i] == rest.1[i - 1]);
                assert(tokens.drop_first()[i - 1] == tokens[i]);
            }
        }
    }
}

/// A decode failure is terminal: fed tokens whose first invalid entry stands
/// at position `k`, an active watcher emits the `k` decoded states in order,
/// then exactly one failure naming the invalid token, and nothing after it.
pub proof fn lemma_decode_failure_terminates(tokens: Seq<Seq<char>>, k: int)
    requires
        0 <= k < tokens.len(),
        forall|i: int| 0 <= i < k ==> decode_spec(tokens[i]) is Some,
        decode_spec(tokens[k]) is None,
    ensures
        status_run(WatchPhase::Active, tokens).0 is Failed,
        status_run(WatchPhase::Active, tokens).1.len() == k + 1,
        forall|i: int|
            0 <= i < k ==> status_run(WatchPhase::Active, tokens).1[i] == UpdateView::State(
                decode_spec(tokens[i])->Some_0,
            ),
        status_run(WatchPhase::Active, tokens).1[k] == UpdateView::Error(
            (MonitorErrorView::Decode { token: tokens[k] }),
        ),
    decreases k,
{
    let first = status_token_step(WatchPhase::Active, tokens[0]);
    if k == 0 {
        lemma_status_run_inert(WatchPhase::Failed, tokens.drop_first());
        let rest = status_run(WatchPhase::Failed, tokens.drop_first());
        assert(status_run(WatchPhase::Active, tokens).1 =~= first.1);
    } else {
        lemma_decode_failure_terminates(tokens.drop_first(), k - 1);
        let rest = status_run(WatchPhase::Active, tokens.drop_first());
        assert forall|i: int| 0 <= i < k implies status_run(WatchPhase::Active, tokens).1[i]
            == UpdateView::State(decode_spec(tokens[i])->Some_0) by {
            if i == 0 {
                assert((first.1 + rest.1)[0] == first.1[0]);
            } else {
                assert((first.1 + rest.1)[i] == rest.1[i - 1]);
                assert(tokens.drop_first()[i - 1] == tokens[i]);
            }
        }
        assert((first.1 + rest.1)[k] == rest.1[k - 1]);
        assert(tokens.drop_first()[k - 1] == tokens[k]);
    }
}

} // verus!
