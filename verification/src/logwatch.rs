//! The per-container log watcher: a state machine that records following a
//! container's append-only log stream and forwards each complete line onto
//! the bus, in source order.

use vstd::prelude::*;
use crate::messages::{
    bus_extended, lemma_bus_extended_refl, lemma_bus_extended_trans, str_views,
    MonitorError, MonitorErrorView, NamedUpdate, Update, UpdateView,
};
use crate::status::{emit, WatchPhase};

verus! {

/// The diagnostic emitted when a log watcher requests the log stream.
pub open spec fn msg_requesting() -> Seq<char> {
    "Requesting logs"@
}

/// The diagnostic emitted when a log watcher starts reading lines.
pub open spec fn msg_reading() -> Seq<char> {
    "Reading logs"@
}

/// The context prefix a log watcher puts before a setup failure.
pub open spec fn log_setup_prefix() -> Seq<char> {
    "Failed to set up log monitoring: "@
}

/// The context prefix a log watcher puts before a mid-stream read failure.
pub open spec fn log_read_prefix() -> Seq<char> {
    "Failed to read log line: "@
}

/// The events an active log watcher emits for a sequence of complete lines:
/// one log event per line, in source order.
pub open spec fn log_emissions(lines: Seq<Seq<char>>) -> Seq<UpdateView> {
    lines.map_values(|l: Seq<char>| UpdateView::ContainerLog(l))
}

/// One long-lived watcher of one container's log stream.
pub struct LogWatcher {
    container_name: String,
    phase: WatchPhase,
    history: Ghost<Seq<UpdateView>>,
}

impl LogWatcher {
    /// The name of the container this watcher observes.
    pub closed spec fn name(self) -> Seq<char> {
        self.container_name@
    }

    /// The phase this watcher is in.
    pub closed spec fn phase(self) -> WatchPhase {
        self.phase
    }

    /// Every event this instance has ever emitted, in emission order.
    pub closed spec fn history(self) -> Seq<UpdateView> {
        self.history@
    }

    /// The shape an emission history has in each phase: the requesting
    /// diagnostic first, the reading diagnostic second, log lines only while
    /// active, and a failure only as the last event.
    pub open spec fn history_wf(h: Seq<UpdateView>, p: WatchPhase) -> bool {
        match p {
            WatchPhase::Created => h.len() == 0,
            WatchPhase::Connecting => h.len() == 1 && h[0] == UpdateView::Log(msg_requesting()),
            WatchPhase::Active | WatchPhase::Stopped => h.len() >= 2 && h[0] == UpdateView::Log(
                msg_requesting(),
            ) && h[1] == UpdateView::Log(msg_reading()) && (forall|i: int|
                2 <= i < h.len() ==> h[i] is ContainerLog),
            WatchPhase::Failed => h.len() >= 2 && h[0] == UpdateView::Log(msg_requesting())
                && h.last() is Error && (h.len() == 2 || (h[1] == UpdateView::Log(msg_reading())
                && (forall|i: int| 2 <= i < h.len() - 1 ==> h[i] is ContainerLog))),
        }
    }

    /// A well-formed watcher's history matches its phase.
    pub open spec fn wf(self) -> bool {
        Self::history_wf(self.history(), self.phase())
    }

    /// Create a log watcher for one container. It has emitted nothing yet.
    pub fn new(container_name: String) -> (w: Self)
        ensures
            w.wf(),
            w.phase() is Created,
            w.name() == container_name@,
            w.history() == Seq::<UpdateView>::empty(),
    {
        LogWatcher { container_name, phase: WatchPhase::Created, history: Ghost(Seq::empty()) }
    }

    /// Announce the request for the log stream: the watcher's first event.
    pub fn begin(&mut self, bus: &mut Vec<NamedUpdate>)
        requires
            old(self).wf(),
            old(self).phase() is Created,
        ensures
            final(self).wf(),
            final(self).phase() is Connecting,
            final(self).name() == old(self).name(),
            final(self).history() == old(self).history() + seq![UpdateView::Log(msg_requesting())],
            bus_extended(
                old(bus)@,
                final(bus)@,
                old(self).name(),
                seq![UpdateView::Log(msg_requesting())],
            ),
    {
        let msg = String::from_str("Requesting logs");
        emit(bus, &self.container_name, Update::Log(msg));
        self.phase = WatchPhase::Connecting;
        self.history = Ghost(self.history@ + seq![UpdateView::Log(msg_requesting())]);
        proof {
            assert(self.history@ =~= seq![UpdateView::Log(msg_requesting())]);
        }
    }

    /// The log-follow source is running: announce reading.
    pub fn on_started(&mut self, bus: &mut Vec<NamedUpdate>)
        requires
            old(self).wf(),
            old(self).phase() is Connecting,
        ensures
            final(self).wf(),
            final(self).phase() is Active,
            final(self).name() == old(self).name(),
            final(self).history() == old(self).history() + seq![UpdateView::Log(msg_reading())],
            bus_extended(
                old(bus)@,
                final(bus)@,
                old(self).name(),
                seq![UpdateView::Log(msg_reading())],
            ),
    {
        let msg = String::from_str("Reading logs");
        emit(bus, &self.container_name, Update::Log(msg));
        self.phase = WatchPhase::Active;
        self.history = Ghost(self.history@ + seq![UpdateView::Log(msg_reading())]);
    }

    /// The log-follow source could not be started: emit the one failure, with
    /// the watcher's stage prefix before the caller's context, and die.
    pub fn fail_setup(&mut self, context: &str, bus: &mut Vec<NamedUpdate>)
        requires
            old(self).wf(),
            old(self).phase() is Connecting,
        ensures
            final(self).wf(),
            final(self).phase() is Failed,
            final(self).name() == old(self).name(),
            final(self).history() == old(self).history() + seq![
                UpdateView::Error(
                    (MonitorErrorView::Setup { context: log_setup_prefix() + context@ }),
                ),
            ],
            bus_extended(
                old(bus)@,
                final(bus)@,
                old(self).name(),
                seq![
                    UpdateView::Error(
                        (MonitorErrorView::Setup { context: log_setup_prefix() + context@ }),
                    ),
                ],
            ),
    {
        let mut msg = String::from_str("Failed to set up log monitoring: ");
        msg.append(context);
        emit(bus, &self.container_name, Update::Error(MonitorError::Setup { context: msg }));
        self.phase = WatchPhase::Failed;
        self.history = Ghost(
            self.history@ + seq![
                UpdateView::Error(MonitorErrorView::Setup { context: log_setup_prefix() + context@ }),
            ],
        );
    }

    /// Whether this watcher is still actively forwarding log lines.
    pub fn is_active(&self) -> (r: bool)
        ensures
            r == (self.phase() is Active),
    {
        matches!(self.phase, WatchPhase::Active)
    }

    /// One complete log line arrived: an active watcher forwards it.
    pub fn on_line(&mut self, line: &str, bus: &mut Vec<NamedUpdate>)
        requires
            old(self).wf(),
            old(self).phase() is Active,
        ensures
            final(self).wf(),
            final(self).phase() is Active,
            final(self).name() == old(self).name(),
            final(self).history() == old(self).history() + seq![UpdateView::ContainerLog(line@)],
            bus_extended(
                old(bus)@,
                final(bus)@,
                old(self).name(),
                seq![UpdateView::ContainerLog(line@)],
            ),
    {
        let owned = line.to_owned();
        emit(bus, &self.container_name, Update::ContainerLog(owned));
        self.history = Ghost(self.history@ + seq![UpdateView::ContainerLog(line@)]);
    }

    /// Reading the stream failed mid-flight: emit the one failure, with the
    /// watcher's stage prefix before the caller's context, and die.
    pub fn fail_read(&mut self, context: &str, bus: &mut Vec<NamedUpdate>)
        requires
            old(self).wf(),
            old(self).phase() is Active,
        ensures
            final(self).wf(),
            final(self).phase() is Failed,
            final(self).name() == old(self).name(),
            final(self).history() == old(self).history() + seq![
                UpdateView::Error(
                    (MonitorErrorView::Operational { context: log_read_prefix() + context@ }),
                ),
            ],
            bus_extended(
                old(bus)@,
                final(bus)@,
                old(self).name(),
                seq![
                    UpdateView::Error(
                        (MonitorErrorView::Operational { context: log_read_prefix() + context@ }),
                    ),
                ],
            ),
    {
        let mut msg = String::from_str("Failed to read log line: ");
        msg.append(context);
        emit(
            bus,
            &self.container_name,
            Update::Error(MonitorError::Operational { context: msg }),
        );
        self.phase = WatchPhase::Failed;
        self.history = Ghost(
            self.history@ + seq![
                UpdateView::Error(
                    MonitorErrorView::Operational { context: log_read_prefix() + context@ },
                ),
            ],
        );
    }

    /// The log stream ended naturally: the watcher stops cleanly, with no
    /// further event.
    pub fn on_stream_end(&mut self)
        requires
            old(self).wf(),
            old(self).phase() is Active,
        ensures
            final(self).wf(),
            final(self).phase() is Stopped,
            final(self).name() == old(self).name(),
            final(self).history() == old(self).history(),
    {
        self.phase = WatchPhase::Stopped;
    }

    /// Feed a whole sequence of complete lines, in order: each line becomes
    /// exactly one log event, in source order, and the watcher stays active.
    pub fn feed_lines(&mut self, lines: &Vec<String>, bus: &mut Vec<NamedUpdate>)
        requires
            old(self).wf(),
            old(self).phase() is Active,
        ensures
            final(self).wf(),
            final(self).phase() is Active,
            final(self).name() == old(self).name(),
            final(self).history() == old(self).history() + log_emissions(str_views(lines@)),
            bus_extended(
                old(bus)@,
                final(bus)@,
                old(self).name(),
                log_emissions(str_views(lines@)),
            ),
    {
        let ghost ls = str_views(lines@);
        let n = lines.len();
        let mut i: usize = 0;
        proof {
            lemma_bus_extended_refl(bus@, self.name());
            assert(log_emissions(ls.take(0)) =~= Seq::<UpdateView>::empty());
            assert(self.history@ =~= self.history@ + Seq::<UpdateView>::empty());
        }
        while i < n
            invariant
                i <= n,
                n == lines.len(),
                ls == str_views(lines@),
                self.wf(),
                self.phase() is Active,
                self.name() == old(self).name(),
                self.history() == old(self).history() + log_emissions(ls.take(i as int)),
                bus_extended(
                    old(bus)@,
                    bus@,
                    old(self).name(),
                    log_emissions(ls.take(i as int)),
                ),
            decreases n - i,
        {
            let ghost pre_bus = bus@;
            self.on_line(lines[i].as_str(), bus);
            proof {
                lemma_bus_extended_trans(
                    old(bus)@,
                    pre_bus,
                    bus@,
                    old(self).name(),
                    log_emissions(ls.take(i as int)),
                    seq![UpdateView::ContainerLog(ls[i as int])],
                );
                assert(log_emissions(ls.take(i as int)) + seq![
                    UpdateView::ContainerLog(ls[i as int]),
                ] =~= log_emissions(ls.take(i as int + 1)));
                assert((old(self).history() + log_emissions(ls.take(i as int))) + seq![
                    UpdateView::ContainerLog(ls[i as int]),
                ] =~= old(self).history() + log_emissions(ls.take(i as int + 1)));
            }
            i = i + 1;
        }
        proof {
            assert(ls.take(n as int) =~= ls);
        }
    }
}

/// A failure terminates the watcher that produced it: in any well-formed
/// log watcher's history, a failure event can only stand last — no event of
/// this watcher ever follows one.
pub proof fn lemma_failure_is_terminal(w: LogWatcher, i: int)
    requires
        w.wf(),
        0 <= i < w.history().len(),
        w.history()[i] is Error,
    ensures
        i == w.history().len() - 1,
        w.phase() is Failed,
{
    let h = w.history();
    match w.phase() {
        WatchPhase::Created => {
            assert(false);
        },
        WatchPhase::Connecting => {
            assert(h[0] is Log);
            assert(false);
        },
        WatchPhase::Active | WatchPhase::Stopped => {
            assert(h[0] is Log && h[1] is Log);
            if 2 <= i {
                assert(h[i] is ContainerLog);
            }
            assert(false);
        },
        WatchPhase::Failed => {
            assert(h[0] is Log);
            if h.len() > 2 && i < h.len() - 1 {
                assert(h[1] is Log);
                if 2 <= i {
                    assert(h[i] is ContainerLog);
                }
                assert(false);
            }
        },
    }
}

/// A log watcher forwards every line as exactly one event, in source order:
/// the emissions for a feed are one log event per line, each carrying that
/// line's text.
pub proof fn lemma_log_lines_in_order(lines: Seq<Seq<char>>)
    ensures
        log_emissions(lines).len() == lines.len(),
        forall|i: int|
            0 <= i < lines.len() ==> log_emissions(lines)[i] == UpdateView::ContainerLog(lines[i]),
{
}

} // verus!
