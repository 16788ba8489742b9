//! The supervisor: it owns the per-container watcher set — one status
//! watcher and one log watcher per discovered container — and the fan-in of
//! all their events into the single shared bus.

use vstd::prelude::*;
use crate::logwatch::{log_emissions, msg_reading, msg_requesting, LogWatcher};
use crate::messages::{
    lemma_bus_extended_trans, str_views, tagged, views_of, NamedUpdate, NamedUpdateView,
    UpdateView,
};
use crate::status::{msg_connecting, msg_monitoring, status_run, StatusWatcher, WatchPhase};

verus! {

/// Everything one container's log watcher emits over a whole clean session:
/// the two diagnostics, then one log event per line, in source order.
pub open spec fn unit_log_session(lines: Seq<Seq<char>>) -> Seq<UpdateView> {
    seq![UpdateView::Log(msg_requesting()), UpdateView::Log(msg_reading())] + log_emissions(lines)
}

/// Everything one container's status watcher emits over a whole session:
/// the two diagnostics, then whatever its token feed makes it emit.
pub open spec fn unit_status_session(tokens: Seq<Seq<char>>) -> Seq<UpdateView> {
    seq![UpdateView::Log(msg_connecting()), UpdateView::Log(msg_monitoring())] + status_run(
        WatchPhase::Active,
        tokens,
    ).1
}

/// The bus content produced by fanning in one emission session per
/// container, in spawn order: each container's session, tagged with that
/// container's name, one after the other.
pub open spec fn fan_in_views(names: Seq<Seq<char>>, sessions: Seq<Seq<UpdateView>>) -> Seq<
    NamedUpdateView,
>
    decreases names.len(),
{
    if names.len() == 0 || sessions.len() == 0 {
        Seq::<NamedUpdateView>::empty()
    } else {
        tagged(names[0], sessions[0]) + fan_in_views(names.drop_first(), sessions.drop_first())
    }
}

/// The watcher set for a fixed fleet of containers: exactly one status
/// watcher and one log watcher per container, in the containers' order.
pub struct Supervisor {
    containers: Vec<String>,
    status_watchers: Vec<StatusWatcher>,
    log_watchers: Vec<LogWatcher>,
}

impl Supervisor {
    /// The names of the supervised containers, in order.
    pub closed spec fn names(self) -> Seq<Seq<char>> {
        str_views(self.containers@)
    }

    /// The status watchers, in container order.
    pub closed spec fn status_set(self) -> Seq<StatusWatcher> {
        self.status_watchers@
    }

    /// The log watchers, in container order.
    pub closed spec fn log_set(self) -> Seq<LogWatcher> {
        self.log_watchers@
    }

    /// One watcher of each kind per container, each well-formed and named
    /// after its container.
    pub open spec fn wf(self) -> bool {
        &&& self.status_set().len() == self.names().len()
        &&& self.log_set().len() == self.names().len()
        &&& forall|i: int|
            0 <= i < self.names().len() ==> (#[trigger] self.status_set()[i]).wf()
                && self.status_set()[i].name() == self.names()[i]
        &&& forall|i: int|
            0 <= i < self.names().len() ==> (#[trigger] self.log_set()[i]).wf()
                && self.log_set()[i].name() == self.names()[i]
    }

    /// How many containers are supervised.
    pub fn len(&self) -> (n: usize)
        ensures
            n == self.names().len(),
    {
        self.containers.len()
    }

    /// The name of the container at one position.
    pub fn container_at(&self, i: usize) -> (name: &String)
        requires
            i < self.names().len(),
        ensures
            name@ == self.names()[i as int],
    {
        &self.containers[i]
    }
}

/// Set up the watcher fleet for a list of containers: exactly two watchers
/// per container — one status watcher and one log watcher — every one
/// freshly created and named after its container, none having emitted
/// anything yet.
pub fn start_backend(containers: Vec<String>) -> (s: Supervisor)
    ensures
        s.wf(),
        s.names() == str_views(containers@),
        forall|i: int|
            0 <= i < s.names().len() ==> (#[trigger] s.status_set()[i]).phase() is Created
                && s.status_set()[i].history() == Seq::<UpdateView>::empty(),
        forall|i: int|
            0 <= i < s.names().len() ==> (#[trigger] s.log_set()[i]).phase() is Created
                && s.log_set()[i].history() == Seq::<UpdateView>::empty(),
{
    let n = containers.len();
    let mut status_watchers: Vec<StatusWatcher> = Vec::new();
    let mut log_watchers: Vec<LogWatcher> = Vec::new();
    let mut i: usize = 0;
    while i < n
        invariant
            i <= n,
            n == containers.len(),
            status_watchers@.len() == i,
            log_watchers@.len() == i,
            forall|j: int|
                0 <= j < i as int ==> (#[trigger] status_watchers@[j]).wf()
                    && status_watchers@[j].name() == containers@[j]@
                    && status_watchers@[j].phase() is Created && status_watchers@[j].history()
                    == Seq::<UpdateView>::empty(),
            forall|j: int|
                0 <= j < i as int ==> (#[trigger] log_watchers@[j]).wf() && log_watchers@[j].name()
                    == containers@[j]@ && log_watchers@[j].phase() is Created
                    && log_watchers@[j].history() == Seq::<UpdateView>::empty(),
        decreases n - i,
    {
        let name = containers[i].clone();
        status_watchers.push(StatusWatcher::new(name));
        let name2 = containers[i].clone();
        log_watchers.push(LogWatcher::new(name2));
        i = i + 1;
    }
    Supervisor { containers, status_watchers, log_watchers }
}

/// Fan-in of log events: run one whole clean log session per container into
/// the one shared bus — spawn a log watcher per container, in order, and
/// feed it its lines. The bus gains every container's events, each tagged
/// with its container, with each producer's emission order preserved.
pub fn fan_in_logs(containers: &Vec<String>, feeds: &Vec<Vec<String>>, bus: &mut Vec<NamedUpdate>)
    -> (ws: Vec<LogWatcher>)
    requires
        containers@.len() == feeds@.len(),
    ensures
        ws@.len() == containers@.len(),
        forall|i: int|
            0 <= i < ws@.len() ==> (#[trigger] ws@[i]).wf() && ws@[i].phase() is Active
                && ws@[i].name() == containers@[i]@ && ws@[i].history() == unit_log_session(
                str_views(feeds@[i]@),
            ),
        views_of(final(bus)@) == views_of(old(bus)@) + fan_in_views(
            str_views(containers@),
            feeds@.map_values(|f: Vec<String>| unit_log_session(str_views(f@))),
        ),
{
    let ghost names = str_views(containers@);
    let ghost sessions = feeds@.map_values(|f: Vec<String>| unit_log_session(str_views(f@)));
    let n = containers.len();
    let mut ws: Vec<LogWatcher> = Vec::new();
    let mut i: usize = 0;
    proof {
        assert(fan_in_views(names.take(0), sessions.take(0)) =~= Seq::<NamedUpdateView>::empty());
        assert(views_of(bus@) + fan_in_views(names.take(0), sessions.take(0)) =~= views_of(bus@));
    }
    while i < n
        invariant
            i <= n,
            n == containers@.len(),
            containers@.len() == feeds@.len(),
            names == str_views(containers@),
            sessions == feeds@.map_values(|f: Vec<String>| unit_log_session(str_views(f@))),
            ws@.len() == i,
            forall|j: int|
                0 <= j < i as int ==> (#[trigger] ws@[j]).wf() && ws@[j].phase() is Active
                    && ws@[j].name() == containers@[j]@ && ws@[j].history() == unit_log_session(
                    str_views(feeds@[j]@),
                ),
            views_of(bus@) == views_of(old(bus)@) + fan_in_views(
                names.take(i as int),
                sessions.take(i as int),
            ),
        decreases n - i,
    {
        let ghost pre = bus@;
        let mut w = LogWatcher::new(containers[i].clone());
        w.begin(bus);
        let ghost bus1 = bus@;
        w.on_started(bus);
        let ghost bus2 = bus@;
        w.feed_lines(&feeds[i], bus);
        proof {
            let session = sessions[i as int];
            assert(session == unit_log_session(str_views(feeds@[i as int]@)));
            lemma_bus_extended_trans(
                pre,
                bus1,
                bus2,
                names[i as int],
                seq![UpdateView::Log(msg_requesting())],
                seq![UpdateView::Log(msg_reading())],
            );
            lemma_bus_extended_trans(
                pre,
                bus2,
                bus@,
                names[i as int],
                seq![UpdateView::Log(msg_requesting())] + seq![UpdateView::Log(msg_reading())],
                log_emissions(str_views(feeds@[i as int]@)),
            );
            assert((seq![UpdateView::Log(msg_requesting())] + seq![
                UpdateView::Log(msg_reading()),
            ]) + log_emissions(str_views(feeds@[i as int]@)) =~= session);
            assert(w.history() =~= session);
            lemma_fan_in_snoc(
                names.take(i as int),
                sessions.take(i as int),
                names[i as int],
                session,
            );
            assert(names.take(i as int).push(names[i as int]) =~= names.take(i as int + 1));
            assert(sessions.take(i as int).push(session) =~= sessions.take(i as int + 1));
            assert((views_of(old(bus)@) + fan_in_views(
                names.take(i as int),
                sessions.take(i as int),
            )) + tagged(names[i as int], session) =~= views_of(old(bus)@) + (fan_in_views(
                names.take(i as int),
                sessions.take(i as int),
            ) + tagged(names[i as int], session)));
        }
        ws.push(w);
        i = i + 1;
    }
    proof {
        assert(names.take(n as int) =~= names);
        assert(sessions.take(n as int) =~= sessions);
    }
    ws
}

/// Fan-in of status events: run one whole status session per container into
/// the one shared bus — spawn a status watcher per container, in order, and
/// feed it its raw tokens. Each watcher ends in the phase its own feed
/// drives it to; the bus gains every container's events, each tagged with
/// its container, with each producer's emission order preserved.
pub fn fan_in_status(
    containers: &Vec<String>,
    feeds: &Vec<Vec<String>>,
    bus: &mut Vec<NamedUpdate>,
) -> (ws: Vec<StatusWatcher>)
    requires
        containers@.len() == feeds@.len(),
    ensures
        ws@.len() == containers@.len(),
        forall|i: int|
            0 <= i < ws@.len() ==> (#[trigger] ws@[i]).wf() && ws@[i].phase() == status_run(
                WatchPhase::Active,
                str_views(feeds@[i]@),
            ).0 && ws@[i].name() == containers@[i]@ && ws@[i].history() == unit_status_session(
                str_views(feeds@[i]@),
            ),
        views_of(final(bus)@) == views_of(old(bus)@) + fan_in_views(
            str_views(containers@),
            feeds@.map_values(|f: Vec<String>| unit_status_session(str_views(f@))),
        ),
{
    let ghost names = str_views(containers@);
    let ghost sessions = feeds@.map_values(|f: Vec<String>| unit_status_session(str_views(f@)));
    let n = containers.len();
    let mut ws: Vec<StatusWatcher> = Vec::new();
    let mut i: usize = 0;
    proof {
        assert(fan_in_views(names.take(0), sessions.take(0)) =~= Seq::<NamedUpdateView>::empty());
        assert(views_of(bus@) + fan_in_views(names.take(0), sessions.take(0)) =~= views_of(bus@));
    }
    while i < n
        invariant
            i <= n,
            n == containers@.len(),
            containers@.len() == feeds@.len(),
            names == str_views(containers@),
            sessions == feeds@.map_values(|f: Vec<String>| unit_status_session(str_views(f@))),
            ws@.len() == i,
            forall|j: int|
                0 <= j < i as int ==> (#[trigger] ws@[j]).wf() && ws@[j].phase() == status_run(
                    WatchPhase::Active,
                    str_views(feeds@[j]@),
                ).0 && ws@[j].name() == containers@[j]@ && ws@[j].history()
                    == unit_status_session(str_views(feeds@[j]@)),
            views_of(bus@) == views_of(old(bus)@) + fan_in_views(
                names.take(i as int),
                sessions.take(i as int),
            ),
        decreases n - i,
    {
        let ghost pre = bus@;
        let mut w = StatusWatcher::new(containers[i].clone());
        w.begin(bus);
        let ghost bus1 = bus@;
        w.on_connected(bus);
        let ghost bus2 = bus@;
        w.feed_tokens(&feeds[i], bus);
        proof {
            let session = sessions[i as int];
            assert(session == unit_status_session(str_views(feeds@[i as int]@)));
            lemma_bus_extended_trans(
                pre,
                bus1,
                bus2,
                names[i as int],
                seq![UpdateView::Log(msg_connecting())],
                seq![UpdateView::Log(msg_monitoring())],
            );
            lemma_bus_extended_trans(
                pre,
                bus2,
                bus@,
                names[i as int],
                seq![UpdateView::Log(msg_connecting())] + seq![UpdateView::Log(msg_monitoring())],
                status_run(WatchPhase::Active, str_views(feeds@[i as int]@)).1,
            );
            assert((seq![UpdateView::Log(msg_connecting())] + seq![
                UpdateView::Log(msg_monitoring()),
            ]) + status_run(WatchPhase::Active, str_views(feeds@[i as int]@)).1 =~= session);
            assert(w.history() =~= session);
            lemma_fan_in_snoc(
                names.take(i as int),
                sessions.take(i as int),
                names[i as int],
                session,
            );
            assert(names.take(i as int).push(names[i as int]) =~= names.take(i as int + 1));
            assert(sessions.take(i as int).push(session) =~= sessions.take(i as int + 1));
            assert((views_of(old(bus)@) + fan_in_views(
                names.take(i as int),
                sessions.take(i as int),
            )) + tagged(names[i as int], session) =~= views_of(old(bus)@) + (fan_in_views(
                names.take(i as int),
                sessions.take(i as int),
            ) + tagged(names[i as int], session)));
        }
        ws.push(w);
        i = i + 1;
    }
    proof {
        assert(names.take(n as int) =~= names);
        assert(sessions.take(n as int) =~= sessions);
    }
    ws
}

/// A fan-in over `names.push(n1)` is the fan-in over `names` followed by the
/// one extra container's tagged session.
pub proof fn lemma_fan_in_snoc(
    names: Seq<Seq<char>>,
    sessions: Seq<Seq<UpdateView>>,
    n1: Seq<char>,
    s1: Seq<UpdateView>,
)
    requires
        names.len() == sessions.len(),
    ensures
        fan_in_views(names.push(n1), sessions.push(s1)) == fan_in_views(names, sessions) + tagged(
            n1,
            s1,
        ),
    decreases names.len(),
{
    if names.len() == 0 {
        reveal_with_fuel(fan_in_views, 2);
        assert(names.push(n1)[0] == n1);
        assert(sessions.push(s1)[0] == s1);
        assert(names.push(n1).drop_first() =~= Seq::<Seq<char>>::empty());
        assert(sessions.push(s1).drop_first() =~= Seq::<Seq<UpdateView>>::empty());
        assert(fan_in_views(names.push(n1), sessions.push(s1)) =~= tagged(n1, s1));
        assert(fan_in_views(names, sessions) + tagged(n1, s1) =~= tagged(n1, s1));
    } else {
        assert(names.push(n1)[0] == names[0]);
        assert(sessions.push(s1)[0] == sessions[0]);
        assert(names.push(n1).drop_first() =~= names.drop_first().push(n1));
        assert(sessions.push(s1).drop_first() =~= sessions.drop_first().push(s1));
        lemma_fan_in_snoc(names.drop_first(), sessions.drop_first(), n1, s1);
        assert(tagged(names[0], sessions[0]) + (fan_in_views(
            names.drop_first(),
            sessions.drop_first(),
        ) + tagged(n1, s1)) =~= (tagged(names[0], sessions[0]) + fan_in_views(
            names.drop_first(),
            sessions.drop_first(),
        )) + tagged(n1, s1));
    }
}

/// Bus fan-in: fanning in a session of `m` events for each of `n` containers
/// yields exactly `n * m` events on the bus, and every one of them is tagged
/// with the name of one of the `n` containers.
pub proof fn lemma_bus_fan_in(names: Seq<Seq<char>>, sessions: Seq<Seq<UpdateView>>, m: nat)
    requires
        names.len() == sessions.len(),
        forall|i: int| 0 <= i < sessions.len() ==> (#[trigger] sessions[i]).len() == m,
    ensures
        fan_in_views(names, sessions).len() == names.len() * m,
        forall|k: int|
            0 <= k < fan_in_views(names, sessions).len() ==> exists|i: int|
                0 <= i < names.len() && (#[trigger] fan_in_views(names, sessions)[k]).container_name
                    == names[i],
    decreases names.len(),
{
    if names.len() == 0 {
    } else {
        let first = tagged(names[0], sessions[0]);
        let rest = fan_in_views(names.drop_first(), sessions.drop_first());
        assert(sessions.drop_first().len() == sessions.len() - 1);
        assert(forall|i: int|
            0 <= i < sessions.drop_first().len() ==> (#[trigger] sessions.drop_first()[i]).len()
                == m);
        lemma_bus_fan_in(names.drop_first(), sessions.drop_first(), m);
        assert(first.len() == m);
        assert(names.len() * m == m + (names.len() - 1) * m) by (nonlinear_arith);
        assert forall|k: int| 0 <= k < fan_in_views(names, sessions).len() implies exists|i: int|
            0 <= i < names.len() && (#[trigger] fan_in_views(names, sessions)[k]).container_name
                == names[i] by {
            if k < first.len() {
                assert(fan_in_views(names, sessions)[k] == first[k]);
                assert(fan_in_views(names, sessions)[k].container_name == names[0]);
            } else {
                assert(fan_in_views(names, sessions)[k] == rest[k - first.len()]);
                let i0 = choose|i: int|
                    0 <= i < names.drop_first().len() && rest[k - first.len()].container_name
                        == names.drop_first()[i];
                assert(names.drop_first()[i0] == names[i0 + 1]);
                assert(0 <= i0 + 1 < names.len() && fan_in_views(names, sessions)[k].container_name
                    == names[i0 + 1]);
            }
        }
    }
}

} // verus!
