//! Events exchanged between the monitoring core and its consumer, and the
//! codec that turns external lifecycle-state tokens into container states.

use vstd::prelude::*;
use crate::text::str_eq;

verus! {

/// The lifecycle state of a container service.
#[derive(Debug, Clone, Copy, PartialEq, Eq, Structural)]
pub enum ContainerState {
    Up,
    Down,
    Starting,
    Stopping,
    Reloading,
    Refreshing,
    Failed,
    Maintenance,
}

/// An unrecognized lifecycle-state token, carried verbatim.
#[derive(Debug)]
pub struct DecodeError {
    /// The token that was not recognized.
    pub token: String,
}

/// A failure reported by a watcher or executor, by failure class.
#[derive(Debug)]
pub enum MonitorError {
    /// A connection, subscription or process could not be established.
    Setup { context: String },
    /// A previously working stream errored mid-flight.
    Operational { context: String },
    /// An external lifecycle-state token was not recognized.
    Decode { token: String },
    /// A start/stop directive was rejected by the external system.
    Command { context: String },
}

/// An update message from the monitoring core.
#[derive(Debug)]
pub enum Update {
    /// Log messages from the monitor itself (not the container service).
    Log(String),
    /// Errors from the monitor (not the container service).
    Error(MonitorError),
    /// State of the container service.
    State(ContainerState),
    /// Log message from the container service.
    ContainerLog(String),
}

/// An update associated with the name of the container it concerns.
#[derive(Debug)]
pub struct NamedUpdate {
    /// The name of the associated container.
    pub container_name: String,
    /// The update from that container.
    pub inner: Update,
}

/// Mathematical image of a `MonitorError`.
pub enum MonitorErrorView {
    Setup { context: Seq<char> },
    Operational { context: Seq<char> },
    Decode { token: Seq<char> },
    Command { context: Seq<char> },
}

/// Mathematical image of an `Update`.
pub enum UpdateView {
    Log(Seq<char>),
    Error(MonitorErrorView),
    State(ContainerState),
    ContainerLog(Seq<char>),
}

/// Mathematical image of a `NamedUpdate`.
pub struct NamedUpdateView {
    pub container_name: Seq<char>,
    pub inner: UpdateView,
}

impl MonitorError {
    /// The human-readable description of this failure.
    pub open spec fn describe_spec(self) -> Seq<char> {
        match self {
            MonitorError::Setup { context } => context@,
            MonitorError::Operational { context } => context@,
            MonitorError::Decode { token } => "Unrecognized unit status "@ + token@,
            MonitorError::Command { context } => context@,
        }
    }

    /// Describe this failure for an operator, context chain first.
    pub fn describe(&self) -> (r: String)
        ensures
            r@ == self.describe_spec(),
    {
        match self {
            MonitorError::Setup { context } => context.clone(),
            MonitorError::Operational { context } => context.clone(),
            MonitorError::Decode { token } => {
                let mut msg = String::from_str("Unrecognized unit status ");
                msg.append(token.as_str());
                msg
            },
            MonitorError::Command { context } => context.clone(),
        }
    }
}

impl View for MonitorError {
    type V = MonitorErrorView;

    open spec fn view(&self) -> MonitorErrorView {
        match self {
            MonitorError::Setup { context } => MonitorErrorView::Setup { context: context@ },
            MonitorError::Operational { context } => MonitorErrorView::Operational {
                context: context@,
            },
            MonitorError::Decode { token } => MonitorErrorView::Decode { token: token@ },
            MonitorError::Command { context } => MonitorErrorView::Command { context: context@ },
        }
    }
}

impl View for Update {
    type V = UpdateView;

    open spec fn view(&self) -> UpdateView {
        match self {
            Update::Log(s) => UpdateView::Log(s@),
            Update::Error(e) => UpdateView::Error(e@),
            Update::State(st) => UpdateView::State(*st),
            Update::ContainerLog(s) => UpdateView::ContainerLog(s@),
        }
    }
}

impl View for NamedUpdate {
    type V = NamedUpdateView;

    open spec fn view(&self) -> NamedUpdateView {
        NamedUpdateView { container_name: self.container_name@, inner: self.inner@ }
    }
}

/// The views of a sequence of named updates.
pub open spec fn views_of(s: Seq<NamedUpdate>) -> Seq<NamedUpdateView> {
    s.map_values(|u: NamedUpdate| u@)
}

/// Tag each update with the name of the container it came from.
pub open spec fn tagged(name: Seq<char>, us: Seq<UpdateView>) -> Seq<NamedUpdateView> {
    us.map_values(|u: UpdateView| NamedUpdateView { container_name: name, inner: u })
}

/// The views of a sequence of strings.
pub open spec fn str_views(s: Seq<String>) -> Seq<Seq<char>> {
    s.map_values(|x: String| x@)
}

/// The bus after a step extends the bus before it by the given emissions,
/// each tagged with the emitting container's name.
pub open spec fn bus_extended(
    pre: Seq<NamedUpdate>,
    post: Seq<NamedUpdate>,
    name: Seq<char>,
    emitted: Seq<UpdateView>,
) -> bool {
    &&& post.len() == pre.len() + emitted.len()
    &&& views_of(post) == views_of(pre) + tagged(name, emitted)
}

/// Pushing one update extends the views by that update's view.
pub proof fn lemma_views_of_push(s: Seq<NamedUpdate>, u: NamedUpdate)
    ensures
        views_of(s.push(u)) == views_of(s).push(u@),
{
    assert(views_of(s.push(u)) =~= views_of(s).push(u@));
}

/// Tagging distributes over concatenation.
pub proof fn lemma_tagged_concat(name: Seq<char>, a: Seq<UpdateView>, b: Seq<UpdateView>)
    ensures
        tagged(name, a + b) == tagged(name, a) + tagged(name, b),
{
    assert(tagged(name, a + b) =~= tagged(name, a) + tagged(name, b));
}

/// Tagging a single emission yields the single tagged update.
pub proof fn lemma_tagged_one(name: Seq<char>, u: UpdateView)
    ensures
        tagged(name, seq![u]) == seq![NamedUpdateView { container_name: name, inner: u }],
{
    assert(tagged(name, seq![u]) =~= seq![NamedUpdateView { container_name: name, inner: u }]);
}

/// An unchanged bus is an extension by no emissions.
pub proof fn lemma_bus_extended_refl(pre: Seq<NamedUpdate>, name: Seq<char>)
    ensures
        bus_extended(pre, pre, name, Seq::<UpdateView>::empty()),
{
    assert(views_of(pre) + tagged(name, Seq::<UpdateView>::empty()) =~= views_of(pre));
}

/// Two successive bus extensions compose into one.
pub proof fn lemma_bus_extended_trans(
    pre: Seq<NamedUpdate>,
    mid: Seq<NamedUpdate>,
    post: Seq<NamedUpdate>,
    name: Seq<char>,
    e1: Seq<UpdateView>,
    e2: Seq<UpdateView>,
)
    requires
        bus_extended(pre, mid, name, e1),
        bus_extended(mid, post, name, e2),
    ensures
        bus_extended(pre, post, name, e1 + e2),
{
    lemma_tagged_concat(name, e1, e2);
    assert((views_of(pre) + tagged(name, e1)) + tagged(name, e2) =~= views_of(pre) + (tagged(
        name,
        e1,
    ) + tagged(name, e2)));
}

/// The exact, case-sensitive decode table for lifecycle-state tokens.
/// Unlisted tokens decode to nothing.
pub open spec fn decode_spec(s: Seq<char>) -> Option<ContainerState> {
    if s == "active"@ {
        Some(ContainerState::Up)
    } else if s == "inactive"@ {
        Some(ContainerState::Down)
    } else if s == "failed"@ {
        Some(ContainerState::Failed)
    } else if s == "activating"@ {
        Some(ContainerState::Starting)
    } else if s == "deactivating"@ {
        Some(ContainerState::Stopping)
    } else if s == "maintenance"@ {
        Some(ContainerState::Maintenance)
    } else if s == "reloading"@ {
        Some(ContainerState::Reloading)
    } else if s == "refreshing"@ {
        Some(ContainerState::Refreshing)
    } else {
        None
    }
}

impl ContainerState {
    /// Parse a state from a lifecycle-state token, exactly as the decode
    /// table maps it; any other token fails closed, naming the token.
    pub fn from_systemd(state: &str) -> (r: Result<Self, DecodeError>)
        ensures
            match decode_spec(state@) {
                Some(st) => r is Ok && r->Ok_0 == st,
                None => r is Err && r->Err_0.token@ == state@,
            },
    {
        if str_eq(state, "active") {
            Ok(ContainerState::Up)
        } else if str_eq(state, "inactive") {
            Ok(ContainerState::Down)
        } else if str_eq(state, "failed") {
            Ok(ContainerState::Failed)
        } else if str_eq(state, "activating") {
            Ok(ContainerState::Starting)
        } else if str_eq(state, "deactivating") {
            Ok(ContainerState::Stopping)
        } else if str_eq(state, "maintenance") {
            Ok(ContainerState::Maintenance)
        } else if str_eq(state, "reloading") {
            Ok(ContainerState::Reloading)
        } else if str_eq(state, "refreshing") {
            Ok(ContainerState::Refreshing)
        } else {
            Err(DecodeError { token: state.to_owned() })
        }
    }
}

} // verus!
