//! The one-shot command executor: it issues one start/stop directive against
//! a named container and reports exactly one terminal outcome.

use vstd::prelude::*;
use crate::messages::{
    bus_extended, lemma_bus_extended_trans, MonitorError, MonitorErrorView, NamedUpdate, Update,
    UpdateView,
};
use crate::status::emit;

verus! {

/// An imperative directive issued against a container.
#[derive(Debug, Clone, Copy, PartialEq, Eq, Structural)]
pub enum Directive {
    Start,
    Stop,
}

/// The lifecycle of one executor instance: created, directive issued, then
/// exactly one of done or failed, both terminal.
#[derive(Debug, Clone, Copy, PartialEq, Eq, Structural)]
pub enum CommandPhase {
    Created,
    Issued,
    Done,
    Failed,
}

/// The diagnostic emitted when the directive is issued.
pub open spec fn msg_issuing(d: Directive) -> Seq<char> {
    match d {
        Directive::Start => "Issuing start command"@,
        Directive::Stop => "Issuing stop command"@,
    }
}

/// The final diagnostic emitted when the directive was accepted.
pub open spec fn msg_progress(d: Directive) -> Seq<char> {
    match d {
        Directive::Start => "Starting"@,
        Directive::Stop => "Stopping"@,
    }
}

/// The context prefix an executor puts before a rejected directive's context.
pub open spec fn command_fail_prefix(d: Directive) -> Seq<char> {
    match d {
        Directive::Start => "Failed to start container: "@,
        Directive::Stop => "Failed to stop container: "@,
    }
}

/// The view of an external command outcome: accepted, or rejected with a
/// context describing the rejection.
pub open spec fn outcome_view(outcome: Result<(), String>) -> Result<(), Seq<char>> {
    match outcome {
        Ok(_) => Ok(()),
        Err(c) => Err(c@),
    }
}

/// Everything a complete executor run emits: the issuing diagnostic, then
/// exactly one terminal event — the progress diagnostic if the directive was
/// accepted, one failure if it was rejected. Never zero, never two.
pub open spec fn command_emissions(d: Directive, outcome: Result<(), Seq<char>>) -> Seq<
    UpdateView,
> {
    match outcome {
        Ok(_) => seq![UpdateView::Log(msg_issuing(d)), UpdateView::Log(msg_progress(d))],
        Err(c) => seq![
            UpdateView::Log(msg_issuing(d)),
            UpdateView::Error((MonitorErrorView::Command { context: command_fail_prefix(d) + c })),
        ],
    }
}

/// A terminal outcome event of an executor run: a failure, or the final
/// progress diagnostic.
pub open spec fn command_terminal(d: Directive, u: UpdateView) -> bool {
    u is Error || u == UpdateView::Log(msg_progress(d))
}

/// One short-lived executor of one directive against one container.
pub struct CommandExecutor {
    container_name: String,
    directive: Directive,
    phase: CommandPhase,
    history: Ghost<Seq<UpdateView>>,
}

impl CommandExecutor {
    /// The name of the container the directive concerns.
    pub closed spec fn name(self) -> Seq<char> {
        self.container_name@
    }

    /// The directive this executor issues.
    pub closed spec fn directive(self) -> Directive {
        self.directive
    }

    /// The phase this executor is in.
    pub closed spec fn phase(self) -> CommandPhase {
        self.phase
    }

    /// Every event this instance has ever emitted, in emission order.
    pub closed spec fn history(self) -> Seq<UpdateView> {
        self.history@
    }

    /// The shape an emission history has in each phase.
    pub open spec fn history_wf(h: Seq<UpdateView>, d: Directive, p: CommandPhase) -> bool {
        match p {
            CommandPhase::Created => h.len() == 0,
            CommandPhase::Issued => h.len() == 1 && h[0] == UpdateView::Log(msg_issuing(d)),
            CommandPhase::Done => h.len() == 2 && h[0] == UpdateView::Log(msg_issuing(d)) && h[1]
                == UpdateView::Log(msg_progress(d)),
            CommandPhase::Failed => h.len() == 2 && h[0] == UpdateView::Log(msg_issuing(d))
                && h[1] is Error,
        }
    }

    /// A well-formed executor's history matches its phase.
    pub open spec fn wf(self) -> bool {
        Self::history_wf(self.history(), self.directive(), self.phase())
    }

    /// Create an executor for one directive against one container.
    pub fn new(container_name: String, directive: Directive) -> (e: Self)
        ensures
            e.wf(),
            e.phase() is Created,
            e.name() == container_name@,
            e.directive() == directive,
            e.history() == Seq::<UpdateView>::empty(),
    {
        CommandExecutor {
            container_name,
            directive,
            phase: CommandPhase::Created,
            history: Ghost(Seq::empty()),
        }
    }

    /// Announce that the directive is being issued.
    pub fn begin(&mut self, bus: &mut Vec<NamedUpdate>)
        requires
            old(self).wf(),
            old(self).phase() is Created,
        ensures
            final(self).wf(),
            final(self).phase() is Issued,
            final(self).name() == old(self).name(),
            final(self).directive() == old(self).directive(),
            final(self).history() == old(self).history() + seq![
                UpdateView::Log(msg_issuing(old(self).directive())),
            ],
            bus_extended(
                old(bus)@,
                final(bus)@,
                old(self).name(),
                seq![UpdateView::Log(msg_issuing(old(self).directive()))],
            ),
    {
        let msg = match self.directive {
            Directive::Start => String::from_str("Issuing start command"),
            Directive::Stop => String::from_str("Issuing stop command"),
        };
        emit(bus, &self.container_name, Update::Log(msg));
        self.phase = CommandPhase::Issued;
        self.history = Ghost(self.history@ + seq![UpdateView::Log(msg_issuing(self.directive))]);
        proof {
            assert(self.history@ =~= seq![UpdateView::Log(msg_issuing(self.directive))]);
        }
    }

    /// Record the external system's answer: exactly one terminal event — the
    /// progress diagnostic on acceptance, one failure on rejection.
    pub fn finish(&mut self, outcome: Result<(), String>, bus: &mut Vec<NamedUpdate>)
        requires
            old(self).wf(),
            old(self).phase() is Issued,
        ensures
            final(self).wf(),
            final(self).name() == old(self).name(),
            final(self).directive() == old(self).directive(),
            final(self).phase() == (if outcome is Ok {
                CommandPhase::Done
            } else {
                CommandPhase::Failed
            }),
            final(self).history() == command_emissions(
                old(self).directive(),
                outcome_view(outcome),
            ),
            bus_extended(
                old(bus)@,
                final(bus)@,
                old(self).name(),
                command_emissions(old(self).directive(), outcome_view(outcome)).skip(1),
            ),
    {
        let ghost d = self.directive;
        match outcome {
            Ok(_) => {
                let msg = match self.directive {
                    Directive::Start => String::from_str("Starting"),
                    Directive::Stop => String::from_str("Stopping"),
                };
                emit(bus, &self.container_name, Update::Log(msg));
                self.phase = CommandPhase::Done;
                self.history = Ghost(self.history@ + seq![UpdateView::Log(msg_progress(d))]);
                proof {
                    assert(self.history@ =~= command_emissions(d, outcome_view(outcome)));
                    assert(seq![UpdateView::Log(msg_progress(d))] =~= command_emissions(
                        d,
                        outcome_view(outcome),
                    ).skip(1));
                }
            },
            Err(context) => {
                let mut msg = match self.directive {
                    Directive::Start => String::from_str("Failed to start container: "),
                    Directive::Stop => String::from_str("Failed to stop container: "),
                };
                msg.append(context.as_str());
                emit(
                    bus,
                    &self.container_name,
                    Update::Error(MonitorError::Command { context: msg }),
                );
                self.phase = CommandPhase::Failed;
                self.history = Ghost(
                    self.history@ + seq![
                        UpdateView::Error(
                            MonitorErrorView::Command {
                                context: command_fail_prefix(d) + context@,
                            },
                        ),
                    ],
                );
                proof {
                    assert(self.history@ =~= command_emissions(d, outcome_view(outcome)));
                    assert(seq![
                        UpdateView::Error(
                            MonitorErrorView::Command {
                                context: command_fail_prefix(d) + context@,
                            },
                        ),
                    ] =~= command_emissions(d, outcome_view(outcome)).skip(1));
                }
            },
        }
    }
}

/// Run one whole command: issue the directive's diagnostic, then record the
/// external outcome as exactly one terminal event.
pub fn run_command(
    container_name: String,
    directive: Directive,
    outcome: Result<(), String>,
    bus: &mut Vec<NamedUpdate>,
) -> (e: CommandExecutor)
    ensures
        e.wf(),
        e.name() == container_name@,
        e.directive() == directive,
        e.phase() == (if outcome is Ok {
            CommandPhase::Done
        } else {
            CommandPhase::Failed
        }),
        e.history() == command_emissions(directive, outcome_view(outcome)),
        bus_extended(
            old(bus)@,
            final(bus)@,
            container_name@,
            command_emissions(directive, outcome_view(outcome)),
        ),
{
    let ghost name = container_name@;
    let mut e = CommandExecutor::new(container_name, directive);
    let ghost pre = bus@;
    e.begin(bus);
    let ghost mid = bus@;
    e.finish(outcome, bus);
    proof {
        let emitted = command_emissions(directive, outcome_view(outcome));
        lemma_bus_extended_trans(
            pre,
            mid,
            bus@,
            name,
            seq![UpdateView::Log(msg_issuing(directive))],
            emitted.skip(1),
        );
        assert(seq![UpdateView::Log(msg_issuing(directive))] + emitted.skip(1) =~= emitted);
        assert(e.history() =~= emitted);
    }
    e
}

/// Exactly one terminal outcome per executor run: of the two events a
/// complete run emits, the first is the non-terminal issuing diagnostic and
/// the second is the only terminal one — never zero terminals, never two.
pub proof fn lemma_command_single_terminal(d: Directive, outcome: Result<(), Seq<char>>)
    ensures
        command_emissions(d, outcome).len() == 2,
        !command_terminal(d, command_emissions(d, outcome)[0]),
        command_terminal(d, command_emissions(d, outcome)[1]),
{
    match d {
        Directive::Start => {
            reveal_strlit("Issuing start command");
            reveal_strlit("Starting");
            assert(msg_issuing(d).len() != msg_progress(d).len());
        },
        Directive::Stop => {
            reveal_strlit("Issuing stop command");
            reveal_strlit("Stopping");
            assert(msg_issuing(d).len() != msg_progress(d).len());
        },
    }
}

} // verus!
