//! The per-tick context: a short-lived aggregate of the interaction
//! snapshot, the current dirty flags, and the outgoing command queue
//! the driver drains after each phase. Never retained across ticks.

use vstd::prelude::*;

use crate::update::Update;

verus! {

/// The driver's scheduling policy the core may propose.
#[derive(Clone, Copy, Debug, PartialEq, Eq, Structural)]
pub enum ControlFlowPolicy {
    /// Tick continuously.
    Poll,
    /// Sleep until the next event.
    Wait,
}

/// An outgoing command for the driver: the core only proposes; the
/// driver owns the event loop and acts on these after each phase.
#[derive(Clone, Copy, Debug, PartialEq, Eq, Structural)]
pub enum Command {
    /// Terminate the application.
    Exit,
    /// Adjust the driver's idle/poll scheduling policy.
    SetControlFlow(ControlFlowPolicy),
}

/// The interaction snapshot one tick sees: where the pointer is (or
/// that there is none), whether the primary button was pressed this
/// tick, and which keys went down this tick.
#[derive(Clone, Debug)]
pub struct InteractionInfo {
    /// The pointer position in logical pixels, if a pointer is present.
    pub cursor: Option<(i64, i64)>,
    /// Whether the primary pointer button was pressed this tick.
    pub clicked: bool,
    /// The key codes that went down this tick, in arrival order.
    pub keys: Vec<u32>,
}

impl InteractionInfo {
    /// A snapshot with no pointer, no press and no keys: an idle tick.
    pub fn idle() -> (r: InteractionInfo)
        ensures
            r.cursor is None,
            !r.clicked,
            r.keys@ == Seq::<u32>::empty(),
    {
        let r = InteractionInfo { cursor: None, clicked: false, keys: Vec::new() };
        proof {
            assert(r.keys@ =~= Seq::<u32>::empty());
        }
        r
    }
}

/// The per-tick context handed through the widget tree: interaction
/// snapshot, the dirty flags the tick started with, and the command
/// queue. Created at a phase's start, drained and dropped at its end.
pub struct Context {
    /// The interaction snapshot for this tick.
    pub info: InteractionInfo,
    /// The dirty flags the tick started with.
    pub update: Update,
    /// The outgoing command queue, drained by the driver.
    pub commands: Vec<Command>,
}

impl Context {
    /// The commands queued so far, in order.
    pub open spec fn spec_commands(&self) -> Seq<Command> {
        self.commands@
    }

    /// A fresh context for one phase: no commands queued yet.
    pub fn new(info: InteractionInfo, update: Update) -> (r: Context)
        ensures
            r.info == info,
            r.update == update,
            r.spec_commands() == Seq::<Command>::empty(),
    {
        let r = Context { info, update, commands: Vec::new() };
        proof {
            assert(r.spec_commands() =~= Seq::<Command>::empty());
        }
        r
    }

    /// Propose terminating the application.
    pub fn exit(&mut self)
        ensures
            final(self).spec_commands() == old(self).spec_commands().push(Command::Exit),
            final(self).info == old(self).info,
            final(self).update == old(self).update,
    {
        self.commands.push(Command::Exit);
    }

    /// Propose a scheduling policy to the driver.
    pub fn set_control_flow(&mut self, policy: ControlFlowPolicy)
        ensures
            final(self).spec_commands() == old(self).spec_commands().push(
                Command::SetControlFlow(policy),
            ),
            final(self).info == old(self).info,
            final(self).update == old(self).update,
    {
        self.commands.push(Command::SetControlFlow(policy));
    }

    /// The queued commands, for the driver to drain after the phase.
    pub fn commands(&self) -> (r: &Vec<Command>)
        ensures
            r@ == self.spec_commands(),
    {
        &self.commands
    }
}

} // verus!
