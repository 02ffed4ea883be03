//! The controller: what the simulation thread does with a message from the
//! presentation and with the run flag.
//!
//! The decisions are plain functions from what was polled and what the flag
//! said to what is done. `App::tick` is one turn of the loop: it polls, asks
//! the flag, and acts on the universe. The loop itself is the caller's:
//! it calls `tick` until `tick` says stop.

use crate::generation::Generation;
use crate::universe::Universe;
use crossbeam::channel::Receiver;
use parking_lot::RwLock;
use std::sync::atomic::AtomicBool;
use std::sync::atomic::Ordering;
use std::sync::Arc;
use vstd::prelude::*;

verus! {

/// `crossbeam_channel::Receiver`, the receiving end of a channel. Verus
/// carries values of it through and sees nothing inside.
#[verifier::external_type_specification]
#[verifier::external_body]
#[verifier::reject_recursive_types(T)]
pub struct ExReceiver<T>(crossbeam::channel::Receiver<T>);

/// The possible messages the UI can send.
#[derive(Clone, Copy, Debug, PartialEq, Eq, Structural)]
pub enum FromUiMsg {
    /// Compute one generation, unless the simulation is running anyway.
    AdvanceOne,
    /// Kill every cell.
    Clear,
    /// Seed the board anew and draw it at the given cell size.
    NewGrid(u8),
    /// Leave the loop.
    Shutdown,
}

/// The one message that the simulation has for a UI.
#[derive(Clone, Copy, Debug, PartialEq, Eq, Structural)]
pub enum ToUiMeg {
    /// A new generation is there to be painted.
    Repaint,
}

/// What one poll of the control stream found.
#[derive(Clone, Copy, Debug, PartialEq, Eq, Structural)]
pub enum Polled {
    /// A message was waiting.
    Message(FromUiMsg),
    /// Nothing was waiting.
    Empty,
    /// Nothing was waiting and no sender is left.
    Disconnected,
}

/// What the controller does about what it polled.
#[derive(Clone, Copy, Debug, PartialEq, Eq, Structural)]
pub enum Reaction {
    /// Compute one generation.
    Advance,
    /// Clear the universe.
    Clear,
    /// Resize the universe to its own dimensions with the given cell size.
    NewGrid(u8),
    /// Do nothing.
    Idle,
    /// Leave the loop at once.
    Stop,
}

/// The reaction that is due to what was polled, given what the run flag said.
///
/// A request for one generation is honoured only while the simulation is not
/// running. A shutdown message stops the loop, and so does a control stream
/// that has lost its sender.
pub open spec fn reaction_to(polled: Polled, running: bool) -> Reaction {
    match polled {
        Polled::Message(FromUiMsg::AdvanceOne) => if running {
            Reaction::Idle
        } else {
            Reaction::Advance
        },
        Polled::Message(FromUiMsg::Clear) => Reaction::Clear,
        Polled::Message(FromUiMsg::NewGrid(cell_size)) => Reaction::NewGrid(cell_size),
        Polled::Message(FromUiMsg::Shutdown) => Reaction::Stop,
        Polled::Empty => Reaction::Idle,
        Polled::Disconnected => Reaction::Stop,
    }
}

/// Whether the loop goes on to its running step after this reaction and
/// computes a generation there: only if it was not told to stop, and only
/// while the run flag is set.
pub open spec fn steps_after(reaction: Reaction, running: bool) -> bool {
    !(reaction is Stop) && running
}

/// A shutdown message ends the loop whatever the run flag says, and no
/// generation is computed after it, neither on request nor by running.
pub proof fn shutdown_stops_at_once(running_at_poll: bool, running_after: bool)
    ensures
        reaction_to(Polled::Message(FromUiMsg::Shutdown), running_at_poll) is Stop,
        !steps_after(
            reaction_to(Polled::Message(FromUiMsg::Shutdown), running_at_poll),
            running_after,
        ),
{
}

/// The loop stops on a shutdown message and on a control stream that has lost
/// its sender, and on nothing else.
pub proof fn stops_exactly_when_told(polled: Polled, running: bool)
    ensures
        reaction_to(polled, running) is Stop <==> polled == Polled::Message(FromUiMsg::Shutdown)
            || polled == Polled::Disconnected,
{
}

/// Decides the reaction to what was polled.
pub fn react(polled: Polled, running: bool) -> (reaction: Reaction)
    ensures
        reaction == reaction_to(polled, running),
{
    match polled {
        Polled::Message(FromUiMsg::AdvanceOne) => {
            if running {
                Reaction::Idle
            } else {
                Reaction::Advance
            }
        },
        Polled::Message(FromUiMsg::Clear) => Reaction::Clear,
        Polled::Message(FromUiMsg::NewGrid(cell_size)) => Reaction::NewGrid(cell_size),
        Polled::Message(FromUiMsg::Shutdown) => Reaction::Stop,
        Polled::Empty => Reaction::Idle,
        Polled::Disconnected => Reaction::Stop,
    }
}

/// Decides whether the running step computes a generation.
pub fn keeps_stepping(reaction: Reaction, running: bool) -> (stepping: bool)
    ensures
        stepping == steps_after(reaction, running),
{
    match reaction {
        Reaction::Stop => false,
        _ => running,
    }
}

/// Polls the control stream once with `Receiver::try_recv`, which does not
/// block. Nothing is claimed of the result: it is whatever the other end of
/// the channel has done by now. The two errors of `try_recv` become `Empty`
/// and `Disconnected`.
#[verifier::external_body]
fn poll(receiver: &Receiver<FromUiMsg>) -> Polled {
    match receiver.try_recv() {
        Ok(msg) => Polled::Message(msg),
        Err(crossbeam::channel::TryRecvError::Empty) => Polled::Empty,
        Err(crossbeam::channel::TryRecvError::Disconnected) => Polled::Disconnected,
    }
}

/// The owner of a universe, driven by messages and by the run flag.
pub struct App {
    /// Whether the simulation advances on its own. Set by the presentation.
    pub running: Arc<AtomicBool>,
    /// The control stream from the presentation.
    pub receiver: Receiver<FromUiMsg>,
    /// The universe that the messages act on.
    pub universe: Universe,
}

impl App {
    /// A controller with a new universe bound to the shared generation.
    pub fn new(
        receiver: Receiver<FromUiMsg>,
        running: Arc<AtomicBool>,
        shared_map: Arc<RwLock<Generation>>,
    ) -> (app: Self)
        ensures
            app.receiver == receiver,
            app.running == running,
            app.universe.generation == shared_map,
            app.universe.wf(),
    {
        App { running, receiver, universe: Universe::new(shared_map) }
    }

    /// Resets the board at its present dimensions, drawn at the next cell size.
    pub fn new_grid(&mut self, next_cell_size: u8)
        ensures
            final(self).universe.rows == old(self).universe.rows,
            final(self).universe.cols == old(self).universe.cols,
            final(self).universe.wf(),
            final(self).universe.generation == old(self).universe.generation,
            final(self).running == old(self).running,
            final(self).receiver == old(self).receiver,
    {
        let cols = self.universe.cols;
        let rows = self.universe.rows;
        self.universe.resize(cols, rows, next_cell_size);
    }

    /// Carries out a reaction on the universe. Returns whether the loop goes
    /// on: it does unless the reaction is to stop, and then nothing is
    /// touched.
    pub fn perform(&mut self, reaction: Reaction) -> (keep_going: bool)
        ensures
            keep_going == !(reaction is Stop),
            reaction is Stop || reaction is Idle ==> *final(self) == *old(self),
            reaction is NewGrid ==> final(self).universe.wf(),
            old(self).universe.wf() ==> final(self).universe.wf(),
            final(self).universe.rows == old(self).universe.rows,
            final(self).universe.cols == old(self).universe.cols,
            final(self).universe.generation == old(self).universe.generation,
            final(self).running == old(self).running,
            final(self).receiver == old(self).receiver,
    {
        match reaction {
            Reaction::Advance => {
                self.universe.advance_generation();
                true
            },
            Reaction::Clear => {
                self.universe.clear();
                true
            },
            Reaction::NewGrid(cell_size) => {
                self.new_grid(cell_size);
                true
            },
            Reaction::Idle => true,
            Reaction::Stop => false,
        }
    }

    /// One turn of the loop. Polls the control stream without blocking and
    /// handles at most one message; then, unless told to stop, computes a
    /// generation if the run flag is set. Returns whether the loop goes on.
    /// When it does not, the universe is as it was before the turn.
    pub fn tick(&mut self) -> (keep_going: bool)
        ensures
            !keep_going ==> *final(self) == *old(self),
            old(self).universe.wf() ==> final(self).universe.wf(),
            final(self).universe.rows == old(self).universe.rows,
            final(self).universe.cols == old(self).universe.cols,
            final(self).universe.generation == old(self).universe.generation,
            final(self).running == old(self).running,
            final(self).receiver == old(self).receiver,
    {
        let polled = poll(&self.receiver);
        let reaction = react(polled, self.running.load(Ordering::SeqCst));
        if !self.perform(reaction) {
            return false;
        }
        if keeps_stepping(reaction, self.running.load(Ordering::SeqCst)) {
            self.universe.advance_generation();
        }
        true
    }
}

} // verus!
