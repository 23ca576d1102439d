pub mod command_tree;
pub mod dispatch;
pub mod queue;
pub mod text;
pub mod twitch;

use vstd::prelude::*;

verus! {

/// Control signal returned by the dispatcher and the line classifier:
/// whether the read loop keeps going or terminates.
#[derive(Clone, Copy, PartialEq, Eq, Structural, Debug)]
pub enum Command {
    Stop,
    Continue,
}

} // verus!
