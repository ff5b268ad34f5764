use vstd::prelude::*;

use crate::config::Config;

verus! {

/// A request from the user interface to the tracking supervisor.
#[derive(Debug, Clone)]
pub enum Command {
    Start(Config),
    Stop,
}

/// What the supervisor does about a command.
#[derive(Debug, Clone)]
pub enum Supervision {
    /// Start a tracker with this configuration.
    StartTracker(Config),
    /// Stop the running tracker.
    StopTracker,
    /// A start arrived while a tracker runs: it is ignored.
    IgnoreStart,
    /// A stop arrived while no tracker runs: it is ignored.
    IgnoreStop,
}

/// Whether a tracker runs after `action` is carried out, given whether one
/// ran before.
pub open spec fn running_after(running: bool, action: Supervision) -> bool {
    match action {
        Supervision::StartTracker(_) => true,
        Supervision::StopTracker => false,
        _ => running,
    }
}

/// The decision about `cmd` when a tracker is (`running`) or is not running.
pub open spec fn supervision(running: bool, cmd: Command) -> Supervision {
    match cmd {
        Command::Start(cfg) => if running {
            Supervision::IgnoreStart
        } else {
            Supervision::StartTracker(cfg)
        },
        Command::Stop => if running {
            Supervision::StopTracker
        } else {
            Supervision::IgnoreStop
        },
    }
}

/// Decides what to do about `cmd` when a tracker is (`running`) or is not
/// running: at most one tracker runs at a time, and stopping needs a running
/// tracker.
pub fn supervise(running: bool, cmd: Command) -> (action: Supervision)
    ensures
        action == supervision(running, cmd),
{
    match cmd {
        Command::Start(cfg) => if running {
            Supervision::IgnoreStart
        } else {
            Supervision::StartTracker(cfg)
        },
        Command::Stop => if running {
            Supervision::StopTracker
        } else {
            Supervision::IgnoreStop
        },
    }
}

/// A start is carried out only when no tracker runs, a stop only when one
/// runs, and afterwards a tracker runs exactly when the command was a start
/// (carried out or ignored because one already ran).
pub proof fn law_one_tracker_at_a_time(running: bool, cmd: Command)
    ensures
        supervision(running, cmd) is StartTracker ==> !running,
        supervision(running, cmd) is StopTracker ==> running,
        running_after(running, supervision(running, cmd)) == (cmd is Start),
{
}

/// A start carried out starts the tracker with exactly the configuration
/// the command carries, and a stop or a start while running carries no
/// configuration to the tracker.
pub proof fn law_start_uses_submitted_config(cfg: Config)
    ensures
        supervision(false, Command::Start(cfg)) == Supervision::StartTracker(cfg),
        supervision(true, Command::Start(cfg)) == Supervision::IgnoreStart,
        supervision(true, Command::Stop) == Supervision::StopTracker,
        supervision(false, Command::Stop) == Supervision::IgnoreStop,
{
}

/// Which of the tracking controls are shown and usable.
#[derive(Debug, Clone, Copy, PartialEq, Eq, Structural)]
pub struct Controls {
    pub start_visible: bool,
    pub stop_visible: bool,
    /// Save button and settings inputs.
    pub inputs_sensitive: bool,
}

impl Controls {
    /// The controls while tracking runs (`running`) or not: exactly one of
    /// Start and Stop is shown, and the settings are locked while tracking.
    pub fn for_state(running: bool) -> (c: Controls)
        ensures
            c.start_visible == !running,
            c.stop_visible == running,
            c.inputs_sensitive == !running,
    {
        Controls { start_visible: !running, stop_visible: running, inputs_sensitive: !running }
    }
}

} // verus!
