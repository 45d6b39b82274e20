//! Access to the ROS node's clock.

use vstd::prelude::*;

verus! {

/// A point in time as ROS messages carry it: whole seconds and the
/// nanoseconds inside the current second.
#[derive(Clone, Copy, Debug, PartialEq, Eq, Structural)]
pub struct Time {
    pub sec: u32,
    pub nsec: u32,
}

/// Evidence that the process has joined a ROS graph, so that the node's
/// clock can be read. It can only be had from `RosClock::connected`.
pub struct RosClock {
    connected: (),
}

/// Calls `rosrust::is_initialized`, which tells whether `rosrust::init`
/// has succeeded in this process. Nothing is claimed of the answer: it
/// depends on the state of the process.
#[verifier::external_body]
fn ros_is_initialized() -> bool {
    rosrust::is_initialized()
}

/// Calls `rosrust::now` and hands back its seconds and nanoseconds.
/// `rosrust::now` panics unless the node is initialized, which holding a
/// `RosClock` shows. Nothing is claimed of the time itself: it is read
/// from the wall clock or from the simulated `/clock` topic.
#[verifier::external_body]
fn ros_now(clock: &RosClock) -> (t: Time) {
    let now = rosrust::now();
    Time { sec: now.sec, nsec: now.nsec }
}

impl RosClock {
    /// The node's clock, where `rosrust::init` has succeeded; `None`
    /// otherwise.
    pub fn connected() -> (r: Option<RosClock>) {
        if ros_is_initialized() {
            Some(RosClock { connected: () })
        } else {
            None
        }
    }

    /// The current time of the ROS node.
    pub fn now(&self) -> (t: Time) {
        ros_now(self)
    }
}

} // verus!
