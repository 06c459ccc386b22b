use vstd::prelude::*;

verus! {

/// The FreeRTOS priority classes of the firmware's threads.
#[derive(Copy, Clone, Debug, PartialEq, Eq, Structural)]
pub enum Priority {
    WsClient,
    Motor,
    WsTx,
    Camera,
}

/// The FreeRTOS priority number of each class.
pub open spec fn spec_level(priority: Priority) -> u8 {
    match priority {
        Priority::WsClient => 14,
        Priority::Motor => 12,
        Priority::WsTx => 8,
        Priority::Camera => 6,
    }
}

impl Priority {
    /// The FreeRTOS priority number of this class.
    pub fn level(self) -> (res: u8)
        ensures
            res == spec_level(self),
    {
        match self {
            Priority::WsClient => 14,
            Priority::Motor => 12,
            Priority::WsTx => 8,
            Priority::Camera => 6,
        }
    }
}

/// Receiving commands outranks driving the motors, which outranks sending, which
/// outranks the camera.
pub proof fn lemma_priority_order()
    ensures
        spec_level(Priority::WsClient) > spec_level(Priority::Motor),
        spec_level(Priority::Motor) > spec_level(Priority::WsTx),
        spec_level(Priority::WsTx) > spec_level(Priority::Camera),
{
}

} // verus!
