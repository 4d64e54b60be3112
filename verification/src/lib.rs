//! The verified core of a rigid-body engine: body handles, the append-only
//! body set, disjoint mutable access to two elements of a slice, and the
//! order of work inside a time step.
//!
//! Nothing here touches a floating-point number. The body's state is a type
//! parameter of the body set, and the schedule names the actions of a time
//! step without carrying them out.

use vstd::prelude::*;

pub mod body_set;
pub mod handle;
pub mod pair;
pub mod schedule;

pub use body_set::{BodySet, Slot};
pub use handle::BodyHandle;
pub use pair::get_two_mut;
pub use schedule::{StepAction, StepSchedule};
