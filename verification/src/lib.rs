//! Fixed-point motion control for a vehicle that follows waypoints.
//!
//! Every quantity is an integer in a fixed unit, so that each operation has
//! an exact meaning that can be stated and proved:
//!
//! * lengths in micrometres, speeds in micrometres per second, accelerations
//!   in micrometres per second squared;
//! * durations in nanoseconds;
//! * angles in microradians, and controller outputs in millionths of full
//!   throttle.
//!
//! The crate holds the pieces of one control tick:
//!
//! * [`destination`]: the queue of waypoints and the handling of arrivals;
//! * [`guidance`]: from a position and the next waypoint to the signed
//!   distance error and the bearing;
//! * [`vehicle`]: the vehicle, whose speed follows the controller's output
//!   within asymmetric limits and a speed cap;
//! * [`heading`]: the limit on the rate of turn;
//! * [`kinematics`]: the earliest arrival time over a distance;
//! * [`vector`], [`root`], [`units`]: points, integer square roots and the
//!   units themselves.
//!
//! Two steps of a tick are floating-point work and are left to the caller:
//! the feedback controller, which turns the signed distance error into an
//! output, and the trigonometry that measures the angle to the bearing and
//! applies the rotation.

pub mod destination;
pub mod guidance;
pub mod heading;
pub mod kinematics;
pub mod root;
pub mod units;
pub mod vector;
pub mod vehicle;

pub use destination::Destination;
pub use guidance::Guidance;
pub use vector::Vector;
pub use vehicle::{ConfigError, Vehicle};
