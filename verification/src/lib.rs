//! Echo-test protocol for CAN buses: a host that generates frames and checks
//! what comes back, and a device under test that echoes every frame it gets,
//! both as state machines that a caller drives with the events of its port.

pub mod cansend;
pub mod compare;
pub mod dut;
pub mod error;
pub mod frame;
pub mod host;
pub mod port;
pub mod window;

pub use compare::{compare, MismatchReason, Outcome};
pub use dut::{check, check_frame, Dut};
pub use error::{DutError, ErrorKind, HostError};
pub use frame::{increment_frame, ConstructionError, Frame};
pub use host::Host;
pub use port::{PortAction, PortEvent, CAN_MSG_ID};
pub use window::Window;
