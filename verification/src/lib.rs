//! The non-UI half of an instrument cluster: the `Telemetry` frame, the sources
//! that produce it -- a simulated drive cycle, a CAN bus, a Kuksa databroker, an
//! OBD-II dongle -- and what the display shows of it.
//!
//! Nothing in here opens a socket, reads a clock or draws a widget. Every function
//! works on values, and every function is verified against its contract; the
//! modules named `.._laws` hold what is proved of them together.

pub mod fixed;
pub mod telemetry;
pub mod text;

pub mod bus;
pub mod can;
pub mod can_laws;
pub mod frame_laws;
pub mod street_laws;

pub mod kuksa;
pub mod kuksa_laws;
pub mod signal_laws;

pub mod obd;
pub mod elm_laws;
pub mod obd_laws;

pub mod display;
pub mod display_laws;
pub mod sim;
pub mod sim_laws;
pub mod source;
