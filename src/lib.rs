//! The verified core of a remote-control link for a differential-drive robot.
//!
//! The operator side turns the latest key into a motion command and writes it as one text
//! line; the controller side reads each line, keeps the (left, right) state of the
//! connection, answers with a status line and splits each wheel's velocity into forward and
//! backward duty cycles.

pub mod actuator;
pub mod number;
pub mod operator;
pub mod protocol;
pub mod server;
