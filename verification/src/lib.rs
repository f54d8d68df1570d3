//! Host-side logic of the SVLED LED controller: the wire formats spoken to the
//! controllers and the decisions taken around each colour command.

pub mod protocol;
pub mod routing;
pub mod state;
pub mod record;
pub mod speedtest;
pub mod transport;
