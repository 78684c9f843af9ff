//! Restart-loop watchdog: the heartbeat record format, the startup restart
//! check, and the decision logic of the watchdog loop, the shutdown countdown,
//! the close interception and the final teardown.

pub mod record;
pub mod detector;
pub mod watchdog;
pub mod countdown;
pub mod close_latch;
pub mod teardown;
