//! Driver logic for up to eight WS2812 strips that are fed in parallel with
//! frames from a serial link.
//!
//! The device side: [`protocol`] parses the commands of the host, [`frame`]
//! loads an accepted frame into the frame buffer, [`handoff`] passes the
//! buffer between the two tasks, [`led_task`] keeps the pause between two
//! frames, [`encoder`] and [`transpose`] turn the buffer into the words for
//! the output FIFO, [`pio_setup`] holds the parameters of the output stage
//! and [`identity`] what the device tells the bus about itself.
//!
//! The host side: [`host`] plans and checks the exchanges of a controller.
//!
//! Both sides share [`wire`] and [`config`]; [`delivery`] states what the
//! device does with whole runs of packets.
//!
//! Nothing here touches a port, a timer or a peripheral: callers perform the
//! transfers and hand in what arrived.

pub mod config;
pub mod delivery;
pub mod encoder;
pub mod frame;
pub mod handoff;
pub mod host;
pub mod identity;
pub mod led_task;
pub mod pio_setup;
pub mod protocol;
pub mod transpose;
pub mod wire;
