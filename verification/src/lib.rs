//! Control-plane logic of a network-attached LED signage panel.
//!
//! The crate holds the decisions of the firmware as verified functions on
//! plain values. Everything that touches the radio, the flash, the clock or
//! the serial line is left to the caller, who reports what happened and is
//! told what to do next.
//!
//! - [`update`]: the transfer of a firmware image, from the request's headers
//!   to the answer, one step per event.
//! - [`storage`]: the two firmware slots and the one write transaction.
//! - [`restart`]: the restart that follows a committed update after a delay.
//! - [`trace`]: what holds of every run of a transfer.
//! - [`base36`]: the hostname token of a hardware address.
//! - [`http`]: media type, body and errors of the JSON routes.
//! - [`panel`]: the panel's answer on the serial line.
//! - [`status`], [`text`]: status codes and string helpers shared by the rest.

pub mod base36;
pub mod http;
pub mod panel;
pub mod restart;
pub mod status;
pub mod storage;
pub mod text;
pub mod trace;
pub mod update;
