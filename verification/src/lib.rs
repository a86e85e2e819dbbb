//! Server-side core of the wlr screencopy protocol: the object lifecycle and
//! request-dispatch layer between a compositor's display and its capture
//! backend.
//!
//! * [`lifecycle`] is the state machine of a single capture frame.
//! * [`history`] states what holds of every history of a frame.
//! * [`protocol`] holds the handles, requests and answers of the dispatcher.
//! * [`model`] is the mathematical model of a session.
//! * [`session`] keeps the bound handles and the live frames.
//! * [`laws`] states what holds of every session.
//! * [`clients`] numbers the client connections.
//! * [`state`] is the global on a display: the state that a compositor keeps
//!   and the entry points that its display drives.
//! * [`wayland`] lists what is taken on trust from the display.

pub mod clients;
pub mod history;
pub mod laws;
pub mod lifecycle;
pub mod model;
pub mod protocol;
pub mod session;
pub mod state;
mod table;
pub mod wayland;
