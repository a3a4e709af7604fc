//! A verified core for a one-shot remote-session workflow: loosely typed
//! configuration inputs are resolved into a typed session plan, and a
//! fixed sequence of command stages (sleep, connectivity probe, main run,
//! post run) is orchestrated with per-stage timeout, retry and
//! failure-tolerance policy, reporting a boolean outcome per stage.

pub mod config;
pub mod pre_local;
pub mod session;
pub mod text;
