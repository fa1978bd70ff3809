//! `outlap_qss` — the topology, planning and bookkeeping layer of the quasi-steady-state lap
//! solver: drivetrain-graph flattening, the electro slow-stack plan, machine-thermal network
//! resolution, station/grid indexing, and the tier dispatch.
use vstd::prelude::*;

pub mod aero;
pub mod battery;
pub mod drivetrain;
pub mod error;
pub mod graph;
pub mod grid;
pub mod path;
pub mod powertrain;
pub mod qss;
pub mod stack;
pub mod strings;
pub mod thermal;

