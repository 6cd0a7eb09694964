//! Drone agent and mission artifacts: the decision logic of a small fleet of
//! vehicles (task queue, mission state machines, service gates, remote-control
//! arbitration, configuration) and of the artifacts rendered from its journals.
//!
//! Everything here computes on plain values. Flight back ends, the network,
//! clocks and floating-point geometry stay with the program around it.

pub mod address;
pub mod agent;
pub mod agent_laws;
pub mod anomaly;
pub mod args_laws;
pub mod artifact_args;
pub mod audit;
pub mod blocks;
pub mod bringup;
pub mod chains;
pub mod clock;
pub mod config;
pub mod dataset;
pub mod dataset_laws;
pub mod detour;
pub mod driver;
pub mod entry_laws;
pub mod flight;
pub mod flight_laws;
pub mod idle;
pub mod ingest_laws;
pub mod investigate;
pub mod journal;
pub mod journal_laws;
pub mod json;
pub mod lens;
pub mod magnitude;
pub mod metrics;
pub mod metrics_laws;
pub mod mission;
pub mod names;
pub mod numerals;
pub mod outcome_laws;
pub mod patterns;
pub mod policy;
pub mod provenance_laws;
pub mod quantity;
pub mod quantity_laws;
pub mod queue;
pub mod queue_laws;
pub mod queue_model;
pub mod rc;
pub mod rc_status;
pub mod render;
pub mod render_laws;
pub mod sensor;
pub mod sensor_laws;
pub mod sensors;
pub mod service_laws;
pub mod services;
pub mod sorting;
pub mod spelling;
pub mod status_laws;
pub mod survey;
pub mod takeoff;
pub mod tasks;
pub mod telemetry;
pub mod text;
pub mod text_laws;
pub mod text_map;
pub mod wire_laws;
