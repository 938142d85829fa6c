//! Cloud inventory normalization, relationship graphs, drift findings and
//! Kubernetes posture checks, with their rules proved.
pub mod text;
pub mod json;
pub mod model;
pub mod cli;
pub mod order;
pub mod tags;
pub mod aws_scan;
pub mod k8s_scan;
pub mod compare;
pub mod terraform_state;
pub mod cost;
pub mod ui;
pub mod k8s_demo;
pub mod demo;
