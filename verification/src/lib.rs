pub mod agent;
pub mod aws;
pub mod controller;
pub mod egress;
pub mod eip;
pub mod error;
pub mod json;
pub mod kube_ext;
pub mod labels;
pub mod laws;
pub mod legacy;
pub mod node;
pub mod operation;
pub mod orphans;
pub mod random;
pub mod search;
pub mod settings;
pub mod string_map;
pub mod tasks;
pub mod telemetry;
pub mod text;
