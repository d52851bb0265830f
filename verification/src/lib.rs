//! Local accelerator for linux.do.
pub mod cli;
pub mod config;
pub mod dispatch;
pub mod dns_hosts;
pub mod doh;
pub mod gui;
pub mod gui_laws;
pub mod hosts;
pub mod hosts_laws;
pub mod https_record;
pub mod https_record_laws;
pub mod lines;
pub mod migrate;
pub mod number;
pub mod outside;
pub mod paths;
pub mod pem;
pub mod platform;
pub mod quoting;
pub mod request;
pub mod resolve;
pub mod resolve_cache;
pub mod resolve_laws;
pub mod service;
pub mod service_laws;
pub mod space;
pub mod state;
pub mod text;
pub mod trust;
pub mod trust_laws;
