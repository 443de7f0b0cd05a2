//! The verified core of the DeepDash launcher.
pub mod commands;
pub mod config;
pub mod environment;
pub mod error_mapper;
pub mod models;
pub mod network;
pub mod package_service;
pub mod process_manager;
pub mod semver_support;
pub mod text;
pub mod versions;
