//! The version-specific migrations: one module per version step, each built
//! from the operator catalog in [`crate::common_migrations`].  The entry
//! points take the snapshot and the direction as plain values; reading the
//! snapshot from disk and writing it back belong to the driver.

pub mod ecr_credential_providers;
pub mod delete_configs_and_services;
pub mod device_list_strategy;
pub mod static_pods_enabled;
pub mod bootstrap_containers_command;
pub mod reserved_pid_settings;
