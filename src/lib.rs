//! Configuration, project scaffolding and server start-up decisions for the
//! sword backend framework, with their contracts proved by Verus.

pub mod config;
pub mod generate;
pub mod numeric;
pub mod server;
pub mod template;

pub use config::{AppConfig, ConfigError, EnvVars};
pub use generate::{
    generate_project, GenerationError, TemplateDir, TemplateEntry, TemplateFile, WriteOp,
};
pub use server::{Action, Bootstrap, BootstrapError, Event};
