//! Verified logic behind an editor's JavaScript/TypeScript import suggestions,
//! its title-bar run configurations, and its activity bar.
pub mod text;
pub mod paths;
pub mod buffer;
pub mod import_path;
pub mod import_suggestions;
pub mod import_laws;
pub mod task_template;
pub mod run_configurations;
pub mod run_configuration_laws;
pub mod activity_bar;
