pub mod text;
pub mod state;
pub mod providers;
pub mod ai_pipeline;
pub mod debug_log;
pub mod platform;
pub mod screenshot;
pub mod settings_store;
pub mod monitor;
pub mod app_icon;
