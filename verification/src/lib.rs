pub mod autostart;
pub mod ddc;
pub mod ddc_unsupported;
pub mod display_listener;
pub mod ident;
pub mod level;
pub mod monitors;
pub mod numbers;
pub mod shell;
pub mod text;
pub mod tray;
pub mod wide;
pub mod wmi;
pub mod wmi_native;
