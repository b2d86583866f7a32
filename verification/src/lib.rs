pub mod digits;
pub mod workspace_map;
pub mod hyprland;
pub mod clock;
pub mod themes;
pub mod anchor;
pub mod config;
pub mod notification;
pub mod battery;
pub mod instance;
pub mod bar;
