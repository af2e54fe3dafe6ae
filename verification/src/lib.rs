pub mod events;
pub mod gateway;
pub mod json;
pub mod keyed;
pub mod state;
pub mod store;
pub mod sync;
pub mod text;
pub mod virtual_device;
pub mod binary32;
pub mod light_group;
pub mod light_group_linear;
pub mod config;
pub mod button_controller;
pub mod scene_controller;
pub mod manager;
pub mod screens;
pub mod client;
pub mod tcp;
pub mod tui;
pub mod dirigera;
pub mod dummy;
pub mod api;
pub mod server;
pub mod event_producer;
pub mod screen_config;
pub mod cli;
