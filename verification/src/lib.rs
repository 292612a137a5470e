#![allow(non_snake_case)]

pub mod agent_panel;
pub mod app;
pub mod auth_helper;
pub mod command;
pub mod draw;
pub mod export;
pub mod fork_picker;
pub mod history;
pub mod image_util;
pub mod impact;
pub mod jobs_panel;
pub mod jobs_render;
pub mod keys;
pub mod layout;
pub mod share;
pub mod text;
pub mod transcript;
pub mod unicode;
pub mod wrap;
