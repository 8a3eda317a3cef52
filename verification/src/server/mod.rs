pub mod action;
pub mod auth;
pub mod broadcast;
pub mod conversation;
pub mod handler;
pub mod http_api;
pub mod hub;
pub mod inventory;
pub mod protocol;
pub mod room_editor;
pub mod rooms;
