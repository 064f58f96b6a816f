//! The verified core of a bot dashboard server.

pub mod auth;
pub mod auth_laws;
pub mod captcha;
pub mod captcha_image;
pub mod captcha_laws;
pub mod chat;
pub mod chat_laws;
pub mod db;
pub mod db_laws;
pub mod delivery;
pub mod delivery_laws;
pub mod handler_laws;
pub mod keyed;
pub mod model;
pub mod outside;
pub mod raster;
pub mod reply;
pub mod serve;
pub mod serve_laws;
pub mod table_laws;
pub mod text;
pub mod text_laws;
pub mod webhook;
pub mod webhook_laws;
pub mod wechat;
pub mod wechat_laws;
