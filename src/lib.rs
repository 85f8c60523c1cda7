pub mod config;
pub mod discord;
pub mod dispatch;
pub mod mailer;
pub mod message;
