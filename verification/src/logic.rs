pub mod avatar;
pub mod command;
pub mod data;
pub mod home;
pub mod json;
pub mod level;
pub mod mode;
pub mod time;
