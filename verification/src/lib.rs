//! Verified core of the Parsec IDE tool suite: accessibility, API client,
//! cloud, collaboration, customization, database, debugging and design logic.
pub mod text;
pub mod json;
pub mod strmap;
pub mod idmap;
pub mod stamp;
pub mod accessibility;
pub mod design;
pub mod customization;
pub mod collaboration;
pub mod database;
pub mod api_client;
pub mod cloud;
pub mod debugging;
