//! The decision core of the Aegis desktop portal.

pub mod answers;
pub mod app_chooser;
pub mod background;
pub mod blob;
pub mod cast;
pub mod choose_app;
pub mod chooser;
pub mod client;
pub mod codec;
pub mod dialogs;
pub mod dynamic_launcher;
pub mod edit;
pub mod file_chooser;
pub mod files;
pub mod inhibit;
pub mod laws;
pub mod lease;
pub mod location;
pub mod notification;
pub mod objects;
pub mod options;
pub mod pam;
pub mod paths;
pub mod pathset;
pub mod portal;
pub mod prompter;
pub mod random;
pub mod request;
pub mod schema;
pub mod screencast;
pub mod secret;
pub mod secret_service;
pub mod secret_store;
pub mod session;
pub mod settings;
pub mod state;
pub mod text;
pub mod textmap;
pub mod transport;
pub mod unlock;
pub mod vault;
mod wipe;
