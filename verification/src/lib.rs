//! The decision core of the mote browser shell.

pub mod address_laws;
pub mod approval;
pub mod approval_laws;
pub mod chrome;
pub mod chrome_laws;
pub mod closed_tabs;
pub mod command;
pub mod command_laws;
pub mod config;
pub mod dispatch;
pub mod documents;
pub mod effect;
pub mod escape;
pub mod host;
pub mod internal;
pub mod ip;
pub mod json;
pub mod key_laws;
pub mod keybinds;
pub mod laws;
pub mod layout;
pub mod link_laws;
pub mod omnibox;
pub mod omnibox_laws;
pub mod ops;
pub mod ops_laws;
pub mod panel;
pub mod panel_laws;
pub mod picker;
pub mod picker_laws;
pub mod providers;
pub mod request;
pub mod rows;
pub mod setting_laws;
pub mod shell;
pub mod sorted;
pub mod status;
pub mod tab_laws;
pub mod text;
pub mod url_analysis;
