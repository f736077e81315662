pub mod app_state;
pub mod clipboard;
pub mod clipboard_items;
pub mod discord;
pub mod discord_presence;
pub mod encoding;
pub mod files;
pub mod lan;
pub mod launch;
pub mod minecraft_proxy;
pub mod proxy_connection;
pub mod proxy_info;
pub mod proxy_target;
pub mod release_channel;
pub mod text;
pub mod updates;
pub mod urls;
pub mod webview2;
