pub mod lists_play;
pub mod slideshow;
pub mod playback_manager;
pub mod playback_state;
pub mod wallpaper;
pub mod query;
pub mod lists;
pub mod list_file;
pub mod backends;
pub mod thumbnail;
pub mod operations;
