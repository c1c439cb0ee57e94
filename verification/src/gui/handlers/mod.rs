pub mod lists;
pub mod slideshow;
pub mod wallpaper;
