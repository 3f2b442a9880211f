//! Animated video wallpapers for the Cinnamon desktop: what is decided and computed.
//! Talking to the display server, the media framework, the file system and other
//! processes is left to the application around it, and so is what takes fractions (how
//! far a conversion is, in percent) or the formats of other libraries (the configuration
//! file, the command line).

pub mod active;
pub mod cli;
pub mod config;
pub mod conversion;
pub mod desktop;
pub mod gallery;
pub mod gsettings_wallpaper;
pub mod instance;
pub mod library;
pub mod paths;
pub mod preview;
pub mod service;
pub mod text;
pub mod video;
pub mod watch;
pub mod window;
