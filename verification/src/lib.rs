pub mod text;
pub mod grok;
pub mod params;
pub mod config;
pub mod styles;
pub mod codec;
pub mod image_io;
pub mod headshot;
pub mod tools;
