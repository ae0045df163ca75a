//! Icon extraction toolkit: the verified core of a desktop tool that pulls icons
//! out of Windows executables and shortcuts, fetches website favicons, and
//! converts or saves the resulting images.

pub mod base64;
pub mod convert;
pub mod data_url;
pub mod favicon;
pub mod html;
pub mod ico;
pub mod icons;
pub mod images;
pub mod paths;
pub mod shell;
pub mod sizes;
pub mod text;
