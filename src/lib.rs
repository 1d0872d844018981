pub mod text;
pub mod sniff;
pub mod relay;
pub mod archive;
