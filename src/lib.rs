pub mod archive;
pub mod comic;
pub mod download;
pub mod markup;
pub mod paths;
pub mod pipeline;
pub mod selection;
pub mod text;
pub mod w5m;
