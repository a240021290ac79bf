//! Pretty-printing of structured JSON log records.
pub mod text;
pub mod style;
pub mod level;
pub mod extras;
pub mod record;
