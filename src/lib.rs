//! Decision logic of a desktop video converter: reading the transcoder's
//! timestamps, turning its diagnostic lines into progress, choosing the output
//! file name and arguments, and the driver that sequences one conversion.
pub mod text;
pub mod duration;
pub mod progress;
pub mod probe;
pub mod format;
pub mod driver;
pub mod ui;
