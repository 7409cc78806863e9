//! Planning for size-targeted media transcoding.
//!
//! The crate holds the decisions of a transcoding job as pure, verified
//! functions: how many kilobits per second a byte budget buys, which encoder
//! strategy to run, how markers move when a clip is trimmed, what the
//! encoder is told on its command line, and what its output means. Running
//! the encoder and touching files is left to the caller: a [`job::Job`]
//! tells its caller what to do next and takes what came of it.
//!
//! Times are whole microseconds and progress is a whole number of
//! thousandths of a percent, so that every rule is exact integer arithmetic.
//!
//! - [`bitrate`], [`scale`], [`tiers`]: the plan of a job.
//! - [`markers`], [`chapters`]: the timeline of a trimmed clip.
//! - [`capability`]: what the encoder can do, looked up once.
//! - [`command`]: the encoder's arguments.
//! - [`progress`]: the encoder's progress lines.
//! - [`job`], [`result`], [`trace`]: the job as a state machine, its
//!   result, and what holds of all its runs.
//! - [`probe`], [`metadata`], [`json`]: the prober's reports.
//! - [`preview`]: frames and changes of scene.
//! - [`text`]: numbers and pieces of text.

pub mod bitrate;
pub mod capability;
pub mod chapters;
pub mod command;
pub mod job;
pub mod json;
pub mod markers;
pub mod metadata;
pub mod preview;
pub mod probe;
pub mod progress;
pub mod result;
pub mod scale;
pub mod text;
pub mod tiers;
pub mod trace;
