//! The timer engine: periods, modes, tasks and the session that ties them.

pub mod file;
pub mod pomodoro;
pub mod task;
pub mod text;
pub mod timer;

pub use file::PomoFile;
pub use pomodoro::Pomodoro;
pub use task::{Task, TaskView};
pub use timer::{Timer, TimerType};
