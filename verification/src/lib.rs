//! A verified model of a line-oriented serial command interpreter for a
//! small single-core device.
//!
//! Bytes arrive one at a time over a serial link. The accumulator collects
//! them into a fixed-capacity buffer until a terminator byte is seen, then
//! parses the buffered bytes as a command and dispatches the matching
//! handler task. Handlers write their textual responses through a shared
//! transmit resource whose lock discipline rules out interleaved output.

pub mod accumulator;
pub mod buffer;
pub mod client;
pub mod command;
pub mod display;
pub mod handlers;
pub mod scheduler;
pub mod session;
pub mod transmit;

pub use accumulator::Accumulator;
pub use accumulator::lemma_buffer_bounded;
pub use accumulator::lemma_buffer_bounded_throughout;
pub use accumulator::lemma_dispatch_iff_token;
pub use accumulator::TERMINATOR;
pub use buffer::COMMAND_BUF_SIZE;
pub use buffer::CommandBuffer;
pub use client::command_client_step;
pub use client::declare_tasks;
pub use client::init_interpreter;
pub use command::Command;
pub use command::handler_task;
pub use command::task_command;
pub use session::run_session;
pub use display::DisplayRows;
pub use display::command_toggle_display;
pub use display::lemma_toggle_self_inverse;
pub use handlers::command_help;
pub use handlers::command_log_board;
pub use handlers::command_version;
pub use handlers::execute_handler;
pub use handlers::help_text;
pub use handlers::log_board_text;
pub use handlers::version_text;
pub use transmit::TransmitResource;
pub use transmit::lemma_writes_never_interleave;
pub use scheduler::Scheduler;
pub use scheduler::SpawnError;
pub use scheduler::TaskControl;
pub use scheduler::TaskState;
pub use scheduler::TASK_CLIENT;
pub use scheduler::TASK_COUNT;
pub use scheduler::TASK_HELP;
pub use scheduler::TASK_LOG_BOARD;
pub use scheduler::TASK_TOGGLE_DISPLAY;
pub use scheduler::TASK_VERSION;
