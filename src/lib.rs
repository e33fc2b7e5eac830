//! Assembles conversational messages from a fixed header, a running history,
//! a fixed "sandwich" block and the current turn, and records each completed
//! exchange in the history.
pub mod chain;
pub mod history;
pub mod message;

pub use chain::{ApiError, LLMChain, PromptError};
pub use history::ChatMessageHistory;
pub use message::{Message, MessageType};
