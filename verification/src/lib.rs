//! The decision logic of the `sg` Neovim companion: prompt parsing, the agent
//! window's state machine, the window registry, the OpenAI client's request
//! and reply handling, and a few text utilities, each with its contract.

pub mod text;
pub mod prompt;
pub mod agent;
pub mod ai;
pub mod settings;
pub mod window_manager;
pub mod nvim;
pub mod animated;
pub mod spinner;
pub mod shell;
