//! A terminal chat client's core: the session transcript, the command
//! dispatcher, the interaction-mode state machine and the inference-server
//! supervisor protocol, each stated and proved with Verus.

mod clock;
pub mod commands;
pub mod config;
pub mod llm_client;
pub mod number;
pub mod order;
pub mod prompts;
pub mod selection;
pub mod session;
pub mod supervisor;
pub mod text;
pub mod tui;
