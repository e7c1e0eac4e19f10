//! A typed-value prompt: a line editor, a rendering contract and the
//! parse, format and retry turn that turns keystrokes into a value.

pub mod backend;
pub mod custom_type;
pub mod error;
pub mod input;
pub mod key;
pub mod render_config;

pub use backend::{BackendResult, CustomTypeBackend, Frame, ScriptedBackend};
pub use custom_type::{CustomType, CustomTypePrompt, Turn};
pub use error::{InquireError, InquireResult};
pub use input::Input;
pub use key::Key;
pub use render_config::RenderConfig;
