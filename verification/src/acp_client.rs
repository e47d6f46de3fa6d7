//! The client of the Agent Client Protocol: what it knows of its agent, what it
//! asks, and what it passes on to the user.

pub mod command;
pub mod options;
pub mod output;
pub mod state;
pub mod stream;

pub use command::{AcpCommand, CommandReply};
pub use options::{SessionConfigOptionChoice, SessionConfigOptionState};
pub use output::{CapturedOutput, StartupDiagnostics};
pub use state::AcpClientState;
pub use stream::AcpClient;
