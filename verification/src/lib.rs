//! ACP bridge: the decisions that connect messaging platforms to agents.

pub mod acp_client;
pub mod agent_session;
pub mod bot;
pub mod bot_command;
pub mod channel;
pub mod clock;
pub mod config;
pub mod dialog;
pub mod egress;
pub mod ingress;
pub mod mcp_server;
pub mod message;
pub mod message_bus;
pub mod number;
pub mod option_map;
pub mod orchestrator;
pub mod shared_map;
pub mod split;
pub mod table;
pub mod text;
