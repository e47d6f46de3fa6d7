//! Messages on their way from a channel to a session.

use crate::channel::{ChatId, ContentView, IncomingContent, IncomingMessage};
use crate::split::opt_text;
use vstd::prelude::*;

verus! {

/// A user's message, with the channel and the chat that it came from.
#[derive(Debug, Clone)]
pub struct IngressMessage {
    pub channel_name: String,
    pub chat_id: ChatId,
    pub content: IngressContent,
}

/// What a user's message holds.
#[derive(Debug, Clone)]
pub enum IngressContent {
    Text(String),
    Command { name: String, args: Option<String> },
}

impl View for IngressContent {
    type V = ContentView;

    open spec fn view(&self) -> ContentView {
        match *self {
            IngressContent::Text(text) => ContentView::Text(text@),
            IngressContent::Command { name, args } => ContentView::Command {
                name: name@,
                args: opt_text(args),
            },
        }
    }
}

/// What a channel received, as a session gets it.
pub open spec fn ingress_content(msg: IncomingMessage) -> IngressContent {
    match msg.content {
        IncomingContent::Text(text) => IngressContent::Text(text),
        IncomingContent::Command { name, args } => IngressContent::Command { name, args },
    }
}

impl From<IncomingMessage> for IngressContent {
    fn from(msg: IncomingMessage) -> (r: Self) {
        match msg.content {
            IncomingContent::Text(text) => IngressContent::Text(text),
            IncomingContent::Command { name, args } => IngressContent::Command { name, args },
        }
    }
}

impl vstd::std_specs::convert::FromSpecImpl<IncomingMessage> for IngressContent {
    open spec fn obeys_from_spec() -> bool {
        true
    }

    open spec fn from_spec(msg: IncomingMessage) -> Self {
        ingress_content(msg)
    }
}

/// A message reaches the session with the content that the channel received.
pub proof fn ingress_keeps_content(msg: IncomingMessage)
    ensures
        ingress_content(msg)@ == msg@,
{
}

/// What a session gets has the kind and the words of what its channel received.
pub proof fn sessions_get_what_was_received(text: String, name: String, args: Option<String>)
    ensures
        IngressContent::Text(text)@ == ContentView::Text(text@),
        (IngressContent::Command { name, args })@ == (ContentView::Command {
            name: name@,
            args: opt_text(args),
        }),
        ingress_content(IncomingMessage { content: IncomingContent::Text(text) })
            == IngressContent::Text(text),
        ingress_content(IncomingMessage { content: IncomingContent::Command { name, args } }) == (
        IngressContent::Command { name, args }),
{
}

}
