//! The way out: which line leads to which channel.

use crate::message_bus::{BusError, BusErrorView};
use crate::table::Table;
use vstd::prelude::*;
use vstd::string::*;

verus! {

/// The lines of the channels, for what goes out to their users.
#[derive(Debug)]
pub struct Egress {
    lines: Table<String, u64>,
}

impl Egress {
    /// No channel occurs twice.
    pub closed spec fn wf(&self) -> bool {
        self.lines.wf()
    }

    /// The lines of the channels.
    pub closed spec fn channels(&self) -> Map<Seq<char>, u64> {
        self.lines@
    }

    /// No channels.
    pub fn new() -> (r: Self)
        ensures
            r.wf(),
            r.channels() == Map::<Seq<char>, u64>::empty(),
    {
        Egress { lines: Table::new() }
    }

    /// Gives a channel its line.
    pub fn register_channel(&mut self, channel_name: String, line: u64)
        requires
            old(self).wf(),
        ensures
            final(self).wf(),
            final(self).channels() == old(self).channels().insert(channel_name@, line),
    {
        self.lines.insert(channel_name, line);
    }

    /// The line on which a channel gets a message for a user.
    pub fn send(&self, channel_name: &str) -> (r: Result<u64, BusError>)
        requires
            self.wf(),
        ensures
            match r {
                Ok(line) => self.channels().contains_key(channel_name@) && line
                    == self.channels()[channel_name@],
                Err(e) => !self.channels().contains_key(channel_name@) && e@
                    == BusErrorView::ChannelNotFound(channel_name@),
            },
    {
        match self.lines.get(&channel_name.to_string()) {
            Some(line) => Ok(*line),
            None => Err(BusError::ChannelNotFound(channel_name.to_string())),
        }
    }
}

impl Default for Egress {
    fn default() -> (r: Self)
        ensures
            r.wf(),
            r.channels() == Map::<Seq<char>, u64>::empty(),
    {
        Egress::new()
    }
}

/// Messages to a channel go out on the line that it was entered with last, and
/// entering a channel changes no other's line. A channel that was not entered is
/// not found.
pub proof fn entered_channels_are_reached(
    e: &mut Egress,
    name: String,
    line: u64,
    after: &Egress,
    other: &str,
    r: Result<u64, BusError>,
)
    requires
        call_ensures(Egress::register_channel, (e, name, line), ()),
        *after == *final(e),
        call_ensures(Egress::send, (after, other), r),
    ensures
        other@ == name@ ==> r == Ok::<u64, BusError>(line),
        other@ != name@ && old(e).channels().contains_key(other@) ==> r == Ok::<u64, BusError>(
            old(e).channels()[other@],
        ),
        other@ != name@ && !old(e).channels().contains_key(other@) ==> r is Err && r->Err_0@
            == BusErrorView::ChannelNotFound(other@),
{
}

}
