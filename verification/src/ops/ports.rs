//! Finding a port to listen on.

use crate::text::{chars_of, contains, occurs, string_of};
use vstd::prelude::*;

verus! {

/// Why the server could not do what it was to do.
pub struct Error {
    /// What failed.
    pub desc: String,
    /// What was being done to it.
    pub op: String,
    /// What is known beyond that.
    pub more: String,
}

impl View for Error {
    type V = (Seq<char>, Seq<char>, Seq<char>);

    open spec fn view(&self) -> (Seq<char>, Seq<char>, Seq<char>) {
        (self.desc@, self.op@, self.more@)
    }
}

/// What to do next while looking for a port.
pub enum PortStep {
    /// The server listens on this port.
    Bound(u16),
    /// This port is to be tried.
    Try(u16),
    Failed(Error),
}

/// A `PortStep` as the texts that it holds.
pub enum PortStepView {
    Bound(u16),
    Try(u16),
    Failed((Seq<char>, Seq<char>, Seq<char>)),
}

impl View for PortStep {
    type V = PortStepView;

    open spec fn view(&self) -> PortStepView {
        match self {
            PortStep::Bound(p) => PortStepView::Bound(*p),
            PortStep::Try(p) => PortStepView::Try(*p),
            PortStep::Failed(e) => PortStepView::Failed(e@),
        }
    }
}

/// Whether a failure to listen says that the port is taken, so that another
/// may be free: its text speaks of a port, or of something in use.
pub open spec fn port_taken(error: Seq<char>) -> bool {
    occurs(error, "port"@) || occurs(error, "in use"@)
}

/// The failure to start the server, with what is known of it.
pub open spec fn start_failure(more: Seq<char>) -> PortStepView {
    PortStepView::Failed(("server"@, "start"@, more))
}

/// The step after the attempt `last`, which gives a port and the text of the
/// failure to listen on it, or `None` for success; `last` is `None` before
/// the first attempt. The ports from `from` to `up_to` are tried in order,
/// one after another that is taken, until the server listens on one; any
/// other failure ends the search, and so does the end of the ports.
pub open spec fn port_step(from: u16, up_to: u16, last: Option<(u16, Option<String>)>) -> PortStepView {
    match last {
        None => if from <= up_to {
            PortStepView::Try(from)
        } else {
            start_failure("no free ports"@)
        },
        Some((port, None)) => PortStepView::Bound(port),
        Some((port, Some(error))) => if !port_taken(error@) {
            start_failure(error@)
        } else if port < up_to {
            PortStepView::Try((port + 1) as u16)
        } else {
            start_failure("no free ports"@)
        },
    }
}

fn failure(more: &str) -> (r: PortStep)
    ensures
        r@ == start_failure(more@),
{
    PortStep::Failed(
        Error {
            desc: string_of(&chars_of("server")),
            op: string_of(&chars_of("start")),
            more: string_of(&chars_of(more)),
        },
    )
}

/// Says what to do next while looking for a port from `from` to `up_to`.
pub fn try_ports(from: u16, up_to: u16, last: &Option<(u16, Option<String>)>) -> (r: PortStep)
    ensures
        r@ == port_step(from, up_to, *last),
{
    match last {
        None => if from <= up_to {
            PortStep::Try(from)
        } else {
            failure("no free ports")
        },
        Some((port, None)) => PortStep::Bound(*port),
        Some((port, Some(error))) => {
            let text = chars_of(error.as_str());
            let taken = contains(&text, &chars_of("port")) || contains(&text, &chars_of("in use"));
            if !taken {
                failure(error.as_str())
            } else if *port < up_to {
                PortStep::Try(*port + 1)
            } else {
                failure("no free ports")
            }
        },
    }
}

} // verus!
