//! What every part of the program uses: the shared log.
use crate::logger::{LogAction, Logger};
use vstd::prelude::*;

verus! {

/// Logs `msg` to the program's logger; see [`Logger::log`].
pub fn log(logger: &mut Logger, msg: String) -> (r: LogAction)
    ensures
        final(logger).is_interactive == old(logger).is_interactive,
        !old(logger).is_interactive ==> final(logger).messages@ == old(logger).messages@,
        !old(logger).is_interactive ==> r == LogAction::Print(msg),
        old(logger).is_interactive ==> final(logger).messages@ == old(logger).messages@.push(msg),
        old(logger).is_interactive ==> r is Record && r->line@ == msg@.push('\n') && r->event
            == crate::events::EventSource::Log,
{
    logger.log(msg)
}

} // verus!
