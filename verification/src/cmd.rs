//! The commands that the presentation layer sends, each keyed by a session id.

use vstd::prelude::*;
use vstd::pervasive::unreached;
use crate::config::Config;
use crate::emitter::EventView;
use crate::pty::{strip_char, stripped, trim_text, trimmed};
use crate::pty_manager::{
    resize_pty, resized, spawn_pty, started, stop_pty, stopped, write_input, GlobalPty, PtyError,
    Started,
};

verus! {

/// The address to open for a link as the presentation layer sent it: trimmed,
/// then freed of double quotes and then of single quotes around it.
pub open spec fn spec_link_target(uri: Seq<char>) -> Seq<char> {
    stripped(stripped(trimmed(uri), '"'), '\'')
}

/// Cleans a link of the whitespace and quotes around it.
pub fn link_target(uri: &String) -> (target: String)
    ensures
        target@ == spec_link_target(uri@),
{
    strip_char(&strip_char(&trim_text(uri), '"'), '\'')
}

/// Some service of the configuration has this id.
pub open spec fn has_service(config: &Config, id: Seq<char>) -> bool {
    exists|k: int| 0 <= k < config.services@.len() && (#[trigger] config.services@[k]).id@ == id
}

/// Starts the session of the configured service `id`, as `spawn_pty` does for
/// that service. The id must be one of the configuration's.
pub fn start_terminal(registry: &mut GlobalPty, config: &Config, id: String) -> (res: Result<
    Started,
    PtyError,
>)
    requires
        has_service(config, id@),
    ensures
        res is Ok ==> res->Ok_0.event@ == EventView::Running,
        old(registry)@.contains_key(id@) ==> res is Ok,
        res is Err ==> final(registry)@ == old(registry)@,
        res is Ok ==> final(registry)@ == started(old(registry)@, id@),
        res is Ok ==> (res->Ok_0.reader is Some) == !old(registry)@.contains_key(id@),
{
    match config.find_service(id.as_str()) {
        Some(i) => spawn_pty(registry, &config.services[i]),
        None => {
            proof {
                let k = choose|k: int|
                    0 <= k < config.services@.len() && (#[trigger] config.services@[k]).id@ == id@;
                assert(config.services@[k].id@ == id@);
            }
            unreached()
        },
    }
}

/// Stops the session `id`, as `stop_pty` does.
pub fn stop_terminal(registry: &mut GlobalPty, id: String) -> (res: Result<(), PtyError>)
    ensures
        res is Ok,
        final(registry)@ == stopped(old(registry)@, id@),
{
    stop_pty(registry, id.as_str())
}

/// Feeds `data` to the session `id`, as `write_input` does.
pub fn input_terminal(registry: &GlobalPty, id: String, data: String) -> (res: Result<(), PtyError>)
    ensures
        !registry@.contains_key(id@) ==> res is Ok,
        registry@.contains_key(id@) && !registry@[id@].running ==> res is Ok,
        res is Err ==> res->Err_0 is Io,
{
    write_input(registry, id.as_str(), data.as_str())
}

/// Resizes the session `id`, as `resize_pty` does.
pub fn resize_terminal(registry: &mut GlobalPty, id: String, cols: u16, rows: u16) -> (res: Result<
    (),
    PtyError,
>)
    ensures
        !old(registry)@.contains_key(id@) ==> res is Ok,
        res is Err ==> res->Err_0 is Io && final(registry)@ == old(registry)@,
        res is Ok ==> final(registry)@ == resized(old(registry)@, id@, cols, rows),
{
    resize_pty(registry, id.as_str(), cols, rows)
}

} // verus!
