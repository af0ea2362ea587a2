//! What the command line configures: the process, the event and the duration.

use crate::text::same_text;
use vstd::prelude::*;

verus! {

/// The arguments of a profiling session.
#[derive(Debug)]
pub struct Args {
    /// The process to profile.
    pub pid: i32,
    /// The name of the event to count.
    pub event: String,
    /// How long to sample, in milliseconds.
    pub duration: u64,
}

/// An event that a performance counter can count.
#[derive(Debug, Clone, Copy, PartialEq, Eq, Structural)]
pub enum EventKind {
    CpuCycles,
    Instructions,
    CacheReferences,
    CacheMisses,
    TaskClock,
    CpuClock,
    ContextSwitches,
    PageFaults,
}

/// The error for a name that names no event.
#[derive(Debug)]
pub struct UnknownEvent {
    /// The name as it was given.
    pub name: String,
}

/// The event that `name` names. These eight names name events, and no other
/// text does.
pub open spec fn event_named(name: Seq<char>) -> Option<EventKind> {
    if name == "cpu-cycles"@ {
        Some(EventKind::CpuCycles)
    } else if name == "instructions"@ {
        Some(EventKind::Instructions)
    } else if name == "cache-references"@ {
        Some(EventKind::CacheReferences)
    } else if name == "cache-misses"@ {
        Some(EventKind::CacheMisses)
    } else if name == "task-clock"@ {
        Some(EventKind::TaskClock)
    } else if name == "cpu-clock"@ {
        Some(EventKind::CpuClock)
    } else if name == "context-switches"@ {
        Some(EventKind::ContextSwitches)
    } else if name == "page-faults"@ {
        Some(EventKind::PageFaults)
    } else {
        None
    }
}

/// Each of the eight names names its own event.
pub proof fn lemma_event_names()
    ensures
        event_named("cpu-cycles"@) == Some(EventKind::CpuCycles),
        event_named("instructions"@) == Some(EventKind::Instructions),
        event_named("cache-references"@) == Some(EventKind::CacheReferences),
        event_named("cache-misses"@) == Some(EventKind::CacheMisses),
        event_named("task-clock"@) == Some(EventKind::TaskClock),
        event_named("cpu-clock"@) == Some(EventKind::CpuClock),
        event_named("context-switches"@) == Some(EventKind::ContextSwitches),
        event_named("page-faults"@) == Some(EventKind::PageFaults),
{
    reveal_strlit("cpu-cycles");
    reveal_strlit("instructions");
    reveal_strlit("cache-references");
    reveal_strlit("cache-misses");
    reveal_strlit("task-clock");
    reveal_strlit("cpu-clock");
    reveal_strlit("context-switches");
    reveal_strlit("page-faults");
    assert("cpu-cycles"@.len() == 10 && "task-clock"@.len() == 10);
    assert("instructions"@.len() == 12 && "cache-misses"@.len() == 12);
    assert("cache-references"@.len() == 16 && "context-switches"@.len() == 16);
    assert("cpu-clock"@.len() == 9 && "page-faults"@.len() == 11);
    assert("cpu-cycles"@[0] != "task-clock"@[0]);
    assert("instructions"@[0] != "cache-misses"@[0]);
    assert("cache-references"@[1] != "context-switches"@[1]);
}

/// The event that `event_name` names, or the error that holds the name.
pub fn parse_event(event_name: &str) -> (parsed: Result<EventKind, UnknownEvent>)
    ensures
        match parsed {
            Ok(kind) => event_named(event_name@) == Some(kind),
            Err(error) => event_named(event_name@) is None && error.name@ == event_name@,
        },
{
    if same_text(event_name, "cpu-cycles") {
        Ok(EventKind::CpuCycles)
    } else if same_text(event_name, "instructions") {
        Ok(EventKind::Instructions)
    } else if same_text(event_name, "cache-references") {
        Ok(EventKind::CacheReferences)
    } else if same_text(event_name, "cache-misses") {
        Ok(EventKind::CacheMisses)
    } else if same_text(event_name, "task-clock") {
        Ok(EventKind::TaskClock)
    } else if same_text(event_name, "cpu-clock") {
        Ok(EventKind::CpuClock)
    } else if same_text(event_name, "context-switches") {
        Ok(EventKind::ContextSwitches)
    } else if same_text(event_name, "page-faults") {
        Ok(EventKind::PageFaults)
    } else {
        Err(UnknownEvent { name: event_name.to_owned() })
    }
}

impl UnknownEvent {
    /// The message for the user: `Unknown event: <name>`.
    pub fn message(&self) -> (text: String)
        ensures
            text@ == "Unknown event: "@ + self.name@,
    {
        let mut text = String::from_str("Unknown event: ");
        text.append(self.name.as_str());
        text
    }
}

} // verus!
