//! Where domain events are published: the bus and the source under which
//! the engine's events go out.
use vstd::prelude::*;
use vstd::string::StringExecFns;

verus! {

/// The source of every event the engine publishes.
pub open spec fn engine_source() -> Seq<char> {
    "metri.engine"@
}

/// A publisher that puts each event on a named bus, as the engine's source.
#[derive(Debug)]
pub struct ContractEventPublisher {
    pub bus_name: String,
    pub source: String,
}

impl ContractEventPublisher {
    /// A publisher on `bus_name`.
    pub fn new(bus_name: String) -> (r: ContractEventPublisher)
        ensures
            r.bus_name == bus_name,
            r.source@ == engine_source(),
    {
        ContractEventPublisher { bus_name, source: String::from_str("metri.engine") }
    }
}

/// The bus of the detached publisher: the configured one, else `metri-events`.
pub open spec fn detached_bus_name(configured: Option<Seq<char>>) -> Seq<char> {
    match configured {
        Some(b) => b,
        None => "metri-events"@,
    }
}

/// A publisher that hands each event to a background sender and does not wait.
#[derive(Debug)]
pub struct DetachedEventBridgePublisher {}

impl DetachedEventBridgePublisher {
    /// The bus that events go to, given the `EVENTBRIDGE_BUS_NAME` setting.
    pub fn bus_name(configured: Option<String>) -> (r: String)
        ensures
            r@ == detached_bus_name(
                match configured {
                    Some(b) => Some(b@),
                    None => None,
                },
            ),
    {
        match configured {
            Some(b) => b,
            None => String::from_str("metri-events"),
        }
    }
}

/// A publisher that publishes nothing and always succeeds.
#[derive(Debug)]
pub struct NoopEventPublisher {}

impl NoopEventPublisher {
    /// Accepts the event and does nothing with it.
    pub fn publish(&self, detail_type: &str) -> (r: Result<(), ()>)
        ensures
            r is Ok,
    {
        Ok(())
    }
}

} // verus!
