//! What a live graph adapter reports about the session it realized.
use vstd::prelude::*;
use std::collections::BTreeMap;

verus! {

/// The observable state of a realized session: owned nodes and links, whether it runs,
/// and the buffers the discard sinks consumed, in total and per sink.
#[derive(Clone, Debug, Default, PartialEq, Eq)]
pub struct LiveGraphStatus {
    pub owned_nodes: usize,
    pub owned_links: usize,
    pub running: bool,
    pub discarded_buffers: u64,
    pub discarded_by_sink: BTreeMap<String, u64>,
}

} // verus!
