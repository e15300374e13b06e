//! The transcription history: the last transcriptions with their
//! identities and times. Persistence lives outside; the shape and the
//! identity discipline live here.

use vstd::prelude::*;

verus! {

/// One remembered transcription.
#[derive(Clone, Debug)]
pub struct HistoryEntry {
    pub id: u64,
    pub timestamp: i64,
    pub text: String,
}

/// The history with the next identity to hand out.
#[derive(Clone, Debug)]
pub struct HistoryData {
    pub entries: Vec<HistoryEntry>,
    pub next_id: u64,
}

impl Default for HistoryData {
    /// An empty history; identities start at one.
    fn default() -> (r: HistoryData)
        ensures
            r.entries@.len() == 0,
            r.next_id == 1,
    {
        HistoryData { entries: Vec::new(), next_id: 1 }
    }
}

} // verus!
