//! The records kept in the local history store: dictation takes, meetings, and the
//! utterances (segments) a meeting transcript is made of.
use vstd::prelude::*;

verus! {

/// A dictation take: one pass of record, transcribe and refine. `at` is an ISO-8601
/// UTC time, which sorts as text.
#[derive(Debug)]
pub struct Take {
    pub id: String,
    pub at: String,
    pub raw: String,
    pub refined: String,
    pub stt_model: String,
    pub llm_model: String,
    /// The app the take was typed into.
    pub app: Option<String>,
    pub lang: Option<String>,
}

/// One utterance of a meeting: who spoke (a free-form label), which channel it came
/// from (microphone or system audio), when, and what was said.
#[derive(Debug)]
pub struct Segment {
    pub id: i64,
    pub speaker: String,
    pub source: String,
    pub start_ms: i64,
    pub end_ms: i64,
    pub text: String,
}

/// A meeting: its details and, when fetched in full, its segments.
#[derive(Debug)]
pub struct Meeting {
    pub id: String,
    pub title: String,
    pub started_at: String,
    pub ended_at: Option<String>,
    pub summary: String,
    pub notes: String,
    pub stt_model: String,
    pub llm_model: String,
    pub lang: Option<String>,
    /// Filled when one meeting is fetched; empty in lists.
    pub segments: Vec<Segment>,
    /// The number of segments, for lists.
    pub segment_count: i64,
}

/// The speaker a stored segment without one is given.
pub fn default_speaker() -> (r: String)
    ensures
        r@ == "them"@,
{
    String::from_str("them")
}

/// The channel a stored segment without one is given.
pub fn default_source() -> (r: String)
    ensures
        r@ == "system"@,
{
    String::from_str("system")
}

} // verus!
