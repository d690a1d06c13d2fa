//! Work events: the spans of time that belong to a work record.

use chrono::NaiveDateTime;
use vstd::prelude::*;

verus! {

/// `chrono::NaiveDateTime`: a date and a time of day without a time zone. The
/// library carries such values and does not look inside them.
#[verifier::external_type_specification]
#[verifier::external_body]
pub struct ExNaiveDateTime(chrono::NaiveDateTime);

/// A work event as the database returns it.
#[derive(Debug, Clone, Copy)]
pub struct RawWorkEvent {
    pub id: i32,
    pub record_id: i32,
    pub start_time: NaiveDateTime,
    pub end_time: NaiveDateTime,
}

/// A work event as a client asks for it.
#[derive(Debug, Clone, Copy)]
pub struct CreateWorkEvent {
    pub record_id: i32,
    pub start_time: NaiveDateTime,
    pub end_time: NaiveDateTime,
}

/// A work event as it is written to the database.
#[derive(Debug, Clone, Copy)]
pub struct WorkEvent {
    pub record_id: i32,
    pub start_time: NaiveDateTime,
    pub end_time: NaiveDateTime,
    pub create_time: NaiveDateTime,
    pub update_time: NaiveDateTime,
}

/// The request to delete the work events of a record.
#[derive(Debug, Clone, Copy)]
pub struct DeleteEvents;

impl CreateWorkEvent {
    /// The event to write for the record `record_id`: the span that the client
    /// asked for, created and last updated at `date_time`. The record that the
    /// client named is not taken over.
    pub fn into_work_event(&self, record_id: i32, date_time: &NaiveDateTime) -> (event: WorkEvent)
        ensures
            event.record_id == record_id,
            event.start_time == self.start_time,
            event.end_time == self.end_time,
            event.create_time == *date_time,
            event.update_time == *date_time,
    {
        WorkEvent {
            record_id,
            start_time: self.start_time,
            end_time: self.end_time,
            create_time: *date_time,
            update_time: *date_time,
        }
    }
}

} // verus!
