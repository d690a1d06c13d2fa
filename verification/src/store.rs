//! The session store as the session layer speaks to it: what a lookup can
//! answer, what a request can ask the store to do when it is done, and a store
//! in memory that does what is asked.
//!
//! A record lives until its deadline. Saving or touching a record moves the
//! deadline to the current time plus the time to live it is given, so a session
//! that is used stays and one that is not used goes.

use crate::session::{AttributeBag, Attributes};
use crate::text_map::TextMap;
use vstd::prelude::*;

verus! {

/// The store's answer to a lookup.
#[derive(Debug)]
pub enum Lookup {
    /// The store holds a record under the identifier.
    Found(AttributeBag),
    /// The store holds none.
    Absent,
    /// The store could not be reached or did not answer in time.
    Unavailable,
}

/// What a lookup's answer holds.
pub enum LookupView {
    Found(Attributes),
    Absent,
    Unavailable,
}

impl View for Lookup {
    type V = LookupView;

    open spec fn view(&self) -> LookupView {
        match self {
            Lookup::Found(bag) => LookupView::Found(bag@),
            Lookup::Absent => LookupView::Absent,
            Lookup::Unavailable => LookupView::Unavailable,
        }
    }
}

/// What a request asks of the store when it is done.
#[derive(Debug)]
pub enum StoreCommand {
    /// Nothing.
    Nothing,
    /// Keep these attributes under the identifier for `ttl` seconds from now.
    Save { id: String, bag: AttributeBag, ttl: u32 },
    /// Keep the record under the identifier for `ttl` seconds from now.
    Touch { id: String, ttl: u32 },
    /// Delete the record under the identifier.
    Delete { id: String },
}

/// What a command holds.
pub enum CommandView {
    Nothing,
    Save { id: Seq<char>, attrs: Attributes, ttl: nat },
    Touch { id: Seq<char>, ttl: nat },
    Delete { id: Seq<char> },
}

impl View for StoreCommand {
    type V = CommandView;

    open spec fn view(&self) -> CommandView {
        match self {
            StoreCommand::Nothing => CommandView::Nothing,
            StoreCommand::Save { id, bag, ttl } => CommandView::Save {
                id: id@,
                attrs: bag@,
                ttl: *ttl as nat,
            },
            StoreCommand::Touch { id, ttl } => CommandView::Touch { id: id@, ttl: *ttl as nat },
            StoreCommand::Delete { id } => CommandView::Delete { id: id@ },
        }
    }
}

/// A record in the store.
#[derive(Debug)]
pub struct Record {
    pub bag: AttributeBag,
    /// The time, in seconds, from which on the record counts as gone.
    pub deadline: u64,
}

/// What a record holds.
pub struct RecordView {
    pub attrs: Attributes,
    pub deadline: nat,
}

impl View for Record {
    type V = RecordView;

    open spec fn view(&self) -> RecordView {
        RecordView { attrs: self.bag@, deadline: self.deadline as nat }
    }
}

/// What a store holds: records by identifier.
pub type Records = Map<Seq<char>, RecordView>;

/// The deadline of a record that is given `ttl` seconds at the time `now`. It
/// stops at the largest time that can be written.
pub open spec fn deadline_at(now: nat, ttl: nat) -> nat {
    if now + ttl > u64::MAX {
        u64::MAX as nat
    } else {
        now + ttl
    }
}

/// The attributes that a lookup of `id` finds at the time `now`: those of the
/// record under `id`, if there is one and its deadline has not come.
pub open spec fn live(records: Records, id: Seq<char>, now: nat) -> Option<Attributes> {
    if records.contains_key(id) && now < records[id].deadline {
        Some(records[id].attrs)
    } else {
        None
    }
}

/// The answer that a store which can be reached gives to a lookup.
pub open spec fn answer(records: Records, id: Seq<char>, now: nat) -> LookupView {
    match live(records, id, now) {
        Some(attrs) => LookupView::Found(attrs),
        None => LookupView::Absent,
    }
}

/// The records after a command was carried out at the time `now`. Touching a
/// record that is gone does nothing.
pub open spec fn applied(records: Records, command: CommandView, now: nat) -> Records {
    match command {
        CommandView::Nothing => records,
        CommandView::Save { id, attrs, ttl } => records.insert(
            id,
            RecordView { attrs, deadline: deadline_at(now, ttl) },
        ),
        CommandView::Touch { id, ttl } => match live(records, id, now) {
            Some(attrs) => records.insert(
                id,
                RecordView { attrs, deadline: deadline_at(now, ttl) },
            ),
            None => records,
        },
        CommandView::Delete { id } => records.remove(id),
    }
}

/// The records that a map of records stands for.
pub open spec fn records_of(map: Map<Seq<char>, Record>) -> Records {
    map.map_values(|r: Record| r@)
}

/// The time `ttl` seconds after `now`, or the largest time if that is sooner.
fn deadline(now: u64, ttl: u32) -> (r: u64)
    ensures
        r == deadline_at(now as nat, ttl as nat),
{
    if now > u64::MAX - (ttl as u64) {
        u64::MAX
    } else {
        now + (ttl as u64)
    }
}

/// A session store in memory.
#[derive(Debug)]
pub struct MemoryStore {
    records: TextMap<Record>,
}

impl View for MemoryStore {
    type V = Records;

    closed spec fn view(&self) -> Records {
        records_of(self.records.map())
    }
}

impl MemoryStore {
    /// A store without records.
    pub fn new() -> (r: MemoryStore)
        ensures
            r@ == Records::empty(),
    {
        let r = MemoryStore { records: TextMap::new() };
        assert(r@ =~= Records::empty());
        r
    }

    /// Looks `id` up at the time `now`.
    pub fn get(&self, id: &str, now: u64) -> (r: Lookup)
        ensures
            r@ == answer(self@, id@, now as nat),
    {
        match self.records.get(id) {
            Some(record) => {
                if now < record.deadline {
                    Lookup::Found(record.bag.duplicate())
                } else {
                    Lookup::Absent
                }
            },
            None => Lookup::Absent,
        }
    }

    /// Keeps `bag` under `id` for `ttl` seconds from `now`.
    pub fn set(&mut self, id: &str, bag: AttributeBag, ttl: u32, now: u64)
        ensures
            final(self)@ == applied(
                old(self)@,
                (CommandView::Save { id: id@, attrs: bag@, ttl: ttl as nat }),
                now as nat,
            ),
    {
        let ghost before = self.records.map();
        let record = Record { bag, deadline: deadline(now, ttl) };
        self.records.insert(id, record);
        assert(records_of(before.insert(id@, record)) =~= records_of(before).insert(id@, record@));
    }

    /// Keeps the record under `id`, if it is not gone, for `ttl` seconds from `now`.
    pub fn touch(&mut self, id: &str, ttl: u32, now: u64)
        ensures
            final(self)@ == applied(
                old(self)@,
                (CommandView::Touch { id: id@, ttl: ttl as nat }),
                now as nat,
            ),
    {
        let ghost before = self.records.map();
        let found = match self.records.get(id) {
            Some(record) => {
                if now < record.deadline {
                    Some(record.bag.duplicate())
                } else {
                    None
                }
            },
            None => None,
        };
        match found {
            Some(bag) => {
                let record = Record { bag, deadline: deadline(now, ttl) };
                self.records.insert(id, record);
                assert(records_of(before.insert(id@, record)) =~= records_of(before).insert(
                    id@,
                    record@,
                ));
            },
            None => {},
        }
    }

    /// Deletes the record under `id`, if there is one.
    pub fn delete(&mut self, id: &str)
        ensures
            final(self)@ == applied(old(self)@, (CommandView::Delete { id: id@ }), 0),
            final(self)@ == old(self)@.remove(id@),
    {
        let ghost before = self.records.map();
        self.records.remove(id);
        assert(records_of(before.remove(id@)) =~= records_of(before).remove(id@));
    }

    /// Carries out a command at the time `now`.
    pub fn apply(&mut self, command: StoreCommand, now: u64)
        ensures
            final(self)@ == applied(old(self)@, command@, now as nat),
    {
        match command {
            StoreCommand::Nothing => {},
            StoreCommand::Save { id, bag, ttl } => self.set(id.as_str(), bag, ttl, now),
            StoreCommand::Touch { id, ttl } => self.touch(id.as_str(), ttl, now),
            StoreCommand::Delete { id } => self.delete(id.as_str()),
        }
    }
}

/// A record that was deleted is not found, at any time.
pub proof fn lemma_deleted_is_absent(records: Records, id: Seq<char>, now: nat, later: nat)
    ensures
        answer(applied(records, (CommandView::Delete { id }), now), id, later)
            == LookupView::Absent,
{
}

/// A record that was saved is found with what was saved, until its deadline.
pub proof fn lemma_saved_is_found(
    records: Records,
    id: Seq<char>,
    attrs: Attributes,
    ttl: nat,
    now: nat,
    later: nat,
)
    requires
        later < deadline_at(now, ttl),
    ensures
        answer(applied(records, (CommandView::Save { id, attrs, ttl }), now), id, later)
            == LookupView::Found(attrs),
{
}

/// A command about one identifier leaves what is found under another as it was.
pub proof fn lemma_command_keeps_others(
    records: Records,
    command: CommandView,
    now: nat,
    other: Seq<char>,
    later: nat,
)
    requires
        match command {
            CommandView::Nothing => true,
            CommandView::Save { id, .. } => id != other,
            CommandView::Touch { id, .. } => id != other,
            CommandView::Delete { id } => id != other,
        },
    ensures
        answer(applied(records, command, now), other, later) == answer(records, other, later),
{
}

} // verus!
