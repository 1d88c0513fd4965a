use vstd::prelude::*;
use hashbrown::HashMap;

verus! {

/// How often each event has struck, kept in a `hashbrown::HashMap` from the
/// event's id to its count. The map is hidden from the verifier as a whole:
/// its type has an allocator parameter that cannot be named from outside
/// `hashbrown`. All that is known of it is what the methods below state of
/// its counts.
#[verifier::external_body]
#[derive(Debug)]
pub struct EventLog {
    counts: HashMap<u32, u32>,
}

/// The counts that a log holds, by event id.
pub uninterp spec fn event_counts(log: EventLog) -> Map<u32, u32>;

/// The count that follows `count`; the largest count stays.
pub open spec fn next_count(count: Option<u32>) -> u32 {
    match count {
        Some(c) => if c < u32::MAX {
            (c + 1) as u32
        } else {
            c
        },
        None => 1,
    }
}

impl EventLog {
    /// The count on record for `id`, if there is one.
    pub open spec fn lookup(self, id: u32) -> Option<u32> {
        if event_counts(self).dom().contains(id) {
            Some(event_counts(self)[id])
        } else {
            None
        }
    }

    /// `HashMap::new`: a log without any count.
    #[verifier::external_body]
    pub(crate) fn empty() -> (r: EventLog)
        ensures
            event_counts(r) == (Map::<u32, u32>::empty()),
    {
        EventLog { counts: HashMap::new() }
    }

    /// `HashMap::get`: the count kept under `id`, if there is one.
    #[verifier::external_body]
    pub(crate) fn get(&self, id: u32) -> (r: Option<u32>)
        ensures
            r == self.lookup(id),
    {
        self.counts.get(&id).copied()
    }

    /// `HashMap::insert`: `count` is kept under `id` in place of what was
    /// there, which is returned; other ids keep their counts.
    #[verifier::external_body]
    pub(crate) fn insert(&mut self, id: u32, count: u32) -> (r: Option<u32>)
        ensures
            event_counts(*final(self)) == event_counts(*old(self)).insert(id, count),
            r == old(self).lookup(id),
    {
        self.counts.insert(id, count)
    }

    /// `HashMap::clone`: a log of its own with the same counts.
    #[verifier::external_body]
    pub(crate) fn duplicate(&self) -> (r: EventLog)
        ensures
            event_counts(r) == event_counts(*self),
    {
        EventLog { counts: self.counts.clone() }
    }

    /// A log without any count.
    pub fn new() -> (r: EventLog)
        ensures
            event_counts(r) == (Map::<u32, u32>::empty()),
    {
        EventLog::empty()
    }

    /// How often the event `id` has struck.
    pub fn count(&self, id: u32) -> (r: u32)
        ensures
            r == match self.lookup(id) {
                Some(c) => c,
                None => 0,
            },
    {
        match self.get(id) {
            Some(c) => c,
            None => 0,
        }
    }

    /// Counts one more strike of the event `id`.
    pub fn record(&mut self, id: u32)
        ensures
            event_counts(*final(self)) == event_counts(*old(self)).insert(
                id,
                next_count(old(self).lookup(id)),
            ),
    {
        let next: u32 = match self.get(id) {
            Some(c) => if c < u32::MAX {
                c + 1
            } else {
                c
            },
            None => 1,
        };
        self.insert(id, next);
    }
}

} // verus!
