//! Script-facing events.
//!
//! Scripts exchange loosely typed values grouped into named event types.
//! Each event type owns one queue; the queue remembers how far it has been
//! read, so a reader only sees what arrived since its last read, and a
//! second read without new arrivals sees nothing.

use vstd::prelude::*;

use crate::strcoll::StrMap;

verus! {

/// A loosely typed value handed across the scripting boundary. Fractional
/// numbers are fixed-point micro-units (see `units`).
pub enum DynamicValue {
    Nil,
    Boolean(bool),
    Integer(i64),
    Float(i64),
    Text(String),
    Symbol(String),
    Array(Vec<DynamicValue>),
    Hash(StrMap<DynamicValue>),
}

impl DynamicValue {
    /// The boolean carried, if this is a boolean.
    pub fn as_bool(&self) -> (r: Option<bool>)
        ensures
            (match *self {
                DynamicValue::Boolean(v) => r == Some(v),
                _ => r is None,
            }),
    {
        match self {
            DynamicValue::Boolean(v) => Some(*v),
            _ => None,
        }
    }

    /// The integer carried, if this is an integer.
    pub fn as_i64(&self) -> (r: Option<i64>)
        ensures
            (match *self {
                DynamicValue::Integer(v) => r == Some(v),
                _ => r is None,
            }),
    {
        match self {
            DynamicValue::Integer(v) => Some(*v),
            _ => None,
        }
    }

    /// The borrowed characters, if this is text or a symbol.
    pub fn as_str(&self) -> (r: Option<&str>)
        ensures
            (match *self {
                DynamicValue::Text(v) => match r {
                    Some(t) => t@ == v@,
                    None => false,
                },
                DynamicValue::Symbol(v) => match r {
                    Some(t) => t@ == v@,
                    None => false,
                },
                _ => r is None,
            }),
    {
        match self {
            DynamicValue::Text(v) => Some(v.as_str()),
            DynamicValue::Symbol(v) => Some(v.as_str()),
            _ => None,
        }
    }
}

/// One event: its type name and its named fields.
pub struct Event {
    pub kind_name: String,
    pub data: StrMap<DynamicValue>,
}

impl Event {
    pub open spec fn wf(&self) -> bool {
        self.data.wf()
    }

    /// An event of the given type with no fields yet.
    pub fn new(kind_name: &str) -> (r: Event)
        ensures
            r.wf(),
            r.kind_name@ == kind_name@,
            r.data@ == Map::<Seq<char>, DynamicValue>::empty(),
    {
        Event { kind_name: kind_name.to_owned(), data: StrMap::new() }
    }

    /// An event of the given type carrying the given fields.
    pub fn with_data(kind_name: &str, data: StrMap<DynamicValue>) -> (r: Event)
        ensures
            r.kind_name@ == kind_name@,
            r.data == data,
    {
        Event { kind_name: kind_name.to_owned(), data }
    }

    /// Sets one field, replacing any previous value under that name.
    pub fn set(&mut self, key: &str, value: DynamicValue)
        requires
            old(self).wf(),
        ensures
            final(self).wf(),
            final(self).kind_name == old(self).kind_name,
            final(self).data@ == old(self).data@.insert(key@, value),
    {
        self.data.insert(key.to_owned(), value);
    }

    /// Reads one field back.
    pub fn get(&self, key: &str) -> (r: Option<&DynamicValue>)
        requires
            self.wf(),
        ensures
            match r {
                Some(v) => self.data@.dom().contains(key@) && *v == self.data@[key@],
                None => !self.data@.dom().contains(key@),
            },
    {
        self.data.get(key)
    }

    /// The event's type name.
    pub fn kind_name(&self) -> (r: &str)
        ensures
            r@ == self.kind_name@,
    {
        self.kind_name.as_str()
    }
}

/// One event type's queue: the events in arrival order, and how many of
/// them have been read already.
pub struct EventQueue {
    events: Vec<Event>,
    read_index: usize,
}

impl EventQueue {
    /// The events in arrival order.
    pub closed spec fn events_seq(&self) -> Seq<Event> {
        self.events@
    }

    /// The index the next read starts from; everything before it has been
    /// read.
    pub closed spec fn read_from(&self) -> int {
        self.read_index as int
    }

    /// The read cursor never runs past the end.
    pub closed spec fn wf(&self) -> bool {
        self.read_index <= self.events@.len()
    }

    /// An empty queue with nothing read.
    pub fn new() -> (r: EventQueue)
        ensures
            r.wf(),
            r.events_seq() == Seq::<Event>::empty(),
            r.read_from() == 0,
    {
        EventQueue { events: Vec::new(), read_index: 0 }
    }

    /// Appends one event; it counts as unread.
    pub fn send(&mut self, event: Event)
        requires
            old(self).wf(),
        ensures
            final(self).wf(),
            final(self).events_seq() == old(self).events_seq().push(event),
            final(self).read_from() == old(self).read_from(),
    {
        self.events.push(event);
    }

    /// Marks every event as read and returns the index this read's batch
    /// started at: the events from there to the end are what arrived since
    /// the last read, and a second read without new arrivals gets an empty
    /// batch.
    pub fn read(&mut self) -> (start: usize)
        requires
            old(self).wf(),
        ensures
            final(self).wf(),
            start == old(self).read_from(),
            final(self).read_from() == final(self).events_seq().len(),
            final(self).events_seq() == old(self).events_seq(),
    {
        let start = self.read_index;
        self.read_index = self.events.len();
        start
    }

    /// The event at an index, for walking a read batch.
    pub fn get_event(&self, i: usize) -> (r: Option<&Event>)
        ensures
            i < self.events_seq().len() ==> (match r {
                Some(e) => *e == self.events_seq()[i as int],
                None => false,
            }),
            i >= self.events_seq().len() ==> r is None,
    {
        if i < self.events.len() {
            Some(&self.events[i])
        } else {
            None
        }
    }

    /// Drops every event and rewinds the cursor.
    pub fn clear(&mut self)
        ensures
            final(self).wf(),
            final(self).events_seq() == Seq::<Event>::empty(),
            final(self).read_from() == 0,
    {
        self.events.clear();
        self.read_index = 0;
    }

    /// How many events the queue holds, read or not.
    pub fn len(&self) -> (n: usize)
        ensures
            n == self.events_seq().len(),
    {
        self.events.len()
    }

    /// Whether the queue holds no event at all.
    pub fn is_empty(&self) -> (b: bool)
        ensures
            b == (self.events_seq().len() == 0),
    {
        self.events.len() == 0
    }

    /// How many events arrived since the last read.
    pub fn unread_count(&self) -> (n: usize)
        requires
            self.wf(),
        ensures
            n == self.events_seq().len() - self.read_from(),
    {
        self.events.len() - self.read_index
    }
}

impl Default for EventQueue {
    /// The same empty queue `new` builds.
    fn default() -> (r: EventQueue)
        ensures
            r.wf(),
            r.events_seq() == Seq::<Event>::empty(),
            r.read_from() == 0,
    {
        EventQueue::new()
    }
}

/// Every registered event type with its queue.
pub struct Events {
    queues: StrMap<EventQueue>,
}

impl Events {
    /// The queue kept per registered type name.
    pub closed spec fn queues_map(&self) -> Map<Seq<char>, EventQueue> {
        self.queues@
    }

    pub closed spec fn wf(&self) -> bool {
        &&& self.queues.wf()
        &&& (forall|n: Seq<char>| #[trigger]
            self.queues@.dom().contains(n) ==> self.queues@[n].wf())
    }

    /// No event type registered yet.
    pub fn new() -> (r: Events)
        ensures
            r.wf(),
            r.queues_map() == Map::<Seq<char>, EventQueue>::empty(),
    {
        Events { queues: StrMap::new() }
    }

    /// Registers an event type; an already-registered type keeps its queue.
    pub fn register(&mut self, kind_name: &str)
        requires
            old(self).wf(),
        ensures
            final(self).wf(),
            final(self).queues_map().dom() == old(self).queues_map().dom().insert(kind_name@),
            old(self).queues_map().dom().contains(kind_name@) ==> final(self).queues_map() == old(
                self,
            ).queues_map(),
            !old(self).queues_map().dom().contains(kind_name@) ==> {
                &&& final(self).queues_map()[kind_name@].events_seq() == Seq::<Event>::empty()
                &&& final(self).queues_map()[kind_name@].read_from() == 0
                &&& (forall|n: Seq<char>|
                    n != kind_name@ && old(self).queues_map().dom().contains(n) ==> final(self).queues_map()[n] == old(self).queues_map()[n])
            },
    {
        if !self.queues.contains_key(kind_name) {
            self.queues.insert(kind_name.to_owned(), EventQueue::new());
        } else {
            proof {
                assert(self.queues@ =~= old(self).queues@.insert(
                    kind_name@,
                    old(self).queues@[kind_name@],
                ));
                assert(self.queues@ =~= old(self).queues@);
            }
        }
        proof {
            assert(self.queues@.dom() =~= old(self).queues@.dom().insert(kind_name@));
        }
    }

    /// Delivers an event to the queue of its type; an event of an
    /// unregistered type is dropped.
    pub fn send(&mut self, event: Event)
        requires
            old(self).wf(),
        ensures
            final(self).wf(),
            final(self).queues_map().dom() == old(self).queues_map().dom(),
            old(self).queues_map().dom().contains(event.kind_name@) ==> {
                &&& final(self).queues_map()[event.kind_name@].events_seq() == old(
                    self,
                ).queues_map()[event.kind_name@].events_seq().push(event)
                &&& final(self).queues_map()[event.kind_name@].read_from() == old(
                    self,
                ).queues_map()[event.kind_name@].read_from()
                &&& (forall|n: Seq<char>|
                    n != event.kind_name@ && old(self).queues_map().dom().contains(n) ==> final(self).queues_map()[n] == old(self).queues_map()[n])
            },
            !old(self).queues_map().dom().contains(event.kind_name@) ==> final(self).queues_map()
                == old(self).queues_map(),
    {
        let name = event.kind_name.clone();
        match self.queues.get_mut(name.as_str()) {
            Some(q) => {
                q.send(event);
            },
            None => {},
        }
        proof {
            assert(self.queues@.dom() =~= old(self).queues@.dom());
        }
    }

    /// Marks a type's queue as read and returns the index its unread batch
    /// started at; nothing for an unregistered type.
    pub fn read(&mut self, kind_name: &str) -> (r: Option<usize>)
        requires
            old(self).wf(),
        ensures
            final(self).wf(),
            final(self).queues_map().dom() == old(self).queues_map().dom(),
            match r {
                Some(start) => {
                    &&& old(self).queues_map().dom().contains(kind_name@)
                    &&& start == old(self).queues_map()[kind_name@].read_from()
                    &&& final(self).queues_map()[kind_name@].events_seq() == old(
                        self,
                    ).queues_map()[kind_name@].events_seq()
                    &&& final(self).queues_map()[kind_name@].read_from() == final(self).queues_map()[kind_name@].events_seq().len()
                    &&& (forall|n: Seq<char>|
                        n != kind_name@ && old(self).queues_map().dom().contains(n) ==> final(self).queues_map()[n] == old(self).queues_map()[n])
                },
                None => !old(self).queues_map().dom().contains(kind_name@) && final(self).queues_map() == old(self).queues_map(),
            },
    {
        let r = match self.queues.get_mut(kind_name) {
            Some(q) => Some(q.read()),
            None => None,
        };
        proof {
            assert(self.queues@.dom() =~= old(self).queues@.dom());
        }
        r
    }

    /// Empties a type's queue; nothing for an unregistered type.
    pub fn clear(&mut self, kind_name: &str)
        requires
            old(self).wf(),
        ensures
            final(self).wf(),
            final(self).queues_map().dom() == old(self).queues_map().dom(),
            old(self).queues_map().dom().contains(kind_name@) ==> {
                &&& final(self).queues_map()[kind_name@].events_seq() == Seq::<Event>::empty()
                &&& final(self).queues_map()[kind_name@].read_from() == 0
                &&& (forall|n: Seq<char>|
                    n != kind_name@ && old(self).queues_map().dom().contains(n) ==> final(self).queues_map()[n] == old(self).queues_map()[n])
            },
            !old(self).queues_map().dom().contains(kind_name@) ==> final(self).queues_map()
                == old(self).queues_map(),
    {
        match self.queues.get_mut(kind_name) {
            Some(q) => {
                q.clear();
            },
            None => {},
        }
        proof {
            assert(self.queues@.dom() =~= old(self).queues@.dom());
        }
    }

    /// Empties every registered queue.
    #[verifier::loop_isolation(false)]
    pub fn clear_all(&mut self)
        requires
            old(self).wf(),
        ensures
            final(self).wf(),
            final(self).queues_map().dom() == old(self).queues_map().dom(),
            forall|n: Seq<char>| #[trigger]
                final(self).queues_map().dom().contains(n) ==> final(self).queues_map()[n].events_seq() == Seq::<Event>::empty() && final(self).queues_map()[n].read_from() == 0,
    {
        let ks = self.queues.keys();
        let n = ks.len();
        let mut i: usize = 0;
        while i < n
            invariant
                n == ks@.len(),
                i <= n,
                self.wf(),
                self.queues@.dom() == old(self).queues@.dom(),
                forall|j: int|
                    0 <= j < i ==> self.queues@.dom().contains(#[trigger] ks@[j]@)
                        && self.queues@[ks@[j]@].events_seq() == Seq::<Event>::empty()
                        && self.queues@[ks@[j]@].read_from() == 0,
            decreases n - i,
        {
            let ghost pre = self.queues@;
            match self.queues.get_mut(ks[i].as_str()) {
                Some(q) => {
                    q.clear();
                },
                None => {},
            }
            proof {
                assert(self.queues@.dom() =~= pre.dom());
                assert forall|j: int|
                    0 <= j < i + 1 implies self.queues@.dom().contains(#[trigger] ks@[j]@)
                    && self.queues@[ks@[j]@].events_seq() == Seq::<Event>::empty()
                    && self.queues@[ks@[j]@].read_from() == 0 by {
                    if j < i {
                        assert(ks@[j]@ != ks@[i as int]@);
                        assert(self.queues@[ks@[j]@] == pre[ks@[j]@]);
                    }
                }
            }
            i = i + 1;
        }
        proof {
            assert forall|nm: Seq<char>| #[trigger]
                self.queues@.dom().contains(nm) implies self.queues@[nm].events_seq() == Seq::<
                Event,
            >::empty() && self.queues@[nm].read_from() == 0 by {
                let j = choose|j: int| 0 <= j < ks@.len() && ks@[j]@ == nm;
            }
        }
    }

    /// A type's queue, for reading.
    pub fn get_queue(&self, kind_name: &str) -> (r: Option<&EventQueue>)
        requires
            self.wf(),
        ensures
            match r {
                Some(q) => self.queues_map().dom().contains(kind_name@) && *q
                    == self.queues_map()[kind_name@],
                None => !self.queues_map().dom().contains(kind_name@),
            },
    {
        self.queues.get(kind_name)
    }

    /// A type's queue, mutably; the registry stays well-formed as long as
    /// the caller leaves the queue well-formed, which every queue method
    /// does.
    pub fn get_queue_mut(&mut self, kind_name: &str) -> (r: Option<&mut EventQueue>)
        requires
            old(self).wf(),
        ensures
            match r {
                Some(q) => {
                    &&& old(self).queues_map().dom().contains(kind_name@)
                    &&& *q == old(self).queues_map()[kind_name@]
                    &&& final(self).queues_map() == old(self).queues_map().insert(
                        kind_name@,
                        *final(q),
                    )
                    &&& (final(q).wf() ==> final(self).wf())
                },
                None => !old(self).queues_map().dom().contains(kind_name@) && *final(self)
                    == *old(self),
            },
    {
        self.queues.get_mut(kind_name)
    }

    /// Whether an event type is registered.
    pub fn is_registered(&self, kind_name: &str) -> (b: bool)
        requires
            self.wf(),
        ensures
            b == self.queues_map().dom().contains(kind_name@),
    {
        self.queues.contains_key(kind_name)
    }
}

impl Default for Events {
    /// The same empty registry `new` builds.
    fn default() -> (r: Events)
        ensures
            r.wf(),
            r.queues_map() == Map::<Seq<char>, EventQueue>::empty(),
    {
        Events::new()
    }
}

} // verus!
