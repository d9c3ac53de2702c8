//! The audio playlist.
//!
//! The mixing itself (volumes, fades, spatial attenuation) belongs to the
//! engine's audio collaborator; this module keeps the queue of track paths
//! and the cursor into it.

use vstd::prelude::*;

verus! {

/// How a track keeps playing once it ends.
#[derive(Debug, Clone, Copy, PartialEq, Eq, Hash, Structural)]
pub enum PlaybackMode {
    Once,
    Loop,
    Despawn,
}

impl Default for PlaybackMode {
    /// Play once.
    fn default() -> (r: PlaybackMode)
        ensures
            r == PlaybackMode::Once,
    {
        PlaybackMode::Once
    }
}

/// An ordered list of track paths with a cursor. `next` and `previous` move
/// the cursor, wrapping only when `loop_queue` is set. The cursor sits at
/// most one past the last track; past the end, `current` is nothing.
pub struct AudioQueue {
    pub tracks: Vec<String>,
    pub current_index: usize,
    pub loop_queue: bool,
    pub shuffle: bool,
}

impl AudioQueue {
    /// The cursor never runs more than one past the last track.
    pub open spec fn wf(&self) -> bool {
        self.current_index <= self.tracks@.len()
    }

    /// An empty queue, cursor at the start, not looping, not shuffling.
    pub fn new() -> (r: AudioQueue)
        ensures
            r.wf(),
            r.tracks@ == Seq::<String>::empty(),
            r.current_index == 0,
            !r.loop_queue,
            !r.shuffle,
    {
        AudioQueue { tracks: Vec::new(), current_index: 0, loop_queue: false, shuffle: false }
    }

    /// Appends one track.
    pub fn add(&mut self, path: String)
        requires
            old(self).wf(),
        ensures
            final(self).wf(),
            final(self).tracks@ == old(self).tracks@.push(path),
            final(self).current_index == old(self).current_index,
            final(self).loop_queue == old(self).loop_queue,
            final(self).shuffle == old(self).shuffle,
    {
        self.tracks.push(path);
    }

    /// Appends a batch of tracks in order.
    pub fn add_all(&mut self, paths: Vec<String>)
        requires
            old(self).wf(),
        ensures
            final(self).wf(),
            final(self).tracks@ == old(self).tracks@ + paths@,
            final(self).current_index == old(self).current_index,
            final(self).loop_queue == old(self).loop_queue,
            final(self).shuffle == old(self).shuffle,
    {
        let mut paths = paths;
        self.tracks.append(&mut paths);
    }

    /// The track under the cursor, if the cursor is on one.
    pub fn current(&self) -> (r: Option<&String>)
        ensures
            self.current_index < self.tracks@.len() ==> (match r {
                Some(t) => *t == self.tracks@[self.current_index as int],
                None => false,
            }),
            self.current_index >= self.tracks@.len() ==> r is None,
    {
        if self.current_index < self.tracks.len() {
            Some(&self.tracks[self.current_index])
        } else {
            None
        }
    }

    /// Moves the cursor one track forward. At the end, a looping queue
    /// restarts from the first track; one that does not loop yields nothing
    /// and stays at the end. An empty queue yields nothing.
    pub fn next(&mut self) -> (r: Option<&String>)
        requires
            old(self).wf(),
        ensures
            final(self).wf(),
            final(self).tracks@ == old(self).tracks@,
            final(self).loop_queue == old(self).loop_queue,
            final(self).shuffle == old(self).shuffle,
            old(self).tracks@.len() == 0 ==> r is None && final(self).current_index == old(
                self,
            ).current_index,
            old(self).tracks@.len() > 0 ==> {
                let stepped = if old(self).current_index < old(self).tracks@.len() {
                    old(self).current_index + 1
                } else {
                    old(self).current_index as int
                };
                if stepped >= old(self).tracks@.len() {
                    if old(self).loop_queue {
                        final(self).current_index == 0 && (match r {
                            Some(t) => *t == final(self).tracks@[0],
                            None => false,
                        })
                    } else {
                        final(self).current_index == stepped && r is None
                    }
                } else {
                    final(self).current_index == stepped && (match r {
                        Some(t) => *t == final(self).tracks@[stepped],
                        None => false,
                    })
                }
            },
    {
        if self.tracks.len() == 0 {
            return None;
        }
        if self.current_index < self.tracks.len() {
            self.current_index = self.current_index + 1;
        }
        if self.current_index >= self.tracks.len() {
            if self.loop_queue {
                self.current_index = 0;
            } else {
                return None;
            }
        }
        Some(&self.tracks[self.current_index])
    }

    /// Moves the cursor one track back. At the start, a looping queue jumps
    /// to the last track; one that does not loop yields nothing and stays.
    /// An empty queue yields nothing.
    pub fn previous(&mut self) -> (r: Option<&String>)
        requires
            old(self).wf(),
        ensures
            final(self).wf(),
            final(self).tracks@ == old(self).tracks@,
            final(self).loop_queue == old(self).loop_queue,
            final(self).shuffle == old(self).shuffle,
            old(self).tracks@.len() == 0 ==> r is None && final(self).current_index == old(
                self,
            ).current_index,
            old(self).tracks@.len() > 0 ==> {
                if old(self).current_index == 0 {
                    if old(self).loop_queue {
                        final(self).current_index == old(self).tracks@.len() - 1 && (match r {
                            Some(t) => *t == final(self).tracks@[old(self).tracks@.len() - 1],
                            None => false,
                        })
                    } else {
                        final(self).current_index == 0 && r is None
                    }
                } else {
                    final(self).current_index == old(self).current_index - 1 && (match r {
                        Some(t) => *t == final(self).tracks@[old(self).current_index - 1],
                        None => false,
                    })
                }
            },
    {
        if self.tracks.len() == 0 {
            return None;
        }
        if self.current_index == 0 {
            if self.loop_queue {
                self.current_index = self.tracks.len() - 1;
            } else {
                return None;
            }
        } else {
            self.current_index = self.current_index - 1;
        }
        Some(&self.tracks[self.current_index])
    }

    /// Drops every track and rewinds the cursor.
    pub fn clear(&mut self)
        ensures
            final(self).wf(),
            final(self).tracks@ == Seq::<String>::empty(),
            final(self).current_index == 0,
            final(self).loop_queue == old(self).loop_queue,
            final(self).shuffle == old(self).shuffle,
    {
        self.tracks.clear();
        self.current_index = 0;
    }

    /// How many tracks are queued.
    pub fn len(&self) -> (n: usize)
        ensures
            n == self.tracks@.len(),
    {
        self.tracks.len()
    }

    /// Whether no track is queued.
    pub fn is_empty(&self) -> (b: bool)
        ensures
            b == (self.tracks@.len() == 0),
    {
        self.tracks.len() == 0
    }
}

impl Default for AudioQueue {
    /// The same empty queue `new` builds.
    fn default() -> (r: AudioQueue)
        ensures
            r.wf(),
            r.tracks@ == Seq::<String>::empty(),
            r.current_index == 0,
            !r.loop_queue,
            !r.shuffle,
    {
        AudioQueue::new()
    }
}

} // verus!
