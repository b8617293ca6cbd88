//! Track list and navigation, in order or through a shuffled order.
use vstd::prelude::*;
use crate::fixed::{ONE, min_int};
use crate::rng::random_u64;

verus! {

pub struct PlaylistTrack {
    pub name: String,
    pub path: String,
    /// Length in seconds of `1 / ONE`.
    pub duration: u64,
    pub file_type: String,
}

pub struct PlaylistState {
    pub tracks: Vec<PlaylistTrack>,
    pub current_index: Option<usize>,
    pub is_playing: bool,
    pub is_shuffled: bool,
    pub shuffle_order: Vec<usize>,
    /// Playback position and length of the current track, in seconds of
    /// `1 / ONE`.
    pub current_time: u64,
    pub duration: u64,
    pub volume: u64,
}

/// `p` is the first position of `x` in `s`.
pub open spec fn is_first_pos(s: Seq<usize>, x: usize, p: int) -> bool {
    0 <= p < s.len() && s[p] == x && forall|q: int| 0 <= q < p ==> s[q] != x
}

pub open spec fn first_pos(s: Seq<usize>, x: usize) -> int {
    choose|p: int| is_first_pos(s, x, p)
}

/// `s` holds each of `0..n` exactly once.
pub open spec fn is_permutation(s: Seq<usize>, n: int) -> bool {
    &&& s.len() == n
    &&& forall|i: int| 0 <= i < n ==> #[trigger] s[i] < n
    &&& forall|i: int, j: int| 0 <= i < j < n ==> s[i] != s[j]
}

impl PlaylistState {
    pub open spec fn uses_order(&self) -> bool {
        self.is_shuffled && self.shuffle_order@.len() > 0
    }

    /// Track after the current one; from no track, the first.
    pub open spec fn spec_next(&self) -> Option<usize> {
        if self.tracks@.len() == 0 {
            None
        } else {
            match self.current_index {
                None => Some(0),
                Some(idx) => if self.uses_order() {
                    let s = self.shuffle_order@;
                    if exists|p: int| is_first_pos(s, idx, p) {
                        let p = first_pos(s, idx);
                        if p + 1 < s.len() { Some(s[p + 1]) } else { None }
                    } else {
                        None
                    }
                } else if idx + 1 < self.tracks@.len() {
                    Some((idx + 1) as usize)
                } else {
                    None
                },
            }
        }
    }

    /// Track before the current one; from no track, the first.
    pub open spec fn spec_prev(&self) -> Option<usize> {
        if self.tracks@.len() == 0 {
            None
        } else {
            match self.current_index {
                None => Some(0),
                Some(idx) => if self.uses_order() {
                    let s = self.shuffle_order@;
                    if exists|p: int| is_first_pos(s, idx, p) {
                        let p = first_pos(s, idx);
                        if p > 0 { Some(s[p - 1]) } else { None }
                    } else {
                        None
                    }
                } else if idx > 0 {
                    Some((idx - 1) as usize)
                } else {
                    None
                },
            }
        }
    }

    pub fn new() -> (r: Self)
        ensures
            r.tracks@.len() == 0,
            r.current_index.is_none(),
            !r.is_playing,
            !r.is_shuffled,
            r.shuffle_order@.len() == 0,
            r.current_time == 0,
            r.duration == 0,
            r.volume == 8000,
    {
        PlaylistState {
            tracks: Vec::new(),
            current_index: None,
            is_playing: false,
            is_shuffled: false,
            shuffle_order: Vec::new(),
            current_time: 0,
            duration: 0,
            volume: 8000,
        }
    }

    pub fn get_current_track(&self) -> (r: Option<&PlaylistTrack>)
        ensures
            match self.current_index {
                Some(i) => if i < self.tracks@.len() {
                    r == Some(&self.tracks@[i as int])
                } else {
                    r.is_none()
                },
                None => r.is_none(),
            },
    {
        match self.current_index {
            Some(i) => if i < self.tracks.len() {
                Some(&self.tracks[i])
            } else {
                None
            },
            None => None,
        }
    }

    /// Fraction of the track played, 0 for a track of unknown length.
    pub fn get_progress(&self) -> (r: u64)
        ensures
            self.duration > 0 ==> r == min_int(
                self.current_time * ONE / self.duration as int,
                0xffff_ffff_ffff_ffff,
            ),
            self.duration == 0 ==> r == 0,
    {
        if self.duration > 0 {
            let p = (self.current_time as u128) * (ONE as u128) / (self.duration as u128);
            if p > 0xffff_ffff_ffff_ffff {
                0xffff_ffff_ffff_ffff
            } else {
                p as u64
            }
        } else {
            0
        }
    }

    fn position_of(s: &Vec<usize>, x: usize) -> (r: Option<usize>)
        ensures
            match r {
                Some(p) => is_first_pos(s@, x, p as int),
                None => forall|q: int| 0 <= q < s@.len() ==> s@[q] != x,
            },
    {
        let mut i: usize = 0;
        while i < s.len()
            invariant
                i <= s@.len(),
                forall|q: int| 0 <= q < i ==> s@[q] != x,
            decreases s@.len() - i,
        {
            if s[i] == x {
                return Some(i);
            }
            i = i + 1;
        }
        None
    }

    pub fn get_next_index(&self) -> (r: Option<usize>)
        ensures
            r == self.spec_next(),
    {
        let len = self.tracks.len();
        if len == 0 {
            return None;
        }
        match self.current_index {
            Some(idx) => {
                if self.is_shuffled && self.shuffle_order.len() > 0 {
                    match Self::position_of(&self.shuffle_order, idx) {
                        Some(p) => {
                            proof { lemma_first_pos_unique(self.shuffle_order@, idx, p as int); }
                            if p + 1 < self.shuffle_order.len() {
                                Some(self.shuffle_order[p + 1])
                            } else {
                                None
                            }
                        },
                        None => None,
                    }
                } else if idx < len - 1 {
                    Some(idx + 1)
                } else {
                    None
                }
            },
            None => Some(0),
        }
    }

    pub fn get_prev_index(&self) -> (r: Option<usize>)
        ensures
            r == self.spec_prev(),
    {
        let len = self.tracks.len();
        if len == 0 {
            return None;
        }
        match self.current_index {
            Some(idx) => {
                if self.is_shuffled && self.shuffle_order.len() > 0 {
                    match Self::position_of(&self.shuffle_order, idx) {
                        Some(p) => {
                            proof { lemma_first_pos_unique(self.shuffle_order@, idx, p as int); }
                            if p > 0 {
                                Some(self.shuffle_order[p - 1])
                            } else {
                                None
                            }
                        },
                        None => None,
                    }
                } else if idx > 0 {
                    Some(idx - 1)
                } else {
                    None
                }
            },
            None => Some(0),
        }
    }

    /// Draws a fresh shuffled order of all tracks (Fisher-Yates); an empty
    /// list leaves the order as it was.
    pub fn shuffle_playlist(&mut self)
        ensures
            old(self).tracks@.len() == 0 ==> *final(self) == *old(self),
            final(self).tracks == old(self).tracks,
            final(self).current_index == old(self).current_index,
            final(self).is_shuffled == old(self).is_shuffled,
            final(self).is_playing == old(self).is_playing,
            final(self).current_time == old(self).current_time,
            final(self).duration == old(self).duration,
            final(self).volume == old(self).volume,
            old(self).tracks@.len() > 0 ==> is_permutation(
                final(self).shuffle_order@,
                old(self).tracks@.len() as int,
            ),
    {
        let len = self.tracks.len();
        if len == 0 {
            return;
        }
        let mut order: Vec<usize> = Vec::new();
        let mut k: usize = 0;
        while k < len
            invariant
                k <= len,
                order@.len() == k,
                forall|i: int| 0 <= i < k ==> #[trigger] order@[i] == i,
            decreases len - k,
        {
            order.push(k);
            k = k + 1;
        }
        let mut i: usize = len - 1;
        while i > 0
            invariant
                i < len,
                is_permutation(order@, len as int),
            decreases i,
        {
            let j = (random_u64() % (i as u64 + 1)) as usize;
            let ghost prev = order@;
            let a = order[i];
            let b = order[j];
            order.set(i, b);
            order.set(j, a);
            assert forall|x: int, y: int| 0 <= x < y < len implies order@[x] != order@[y] by {
                let ox = if x == j { i as int } else if x == i { j as int } else { x };
                let oy = if y == j { i as int } else if y == i { j as int } else { y };
                assert(order@[x] == prev[ox]);
                assert(order@[y] == prev[oy]);
                assert(ox != oy);
            }
            assert forall|x: int| 0 <= x < len implies #[trigger] order@[x] < len by {
                let ox = if x == j { i as int } else if x == i { j as int } else { x };
                assert(order@[x] == prev[ox]);
            }
            i = i - 1;
        }
        self.shuffle_order = order;
    }

    /// Removes track `index` if it exists. The current index follows its
    /// track; removing the current track leaves none current and stops
    /// playback at time 0, and the result says so, for the caller to stop its
    /// output. A shuffled list gets a fresh
    /// order.
    pub fn remove_track(&mut self, index: usize) -> (stopped: bool)
        ensures
            index >= old(self).tracks@.len() ==> *final(self) == *old(self) && !stopped,
            index < old(self).tracks@.len() ==> {
                &&& final(self).tracks@ == old(self).tracks@.remove(index as int)
                &&& stopped == (old(self).current_index == Some(index))
                &&& stopped ==> !final(self).is_playing && final(self).current_time == 0
                &&& !stopped ==> final(self).is_playing == old(self).is_playing
                    && final(self).current_time == old(self).current_time
                &&& final(self).duration == old(self).duration
                &&& final(self).volume == old(self).volume
                &&& final(self).current_index == match old(self).current_index {
                    Some(c) => if c == index {
                        None
                    } else if index < c {
                        Some((c - 1) as usize)
                    } else {
                        Some(c)
                    },
                    None => None,
                }
                &&& final(self).is_shuffled == old(self).is_shuffled
                &&& old(self).is_shuffled && final(self).tracks@.len() > 0 ==> is_permutation(
                    final(self).shuffle_order@,
                    final(self).tracks@.len() as int,
                )
                &&& !old(self).is_shuffled ==> final(self).shuffle_order@ == old(self).shuffle_order@
            },
    {
        if index >= self.tracks.len() {
            return false;
        }
        let _ = self.tracks.remove(index);
        let mut stopped = false;
        match self.current_index {
            Some(c) => {
                if c == index {
                    stopped = true;
                    self.current_index = None;
                    self.is_playing = false;
                    self.current_time = 0;
                } else if index < c {
                    self.current_index = Some(c - 1);
                }
            },
            None => {},
        }
        if self.is_shuffled {
            self.shuffle_playlist();
        }
        stopped
    }

    /// Empties the list: no tracks, none current, no shuffled order.
    pub fn clear_playlist(&mut self)
        ensures
            final(self).tracks@.len() == 0,
            final(self).current_index.is_none(),
            final(self).shuffle_order@.len() == 0,
            final(self).is_shuffled == old(self).is_shuffled,
    {
        self.tracks.clear();
        self.current_index = None;
        self.shuffle_order.clear();
    }
}

proof fn lemma_first_pos_unique(s: Seq<usize>, x: usize, p: int)
    requires
        is_first_pos(s, x, p),
    ensures
        first_pos(s, x) == p,
{
    let q = first_pos(s, x);
    assert(is_first_pos(s, x, q));
    if q < p {
        assert(s[q] != x);
    } else if p < q {
        assert(s[p] != x);
    }
}

} // verus!
