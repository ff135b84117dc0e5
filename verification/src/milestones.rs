use std::collections::HashMap;
use vstd::prelude::*;
use vstd::std_specs::hash::*;
use vstd::std_specs::iter::IteratorSpec;

verus! {

broadcast use vstd::std_specs::hash::group_hash_axioms;

/// Where a milestone came from.
#[derive(Clone, Copy, Debug, PartialEq, Eq, Structural)]
pub enum MilestoneType {
    UserGenerated,
    FromC3d,
}

/// The frames of a recording at which something happens, each with where
/// the milestone came from.
#[derive(Debug)]
pub struct Milestones {
    milestones: HashMap<usize, MilestoneType>,
}

impl View for Milestones {
    type V = Map<usize, MilestoneType>;

    closed spec fn view(&self) -> Map<usize, MilestoneType> {
        self.milestones@
    }
}

/// Whether `frame` is the milestone that comes last before `bound`, or 0
/// where there is none.
pub open spec fn latest_below(milestones: Map<usize, MilestoneType>, bound: int, frame: usize) -> bool {
    &&& forall|f: usize| milestones.contains_key(f) && f < bound ==> f <= frame
    &&& if exists|f: usize| milestones.contains_key(f) && f < bound {
        milestones.contains_key(frame) && frame < bound
    } else {
        frame == 0
    }
}

/// Whether `frame` is the milestone that comes first after `bound`, or 0
/// where there is none.
pub open spec fn earliest_above(milestones: Map<usize, MilestoneType>, bound: int, frame: usize) -> bool {
    &&& forall|f: usize| milestones.contains_key(f) && f > bound ==> f >= frame
    &&& if exists|f: usize| milestones.contains_key(f) && f > bound {
        milestones.contains_key(frame) && frame > bound
    } else {
        frame == 0
    }
}

/// The frames that the user marked.
pub open spec fn user_generated(milestones: Map<usize, MilestoneType>) -> Set<usize> {
    Set::new(|frame: usize| milestones.contains_key(frame) && milestones[frame] == MilestoneType::UserGenerated)
}

/// The milestones that the user did not set.
pub open spec fn without_user_generated(milestones: Map<usize, MilestoneType>) -> Map<usize, MilestoneType> {
    milestones.remove_keys(user_generated(milestones))
}

/// Whether one of the first `n` frames of a list is `f`.
pub open spec fn lists(frames: Seq<&usize>, n: int, f: usize) -> bool {
    exists|i: int| 0 <= i < n && *(#[trigger] frames[i]) == f
}

/// Whether one of the first `n` entries marks `f` as set by the user.
pub open spec fn lists_user(entries: Seq<(&usize, &MilestoneType)>, n: int, f: usize) -> bool {
    exists|j: int|
        0 <= j < n && *(#[trigger] entries[j]).0 == f && *entries[j].1 == MilestoneType::UserGenerated
}

impl Milestones {
    /// No milestones.
    pub fn new() -> (m: Self)
        ensures
            m@ == Map::<usize, MilestoneType>::empty(),
    {
        Milestones { milestones: HashMap::new() }
    }

    /// Forgets every milestone.
    pub fn default(&mut self)
        ensures
            final(self)@ == Map::<usize, MilestoneType>::empty(),
    {
        self.milestones = HashMap::new();
    }

    /// Marks a frame, in the place of the milestone that it had, if it had
    /// one.
    pub fn add_milestone(&mut self, frame: usize, milestone_type: MilestoneType)
        ensures
            final(self)@ == old(self)@.insert(frame, milestone_type),
    {
        self.milestones.insert(frame, milestone_type);
    }

    /// Marks a frame as set by the user.
    pub fn add_user_generated(&mut self, frame: usize)
        ensures
            final(self)@ == old(self)@.insert(frame, MilestoneType::UserGenerated),
    {
        self.add_milestone(frame, MilestoneType::UserGenerated);
    }

    /// Marks a frame as read from the recording.
    pub fn add_from_c3d(&mut self, frame: usize)
        ensures
            final(self)@ == old(self)@.insert(frame, MilestoneType::FromC3d),
    {
        self.add_milestone(frame, MilestoneType::FromC3d);
    }

    /// Takes the milestone off a frame.
    pub fn remove_milestone(&mut self, frame: usize)
        ensures
            final(self)@ == old(self)@.remove(frame),
    {
        self.milestones.remove(&frame);
    }

    /// Forgets every milestone.
    pub fn _remove_all_milestones(&mut self)
        ensures
            final(self)@ == Map::<usize, MilestoneType>::empty(),
    {
        self.milestones.clear();
    }

    /// The frames that the user marked.
    fn user_frames(&self) -> (frames: Vec<usize>)
        ensures
            frames@.to_set() == user_generated(self@),
    {
        let mut frames: Vec<usize> = Vec::new();
        let entries = self.milestones.iter();
        for entry in it: entries
            invariant
                it.seq() == spec_hash_map_iter(&self.milestones).remaining(),
                forall|f: usize| #[trigger] frames@.contains(f) <==> lists_user(it.seq(), it.index@, f),
        {
            let ghost before = frames@;
            let ghost j0 = it.index@;
            match entry.1 {
                MilestoneType::UserGenerated => {
                    frames.push(*entry.0);
                    proof {
                        assert forall|f: usize| #[trigger] frames@.contains(f) <==> lists_user(
                            it.seq(),
                            j0 + 1,
                            f,
                        ) by {
                            if frames@.contains(f) {
                                let k = choose|k: int| 0 <= k < frames@.len() && frames@[k] == f;
                                if k < before.len() {
                                    assert(before.contains(f));
                                    assert(lists_user(it.seq(), j0, f));
                                    let j = choose|j: int|
                                        0 <= j < j0 && *(#[trigger] it.seq()[j]).0 == f && *it.seq()[j].1
                                            == MilestoneType::UserGenerated;
                                    assert(0 <= j < j0 + 1);
                                } else {
                                    assert(*it.seq()[j0].0 == f);
                                }
                            }
                            if lists_user(it.seq(), j0 + 1, f) {
                                let j = choose|j: int|
                                    0 <= j < j0 + 1 && *(#[trigger] it.seq()[j]).0 == f && *it.seq()[j].1
                                        == MilestoneType::UserGenerated;
                                if j < j0 {
                                    assert(lists_user(it.seq(), j0, f));
                                    assert(before.contains(f));
                                    let k = choose|k: int| 0 <= k < before.len() && before[k] == f;
                                    assert(frames@[k] == f);
                                } else {
                                    assert(frames@[before.len() as int] == f);
                                }
                            }
                        }
                    }
                },
                MilestoneType::FromC3d => {
                    proof {
                        assert forall|f: usize| #[trigger] frames@.contains(f) <==> lists_user(
                            it.seq(),
                            j0 + 1,
                            f,
                        ) by {
                            if frames@.contains(f) {
                                assert(lists_user(it.seq(), j0, f));
                                let j = choose|j: int|
                                    0 <= j < j0 && *(#[trigger] it.seq()[j]).0 == f && *it.seq()[j].1
                                        == MilestoneType::UserGenerated;
                                assert(0 <= j < j0 + 1);
                            }
                            if lists_user(it.seq(), j0 + 1, f) {
                                let j = choose|j: int|
                                    0 <= j < j0 + 1 && *(#[trigger] it.seq()[j]).0 == f && *it.seq()[j].1
                                        == MilestoneType::UserGenerated;
                                assert(j < j0);
                                assert(lists_user(it.seq(), j0, f));
                            }
                        }
                    }
                },
            }
        }
        proof {
            let all = spec_hash_map_iter(&self.milestones).remaining();
            assert forall|f: usize| frames@.to_set().contains(f) <==> user_generated(self@).contains(f) by {
                if frames@.contains(f) {
                    assert(lists_user(all, all.len() as int, f));
                    let j = choose|j: int|
                        0 <= j < all.len() && *(#[trigger] all[j]).0 == f && *all[j].1
                            == MilestoneType::UserGenerated;
                    assert(self@.contains_key(*all[j].0) && self@[*all[j].0] == *all[j].1);
                }
                if user_generated(self@).contains(f) {
                    assert(all.contains((&f, &self@[f])));
                    let j = choose|j: int| 0 <= j < all.len() && all[j] == (&f, &self@[f]);
                    assert(*all[j].0 == f && *all[j].1 == MilestoneType::UserGenerated);
                    assert(lists_user(all, all.len() as int, f));
                }
            }
            assert(frames@.to_set() =~= user_generated(self@));
        }
        frames
    }

    /// Forgets the milestones that the user set; those of the recording
    /// stay.
    pub fn remove_user_generated_milestones(&mut self)
        ensures
            final(self)@ == without_user_generated(old(self)@),
    {
        let frames = self.user_frames();
        let mut i: usize = 0;
        while i < frames.len()
            invariant
                i <= frames.len(),
                frames@.to_set() == user_generated(old(self)@),
                self@ == old(self)@.remove_keys(frames@.subrange(0, i as int).to_set()),
            decreases frames.len() - i,
        {
            let ghost before = self@;
            self.milestones.remove(&frames[i]);
            proof {
                let done = frames@.subrange(0, i as int);
                let more = frames@.subrange(0, i + 1);
                assert(more =~= done.push(frames@[i as int]));
                assert forall|f: usize| more.to_set().contains(f) <==> done.to_set().contains(f) || f
                    == frames@[i as int] by {
                    if more.contains(f) {
                        let k = choose|k: int| 0 <= k < more.len() && more[k] == f;
                        if k < done.len() {
                            assert(done[k] == f);
                        }
                    }
                    if done.contains(f) {
                        let k = choose|k: int| 0 <= k < done.len() && done[k] == f;
                        assert(more[k] == f);
                    }
                    if f == frames@[i as int] {
                        assert(more[i as int] == f);
                    }
                }
                assert(self@ =~= old(self)@.remove_keys(more.to_set()));
            }
            i += 1;
        }
        assert(frames@.subrange(0, frames@.len() as int) =~= frames@);
    }

    /// The frames of the milestones, in ascending order.
    pub fn get_milestones(&self) -> (frames: Vec<&usize>)
        ensures
            forall|i: int, j: int| 0 <= i < j < frames@.len() ==> *frames@[i] < *frames@[j],
            forall|f: usize| #[trigger] self@.contains_key(f) <==> lists(frames@, frames@.len() as int, f),
    {
        let mut frames: Vec<&usize> = Vec::new();
        let keys = self.milestones.keys();
        for key in it: keys
            invariant
                it.seq() == spec_keys_iter(&self.milestones).remaining(),
                it.seq().no_duplicates(),
                forall|i: int, j: int| 0 <= i < j < frames@.len() ==> *frames@[i] < *frames@[j],
                forall|f: usize|
                    #[trigger] lists(frames@, frames@.len() as int, f) <==> lists(it.seq(), it.index@, f),
        {
            let ghost before = frames@;
            let ghost j0 = it.index@;
            let mut pos: usize = 0;
            while pos < frames.len() && *frames[pos] < *key
                invariant
                    pos <= frames.len(),
                    frames@ == before,
                    forall|k: int| 0 <= k < pos ==> *frames@[k] < *key,
                decreases frames.len() - pos,
            {
                pos += 1;
            }
            proof {
                if pos < before.len() && *before[pos as int] == *key {
                    assert(lists(before, before.len() as int, *key));
                    assert(lists(it.seq(), j0, *key));
                    let j = choose|j: int| 0 <= j < j0 && *(#[trigger] it.seq()[j]) == *key;
                    assert(it.seq()[j] == it.seq()[j0]);
                }
            }
            frames.insert(pos, key);
            proof {
                let after = frames@;
                assert(after =~= before.insert(pos as int, key));
                assert forall|a: int, b: int| 0 <= a < b < after.len() implies *after[a] < *after[b] by {
                    let a0 = if a < pos { a } else { a - 1 };
                    let b0 = if b < pos { b } else { b - 1 };
                    if a != pos && b != pos {
                        assert(after[a] == before[a0] && after[b] == before[b0]);
                    } else if b == pos {
                        assert(after[a] == before[a]);
                    } else {
                        assert(after[b] == before[b - 1]);
                        if b - 1 > pos {
                            assert(*before[pos as int] < *before[b - 1]);
                        }
                    }
                }
                assert forall|f: usize| #[trigger]
                    lists(after, after.len() as int, f) <==> lists(it.seq(), j0 + 1, f) by {
                    if lists(after, after.len() as int, f) {
                        let i = choose|i: int| 0 <= i < after.len() && *(#[trigger] after[i]) == f;
                        if i == pos {
                            assert(*it.seq()[j0] == f);
                        } else {
                            let i0 = if i < pos { i } else { i - 1 };
                            assert(*before[i0] == f);
                            assert(lists(before, before.len() as int, f));
                            assert(lists(it.seq(), j0, f));
                            let j = choose|j: int| 0 <= j < j0 && *(#[trigger] it.seq()[j]) == f;
                            assert(0 <= j < j0 + 1);
                        }
                    }
                    if lists(it.seq(), j0 + 1, f) {
                        let j = choose|j: int| 0 <= j < j0 + 1 && *(#[trigger] it.seq()[j]) == f;
                        if j == j0 {
                            assert(*after[pos as int] == f);
                        } else {
                            assert(lists(it.seq(), j0, f));
                            assert(lists(before, before.len() as int, f));
                            let i = choose|i: int| 0 <= i < before.len() && *(#[trigger] before[i]) == f;
                            let i1 = if i < pos { i } else { i + 1 };
                            assert(*after[i1] == f);
                        }
                    }
                }
            }
        }
        proof {
            let all = spec_keys_iter(&self.milestones).remaining();
            assert(all.unref().to_set() == self@.dom());
            assert forall|f: usize| #[trigger] self@.contains_key(f) <==> lists(
                frames@,
                frames@.len() as int,
                f,
            ) by {
                if self@.contains_key(f) {
                    assert(all.unref().to_set().contains(f));
                    let j = choose|j: int| 0 <= j < all.unref().len() && all.unref()[j] == f;
                    assert(*all[j] == f);
                    assert(lists(all, all.len() as int, f));
                }
                if lists(frames@, frames@.len() as int, f) {
                    assert(lists(all, all.len() as int, f));
                    let j = choose|j: int| 0 <= j < all.len() && *(#[trigger] all[j]) == f;
                    assert(all.unref()[j] == f);
                    assert(all.unref().to_set().contains(f));
                }
            }
        }
        frames
    }

    /// The milestone that comes last before the frame ahead of `frame`; 0
    /// where there is none. Frame 0 has no frame ahead of it: it may be
    /// asked for only where there is no milestone at all.
    pub fn get_prev_milestone(&self, frame: usize) -> (prev: usize)
        requires
            frame >= 1 || self@ == Map::<usize, MilestoneType>::empty(),
        ensures
            latest_below(self@, frame - 1, prev),
    {
        if frame == 0 {
            return 0;
        }
        let bound: usize = frame - 1;
        let mut prev: usize = 0;
        let mut found = false;
        let keys = self.milestones.keys();
        for key in it: keys
            invariant
                it.seq().unref().to_set() == self@.dom(),
                forall|j: int| 0 <= j < it.index@ && *(#[trigger] it.seq()[j]) < bound ==> *it.seq()[j] <= prev,
                found ==> self@.contains_key(prev) && prev < bound,
                !found ==> prev == 0 && forall|j: int|
                    0 <= j < it.index@ ==> !(*(#[trigger] it.seq()[j]) < bound),
        {
            proof {
                assert(it.seq().unref()[it.index@] == *key);
                assert(it.seq().unref().to_set().contains(*key));
            }
            if *key < bound && (!found || *key > prev) {
                prev = *key;
                found = true;
            }
        }
        proof {
            let all = spec_keys_iter(&self.milestones).remaining();
            assert forall|f: usize| self@.contains_key(f) && f < bound implies f <= prev && found by {
                assert(all.unref().to_set().contains(f));
                let j = choose|j: int| 0 <= j < all.unref().len() && all.unref()[j] == f;
                assert(*all[j] == f);
            }
        }
        prev
    }

    /// The milestone that comes first after `frame`; 0 where there is none.
    pub fn get_next_milestone(&self, frame: usize) -> (next: usize)
        ensures
            earliest_above(self@, frame as int, next),
    {
        let mut next: usize = 0;
        let mut found = false;
        let keys = self.milestones.keys();
        for key in it: keys
            invariant
                it.seq().unref().to_set() == self@.dom(),
                forall|j: int| 0 <= j < it.index@ && *(#[trigger] it.seq()[j]) > frame ==> *it.seq()[j] >= next,
                found ==> self@.contains_key(next) && next > frame,
                !found ==> next == 0 && forall|j: int|
                    0 <= j < it.index@ ==> !(*(#[trigger] it.seq()[j]) > frame),
        {
            proof {
                assert(it.seq().unref()[it.index@] == *key);
                assert(it.seq().unref().to_set().contains(*key));
            }
            if *key > frame && (!found || *key < next) {
                next = *key;
                found = true;
            }
        }
        proof {
            let all = spec_keys_iter(&self.milestones).remaining();
            assert forall|f: usize| self@.contains_key(f) && f > frame implies f >= next && found by {
                assert(all.unref().to_set().contains(f));
                let j = choose|j: int| 0 <= j < all.unref().len() && all.unref()[j] == f;
                assert(*all[j] == f);
            }
        }
        next
    }
}

} // verus!
