//! Frames of which only part has arrived, kept for a limited time and in limited number.
use std::collections::BTreeMap;
use vstd::prelude::*;

verus! {

/// The most frames that may be incomplete at the same time.
pub const MAX_IN_FLIGHT: usize = 8;

/// How long the fragments of a frame may be awaited after the last one that came, in nanoseconds.
pub const REASSEMBLY_TIMEOUT: u128 = 500_000_000;

/// Something with the time at which it was last touched, in nanoseconds.
pub struct Aged<T> {
    pub last: u128,
    pub content: T,
}

/// The frame was touched recently enough. A paced frame may take longer than the timeout in
/// total; it is given up only after its delivery has stalled.
pub open spec fn fresh<T>(entry: Aged<T>, now: u128) -> bool {
    now <= entry.last + REASSEMBLY_TIMEOUT
}

/// The frames that have not stalled.
pub open spec fn alive<T>(frames: Map<u64, Aged<T>>, now: u128) -> Map<u64, Aged<T>> {
    frames.restrict(frames.dom().filter(|sequence: u64| fresh(frames[sequence], now)))
}

/// The frame with this sequence is there, and no frame has a smaller one.
pub open spec fn is_oldest<T>(frames: Map<u64, Aged<T>>, sequence: u64) -> bool {
    &&& frames.contains_key(sequence)
    &&& forall|other: u64| #[trigger] frames.contains_key(other) ==> sequence <= other
}

/// The smallest sequence among the frames.
pub open spec fn oldest<T>(frames: Map<u64, Aged<T>>) -> u64 {
    choose|sequence: u64| is_oldest(frames, sequence)
}

/// A further frame needs room: the limit is reached and the frame is not there yet.
pub open spec fn crowded<T>(frames: Map<u64, Aged<T>>, sequence: u64) -> bool {
    frames.len() >= MAX_IN_FLIGHT && !frames.contains_key(sequence)
}

/// The frames after room was made for one with the given sequence: the oldest leaves where the
/// limit is reached.
pub open spec fn with_room<T>(frames: Map<u64, Aged<T>>, sequence: u64) -> Map<u64, Aged<T>> {
    if crowded(frames, sequence) {
        frames.remove(oldest(frames))
    } else {
        frames
    }
}

/// A counter that stops at its largest value.
pub open spec fn counted(counter: u64, more: nat) -> u64 {
    if counter + more > u64::MAX {
        u64::MAX
    } else {
        (counter + more) as u64
    }
}

/// The sequences of all frames.
fn sequences<T>(frames: &BTreeMap<u64, Aged<T>>) -> (list: Vec<u64>)
    ensures
        list@.to_set() == frames@.dom(),
{
    let mut list: Vec<u64> = Vec::new();
    for sequence in keys: frames.keys()
        invariant
            list@ == keys.seq().unref().take(keys.index()),
            keys.seq().unref().to_set() == frames@.dom(),
            keys.index() == keys.seq().len() ==> list@ == keys.seq().unref(),
    {
        let ghost before = list@;
        list.push(*sequence);
        assert(keys.seq().unref().take(keys.index() + 1) =~= before.push(*sequence));
        assert(keys.seq().unref().take(keys.seq().len() as int) =~= keys.seq().unref());
    }
    list
}

/// Removes the frames that have stalled and tells how many they were.
pub(crate) fn expire<T>(frames: &mut BTreeMap<u64, Aged<T>>, now: u128) -> (removed: usize)
    ensures
        final(frames)@ == alive(old(frames)@, now),
        removed == old(frames)@.len() - alive(old(frames)@, now).len(),
        alive(old(frames)@, now).len() <= old(frames)@.len(),
{
    let before: usize = frames.len();
    let list = sequences(frames);
    let ghost start = frames@;
    let mut index: usize = 0;
    while index < list.len()
        invariant
            index <= list@.len(),
            list@.to_set() == start.dom(),
            frames@.submap_of(start),
            forall|sequence: u64| #[trigger]
                start.contains_key(sequence) ==> (frames@.contains_key(sequence) <==> (fresh(
                    start[sequence],
                    now,
                ) || !list@.take(index as int).contains(sequence))),
        decreases list@.len() - index,
    {
        let sequence: u64 = list[index];
        let ghost held = frames@;
        let stalled = match frames.get(&sequence) {
            Some(entry) => now > entry.last && now - entry.last > REASSEMBLY_TIMEOUT,
            None => false,
        };
        if stalled {
            frames.remove(&sequence);
        }
        proof {
            assert(list@.to_set().contains(list@[index as int]));
            let earlier = list@.take(index as int);
            let later = list@.take(index + 1);
            assert(later =~= earlier.push(sequence));
            assert forall|other: u64| #[trigger] start.contains_key(other) implies (
            frames@.contains_key(other) <==> (fresh(start[other], now) || !later.contains(other)))
                by {
                assert(later.contains(other) <==> earlier.contains(other) || other == sequence) by {
                    if earlier.contains(other) {
                        let i = choose|i: int| 0 <= i < earlier.len() && earlier[i] == other;
                        assert(later[i] == other);
                    }
                    if other == sequence {
                        assert(later[index as int] == other);
                    }
                }
                if other == sequence && held.contains_key(sequence) {
                    assert(held[sequence] == start[sequence]);
                }
            }
        }
        index = index + 1;
    }
    proof {
        assert(list@.take(index as int) =~= list@);
        assert(frames@ =~= alive(start, now)) by {
            assert forall|sequence: u64| frames@.contains_key(sequence) <==> alive(
                start,
                now,
            ).contains_key(sequence) by {
                if start.contains_key(sequence) {
                    assert(list@.to_set().contains(sequence));
                }
            }
        }
        start.dom().lemma_len_filter(|sequence: u64| fresh(start[sequence], now));
        assert(alive(start, now).dom() =~= start.dom().filter(
            |sequence: u64| fresh(start[sequence], now),
        ));
    }
    let after: usize = frames.len();
    before - after
}

/// A frame with the smallest sequence exists where there is a frame.
pub proof fn lemma_oldest_exists<T>(frames: Map<u64, Aged<T>>)
    requires
        frames.dom().finite(),
        frames.len() > 0,
    ensures
        is_oldest(frames, oldest(frames)),
    decreases frames.len(),
{
    let some = frames.dom().choose();
    let rest = frames.remove(some);
    assert(frames.contains_key(some));
    if rest.len() == 0 {
        assert(rest.dom() =~= Set::empty());
        assert forall|other: u64| #[trigger] frames.contains_key(other) implies some <= other by {
            if other != some {
                assert(rest.contains_key(other));
            }
        }
        assert(is_oldest(frames, some));
    } else {
        lemma_oldest_exists(rest);
        let least = oldest(rest);
        let answer = if some < least {
            some
        } else {
            least
        };
        assert forall|other: u64| #[trigger] frames.contains_key(other) implies answer <= other by {
            if other != some {
                assert(rest.contains_key(other));
            }
        }
        assert(is_oldest(frames, answer));
    }
}

/// Finds the smallest sequence.
fn find_oldest<T>(frames: &BTreeMap<u64, Aged<T>>) -> (sequence: u64)
    requires
        frames@.len() > 0,
    ensures
        sequence == oldest(frames@),
        frames@.contains_key(sequence),
{
    let list = sequences(frames);
    proof {
        lemma_oldest_exists(frames@);
        assert(list@.to_set().contains(oldest(frames@)));
    }
    let mut least: u64 = list[0];
    let mut index: usize = 1;
    while index < list.len()
        invariant
            1 <= index <= list@.len(),
            list@.contains(least),
            forall|i: int| 0 <= i < index ==> least <= #[trigger] list@[i],
        decreases list@.len() - index,
    {
        if list[index] < least {
            least = list[index];
            assert(list@[index as int] == least);
        }
        index = index + 1;
    }
    proof {
        let wanted = oldest(frames@);
        assert(list@.to_set().contains(least));
        assert(frames@.contains_key(least));
        assert(list@.to_set().contains(wanted));
        let i = choose|i: int| 0 <= i < list@.len() && list@[i] == wanted;
        assert(least <= list@[i]);
    }
    least
}

/// Makes room for a frame and tells whether another one had to leave.
pub(crate) fn make_room<T>(frames: &mut BTreeMap<u64, Aged<T>>, sequence: u64) -> (evicted: bool)
    ensures
        final(frames)@ == with_room(old(frames)@, sequence),
        evicted == crowded(old(frames)@, sequence),
{
    if frames.len() >= MAX_IN_FLIGHT && !frames.contains_key(&sequence) {
        let least: u64 = find_oldest(frames);
        frames.remove(&least);
        true
    } else {
        false
    }
}

/// A frame that waits for its parts is given up half a second after the last of them came, not
/// before, and the others are kept as they are.
pub proof fn law_waiting_frames_live_half_a_second<T>(
    frames: Map<u64, Aged<T>>,
    now: u128,
    sequence: u64,
)
    ensures
        alive(frames, now).contains_key(sequence) <==> frames.contains_key(sequence) && now
            - frames[sequence].last <= 500_000_000,
        alive(frames, now).contains_key(sequence) ==> alive(frames, now)[sequence]
            == frames[sequence],
{
}

/// A ninth waiting frame takes the place of the one with the lowest number; until then, and for a
/// frame that waits already, all stay.
pub proof fn law_lowest_frame_makes_room<T>(
    frames: Map<u64, Aged<T>>,
    sequence: u64,
    other: u64,
)
    requires
        frames.dom().finite(),
        frames.contains_key(other),
    ensures
        ({
            let after = with_room(frames, sequence);
            &&& frames.len() < 8 || frames.contains_key(sequence) ==> after == frames
            &&& frames.len() >= 8 && !frames.contains_key(sequence) ==> (after.contains_key(other)
                <==> exists|lower: u64| frames.contains_key(lower) && lower < other)
            &&& after.contains_key(other) ==> after[other] == frames[other]
        }),
{
    if frames.len() >= 8 && !frames.contains_key(sequence) {
        lemma_oldest_exists(frames);
        let first = oldest(frames);
        assert(is_oldest(frames, first));
        if other != first {
            assert(frames.contains_key(first) && first < other);
        }
    }
}

/// Counters stop at their largest number.
pub proof fn law_counters_stop(counter: u64, more: nat)
    ensures
        counter + more <= u64::MAX ==> counted(counter, more) == counter + more,
        counter + more > u64::MAX ==> counted(counter, more) == u64::MAX,
{
}

} // verus!
