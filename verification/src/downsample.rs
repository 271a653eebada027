//! Thinning of the raw stream: one sample is accepted at the start of every
//! window of raw samples, the others are dropped unread.

use vstd::prelude::*;

verus! {

/// The number of raw samples per accepted sample.
pub const WINDOW: u64 = 60;

/// The position in the window after `offered` more raw samples, starting
/// from position `phase`.
pub open spec fn phase_after(phase: nat, offered: nat) -> nat {
    (phase + offered) % (WINDOW as nat)
}

/// How many raw samples pass, starting from position `phase`, before one is
/// accepted.
pub open spec fn first_accepted(phase: nat) -> nat {
    ((WINDOW - phase % (WINDOW as nat)) % (WINDOW as int)) as nat
}

/// How many of the next `count` raw samples are accepted, starting from
/// position `phase`.
pub open spec fn accepted_count(phase: nat, count: nat) -> nat {
    if count <= first_accepted(phase) {
        0
    } else {
        ((count - first_accepted(phase) + WINDOW - 1) / (WINDOW as int)) as nat
    }
}

/// Which of the next `count` raw samples are accepted, starting from position
/// `phase`: their indices, counted from 0, in rising order. They lie one
/// window apart.
pub open spec fn accepted_offsets(phase: nat, count: nat) -> Seq<usize> {
    Seq::new(
        accepted_count(phase, count),
        |j: int| (first_accepted(phase) + WINDOW * j) as usize,
    )
}

/// The cyclic counter that decides which raw samples are accepted.
pub struct Downsampler {
    counter: u64,
}

impl Downsampler {
    #[verifier::type_invariant]
    spec fn inv(self) -> bool {
        self.counter < WINDOW
    }

    /// The position in the current window, from 0 up to `WINDOW - 1`.
    pub closed spec fn phase(&self) -> nat {
        self.counter as nat
    }

    /// A downsampler at the start of a window: it accepts the next raw sample.
    pub fn new() -> (downsampler: Self)
        ensures
            downsampler.phase() == 0,
    {
        Downsampler { counter: 0 }
    }

    /// The position in the current window.
    pub fn position(&self) -> (position: u64)
        ensures
            position == self.phase(),
            position < WINDOW,
    {
        proof {
            use_type_invariant(self);
        }
        self.counter
    }

    /// Takes note of one raw sample and says whether it is accepted. It is
    /// accepted where the window starts with it; the position advances by one
    /// either way and wraps at the end of the window.
    pub fn offer(&mut self) -> (accepted: bool)
        ensures
            accepted == (old(self).phase() == 0),
            final(self).phase() == phase_after(old(self).phase(), 1),
            old(self).phase() < WINDOW,
    {
        proof {
            use_type_invariant(&*self);
        }
        let accepted = self.counter == 0;
        self.counter = if self.counter + 1 == WINDOW {
            0
        } else {
            self.counter + 1
        };
        accepted
    }

    /// Takes note of `count` raw samples in a row and returns the indices,
    /// counted from 0, of those accepted.
    pub fn offer_many(&mut self, count: usize) -> (accepted: Vec<usize>)
        ensures
            accepted@ == accepted_offsets(old(self).phase(), count as nat),
            final(self).phase() == phase_after(old(self).phase(), count as nat),
    {
        proof {
            use_type_invariant(&*self);
        }
        let ghost start = self.phase();
        let mut accepted: Vec<usize> = Vec::new();
        let mut index: usize = 0;
        while index < count
            invariant
                index <= count,
                start < WINDOW,
                self.phase() == phase_after(start, index as nat),
                accepted@ == accepted_offsets(start, index as nat),
            decreases count - index,
        {
            let taken = self.offer();
            if taken {
                accepted.push(index);
            }
            proof {
                lemma_offsets_step(start, index as nat);
            }
            index = index + 1;
        }
        accepted
    }
}

/// One more raw sample adds its index to the accepted ones exactly where the
/// window starts with it.
pub proof fn lemma_offsets_step(phase: nat, count: nat)
    requires
        count < usize::MAX,
    ensures
        phase_after(phase, count + 1) == phase_after(phase_after(phase, count), 1),
        phase_after(phase, count) == 0 ==> accepted_offsets(phase, count + 1) == accepted_offsets(
            phase,
            count,
        ).push(count as usize),
        phase_after(phase, count) != 0 ==> accepted_offsets(phase, count + 1) == accepted_offsets(
            phase,
            count,
        ),
{
    let first = first_accepted(phase);
    if phase_after(phase, count) == 0 {
        assert(count >= first);
        assert((count - first) % (WINDOW as int) == 0);
        assert(accepted_count(phase, count + 1) == accepted_count(phase, count) + 1);
        assert(first + WINDOW * accepted_count(phase, count) == count);
        assert(accepted_offsets(phase, count + 1) =~= accepted_offsets(phase, count).push(
            count as usize,
        ));
    } else {
        assert(accepted_count(phase, count + 1) == accepted_count(phase, count));
        assert(accepted_offsets(phase, count + 1) =~= accepted_offsets(phase, count));
    }
}

/// Which raw samples are accepted: the one at index `index` is, counted from
/// a downsampler at position `phase`, exactly where the window starts with
/// it; counted from a fresh downsampler, exactly where `index` is a multiple
/// of the window.
pub proof fn lemma_accepted_where_window_starts(phase: nat, count: nat, index: nat)
    requires
        index < count <= usize::MAX,
    ensures
        phase_after(phase, index) == 0 <==> accepted_offsets(phase, count).contains(index as usize),
        phase_after(0, index) == 0 <==> index % (WINDOW as nat) == 0,
{
    let first = first_accepted(phase);
    let offsets = accepted_offsets(phase, count);
    if phase_after(phase, index) == 0 {
        let j = (index - first) / (WINDOW as int);
        assert(index >= first);
        assert((index - first) % (WINDOW as int) == 0);
        assert(0 <= j < accepted_count(phase, count));
        assert(offsets[j] == index as usize);
    }
    if offsets.contains(index as usize) {
        let j = choose|j: int| 0 <= j < offsets.len() && offsets[j] == index as usize;
        assert(first + WINDOW * j == index);
    }
}

/// From the start of a window, the accepted samples are those at the
/// multiples of the window, one for every window begun.
pub proof fn lemma_offsets_from_start(count: nat)
    requires
        count <= usize::MAX,
    ensures
        accepted_offsets(0, count).len() == (count + WINDOW - 1) / (WINDOW as int),
        forall|j: int|
            0 <= j < accepted_offsets(0, count).len() ==> #[trigger] accepted_offsets(0, count)[j]
                == WINDOW * j,
{
}

} // verus!
