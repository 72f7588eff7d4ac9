//! Fixed-size sampling: the reservoir algorithm over a stream of lines.

use vstd::prelude::*;
use rand::rngs::StdRng;
use crate::random::{after_range_draw, draw_at_most, range_draw};

verus! {

/// One line of the reservoir algorithm. `st` holds the slots and the
/// generator, `i` is the line's position among the sampled lines and `k` the
/// capacity. The first `k` lines fill the slots; after that line `i` draws
/// `j` in `0..=i` and takes slot `j` when `j < k`.
pub open spec fn reservoir_step(st: (Seq<String>, StdRng), i: nat, line: String, k: nat) -> (
    Seq<String>,
    StdRng,
) {
    if i < k {
        (st.0.push(line), st.1)
    } else {
        let j = range_draw(st.1, i as u64);
        (
            if j < k {
                st.0.update(j as int, line)
            } else {
                st.0
            },
            after_range_draw(st.1, i as u64),
        )
    }
}

/// The slots and the generator after the reservoir algorithm with capacity
/// `k` has read `lines`, starting from generator `g`.
pub open spec fn reservoir_run(lines: Seq<String>, k: nat, g: StdRng) -> (Seq<String>, StdRng)
    decreases lines.len(),
{
    if lines.len() == 0 {
        (Seq::empty(), g)
    } else {
        reservoir_step(
            reservoir_run(lines.drop_last(), k, g),
            (lines.len() - 1) as nat,
            lines.last(),
            k,
        )
    }
}

pub open spec fn min_nat(a: nat, b: nat) -> nat {
    if a <= b {
        a
    } else {
        b
    }
}

/// The reservoir holds `min(k, n)` lines after `n` lines.
pub proof fn lemma_reservoir_len(lines: Seq<String>, k: nat, g: StdRng)
    ensures
        reservoir_run(lines, k, g).0.len() == min_nat(k, lines.len()),
    decreases lines.len(),
{
    if lines.len() > 0 {
        lemma_reservoir_len(lines.drop_last(), k, g);
    }
}

/// While no more than `k` lines have come, the reservoir holds all of them
/// in their order and no draw was made.
pub proof fn lemma_reservoir_keeps_all(lines: Seq<String>, k: nat, g: StdRng)
    requires
        lines.len() <= k,
    ensures
        reservoir_run(lines, k, g) == (lines, g),
    decreases lines.len(),
{
    if lines.len() > 0 {
        lemma_reservoir_keeps_all(lines.drop_last(), k, g);
        assert(lines.drop_last().push(lines.last()) =~= lines);
    }
}

/// Every line in the reservoir is one of the lines read.
pub proof fn lemma_reservoir_from_input(lines: Seq<String>, k: nat, g: StdRng)
    ensures
        forall|x: String| reservoir_run(lines, k, g).0.contains(x) ==> lines.contains(x),
    decreases lines.len(),
{
    if lines.len() > 0 {
        let prev = lines.drop_last();
        lemma_reservoir_from_input(prev, k, g);
        lemma_reservoir_len(prev, k, g);
        let r = reservoir_run(lines, k, g).0;
        let p = reservoir_run(prev, k, g).0;
        assert forall|x: String| r.contains(x) implies lines.contains(x) by {
            let idx = choose|idx: int| 0 <= idx < r.len() && r[idx] == x;
            if x == lines.last() {
                assert(lines[lines.len() - 1] == x);
            } else {
                assert(p[idx] == x);
                assert(p.contains(x));
                assert(prev.contains(x));
                let pi = choose|pi: int| 0 <= pi < prev.len() && prev[pi] == x;
                assert(lines[pi] == x);
            }
        }
    }
}

/// Places `line` in the full reservoir `slots` of capacity `k` after the draw
/// `j`: it takes slot `j` when `j < k` and is dropped otherwise.
pub fn place(slots: &mut Vec<String>, line: String, j: u64, k: usize)
    requires
        old(slots)@.len() == k,
    ensures
        final(slots)@ == if j < k {
            old(slots)@.update(j as int, line)
        } else {
            old(slots)@
        },
{
    if j < k as u64 {
        slots[j as usize] = line;
    }
}

/// A reservoir of capacity `k` that has read `seen` lines.
pub struct Reservoir {
    capacity: usize,
    seen: usize,
    slots: Vec<String>,
}

impl Reservoir {
    pub closed spec fn capacity(&self) -> nat {
        self.capacity as nat
    }

    pub closed spec fn seen(&self) -> nat {
        self.seen as nat
    }

    pub closed spec fn slots(&self) -> Seq<String> {
        self.slots@
    }

    pub closed spec fn wf(&self) -> bool {
        self.slots@.len() == min_nat(self.capacity as nat, self.seen as nat)
    }

    /// An empty reservoir of capacity `k`.
    pub fn new(k: usize) -> (r: Reservoir)
        ensures
            r.wf(),
            r.capacity() == k,
            r.seen() == 0,
            r.slots() == Seq::<String>::empty(),
    {
        Reservoir { capacity: k, seen: 0, slots: Vec::new() }
    }

    /// Reads one more line, drawing from `g` once the reservoir is full.
    pub fn offer(&mut self, line: String, g: &mut StdRng)
        requires
            old(self).wf(),
            old(self).seen() < usize::MAX,
        ensures
            final(self).wf(),
            final(self).capacity() == old(self).capacity(),
            final(self).seen() == old(self).seen() + 1,
            (final(self).slots(), *final(g)) == reservoir_step(
                (old(self).slots(), *old(g)),
                old(self).seen(),
                line,
                old(self).capacity(),
            ),
    {
        let i = self.seen;
        if i < self.capacity {
            self.slots.push(line);
        } else {
            let j = draw_at_most(g, i as u64);
            place(&mut self.slots, line, j, self.capacity);
        }
        self.seen = i + 1;
    }

    /// The slots in positional order.
    pub fn into_lines(self) -> (r: Vec<String>)
        ensures
            r@ == self.slots(),
    {
        self.slots
    }
}

/// Samples `min(k, n)` of the `n` lines with the reservoir algorithm, drawing
/// from `rng`. The result lists the slots in positional order.
pub fn reservoir_sample(lines: Vec<String>, k: usize, rng: StdRng) -> (r: Vec<String>)
    ensures
        r@ == reservoir_run(lines@, k as nat, rng).0,
        r@.len() == min_nat(k as nat, lines@.len()),
        lines@.len() <= k ==> r@ == lines@,
        forall|x: String| r@.contains(x) ==> lines@.contains(x),
{
    let mut g = rng;
    let mut res = Reservoir::new(k);
    let mut i: usize = 0;
    while i < lines.len()
        invariant
            i <= lines@.len(),
            res.wf(),
            res.capacity() == k,
            res.seen() == i,
            (res.slots(), g) == reservoir_run(lines@.take(i as int), k as nat, rng),
        decreases lines@.len() - i,
    {
        assert(lines@.take(i + 1).drop_last() =~= lines@.take(i as int));
        res.offer(lines[i].clone(), &mut g);
        i = i + 1;
    }
    assert(lines@.take(i as int) =~= lines@);
    proof {
        lemma_reservoir_len(lines@, k as nat, rng);
        lemma_reservoir_from_input(lines@, k as nat, rng);
        if lines@.len() <= k {
            lemma_reservoir_keeps_all(lines@, k as nat, rng);
        }
    }
    res.into_lines()
}

} // verus!
