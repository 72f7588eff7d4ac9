//! Probability sampling: each line is kept on its own draw.
//!
//! A keep probability `p` in `[0, 1]` is held as the integer threshold
//! `ceil(p * 2^53)`. Each line takes one 64-bit word `w` from the generator;
//! its top 53 bits, `w >> 11`, are a uniform integer in `[0, 2^53)`, and the
//! line is kept when that integer is below the threshold. This is the same
//! comparison as drawing a uniform real `u` in `[0, 1)` with 53 bits of
//! precision and keeping the line when `u < p`.

use vstd::prelude::*;
use rand::rngs::StdRng;
use crate::random::{after_word_draw, draw_word, word_draw};

verus! {

/// The threshold of probability one: `2^53`.
pub const ALWAYS: u64 = 9007199254740992;

/// The uniform integer in `[0, 2^53)` read from a 64-bit word: its top 53 bits.
pub open spec fn unit_of(w: u64) -> int {
    w as int / 2048
}

/// One line of the probability sampler with threshold `t`.
pub open spec fn keep_step(st: (Seq<String>, StdRng), line: String, t: u64) -> (
    Seq<String>,
    StdRng,
) {
    (
        if unit_of(word_draw(st.1)) < t {
            st.0.push(line)
        } else {
            st.0
        },
        after_word_draw(st.1),
    )
}

/// The kept lines and the generator after the probability sampler with
/// threshold `t` has read `lines`, starting from generator `g`.
pub open spec fn keep_run(lines: Seq<String>, t: u64, g: StdRng) -> (Seq<String>, StdRng)
    decreases lines.len(),
{
    if lines.len() == 0 {
        (Seq::empty(), g)
    } else {
        keep_step(keep_run(lines.drop_last(), t, g), lines.last(), t)
    }
}

/// The lines of `lines` whose entry in `mask` is true, in their order.
pub open spec fn masked(lines: Seq<String>, mask: Seq<bool>) -> Seq<String>
    decreases lines.len(),
{
    if lines.len() == 0 || mask.len() == 0 {
        Seq::empty()
    } else {
        let prev = masked(lines.drop_last(), mask.drop_last());
        if mask.last() {
            prev.push(lines.last())
        } else {
            prev
        }
    }
}

/// `a` is `b` with some lines left out and the others in their order.
pub open spec fn is_subsequence(a: Seq<String>, b: Seq<String>) -> bool {
    exists|mask: Seq<bool>| mask.len() == b.len() && a == masked(b, mask)
}

/// Whether a line is kept on drawn word `w` with threshold `t`.
pub fn keeps(w: u64, t: u64) -> (r: bool)
    ensures
        r == (unit_of(w) < t),
{
    let u = w >> 11u64;
    assert(w >> 11u64 == w / 2048u64) by (bit_vector);
    u < t
}

proof fn lemma_unit_below_always(w: u64)
    ensures
        unit_of(w) < ALWAYS,
{
}

/// The probability sampler keeps an order-preserving subsequence of its input.
pub proof fn lemma_keep_is_subsequence(lines: Seq<String>, t: u64, g: StdRng)
    ensures
        is_subsequence(keep_run(lines, t, g).0, lines),
    decreases lines.len(),
{
    if lines.len() == 0 {
        let mask = Seq::<bool>::empty();
        assert(mask.len() == lines.len() && keep_run(lines, t, g).0 == masked(lines, mask));
    } else {
        let prev = lines.drop_last();
        lemma_keep_is_subsequence(prev, t, g);
        let m = choose|m: Seq<bool>| m.len() == prev.len() && keep_run(prev, t, g).0 == masked(prev, m);
        let st = keep_run(prev, t, g);
        let kept = unit_of(word_draw(st.1)) < t;
        let mask = m.push(kept);
        assert(mask.drop_last() =~= m);
        assert(mask.len() == lines.len() && keep_run(lines, t, g).0 == masked(lines, mask));
    }
}

/// With threshold zero nothing is kept.
pub proof fn lemma_keep_none(lines: Seq<String>, g: StdRng)
    ensures
        keep_run(lines, 0, g).0 == Seq::<String>::empty(),
    decreases lines.len(),
{
    if lines.len() > 0 {
        lemma_keep_none(lines.drop_last(), g);
    }
}

/// With a threshold of at least `ALWAYS` every line is kept, in its order.
pub proof fn lemma_keep_all(lines: Seq<String>, t: u64, g: StdRng)
    requires
        t >= ALWAYS,
    ensures
        keep_run(lines, t, g).0 == lines,
    decreases lines.len(),
{
    if lines.len() > 0 {
        let prev = lines.drop_last();
        lemma_keep_all(prev, t, g);
        lemma_unit_below_always(word_draw(keep_run(prev, t, g).1));
        assert(prev.push(lines.last()) =~= lines);
    }
}

/// The state of the probability sampler: its threshold and the lines kept.
pub struct KeepSampler {
    threshold: u64,
    kept: Vec<String>,
}

impl KeepSampler {
    pub closed spec fn threshold(&self) -> u64 {
        self.threshold
    }

    pub closed spec fn kept(&self) -> Seq<String> {
        self.kept@
    }

    /// A sampler with threshold `t` that has kept nothing yet.
    pub fn new(t: u64) -> (r: KeepSampler)
        ensures
            r.threshold() == t,
            r.kept() == Seq::<String>::empty(),
    {
        KeepSampler { threshold: t, kept: Vec::new() }
    }

    /// Reads one more line, with one draw from `g`.
    pub fn offer(&mut self, line: String, g: &mut StdRng)
        ensures
            final(self).threshold() == old(self).threshold(),
            (final(self).kept(), *final(g)) == keep_step(
                (old(self).kept(), *old(g)),
                line,
                old(self).threshold(),
            ),
    {
        let w = draw_word(g);
        if keeps(w, self.threshold) {
            self.kept.push(line);
        }
    }

    /// The kept lines, in the order they were read.
    pub fn into_lines(self) -> (r: Vec<String>)
        ensures
            r@ == self.kept(),
    {
        self.kept
    }
}

/// Keeps each line on its own draw from `rng`, with threshold `t` (see the
/// module's documentation), in the order the lines come.
pub fn probability_sample(lines: Vec<String>, t: u64, rng: StdRng) -> (r: Vec<String>)
    ensures
        r@ == keep_run(lines@, t, rng).0,
        is_subsequence(r@, lines@),
        t == 0 ==> r@ == Seq::<String>::empty(),
        t >= ALWAYS ==> r@ == lines@,
{
    let mut g = rng;
    let mut s = KeepSampler::new(t);
    let mut i: usize = 0;
    while i < lines.len()
        invariant
            i <= lines@.len(),
            s.threshold() == t,
            (s.kept(), g) == keep_run(lines@.take(i as int), t, rng),
        decreases lines@.len() - i,
    {
        assert(lines@.take(i + 1).drop_last() =~= lines@.take(i as int));
        s.offer(lines[i].clone(), &mut g);
        i = i + 1;
    }
    assert(lines@.take(i as int) =~= lines@);
    proof {
        lemma_keep_is_subsequence(lines@, t, rng);
        lemma_keep_none(lines@, rng);
        if t >= ALWAYS {
            lemma_keep_all(lines@, t, rng);
        }
    }
    s.into_lines()
}

} // verus!
