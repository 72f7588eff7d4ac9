//! A whole run: leading header lines pass through, the rest feed the sampler
//! that the mode selects.

use vstd::prelude::*;
use rand::rngs::StdRng;
use crate::bernoulli::{keep_run, KeepSampler};
use crate::config::Mode;
use crate::random::seeded_state;
use crate::reservoir::{min_nat, reservoir_run, Reservoir};

verus! {

/// The sampled lines and the generator after the mode's sampler has read
/// `lines` from generator `g`.
pub open spec fn sample_run(lines: Seq<String>, mode: Mode, g: StdRng) -> (Seq<String>, StdRng) {
    match mode {
        Mode::FixedSize(k) => reservoir_run(lines, k as nat, g),
        Mode::Probability(t) => keep_run(lines, t, g),
    }
}

/// The lines after the first `h`, which the sampler reads.
pub open spec fn body_of(lines: Seq<String>, h: nat) -> Seq<String> {
    if lines.len() <= h {
        Seq::empty()
    } else {
        lines.skip(h as int)
    }
}

/// The whole output of a run: the first `h` lines verbatim, then the sample
/// of the rest. A stream of no more than `h` lines is passed through whole.
pub open spec fn run_output(lines: Seq<String>, h: nat, mode: Mode, g: StdRng) -> Seq<String> {
    if lines.len() <= h {
        lines
    } else {
        lines.take(h as int) + sample_run(lines.skip(h as int), mode, g).0
    }
}

/// Header lines pass through verbatim and ahead of the sample, and the sample
/// starts from the run's generator: the headers take no draw. A stream of no
/// more than `h` lines comes out whole.
pub proof fn lemma_headers_pass_through(lines: Seq<String>, h: nat, mode: Mode, g: StdRng)
    ensures
        h <= lines.len() ==> run_output(lines, h, mode, g).take(h as int) == lines.take(h as int),
        h < lines.len() ==> run_output(lines, h, mode, g).skip(h as int) == sample_run(
            lines.skip(h as int),
            mode,
            g,
        ).0,
        lines.len() <= h ==> run_output(lines, h, mode, g) == lines,
{
    if h < lines.len() {
        let out = run_output(lines, h, mode, g);
        assert(out.take(h as int) =~= lines.take(h as int));
        assert(out.skip(h as int) =~= sample_run(lines.skip(h as int), mode, g).0);
    } else if h == lines.len() {
        assert(lines.take(h as int) =~= lines);
    }
}

/// Two runs over the same lines, in the same mode and with the same header
/// count, whose generators were built from the same seed, give the same
/// output line for line.
pub proof fn lemma_same_seed_same_output(
    seed: u64,
    lines: Seq<String>,
    h: nat,
    mode: Mode,
    g1: StdRng,
    g2: StdRng,
)
    requires
        g1 == seeded_state(seed),
        g2 == seeded_state(seed),
    ensures
        run_output(lines, h, mode, g1) == run_output(lines, h, mode, g2),
{
}

proof fn lemma_sample_run_empty(mode: Mode, g: StdRng)
    ensures
        sample_run(Seq::empty(), mode, g) == (Seq::<String>::empty(), g),
{
}

/// A run in progress: it has read `input()`, starting from generator
/// `start()`, and passes the first `header_count()` lines through.
pub struct Sampler {
    headers: usize,
    read: usize,
    mode: Mode,
    slots: Reservoir,
    keep: KeepSampler,
    rng: StdRng,
    input: Ghost<Seq<String>>,
    start: Ghost<StdRng>,
}

impl Sampler {
    pub closed spec fn header_count(&self) -> nat {
        self.headers as nat
    }

    pub closed spec fn mode(&self) -> Mode {
        self.mode
    }

    pub closed spec fn input(&self) -> Seq<String> {
        self.input@
    }

    pub closed spec fn start(&self) -> StdRng {
        self.start@
    }

    pub closed spec fn generator(&self) -> StdRng {
        self.rng
    }

    closed spec fn sampled(&self) -> Seq<String> {
        match self.mode {
            Mode::FixedSize(_) => self.slots.slots(),
            Mode::Probability(_) => self.keep.kept(),
        }
    }

    pub closed spec fn wf(&self) -> bool {
        &&& self.read as nat == self.input@.len()
        &&& (self.sampled(), self.rng) == sample_run(
            body_of(self.input@, self.headers as nat),
            self.mode,
            self.start@,
        )
        &&& match self.mode {
            Mode::FixedSize(k) => {
                &&& self.slots.wf()
                &&& self.slots.capacity() == k
                &&& self.slots.seen() == body_of(self.input@, self.headers as nat).len()
            },
            Mode::Probability(t) => self.keep.threshold() == t,
        }
    }

    /// A run that has read nothing yet.
    pub fn new(mode: Mode, headers: usize, rng: StdRng) -> (r: Sampler)
        ensures
            r.wf(),
            r.mode() == mode,
            r.header_count() == headers,
            r.input() == Seq::<String>::empty(),
            r.start() == rng,
            r.generator() == rng,
    {
        let (k, t) = match mode {
            Mode::FixedSize(k) => (k, 0u64),
            Mode::Probability(t) => (0usize, t),
        };
        let r = Sampler {
            headers,
            read: 0,
            mode,
            slots: Reservoir::new(k),
            keep: KeepSampler::new(t),
            rng,
            input: Ghost(Seq::empty()),
            start: Ghost(rng),
        };
        proof {
            lemma_sample_run_empty(mode, rng);
        }
        r
    }

    /// Reads one line. A header line comes back at once, to be written out
    /// before anything else, and makes no draw; any other line goes to the
    /// sampler.
    pub fn feed(&mut self, line: String) -> (r: Option<String>)
        requires
            old(self).wf(),
            old(self).input().len() < usize::MAX,
        ensures
            final(self).wf(),
            final(self).mode() == old(self).mode(),
            final(self).header_count() == old(self).header_count(),
            final(self).start() == old(self).start(),
            final(self).input() == old(self).input().push(line),
            old(self).input().len() < old(self).header_count() ==> r == Some(line),
            old(self).input().len() < old(self).header_count() ==> final(self).generator()
                == old(self).generator(),
            old(self).input().len() >= old(self).header_count() ==> r is None,
    {
        let ghost before = self.input@;
        let ghost h = self.headers as nat;
        proof {
            self.input = Ghost(before.push(line));
        }
        let n = self.read;
        self.read = n + 1;
        if n < self.headers {
            assert(body_of(self.input@, h) == Seq::<String>::empty());
            assert(body_of(before, h) == Seq::<String>::empty());
            Some(line)
        } else {
            let ghost body = body_of(before, h);
            assert(body_of(self.input@, h) =~= body.push(line));
            assert(body_of(self.input@, h).drop_last() =~= body);
            match self.mode {
                Mode::FixedSize(_) => {
                    self.slots.offer(line, &mut self.rng);
                },
                Mode::Probability(_) => {
                    self.keep.offer(line, &mut self.rng);
                },
            }
            None
        }
    }

    /// The sample of the lines after the headers, in output order.
    pub fn finish(self) -> (r: Vec<String>)
        requires
            self.wf(),
        ensures
            r@ == sample_run(body_of(self.input(), self.header_count()), self.mode(), self.start()).0,
    {
        match self.mode {
            Mode::FixedSize(_) => self.slots.into_lines(),
            Mode::Probability(_) => self.keep.into_lines(),
        }
    }
}

/// Runs the whole stream `lines` through a `Sampler`: the first `headers`
/// lines verbatim, then the sample that `mode` draws from `rng`.
pub fn sample_lines(lines: Vec<String>, headers: usize, mode: Mode, rng: StdRng) -> (r: Vec<String>)
    ensures
        r@ == run_output(lines@, headers as nat, mode, rng),
{
    let mut s = Sampler::new(mode, headers, rng);
    let mut out: Vec<String> = Vec::new();
    let mut i: usize = 0;
    while i < lines.len()
        invariant
            i <= lines@.len(),
            s.wf(),
            s.mode() == mode,
            s.header_count() == headers,
            s.start() == rng,
            s.input() == lines@.take(i as int),
            out@ == lines@.take(min_nat(i as nat, headers as nat) as int),
        decreases lines@.len() - i,
    {
        let line = lines[i].clone();
        assert(lines@.take(i + 1) =~= lines@.take(i as int).push(line));
        match s.feed(line) {
            Some(head) => {
                out.push(head);
            },
            None => {},
        }
        i = i + 1;
        assert(out@ =~= lines@.take(min_nat(i as nat, headers as nat) as int));
    }
    assert(lines@.take(i as int) =~= lines@);
    let mut rest = s.finish();
    out.append(&mut rest);
    if lines.len() <= headers {
        assert(out@ =~= lines@);
    }
    out
}

} // verus!
