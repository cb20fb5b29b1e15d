//! A fixed note pattern played at a steady rate, one step per rendered
//! sample.

use vstd::prelude::*;

verus! {

/// One sample step of the pattern clock, on (notes played, samples since the
/// last note): the count of samples goes up by one, and when it reaches the
/// note length a note is played and the count starts again from zero.
pub open spec fn clock_step(period: nat, st: (nat, nat)) -> (nat, nat) {
    if st.1 + 1 >= period {
        (st.0 + 1, 0)
    } else {
        (st.0, st.1 + 1)
    }
}

/// The clock after `t` sample steps from `st`.
pub open spec fn clock_after(period: nat, st: (nat, nat), t: nat) -> (nat, nat)
    decreases t,
{
    if t == 0 {
        st
    } else {
        clock_step(period, clock_after(period, st, (t - 1) as nat))
    }
}

/// Schedule law: from a fresh start, after `t` samples exactly `t / period`
/// notes have been played and `t % period` samples have passed since the
/// last one; so a note falls due on every `period`-th sample and on no other.
pub proof fn lemma_clock_schedule(period: nat, t: nat)
    requires
        period >= 1,
    ensures
        clock_after(period, (0, 0), t) == ((t / period) as nat, (t % period) as nat),
    decreases t,
{
    if t > 0 {
        let p = period as int;
        let prev = (t - 1) as nat;
        lemma_clock_schedule(period, prev);
        let q = prev as int / p;
        let r = prev as int % p;
        vstd::arithmetic::div_mod::lemma_fundamental_div_mod(prev as int, p);
        vstd::arithmetic::div_mod::lemma_mod_bound(prev as int, p);
        vstd::arithmetic::div_mod::lemma_div_pos_is_pos(prev as int, p);
        assert(prev as int == q * p + r) by (nonlinear_arith)
            requires prev as int == p * q + r;
        assert(clock_after(period, (0, 0), t) == clock_step(period, clock_after(period, (0, 0), prev)));
        assert(clock_after(period, (0, 0), prev) == (q as nat, r as nat));
        if r + 1 >= p {
            assert(t as int == (q + 1) * p + 0) by (nonlinear_arith)
                requires prev as int == q * p + r, r + 1 == p, t as int == prev as int + 1;
            vstd::arithmetic::div_mod::lemma_fundamental_div_mod_converse(t as int, p, q + 1, 0);
            assert(clock_after(period, (0, 0), t) == ((q + 1) as nat, 0nat));
        } else {
            vstd::arithmetic::div_mod::lemma_fundamental_div_mod_converse(t as int, p, q, r + 1);
            assert(clock_after(period, (0, 0), t) == (q as nat, (r + 1) as nat));
        }
    } else {
        vstd::arithmetic::div_mod::lemma_fundamental_div_mod_converse(0, period as int, 0, 0);
    }
}

/// Which sample steps play a note: from a fresh start, step number `t + 1`
/// plays one exactly when `t + 1` is a multiple of `period`, and the note it
/// plays is the `((t + 1) / period - 1)`-th of the run.
pub proof fn lemma_note_steps(period: nat, t: nat)
    requires
        period >= 1,
    ensures
        (clock_after(period, (0, 0), t).1 + 1 >= period) <==> ((t + 1) as int % (period as int) == 0),
        (t + 1) as int % (period as int) == 0
            ==> clock_after(period, (0, 0), t).0 == (t + 1) as int / (period as int) - 1,
{
    let p = period as int;
    lemma_clock_schedule(period, t);
    let q = t as int / p;
    let r = t as int % p;
    vstd::arithmetic::div_mod::lemma_fundamental_div_mod(t as int, p);
    vstd::arithmetic::div_mod::lemma_mod_bound(t as int, p);
    assert(t as int == q * p + r) by (nonlinear_arith)
        requires t as int == p * q + r;
    if r + 1 == p {
        assert((t + 1) as int == (q + 1) * p + 0) by (nonlinear_arith)
            requires t as int == q * p + r, r + 1 == p;
        vstd::arithmetic::div_mod::lemma_fundamental_div_mod_converse((t + 1) as int, p, q + 1, 0);
    } else {
        vstd::arithmetic::div_mod::lemma_fundamental_div_mod_converse((t + 1) as int, p, q, r + 1);
    }
}

/// The note played by the pattern: the `k`-th note (counting from 0) is
/// entry `k % len` of the pattern, so the pattern repeats from its start once
/// it is used up.
pub open spec fn pattern_note(pattern: Seq<usize>, k: nat) -> usize {
    pattern[(k % pattern.len()) as int]
}

/// Cycling law of the pattern: the first `len` notes are the pattern's
/// entries in order, and from then on every note repeats the one `len`
/// notes before it.
pub proof fn lemma_pattern_cycles(pattern: Seq<usize>, k: nat)
    requires
        pattern.len() > 0,
    ensures
        k < pattern.len() ==> pattern_note(pattern, k) == pattern[k as int],
        pattern_note(pattern, k + pattern.len()) == pattern_note(pattern, k),
{
    let n = pattern.len() as int;
    vstd::arithmetic::div_mod::lemma_fundamental_div_mod(k as int, n);
    vstd::arithmetic::div_mod::lemma_mod_bound(k as int, n);
    let q = k as int / n;
    let r = k as int % n;
    if k < pattern.len() {
        vstd::arithmetic::div_mod::lemma_small_mod(k, pattern.len());
    }
    assert((k + n) as int == (q + 1) * n + r) by (nonlinear_arith)
        requires k as int == n * q + r;
    vstd::arithmetic::div_mod::lemma_fundamental_div_mod_converse((k + n) as int, n, q + 1, r);
}

/// Steps through `pattern`, playing its next entry every `samples_per_note`
/// samples and starting over at its end.
pub struct NoteSequencer {
    pattern: Vec<usize>,
    samples_per_note: usize,
    seq_index: usize,
    sample_in_note: usize,
}

impl NoteSequencer {
    #[verifier::type_invariant]
    spec fn inv(&self) -> bool {
        &&& self.pattern@.len() > 0
        &&& (self.sample_in_note < self.samples_per_note || self.sample_in_note == 0)
    }

    /// The note pattern.
    pub closed spec fn pattern(&self) -> Seq<usize> {
        self.pattern@
    }

    /// Samples between two notes.
    pub closed spec fn period(&self) -> nat {
        self.samples_per_note as nat
    }

    /// How many notes have been played.
    pub closed spec fn played(&self) -> nat {
        self.seq_index as nat
    }

    /// Samples stepped since the last note.
    pub closed spec fn elapsed(&self) -> nat {
        self.sample_in_note as nat
    }

    /// A sequencer at the start of `pattern`.
    pub fn new(pattern: Vec<usize>, samples_per_note: usize) -> (s: Self)
        requires
            pattern@.len() > 0,
        ensures
            s.pattern() == pattern@,
            s.period() == samples_per_note,
            s.played() == 0,
            s.elapsed() == 0,
    {
        NoteSequencer { pattern, samples_per_note, seq_index: 0, sample_in_note: 0 }
    }

    /// How many notes have been played.
    pub fn notes_played(&self) -> (n: usize)
        ensures
            n == self.played(),
    {
        self.seq_index
    }

    /// Advances by one rendered sample; returns the pattern entry to play
    /// when a note falls due.
    pub fn tick(&mut self) -> (note: Option<usize>)
        requires
            old(self).played() < usize::MAX,
        ensures
            final(self).pattern() == old(self).pattern(),
            final(self).period() == old(self).period(),
            (final(self).played(), final(self).elapsed())
                == clock_step(old(self).period(), (old(self).played(), old(self).elapsed())),
            old(self).elapsed() + 1 >= old(self).period() ==> note == Some(
                old(self).pattern()[(old(self).played() % old(self).pattern().len()) as int],
            ),
            note == (if old(self).elapsed() + 1 >= old(self).period() {
                Some(pattern_note(old(self).pattern(), old(self).played()))
            } else {
                None::<usize>
            }),
    {
        proof { use_type_invariant(&*self); }
        let next = self.sample_in_note + 1;
        if next >= self.samples_per_note {
            let note = self.pattern[self.seq_index % self.pattern.len()];
            self.seq_index = self.seq_index + 1;
            self.sample_in_note = 0;
            Some(note)
        } else {
            self.sample_in_note = next;
            None
        }
    }
}

} // verus!
