//! A circular delay line: the storage behind every plucked string and the
//! gourd body resonator.

use vstd::prelude::*;

verus! {

/// The cursor position that follows `c` in a ring of `len` cells.
pub open spec fn next_index(c: int, len: int) -> int {
    if c + 1 >= len { 0 } else { c + 1 }
}

/// The cell that holds the sample written `d` steps before a cursor at `c`
/// (for `d == 0` or `d == len`, the cell under the cursor itself).
pub open spec fn delay_index(c: int, len: int, d: int) -> int {
    if c >= d { c - d } else { c + len - d }
}

/// `x` brought back into a ring of `len` cells, for `0 <= x < 2 * len`.
pub open spec fn wrap(x: int, len: int) -> int {
    if x < len { x } else { x - len }
}

/// How many steps forward from cell `c` cell `j` lies.
pub open spec fn ahead(c: int, j: int, len: int) -> int {
    if j >= c { j - c } else { j + len - c }
}

/// The samples and cursor of a line that starts with samples `s` and cursor
/// `c` and is then written `vs[0]`, `vs[1]`, ... in turn.
pub open spec fn write_all<T>(s: Seq<T>, c: int, vs: Seq<T>) -> (Seq<T>, int)
    decreases vs.len(),
{
    if vs.len() == 0 {
        (s, c)
    } else {
        write_all(s.update(c, vs[0]), next_index(c, s.len() as int), vs.drop_first())
    }
}

proof fn lemma_write_all<T>(s: Seq<T>, c: int, vs: Seq<T>)
    requires
        0 <= c < s.len(),
        vs.len() <= s.len(),
    ensures
        write_all(s, c, vs).0.len() == s.len(),
        write_all(s, c, vs).1 == wrap(c + vs.len(), s.len() as int),
        forall|k: int| 0 <= k < vs.len()
            ==> #[trigger] write_all(s, c, vs).0[wrap(c + k, s.len() as int)] == vs[k],
        forall|j: int| 0 <= j < s.len() && ahead(c, j, s.len() as int) >= vs.len()
            ==> #[trigger] write_all(s, c, vs).0[j] == s[j],
    decreases vs.len(),
{
    let len = s.len() as int;
    if vs.len() > 0 {
        let s1 = s.update(c, vs[0]);
        let c1 = next_index(c, len);
        let rest = vs.drop_first();
        lemma_write_all(s1, c1, rest);
        let r = write_all(s, c, vs);
        assert(r == write_all(s1, c1, rest));
        assert forall|k: int| 0 <= k < vs.len()
            implies #[trigger] r.0[wrap(c + k, len)] == vs[k] by {
            if k == 0 {
                assert(ahead(c1, c, len) == len - 1);
                assert(r.0[c] == s1[c]);
            } else {
                assert(wrap(c + k, len) == wrap(c1 + (k - 1), len));
                assert(rest[k - 1] == vs[k]);
                assert(r.0[wrap(c1 + (k - 1), len)] == rest[k - 1]);
            }
        }
        assert forall|j: int| 0 <= j < len && ahead(c, j, len) >= vs.len()
            implies #[trigger] r.0[j] == s[j] by {
            assert(ahead(c1, j, len) == ahead(c, j, len) - 1);
            assert(r.0[j] == s1[j]);
        }
    }
}

/// Echo law of the delay line: after a run of at most `len` writes, tapping
/// `m` steps back (for `1 <= m <=` the run's length) reads the sample written
/// `m` writes ago. In particular, the sample under the cursor is the one
/// written exactly `len` writes earlier: a string of `len` cells repeats with
/// a period of `len` samples.
pub proof fn lemma_delay_echo<T>(s: Seq<T>, c: int, vs: Seq<T>, m: int)
    requires
        0 <= c < s.len(),
        vs.len() <= s.len(),
        1 <= m <= vs.len(),
    ensures
        write_all(s, c, vs).0[delay_index(write_all(s, c, vs).1, s.len() as int, m)]
            == vs[vs.len() - m],
{
    let len = s.len() as int;
    lemma_write_all(s, c, vs);
    let k = vs.len() - m;
    assert(delay_index(write_all(s, c, vs).1, len, m) == wrap(c + k, len));
    assert(write_all(s, c, vs).0[wrap(c + k, len)] == vs[k]);
}

/// Period law of the delay line: `len` writes bring the cursor back to
/// where it started, and every cell then holds the write made when the
/// cursor passed over it.
pub proof fn lemma_full_cycle<T>(s: Seq<T>, c: int, vs: Seq<T>)
    requires
        0 <= c < s.len(),
        vs.len() == s.len(),
    ensures
        write_all(s, c, vs).1 == c,
        forall|k: int| 0 <= k < vs.len()
            ==> #[trigger] write_all(s, c, vs).0[wrap(c + k, s.len() as int)] == vs[k],
{
    lemma_write_all(s, c, vs);
}

/// Writing one more sample after a run of writes is one `write_advance`
/// step from where the run ended.
pub proof fn lemma_write_all_push<T>(s: Seq<T>, c: int, vs: Seq<T>, v: T)
    requires
        0 <= c < s.len(),
    ensures
        write_all(s, c, vs.push(v)) == ({
            let r = write_all(s, c, vs);
            (r.0.update(r.1, v), next_index(r.1, s.len() as int))
        }),
    decreases vs.len(),
{
    if vs.len() == 0 {
        assert(vs.push(v).drop_first() =~= Seq::<T>::empty());
        assert(vs.push(v)[0] == v);
        assert(write_all(s, c, vs) == (s, c));
        let s1 = s.update(c, v);
        let c1 = next_index(c, s.len() as int);
        assert(write_all(s1, c1, Seq::<T>::empty()) == (s1, c1));
    } else {
        let s1 = s.update(c, vs[0]);
        let c1 = next_index(c, s.len() as int);
        assert(vs.push(v).drop_first() =~= vs.drop_first().push(v));
        assert(vs.push(v)[0] == vs[0]);
        assert(s1.len() == s.len());
        lemma_write_all_push(s1, c1, vs.drop_first(), v);
        lemma_write_all_len(s1, c1, vs.drop_first());
        assert(write_all(s, c, vs.push(v)) == write_all(s1, c1, vs.drop_first().push(v)));
        assert(write_all(s, c, vs) == write_all(s1, c1, vs.drop_first()));
    }
}

proof fn lemma_write_all_len<T>(s: Seq<T>, c: int, vs: Seq<T>)
    requires
        0 <= c < s.len(),
    ensures
        write_all(s, c, vs).0.len() == s.len(),
        0 <= write_all(s, c, vs).1 < s.len(),
    decreases vs.len(),
{
    if vs.len() > 0 {
        lemma_write_all_len(s.update(c, vs[0]), next_index(c, s.len() as int), vs.drop_first());
    }
}

proof fn lemma_mod_below_twice(x: int, n: int)
    requires
        0 < n,
        0 <= x < 2 * n,
    ensures
        x % n == (if x < n { x } else { x - n }),
{
    if x < n {
        vstd::arithmetic::div_mod::lemma_small_mod(x as nat, n as nat);
    } else {
        vstd::arithmetic::div_mod::lemma_small_mod((x - n) as nat, n as nat);
        vstd::arithmetic::div_mod::lemma_mod_sub_multiples_vanish(x, n);
    }
}

/// A fixed-length ring of samples with a cursor. Writing stores a sample
/// under the cursor and moves the cursor one cell on, wrapping at the end.
pub struct DelayLine<T> {
    buf: Vec<T>,
    pos: usize,
}

impl<T> DelayLine<T> {
    #[verifier::type_invariant]
    spec fn inv(&self) -> bool {
        if self.buf@.len() == 0 {
            self.pos == 0
        } else {
            self.pos < self.buf@.len()
        }
    }

    /// The samples held by the line, indexed by cell.
    pub closed spec fn samples(&self) -> Seq<T> {
        self.buf@
    }

    /// The cell under the cursor.
    pub closed spec fn cursor(&self) -> int {
        self.pos as int
    }

    /// A line that holds `samples`, with the cursor on the first cell.
    pub fn new(samples: Vec<T>) -> (line: Self)
        ensures
            line.samples() == samples@,
            line.cursor() == 0,
    {
        DelayLine { buf: samples, pos: 0 }
    }

    /// The number of cells.
    pub fn len(&self) -> (n: usize)
        ensures
            n == self.samples().len(),
    {
        self.buf.len()
    }

    /// The cell under the cursor.
    pub fn position(&self) -> (p: usize)
        ensures
            p == self.cursor(),
            self.samples().len() == 0 ==> p == 0,
            self.samples().len() > 0 ==> p < self.samples().len(),
    {
        proof { use_type_invariant(self); }
        self.pos
    }
}

/// The length of a string's delay line: the requested number of cells, but
/// never fewer than `minimum`.
pub fn string_length(requested: usize, minimum: usize) -> (n: usize)
    ensures
        n == (if requested >= minimum { requested } else { minimum }),
{
    if requested >= minimum { requested } else { minimum }
}

/// The delay, in cells, at which the gourd body reads its line of `len`
/// cells: the requested delay held between 2 and `len - 1`.
pub fn body_delay(requested: usize, len: usize) -> (d: usize)
    requires
        len >= 3,
    ensures
        d == (if requested < 2 { 2 } else if requested > len - 1 { (len - 1) as usize } else { requested }),
        2 <= d < len,
{
    if requested < 2 {
        2
    } else if requested > len - 1 {
        len - 1
    } else {
        requested
    }
}

impl<T: Copy> DelayLine<T> {
    /// The sample written `delay` steps ago: `delay` cells behind the cursor,
    /// where a delay of zero, like one of the full length, names the cell
    /// under the cursor (the oldest sample).
    pub fn tap(&self, delay: usize) -> (v: T)
        requires
            self.samples().len() > 0,
            delay <= self.samples().len(),
        ensures
            v == self.samples()[delay_index(self.cursor(), self.samples().len() as int, delay as int)],
            v == self.samples()[(self.cursor() + self.samples().len() - delay) % (self.samples().len() as int)],
    {
        proof { use_type_invariant(self); }
        let len = self.buf.len();
        proof {
            lemma_mod_below_twice(self.pos + len - delay, len as int);
        }
        // The cell `(pos + len - delay) % len`, computed without overflow.
        let i = if self.pos >= delay { self.pos - delay } else { self.pos + (len - delay) };
        self.buf[i]
    }

    /// The sample under the cursor and the one after it, or `None` when the
    /// line has no cells.
    pub fn taps(&self) -> (r: Option<(T, T)>)
        ensures
            self.samples().len() == 0 <==> r is None,
            r matches Some((a, b)) ==> {
                &&& a == self.samples()[self.cursor()]
                &&& b == self.samples()[next_index(self.cursor(), self.samples().len() as int)]
                &&& b == self.samples()[(self.cursor() + 1) % (self.samples().len() as int)]
            },
    {
        proof { use_type_invariant(self); }
        if self.buf.len() == 0 {
            return None;
        }
        let len = self.buf.len();
        let next = (self.pos + 1) % len;
        proof {
            lemma_mod_below_twice(self.pos + 1, len as int);
        }
        Some((self.buf[self.pos], self.buf[next]))
    }
}

impl<T> DelayLine<T> {
    /// Stores `v` under the cursor and moves the cursor to the next cell.
    pub fn write_advance(&mut self, v: T)
        requires
            old(self).samples().len() > 0,
        ensures
            final(self).samples() == old(self).samples().update(old(self).cursor(), v),
            final(self).cursor() == next_index(old(self).cursor(), old(self).samples().len() as int),
            final(self).cursor() == (old(self).cursor() + 1) % (old(self).samples().len() as int),
    {
        proof { use_type_invariant(&*self); }
        let len = self.buf.len();
        let p = self.pos;
        proof {
            lemma_mod_below_twice(p + 1, len as int);
        }
        // Detach the storage so the line stays well formed while it is edited.
        self.pos = 0;
        let mut cells: Vec<T> = Vec::new();
        std::mem::swap(&mut cells, &mut self.buf);
        cells.set(p, v);
        self.buf = cells;
        self.pos = (p + 1) % len;
    }

    /// Replaces every sample with `samples` and puts the cursor back on the
    /// first cell.
    pub fn excite(&mut self, samples: Vec<T>)
        requires
            samples@.len() == old(self).samples().len(),
        ensures
            final(self).samples() == samples@,
            final(self).cursor() == 0,
    {
        self.pos = 0;
        self.buf = samples;
    }
}

} // verus!
