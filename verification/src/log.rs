use vstd::prelude::*;
use std::collections::VecDeque;
use crate::text::{lines, split_lines, strings_view};

verus! {

/// A log that keeps at most `cap` lines: adding a line to a full log first
/// drops the oldest one.
pub open spec fn bounded_push(h: Seq<Seq<char>>, line: Seq<char>, cap: nat) -> Seq<Seq<char>> {
    if h.len() >= cap {
        h.drop_first().push(line)
    } else {
        h.push(line)
    }
}

/// Adds the lines one after the other, oldest first.
pub open spec fn bounded_append(h: Seq<Seq<char>>, new_lines: Seq<Seq<char>>, cap: nat) -> Seq<
    Seq<char>,
>
    decreases new_lines.len(),
{
    if new_lines.len() == 0 {
        h
    } else {
        bounded_append(bounded_push(h, new_lines[0], cap), new_lines.drop_first(), cap)
    }
}

/// The last `cap` entries of `s` (all of it when it is shorter).
pub open spec fn latest(s: Seq<Seq<char>>, cap: nat) -> Seq<Seq<char>> {
    if s.len() > cap {
        s.skip(s.len() - cap)
    } else {
        s
    }
}

proof fn lemma_latest_latest(a: Seq<Seq<char>>, b: Seq<Seq<char>>, cap: nat)
    ensures
        latest(latest(a, cap) + b, cap) == latest(a + b, cap),
{
    if a.len() > cap {
        let d = a.len() - cap;
        if b.len() == 0 {
            assert(a.skip(d) + b =~= a.skip(d));
            assert(a + b =~= a);
        } else {
            assert((a.skip(d) + b).skip(b.len() as int) =~= (a + b).skip(a.len() + b.len() - cap));
        }
    }
}

/// Law: a log that starts within its capacity and receives any sequence of
/// lines ends up holding exactly the most recent `cap` of all the lines it
/// has seen, oldest first.
pub proof fn lemma_log_keeps_latest(h: Seq<Seq<char>>, new_lines: Seq<Seq<char>>, cap: nat)
    requires
        cap > 0,
        h.len() <= cap,
    ensures
        bounded_append(h, new_lines, cap) == latest(h + new_lines, cap),
        bounded_append(h, new_lines, cap).len() <= cap,
    decreases new_lines.len(),
{
    if new_lines.len() == 0 {
        assert(h + new_lines =~= h);
    } else {
        let x = new_lines[0];
        let rest = new_lines.drop_first();
        let h2 = bounded_push(h, x, cap);
        assert(h2 == latest(h.push(x), cap)) by {
            if h.len() >= cap {
                assert(h.drop_first().push(x) =~= h.push(x).skip(1));
            }
        }
        lemma_log_keeps_latest(h2, rest, cap);
        lemma_latest_latest(h.push(x), rest, cap);
        assert(h.push(x) + rest =~= h + new_lines);
    }
}

/// Law: a full log stays full and a log never grows past its capacity.
pub proof fn lemma_push_within_capacity(h: Seq<Seq<char>>, line: Seq<char>, cap: nat)
    requires
        cap > 0,
        h.len() <= cap,
    ensures
        bounded_push(h, line, cap).len() <= cap,
        bounded_push(h, line, cap).last() == line,
        h.len() < cap ==> bounded_push(h, line, cap) == h.push(line),
        h.len() == cap ==> bounded_push(h, line, cap).len() == cap,
{
}

/// Law: adding two runs of lines one after the other is adding their
/// concatenation.
pub proof fn lemma_append_concat(h: Seq<Seq<char>>, a: Seq<Seq<char>>, b: Seq<Seq<char>>, cap: nat)
    ensures
        bounded_append(h, a + b, cap) == bounded_append(bounded_append(h, a, cap), b, cap),
    decreases a.len(),
{
    if a.len() == 0 {
        assert(a + b =~= b);
    } else {
        assert((a + b).drop_first() =~= a.drop_first() + b);
        assert((a + b)[0] == a[0]);
        lemma_append_concat(bounded_push(h, a[0], cap), a.drop_first(), b, cap);
    }
}

/// A bounded log of text lines, oldest first.
pub struct BoundedLog {
    lines: VecDeque<String>,
    capacity: usize,
}

impl View for BoundedLog {
    type V = Seq<Seq<char>>;

    closed spec fn view(&self) -> Seq<Seq<char>> {
        self.lines@.map_values(|s: String| s@)
    }
}

impl BoundedLog {
    #[verifier::type_invariant]
    spec fn within_capacity(self) -> bool {
        0 < self.capacity && self.lines@.len() <= self.capacity
    }

    /// The largest number of lines the log keeps.
    pub closed spec fn cap(self) -> nat {
        self.capacity as nat
    }

    /// An empty log that keeps at most `capacity` lines.
    pub fn new(capacity: usize) -> (r: Self)
        requires
            capacity > 0,
        ensures
            r@ == Seq::<Seq<char>>::empty(),
            r.cap() == capacity,
    {
        let r = BoundedLog { lines: VecDeque::new(), capacity };
        assert(r@ =~= Seq::<Seq<char>>::empty());
        r
    }

    /// The largest number of lines the log keeps.
    pub fn capacity(&self) -> (r: usize)
        ensures
            r == self.cap(),
            r > 0,
            self@.len() <= r,
    {
        proof {
            use_type_invariant(self);
        }
        self.capacity
    }

    /// The number of lines in the log.
    pub fn len(&self) -> (r: usize)
        ensures
            r == self@.len(),
            r <= self.cap(),
    {
        proof {
            use_type_invariant(self);
        }
        self.lines.len()
    }

    /// Adds a line, dropping the oldest one when the log is full.
    pub fn push(&mut self, line: String)
        ensures
            final(self)@ == bounded_push(old(self)@, line@, old(self).cap()),
            final(self).cap() == old(self).cap(),
            final(self)@.len() <= final(self).cap(),
    {
        proof {
            use_type_invariant(&*self);
        }
        let ghost before = self.lines@;
        let ghost line_view = line@;
        let mut lines: VecDeque<String> = VecDeque::new();
        std::mem::swap(&mut lines, &mut self.lines);
        if lines.len() >= self.capacity {
            lines.pop_front();
            proof {
                assert(lines@ =~= before.drop_first());
            }
        }
        let ghost mid = lines@;
        lines.push_back(line);
        proof {
            assert(lines@ =~= mid.push(line));
        }
        self.lines = lines;
        proof {
            let bv = before.map_values(|s: String| s@);
            if before.len() >= self.capacity {
                assert(self@ =~= bv.drop_first().push(line_view));
            } else {
                assert(self@ =~= bv.push(line_view));
            }
        }
    }

    /// Adds each line of a text (split as `lines` says), oldest first.
    pub fn push_text(&mut self, text: &str)
        ensures
            final(self)@ == bounded_append(old(self)@, lines(text@), old(self).cap()),
            final(self).cap() == old(self).cap(),
            final(self)@.len() <= final(self).cap(),
    {
        proof {
            use_type_invariant(&*self);
        }
        let parts = split_lines(text);
        let ghost all = strings_view(parts@);
        let ghost start = self@;
        let n = parts.len();
        let mut parts = parts;
        let mut k: usize = 0;
        proof {
            assert(all.skip(0) =~= all);
        }
        while k < n
            invariant
                n == all.len(),
                k <= n,
                parts@.len() == n,
                strings_view(parts@) == all,
                all == lines(text@),
                self.cap() == old(self).cap(),
                self@.len() <= self.cap(),
                bounded_append(start, all, self.cap()) == bounded_append(
                    self@,
                    all.skip(k as int),
                    self.cap(),
                ),
            decreases n - k,
        {
            let line = parts[k].clone();
            proof {
                assert(all.skip(k as int).drop_first() =~= all.skip(k + 1));
                assert(line@ == all[k as int]);
            }
            self.push(line);
            k = k + 1;
        }
        proof {
            assert(all.skip(n as int) =~= Seq::<Seq<char>>::empty());
        }
    }

    /// The lines of the log, oldest first.
    pub fn snapshot(&self) -> (r: Vec<String>)
        ensures
            strings_view(r@) == self@,
            r@.len() <= self.cap(),
    {
        proof {
            use_type_invariant(self);
        }
        let n = self.lines.len();
        let mut out: Vec<String> = Vec::new();
        for k in 0..n
            invariant
                n == self.lines@.len(),
                out@.len() == k,
                forall|i: int| 0 <= i < k ==> #[trigger] out@[i]@ == self.lines@[i]@,
        {
            out.push(self.lines[k].clone());
        }
        assert(strings_view(out@) =~= self@);
        out
    }
}

} // verus!
