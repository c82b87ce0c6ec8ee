//! Framing of concatenated JSON values in a raw byte stream.
//!
//! The framer tracks bracket depth and string-escape state across reads, so
//! that a value split over several buffers, or several values merged in one
//! buffer, come out as the same sequence of complete value texts.
use vstd::prelude::*;

verus! {

pub const QUOTE: u8 = 34;

pub const BACKSLASH: u8 = 92;

pub open spec fn is_ws(b: u8) -> bool {
    b == 32 || b == 9 || b == 10 || b == 13
}

pub open spec fn is_opener(b: u8) -> bool {
    b == 123 || b == 91
}

pub open spec fn is_closer(b: u8) -> bool {
    b == 125 || b == 93
}

/// The abstract state of the framer: the text of the value in progress, the
/// number of unclosed brackets, and whether the scan is inside a string
/// literal (and just after a backslash in it).
pub struct Scan {
    pub cur: Seq<u8>,
    pub depth: nat,
    pub in_str: bool,
    pub esc: bool,
}

pub open spec fn idle() -> Scan {
    Scan { cur: Seq::empty(), depth: 0, in_str: false, esc: false }
}

/// Reaction to byte `b` when no value is in progress.
pub open spec fn start(b: u8) -> Scan {
    if is_ws(b) {
        idle()
    } else if is_opener(b) {
        Scan { cur: seq![b], depth: 1, in_str: false, esc: false }
    } else if b == QUOTE {
        Scan { cur: seq![b], depth: 0, in_str: true, esc: false }
    } else {
        Scan { cur: seq![b], depth: 0, in_str: false, esc: false }
    }
}

/// One byte of input: the next state, and the value text completed by it.
pub open spec fn step(s: Scan, b: u8) -> (Scan, Option<Seq<u8>>) {
    let cur = s.cur.push(b);
    if s.in_str {
        if s.esc {
            (Scan { cur, esc: false, ..s }, None)
        } else if b == BACKSLASH {
            (Scan { cur, esc: true, ..s }, None)
        } else if b == QUOTE {
            if s.depth == 0 {
                (idle(), Some(cur))
            } else {
                (Scan { cur, in_str: false, ..s }, None)
            }
        } else {
            (Scan { cur, ..s }, None)
        }
    } else if s.depth > 0 {
        if b == QUOTE {
            (Scan { cur, in_str: true, ..s }, None)
        } else if is_opener(b) {
            (Scan { cur, depth: s.depth + 1, ..s }, None)
        } else if is_closer(b) {
            if s.depth == 1 {
                (idle(), Some(cur))
            } else {
                (Scan { cur, depth: (s.depth - 1) as nat, ..s }, None)
            }
        } else {
            (Scan { cur, ..s }, None)
        }
    } else if s.cur.len() > 0 {
        // a bare scalar ends at whitespace or at the start of another value
        if is_ws(b) || is_opener(b) || b == QUOTE {
            (start(b), Some(s.cur))
        } else {
            (Scan { cur, ..s }, None)
        }
    } else {
        (start(b), None)
    }
}

pub open spec fn opt_seq(o: Option<Seq<u8>>) -> Seq<Seq<u8>> {
    match o {
        Some(f) => seq![f],
        None => Seq::empty(),
    }
}

/// Scanning `bytes` from state `s`: the final state and the completed values,
/// in order.
pub open spec fn run(s: Scan, bytes: Seq<u8>) -> (Scan, Seq<Seq<u8>>)
    decreases bytes.len(),
{
    if bytes.len() == 0 {
        (s, Seq::empty())
    } else {
        let prev = run(s, bytes.drop_last());
        let next = step(prev.0, bytes.last());
        (next.0, prev.1 + opt_seq(next.1))
    }
}

/// Scanning `a + b` is scanning `a`, then scanning `b` from where `a` left off.
pub proof fn lemma_run_append(s: Scan, a: Seq<u8>, b: Seq<u8>)
    ensures
        run(s, a + b).0 == run(run(s, a).0, b).0,
        run(s, a + b).1 == run(s, a).1 + run(run(s, a).0, b).1,
    decreases b.len(),
{
    if b.len() == 0 {
        assert(a + b =~= a);
        assert(run(s, a).1 + Seq::<Seq<u8>>::empty() =~= run(s, a).1);
    } else {
        assert((a + b).drop_last() =~= a + b.drop_last());
        assert((a + b).last() == b.last());
        lemma_run_append(s, a, b.drop_last());
        let mid = run(s, a).0;
        let e = step(run(mid, b.drop_last()).0, b.last()).1;
        assert(run(s, a).1 + run(mid, b.drop_last()).1 + opt_seq(e) =~= run(s, a).1 + (run(
            mid,
            b.drop_last(),
        ).1 + opt_seq(e)));
    }
}

pub open spec fn frames_view(v: Seq<Vec<u8>>) -> Seq<Seq<u8>> {
    v.map_values(|f: Vec<u8>| f@)
}

/// Incremental splitter of a byte stream into complete JSON value texts.
pub struct JsonFramer {
    cur: Vec<u8>,
    depth: usize,
    in_str: bool,
    esc: bool,
}

impl View for JsonFramer {
    type V = Scan;

    closed spec fn view(&self) -> Scan {
        Scan { cur: self.cur@, depth: self.depth as nat, in_str: self.in_str, esc: self.esc }
    }
}

impl JsonFramer {
    pub closed spec fn wf(&self) -> bool {
        self.depth <= self.cur@.len() && (self.esc ==> self.in_str)
    }

    pub fn new() -> (r: JsonFramer)
        ensures
            r.wf(),
            r@ == idle(),
    {
        JsonFramer { cur: Vec::new(), depth: 0, in_str: false, esc: false }
    }

    /// The bytes of the value still in progress.
    pub fn pending_len(&self) -> (r: usize)
        ensures
            r == self@.cur.len(),
    {
        self.cur.len()
    }

    fn take_current(&mut self) -> (r: Vec<u8>)
        requires
            old(self).wf(),
        ensures
            r@ == old(self)@.cur,
            final(self)@ == idle(),
            final(self).wf(),
    {
        let mut out: Vec<u8> = Vec::new();
        std::mem::swap(&mut out, &mut self.cur);
        self.depth = 0;
        self.in_str = false;
        self.esc = false;
        out
    }

    fn begin(&mut self, b: u8)
        requires
            old(self).wf(),
            old(self)@ == idle(),
        ensures
            final(self).wf(),
            final(self)@ == start(b),
    {
        if b == 32 || b == 9 || b == 10 || b == 13 {
        } else if b == 123 || b == 91 {
            self.cur.push(b);
            self.depth = 1;
        } else if b == QUOTE {
            self.cur.push(b);
            self.in_str = true;
        } else {
            self.cur.push(b);
        }
        assert(self.cur@ =~= start(b).cur);
    }

    /// Feeds one byte.
    pub fn push_byte(&mut self, b: u8) -> (r: Option<Vec<u8>>)
        requires
            old(self).wf(),
        ensures
            final(self).wf(),
            final(self)@ == step(old(self)@, b).0,
            r matches Some(f) ==> step(old(self)@, b).1 == Some(f@),
            r is None ==> step(old(self)@, b).1 is None,
    {
        let ghost s = self@;
        if self.in_str {
            self.cur.push(b);
            if self.esc {
                self.esc = false;
            } else if b == BACKSLASH {
                self.esc = true;
            } else if b == QUOTE {
                if self.depth == 0 {
                    return Some(self.take_current());
                } else {
                    self.in_str = false;
                }
            }
            None
        } else if self.depth > 0 {
            self.cur.push(b);
            if b == QUOTE {
                self.in_str = true;
            } else if b == 123 || b == 91 {
                let n = self.cur.len();
                assert(self.depth < n);
                self.depth = self.depth + 1;
            } else if b == 125 || b == 93 {
                if self.depth == 1 {
                    return Some(self.take_current());
                } else {
                    self.depth = self.depth - 1;
                }
            }
            None
        } else if self.cur.len() > 0 {
            if b == 32 || b == 9 || b == 10 || b == 13 || b == 123 || b == 91 || b == QUOTE {
                let done = self.take_current();
                self.begin(b);
                Some(done)
            } else {
                self.cur.push(b);
                None
            }
        } else {
            assert(self.cur@ =~= Seq::<u8>::empty());
            self.begin(b);
            None
        }
    }

    /// Feeds a buffer: returns the values completed by it, in order.
    pub fn push(&mut self, bytes: &[u8]) -> (r: Vec<Vec<u8>>)
        requires
            old(self).wf(),
        ensures
            final(self).wf(),
            final(self)@ == run(old(self)@, bytes@).0,
            frames_view(r@) == run(old(self)@, bytes@).1,
    {
        let mut out: Vec<Vec<u8>> = Vec::new();
        let ghost s0 = self@;
        let mut i: usize = 0;
        while i < bytes.len()
            invariant
                self.wf(),
                i <= bytes@.len(),
                self@ == run(s0, bytes@.subrange(0, i as int)).0,
                frames_view(out@) == run(s0, bytes@.subrange(0, i as int)).1,
            decreases bytes@.len() - i,
        {
            let ghost before = out@;
            assert(bytes@.subrange(0, i + 1).drop_last() =~= bytes@.subrange(0, i as int));
            let r = self.push_byte(bytes[i]);
            match r {
                Some(f) => {
                    out.push(f);
                },
                None => {},
            }
            i = i + 1;
            assert(frames_view(out@) =~= frames_view(before) + opt_seq(
                step(run(s0, bytes@.subrange(0, i - 1)).0, bytes@[i - 1]).1,
            ));
        }
        assert(bytes@.subrange(0, i as int) =~= bytes@);
        out
    }
}

} // verus!
