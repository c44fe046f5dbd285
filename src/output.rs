use vstd::prelude::*;

use crate::catalog::texts;

verus! {

/// Number of most recent lines kept for display.
pub const OUTPUT_CAPACITY: usize = 20;

/// The last `cap` elements of `s`, or all of `s` when it is shorter.
pub open spec fn keep_tail(s: Seq<Seq<char>>, cap: nat) -> Seq<Seq<char>> {
    if s.len() <= cap {
        s
    } else {
        s.skip(s.len() - cap)
    }
}

/// A bounded window over the most recent output lines of a run.
pub struct OutputBuffer {
    lines: Vec<String>,
}

impl View for OutputBuffer {
    type V = Seq<Seq<char>>;

    closed spec fn view(&self) -> Seq<Seq<char>> {
        self.lines@.map_values(|l: String| l@)
    }
}

impl OutputBuffer {
    pub closed spec fn wf(&self) -> bool {
        self.lines@.len() <= OUTPUT_CAPACITY
    }

    pub fn new() -> (r: OutputBuffer)
        ensures
            r.wf(),
            r@ == Seq::<Seq<char>>::empty(),
    {
        OutputBuffer { lines: Vec::new() }
    }

    pub fn len(&self) -> (n: usize)
        ensures
            n == self@.len(),
    {
        self.lines.len()
    }

    /// The buffered lines, oldest first.
    pub fn lines(&self) -> (r: &Vec<String>)
        ensures
            texts(r@) == self@,
    {
        proof {
            assert(texts(self.lines@) =~= self@);
        }
        &self.lines
    }

    /// Appends each of `lines` in order, keeping the most recent ones.
    pub fn push_all(&mut self, lines: Vec<String>)
        requires
            old(self).wf(),
        ensures
            final(self).wf(),
            final(self)@ == keep_tail(old(self)@ + texts(lines@), OUTPUT_CAPACITY as nat),
    {
        let mut k: usize = 0;
        let ghost start = self@;
        proof {
            assert(texts(lines@).take(0) =~= Seq::<Seq<char>>::empty());
            lemma_keep_tail_short(start);
            assert(start + Seq::<Seq<char>>::empty() =~= start);
        }
        while k < lines.len()
            invariant
                k <= lines@.len(),
                self.wf(),
                self@ == keep_tail(start + texts(lines@).take(k as int), OUTPUT_CAPACITY as nat),
            decreases lines@.len() - k,
        {
            let ghost prev = start + texts(lines@).take(k as int);
            self.push(lines[k].clone());
            proof {
                lemma_keep_tail_push(prev, lines@[k as int]@, OUTPUT_CAPACITY as nat);
                assert(prev.push(lines@[k as int]@) =~= start + texts(lines@).take(k + 1));
            }
            k = k + 1;
        }
        proof {
            assert(texts(lines@).take(k as int) =~= texts(lines@));
        }
    }

    /// Appends a line, dropping the oldest one first when the window is full.
    pub fn push(&mut self, line: String)
        requires
            old(self).wf(),
        ensures
            final(self).wf(),
            final(self)@ == keep_tail(old(self)@.push(line@), OUTPUT_CAPACITY as nat),
    {
        let ghost before = self@;
        if self.lines.len() == OUTPUT_CAPACITY {
            self.lines.remove(0);
        }
        self.lines.push(line);
        assert(self@ =~= keep_tail(before.push(line@), OUTPUT_CAPACITY as nat));
    }
}

proof fn lemma_keep_tail_short(s: Seq<Seq<char>>)
    requires
        s.len() <= OUTPUT_CAPACITY,
    ensures
        keep_tail(s, OUTPUT_CAPACITY as nat) == s,
{
}

/// Trimming to the last `cap` elements before or after an append gives the same window.
pub proof fn lemma_keep_tail_push(s: Seq<Seq<char>>, x: Seq<char>, cap: nat)
    requires
        cap > 0,
    ensures
        keep_tail(keep_tail(s, cap).push(x), cap) == keep_tail(s.push(x), cap),
        keep_tail(s, cap).len() <= cap,
{
    let t = keep_tail(s, cap);
    assert(keep_tail(t.push(x), cap) =~= keep_tail(s.push(x), cap));
}

/// The window after pushing each of `xs` in order, one at a time.
pub open spec fn after_pushes(s: Seq<Seq<char>>, xs: Seq<Seq<char>>, cap: nat) -> Seq<Seq<char>>
    decreases xs.len(),
{
    if xs.len() == 0 {
        s
    } else {
        keep_tail(after_pushes(s, xs.drop_last(), cap).push(xs.last()), cap)
    }
}

/// Pushing lines one by one into a window that holds at most `cap` lines
/// leaves exactly the last `cap` of all lines seen, in arrival order, and
/// never more than `cap` lines.
pub proof fn lemma_pushes_keep_tail(s: Seq<Seq<char>>, xs: Seq<Seq<char>>, cap: nat)
    requires
        cap > 0,
        s.len() <= cap,
    ensures
        after_pushes(s, xs, cap) == keep_tail(s + xs, cap),
        after_pushes(s, xs, cap).len() <= cap,
    decreases xs.len(),
{
    if xs.len() == 0 {
        assert(s + xs =~= s);
    } else {
        lemma_pushes_keep_tail(s, xs.drop_last(), cap);
        lemma_keep_tail_push(s + xs.drop_last(), xs.last(), cap);
        assert((s + xs.drop_last()).push(xs.last()) =~= s + xs);
    }
}

} // verus!
