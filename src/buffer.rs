//! The rolling buffer of recently typed characters.

use vstd::prelude::*;
use std::collections::VecDeque;
use std::time::Instant;
use crate::clock::{instant_now, elapsed_since, nanos_of, exceeds_millis};
use crate::text::push_char;

verus! {

/// The last `n` elements of `s` (all of `s` when it is shorter).
pub open spec fn keep_last(s: Seq<char>, n: nat) -> Seq<char> {
    if s.len() <= n {
        s
    } else {
        s.subrange(s.len() - n, s.len() as int)
    }
}

/// What a buffer holds: its characters, oldest first, and its capacity.
pub ghost struct BufferView {
    pub content: Seq<char>,
    pub max_size: nat,
}

impl BufferView {
    /// The buffer holds no more than its capacity.
    pub open spec fn wf(self) -> bool {
        self.content.len() <= self.max_size
    }

    /// After typing `c`: appended, the oldest evicted when at capacity.
    pub open spec fn pushed(self, c: char) -> BufferView {
        BufferView { content: keep_last(self.content.push(c), self.max_size), max_size: self.max_size }
    }

    /// After removing up to `count` characters from the end.
    pub open spec fn removed(self, count: nat) -> BufferView {
        let keep = if count >= self.content.len() { 0 } else { self.content.len() - count };
        BufferView { content: self.content.subrange(0, keep as int), max_size: self.max_size }
    }

    /// After clearing.
    pub open spec fn cleared(self) -> BufferView {
        BufferView { content: Seq::empty(), max_size: self.max_size }
    }

    /// After a change of capacity: the oldest characters go until the rest fit.
    pub open spec fn resized(self, max_size: nat) -> BufferView {
        BufferView { content: keep_last(self.content, max_size), max_size }
    }

    /// After typing each character of `cs` in turn.
    pub open spec fn pushed_all(self, cs: Seq<char>) -> BufferView
        decreases cs.len(),
    {
        if cs.len() == 0 {
            self
        } else {
            self.pushed(cs[0]).pushed_all(cs.drop_first())
        }
    }
}

/// A bounded, time-stamped buffer of the characters typed most recently.
#[derive(Debug)]
pub struct TextBuffer {
    content: VecDeque<char>,
    last_update: Instant,
    max_size: usize,
}

impl View for TextBuffer {
    type V = BufferView;

    closed spec fn view(&self) -> BufferView {
        BufferView { content: self.content@, max_size: self.max_size as nat }
    }
}

impl TextBuffer {
    /// An empty buffer that holds at most `max_size` characters.
    pub fn new(max_size: usize) -> (r: Self)
        ensures
            r@.content == Seq::<char>::empty(),
            r@.max_size == max_size,
            r@.wf(),
    {
        TextBuffer { content: VecDeque::with_capacity(max_size), last_update: instant_now(), max_size }
    }

    /// Appends `c`, evicting the oldest character first when the buffer is full.
    pub fn add_char(&mut self, c: char)
        requires
            old(self)@.wf(),
        ensures
            final(self)@ == old(self)@.pushed(c),
            final(self)@.wf(),
    {
        let ghost before = self.content@;
        if self.max_size == 0 {
            assert(self.content@ =~= keep_last(before.push(c), 0));
        } else {
            if self.content.len() >= self.max_size {
                self.content.pop_front();
            }
            self.content.push_back(c);
            assert(self.content@ =~= keep_last(before.push(c), self.max_size as nat));
        }
        self.last_update = instant_now();
        assert(self@.content == old(self)@.pushed(c).content);
    }

    /// Removes up to `count` characters from the end.
    pub fn remove_chars(&mut self, count: usize)
        requires
            old(self)@.wf(),
        ensures
            final(self)@ == old(self)@.removed(count as nat),
            final(self)@.wf(),
    {
        let ghost before = self.content@;
        let mut i: usize = 0;
        while i < count
            invariant
                i <= count,
                self.max_size == old(self).max_size,
                before == old(self).content@,
                self.content@ == before.subrange(
                    0,
                    if i >= before.len() { 0 } else { before.len() - i } as int,
                ),
            decreases count - i,
        {
            self.content.pop_back();
            i = i + 1;
        }
        self.last_update = instant_now();
    }

    /// The characters of the buffer as a string.
    pub fn get_text(&self) -> (r: String)
        ensures
            r@ == self@.content,
    {
        let mut s = String::new();
        let mut i: usize = 0;
        while i < self.content.len()
            invariant
                i <= self.content@.len(),
                s@ == self.content@.subrange(0, i as int),
            decreases self.content.len() - i,
        {
            push_char(&mut s, self.content[i]);
            assert(self.content@.subrange(0, i + 1) =~= self.content@.subrange(0, i as int).push(
                self.content@[i as int],
            ));
            i = i + 1;
        }
        assert(self.content@.subrange(0, i as int) =~= self.content@);
        s
    }

    /// The number of characters held.
    pub fn len(&self) -> (r: usize)
        ensures
            r == self@.content.len(),
    {
        self.content.len()
    }

    /// Empties the buffer.
    pub fn clear(&mut self)
        ensures
            final(self)@ == old(self)@.cleared(),
    {
        self.content.clear();
        self.last_update = instant_now();
    }

    /// Changes the capacity, dropping the oldest characters that no longer fit.
    pub fn set_max_size(&mut self, max_size: usize)
        ensures
            final(self)@ == old(self)@.resized(max_size as nat),
            final(self)@.wf(),
    {
        let ghost before = self.content@;
        assert(before.subrange(0, before.len() as int) =~= before);
        self.max_size = max_size;
        while self.content.len() > self.max_size
            invariant
                self.max_size == max_size,
                before == old(self).content@,
                self.content@.len() <= before.len(),
                self.content@ == before.subrange(
                    before.len() - self.content@.len(),
                    before.len() as int,
                ),
                self.content@.len() >= before.len() || self.content@.len() >= max_size,
            decreases self.content.len(),
        {
            self.content.pop_front();
        }
        assert(self.content@ =~= keep_last(before, max_size as nat));
    }

    /// Whether more than `timeout_ms` milliseconds passed since the last change.
    pub fn is_expired(&self, timeout_ms: u64) -> bool {
        let elapsed = elapsed_since(&self.last_update);
        exceeds_millis(nanos_of(&elapsed), timeout_ms)
    }
}

/// Typing characters one by one keeps the buffer within its capacity and
/// holding exactly the most recent characters.
pub proof fn lemma_push_keeps_most_recent(b: BufferView, cs: Seq<char>)
    requires
        b.wf(),
    ensures
        b.pushed_all(cs).wf(),
        b.pushed_all(cs).content == keep_last(b.content + cs, b.max_size),
        b.pushed_all(cs).max_size == b.max_size,
    decreases cs.len(),
{
    if cs.len() == 0 {
        assert(b.content + cs =~= b.content);
    } else {
        let b1 = b.pushed(cs[0]);
        lemma_push_keeps_most_recent(b1, cs.drop_first());
        let n = b.max_size;
        let s = b.content;
        let all = s + cs;
        assert(b1.content + cs.drop_first() =~= keep_last(s.push(cs[0]), n) + cs.drop_first());
        if s.len() + 1 <= n {
            assert(s.push(cs[0]) + cs.drop_first() =~= all);
        } else {
            let t = s.push(cs[0]);
            let u = keep_last(t, n) + cs.drop_first();
            assert(all =~= t + cs.drop_first());
            assert(keep_last(u, n) =~= keep_last(all, n));
        }
    }
}

/// Clearing twice leaves the buffer as empty as clearing once.
pub proof fn lemma_clear_idempotent(b: BufferView)
    ensures
        b.cleared().content.len() == 0,
        b.cleared().cleared() == b.cleared(),
{
}

} // verus!
