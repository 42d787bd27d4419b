//! Fixed-capacity history of the most recent tokens.

use vstd::prelude::*;
use crate::token::Token;
use crate::token::FILL_TOKEN;

verus! {

/// What a history of capacity `capacity` holds after `token` arrives: the
/// token is appended, and the oldest one leaves if the history was full.
pub open spec fn pushed(tokens: Seq<Token>, capacity: nat, token: Token) -> Seq<Token> {
    if capacity == 0 {
        tokens
    } else if tokens.len() < capacity {
        tokens.push(token)
    } else {
        tokens.skip(1).push(token)
    }
}

/// The most recent `n` entries of `tokens`, or all of them if there are fewer.
pub open spec fn latest(tokens: Seq<Token>, n: nat) -> Seq<Token> {
    if n >= tokens.len() {
        tokens
    } else {
        tokens.skip(tokens.len() - n)
    }
}

/// `count` copies of the fill token followed by `tokens`.
pub open spec fn padded_with_fill(tokens: Seq<Token>, count: nat) -> Seq<Token> {
    Seq::new(count, |i: int| FILL_TOKEN) + tokens
}

/// Index of the storage slot that holds entry `i` of the padded history.
spec fn slot_index(next: int, capacity: int, i: int) -> int {
    if next + i < capacity {
        next + i
    } else {
        next + i - capacity
    }
}

/// Rolling record of the most recent tokens, oldest first.
///
/// The storage is a circular buffer that is filled with [`FILL_TOKEN`] when it
/// is created; `next` is the slot the next token goes to, which is also the
/// slot of the oldest entry.
pub struct HistoryRing {
    slots: Vec<Token>,
    next: usize,
    len: usize,
}

impl View for HistoryRing {
    type V = Seq<Token>;

    /// The tokens held, oldest first.
    closed spec fn view(&self) -> Seq<Token> {
        Seq::new(
            self.len as nat,
            |i: int|
                self.slots@[slot_index(
                    self.next as int,
                    self.slots.len() as int,
                    self.slots.len() - self.len + i,
                )],
        )
    }
}

impl HistoryRing {
    /// The invariant of the representation.
    pub closed spec fn wf(&self) -> bool {
        &&& self.len <= self.slots.len()
        &&& self.next < self.slots.len() || (self.next == 0 && self.slots.len() == 0)
        &&& forall|i: int|
            0 <= i < self.slots.len() - self.len ==> self.slots@[#[trigger] slot_index(
                self.next as int,
                self.slots.len() as int,
                i,
            )] == FILL_TOKEN
    }

    /// Number of tokens the history can hold.
    pub closed spec fn spec_capacity(&self) -> nat {
        self.slots.len() as nat
    }

    /// The history padded to its capacity: the fill token stands in front,
    /// where no token has been recorded yet.
    pub open spec fn padded(&self) -> Seq<Token> {
        padded_with_fill(self@, (self.spec_capacity() - self@.len()) as nat)
    }

    /// An empty history of the given capacity.
    pub fn new(capacity: usize) -> (ring: HistoryRing)
        ensures
            ring.wf(),
            ring@ == Seq::<Token>::empty(),
            ring.spec_capacity() == capacity,
    {
        let slots: Vec<Token> = vec![FILL_TOKEN; capacity];
        let ring = HistoryRing { slots, next: 0, len: 0 };
        assert(ring@ =~= Seq::<Token>::empty());
        ring
    }

    /// Number of tokens the history can hold.
    pub fn capacity(&self) -> (capacity: usize)
        requires
            self.wf(),
        ensures
            capacity == self.spec_capacity(),
    {
        self.slots.len()
    }

    /// Number of tokens held.
    pub fn len(&self) -> (len: usize)
        requires
            self.wf(),
        ensures
            len == self@.len(),
            len <= self.spec_capacity(),
    {
        self.len
    }

    /// A well-formed history holds no more than its capacity.
    pub proof fn lemma_len_bound(&self)
        requires
            self.wf(),
        ensures
            self@.len() <= self.spec_capacity(),
            self.spec_capacity() <= usize::MAX,
            self.padded().len() == self.spec_capacity(),
    {
    }

    /// The storage read in the order of the padded history.
    closed spec fn stored(&self) -> Seq<Token> {
        Seq::new(
            self.slots.len() as nat,
            |i: int| self.slots@[slot_index(self.next as int, self.slots.len() as int, i)],
        )
    }

    /// The storage, read from the oldest slot on, is the padded history.
    proof fn lemma_stored_is_padded(&self)
        requires
            self.wf(),
        ensures
            self.stored() == self.padded(),
            self.padded().len() == self.spec_capacity(),
            self@.len() <= self.spec_capacity(),
    {
        let fill = (self.slots.len() - self.len) as nat;
        assert forall|i: int| 0 <= i < self.slots.len() implies self.stored()[i]
            == self.padded()[i] by {
            if i < fill {
                assert(self.slots@[slot_index(self.next as int, self.slots.len() as int, i)]
                    == FILL_TOKEN);
            } else {
                assert(self.padded()[i] == self@[i - fill]);
            }
        }
        assert(self.stored() =~= self.padded());
    }

    /// Entry `i` of the padded history.
    fn entry(&self, i: usize) -> (token: Token)
        requires
            self.wf(),
            i < self.spec_capacity(),
        ensures
            token == self.padded()[i as int],
    {
        proof {
            self.lemma_stored_is_padded();
        }
        let room: usize = self.slots.len() - self.next;
        if i < room {
            self.slots[self.next + i]
        } else {
            self.slots[i - room]
        }
    }

    /// Records `token` as the most recent one. A full history drops its oldest
    /// token to make room; a history of capacity zero stays empty.
    pub fn push(&mut self, token: Token)
        requires
            old(self).wf(),
        ensures
            final(self).wf(),
            final(self).spec_capacity() == old(self).spec_capacity(),
            final(self)@ == pushed(old(self)@, old(self).spec_capacity(), token),
    {
        let capacity: usize = self.slots.len();
        if capacity == 0 {
            return ;
        }
        let ghost before = *self;
        self.slots.set(self.next, token);
        self.next = if self.next + 1 == capacity {
            0
        } else {
            self.next + 1
        };
        if self.len < capacity {
            self.len = self.len + 1;
        }
        proof {
            let cap = capacity as int;
            assert forall|j: int| 0 <= j < cap - 1 implies slot_index(self.next as int, cap, j)
                == slot_index(before.next as int, cap, j + 1) && slot_index(
                self.next as int,
                cap,
                j,
            ) != before.next by {}
            assert(slot_index(self.next as int, cap, cap - 1) == before.next);
            assert forall|i: int| 0 <= i < cap - self.len implies self.slots@[#[trigger] slot_index(
                self.next as int,
                cap,
                i,
            )] == FILL_TOKEN by {
                assert(before.slots@[slot_index(before.next as int, cap, i + 1)] == FILL_TOKEN);
            }
            let expected = pushed(before@, capacity as nat, token);
            assert forall|i: int| 0 <= i < self.len implies self@[i] == expected[i] by {
                let j = cap - self.len + i;
                if i < self.len - 1 {
                    assert(slot_index(self.next as int, cap, j) == slot_index(
                        before.next as int,
                        cap,
                        j + 1,
                    ));
                }
            }
            assert(self@ =~= expected);
        }
    }

    /// The token at position `i`, counted from the oldest.
    pub fn get(&self, i: usize) -> (token: Token)
        requires
            self.wf(),
            i < self@.len(),
        ensures
            token == self@[i as int],
    {
        proof {
            self.lemma_stored_is_padded();
        }
        self.entry(self.slots.len() - self.len + i)
    }

    /// The first `n` entries of the padded history, or all of it if `n`
    /// exceeds the capacity.
    pub fn padded_prefix(&self, n: usize) -> (prefix: Vec<Token>)
        requires
            self.wf(),
        ensures
            prefix@ == self.padded().take(
                if n <= self.spec_capacity() {
                    n as int
                } else {
                    self.spec_capacity() as int
                },
            ),
    {
        proof {
            self.lemma_stored_is_padded();
        }
        let capacity: usize = self.slots.len();
        let count: usize = if n <= capacity {
            n
        } else {
            capacity
        };
        let mut prefix: Vec<Token> = Vec::new();
        let mut i: usize = 0;
        while i < count
            invariant
                self.wf(),
                i <= count <= self.spec_capacity(),
                self.padded().len() == self.spec_capacity(),
                prefix@ == self.padded().take(i as int),
            decreases count - i,
        {
            let token = self.entry(i);
            prefix.push(token);
            i = i + 1;
            assert(prefix@ =~= self.padded().take(i as int));
        }
        prefix
    }

    /// The most recent `n` tokens, oldest first, or all of them if fewer are
    /// held. Fill entries are never part of the result.
    pub fn tail(&self, n: usize) -> (tokens: Vec<Token>)
        requires
            self.wf(),
        ensures
            tokens@ == latest(self@, n as nat),
    {
        let count: usize = if n <= self.len {
            n
        } else {
            self.len
        };
        let start: usize = self.len - count;
        let mut tokens: Vec<Token> = Vec::new();
        let mut i: usize = 0;
        while i < count
            invariant
                self.wf(),
                i <= count,
                start + count == self@.len(),
                tokens@ == self@.subrange(start as int, start + i),
            decreases count - i,
        {
            let token = self.get(start + i);
            tokens.push(token);
            i = i + 1;
            assert(tokens@ =~= self@.subrange(start as int, start + i));
        }
        assert(tokens@ =~= latest(self@, n as nat));
        tokens
    }

    /// All tokens held, oldest first.
    pub fn to_vec(&self) -> (tokens: Vec<Token>)
        requires
            self.wf(),
        ensures
            tokens@ == self@,
    {
        self.tail(self.len)
    }
}

/// What a history holds after the tokens of `arrivals` have been pushed one
/// after the other.
pub open spec fn pushed_all(tokens: Seq<Token>, capacity: nat, arrivals: Seq<Token>) -> Seq<Token>
    decreases arrivals.len(),
{
    if arrivals.len() == 0 {
        tokens
    } else {
        pushed(pushed_all(tokens, capacity, arrivals.drop_last()), capacity, arrivals.last())
    }
}

/// Pushing a token onto the most recent part of a sequence gives the most
/// recent part of the longer sequence.
pub proof fn lemma_push_slides(earlier: Seq<Token>, capacity: nat, token: Token)
    ensures
        pushed(latest(earlier, capacity), capacity, token) == latest(
            earlier.push(token),
            capacity,
        ),
{
    assert(pushed(latest(earlier, capacity), capacity, token) =~= latest(
        earlier.push(token),
        capacity,
    ));
}

/// A history that holds the most recent part of what came before holds,
/// after more pushes, the most recent part of all that came.
pub proof fn lemma_pushes_slide(earlier: Seq<Token>, capacity: nat, arrivals: Seq<Token>)
    ensures
        pushed_all(latest(earlier, capacity), capacity, arrivals) == latest(
            earlier + arrivals,
            capacity,
        ),
    decreases arrivals.len(),
{
    if arrivals.len() == 0 {
        assert(earlier + arrivals =~= earlier);
    } else {
        lemma_pushes_slide(earlier, capacity, arrivals.drop_last());
        lemma_push_slides(earlier + arrivals.drop_last(), capacity, arrivals.last());
        assert((earlier + arrivals.drop_last()).push(arrivals.last()) =~= earlier + arrivals);
    }
}

/// After any number of pushes into an empty history, the history never holds
/// more than its capacity, and it holds exactly the most recent
/// `min(pushes, capacity)` tokens in the order in which they arrived.
pub proof fn lemma_history_keeps_latest(capacity: nat, arrivals: Seq<Token>)
    ensures
        pushed_all(Seq::empty(), capacity, arrivals).len() <= capacity,
        pushed_all(Seq::empty(), capacity, arrivals).len() == if arrivals.len() <= capacity {
            arrivals.len()
        } else {
            capacity
        },
        pushed_all(Seq::empty(), capacity, arrivals) == arrivals.skip(
            if arrivals.len() <= capacity {
                0
            } else {
                arrivals.len() - capacity
            },
        ),
        pushed_all(Seq::empty(), capacity, arrivals) == latest(arrivals, capacity),
{
    let nothing = Seq::<Token>::empty();
    assert(latest(nothing, capacity) =~= nothing);
    lemma_pushes_slide(nothing, capacity, arrivals);
    assert(nothing + arrivals =~= arrivals);
    assert(latest(arrivals, capacity) =~= arrivals.skip(
        if arrivals.len() <= capacity {
            0
        } else {
            arrivals.len() - capacity
        },
    ));
}

} // verus!
