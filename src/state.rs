//! Registers, aggregate accumulators and the coroutine bitfield.
use crate::value::{Value, ValueView};
use vstd::prelude::*;

verus! {

/// A running aggregate.
#[derive(Debug, Clone, PartialEq)]
pub enum AggContext {
    /// Running sum and row count.
    Avg(Value, i64),
    /// Running sum: NULL until a value arrives, then INTEGER or REAL.
    Sum(Value),
    Count(i64),
    Max(Option<Value>),
    Min(Option<Value>),
    GroupConcat(Vec<char>),
}

pub enum AggView {
    Avg(ValueView, i64),
    Sum(ValueView),
    Count(i64),
    Max(Option<ValueView>),
    Min(Option<ValueView>),
    GroupConcat(Seq<char>),
}

pub open spec fn opt_view(o: Option<Value>) -> Option<ValueView> {
    match o {
        Some(v) => Some(v@),
        None => None,
    }
}

impl View for AggContext {
    type V = AggView;

    open spec fn view(&self) -> AggView {
        match self {
            AggContext::Avg(s, n) => AggView::Avg(s@, *n),
            AggContext::Sum(s) => AggView::Sum(s@),
            AggContext::Count(n) => AggView::Count(*n),
            AggContext::Max(o) => AggView::Max(opt_view(*o)),
            AggContext::Min(o) => AggView::Min(opt_view(*o)),
            AggContext::GroupConcat(t) => AggView::GroupConcat(t@),
        }
    }
}

/// One register: a value, an aggregate being accumulated, or a record.
#[derive(Debug, Clone, PartialEq)]
pub enum Register {
    OwnedValue(Value),
    Aggregate(AggContext),
    Record(Vec<Value>),
}

pub enum RegisterView {
    Value(ValueView),
    Aggregate(AggView),
    Record(Seq<ValueView>),
}

pub open spec fn values_view(v: Seq<Value>) -> Seq<ValueView> {
    v.map_values(|x: Value| x@)
}

impl View for Register {
    type V = RegisterView;

    open spec fn view(&self) -> RegisterView {
        match self {
            Register::OwnedValue(v) => RegisterView::Value(v@),
            Register::Aggregate(a) => RegisterView::Aggregate(a@),
            Register::Record(r) => RegisterView::Record(values_view(r@)),
        }
    }
}

impl Register {
    /// The value held by a value register.
    pub fn get_owned_value(&self) -> (r: &Value)
        requires
            self is OwnedValue,
        ensures
            *r == self->OwnedValue_0,
    {
        match self {
            Register::OwnedValue(v) => v,
            _ => unreached(),
        }
    }
}

pub open spec fn bit_of(w: u64, k: u64) -> bool {
    (w >> k) & 1u64 == 1u64
}

proof fn lemma_bit_set(w: u64, a: u64, c: u64)
    by (bit_vector)
    requires
        a < 64,
        c < 64,
    ensures
        bit_of(w | (1u64 << a), c) == (a == c || bit_of(w, c)),
{
}

proof fn lemma_bit_unset(w: u64, a: u64, c: u64)
    by (bit_vector)
    requires
        a < 64,
        c < 64,
    ensures
        bit_of(w & !(1u64 << a), c) == (a != c && bit_of(w, c)),
{
}

proof fn lemma_bit_zero(c: u64)
    by (bit_vector)
    requires
        c < 64,
    ensures
        !bit_of(0u64, c),
{
}

/// A fixed-size set of bits, packed into 64-bit words.
#[derive(Debug, Clone, PartialEq)]
pub struct Bitfield {
    words: Vec<u64>,
    nbits: usize,
}

impl Bitfield {
    pub closed spec fn len(&self) -> nat {
        self.nbits as nat
    }

    /// The words hold every bit.
    pub closed spec fn wf(&self) -> bool {
        self.nbits <= self.words@.len() * 64
    }

    /// Whether bit `i` is set.
    pub closed spec fn bit(&self, i: int) -> bool {
        bit_of(self.words@[i / 64], (i % 64) as u64)
    }

    /// The bits, in order.
    pub open spec fn view(&self) -> Seq<bool> {
        Seq::new(self.len(), |i: int| self.bit(i))
    }

    /// A bitfield of `bits` bits, all clear.
    pub fn new(bits: usize) -> (r: Bitfield)
        ensures
            r.wf(),
            r.len() == bits,
            forall|i: int| 0 <= i < r.len() ==> !r.bit(i),
    {
        let n: usize = bits / 64 + if bits % 64 == 0 { 0 } else { 1 };
        let mut words: Vec<u64> = Vec::new();
        let mut k: usize = 0;
        while k < n
            invariant
                k <= n,
                words@.len() == k,
                forall|j: int| 0 <= j < k ==> words@[j] == 0,
            decreases n - k,
        {
            words.push(0);
            k = k + 1;
        }
        let r = Bitfield { words, nbits: bits };
        assert forall|i: int| 0 <= i < r.len() implies !r.bit(i) by {
            lemma_bit_zero((i % 64) as u64);
        }
        r
    }

    /// The number of bits.
    pub fn capacity(&self) -> (r: usize)
        ensures
            r == self.len(),
    {
        self.nbits
    }

    /// Sets bit `bit`.
    pub fn set(&mut self, bit: usize)
        requires
            old(self).wf(),
            bit < old(self).len(),
        ensures
            final(self).wf(),
            final(self).len() == old(self).len(),
            forall|i: int| 0 <= i < final(self).len() ==> final(self).bit(i) == (i == bit || old(self).bit(i)),
    {
        let w = bit / 64;
        let b = (bit % 64) as u64;
        let old_word = self.words[w];
        self.words[w] = old_word | (1u64 << b);
        proof {
            assert forall|i: int| 0 <= i < self.len() implies self.bit(i) == (i == bit || old(self).bit(i)) by {
                if i / 64 == w as int {
                    lemma_bit_set(old_word, b, (i % 64) as u64);
                }
            }
        }
    }

    /// Clears bit `bit`.
    pub fn unset(&mut self, bit: usize)
        requires
            old(self).wf(),
            bit < old(self).len(),
        ensures
            final(self).wf(),
            final(self).len() == old(self).len(),
            forall|i: int| 0 <= i < final(self).len() ==> final(self).bit(i) == (i != bit && old(self).bit(i)),
    {
        let w = bit / 64;
        let b = (bit % 64) as u64;
        let old_word = self.words[w];
        self.words[w] = old_word & !(1u64 << b);
        proof {
            assert forall|i: int| 0 <= i < self.len() implies self.bit(i) == (i != bit && old(self).bit(i)) by {
                if i / 64 == w as int {
                    lemma_bit_unset(old_word, b, (i % 64) as u64);
                }
            }
        }
    }

    /// Whether bit `bit` is set.
    pub fn get(&self, bit: usize) -> (r: bool)
        requires
            self.wf(),
            bit < self.len(),
        ensures
            r == self.bit(bit as int),
    {
        (self.words[bit / 64] >> ((bit % 64) as u64)) & 1u64 == 1u64
    }
}

} // verus!
