//! Single-precision numbers as the library holds them: by their bits.
//!
//! The library does no floating-point arithmetic. It compares two numbers
//! by their bits, and it takes the result of every other operation from a
//! table that the caller fills: where an evaluation needs a result that
//! the table lacks, it stops and names the operation.

use vstd::prelude::*;

verus! {

/// The four arithmetic operations.
#[derive(Copy, Clone, Debug, PartialEq, Eq, Structural)]
pub enum ArithOp {
    Add,
    Sub,
    Mul,
    Div,
}

/// An operation whose result is a single-precision number.
#[derive(Debug)]
pub enum FloatQuery {
    /// The number that a float literal denotes.
    Parse(String),
    /// The number nearest to an integer.
    FromInt(i32),
    /// An arithmetic operation on two numbers, each given by its bits.
    Arith(ArithOp, u32, u32),
}

/// The mathematical value of a [`FloatQuery`].
pub enum FloatQueryView {
    Parse(Seq<char>),
    FromInt(i32),
    Arith(ArithOp, u32, u32),
}

impl View for FloatQuery {
    type V = FloatQueryView;

    open spec fn view(&self) -> FloatQueryView {
        match *self {
            FloatQuery::Parse(lexeme) => FloatQueryView::Parse(lexeme@),
            FloatQuery::FromInt(n) => FloatQueryView::FromInt(n),
            FloatQuery::Arith(op, a, b) => FloatQueryView::Arith(op, a, b),
        }
    }
}

impl Clone for FloatQuery {
    fn clone(&self) -> (r: FloatQuery)
        ensures
            r@ == self@,
    {
        match self {
            FloatQuery::Parse(lexeme) => FloatQuery::Parse(lexeme.clone()),
            FloatQuery::FromInt(n) => FloatQuery::FromInt(*n),
            FloatQuery::Arith(op, a, b) => FloatQuery::Arith(*op, *a, *b),
        }
    }
}

impl PartialEq for FloatQuery {
    fn eq(&self, other: &FloatQuery) -> (r: bool) {
        match self {
            FloatQuery::Parse(a) => match other {
                FloatQuery::Parse(b) => *a == *b,
                _ => false,
            },
            FloatQuery::FromInt(a) => match other {
                FloatQuery::FromInt(b) => *a == *b,
                _ => false,
            },
            FloatQuery::Arith(op, a, b) => match other {
                FloatQuery::Arith(op2, a2, b2) => *op == *op2 && *a == *a2 && *b == *b2,
                _ => false,
            },
        }
    }
}

impl vstd::std_specs::cmp::PartialEqSpecImpl for FloatQuery {
    open spec fn obeys_eq_spec() -> bool {
        true
    }

    open spec fn eq_spec(&self, other: &FloatQuery) -> bool {
        self@ == other@
    }
}

impl Eq for FloatQuery {

}

/// The bits of the number zero.
pub const FLOAT_ZERO: u32 = 0;

/// The bits of the number one.
pub const FLOAT_ONE: u32 = 0x3f80_0000;

/// Whether the bits are those of a NaN: the exponent is all ones and the
/// fraction is not zero.
pub open spec fn is_nan_bits(a: u32) -> bool {
    (a & 0x7fff_ffff) > 0x7f80_0000
}

/// Whether the bits are those of zero, of either sign.
pub open spec fn is_zero_bits(a: u32) -> bool {
    (a & 0x7fff_ffff) == 0
}

/// Whether two numbers are equal: neither is a NaN, and they have the same
/// bits or are both zero.
pub open spec fn float_equal(a: u32, b: u32) -> bool {
    !is_nan_bits(a) && !is_nan_bits(b) && (a == b || (is_zero_bits(a) && is_zero_bits(b)))
}

/// Compares two numbers given by their bits.
pub fn float_eq(a: u32, b: u32) -> (r: bool)
    ensures
        r == float_equal(a, b),
{
    let ma: u32 = a & 0x7fff_ffff;
    let mb: u32 = b & 0x7fff_ffff;
    ma <= 0x7f80_0000 && mb <= 0x7f80_0000 && (a == b || (ma == 0 && mb == 0))
}

/// The results of operations, as far as the caller has supplied them.
pub type FloatFacts = Map<FloatQueryView, u32>;

/// The table that a list of entries stands for: a later entry for the same
/// operation replaces an earlier one.
pub open spec fn facts_of(entries: Seq<(FloatQuery, u32)>) -> FloatFacts
    decreases entries.len(),
{
    if entries.len() == 0 {
        Map::empty()
    } else {
        facts_of(entries.drop_last()).insert(entries.last().0@, entries.last().1)
    }
}

/// A table of results of operations on single-precision numbers.
pub struct FloatTable {
    pub entries: Vec<(FloatQuery, u32)>,
}

impl View for FloatTable {
    type V = FloatFacts;

    open spec fn view(&self) -> FloatFacts {
        facts_of(self.entries@)
    }
}

impl FloatTable {
    /// A table without entries.
    pub fn new() -> (t: FloatTable)
        ensures
            t@ == Map::<FloatQueryView, u32>::empty(),
    {
        FloatTable { entries: Vec::new() }
    }

    /// Records the result of an operation.
    pub fn insert(&mut self, query: FloatQuery, bits: u32)
        ensures
            final(self)@ == old(self)@.insert(query@, bits),
    {
        self.entries.push((query, bits));
        assert(self.entries@.drop_last() =~= old(self).entries@);
    }

    /// The recorded result of an operation, if there is one.
    pub fn get(&self, query: &FloatQuery) -> (r: Option<u32>)
        ensures
            r == if self@.contains_key(query@) {
                Some(self@[query@])
            } else {
                None
            },
    {
        let mut i: usize = self.entries.len();
        assert(self.entries@.take(i as int) =~= self.entries@);
        while i > 0
            invariant
                i <= self.entries.len(),
                facts_of(self.entries@.take(i as int)).contains_key(query@) == self@.contains_key(
                    query@,
                ),
                self@.contains_key(query@) ==> facts_of(self.entries@.take(i as int))[query@]
                    == self@[query@],
            decreases i,
        {
            i = i - 1;
            assert(self.entries@.take(i + 1).drop_last() =~= self.entries@.take(i as int));
            if self.entries[i].0 == *query {
                return Some(self.entries[i].1);
            }
        }
        None
    }
}

} // verus!
