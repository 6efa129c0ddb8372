//! What the library asks of its caller about numbers, and the table in which
//! the caller hands the answers in.
//!
//! A number is a binary64, held as its 64 bits. Three things are not done
//! here: reading a number from its decimal text, the four operations of
//! arithmetic, and writing a number as decimal text. Where an evaluation
//! needs one of them and the table does not hold it, the evaluation stops
//! with the [`Request`] that names it.
use vstd::prelude::*;

verus! {

/// An operator of arithmetic.
#[derive(Debug, Clone, Copy, PartialEq, Eq, Structural)]
pub enum Arith {
    Add,
    Sub,
    Mul,
    Div,
}

/// A fact about numbers that an evaluation needs, as the contracts see it.
pub enum Fact {
    /// The number that a text reads as.
    Parse(Seq<char>),
    /// The result of an operation on two numbers.
    Compute(Arith, u64, u64),
    /// The decimal text of a number.
    Format(u64),
}

/// A fact about numbers that an evaluation needs.
#[derive(Debug, PartialEq)]
pub enum Request {
    /// The number that the text reads as: the binary64 nearest to the
    /// decimal number it writes, or a NaN where it writes none.
    Parse(String),
    /// The result of the operation on the two numbers, in this order.
    Compute(Arith, u64, u64),
    /// The decimal text of the number.
    Format(u64),
}

impl View for Request {
    type V = Fact;

    open spec fn view(&self) -> Fact {
        match self {
            Request::Parse(t) => Fact::Parse(t@),
            Request::Compute(op, a, b) => Fact::Compute(*op, *a, *b),
            Request::Format(n) => Fact::Format(*n),
        }
    }
}

/// The map that a list of pairs stands for: each key leads to the value of
/// the last pair that has it.
pub open spec fn table<K, V>(s: Seq<(K, V)>) -> Map<K, V>
    decreases s.len(),
{
    if s.len() == 0 {
        Map::empty()
    } else {
        table(s.drop_last()).insert(s.last().0, s.last().1)
    }
}

/// A key leads to the value of the pair at `at`, if no later pair has it.
pub proof fn table_last_wins<K, V>(s: Seq<(K, V)>, k: K, at: int)
    requires
        0 <= at < s.len(),
        s[at].0 == k,
        forall|j: int| at < j < s.len() ==> (#[trigger] s[j]).0 != k,
    ensures
        table(s).contains_key(k),
        table(s)[k] == s[at].1,
    decreases s.len(),
{
    if at < s.len() - 1 {
        table_last_wins(s.drop_last(), k, at);
    }
}

/// A key that no pair has leads nowhere.
pub proof fn table_without<K, V>(s: Seq<(K, V)>, k: K)
    requires
        forall|j: int| 0 <= j < s.len() ==> (#[trigger] s[j]).0 != k,
    ensures
        !table(s).contains_key(k),
    decreases s.len(),
{
    if s.len() > 0 {
        table_without(s.drop_last(), k);
    }
}

/// The facts about numbers that are known, as the contracts see them.
pub struct Facts {
    /// The number that each text reads as.
    pub parsed: Map<Seq<char>, u64>,
    /// The result of each operation.
    pub computed: Map<(Arith, u64, u64), u64>,
    /// The decimal text of each number.
    pub formatted: Map<u64, Seq<char>>,
}

/// The facts about numbers that the caller has handed in.
#[derive(Debug)]
pub struct Known {
    parsed: Vec<(String, u64)>,
    computed: Vec<((Arith, u64, u64), u64)>,
    formatted: Vec<(u64, String)>,
}

/// The pairs of the texts that were read, as the contracts see them.
pub open spec fn parsed_view(s: Seq<(String, u64)>) -> Seq<(Seq<char>, u64)> {
    Seq::new(s.len(), |i: int| (s[i].0@, s[i].1))
}

/// The pairs of the numbers that were written, as the contracts see them.
pub open spec fn formatted_view(s: Seq<(u64, String)>) -> Seq<(u64, Seq<char>)> {
    Seq::new(s.len(), |i: int| (s[i].0, s[i].1@))
}

impl View for Known {
    type V = Facts;

    closed spec fn view(&self) -> Facts {
        Facts {
            parsed: table(parsed_view(self.parsed@)),
            computed: table(self.computed@),
            formatted: table(formatted_view(self.formatted@)),
        }
    }
}

impl Known {
    /// The table that holds no fact.
    pub fn new() -> (r: Known)
        ensures
            r@.parsed == Map::<Seq<char>, u64>::empty(),
            r@.computed == Map::<(Arith, u64, u64), u64>::empty(),
            r@.formatted == Map::<u64, Seq<char>>::empty(),
    {
        Known { parsed: Vec::new(), computed: Vec::new(), formatted: Vec::new() }
    }

    /// Records that `text` reads as the number `bits`.
    pub fn learn_parse(&mut self, text: String, bits: u64)
        ensures
            final(self)@ == (Facts { parsed: old(self)@.parsed.insert(text@, bits), ..old(self)@ }),
    {
        self.parsed.push((text, bits));
        proof {
            assert(parsed_view(self.parsed@).drop_last() =~= parsed_view(old(self).parsed@));
        }
    }

    /// Records that `op` on `a` and `b` gives `bits`.
    pub fn learn_compute(&mut self, op: Arith, a: u64, b: u64, bits: u64)
        ensures
            final(self)@ == (Facts {
                computed: old(self)@.computed.insert((op, a, b), bits),
                ..old(self)@
            }),
    {
        self.computed.push(((op, a, b), bits));
        proof {
            assert(self.computed@.drop_last() =~= old(self).computed@);
        }
    }

    /// Records that the number `bits` is written `text`.
    pub fn learn_format(&mut self, bits: u64, text: String)
        ensures
            final(self)@ == (Facts {
                formatted: old(self)@.formatted.insert(bits, text@),
                ..old(self)@
            }),
    {
        self.formatted.push((bits, text));
        proof {
            assert(formatted_view(self.formatted@).drop_last() =~= formatted_view(
                old(self).formatted@,
            ));
        }
    }

    /// The number that `text` reads as, if the table holds it.
    pub fn parsed(&self, text: &String) -> (r: Option<u64>)
        ensures
            r == if self@.parsed.contains_key(text@) {
                Some(self@.parsed[text@])
            } else {
                None
            },
    {
        let mut i: usize = self.parsed.len();
        while i > 0
            invariant
                i <= self.parsed.len(),
                forall|j: int|
                    i <= j < self.parsed.len() ==> (#[trigger] parsed_view(self.parsed@)[j]).0
                        != text@,
            decreases i,
        {
            i -= 1;
            if self.parsed[i].0 == *text {
                proof {
                    table_last_wins(parsed_view(self.parsed@), text@, i as int);
                }
                return Some(self.parsed[i].1);
            }
        }
        proof {
            table_without(parsed_view(self.parsed@), text@);
        }
        None
    }

    /// What `op` on `a` and `b` gives, if the table holds it.
    pub fn computed(&self, op: Arith, a: u64, b: u64) -> (r: Option<u64>)
        ensures
            r == if self@.computed.contains_key((op, a, b)) {
                Some(self@.computed[(op, a, b)])
            } else {
                None
            },
    {
        let mut i: usize = self.computed.len();
        while i > 0
            invariant
                i <= self.computed.len(),
                forall|j: int|
                    i <= j < self.computed.len() ==> (#[trigger] self.computed@[j]).0 != (
                        op,
                        a,
                        b,
                    ),
            decreases i,
        {
            i -= 1;
            let key = self.computed[i].0;
            if key.0 == op && key.1 == a && key.2 == b {
                proof {
                    table_last_wins(self.computed@, (op, a, b), i as int);
                }
                return Some(self.computed[i].1);
            }
        }
        proof {
            table_without(self.computed@, (op, a, b));
        }
        None
    }

    /// The decimal text of the number `bits`, if the table holds it.
    pub fn formatted(&self, bits: u64) -> (r: Option<String>)
        ensures
            match r {
                Some(t) => self@.formatted.contains_key(bits) && t@ == self@.formatted[bits],
                None => !self@.formatted.contains_key(bits),
            },
    {
        let mut i: usize = self.formatted.len();
        while i > 0
            invariant
                i <= self.formatted.len(),
                forall|j: int|
                    i <= j < self.formatted.len() ==> (#[trigger] formatted_view(
                        self.formatted@,
                    )[j]).0 != bits,
            decreases i,
        {
            i -= 1;
            if self.formatted[i].0 == bits {
                proof {
                    table_last_wins(formatted_view(self.formatted@), bits, i as int);
                }
                return Some(self.formatted[i].1.clone());
            }
        }
        proof {
            table_without(formatted_view(self.formatted@), bits);
        }
        None
    }
}

} // verus!
