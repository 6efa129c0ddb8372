//! The values of the language, and what the language means by `==` on them.
use crate::analisador_semantico::numeros::{Known, Request};
use crate::analisador_semantico::semantica::{as_number, coerced, Cause, Stop};
use vstd::prelude::*;

verus! {

/// The bits of the number one.
pub const ONE: u64 = 0x3ff0_0000_0000_0000;

/// The bits of the number zero.
pub const ZERO: u64 = 0;

/// The bits of the number that stands for "not a number".
pub const NAN: u64 = 0x7ff8_0000_0000_0000;

/// The bit of the sign, which is also the first pattern of a negative number.
pub const SIGN: u64 = 0x8000_0000_0000_0000;

/// The largest magnitude that is a number: infinity. Above it are the NaNs.
pub const INFINITY: u64 = 0x7ff0_0000_0000_0000;

/// The bits of `n` without the sign.
pub open spec fn magnitude(n: u64) -> int {
    if n >= SIGN {
        n - SIGN
    } else {
        n as int
    }
}

/// Whether `n` is a NaN: exponent all ones, fraction not zero.
pub open spec fn is_nan(n: u64) -> bool {
    magnitude(n) > INFINITY
}

/// Whether `n` is zero, of either sign.
pub open spec fn is_zero(n: u64) -> bool {
    magnitude(n) == 0
}

/// Where `n` stands on the number line among the binary64 values that are no
/// NaN: the magnitudes are ordered as the numbers are, and both zeros stand
/// at 0.
pub open spec fn rank(n: u64) -> int {
    if n >= SIGN {
        -magnitude(n)
    } else {
        magnitude(n)
    }
}

/// IEEE-754 `==`: a NaN equals nothing, the two zeros are equal.
pub open spec fn number_eq(a: u64, b: u64) -> bool {
    !is_nan(a) && !is_nan(b) && rank(a) == rank(b)
}

/// IEEE-754 `<`: false when either side is a NaN.
pub open spec fn number_lt(a: u64, b: u64) -> bool {
    !is_nan(a) && !is_nan(b) && rank(a) < rank(b)
}

/// IEEE-754 `<=`: false when either side is a NaN.
pub open spec fn number_le(a: u64, b: u64) -> bool {
    !is_nan(a) && !is_nan(b) && rank(a) <= rank(b)
}

/// The number that a boolean counts as: one or zero.
pub open spec fn number_of_bool(b: bool) -> u64 {
    if b {
        ONE
    } else {
        ZERO
    }
}

/// Whether `n` is a NaN.
pub fn nan(n: u64) -> (r: bool)
    ensures
        r == is_nan(n),
{
    let m: u64 = if n >= SIGN {
        n - SIGN
    } else {
        n
    };
    m > INFINITY
}

/// Whether `n` is zero, of either sign.
pub fn zero(n: u64) -> (r: bool)
    ensures
        r == is_zero(n),
{
    n == 0 || n == SIGN
}

/// Where `n` stands on the number line.
fn rank_of(n: u64) -> (r: i128)
    ensures
        r == rank(n),
{
    if n >= SIGN {
        -((n - SIGN) as i128)
    } else {
        n as i128
    }
}

/// Whether `a == b`, as numbers.
pub fn numbers_equal(a: u64, b: u64) -> (r: bool)
    ensures
        r == number_eq(a, b),
{
    !nan(a) && !nan(b) && rank_of(a) == rank_of(b)
}

/// Whether `a < b`, as numbers.
pub fn number_less(a: u64, b: u64) -> (r: bool)
    ensures
        r == number_lt(a, b),
{
    !nan(a) && !nan(b) && rank_of(a) < rank_of(b)
}

/// Whether `a <= b`, as numbers.
pub fn number_less_or_equal(a: u64, b: u64) -> (r: bool)
    ensures
        r == number_le(a, b),
{
    !nan(a) && !nan(b) && rank_of(a) <= rank_of(b)
}

/// A value, as the contracts see it.
pub enum Val {
    Number(u64),
    Text(Seq<char>),
    Boolean(bool),
    List(Seq<Val>),
    Object(Seq<(Seq<char>, Val)>),
}

/// A runtime value. A `Number` holds the 64 bits of a binary64.
///
/// The `==` of this type tells whether two values are held alike, bit by bit
/// and entry by entry. What the language means by `==` is [`values_equal`].
#[derive(Debug, PartialEq)]
pub enum Value {
    Number(u64),
    String(String),
    Boolean(bool),
    List(Vec<Value>),
    Object(Vec<(String, Value)>),
}

/// The values of a list, as the contracts see them.
pub open spec fn list_view(l: Seq<Value>) -> Seq<Val> {
    Seq::new(l.len(), |i: int| l[i]@)
}

/// The entries of an object or a scope, as the contracts see them.
pub open spec fn entries_view(o: Seq<(String, Value)>) -> Seq<(Seq<char>, Val)> {
    Seq::new(o.len(), |i: int| (o[i].0@, o[i].1@))
}

/// What the contracts see of `v`.
pub open spec fn value_view(v: Value) -> Val
    decreases v,
{
    match v {
        Value::Number(n) => Val::Number(n),
        Value::String(s) => Val::Text(s@),
        Value::Boolean(b) => Val::Boolean(b),
        Value::List(l) => Val::List(
            Seq::new(
                l.len() as nat,
                |i: int|
                    if 0 <= i < l.len() {
                        value_view(l[i])
                    } else {
                        Val::Boolean(false)
                    },
            ),
        ),
        Value::Object(o) => Val::Object(
            Seq::new(
                o.len() as nat,
                |i: int|
                    if 0 <= i < o.len() {
                        (o[i].0@, value_view(o[i].1))
                    } else {
                        (Seq::empty(), Val::Boolean(false))
                    },
            ),
        ),
    }
}

impl View for Value {
    type V = Val;

    open spec fn view(&self) -> Val {
        value_view(*self)
    }
}

/// The view of a list is the list of the views.
pub proof fn view_of_list(l: Vec<Value>)
    ensures
        Value::List(l)@ == Val::List(list_view(l@)),
{
    assert(Value::List(l)@->List_0 =~= list_view(l@));
}

/// The view of an object is the list of its entries' views.
pub proof fn view_of_object(o: Vec<(String, Value)>)
    ensures
        Value::Object(o)@ == Val::Object(entries_view(o@)),
{
    assert(Value::Object(o)@->Object_0 =~= entries_view(o@));
}

/// The index of the first entry of `o` at or after `from` whose key is `k`,
/// or the length of `o` where there is none.
pub open spec fn index_from(o: Seq<(Seq<char>, Val)>, k: Seq<char>, from: int) -> int
    decreases o.len() - from,
{
    if from < 0 || from >= o.len() {
        o.len() as int
    } else if o[from].0 == k {
        from
    } else {
        index_from(o, k, from + 1)
    }
}

/// The index of the first entry of `o` whose key is `k`, or the length of `o`.
pub open spec fn index_of(o: Seq<(Seq<char>, Val)>, k: Seq<char>) -> int {
    index_from(o, k, 0)
}

/// The value that `o` holds under `k`.
pub open spec fn lookup(o: Seq<(Seq<char>, Val)>, k: Seq<char>) -> Option<Val> {
    if index_of(o, k) < o.len() {
        Some(o[index_of(o, k)].1)
    } else {
        None
    }
}

/// The entries `o` with `v` under `k`: in the place of the entry that had the
/// key, or at the end where none had it.
pub open spec fn with_entry(o: Seq<(Seq<char>, Val)>, k: Seq<char>, v: Val) -> Seq<
    (Seq<char>, Val),
> {
    if index_of(o, k) < o.len() {
        o.update(index_of(o, k), (k, v))
    } else {
        o.push((k, v))
    }
}

/// Where the search for `k` ends: at an entry with that key before which
/// none has it, or at the length of `o`, and then no entry has it.
pub proof fn index_from_is_first(o: Seq<(Seq<char>, Val)>, k: Seq<char>, from: int)
    requires
        0 <= from <= o.len(),
    ensures
        from <= index_from(o, k, from) <= o.len(),
        index_from(o, k, from) < o.len() ==> o[index_from(o, k, from)].0 == k,
        forall|j: int| from <= j < index_from(o, k, from) ==> (#[trigger] o[j]).0 != k,
    decreases o.len() - from,
{
    if from < o.len() && o[from].0 != k {
        index_from_is_first(o, k, from + 1);
    }
}

/// An index `at` is where the search for `k` ends, if it is the first place
/// from `from` on that holds the key.
pub proof fn index_from_found(o: Seq<(Seq<char>, Val)>, k: Seq<char>, from: int, at: int)
    requires
        0 <= from <= at <= o.len(),
        at < o.len() ==> o[at].0 == k,
        forall|j: int| from <= j < at ==> (#[trigger] o[j]).0 != k,
    ensures
        index_from(o, k, from) == at,
    decreases at - from,
{
    if from < at {
        index_from_found(o, k, from + 1, at);
    }
}

/// After `v` was put under `k`, `k` leads to `v` and every other key to what
/// it led to before.
pub proof fn lookup_with_entry(o: Seq<(Seq<char>, Val)>, k: Seq<char>, v: Val, other: Seq<char>)
    ensures
        lookup(with_entry(o, k, v), other) == if other == k {
            Some(v)
        } else {
            lookup(o, other)
        },
{
    let n = with_entry(o, k, v);
    let at = index_of(o, k);
    index_from_is_first(o, k, 0);
    index_from_is_first(o, other, 0);
    let was = index_of(o, other);
    if other == k {
        index_from_found(n, k, 0, at);
    } else {
        assert forall|j: int| 0 <= j < was implies (#[trigger] n[j]).0 != other by {
            if j != at {
                assert(n[j] == o[j]);
            }
        }
        if was < o.len() {
            index_from_found(n, other, 0, was);
        } else {
            assert(n.len() > was ==> n[was].0 == k);
            index_from_found(n, other, 0, n.len() as int);
        }
    }
}

/// Putting a value under a key keeps the keys distinct.
pub proof fn with_entry_keeps_distinct(o: Seq<(Seq<char>, Val)>, k: Seq<char>, v: Val)
    requires
        distinct_keys(o),
    ensures
        distinct_keys(with_entry(o, k, v)),
{
    index_from_is_first(o, k, 0);
    let n = with_entry(o, k, v);
    let at = index_of(o, k);
    assert forall|i: int, j: int| 0 <= i < j < n.len() implies n[i].0 != n[j].0 by {
        if at < o.len() {
            assert(n[i].0 == o[i].0);
            assert(n[j].0 == o[j].0);
        } else {
            if j < o.len() {
                assert(n[i] == o[i] && n[j] == o[j]);
            } else {
                assert(n[i] == o[i]);
            }
        }
    }
}

/// No two entries of `o` have the same key.
pub open spec fn distinct_keys(o: Seq<(Seq<char>, Val)>) -> bool {
    forall|i: int, j: int| 0 <= i < j < o.len() ==> o[i].0 != o[j].0
}

/// What the language's `==` says of two values. Values of different kinds
/// are never equal; numbers are compared as IEEE-754 does; lists element by
/// element; objects key by key, whatever the order of their entries.
pub open spec fn val_eq(a: Val, b: Val) -> bool
    decreases a,
{
    match (a, b) {
        (Val::Number(x), Val::Number(y)) => number_eq(x, y),
        (Val::Text(x), Val::Text(y)) => x == y,
        (Val::Boolean(x), Val::Boolean(y)) => x == y,
        (Val::List(x), Val::List(y)) => x.len() == y.len() && forall|i: int|
            0 <= i < x.len() ==> val_eq(#[trigger] x[i], y[i]),
        (Val::Object(x), Val::Object(y)) => x.len() == y.len() && forall|i: int|
            0 <= i < x.len() ==> entry_found(#[trigger] x[i], y),
        _ => false,
    }
}

/// `y` holds, under the key of the entry `e`, a value equal to that of `e`.
pub open spec fn entry_found(e: (Seq<char>, Val), y: Seq<(Seq<char>, Val)>) -> bool
    decreases e,
{
    index_of(y, e.0) < y.len() && val_eq(e.1, y[index_of(y, e.0)].1)
}


/// A copy of `v`.
#[verifier::loop_isolation(false)]
pub fn copy_value(v: &Value) -> (r: Value)
    ensures
        r@ == v@,
    decreases v,
{
    match v {
        Value::Number(n) => Value::Number(*n),
        Value::String(s) => Value::String(s.clone()),
        Value::Boolean(b) => Value::Boolean(*b),
        Value::List(l) => {
            let mut out: Vec<Value> = Vec::new();
            let mut i: usize = 0;
            while i < l.len()
                invariant
                    i <= l.len(),
                    out.len() == i,
                    forall|j: int| 0 <= j < i ==> out[j]@ == l[j]@,
                decreases l.len() - i,
            {
                out.push(copy_value(&l[i]));
                i += 1;
            }
            proof {
                view_of_list(*l);
                view_of_list(out);
                assert(list_view(out@) =~= list_view(l@));
            }
            Value::List(out)
        },
        Value::Object(o) => {
            let mut out: Vec<(String, Value)> = Vec::new();
            let mut i: usize = 0;
            while i < o.len()
                invariant
                    i <= o.len(),
                    out.len() == i,
                    forall|j: int| 0 <= j < i ==> out[j].0@ == o[j].0@ && out[j].1@ == o[j].1@,
                decreases o.len() - i,
            {
                out.push((o[i].0.clone(), copy_value(&o[i].1)));
                i += 1;
            }
            proof {
                view_of_object(*o);
                view_of_object(out);
                assert(entries_view(out@) =~= entries_view(o@));
            }
            Value::Object(out)
        },
    }
}

/// The index of the first entry of `o` whose key is `k`, or the length of `o`.
pub fn find_entry(o: &Vec<(String, Value)>, k: &String) -> (r: usize)
    ensures
        r == index_of(entries_view(o@), k@),
        r <= o.len(),
{
    let mut i: usize = 0;
    while i < o.len()
        invariant
            i <= o.len(),
            index_of(entries_view(o@), k@) == index_from(entries_view(o@), k@, i as int),
        decreases o.len() - i,
    {
        if o[i].0 == *k {
            return i;
        }
        i += 1;
    }
    i
}

/// Puts `v` under `k`: in the place of the entry that had the key, or at the
/// end where none had it.
pub fn put_entry(o: &mut Vec<(String, Value)>, k: String, v: Value)
    ensures
        entries_view(final(o)@) == with_entry(entries_view(old(o)@), k@, v@),
{
    let i = find_entry(o, &k);
    if i < o.len() {
        o[i] = (k, v);
    } else {
        o.push((k, v));
    }
    assert(entries_view(o@) =~= with_entry(entries_view(old(o)@), k@, v@));
}

/// Whether the language's `==` holds of `a` and `b`.
#[verifier::loop_isolation(false)]
pub fn values_equal(a: &Value, b: &Value) -> (r: bool)
    ensures
        r == val_eq(a@, b@),
    decreases a,
{
    match (a, b) {
        (Value::Number(x), Value::Number(y)) => numbers_equal(*x, *y),
        (Value::String(x), Value::String(y)) => *x == *y,
        (Value::Boolean(x), Value::Boolean(y)) => *x == *y,
        (Value::List(x), Value::List(y)) => {
            proof {
                view_of_list(*x);
                view_of_list(*y);
            }
            if x.len() != y.len() {
                return false;
            }
            let mut i: usize = 0;
            while i < x.len()
                invariant
                    i <= x.len(),
                    x.len() == y.len(),
                    forall|j: int| 0 <= j < i ==> val_eq(#[trigger] list_view(x@)[j], list_view(y@)[j]),
                decreases x.len() - i,
            {
                if !values_equal(&x[i], &y[i]) {
                    assert(!val_eq(list_view(x@)[i as int], list_view(y@)[i as int]));
                    return false;
                }
                i += 1;
            }
            true
        },
        (Value::Object(x), Value::Object(y)) => {
            proof {
                view_of_object(*x);
                view_of_object(*y);
            }
            if x.len() != y.len() {
                return false;
            }
            let mut i: usize = 0;
            while i < x.len()
                invariant
                    i <= x.len(),
                    x.len() == y.len(),
                    forall|j: int| 0 <= j < i ==> entry_found(#[trigger] entries_view(x@)[j], entries_view(y@)),
                decreases x.len() - i,
            {
                let at = find_entry(y, &x[i].0);
                if at >= y.len() {
                    assert(!entry_found(entries_view(x@)[i as int], entries_view(y@)));
                    return false;
                }
                if !values_equal(&x[i].1, &y[at].1) {
                    assert(!entry_found(entries_view(x@)[i as int], entries_view(y@)));
                    return false;
                }
                assert(entry_found(entries_view(x@)[i as int], entries_view(y@)));
                i += 1;
            }
            true
        },
        _ => false,
    }
}

impl Value {
    /// The number that the value counts as: a number is itself, a boolean
    /// is one or zero, a list or an object is a NaN. A text is the number
    /// that it reads as, which is asked of the table; it is a NaN where the
    /// text writes no number.
    pub fn as_number(&self, known: &Known) -> (r: Result<u64, Stop>)
        ensures
            match r {
                Ok(n) => coerced(self@, known@) == Ok::<u64, Cause>(n),
                Err(c) => coerced(self@, known@) == Err::<u64, Cause>(c@),
            },
    {
        match self {
            Value::Number(n) => Ok(*n),
            Value::String(t) => match known.parsed(t) {
                Some(bits) => Ok(bits),
                None => Err(Stop::Need(Request::Parse(t.clone()))),
            },
            Value::Boolean(b) => Ok(
                if *b {
                    ONE
                } else {
                    ZERO
                },
            ),
            _ => Ok(NAN),
        }
    }
}

} // verus!
