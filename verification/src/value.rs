//! The runtime data model: the tagged union of values that registers and
//! the constant pool hold, together with its mathematical abstraction.

use vstd::prelude::*;

verus! {

/// A runtime value. `Array` is the aggregate form: an ordered,
/// index-addressable sequence of values. String literals are represented
/// as arrays of `Character` values. Copying a value into another register
/// copies an array deeply, so no two registers ever share array storage;
/// the element-assignment instruction mutates an array in place inside
/// its register.
pub enum Value {
    Number(i64),
    Character(char),
    Boolean(bool),
    Array(Vec<Value>),
}

/// The mathematical abstraction of a [`Value`]: the same tree, with the
/// array payload as a `Seq`. Contracts throughout the crate speak of
/// values through this type.
#[verifier::ext_equal]
pub ghost enum AbstractValue {
    Number(int),
    Character(char),
    Boolean(bool),
    Array(Seq<AbstractValue>),
}

impl Value {
    /// The abstraction of this value.
    pub open spec fn model(self) -> AbstractValue
        decreases self,
    {
        match self {
            Value::Number(n) => AbstractValue::Number(n as int),
            Value::Character(c) => AbstractValue::Character(c),
            Value::Boolean(b) => AbstractValue::Boolean(b),
            Value::Array(items) => AbstractValue::Array(models(items@)),
        }
    }
}

/// The abstraction of a sequence of values, element by element.
pub open spec fn models(items: Seq<Value>) -> Seq<AbstractValue>
    decreases items,
{
    if items.len() == 0 {
        Seq::empty()
    } else {
        models(items.drop_last()).push(items.last().model())
    }
}

/// `models` maps the sequence element by element.
pub broadcast proof fn lemma_models(items: Seq<Value>)
    ensures
        #[trigger] models(items).len() == items.len(),
        forall|i: int| 0 <= i < items.len() ==> models(items)[i] == items[i].model(),
    decreases items,
{
    if items.len() > 0 {
        lemma_models(items.drop_last());
    }
}

/// `models` distributes over `push`.
pub broadcast proof fn lemma_models_push(items: Seq<Value>, v: Value)
    ensures
        #[trigger] models(items.push(v)) == models(items).push(v.model()),
{
    lemma_models(items);
    lemma_models(items.push(v));
    assert(items.push(v).len() == items.len() + 1);
    assert(models(items.push(v)) =~= models(items).push(v.model()));
}

/// The length of `models` is the length of the sequence.
pub broadcast proof fn lemma_models_len(items: Seq<Value>)
    ensures
        #[trigger] models(items).len() == items.len(),
{
    lemma_models(items);
}

/// Indexing `models` abstracts the element at that index.
pub broadcast proof fn lemma_models_index(items: Seq<Value>, i: int)
    requires
        0 <= i < items.len(),
    ensures
        #[trigger] models(items)[i] == items[i].model(),
{
    lemma_models(items);
}

/// `models` distributes over a point update.
pub broadcast proof fn lemma_models_update(items: Seq<Value>, i: int, v: Value)
    requires
        0 <= i < items.len(),
    ensures
        #[trigger] models(items.update(i, v)) == models(items).update(i, v.model()),
{
    lemma_models(items);
    lemma_models(items.update(i, v));
    assert(models(items.update(i, v)) =~= models(items).update(i, v.model()));
}

/// Deep-copies a value. Arrays are copied element by element: no two
/// registers ever share array storage.
pub fn deep_copy(v: &Value) -> (r: Value)
    ensures
        r.model() == v.model(),
    decreases *v,
{
    match v {
        Value::Number(n) => Value::Number(*n),
        Value::Character(c) => Value::Character(*c),
        Value::Boolean(b) => Value::Boolean(*b),
        Value::Array(items) => {
            let mut copy: Vec<Value> = Vec::new();
            let mut i: usize = 0;
            while i < items.len()
                invariant
                    v is Array && v->Array_0 == *items,
                    0 <= i <= items@.len(),
                    copy@.len() == i,
                    forall|j: int| 0 <= j < i ==> #[trigger] copy@[j].model() == items@[j].model(),
                decreases items@.len() - i,
            {
                proof {
                    assert(decreases_to!(*v => items@[i as int]));
                }
                let c = deep_copy(&items[i]);
                copy.push(c);
                i += 1;
            }
            proof {
                lemma_models(copy@);
                lemma_models(items@);
                assert(models(copy@) =~= models(items@));
            }
            Value::Array(copy)
        },
    }
}

/// Structural equality of abstract values is decided by [`deep_eq`].
/// Values of different tags are simply unequal; no error arises.
pub fn deep_eq(a: &Value, b: &Value) -> (r: bool)
    ensures
        r == (a.model() == b.model()),
    decreases *a,
{
    match (a, b) {
        (Value::Number(x), Value::Number(y)) => *x == *y,
        (Value::Character(x), Value::Character(y)) => *x == *y,
        (Value::Boolean(x), Value::Boolean(y)) => *x == *y,
        (Value::Array(x), Value::Array(y)) => {
            proof {
                lemma_models(x@);
                lemma_models(y@);
            }
            if x.len() != y.len() {
                return false;
            }
            let mut i: usize = 0;
            while i < x.len()
                invariant
                    0 <= i <= x@.len(),
                    x@.len() == y@.len(),
                    a is Array && a->Array_0 == *x,
                    b is Array && b->Array_0 == *y,
                    forall|j: int| 0 <= j < i ==> #[trigger] x@[j].model() == y@[j].model(),
                decreases x@.len() - i,
            {
                proof {
                    assert(decreases_to!(*a => x@[i as int]));
                }
                if !deep_eq(&x[i], &y[i]) {
                    proof {
                        lemma_models(x@);
                        lemma_models(y@);
                        assert(models(x@)[i as int] != models(y@)[i as int]);
                    }
                    return false;
                }
                i += 1;
            }
            proof {
                lemma_models(x@);
                lemma_models(y@);
                assert(models(x@) =~= models(y@));
            }
            true
        },
        _ => {
            proof {
                assert(a.model() != b.model());
            }
            false
        },
    }
}

/// The outcome of an ordering comparison.
#[derive(Copy, Clone, Debug, PartialEq, Eq, Structural)]
pub enum Cmp {
    Less,
    Equal,
    Greater,
}

/// Ordering of two abstract values of the same tag: numbers, characters
/// and booleans by their natural order (`false` below `true`), arrays
/// lexicographically element by element with the shorter prefix below.
/// Values of different tags have no order: the comparison opcodes treat
/// that as a fatal type error.
pub open spec fn spec_cmp(a: AbstractValue, b: AbstractValue) -> Option<Cmp>
    decreases a, 0nat,
{
    match (a, b) {
        (AbstractValue::Number(x), AbstractValue::Number(y)) => Some(spec_cmp_int(x, y)),
        (AbstractValue::Character(x), AbstractValue::Character(y)) => Some(
            spec_cmp_int(x as int, y as int),
        ),
        (AbstractValue::Boolean(x), AbstractValue::Boolean(y)) => Some(
            spec_cmp_int(
                if x {
                    1int
                } else {
                    0int
                },
                if y {
                    1int
                } else {
                    0int
                },
            ),
        ),
        (AbstractValue::Array(x), AbstractValue::Array(y)) => spec_cmp_seq(x, y),
        _ => None,
    }
}

/// Ordering of two integers.
pub open spec fn spec_cmp_int(x: int, y: int) -> Cmp {
    if x < y {
        Cmp::Less
    } else if x == y {
        Cmp::Equal
    } else {
        Cmp::Greater
    }
}

/// Lexicographic ordering of two abstract-value sequences.
pub open spec fn spec_cmp_seq(x: Seq<AbstractValue>, y: Seq<AbstractValue>) -> Option<Cmp>
    decreases x, 1nat,
{
    if x.len() == 0 && y.len() == 0 {
        Some(Cmp::Equal)
    } else if x.len() == 0 {
        Some(Cmp::Less)
    } else if y.len() == 0 {
        Some(Cmp::Greater)
    } else {
        match spec_cmp(x[0], y[0]) {
            Some(Cmp::Equal) => spec_cmp_seq(x.drop_first(), y.drop_first()),
            other => other,
        }
    }
}

/// Compares two values, exactly as [`spec_cmp`] describes: `None`
/// means the two tags have no order.
pub fn cmp_values(a: &Value, b: &Value) -> (r: Option<Cmp>)
    ensures
        r == spec_cmp(a.model(), b.model()),
    decreases *a,
{
    match (a, b) {
        (Value::Number(x), Value::Number(y)) => {
            if *x < *y {
                Some(Cmp::Less)
            } else if *x == *y {
                Some(Cmp::Equal)
            } else {
                Some(Cmp::Greater)
            }
        },
        (Value::Character(x), Value::Character(y)) => {
            if *x < *y {
                Some(Cmp::Less)
            } else if *x == *y {
                Some(Cmp::Equal)
            } else {
                Some(Cmp::Greater)
            }
        },
        (Value::Boolean(x), Value::Boolean(y)) => {
            if !*x && *y {
                Some(Cmp::Less)
            } else if *x == *y {
                Some(Cmp::Equal)
            } else {
                Some(Cmp::Greater)
            }
        },
        (Value::Array(x), Value::Array(y)) => {
            proof {
                lemma_models(x@);
                lemma_models(y@);
                assert(models(x@).skip(0) =~= models(x@));
                assert(models(y@).skip(0) =~= models(y@));
            }
            let mut i: usize = 0;
            while i < x.len() && i < y.len()
                invariant
                    0 <= i <= x@.len(),
                    i <= y@.len(),
                    a is Array && a->Array_0 == *x,
                    b is Array && b->Array_0 == *y,
                    spec_cmp_seq(models(x@), models(y@)) == spec_cmp_seq(
                        models(x@).skip(i as int),
                        models(y@).skip(i as int),
                    ),
                decreases x@.len() - i,
            {
                proof {
                    assert(decreases_to!(*a => x@[i as int]));
                    lemma_models(x@);
                    lemma_models(y@);
                    assert(models(x@).skip(i as int)[0] == x@[i as int].model());
                    assert(models(y@).skip(i as int)[0] == y@[i as int].model());
                    assert(models(x@).skip(i as int).drop_first() =~= models(x@).skip(i + 1));
                    assert(models(y@).skip(i as int).drop_first() =~= models(y@).skip(i + 1));
                }
                match cmp_values(&x[i], &y[i]) {
                    Some(Cmp::Equal) => {
                        i += 1;
                    },
                    other => {
                        return other;
                    },
                }
            }
            proof {
                lemma_models(x@);
                lemma_models(y@);
                assert(models(x@).skip(i as int).len() == x@.len() - i);
                assert(models(y@).skip(i as int).len() == y@.len() - i);
            }
            if x.len() == y.len() {
                Some(Cmp::Equal)
            } else if x.len() < y.len() {
                Some(Cmp::Less)
            } else {
                Some(Cmp::Greater)
            }
        },
        _ => {
            proof {
                assert(spec_cmp(a.model(), b.model()) is None);
            }
            None
        },
    }
}

/// The character for one decimal digit.
pub open spec fn digit_char(d: int) -> char {
    if d == 0 {
        '0'
    } else if d == 1 {
        '1'
    } else if d == 2 {
        '2'
    } else if d == 3 {
        '3'
    } else if d == 4 {
        '4'
    } else if d == 5 {
        '5'
    } else if d == 6 {
        '6'
    } else if d == 7 {
        '7'
    } else if d == 8 {
        '8'
    } else {
        '9'
    }
}

/// The decimal digits of a non-negative integer, no leading zeros.
pub open spec fn spec_decimal_digits(n: int) -> Seq<char>
    decreases n,
{
    if n <= 9 {
        seq![digit_char(n)]
    } else {
        spec_decimal_digits(n / 10).push(digit_char(n % 10))
    }
}

/// The decimal form of an integer: an optional minus sign, then the
/// digits of its magnitude.
pub open spec fn spec_decimal_i64(v: int) -> Seq<char> {
    if v < 0 {
        seq!['-'] + spec_decimal_digits(-v)
    } else {
        spec_decimal_digits(v)
    }
}

/// The display form of a value: numbers in decimal, characters as
/// themselves, booleans as `true`/`false`, arrays as the concatenation
/// of their elements' display forms with no separator (which is why an
/// array of characters displays as a string).
pub open spec fn spec_render(v: AbstractValue) -> Seq<char>
    decreases v, 0nat,
{
    match v {
        AbstractValue::Number(n) => spec_decimal_i64(n),
        AbstractValue::Character(c) => seq![c],
        AbstractValue::Boolean(b) => if b {
            seq!['t', 'r', 'u', 'e']
        } else {
            seq!['f', 'a', 'l', 's', 'e']
        },
        AbstractValue::Array(items) => spec_render_seq(items),
    }
}

/// The concatenated display forms of a value sequence.
pub open spec fn spec_render_seq(items: Seq<AbstractValue>) -> Seq<char>
    decreases items, 1nat,
{
    if items.len() == 0 {
        Seq::empty()
    } else {
        spec_render_seq(items.drop_last()) + spec_render(items.last())
    }
}

/// The character for one decimal digit, executably.
fn to_digit_char(d: u64) -> (c: char)
    requires
        d <= 9,
    ensures
        c == digit_char(d as int),
{
    if d == 0 {
        '0'
    } else if d == 1 {
        '1'
    } else if d == 2 {
        '2'
    } else if d == 3 {
        '3'
    } else if d == 4 {
        '4'
    } else if d == 5 {
        '5'
    } else if d == 6 {
        '6'
    } else if d == 7 {
        '7'
    } else if d == 8 {
        '8'
    } else {
        '9'
    }
}

/// Appends the decimal digits of `n` to `out`, most significant
/// first, no leading zeros.
fn push_decimal_digits(n: u64, out: &mut Vec<char>)
    ensures
        final(out)@ == old(out)@ + spec_decimal_digits(n as int),
    decreases n,
{
    if n <= 9 {
        out.push(to_digit_char(n));
        proof {
            assert(out@ =~= old(out)@ + seq![digit_char(n as int)]);
        }
    } else {
        push_decimal_digits(n / 10, out);
        out.push(to_digit_char(n % 10));
        proof {
            assert((n / 10) as int == n as int / 10);
            assert((n % 10) as int == n as int % 10);
            assert(out@ =~= old(out)@ + spec_decimal_digits(n as int / 10).push(
                digit_char(n as int % 10),
            ));
        }
    }
}

/// Relies on the standard `String` character iterator collector: the
/// resulting string holds exactly the given characters in order.
#[verifier::external_body]
fn chars_to_string(chars: &Vec<char>) -> (r: String)
    ensures
        r@ == chars@,
{
    chars.iter().collect()
}

/// Appends the display form of `v` to `out`.
fn render_into(v: &Value, out: &mut Vec<char>)
    ensures
        final(out)@ == old(out)@ + spec_render(v.model()),
    decreases *v,
{
    match v {
        Value::Number(n) => {
            let x = *n;
            if x >= 0 {
                push_decimal_digits(x as u64, out);
            } else {
                out.push('-');
                let magnitude: u64 = ((-(x + 1)) as u64) + 1;
                proof {
                    assert(magnitude as int == -(x as int));
                }
                push_decimal_digits(magnitude, out);
                proof {
                    assert(out@ =~= old(out)@ + (seq!['-'] + spec_decimal_digits(-(x as int))));
                }
            }
        },
        Value::Character(c) => {
            out.push(*c);
            proof {
                assert(out@ =~= old(out)@ + seq![*c]);
            }
        },
        Value::Boolean(b) => {
            if *b {
                out.push('t');
                out.push('r');
                out.push('u');
                out.push('e');
                proof {
                    assert(out@ =~= old(out)@ + seq!['t', 'r', 'u', 'e']);
                }
            } else {
                out.push('f');
                out.push('a');
                out.push('l');
                out.push('s');
                out.push('e');
                proof {
                    assert(out@ =~= old(out)@ + seq!['f', 'a', 'l', 's', 'e']);
                }
            }
        },
        Value::Array(items) => {
            proof {
                lemma_models(items@);
                assert(models(items@).take(0) =~= Seq::<AbstractValue>::empty());
                assert(out@ =~= old(out)@ + spec_render_seq(models(items@).take(0)));
            }
            let mut i: usize = 0;
            while i < items.len()
                invariant
                    v is Array && v->Array_0 == *items,
                    0 <= i <= items@.len(),
                    out@ == old(out)@ + spec_render_seq(models(items@).take(i as int)),
                decreases items@.len() - i,
            {
                proof {
                    assert(decreases_to!(*v => items@[i as int]));
                    lemma_models(items@);
                }
                let ghost mid = out@;
                render_into(&items[i], out);
                proof {
                    lemma_models(items@);
                    let taken = models(items@).take(i + 1);
                    assert(taken.drop_last() =~= models(items@).take(i as int));
                    assert(taken.last() == items@[i as int].model());
                    assert(old(out)@ + spec_render_seq(models(items@).take(i as int))
                        + spec_render(items@[i as int].model()) =~= old(out)@ + spec_render_seq(
                        taken,
                    ));
                }
                i += 1;
            }
            proof {
                lemma_models(items@);
                assert(models(items@).take(items@.len() as int) =~= models(items@));
            }
        },
    }
}

/// The display form of a value, as the `Print` and `Println` builtins
/// write it.
pub fn build_print_string(data: &Value) -> (r: String)
    ensures
        r@ == spec_render(data.model()),
{
    let mut chars: Vec<char> = Vec::new();
    render_into(data, &mut chars);
    chars_to_string(&chars)
}

/// The display form of a value as a character vector.
pub fn render_value(data: &Value) -> (r: Vec<char>)
    ensures
        r@ == spec_render(data.model()),
{
    let mut chars: Vec<char> = Vec::new();
    render_into(data, &mut chars);
    chars
}

} // verus!
