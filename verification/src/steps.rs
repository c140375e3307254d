//! A concrete step vocabulary for chains over a small tagged value union.
//!
//! [`Morphism`](crate::morphism::Morphism) is generic in its step type; this
//! module supplies one ready-made instantiation.  [`Value`] is a tagged
//! union of the concrete types a chain's stages may expect, and [`Op`] is a
//! family of transformations on it, each a total function: an operation
//! applied to a value of a shape it does not recognise hands the value back
//! unchanged, and the arithmetic operations wrap around on overflow.
//!
//! [`Value`] abstracts to [`ValModel`], which replaces the stored strings by
//! their character sequences; the meaning of every operation is stated on
//! that abstraction.

use vstd::prelude::*;
use vstd::string::StringExecFns;

use crate::morphism::Step;

verus! {

/// A tagged value travelling through a chain.
#[derive(Debug, PartialEq, Eq)]
pub enum Value {
    /// A signed number.
    Int(i32),
    /// An unsigned machine-sized number.
    Size(usize),
    /// A text.
    Str(String),
    /// An unsigned number.
    Num(u64),
    /// An optional unsigned number.
    MaybeNum(Option<u64>),
    /// An optional unsigned number together with a text.
    Pair(Option<u64>, String),
    /// An optional unsigned number, a flag, and a text.
    Triple(Option<u64>, bool, String),
}

/// The mathematical value a [`Value`] stands for: the same tagged union
/// with each text replaced by its sequence of characters.
pub enum ValModel {
    /// A signed number.
    Int(i32),
    /// An unsigned machine-sized number.
    Size(usize),
    /// A text.
    Str(Seq<char>),
    /// An unsigned number.
    Num(u64),
    /// An optional unsigned number.
    MaybeNum(Option<u64>),
    /// An optional unsigned number together with a text.
    Pair(Option<u64>, Seq<char>),
    /// An optional unsigned number, a flag, and a text.
    Triple(Option<u64>, bool, Seq<char>),
}

impl View for Value {
    type V = ValModel;

    open spec fn view(&self) -> ValModel {
        match self {
            Value::Int(n) => ValModel::Int(*n),
            Value::Size(u) => ValModel::Size(*u),
            Value::Str(s) => ValModel::Str(s@),
            Value::Num(n) => ValModel::Num(*n),
            Value::MaybeNum(o) => ValModel::MaybeNum(*o),
            Value::Pair(o, s) => ValModel::Pair(*o, s@),
            Value::Triple(o, b, s) => ValModel::Triple(*o, *b, s@),
        }
    }
}

/// The decimal digit `d` as a character.
pub open spec fn spec_digit(d: int) -> char {
    if d == 0 {
        '0'
    } else if d == 1 {
        '1'
    } else if d == 2 {
        '2'
    } else if d == 3 {
        '3'
    } else if d == 4 {
        '4'
    } else if d == 5 {
        '5'
    } else if d == 6 {
        '6'
    } else if d == 7 {
        '7'
    } else if d == 8 {
        '8'
    } else {
        '9'
    }
}

/// The decimal digits of the non-negative number `n`, most significant
/// first, without leading zeroes (a single `'0'` for zero).
pub open spec fn spec_decimal_nat(n: nat) -> Seq<char>
    decreases n,
{
    if n < 10 {
        seq![spec_digit(n as int)]
    } else {
        spec_decimal_nat(n / 10).push(spec_digit((n % 10) as int))
    }
}

/// The decimal rendering of a signed number: a minus sign followed by the
/// digits of its magnitude when negative, the bare digits otherwise.
pub open spec fn spec_decimal_i32(n: i32) -> Seq<char> {
    if n < 0 {
        seq!['-'] + spec_decimal_nat((-(n as int)) as nat)
    } else {
        spec_decimal_nat(n as nat)
    }
}

/// The decimal digit `d`, `0` to `9`, as a one-character text.
fn digit_str(d: u64) -> (r: &'static str)
    requires
        d < 10,
    ensures
        r@ == seq![spec_digit(d as int)],
{
    if d == 0 {
        proof {
            reveal_strlit("0");
            assert("0"@ =~= seq!['0']);
        }
        "0"
    } else if d == 1 {
        proof {
            reveal_strlit("1");
            assert("1"@ =~= seq!['1']);
        }
        "1"
    } else if d == 2 {
        proof {
            reveal_strlit("2");
            assert("2"@ =~= seq!['2']);
        }
        "2"
    } else if d == 3 {
        proof {
            reveal_strlit("3");
            assert("3"@ =~= seq!['3']);
        }
        "3"
    } else if d == 4 {
        proof {
            reveal_strlit("4");
            assert("4"@ =~= seq!['4']);
        }
        "4"
    } else if d == 5 {
        proof {
            reveal_strlit("5");
            assert("5"@ =~= seq!['5']);
        }
        "5"
    } else if d == 6 {
        proof {
            reveal_strlit("6");
            assert("6"@ =~= seq!['6']);
        }
        "6"
    } else if d == 7 {
        proof {
            reveal_strlit("7");
            assert("7"@ =~= seq!['7']);
        }
        "7"
    } else if d == 8 {
        proof {
            reveal_strlit("8");
            assert("8"@ =~= seq!['8']);
        }
        "8"
    } else {
        proof {
            reveal_strlit("9");
            assert("9"@ =~= seq!['9']);
        }
        "9"
    }
}

/// Append the decimal digits of `n` to `s`, most significant first.
fn push_decimal(s: &mut String, n: u64)
    ensures
        final(s)@ == old(s)@ + spec_decimal_nat(n as nat),
    decreases n,
{
    if n >= 10 {
        push_decimal(s, n / 10);
        s.append(digit_str(n % 10));
        proof {
            assert(final(s)@ =~= old(s)@ + spec_decimal_nat(n as nat));
        }
    } else {
        s.append(digit_str(n));
        proof {
            assert(final(s)@ =~= old(s)@ + spec_decimal_nat(n as nat));
        }
    }
}

/// Render a signed number in decimal.
fn decimal_i32(n: i32) -> (r: String)
    ensures
        r@ == spec_decimal_i32(n),
{
    let mut s = String::new();
    if n < 0 {
        proof {
            reveal_strlit("-");
            assert("-"@ =~= seq!['-']);
        }
        s.append("-");
        let wide: i64 = n as i64;
        let mag: u64 = (-wide) as u64;
        push_decimal(&mut s, mag);
        proof {
            assert(s@ =~= spec_decimal_i32(n));
        }
    } else {
        push_decimal(&mut s, n as u64);
    }
    s
}

/// One transformation of a [`Value`].  Every operation is total: a value
/// whose shape the operation does not recognise is handed back unchanged,
/// and arithmetic wraps around on overflow.
#[derive(Debug, PartialEq, Eq)]
pub enum Op {
    /// On `Int(n)`: add a constant, wrapping.
    AddInt(i32),
    /// On `Int(n)`: render the number in decimal as `Str`.
    IntToString,
    /// On `Str(s)`: append a fixed suffix.
    PushSuffix(String),
    /// On `Size(u)`: convert to `Int`, saturating at the largest `Int`.
    SizeToInt,
    /// On `Num(n)`: add a constant, wrapping.
    AddNum(u64),
    /// On `Num(n)`: wrap the number into `MaybeNum(Some(n))`.
    WrapSome,
    /// On `MaybeNum(o)`: subtract a constant under the option, wrapping.
    MapSubNum(u64),
    /// On `MaybeNum(o)`: add a constant under the option, wrapping, and
    /// attach a fixed text, giving a `Pair`.
    PairWithStr(u64, String),
    /// On `Pair(o, s)`: add a constant under the option, wrapping.
    PairMapAddNum(u64),
    /// On `Pair(o, s)`: insert whether the option is filled, giving a
    /// `Triple`.
    PairToTriple,
}

impl Step for Op {
    type Val = Value;

    open spec fn apply_spec(self, v: ValModel) -> ValModel {
        match self {
            Op::AddInt(k) => match v {
                ValModel::Int(n) => ValModel::Int(vstd::wrapping::i32_specs::wrapping_add(n, k)),
                _ => v,
            },
            Op::IntToString => match v {
                ValModel::Int(n) => ValModel::Str(spec_decimal_i32(n)),
                _ => v,
            },
            Op::PushSuffix(suffix) => match v {
                ValModel::Str(s) => ValModel::Str(s + suffix@),
                _ => v,
            },
            Op::SizeToInt => match v {
                ValModel::Size(u) => ValModel::Int(
                    if u > i32::MAX as usize {
                        i32::MAX
                    } else {
                        u as i32
                    },
                ),
                _ => v,
            },
            Op::AddNum(k) => match v {
                ValModel::Num(n) => ValModel::Num(vstd::wrapping::u64_specs::wrapping_add(n, k)),
                _ => v,
            },
            Op::WrapSome => match v {
                ValModel::Num(n) => ValModel::MaybeNum(Option::Some(n)),
                _ => v,
            },
            Op::MapSubNum(k) => match v {
                ValModel::MaybeNum(Option::Some(n)) => ValModel::MaybeNum(
                    Option::Some(vstd::wrapping::u64_specs::wrapping_sub(n, k)),
                ),
                _ => v,
            },
            Op::PairWithStr(k, attach) => match v {
                ValModel::MaybeNum(o) => ValModel::Pair(
                    match o {
                        Option::Some(n) => Option::Some(
                            vstd::wrapping::u64_specs::wrapping_add(n, k),
                        ),
                        Option::None => Option::None,
                    },
                    attach@,
                ),
                _ => v,
            },
            Op::PairMapAddNum(k) => match v {
                ValModel::Pair(Option::Some(n), s) => ValModel::Pair(
                    Option::Some(vstd::wrapping::u64_specs::wrapping_add(n, k)),
                    s,
                ),
                _ => v,
            },
            Op::PairToTriple => match v {
                ValModel::Pair(o, s) => ValModel::Triple(o, o is Some, s),
                _ => v,
            },
        }
    }

    fn apply(&self, v: Value) -> (r: Value) {
        match self {
            Op::AddInt(k) => match v {
                Value::Int(n) => Value::Int(n.wrapping_add(*k)),
                other => other,
            },
            Op::IntToString => match v {
                Value::Int(n) => Value::Str(decimal_i32(n)),
                other => other,
            },
            Op::PushSuffix(suffix) => match v {
                Value::Str(s) => Value::Str(s.concat(suffix.as_str())),
                other => other,
            },
            Op::SizeToInt => match v {
                Value::Size(u) => Value::Int(
                    if u > i32::MAX as usize {
                        i32::MAX
                    } else {
                        u as i32
                    },
                ),
                other => other,
            },
            Op::AddNum(k) => match v {
                Value::Num(n) => Value::Num(n.wrapping_add(*k)),
                other => other,
            },
            Op::WrapSome => match v {
                Value::Num(n) => Value::MaybeNum(Option::Some(n)),
                other => other,
            },
            Op::MapSubNum(k) => match v {
                Value::MaybeNum(Option::Some(n)) => Value::MaybeNum(
                    Option::Some(n.wrapping_sub(*k)),
                ),
                other => other,
            },
            Op::PairWithStr(k, attach) => match v {
                Value::MaybeNum(o) => Value::Pair(
                    match o {
                        Option::Some(n) => Option::Some(n.wrapping_add(*k)),
                        Option::None => Option::None,
                    },
                    attach.clone(),
                ),
                other => other,
            },
            Op::PairMapAddNum(k) => match v {
                Value::Pair(Option::Some(n), s) => Value::Pair(
                    Option::Some(n.wrapping_add(*k)),
                    s,
                ),
                other => other,
            },
            Op::PairToTriple => match v {
                Value::Pair(o, s) => Value::Triple(o, o.is_some(), s),
                other => other,
            },
        }
    }
}

} // verus!
