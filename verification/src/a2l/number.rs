//! Floating-point parameters, as far as their handling depends on them.

use vstd::prelude::*;

verus! {

/// A floating-point number, held by what reading and writing A2L needs of it: its shortest
/// decimal text, integers that are ordered as the numbers are, and its nearest integer. The
/// application fills in the values; two numbers that compare equal have the same key.
#[derive(Debug, PartialEq, Eq)]
pub struct Number {
    /// Shortest decimal text of the double.
    pub text: String,
    /// Orders doubles; without meaning if the number is not one.
    pub key: i64,
    /// Whether the value is not a number.
    pub nan: bool,
    /// Shortest decimal text of the number as a single.
    pub single_text: String,
    /// Orders singles.
    pub single_key: i64,
    /// The nearest integer, ties away from zero, limited to the range of the type.
    pub rounded: i64,
}

/// A [`Number`] as a mathematical value.
pub struct Num {
    pub text: Seq<char>,
    pub key: int,
    pub nan: bool,
    pub single_text: Seq<char>,
    pub single_key: int,
    pub rounded: int,
}

impl View for Number {
    type V = Num;

    open spec fn view(&self) -> Num {
        Num {
            text: self.text@,
            key: self.key as int,
            nan: self.nan,
            single_text: self.single_text@,
            single_key: self.single_key as int,
            rounded: self.rounded as int,
        }
    }
}

impl Clone for Number {
    fn clone(&self) -> (r: Self)
        ensures
            r@ == self@,
    {
        Number {
            text: self.text.clone(),
            key: self.key,
            nan: self.nan,
            single_text: self.single_text.clone(),
            single_key: self.single_key,
            rounded: self.rounded,
        }
    }
}

impl Default for Number {
    fn default() -> (r: Self)
        ensures
            r@ == num_zero(),
    {
        Number {
            text: "0".to_string(),
            key: 0,
            nan: false,
            single_text: "0".to_string(),
            single_key: 0,
            rounded: 0,
        }
    }
}

/// What a number `x` and the number `y` behind it give together. The application fills in the
/// values.
#[derive(Debug, PartialEq, Eq)]
pub struct Joint {
    /// `1 / x`.
    pub inverse: Number,
    /// `-y / x`.
    pub quotient: Number,
    /// One divided by [`Joint::inverse`].
    pub slope: Number,
    /// The negative of [`Joint::slope`] times [`Joint::quotient`].
    pub start: Number,
    /// The negative of [`Joint::inverse`] times `y`.
    pub offset: Number,
}

/// A [`Joint`] as a mathematical value.
pub struct JointNum {
    pub inverse: Num,
    pub quotient: Num,
    pub slope: Num,
    pub start: Num,
    pub offset: Num,
}

impl View for Joint {
    type V = JointNum;

    open spec fn view(&self) -> JointNum {
        JointNum {
            inverse: self.inverse@,
            quotient: self.quotient@,
            slope: self.slope@,
            start: self.start@,
            offset: self.offset@,
        }
    }
}

impl Clone for Joint {
    fn clone(&self) -> (r: Self)
        ensures
            r@ == self@,
    {
        Joint {
            inverse: self.inverse.clone(),
            quotient: self.quotient.clone(),
            slope: self.slope.clone(),
            start: self.start.clone(),
            offset: self.offset.clone(),
        }
    }
}

/// A single-precision number.
#[derive(Debug, PartialEq, Eq)]
pub struct Single {
    /// Shortest decimal text.
    pub text: String,
    /// Orders singles; without meaning if the number is not one.
    pub key: i64,
    /// Whether the value is not a number.
    pub nan: bool,
}

/// A [`Single`] as a mathematical value.
pub struct Sng {
    pub text: Seq<char>,
    pub key: int,
    pub nan: bool,
}

impl View for Single {
    type V = Sng;

    open spec fn view(&self) -> Sng {
        Sng { text: self.text@, key: self.key as int, nan: self.nan }
    }
}

impl Clone for Single {
    fn clone(&self) -> (r: Self)
        ensures
            r@ == self@,
    {
        Single { text: self.text.clone(), key: self.key, nan: self.nan }
    }
}

impl Num {
    /// The number as a single.
    pub open spec fn single(self) -> Sng {
        Sng { text: self.single_text, key: self.single_key, nan: self.nan }
    }
}

impl Number {
    /// The number as a single.
    pub fn single(&self) -> (r: Single)
        ensures
            r@ == self@.single(),
    {
        Single { text: self.single_text.clone(), key: self.single_key, nan: self.nan }
    }
}

/// The number zero.
pub open spec fn num_zero() -> Num {
    Num { text: "0"@, key: 0, nan: false, single_text: "0"@, single_key: 0, rounded: 0 }
}

/// The lesser of two numbers; one that is not a number gives way to the other.
pub open spec fn num_min(a: Num, b: Num) -> Num {
    if a.nan {
        b
    } else if b.nan {
        a
    } else if b.key < a.key {
        b
    } else {
        a
    }
}

/// The greater of two numbers; one that is not a number gives way to the other.
pub open spec fn num_max(a: Num, b: Num) -> Num {
    if a.nan {
        b
    } else if b.nan {
        a
    } else if a.key < b.key {
        b
    } else {
        a
    }
}

/// The two numbers in ascending order.
pub fn in_order(a: &Number, b: &Number) -> (r: (Number, Number))
    ensures
        r.0@ == num_min(a@, b@),
        r.1@ == num_max(a@, b@),
{
    let lower = if a.nan {
        b.clone()
    } else if b.nan {
        a.clone()
    } else if b.key < a.key {
        b.clone()
    } else {
        a.clone()
    };
    let upper = if a.nan {
        b.clone()
    } else if b.nan {
        a.clone()
    } else if a.key < b.key {
        b.clone()
    } else {
        a.clone()
    };
    (lower, upper)
}

} // verus!
