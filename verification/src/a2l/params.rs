//! Typed, position-aware access to a block's parameter tokens.
//! [`ParamCursor`] centralizes required-value checks, numeric parsing, and A2L
//! string unescaping so model nodes report consistent parse errors.

use crate::a2l::block::{params_of, token_views, Block};
use crate::a2l::error::{Error, Failure, Result};
use crate::a2l::number::{Joint, JointNum, Num, Number};
use crate::a2l::token::{Tok, Token};
use crate::a2l::writer::{unescape_str, unescaped};
use crate::numeral::{
    law_magnitude_of_dec, law_magnitude_of_hex, lemma_digits_grow, magnitude, read_magnitude,
};
use crate::text::{chars_of, debug_of, debug_text, dec, dec_int, eq_ignore_case, hex};
use vstd::prelude::*;

verus! {

/// Where reading stands among the parameters of a block.
pub struct Cur {
    pub toks: Seq<Tok>,
    pub pos: int,
    /// The keyword of the block.
    pub owner: Seq<char>,
}

impl Cur {
    /// The start of a block's parameters.
    pub open spec fn start(tree: crate::a2l::block::Tree) -> Cur {
        Cur { toks: params_of(tree.items), pos: 0, owner: tree.keyword }
    }

    /// How many parameters are left.
    pub open spec fn left(self) -> int {
        self.toks.len() - self.pos
    }

    pub open spec fn more(self) -> bool {
        self.pos < self.toks.len()
    }

    pub open spec fn here(self) -> Tok {
        self.toks[self.pos]
    }

    pub open spec fn step(self) -> Cur {
        Cur { pos: self.pos + 1, ..self }
    }

    /// The place behind the next parameter, if there is one.
    pub open spec fn stepped(self) -> Cur {
        if self.more() {
            self.step()
        } else {
            self
        }
    }

    /// The place behind all parameters.
    pub open spec fn behind(self) -> Cur {
        Cur { pos: if self.more() { self.toks.len() as int } else { self.pos }, ..self }
    }

    /// Whether the next parameter is the given keyword.
    pub open spec fn at(self, tag: Seq<char>) -> bool {
        self.more() && self.here().is_word(tag)
    }
}

/// What is read, with the place behind it, or how reading fails.
pub type Got<T> = std::result::Result<(T, Cur), Failure>;

/// The failure that a parameter is not what is expected there.
pub open spec fn unlike(c: Cur, t: Tok, what: Seq<char>) -> Failure {
    Failure::Parse(t.line, c.owner + what + debug_of(t.text))
}

/// The next parameter, whatever it is.
pub open spec fn read_token(c: Cur) -> Got<Tok> {
    if c.more() {
        Ok((c.here(), c.step()))
    } else {
        Err(Failure::Parse(0, c.owner + ": unexpected end of parameters"@))
    }
}

/// The text of the next parameter with its escapes replaced.
pub open spec fn read_string(c: Cur) -> Got<Seq<char>> {
    match read_token(c) {
        Ok((t, n)) => Ok((unescaped(t.text), n)),
        Err(f) => Err(f),
    }
}

/// The text of the next parameter as it stands.
pub open spec fn read_ident(c: Cur) -> Got<Seq<char>> {
    match read_token(c) {
        Ok((t, n)) => Ok((t.text, n)),
        Err(f) => Err(f),
    }
}

/// An unsigned integer of at most the given value.
pub open spec fn read_uint(c: Cur, max: int) -> Got<int> {
    match read_token(c) {
        Ok((t, n)) => match uint_in(t.text, max) {
            Some(v) => Ok((v, n)),
            None => Err(unlike(c, t, ": expected unsigned integer, got "@)),
        },
        Err(f) => Err(f),
    }
}

/// An integer between two values.
pub open spec fn read_int(c: Cur, min: int, max: int) -> Got<int> {
    match read_token(c) {
        Ok((t, n)) => match int_in(t.text, min, max) {
            Some(v) => Ok((v, n)),
            None => Err(unlike(c, t, ": expected integer, got "@)),
        },
        Err(f) => Err(f),
    }
}

/// A floating-point number.
pub open spec fn read_float(c: Cur) -> Got<Num> {
    match read_token(c) {
        Ok((t, n)) => match t.number {
            Some(v) => Ok((v, n)),
            None => Err(unlike(c, t, ": expected number, got "@)),
        },
        Err(f) => Err(f),
    }
}

/// What the number at the cursor and the next one give together.
pub open spec fn joint_at(c: Cur) -> std::result::Result<JointNum, Failure> {
    match c.here().joint {
        Some(q) => Ok(q),
        None => Err(unlike(c, c.here(), ": expected number, got "@)),
    }
}

/// The given keyword.
pub open spec fn read_word(c: Cur, tag: Seq<char>) -> Got<()> {
    match read_token(c) {
        Ok((t, n)) => if t.is_word(tag) {
            Ok(((), n))
        } else {
            Err(Failure::Parse(
                t.line,
                c.owner + ": expected "@ + tag + ", got "@ + debug_of(t.text),
            ))
        },
        Err(f) => Err(f),
    }
}

/// Whether a text starts with the mark of a hexadecimal number.
pub open spec fn is_hex(s: Seq<char>) -> bool {
    s.len() >= 2 && s[0] == '0' && (s[1] == 'x' || s[1] == 'X')
}

/// The integer that a text stands for: digits behind an optional `+`, or, if a sign is
/// allowed, behind an optional `-`; in decimal, or in hexadecimal behind `0x`.
pub open spec fn integer(s: Seq<char>, signed: bool) -> Option<int> {
    let radix = if is_hex(s) { 16int } else { 10 };
    let body = if is_hex(s) { s.skip(2) } else { s };
    if body.len() > 0 && body[0] == '+' {
        magnitude(body.skip(1), radix)
    } else if signed && body.len() > 0 && body[0] == '-' {
        match magnitude(body.skip(1), radix) {
            Some(v) => Some(-v),
            None => None,
        }
    } else {
        magnitude(body, radix)
    }
}

/// The unsigned integer that a text stands for, if it is at most the given value.
pub open spec fn uint_in(s: Seq<char>, max: int) -> Option<int> {
    match integer(s, false) {
        Some(v) => if v <= max { Some(v) } else { None },
        None => None,
    }
}

/// The integer that a text stands for, if it is between the given values.
pub open spec fn int_in(s: Seq<char>, min: int, max: int) -> Option<int> {
    match integer(s, true) {
        Some(v) => if min <= v <= max { Some(v) } else { None },
        None => None,
    }
}

/// The sign and the magnitude of an integer, if a 64-bit integer holds the magnitude.
fn read_integer(text: &str, signed: bool) -> (r: Option<(bool, u64)>)
    ensures
        match r {
            Some((negative, v)) => {
                &&& integer(text@, signed) == Some(if negative { -(v as int) } else { v as int })
                &&& negative ==> signed
            },
            None => integer(text@, signed) matches Some(v) ==> v > u64::MAX || -v > u64::MAX,
        },
{
    let s = chars_of(text);
    let hex = s.len() >= 2 && s[0] == '0' && (s[1] == 'x' || s[1] == 'X');
    let radix: u64 = if hex { 16 } else { 10 };
    let start: usize = if hex { 2 } else { 0 };
    let ghost body = if hex { s@.skip(2) } else { s@ };
    proof {
        assert(s@.skip(0) =~= s@);
        assert(body =~= s@.skip(start as int));
        if start < s.len() {
            assert(body[0] == s@[start as int]);
            assert(body.skip(1) =~= s@.skip(start + 1));
        }
    }
    if start < s.len() && s[start] == '+' {
        match read_magnitude(&s, start + 1, radix) {
            Some(v) => Some((false, v)),
            None => None,
        }
    } else if signed && start < s.len() && s[start] == '-' {
        match read_magnitude(&s, start + 1, radix) {
            Some(v) => Some((true, v)),
            None => None,
        }
    } else {
        match read_magnitude(&s, start, radix) {
            Some(v) => Some((false, v)),
            None => None,
        }
    }
}

/// The unsigned integer that a text stands for, if it is at most `max`.
fn parse_uint(text: &str, max: u64) -> (r: Option<u64>)
    ensures
        match r {
            Some(v) => uint_in(text@, max as int) == Some(v as int) && v <= max,
            None => uint_in(text@, max as int) is None,
        },
{
    match read_integer(text, false) {
        Some((_, v)) => if v <= max {
            Some(v)
        } else {
            None
        },
        None => {
            proof {
                lemma_integer_sign(text@);
            }
            None
        },
    }
}

/// Without a sign an integer is not negative.
proof fn lemma_integer_sign(s: Seq<char>)
    ensures
        integer(s, false) matches Some(v) ==> v >= 0,
{
    let radix = if is_hex(s) { 16int } else { 10 };
    let body = if is_hex(s) { s.skip(2) } else { s };
    lemma_digits_grow(body, 0, radix);
    if body.len() > 0 {
        lemma_digits_grow(body.skip(1), 0, radix);
    }
}

/// The integer that a text stands for, if it is between `min` and `max`.
fn parse_int(text: &str, min: i64, max: i64) -> (r: Option<i64>)
    requires
        min < 0 <= max,
    ensures
        match r {
            Some(v) => int_in(text@, min as int, max as int) == Some(v as int) && min <= v <= max,
            None => int_in(text@, min as int, max as int) is None,
        },
{
    match read_integer(text, true) {
        Some((negative, v)) => if !negative {
            if v <= max as u64 {
                Some(v as i64)
            } else {
                None
            }
        } else if v == 0 {
            Some(0)
        } else {
            // The magnitude less one, so that the least integer has one too.
            let below: u64 = v - 1;
            let bound: u64 = (-(min + 1)) as u64;
            if below <= bound {
                Some(-(below as i64) - 1)
            } else {
                None
            }
        },
        None => None,
    }
}

/// Unsigned integer types that parameters are read as.
pub trait A2lUint: Sized {
    /// The greatest value of the type.
    spec fn greatest() -> int;

    /// The value as a mathematical integer.
    spec fn int_value(self) -> int;

    fn parse_a2l(s: &str) -> (r: Option<Self>)
        ensures
            match r {
                Some(v) => uint_in(s@, Self::greatest()) == Some(v.int_value()),
                None => uint_in(s@, Self::greatest()) is None,
            },
    ;
}

/// Signed integer types that parameters are read as.
pub trait A2lInt: Sized {
    /// The least value of the type.
    spec fn least() -> int;

    /// The greatest value of the type.
    spec fn greatest() -> int;

    /// The value as a mathematical integer.
    spec fn int_value(self) -> int;

    fn parse_a2l(s: &str) -> (r: Option<Self>)
        ensures
            match r {
                Some(v) => int_in(s@, Self::least(), Self::greatest()) == Some(v.int_value()),
                None => int_in(s@, Self::least(), Self::greatest()) is None,
            },
    ;
}

impl A2lUint for u8 {
    open spec fn greatest() -> int {
        u8::MAX as int
    }

    open spec fn int_value(self) -> int {
        self as int
    }

    fn parse_a2l(s: &str) -> (r: Option<u8>) {
        match parse_uint(s, u8::MAX as u64) {
            Some(v) => Some(v as u8),
            None => None,
        }
    }
}

impl A2lUint for u16 {
    open spec fn greatest() -> int {
        u16::MAX as int
    }

    open spec fn int_value(self) -> int {
        self as int
    }

    fn parse_a2l(s: &str) -> (r: Option<u16>) {
        match parse_uint(s, u16::MAX as u64) {
            Some(v) => Some(v as u16),
            None => None,
        }
    }
}

impl A2lUint for u32 {
    open spec fn greatest() -> int {
        u32::MAX as int
    }

    open spec fn int_value(self) -> int {
        self as int
    }

    fn parse_a2l(s: &str) -> (r: Option<u32>) {
        match parse_uint(s, u32::MAX as u64) {
            Some(v) => Some(v as u32),
            None => None,
        }
    }
}

impl A2lUint for u64 {
    open spec fn greatest() -> int {
        u64::MAX as int
    }

    open spec fn int_value(self) -> int {
        self as int
    }

    fn parse_a2l(s: &str) -> (r: Option<u64>) {
        match parse_uint(s, u64::MAX) {
            Some(v) => Some(v),
            None => None,
        }
    }
}

impl A2lUint for usize {
    open spec fn greatest() -> int {
        usize::MAX as int
    }

    open spec fn int_value(self) -> int {
        self as int
    }

    fn parse_a2l(s: &str) -> (r: Option<usize>) {
        match parse_uint(s, usize::MAX as u64) {
            Some(v) => Some(v as usize),
            None => None,
        }
    }
}

impl A2lInt for i8 {
    open spec fn least() -> int {
        i8::MIN as int
    }

    open spec fn greatest() -> int {
        i8::MAX as int
    }

    open spec fn int_value(self) -> int {
        self as int
    }

    fn parse_a2l(s: &str) -> (r: Option<i8>) {
        match parse_int(s, i8::MIN as i64, i8::MAX as i64) {
            Some(v) => Some(v as i8),
            None => None,
        }
    }
}

impl A2lInt for i16 {
    open spec fn least() -> int {
        i16::MIN as int
    }

    open spec fn greatest() -> int {
        i16::MAX as int
    }

    open spec fn int_value(self) -> int {
        self as int
    }

    fn parse_a2l(s: &str) -> (r: Option<i16>) {
        match parse_int(s, i16::MIN as i64, i16::MAX as i64) {
            Some(v) => Some(v as i16),
            None => None,
        }
    }
}

impl A2lInt for i32 {
    open spec fn least() -> int {
        i32::MIN as int
    }

    open spec fn greatest() -> int {
        i32::MAX as int
    }

    open spec fn int_value(self) -> int {
        self as int
    }

    fn parse_a2l(s: &str) -> (r: Option<i32>) {
        match parse_int(s, i32::MIN as i64, i32::MAX as i64) {
            Some(v) => Some(v as i32),
            None => None,
        }
    }
}

impl A2lInt for i64 {
    open spec fn least() -> int {
        i64::MIN as int
    }

    open spec fn greatest() -> int {
        i64::MAX as int
    }

    open spec fn int_value(self) -> int {
        self as int
    }

    fn parse_a2l(s: &str) -> (r: Option<i64>) {
        match parse_int(s, i64::MIN, i64::MAX) {
            Some(v) => Some(v),
            None => None,
        }
    }
}

/// Reads the parameters of a block one after the other.
pub struct ParamCursor<'a> {
    toks: Vec<&'a Token>,
    pos: usize,
    owner: &'a str,
}

impl<'a> View for ParamCursor<'a> {
    type V = Cur;

    closed spec fn view(&self) -> Cur {
        Cur { toks: token_views(self.toks@), pos: self.pos as int, owner: self.owner@ }
    }
}

impl<'a> ParamCursor<'a> {
    pub fn new(block: &'a Block) -> (r: Self)
        ensures
            r@ == Cur::start(block@),
    {
        ParamCursor { toks: block.params(), pos: 0, owner: block.keyword.as_str() }
    }

    pub fn is_empty(&self) -> (r: bool)
        ensures
            r == !self@.more(),
    {
        self.pos >= self.toks.len()
    }

    pub fn remaining(&self) -> (r: usize)
        ensures
            r == if self@.left() > 0 { self@.left() } else { 0 },
    {
        if self.pos < self.toks.len() {
            self.toks.len() - self.pos
        } else {
            0
        }
    }

    pub fn peek(&self) -> (r: Option<&'a Token>)
        ensures
            match r {
                Some(t) => self@.more() && t@ == self@.here(),
                None => !self@.more(),
            },
    {
        if self.pos < self.toks.len() {
            Some(self.toks[self.pos])
        } else {
            None
        }
    }

    pub fn next_token(&mut self) -> (r: Result<&'a Token>)
        ensures
            match r {
                Ok(t) => read_token(old(self)@) == Ok::<_, Failure>((t@, final(self)@)),
                Err(e) => read_token(old(self)@) == Err::<(Tok, Cur), _>(e@) && final(self)@
                    == old(self)@,
            },
    {
        if self.pos < self.toks.len() {
            let t = self.toks[self.pos];
            self.pos += 1;
            Ok(t)
        } else {
            let mut message = self.owner.to_string();
            message.append(": unexpected end of parameters");
            Err(Error::parse(0, message))
        }
    }

    /// Steps over the next parameter if it is the given keyword.
    pub fn take_if(&mut self, tag: &str) -> (r: bool)
        ensures
            r == old(self)@.at(tag@),
            final(self)@ == if r { old(self)@.step() } else { old(self)@ },
    {
        if self.pos < self.toks.len() {
            let t = self.toks[self.pos];
            if !t.quoted && eq_ignore_case(t.text.as_str(), tag) {
                self.pos += 1;
                return true;
            }
        }
        false
    }

    /// Steps over the next parameter, which must be the given keyword.
    pub fn expect(&mut self, tag: &str) -> (r: Result<()>)
        ensures
            match r {
                Ok(()) => read_word(old(self)@, tag@) == Ok::<_, Failure>(((), final(self)@)),
                Err(e) => {
                    &&& read_word(old(self)@, tag@) == Err::<((), Cur), _>(e@)
                    &&& final(self)@ == old(self)@.stepped()
                },
            },
    {
        let t = self.next_token()?;
        if !t.quoted && eq_ignore_case(t.text.as_str(), tag) {
            Ok(())
        } else {
            let mut message = self.owner.to_string();
            message.append(": expected ");
            message.append(tag);
            message.append(", got ");
            message.append(debug_text(t.text.as_str()).as_str());
            Err(Error::parse(t.line, message))
        }
    }

    /// The error that a parameter is not what is expected there.
    fn unexpected(&self, t: &Token, what: &str) -> (r: Error)
        ensures
            r@ == unlike(self@, t@, what@),
    {
        let mut message = self.owner.to_string();
        message.append(what);
        message.append(debug_text(t.text.as_str()).as_str());
        Error::parse(t.line, message)
    }

    /// The next parameter with its escapes replaced.
    pub fn string(&mut self) -> (r: Result<String>)
        ensures
            match r {
                Ok(v) => read_string(old(self)@) == Ok::<_, Failure>((v@, final(self)@)),
                Err(e) => {
                    &&& read_string(old(self)@) == Err::<(Seq<char>, Cur), _>(e@)
                    &&& final(self)@ == old(self)@.stepped()
                },
            },
    {
        let t = self.next_token()?;
        Ok(unescape_str(t.text.as_str()))
    }

    /// The next parameter as it stands.
    pub fn ident(&mut self) -> (r: Result<String>)
        ensures
            match r {
                Ok(v) => read_ident(old(self)@) == Ok::<_, Failure>((v@, final(self)@)),
                Err(e) => {
                    &&& read_ident(old(self)@) == Err::<(Seq<char>, Cur), _>(e@)
                    &&& final(self)@ == old(self)@.stepped()
                },
            },
    {
        let t = self.next_token()?;
        Ok(t.text.clone())
    }

    /// The next parameter as an unsigned integer.
    pub fn uint<T: A2lUint>(&mut self) -> (r: Result<T>)
        ensures
            match r {
                Ok(v) => read_uint(old(self)@, T::greatest()) == Ok::<_, Failure>(
                    (v.int_value(), final(self)@),
                ),
                Err(e) => {
                    &&& read_uint(old(self)@, T::greatest()) == Err::<(int, Cur), _>(e@)
                    &&& final(self)@ == old(self)@.stepped()
                },
            },
    {
        let t = self.next_token()?;
        match T::parse_a2l(t.text.as_str()) {
            Some(v) => Ok(v),
            None => Err(self.unexpected(t, ": expected unsigned integer, got ")),
        }
    }

    /// The next parameter as an integer.
    pub fn sint<T: A2lInt>(&mut self) -> (r: Result<T>)
        ensures
            match r {
                Ok(v) => read_int(old(self)@, T::least(), T::greatest()) == Ok::<_, Failure>(
                    (v.int_value(), final(self)@),
                ),
                Err(e) => {
                    &&& read_int(old(self)@, T::least(), T::greatest()) == Err::<(int, Cur), _>(e@)
                    &&& final(self)@ == old(self)@.stepped()
                },
            },
    {
        let t = self.next_token()?;
        match T::parse_a2l(t.text.as_str()) {
            Some(v) => Ok(v),
            None => Err(self.unexpected(t, ": expected integer, got ")),
        }
    }

    /// What the number of a parameter and the next one give together.
    pub(crate) fn joint(&self, t: &Token) -> (r: Result<Joint>)
        ensures
            match r {
                Ok(q) => t@.joint == Some(q@),
                Err(e) => t@.joint is None && e@ == unlike(self@, t@, ": expected number, got "@),
            },
    {
        match &t.joint {
            Some(q) => Ok(q.clone()),
            None => Err(self.unexpected(t, ": expected number, got ")),
        }
    }

    /// The next parameter as a floating-point number.
    pub fn float(&mut self) -> (r: Result<Number>)
        ensures
            match r {
                Ok(v) => read_float(old(self)@) == Ok::<_, Failure>((v@, final(self)@)),
                Err(e) => {
                    &&& read_float(old(self)@) == Err::<(Num, Cur), _>(e@)
                    &&& final(self)@ == old(self)@.stepped()
                },
            },
    {
        let t = self.next_token()?;
        match &t.number {
            Some(v) => Ok(v.clone()),
            None => Err(self.unexpected(t, ": expected number, got ")),
        }
    }
}

/// An integer reads back from its decimal form.
pub proof fn law_integer_of_dec(n: int)
    ensures
        integer(dec_int(n), true) == Some(n),
        n >= 0 ==> integer(dec_int(n), false) == Some(n),
{
    if n < 0 {
        let d = dec((-n) as nat);
        law_magnitude_of_dec((-n) as nat);
        let s = dec_int(n);
        assert(s[0] == '-');
        assert(s.skip(1) =~= d);
    } else {
        law_magnitude_of_dec(n as nat);
        let s = dec_int(n);
        assert(s[0] != '+' && s[0] != '-');
        if s.len() >= 2 {
            assert(s[1] != 'x' && s[1] != 'X');
        }
    }
}

/// An integer reads back from its hexadecimal form.
pub proof fn law_integer_of_hex(n: nat)
    ensures
        integer("0x"@ + hex(n), true) == Some(n as int),
        integer("0x"@ + hex(n), false) == Some(n as int),
{
    reveal_strlit("0x");
    law_magnitude_of_hex(n);
    let s = "0x"@ + hex(n);
    assert(s[0] == '0' && s[1] == 'x');
    assert(s.skip(2) =~= hex(n));
    assert(hex(n)[0] != '+' && hex(n)[0] != '-');
}

} // verus!
