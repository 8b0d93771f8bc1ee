//! Parsing of assertion attributes.
//!
//! Context-free grammar:
//!
//! ```txt
//! Attr = List<Assert>
//!
//! List<T> = T
//!         | T ,
//!         | T , List<T>
//!
//! Assert = Cond
//!        | impl_all ( List<Trait> )
//!        | impl_any ( List<Trait> )
//!        | ! impl_all ( List<Trait> )
//!        | ! impl_any ( List<Trait> )
//!
//! Trait = Code
//!
//! Code = <&str>
//!
//! Cond = <bool>
//!      | ( Cond )
//!      | ! Cond
//!      | MemProp CmpOp <usize>
//!      | Cond BinOp Cond
//!
//! MemProp = 'size'
//!         | 'align'
//!
//! BinOp = CmpOp
//!       | '&&'
//!       | '||'
//!
//! CmpOp = '=='
//!       | '!='
//!       | '<'
//!       | '<='
//!       | '>'
//!       | '>='
//! ```
//!
//! `Attr`, `Assert` and `Trait` are the shapes that an attribute takes; the
//! parsers here read its parts: conditions, memory properties, operators,
//! integers, booleans, lists and parenthesized items.
//!
//! White space between the tokens of a list, a parenthesized item or a
//! condition is skipped. In a condition, `!` applies to the term right after
//! it, and `Cond BinOp Cond` takes the term on the left and the whole
//! condition on the right, so operators group to the right.

use vstd::prelude::*;
use vstd::std_specs::convert::FromSpecImpl;
use core::num::ParseIntError;
use crate::text::{has_prefix, lemma_trim_start_len, skip_chars, starts_with, take_chars, trim_start, trim_start_of};

pub mod generic;
pub mod op;

pub use self::generic::{List, Paren};
pub use self::op::{BinOp, CmpOp};
use self::op::{bin_op_outcome, cmp_op_outcome, lemma_bin_op_consumes};

verus! {

/// std's `ParseIntError`, carried inside `ParseError::Int`.
#[verifier::external_type_specification]
#[verifier::external_body]
pub struct ExParseIntError(ParseIntError);

/// The view of a parse result: the view of the parsed value with the
/// characters left over, or the error.
pub open spec fn outcome_view<T: View>(r: Result<(T, &str), ParseError>) -> Result<(T::V, Seq<char>), ParseError> {
    match r {
        Ok((value, rest)) => Ok((value@, rest@)),
        Err(e) => Err(e),
    }
}

/// A type that can be parsed from a string slice.
///
/// An implementer is not expected to trim leading white space: callers pass a
/// pre-trimmed string, which lets each syntax option be tried cheaply.
pub trait Parse<'a>: Sized + View + 'a {
    /// Whether `parse` may be given `input`: what the inner items of a list or
    /// a parenthesized item ask.
    spec fn admits(input: Seq<char>) -> bool;

    /// What parsing `input` gives: the view of the parsed value and the
    /// unconsumed rest of the input, or an error.
    spec fn outcome(input: Seq<char>) -> Result<(Self::V, Seq<char>), ParseError>;

    /// Whether every successful parse consumes at least one character.
    spec fn consumes() -> bool;

    /// A successful parse never leaves more than it was given, and leaves
    /// less when the type consumes.
    proof fn lemma_rest_len(input: Seq<char>)
        requires
            Self::outcome(input) is Ok,
        ensures
            Self::outcome(input)->Ok_0.1.len() <= input.len(),
            Self::consumes() ==> Self::outcome(input)->Ok_0.1.len() < input.len(),
    ;

    /// Attempts to parse the beginning of `input`, consuming it. Returns the
    /// parsed value and the unconsumed remainder of `input`, or an error if
    /// `Self` can't be parsed from `input`.
    fn parse(input: &'a str) -> (r: Result<(Self, &'a str), ParseError>)
        requires
            Self::admits(input@),
        ensures
            outcome_view(r) == Self::outcome(input@),
    ;
}

/// The error returned when `Parse::parse` fails.
#[derive(Clone, Debug, PartialEq, Eq)]
pub enum ParseError {
    /// The string is empty. This includes whitespace-only strings.
    Empty,
    /// Failed to parse a memory property (e.g. `size`, `align`).
    MemProp,
    /// Failed to parse a comparison operation.
    CmpOp,
    /// Failed to parse a boolean condition.
    Cond,
    /// Failed to find an opening or closing parenthesis.
    Paren,
    /// Failed to parse a boolean literal.
    Bool,
    /// Failed to parse an integer.
    Int(Option<ParseIntError>),
}

impl From<ParseIntError> for ParseError {
    fn from(error: ParseIntError) -> (r: Self)
        ensures
            r == ParseError::Int(Some(error)),
    {
        ParseError::Int(Some(error))
    }
}

impl FromSpecImpl<ParseIntError> for ParseError {
    open spec fn obeys_from_spec() -> bool {
        true
    }

    open spec fn from_spec(error: ParseIntError) -> ParseError {
        ParseError::Int(Some(error))
    }
}

// Empty value
impl<'a> Parse<'a> for () {
    open spec fn admits(input: Seq<char>) -> bool {
        true
    }

    open spec fn outcome(input: Seq<char>) -> Result<((), Seq<char>), ParseError> {
        Ok(((), input))
    }

    open spec fn consumes() -> bool {
        false
    }

    proof fn lemma_rest_len(input: Seq<char>) {
    }

    fn parse(s: &'a str) -> (r: Result<((), &'a str), ParseError>) {
        Ok(((), s))
    }
}

/// An "attribute"; actually the input that goes inside `#[assert(...)]`.
///
/// Context-free grammar:
///
/// ```txt
/// Attr = List<Assert>
/// ```
pub type Attr<'a> = List<Assert<'a>>;

/// An assertion.
pub enum Assert<'a> {
    Cond(Cond),
    ImplAll(List<Trait<'a>>),
    ImplAny(List<Trait<'a>>),
    NotImplAll(List<Trait<'a>>),
    NotImplAny(List<Trait<'a>>),
}

/// A trait, as the code that names it.
pub struct Trait<'a>(pub &'a str);

/// A memory property.
#[derive(Clone, Copy, Debug, PartialEq, Eq)]
pub enum MemProp {
    /// `size`.
    Size,
    /// `align`.
    Align,
}

impl View for MemProp {
    type V = MemProp;

    open spec fn view(&self) -> MemProp {
        *self
    }
}

/// What parsing `input` as a memory property gives.
pub open spec fn mem_prop_outcome(input: Seq<char>) -> Result<(MemProp, Seq<char>), ParseError> {
    if has_prefix(input, "size"@) {
        Ok((MemProp::Size, input.skip(4)))
    } else if has_prefix(input, "align"@) {
        Ok((MemProp::Align, input.skip(5)))
    } else {
        Err(ParseError::MemProp)
    }
}

impl<'a> Parse<'a> for MemProp {
    open spec fn admits(input: Seq<char>) -> bool {
        true
    }

    open spec fn outcome(input: Seq<char>) -> Result<(MemProp, Seq<char>), ParseError> {
        mem_prop_outcome(input)
    }

    open spec fn consumes() -> bool {
        true
    }

    proof fn lemma_rest_len(input: Seq<char>) {
        reveal_strlit("size");
        reveal_strlit("align");
    }

    fn parse(s: &'a str) -> (r: Result<(MemProp, &'a str), ParseError>) {
        proof {
            reveal_strlit("size");
            reveal_strlit("align");
        }
        if starts_with(s, "size") {
            Ok((MemProp::Size, skip_chars(s, 4)))
        } else if starts_with(s, "align") {
            Ok((MemProp::Align, skip_chars(s, 5)))
        } else {
            Err(ParseError::MemProp)
        }
    }
}

/// What parsing `input` as a boolean literal gives.
pub open spec fn bool_outcome(input: Seq<char>) -> Result<(bool, Seq<char>), ParseError> {
    if has_prefix(input, "true"@) {
        Ok((true, input.skip(4)))
    } else if has_prefix(input, "false"@) {
        Ok((false, input.skip(5)))
    } else {
        Err(ParseError::Bool)
    }
}

impl<'a> Parse<'a> for bool {
    open spec fn admits(input: Seq<char>) -> bool {
        true
    }

    open spec fn outcome(input: Seq<char>) -> Result<(bool, Seq<char>), ParseError> {
        bool_outcome(input)
    }

    open spec fn consumes() -> bool {
        true
    }

    proof fn lemma_rest_len(input: Seq<char>) {
        reveal_strlit("true");
        reveal_strlit("false");
    }

    fn parse(s: &'a str) -> (r: Result<(bool, &'a str), ParseError>) {
        proof {
            reveal_strlit("true");
            reveal_strlit("false");
        }
        if starts_with(s, "true") {
            Ok((true, skip_chars(s, 4)))
        } else if starts_with(s, "false") {
            Ok((false, skip_chars(s, 5)))
        } else {
            Err(ParseError::Bool)
        }
    }
}

/// Whether `c` is an ASCII decimal digit.
pub open spec fn is_digit(c: char) -> bool {
    '0' <= c <= '9'
}

/// The number of decimal digits that `s` begins with.
pub open spec fn digit_run(s: Seq<char>) -> nat
    decreases s.len(),
{
    if s.len() > 0 && is_digit(s[0]) {
        1 + digit_run(s.drop_first())
    } else {
        0
    }
}

/// The value of the decimal numeral `s`, most significant digit first.
pub open spec fn decimal_value(s: Seq<char>) -> nat
    decreases s.len(),
{
    if s.len() == 0 {
        0
    } else {
        decimal_value(s.drop_last()) * 10 + (s.last() as nat - '0' as nat) as nat
    }
}

/// The error that `str::parse::<usize>` gives for the string `s`.
pub uninterp spec fn int_error_of(s: Seq<char>) -> ParseIntError;

/// What parsing `input` as an integer gives.
///
/// The digits that `input` begins with are read as a decimal numeral, and
/// what follows them is left unconsumed. Empty input is refused with
/// `Int(None)`; a numeral that is empty (input that begins with a non-digit)
/// or does not fit in `usize` is refused with the error that reading it gave.
pub open spec fn usize_outcome(input: Seq<char>) -> Result<(usize, Seq<char>), ParseError> {
    let k = digit_run(input);
    let digits = input.take(k as int);
    if input.len() == 0 {
        Err(ParseError::Int(None))
    } else if k > 0 && decimal_value(digits) <= usize::MAX {
        Ok((decimal_value(digits) as usize, input.skip(k as int)))
    } else {
        Err(ParseError::Int(Some(int_error_of(digits))))
    }
}

/// Relies on `str::parse::<usize>`: a string of decimal digits is read as its
/// value; it is refused when it is empty or its value does not fit in `usize`,
/// and the error depends on the string alone.
#[verifier::external_body]
fn parse_decimal(s: &str) -> (r: Result<usize, ParseIntError>)
    requires
        forall|i: int| 0 <= i < s@.len() ==> is_digit(s@[i]),
    ensures
        r is Ok <==> (s@.len() > 0 && decimal_value(s@) <= usize::MAX),
        r is Ok ==> r->Ok_0 == decimal_value(s@),
        r is Err ==> r->Err_0 == int_error_of(s@),
{
    s.parse::<usize>()
}

/// The leading digits are no more than the whole input.
proof fn lemma_digit_run_bound(s: Seq<char>)
    ensures
        digit_run(s) <= s.len(),
    decreases s.len(),
{
    if s.len() > 0 {
        lemma_digit_run_bound(s.drop_first());
    }
}

/// A prefix of digits followed by a non-digit, or by the end, is the digit run.
proof fn lemma_digit_run(s: Seq<char>, i: int)
    requires
        0 <= i <= s.len(),
        forall|j: int| 0 <= j < i ==> is_digit(s[j]),
        i == s.len() || !is_digit(s[i]),
    ensures
        digit_run(s) == i,
    decreases i,
{
    if i > 0 {
        lemma_digit_run(s.drop_first(), i - 1);
    }
}

impl<'a> Parse<'a> for usize {
    open spec fn admits(input: Seq<char>) -> bool {
        true
    }

    open spec fn outcome(input: Seq<char>) -> Result<(usize, Seq<char>), ParseError> {
        usize_outcome(input)
    }

    open spec fn consumes() -> bool {
        true
    }

    proof fn lemma_rest_len(input: Seq<char>) {
        lemma_digit_run_bound(input);
    }

    fn parse(s: &'a str) -> (r: Result<(usize, &'a str), ParseError>) {
        let len = s.unicode_len();
        if len == 0 {
            return Err(ParseError::Int(None));
        }
        let mut last: usize = 0;
        while last < len && is_digit_char(s.get_char(last))
            invariant
                last <= len,
                len == s@.len(),
                forall|j: int| 0 <= j < last ==> is_digit(s@[j]),
            decreases len - last,
        {
            last += 1;
        }
        proof {
            lemma_digit_run(s@, last as int);
        }
        let start = take_chars(s, last);
        let end = skip_chars(s, last);
        match parse_decimal(start) {
            Ok(value) => Ok((value, end)),
            Err(error) => Err(ParseError::from(error)),
        }
    }
}

/// Whether `c` is an ASCII decimal digit.
fn is_digit_char(c: char) -> (r: bool)
    ensures
        r == is_digit(c),
{
    '0' <= c && c <= '9'
}

/// A boolean condition.
///
/// Context-free grammar:
///
/// ```txt
/// Cond = <bool>
///      | ( Cond )
///      | ! Cond
///      | MemProp CmpOp <usize>
///      | Cond BinOp Cond
/// ```
#[derive(Debug, PartialEq, Eq)]
pub enum Cond {
    /// A boolean literal; `true` or `false`.
    Bool(bool),
    /// A memory property comparison.
    MemPropCmp(MemProp, CmpOp, usize),
    /// A parenthesized condition.
    Paren(Box<Cond>),
    /// A negated condition.
    Neg(Box<Cond>),
    /// Two conditions joined by an operation.
    BinOp(Box<Cond>, BinOp, Box<Cond>),
}

impl Clone for Cond {
    fn clone(&self) -> (r: Cond)
        ensures
            r == *self,
    {
        clone_cond(self)
    }
}

/// A copy of `c`, built node by node.
fn clone_cond(c: &Cond) -> (r: Cond)
    ensures
        r == *c,
    decreases c,
{
    match c {
        Cond::Bool(value) => Cond::Bool(*value),
        Cond::MemPropCmp(prop, op, n) => Cond::MemPropCmp(*prop, *op, *n),
        Cond::Paren(inner) => Cond::Paren(Box::new(clone_cond(inner))),
        Cond::Neg(inner) => Cond::Neg(Box::new(clone_cond(inner))),
        Cond::BinOp(left, BinOp::CmpOp(op), right) => Cond::BinOp(
            Box::new(clone_cond(left)),
            BinOp::CmpOp(*op),
            Box::new(clone_cond(right)),
        ),
    }
}

impl View for Cond {
    type V = Cond;

    open spec fn view(&self) -> Cond {
        *self
    }
}

/// What reading one term of a condition from `input` gives: a boolean
/// literal, a parenthesized condition, a negated term, or a memory property
/// compared with an integer. Input that begins with none of these is refused
/// with `ParseError::Cond`; inside a term, the error of the part that failed
/// is passed on.
///
/// (Each term consumes a character before it reads an inner part; the
/// length tests only let Verus see that the recursion ends.)
pub open spec fn cond_term_outcome(input: Seq<char>) -> Result<(Cond, Seq<char>), ParseError>
    decreases input.len(), 0nat,
{
    if let Ok((value, rest)) = bool_outcome(input) {
        Ok((Cond::Bool(value), rest))
    } else if has_prefix(input, "("@) {
        let inner = trim_start_of(input.skip(1));
        if inner.len() < input.len() {
            match cond_outcome(inner) {
                Ok((cond, rest)) => {
                    let after = trim_start_of(rest);
                    if has_prefix(after, ")"@) {
                        Ok((Cond::Paren(Box::new(cond)), after.skip(1)))
                    } else {
                        Err(ParseError::Paren)
                    }
                },
                Err(e) => Err(e),
            }
        } else {
            Err(ParseError::Cond)
        }
    } else if has_prefix(input, "!"@) {
        let inner = trim_start_of(input.skip(1));
        if inner.len() < input.len() {
            match cond_term_outcome(inner) {
                Ok((cond, rest)) => Ok((Cond::Neg(Box::new(cond)), rest)),
                Err(e) => Err(e),
            }
        } else {
            Err(ParseError::Cond)
        }
    } else if let Ok((prop, rest1)) = mem_prop_outcome(input) {
        match cmp_op_outcome(trim_start_of(rest1)) {
            Ok((op, rest2)) => match usize_outcome(trim_start_of(rest2)) {
                Ok((n, rest3)) => Ok((Cond::MemPropCmp(prop, op, n), rest3)),
                Err(e) => Err(e),
            },
            Err(e) => Err(e),
        }
    } else {
        Err(ParseError::Cond)
    }
}

/// What parsing `input` as a condition gives: a term, and when a binary
/// operation and a condition follow it, that operation joining the term and
/// that condition. When no condition can be read after the operation, the
/// term alone is the result and the operation is left unread.
pub open spec fn cond_outcome(input: Seq<char>) -> Result<(Cond, Seq<char>), ParseError>
    decreases input.len(), 1nat,
{
    match cond_term_outcome(input) {
        Ok((left, rest)) => match bin_op_outcome(trim_start_of(rest)) {
            Ok((op, rest2)) => {
                let right_input = trim_start_of(rest2);
                if right_input.len() < input.len() {
                    match cond_outcome(right_input) {
                        Ok((right, rest3)) => Ok(
                            (Cond::BinOp(Box::new(left), op, Box::new(right)), rest3),
                        ),
                        Err(_) => Ok((left, rest)),
                    }
                } else {
                    Ok((left, rest))
                }
            },
            Err(_) => Ok((left, rest)),
        },
        Err(e) => Err(e),
    }
}

/// Each term and each condition consumes at least one character.
pub proof fn lemma_cond_shrinks(input: Seq<char>)
    ensures
        cond_term_outcome(input) matches Ok((_, rest)) ==> rest.len() < input.len(),
        cond_outcome(input) matches Ok((_, rest)) ==> rest.len() < input.len(),
    decreases input.len(),
{
    reveal_strlit("true");
    reveal_strlit("false");
    reveal_strlit("size");
    reveal_strlit("align");
    reveal_strlit("(");
    reveal_strlit(")");
    reveal_strlit("!");
    CmpOp::lemma_texts();
    lemma_trim_start_len(input.skip(1));
    let inner = trim_start_of(input.skip(1));
    if input.len() > 0 && inner.len() < input.len() {
        lemma_cond_shrinks(inner);
        if let Ok((_, rest)) = cond_outcome(inner) {
            lemma_trim_start_len(rest);
        }
        if let Ok((_, rest)) = cond_term_outcome(inner) {
            assert(rest.len() < inner.len());
        }
    }
    if let Ok((_, rest1)) = mem_prop_outcome(input) {
        lemma_trim_start_len(rest1);
        if let Ok((_, rest2)) = cmp_op_outcome(trim_start_of(rest1)) {
            lemma_trim_start_len(rest2);
            lemma_digit_run_bound(trim_start_of(rest2));
        }
    }
    if let Ok((_, rest)) = cond_term_outcome(input) {
        lemma_trim_start_len(rest);
        if let Ok((_, rest2)) = bin_op_outcome(trim_start_of(rest)) {
            lemma_trim_start_len(rest2);
            let right_input = trim_start_of(rest2);
            if right_input.len() < input.len() {
                lemma_cond_shrinks(right_input);
            }
        }
    }
}

/// Reads one term of a condition.
fn parse_cond_term<'a>(s: &'a str) -> (r: Result<(Cond, &'a str), ParseError>)
    ensures
        outcome_view(r) == cond_term_outcome(s@),
    decreases s@.len(), 0nat,
{
    proof {
        reveal_strlit("(");
        reveal_strlit(")");
        reveal_strlit("!");
        lemma_trim_start_len(s@.skip(1));
    }
    if let Ok((value, rest)) = bool::parse(s) {
        return Ok((Cond::Bool(value), rest));
    }
    if starts_with(s, "(") {
        let inner = trim_start(skip_chars(s, 1));
        let (cond, rest) = match parse_cond(inner) {
            Ok(parsed) => parsed,
            Err(e) => return Err(e),
        };
        let after = trim_start(rest);
        if starts_with(after, ")") {
            Ok((Cond::Paren(Box::new(cond)), skip_chars(after, 1)))
        } else {
            Err(ParseError::Paren)
        }
    } else if starts_with(s, "!") {
        let inner = trim_start(skip_chars(s, 1));
        match parse_cond_term(inner) {
            Ok((cond, rest)) => Ok((Cond::Neg(Box::new(cond)), rest)),
            Err(e) => Err(e),
        }
    } else if let Ok((prop, rest1)) = MemProp::parse(s) {
        let (op, rest2) = match CmpOp::parse(trim_start(rest1)) {
            Ok(parsed) => parsed,
            Err(e) => return Err(e),
        };
        match <usize as Parse>::parse(trim_start(rest2)) {
            Ok((n, rest3)) => Ok((Cond::MemPropCmp(prop, op, n), rest3)),
            Err(e) => Err(e),
        }
    } else {
        Err(ParseError::Cond)
    }
}

/// Reads a condition.
fn parse_cond<'a>(s: &'a str) -> (r: Result<(Cond, &'a str), ParseError>)
    ensures
        outcome_view(r) == cond_outcome(s@),
    decreases s@.len(), 1nat,
{
    proof {
        lemma_cond_shrinks(s@);
    }
    let (left, rest) = match parse_cond_term(s) {
        Ok(parsed) => parsed,
        Err(e) => return Err(e),
    };
    proof {
        lemma_trim_start_len(rest@);
    }
    match BinOp::parse(trim_start(rest)) {
        Ok((op, rest2)) => {
            proof {
                lemma_trim_start_len(rest2@);
                lemma_bin_op_consumes(trim_start_of(rest@));
            }
            match parse_cond(trim_start(rest2)) {
                Ok((right, rest3)) => Ok((Cond::BinOp(Box::new(left), op, Box::new(right)), rest3)),
                Err(_) => Ok((left, rest)),
            }
        },
        Err(_) => Ok((left, rest)),
    }
}

impl<'a> Parse<'a> for Cond {
    open spec fn admits(input: Seq<char>) -> bool {
        true
    }

    open spec fn outcome(input: Seq<char>) -> Result<(Cond, Seq<char>), ParseError> {
        cond_outcome(input)
    }

    open spec fn consumes() -> bool {
        true
    }

    proof fn lemma_rest_len(input: Seq<char>) {
        lemma_cond_shrinks(input);
    }

    fn parse(s: &'a str) -> (r: Result<(Cond, &'a str), ParseError>) {
        parse_cond(s)
    }
}

} // verus!
