//! Comparison and binary operations.
use vstd::prelude::*;
use super::{Parse, ParseError};
use crate::text::{equals, has_prefix, skip_chars, starts_with};

verus! {

/// A binary operation.
///
/// Context-free grammar:
///
/// ```txt
/// BinOp = CmpOp
///       | '&&'
///       | '||'
/// ```
///
/// Only the comparison operations have a variant; `&&` and `||` are not
/// read.
#[derive(Clone, Debug, PartialEq, Eq)]
pub enum BinOp {
    CmpOp(CmpOp),
}

impl View for BinOp {
    type V = BinOp;

    open spec fn view(&self) -> BinOp {
        *self
    }
}

/// What parsing `input` as a binary operation gives: a comparison operation.
pub open spec fn bin_op_outcome(input: Seq<char>) -> Result<(BinOp, Seq<char>), ParseError> {
    match cmp_op_outcome(input) {
        Ok((op, rest)) => Ok((BinOp::CmpOp(op), rest)),
        Err(e) => Err(e),
    }
}

/// A binary operation consumes at least one character.
pub proof fn lemma_bin_op_consumes(input: Seq<char>)
    ensures
        bin_op_outcome(input) matches Ok((_, rest)) ==> rest.len() < input.len(),
{
    CmpOp::lemma_texts();
}

impl<'a> Parse<'a> for BinOp {
    open spec fn admits(input: Seq<char>) -> bool {
        true
    }

    open spec fn outcome(input: Seq<char>) -> Result<(BinOp, Seq<char>), ParseError> {
        bin_op_outcome(input)
    }

    open spec fn consumes() -> bool {
        true
    }

    proof fn lemma_rest_len(input: Seq<char>) {
        lemma_bin_op_consumes(input);
    }

    fn parse(s: &'a str) -> (r: Result<(BinOp, &'a str), ParseError>) {
        match CmpOp::parse(s) {
            Ok((op, rest)) => Ok((BinOp::CmpOp(op), rest)),
            Err(e) => Err(e),
        }
    }
}

/// Comparison operation.
#[derive(Clone, Copy, Debug, PartialEq, Eq)]
pub enum CmpOp {
    /// `==`.
    Eq,
    /// `!=`.
    Ne,
    /// `<`.
    Lt,
    /// `<=`.
    LtEq,
    /// `>`.
    Gt,
    /// `>=`.
    GtEq,
}

impl View for CmpOp {
    type V = CmpOp;

    open spec fn view(&self) -> CmpOp {
        *self
    }
}

/// What parsing `input` as a comparison operation gives: the longest
/// operator that `input` begins with, so `<=` is `LtEq`, not `Lt`.
pub open spec fn cmp_op_outcome(input: Seq<char>) -> Result<(CmpOp, Seq<char>), ParseError> {
    if has_prefix(input, "=="@) {
        Ok((CmpOp::Eq, input.skip(2)))
    } else if has_prefix(input, "!="@) {
        Ok((CmpOp::Ne, input.skip(2)))
    } else if has_prefix(input, "<="@) {
        Ok((CmpOp::LtEq, input.skip(2)))
    } else if has_prefix(input, "<"@) {
        Ok((CmpOp::Lt, input.skip(1)))
    } else if has_prefix(input, ">="@) {
        Ok((CmpOp::GtEq, input.skip(2)))
    } else if has_prefix(input, ">"@) {
        Ok((CmpOp::Gt, input.skip(1)))
    } else {
        Err(ParseError::CmpOp)
    }
}

impl CmpOp {
    /// The operator as written.
    pub open spec fn text(self) -> Seq<char> {
        match self {
            CmpOp::Eq => "=="@,
            CmpOp::Ne => "!="@,
            CmpOp::Lt => "<"@,
            CmpOp::LtEq => "<="@,
            CmpOp::Gt => ">"@,
            CmpOp::GtEq => ">="@,
        }
    }

    /// The characters of each operator's text.
    pub proof fn lemma_texts()
        ensures
            "=="@ == seq!['=', '='],
            "!="@ == seq!['!', '='],
            "<"@ == seq!['<'],
            "<="@ == seq!['<', '='],
            ">"@ == seq!['>'],
            ">="@ == seq!['>', '='],
    {
        reveal_strlit("==");
        reveal_strlit("!=");
        reveal_strlit("<");
        reveal_strlit("<=");
        reveal_strlit(">");
        reveal_strlit(">=");
        assert("=="@ =~= seq!['=', '=']);
        assert("!="@ =~= seq!['!', '=']);
        assert("<"@ =~= seq!['<']);
        assert("<="@ =~= seq!['<', '=']);
        assert(">"@ =~= seq!['>']);
        assert(">="@ =~= seq!['>', '=']);
    }

    /// The operator that `s` is exactly, or `Err(())` if it is none.
    pub fn from_str(s: &str) -> (r: Result<CmpOp, ()>)
        ensures
            r matches Ok(op) ==> op.text() == s@,
            r is Err ==> forall|op: CmpOp| #[trigger] op.text() != s@,
    {
        proof {
            CmpOp::lemma_texts();
        }
        if equals(s, "==") {
            Ok(CmpOp::Eq)
        } else if equals(s, "!=") {
            Ok(CmpOp::Ne)
        } else if equals(s, "<") {
            Ok(CmpOp::Lt)
        } else if equals(s, "<=") {
            Ok(CmpOp::LtEq)
        } else if equals(s, ">") {
            Ok(CmpOp::Gt)
        } else if equals(s, ">=") {
            Ok(CmpOp::GtEq)
        } else {
            Err(())
        }
    }

    /// The operator as written.
    pub fn as_str(&self) -> (r: &'static str)
        ensures
            r@ == self.text(),
    {
        match self {
            CmpOp::Eq => "==",
            CmpOp::Ne => "!=",
            CmpOp::Lt => "<",
            CmpOp::LtEq => "<=",
            CmpOp::Gt => ">",
            CmpOp::GtEq => ">=",
        }
    }
}

impl core::str::FromStr for CmpOp {
    type Err = ();

    fn from_str(s: &str) -> Result<Self, Self::Err> {
        CmpOp::from_str(s)
    }
}

impl<'a> Parse<'a> for CmpOp {
    open spec fn admits(input: Seq<char>) -> bool {
        true
    }

    open spec fn outcome(input: Seq<char>) -> Result<(CmpOp, Seq<char>), ParseError> {
        cmp_op_outcome(input)
    }

    open spec fn consumes() -> bool {
        true
    }

    proof fn lemma_rest_len(input: Seq<char>) {
        CmpOp::lemma_texts();
    }

    fn parse(s: &'a str) -> (r: Result<(CmpOp, &'a str), ParseError>) {
        proof {
            CmpOp::lemma_texts();
        }
        if starts_with(s, "==") {
            Ok((CmpOp::Eq, skip_chars(s, 2)))
        } else if starts_with(s, "!=") {
            Ok((CmpOp::Ne, skip_chars(s, 2)))
        } else if starts_with(s, "<=") {
            Ok((CmpOp::LtEq, skip_chars(s, 2)))
        } else if starts_with(s, "<") {
            Ok((CmpOp::Lt, skip_chars(s, 1)))
        } else if starts_with(s, ">=") {
            Ok((CmpOp::GtEq, skip_chars(s, 2)))
        } else if starts_with(s, ">") {
            Ok((CmpOp::Gt, skip_chars(s, 1)))
        } else {
            Err(ParseError::CmpOp)
        }
    }
}

} // verus!
