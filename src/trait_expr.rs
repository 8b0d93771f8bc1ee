//! Logical trait expressions: which traits a type must or must not implement,
//! combined with `!`, `&`, `|` and `^`.
//!
//! An expression is read from tokens as the assertion macros read it. `!`
//! binds to the term right after it; a binary operator takes the term on its
//! left and everything on its right, so the operators have no precedence
//! among themselves and group to the right: `A & B | C` is `A & (B | C)`.
//! Parentheses group as usual.
//!
//! A type is described by the names of the traits it implements, and an
//! expression is evaluated against those names.
use vstd::prelude::*;

verus! {

/// A token of a logical trait expression.
#[derive(Debug, PartialEq, Eq)]
pub enum Token {
    /// `!`
    Not,
    /// `&`
    And,
    /// `|`
    Or,
    /// `^`
    Xor,
    /// `(`
    Open,
    /// `)`
    Close,
    /// A trait, by its path.
    Trait(String),
}

/// A parsed logical trait expression.
#[derive(Debug, PartialEq, Eq)]
pub enum TraitExpr {
    /// The type implements the named trait.
    Trait(String),
    /// The inner expression does not hold.
    Not(Box<TraitExpr>),
    /// Both hold.
    And(Box<TraitExpr>, Box<TraitExpr>),
    /// At least one holds.
    Or(Box<TraitExpr>, Box<TraitExpr>),
    /// Exactly one holds.
    Xor(Box<TraitExpr>, Box<TraitExpr>),
}

/// Whether `t` is a binary operator.
pub open spec fn is_op(t: Token) -> bool {
    t is And || t is Or || t is Xor
}

/// The expression that the binary operator `op` makes of `left` and `right`.
pub open spec fn combine(op: Token, left: TraitExpr, right: TraitExpr) -> TraitExpr {
    match op {
        Token::And => TraitExpr::And(Box::new(left), Box::new(right)),
        Token::Or => TraitExpr::Or(Box::new(left), Box::new(right)),
        _ => TraitExpr::Xor(Box::new(left), Box::new(right)),
    }
}

/// Reads one term from the front of `ts`: a trait, a negated term, or a
/// parenthesized expression. Gives the term and the tokens after it.
pub open spec fn parse_term(ts: Seq<Token>) -> Option<(TraitExpr, Seq<Token>)>
    decreases ts.len(), 0nat,
{
    if ts.len() == 0 {
        None
    } else {
        match ts[0] {
            Token::Trait(name) => Some((TraitExpr::Trait(name), ts.skip(1))),
            Token::Not => match parse_term(ts.skip(1)) {
                Some((inner, rest)) => Some((TraitExpr::Not(Box::new(inner)), rest)),
                None => None,
            },
            Token::Open => match parse_expr(ts.skip(1)) {
                Some((inner, rest)) => if rest.len() > 0 && rest[0] is Close {
                    Some((inner, rest.skip(1)))
                } else {
                    None
                },
                None => None,
            },
            _ => None,
        }
    }
}

/// Reads an expression from the front of `ts`: a term, and when an operator
/// follows it, that operator applied to the term and the expression after
/// the operator. Gives the expression and the tokens after it.
///
/// (A term always consumes a token; the length test only lets Verus see that
/// the recursion ends.)
pub open spec fn parse_expr(ts: Seq<Token>) -> Option<(TraitExpr, Seq<Token>)>
    decreases ts.len(), 1nat,
{
    match parse_term(ts) {
        Some((left, rest)) => if rest.len() > 0 && is_op(rest[0]) && rest.len() < ts.len() {
            match parse_expr(rest.skip(1)) {
                Some((right, after)) => Some((combine(rest[0], left, right), after)),
                None => None,
            }
        } else {
            Some((left, rest))
        },
        None => None,
    }
}

/// The expression that `ts` is, when all of `ts` reads as one.
pub open spec fn parse_all(ts: Seq<Token>) -> Option<TraitExpr> {
    match parse_expr(ts) {
        Some((e, rest)) => if rest.len() == 0 {
            Some(e)
        } else {
            None
        },
        None => None,
    }
}

/// Whether `name` is among the traits in `implemented`.
pub open spec fn implements(implemented: Seq<String>, name: Seq<char>) -> bool {
    exists|i: int| 0 <= i < implemented.len() && #[trigger] implemented[i]@ == name
}

/// Whether `e` holds of a type that implements exactly the traits in
/// `implemented`.
pub open spec fn holds(e: TraitExpr, implemented: Seq<String>) -> bool
    decreases e,
{
    match e {
        TraitExpr::Trait(name) => implements(implemented, name@),
        TraitExpr::Not(inner) => !holds(*inner, implemented),
        TraitExpr::And(l, r) => holds(*l, implemented) && holds(*r, implemented),
        TraitExpr::Or(l, r) => holds(*l, implemented) || holds(*r, implemented),
        TraitExpr::Xor(l, r) => holds(*l, implemented) != holds(*r, implemented),
    }
}

/// Whether the expression that `ts` reads as holds, or `None` when `ts` does
/// not read as an expression.
pub open spec fn value(ts: Seq<Token>, implemented: Seq<String>) -> Option<bool> {
    match parse_all(ts) {
        Some(e) => Some(holds(e, implemented)),
        None => None,
    }
}

/// How many entries of `traits` are implemented, counting repeats.
pub open spec fn count_implemented(traits: Seq<String>, implemented: Seq<String>) -> nat
    decreases traits.len(),
{
    if traits.len() == 0 {
        0
    } else {
        count_implemented(traits.drop_last(), implemented) + if implements(
            implemented,
            traits.last()@,
        ) {
            1nat
        } else {
            0nat
        }
    }
}

/// Reading a term or an expression consumes at least one token.
pub proof fn lemma_term_shrinks(ts: Seq<Token>)
    ensures
        parse_term(ts) matches Some((_, rest)) ==> rest.len() < ts.len(),
        parse_expr(ts) matches Some((_, rest)) ==> rest.len() < ts.len(),
    decreases ts.len(),
{
    if ts.len() > 0 {
        lemma_term_shrinks(ts.skip(1));
    }
    if let Some((_, rest)) = parse_term(ts) {
        if rest.len() > 0 && is_op(rest[0]) && rest.len() < ts.len() {
            lemma_term_shrinks(rest.skip(1));
        }
    }
}

/// What the binary operator `op` gives for the truth values `a` and `b`.
pub open spec fn apply_op(op: Token, a: bool, b: bool) -> bool {
    match op {
        Token::And => a && b,
        Token::Or => a || b,
        _ => a != b,
    }
}

/// Reading a term or an expression does not look past its end: tokens added
/// after it are left over with the rest, provided they do not start with an
/// operator that the expression would take.
pub proof fn lemma_parse_extends(ts: Seq<Token>, s: Seq<Token>)
    ensures
        parse_term(ts) matches Some((e, rest)) ==> parse_term(ts + s) == Some((e, rest + s)),
        parse_expr(ts) matches Some((e, rest)) ==> ((rest.len() > 0 || s.len() == 0 || !is_op(s[0]))
            ==> parse_expr(ts + s) == Some((e, rest + s))),
    decreases ts.len(),
{
    lemma_term_shrinks(ts);
    if ts.len() > 0 {
        assert((ts + s).skip(1) =~= ts.skip(1) + s);
        lemma_parse_extends(ts.skip(1), s);
        if ts[0] is Open {
            if let Some((inner, rest)) = parse_expr(ts.skip(1)) {
                if rest.len() > 0 && rest[0] is Close {
                    assert((rest + s).skip(1) =~= rest.skip(1) + s);
                }
            }
        }
    }
    if let Some((left, rest)) = parse_term(ts) {
        if rest.len() > 0 && is_op(rest[0]) {
            assert((rest + s).skip(1) =~= rest.skip(1) + s);
            lemma_parse_extends(rest.skip(1), s);
        }
    }
}

/// A single trait holds exactly when the type implements it.
pub proof fn lemma_single_trait(name: String, implemented: Seq<String>)
    ensures
        value(seq![Token::Trait(name)], implemented) == Some(implements(implemented, name@)),
{
    let ts = seq![Token::Trait(name)];
    let leaf = TraitExpr::Trait(name);
    assert(parse_term(ts) == Some((leaf, ts.skip(1))));
    assert(ts.skip(1).len() == 0);
    assert(parse_expr(ts) == Some((leaf, ts.skip(1))));
    assert(parse_all(ts) == Some(leaf));
}

/// Negating a parenthesized expression negates its value: `!(E)` holds
/// exactly when `E` does not.
pub proof fn lemma_not(e: Seq<Token>, implemented: Seq<String>)
    requires
        value(e, implemented) is Some,
    ensures
        value(seq![Token::Not, Token::Open] + e + seq![Token::Close], implemented) == Some(
            !(value(e, implemented)->0),
        ),
{
    let close = seq![Token::Close];
    let group = seq![Token::Open] + e + close;
    let ts = seq![Token::Not, Token::Open] + e + close;
    let (inner, rest) = parse_expr(e)->0;
    lemma_parse_extends(e, close);
    assert(rest + close =~= close);
    assert(parse_expr(e + close) == Some((inner, close)));
    assert(group.skip(1) =~= e + close);
    assert(close.skip(1).len() == 0);
    assert(parse_term(group) == Some((inner, close.skip(1))));
    assert(ts.skip(1) =~= group);
    let negated = TraitExpr::Not(Box::new(inner));
    assert(parse_term(ts) == Some((negated, close.skip(1))));
    assert(parse_expr(ts) == Some((negated, close.skip(1))));
    assert(parse_all(ts) == Some(negated));
}

/// A binary operator between a parenthesized expression and an expression
/// combines their values: `(E1) & E2` holds exactly when both hold, and
/// likewise for `|` and `^`.
pub proof fn lemma_binary(op: Token, e1: Seq<Token>, e2: Seq<Token>, implemented: Seq<String>)
    requires
        is_op(op),
        value(e1, implemented) is Some,
        value(e2, implemented) is Some,
    ensures
        value(seq![Token::Open] + e1 + seq![Token::Close, op] + e2, implemented) == Some(
            apply_op(op, value(e1, implemented)->0, value(e2, implemented)->0),
        ),
{
    let tail = seq![Token::Close, op] + e2;
    let ts = seq![Token::Open] + e1 + tail;
    assert(seq![Token::Open] + e1 + seq![Token::Close, op] + e2 =~= ts);
    let (left, rest1) = parse_expr(e1)->0;
    let (right, rest2) = parse_expr(e2)->0;
    lemma_parse_extends(e1, tail);
    assert(rest1 + tail =~= tail);
    assert(ts.skip(1) =~= e1 + tail);
    assert(parse_expr(e1 + tail) == Some((left, tail)));
    let after = tail.skip(1);
    assert(parse_term(ts) == Some((left, after)));
    assert(after =~= seq![op] + e2);
    assert(after.skip(1) =~= e2);
    lemma_term_shrinks(ts);
    let whole = combine(op, left, right);
    assert(parse_expr(ts) == Some((whole, rest2)));
    assert(parse_all(ts) == Some(whole));
    if op is And {
        assert(holds(whole, implemented) == (holds(left, implemented) && holds(right, implemented)));
    } else if op is Or {
        assert(holds(whole, implemented) == (holds(left, implemented) || holds(right, implemented)));
    } else {
        assert(holds(whole, implemented) == (holds(left, implemented) != holds(right, implemented)));
    }
}

/// An operator takes everything to its right as its right operand: `A op E`
/// reads as `A op (E)`. So `A | B & C` is `A | (B & C)`.
pub proof fn lemma_groups_right(name: String, op: Token, e: Seq<Token>)
    requires
        is_op(op),
        parse_all(e) is Some,
    ensures
        parse_all(seq![Token::Trait(name), op] + e) == parse_all(
            seq![Token::Trait(name), op, Token::Open] + e + seq![Token::Close],
        ),
        parse_all(seq![Token::Trait(name), op] + e) == Some(
            combine(op, TraitExpr::Trait(name), parse_all(e)->0),
        ),
{
    let flat = seq![Token::Trait(name), op] + e;
    let grouped = seq![Token::Trait(name), op, Token::Open] + e + seq![Token::Close];
    assert(flat.skip(1) =~= seq![op] + e);
    assert(flat.skip(1).skip(1) =~= e);
    assert(grouped.skip(1) =~= seq![op, Token::Open] + e + seq![Token::Close]);
    let inner_group = seq![Token::Open] + e + seq![Token::Close];
    assert(grouped.skip(1).skip(1) =~= inner_group);
    assert(inner_group.skip(1) =~= e + seq![Token::Close]);
    lemma_parse_extends(e, seq![Token::Close]);
    let (inner, rest) = parse_expr(e)->0;
    assert(rest + seq![Token::Close] =~= seq![Token::Close]);
    assert(seq![Token::Close].skip(1).len() == 0);
    lemma_term_shrinks(flat);
    lemma_term_shrinks(grouped);
    lemma_term_shrinks(inner_group);
}

/// The binary operator `op` applied to `left` and `right`.
fn combine_op(op: &Token, left: TraitExpr, right: TraitExpr) -> (r: TraitExpr)
    requires
        is_op(*op),
    ensures
        r == combine(*op, left, right),
{
    match op {
        Token::And => TraitExpr::And(Box::new(left), Box::new(right)),
        Token::Or => TraitExpr::Or(Box::new(left), Box::new(right)),
        _ => TraitExpr::Xor(Box::new(left), Box::new(right)),
    }
}

/// Reads one term at position `i` of `ts`; gives it with the position after it.
fn term_at(ts: &Vec<Token>, i: usize) -> (r: Option<(TraitExpr, usize)>)
    requires
        i <= ts@.len(),
    ensures
        match parse_term(ts@.skip(i as int)) {
            Some((e, rest)) => r matches Some((e2, j)) && e2 == e && i < j <= ts@.len() && rest
                == ts@.skip(j as int),
            None => r is None,
        },
    decreases ts@.len() - i, 0nat,
{
    if i >= ts.len() {
        return None;
    }
    assert(ts@.skip(i as int).skip(1) =~= ts@.skip(i + 1));
    match &ts[i] {
        Token::Trait(name) => Some((TraitExpr::Trait(name.clone()), i + 1)),
        Token::Not => match term_at(ts, i + 1) {
            Some((inner, j)) => Some((TraitExpr::Not(Box::new(inner)), j)),
            None => None,
        },
        Token::Open => match expr_at(ts, i + 1) {
            Some((inner, j)) => {
                if j < ts.len() && matches!(ts[j], Token::Close) {
                    assert(ts@.skip(j as int).skip(1) =~= ts@.skip(j + 1));
                    Some((inner, j + 1))
                } else {
                    None
                }
            },
            None => None,
        },
        _ => None,
    }
}

/// Reads an expression at position `i` of `ts`; gives it with the position
/// after it.
fn expr_at(ts: &Vec<Token>, i: usize) -> (r: Option<(TraitExpr, usize)>)
    requires
        i <= ts@.len(),
    ensures
        match parse_expr(ts@.skip(i as int)) {
            Some((e, rest)) => r matches Some((e2, j)) && e2 == e && i < j <= ts@.len() && rest
                == ts@.skip(j as int),
            None => r is None,
        },
    decreases ts@.len() - i, 1nat,
{
    proof {
        lemma_term_shrinks(ts@.skip(i as int));
    }
    match term_at(ts, i) {
        Some((left, j)) => {
            if j < ts.len() && (matches!(ts[j], Token::And) || matches!(ts[j], Token::Or)
                || matches!(ts[j], Token::Xor)) {
                assert(ts@.skip(j as int).skip(1) =~= ts@.skip(j + 1));
                match expr_at(ts, j + 1) {
                    Some((right, k)) => Some((combine_op(&ts[j], left, right), k)),
                    None => None,
                }
            } else {
                Some((left, j))
            }
        },
        None => None,
    }
}

/// Parses all of `tokens` as one logical trait expression.
pub fn parse_trait_expr(tokens: &Vec<Token>) -> (r: Option<TraitExpr>)
    ensures
        r == parse_all(tokens@),
{
    assert(tokens@.skip(0) =~= tokens@);
    match expr_at(tokens, 0) {
        Some((e, j)) => {
            if j == tokens.len() {
                Some(e)
            } else {
                None
            }
        },
        None => None,
    }
}

/// Whether the trait `name` is among `implemented`.
pub fn is_implemented(implemented: &Vec<String>, name: &String) -> (r: bool)
    ensures
        r == implements(implemented@, name@),
{
    let mut i: usize = 0;
    while i < implemented.len()
        invariant
            i <= implemented@.len(),
            forall|j: int| 0 <= j < i ==> implemented@[j]@ != name@,
        decreases implemented@.len() - i,
    {
        if implemented[i] == *name {
            return true;
        }
        i += 1;
    }
    false
}

/// Whether `e` holds of a type that implements exactly the traits in
/// `implemented`.
pub fn evaluate(e: &TraitExpr, implemented: &Vec<String>) -> (r: bool)
    ensures
        r == holds(*e, implemented@),
    decreases e,
{
    match e {
        TraitExpr::Trait(name) => is_implemented(implemented, name),
        TraitExpr::Not(inner) => !evaluate(inner, implemented),
        TraitExpr::And(l, r) => evaluate(l, implemented) && evaluate(r, implemented),
        TraitExpr::Or(l, r) => evaluate(l, implemented) || evaluate(r, implemented),
        TraitExpr::Xor(l, r) => evaluate(l, implemented) != evaluate(r, implemented),
    }
}

/// Whether a type that implements exactly the traits in `implemented`
/// satisfies the logical trait expression `tokens`; `None` when `tokens` is
/// not an expression.
pub fn does_impl(tokens: &Vec<Token>, implemented: &Vec<String>) -> (r: Option<bool>)
    ensures
        r == value(tokens@, implemented@),
{
    match parse_trait_expr(tokens) {
        Some(e) => Some(evaluate(&e, implemented)),
        None => None,
    }
}

/// Whether exactly one entry of `traits` is implemented, counting repeats: the
/// check that a type implements one trait out of a set and no other.
pub fn impls_exactly_one(traits: &Vec<String>, implemented: &Vec<String>) -> (r: bool)
    ensures
        r == (count_implemented(traits@, implemented@) == 1),
{
    let mut count: usize = 0;
    let mut i: usize = 0;
    while i < traits.len()
        invariant
            i <= traits@.len(),
            count == count_implemented(traits@.take(i as int), implemented@),
            count <= i,
        decreases traits@.len() - i,
    {
        assert(traits@.take(i + 1).drop_last() =~= traits@.take(i as int));
        if is_implemented(implemented, &traits[i]) {
            count += 1;
        }
        i += 1;
    }
    assert(traits@.take(i as int) =~= traits@);
    count == 1
}

} // verus!
