//! Type-level booleans whose operations work through shared references.
use vstd::prelude::*;

verus! {

/// The type-level `true`.
#[derive(Clone, Copy)]
pub struct True;

/// The type-level `false`.
#[derive(Clone, Copy)]
pub struct False;

const TRUE: True = True;

const FALSE: False = False;

impl True {
    /// The truth value this type stands for.
    pub open spec fn value(&self) -> bool {
        true
    }

    /// Negation: the other boolean type.
    pub fn not<'a>(&'a self) -> (r: &'a False)
        ensures
            r.value() == !self.value(),
    {
        &FALSE
    }

    /// Conjunction: `true && x` is `x`.
    pub fn and<'a, T>(&'a self, other: &'a T) -> (r: &'a T)
        ensures
            r == other,
    {
        other
    }

    /// Disjunction: `true || x` is `true`.
    pub fn or<'a, T>(&'a self, other: &'a T) -> (r: &'a True)
        ensures
            r.value() == self.value(),
    {
        &TRUE
    }
}

impl False {
    /// The truth value this type stands for.
    pub open spec fn value(&self) -> bool {
        false
    }

    /// Negation: the other boolean type.
    pub fn not<'a>(&'a self) -> (r: &'a True)
        ensures
            r.value() == !self.value(),
    {
        &TRUE
    }

    /// Conjunction: `false && x` is `false`.
    pub fn and<'a, T>(&'a self, other: &'a T) -> (r: &'a False)
        ensures
            r.value() == self.value(),
    {
        &FALSE
    }

    /// Disjunction: `false || x` is `x`.
    pub fn or<'a, T>(&'a self, other: &'a T) -> (r: &'a T)
        ensures
            r == other,
    {
        other
    }
}

/// Lifts a boolean into its type-level counterpart, through the length of a
/// unit array.
pub trait ToBool: Sized {
    type Value: Sized;

    const TO_BOOL: Self::Value;
}

impl ToBool for [(); 0] {
    type Value = False;

    const TO_BOOL: Self::Value = False;
}

impl ToBool for [(); 1] {
    type Value = True;

    const TO_BOOL: Self::Value = True;
}

} // verus!
