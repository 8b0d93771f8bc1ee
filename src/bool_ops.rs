//! Type-level booleans combined with the operators `&`, `|`, `^` and `!`.
//!
//! Each operator's output type is the type-level result, so an expression
//! such as `True & !False` has the type `True`.
use vstd::prelude::*;
use vstd::std_specs::ops::{BitAndSpecImpl, BitOrSpecImpl, BitXorSpecImpl, NotSpecImpl};
use core::ops::{BitAnd, BitOr, BitXor, Not};

verus! {

/// The type-level `true`.
pub struct True;

/// The type-level `false`.
pub struct False;

impl True {
    /// The truth value this type stands for.
    pub open spec fn value(self) -> bool {
        true
    }
}

impl False {
    /// The truth value this type stands for.
    pub open spec fn value(self) -> bool {
        false
    }
}

impl BitAnd<True> for True {
    type Output = True;

    fn bitand(self, rhs: True) -> (r: True)
        ensures
            r.value() == (self.value() && rhs.value()),
    {
        True
    }
}

impl BitAndSpecImpl<True> for True {
    open spec fn obeys_bitand_spec() -> bool {
        true
    }

    open spec fn bitand_req(self, rhs: True) -> bool {
        true
    }

    open spec fn bitand_spec(self, rhs: True) -> True {
        True
    }
}

impl BitAnd<False> for True {
    type Output = False;

    fn bitand(self, rhs: False) -> (r: False)
        ensures
            r.value() == (self.value() && rhs.value()),
    {
        False
    }
}

impl BitAndSpecImpl<False> for True {
    open spec fn obeys_bitand_spec() -> bool {
        true
    }

    open spec fn bitand_req(self, rhs: False) -> bool {
        true
    }

    open spec fn bitand_spec(self, rhs: False) -> False {
        False
    }
}

impl<T> BitOr<T> for True {
    type Output = True;

    fn bitor(self, rhs: T) -> (r: True)
        ensures
            r.value() == self.value(),
    {
        True
    }
}

impl<T> BitOrSpecImpl<T> for True {
    open spec fn obeys_bitor_spec() -> bool {
        true
    }

    open spec fn bitor_req(self, rhs: T) -> bool {
        true
    }

    open spec fn bitor_spec(self, rhs: T) -> True {
        True
    }
}

impl BitXor<True> for True {
    type Output = False;

    fn bitxor(self, rhs: True) -> (r: False)
        ensures
            r.value() == (self.value() != rhs.value()),
    {
        False
    }
}

impl BitXorSpecImpl<True> for True {
    open spec fn obeys_bitxor_spec() -> bool {
        true
    }

    open spec fn bitxor_req(self, rhs: True) -> bool {
        true
    }

    open spec fn bitxor_spec(self, rhs: True) -> False {
        False
    }
}

impl BitXor<False> for True {
    type Output = True;

    fn bitxor(self, rhs: False) -> (r: True)
        ensures
            r.value() == (self.value() != rhs.value()),
    {
        True
    }
}

impl BitXorSpecImpl<False> for True {
    open spec fn obeys_bitxor_spec() -> bool {
        true
    }

    open spec fn bitxor_req(self, rhs: False) -> bool {
        true
    }

    open spec fn bitxor_spec(self, rhs: False) -> True {
        True
    }
}

impl Not for True {
    type Output = False;

    fn not(self) -> (r: False)
        ensures
            r.value() == !self.value(),
    {
        False
    }
}

impl NotSpecImpl for True {
    open spec fn obeys_not_spec() -> bool {
        true
    }

    open spec fn not_req(self) -> bool {
        true
    }

    open spec fn not_spec(self) -> False {
        False
    }
}

impl<T> BitAnd<T> for False {
    type Output = False;

    fn bitand(self, rhs: T) -> (r: False)
        ensures
            r.value() == self.value(),
    {
        False
    }
}

impl<T> BitAndSpecImpl<T> for False {
    open spec fn obeys_bitand_spec() -> bool {
        true
    }

    open spec fn bitand_req(self, rhs: T) -> bool {
        true
    }

    open spec fn bitand_spec(self, rhs: T) -> False {
        False
    }
}

impl BitOr<True> for False {
    type Output = True;

    fn bitor(self, rhs: True) -> (r: True)
        ensures
            r.value() == (self.value() || rhs.value()),
    {
        True
    }
}

impl BitOrSpecImpl<True> for False {
    open spec fn obeys_bitor_spec() -> bool {
        true
    }

    open spec fn bitor_req(self, rhs: True) -> bool {
        true
    }

    open spec fn bitor_spec(self, rhs: True) -> True {
        True
    }
}

impl BitOr<False> for False {
    type Output = False;

    fn bitor(self, rhs: False) -> (r: False)
        ensures
            r.value() == (self.value() || rhs.value()),
    {
        False
    }
}

impl BitOrSpecImpl<False> for False {
    open spec fn obeys_bitor_spec() -> bool {
        true
    }

    open spec fn bitor_req(self, rhs: False) -> bool {
        true
    }

    open spec fn bitor_spec(self, rhs: False) -> False {
        False
    }
}

impl BitXor<False> for False {
    type Output = False;

    fn bitxor(self, rhs: False) -> (r: False)
        ensures
            r.value() == (self.value() != rhs.value()),
    {
        False
    }
}

impl BitXorSpecImpl<False> for False {
    open spec fn obeys_bitxor_spec() -> bool {
        true
    }

    open spec fn bitxor_req(self, rhs: False) -> bool {
        true
    }

    open spec fn bitxor_spec(self, rhs: False) -> False {
        False
    }
}

impl BitXor<True> for False {
    type Output = True;

    fn bitxor(self, rhs: True) -> (r: True)
        ensures
            r.value() == (self.value() != rhs.value()),
    {
        True
    }
}

impl BitXorSpecImpl<True> for False {
    open spec fn obeys_bitxor_spec() -> bool {
        true
    }

    open spec fn bitxor_req(self, rhs: True) -> bool {
        true
    }

    open spec fn bitxor_spec(self, rhs: True) -> True {
        True
    }
}

impl Not for False {
    type Output = True;

    fn not(self) -> (r: True)
        ensures
            r.value() == !self.value(),
    {
        True
    }
}

impl NotSpecImpl for False {
    open spec fn obeys_not_spec() -> bool {
        true
    }

    open spec fn not_req(self) -> bool {
        true
    }

    open spec fn not_spec(self) -> True {
        True
    }
}

/// Lifts a boolean into its type-level counterpart, through the length of a
/// unit array.
pub trait ToBool: Sized {
    type Bool: Sized;

    const TO_BOOL: Self::Bool;
}

impl ToBool for [(); 0] {
    type Bool = False;

    const TO_BOOL: Self::Bool = False;
}

impl ToBool for [(); 1] {
    type Bool = True;

    const TO_BOOL: Self::Bool = True;
}

} // verus!
