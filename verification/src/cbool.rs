//! Truthiness in the style of C: a number counts as true exactly when it
//! is not zero.

use vstd::prelude::*;

verus! {

/// Conversion of a value to a C-style boolean.
pub trait AsCBool: Sized {
    /// What the conversion must return.
    spec fn as_c_bool(&self) -> bool;

    /// The value as a C-style boolean.
    fn cbool(self) -> (r: bool)
        ensures
            r == self.as_c_bool(),
    ;
}

impl AsCBool for u8 {
    open spec fn as_c_bool(&self) -> bool {
        *self != 0
    }

    fn cbool(self) -> bool {
        self != 0
    }
}

impl AsCBool for u16 {
    open spec fn as_c_bool(&self) -> bool {
        *self != 0
    }

    fn cbool(self) -> bool {
        self != 0
    }
}

impl AsCBool for u32 {
    open spec fn as_c_bool(&self) -> bool {
        *self != 0
    }

    fn cbool(self) -> bool {
        self != 0
    }
}

impl AsCBool for u64 {
    open spec fn as_c_bool(&self) -> bool {
        *self != 0
    }

    fn cbool(self) -> bool {
        self != 0
    }
}

impl AsCBool for u128 {
    open spec fn as_c_bool(&self) -> bool {
        *self != 0
    }

    fn cbool(self) -> bool {
        self != 0
    }
}

impl AsCBool for usize {
    open spec fn as_c_bool(&self) -> bool {
        *self != 0
    }

    fn cbool(self) -> bool {
        self != 0
    }
}

impl AsCBool for i8 {
    open spec fn as_c_bool(&self) -> bool {
        *self != 0
    }

    fn cbool(self) -> bool {
        self != 0
    }
}

impl AsCBool for i16 {
    open spec fn as_c_bool(&self) -> bool {
        *self != 0
    }

    fn cbool(self) -> bool {
        self != 0
    }
}

impl AsCBool for i32 {
    open spec fn as_c_bool(&self) -> bool {
        *self != 0
    }

    fn cbool(self) -> bool {
        self != 0
    }
}

impl AsCBool for i64 {
    open spec fn as_c_bool(&self) -> bool {
        *self != 0
    }

    fn cbool(self) -> bool {
        self != 0
    }
}

impl AsCBool for i128 {
    open spec fn as_c_bool(&self) -> bool {
        *self != 0
    }

    fn cbool(self) -> bool {
        self != 0
    }
}

impl AsCBool for isize {
    open spec fn as_c_bool(&self) -> bool {
        *self != 0
    }

    fn cbool(self) -> bool {
        self != 0
    }
}

} // verus!
