//! Operand size classifications and the narrowing rule used to compose the
//! mnemonic's coarse hint, the operand expression's own declared size, and
//! the syntactic operand form's hint.

use vstd::prelude::*;

verus! {

/// Width/relativity classification of an instruction operand.
///
/// `Implicit` means there is no operand-size ambiguity (register-only
/// forms); `RelByte`/`RelWord` are signed displacements relative to the byte
/// following the operand.
#[derive(Clone, Copy, Debug, PartialEq, Eq, Structural)]
pub enum SizeHint {
    Implicit,
    Byte,
    Word,
    Long,
    RelByte,
    RelWord,
}

impl SizeHint {
    /// Number of operand bytes written for this size.
    pub open spec fn spec_width(self) -> nat {
        match self {
            SizeHint::Implicit => 0,
            SizeHint::Byte => 1,
            SizeHint::Word => 2,
            SizeHint::Long => 3,
            SizeHint::RelByte => 1,
            SizeHint::RelWord => 2,
        }
    }

    /// An absolute (non-relative, non-implicit) width.
    pub open spec fn is_absolute(self) -> bool {
        self == SizeHint::Byte || self == SizeHint::Word || self == SizeHint::Long
    }

    /// A signed displacement width.
    pub open spec fn is_relative(self) -> bool {
        self == SizeHint::RelByte || self == SizeHint::RelWord
    }

    /// Narrowing composition of two size classifications: `Implicit` poses
    /// no constraint; two absolute or two relative sizes combine to the
    /// narrower of the two; mixing an absolute with a relative size is
    /// incompatible.
    pub open spec fn spec_narrow(self, other: SizeHint) -> Option<SizeHint> {
        if other == SizeHint::Implicit {
            Some(self)
        } else if self == SizeHint::Implicit {
            Some(other)
        } else if self.is_absolute() && other.is_absolute() {
            if self.spec_width() <= other.spec_width() {
                Some(self)
            } else {
                Some(other)
            }
        } else if self.is_relative() && other.is_relative() {
            if self.spec_width() <= other.spec_width() {
                Some(self)
            } else {
                Some(other)
            }
        } else {
            None
        }
    }

    pub fn width(self) -> (w: usize)
        ensures
            w == self.spec_width(),
    {
        match self {
            SizeHint::Implicit => 0,
            SizeHint::Byte => 1,
            SizeHint::Word => 2,
            SizeHint::Long => 3,
            SizeHint::RelByte => 1,
            SizeHint::RelWord => 2,
        }
    }

    /// Narrow `self` by `other`, failing when the two classifications are
    /// incompatible.
    pub fn and_then(self, other: SizeHint) -> (r: Option<SizeHint>)
        ensures
            r == self.spec_narrow(other),
    {
        if other == SizeHint::Implicit {
            Some(self)
        } else if self == SizeHint::Implicit {
            Some(other)
        } else {
            let a = self.width();
            let b = other.width();
            let self_abs = matches!(self, SizeHint::Byte | SizeHint::Word | SizeHint::Long);
            let other_abs = matches!(other, SizeHint::Byte | SizeHint::Word | SizeHint::Long);
            if self_abs == other_abs {
                if a <= b {
                    Some(self)
                } else {
                    Some(other)
                }
            } else {
                None
            }
        }
    }
}

} // verus!
