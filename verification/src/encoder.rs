//! Operand encoder boundary: resolving an expression plus a size
//! classification into a concrete addressing mode, and encoding a mnemonic
//! plus mode into opcode/operand bytes together with a control-transfer
//! flag.

use vstd::prelude::*;
use crate::size::SizeHint;
use crate::expr::ExprNode;

verus! {

/// Mnemonics of the supported instruction set.
#[derive(Clone, Copy, Debug, PartialEq, Eq, Structural)]
pub enum Mnemonic {
    Nop,
    Inx,
    Rts,
    Rti,
    Jmp,
    Jml,
    Bra,
    Brl,
    Beq,
    Bne,
    Bcc,
    Bcs,
    Lda,
    Sta,
    Adc,
}

/// A concrete addressing mode carrying the operand bytes' value (a
/// placeholder of zero where the operand is not yet resolvable).
#[derive(Clone, Copy, Debug, PartialEq, Eq, Structural)]
pub enum AddressingMode {
    Implied,
    /// One-byte direct-page address.
    Direct(u8),
    /// Two-byte absolute address within the current bank.
    Absolute(u16),
    /// Three-byte long address; the value is below `0x100_0000`.
    AbsoluteLong(u32),
    /// One-byte signed displacement, stored two's complement.
    Relative(u8),
    /// Two-byte signed displacement, stored two's complement.
    RelativeWord(u16),
}

/// A failure of operand resolution, without chunk context; the chunk
/// compiler wraps it with the label and mnemonic at hand.
#[derive(Clone, Copy, Debug, PartialEq, Eq, Structural)]
pub enum EncodeFault {
    /// The operand form is incompatible with the resolved size.
    Mismatch,
    /// A constant operand does not fit its field width; carries the
    /// offending value.
    Overflow(i64),
}

impl Mnemonic {
    /// Coarse operand-size hint of the mnemonic.
    pub open spec fn spec_size_hint(self) -> SizeHint {
        match self {
            Mnemonic::Nop => SizeHint::Implicit,
            Mnemonic::Inx => SizeHint::Implicit,
            Mnemonic::Rts => SizeHint::Implicit,
            Mnemonic::Rti => SizeHint::Implicit,
            Mnemonic::Jmp => SizeHint::Word,
            Mnemonic::Jml => SizeHint::Long,
            Mnemonic::Bra => SizeHint::RelByte,
            Mnemonic::Brl => SizeHint::RelWord,
            Mnemonic::Beq => SizeHint::RelByte,
            Mnemonic::Bne => SizeHint::RelByte,
            Mnemonic::Bcc => SizeHint::RelByte,
            Mnemonic::Bcs => SizeHint::RelByte,
            Mnemonic::Lda => SizeHint::Long,
            Mnemonic::Sta => SizeHint::Long,
            Mnemonic::Adc => SizeHint::Long,
        }
    }

    /// A committed control transfer: execution never falls through to the
    /// following byte.
    pub open spec fn spec_is_transfer(self) -> bool {
        match self {
            Mnemonic::Rts => true,
            Mnemonic::Rti => true,
            Mnemonic::Jmp => true,
            Mnemonic::Jml => true,
            Mnemonic::Bra => true,
            Mnemonic::Brl => true,
            _ => false,
        }
    }

    /// Opcode byte of this mnemonic in the given addressing mode, when the
    /// combination exists.
    pub open spec fn spec_opcode(self, mode: AddressingMode) -> Option<u8> {
        match (self, mode) {
            (Mnemonic::Nop, AddressingMode::Implied) => Some(0xeau8),
            (Mnemonic::Inx, AddressingMode::Implied) => Some(0xe8u8),
            (Mnemonic::Rts, AddressingMode::Implied) => Some(0x60u8),
            (Mnemonic::Rti, AddressingMode::Implied) => Some(0x40u8),
            (Mnemonic::Jmp, AddressingMode::Absolute(_)) => Some(0x4cu8),
            (Mnemonic::Jml, AddressingMode::AbsoluteLong(_)) => Some(0x5cu8),
            (Mnemonic::Bra, AddressingMode::Relative(_)) => Some(0x80u8),
            (Mnemonic::Brl, AddressingMode::RelativeWord(_)) => Some(0x82u8),
            (Mnemonic::Beq, AddressingMode::Relative(_)) => Some(0xf0u8),
            (Mnemonic::Bne, AddressingMode::Relative(_)) => Some(0xd0u8),
            (Mnemonic::Bcc, AddressingMode::Relative(_)) => Some(0x90u8),
            (Mnemonic::Bcs, AddressingMode::Relative(_)) => Some(0xb0u8),
            (Mnemonic::Lda, AddressingMode::Direct(_)) => Some(0xa5u8),
            (Mnemonic::Lda, AddressingMode::Absolute(_)) => Some(0xadu8),
            (Mnemonic::Lda, AddressingMode::AbsoluteLong(_)) => Some(0xafu8),
            (Mnemonic::Sta, AddressingMode::Direct(_)) => Some(0x85u8),
            (Mnemonic::Sta, AddressingMode::Absolute(_)) => Some(0x8du8),
            (Mnemonic::Sta, AddressingMode::AbsoluteLong(_)) => Some(0x8fu8),
            (Mnemonic::Adc, AddressingMode::Direct(_)) => Some(0x65u8),
            (Mnemonic::Adc, AddressingMode::Absolute(_)) => Some(0x6du8),
            (Mnemonic::Adc, AddressingMode::AbsoluteLong(_)) => Some(0x6fu8),
            _ => None,
        }
    }

    pub fn size_hint(self) -> (s: SizeHint)
        ensures
            s == self.spec_size_hint(),
    {
        match self {
            Mnemonic::Nop | Mnemonic::Inx | Mnemonic::Rts | Mnemonic::Rti => SizeHint::Implicit,
            Mnemonic::Jmp => SizeHint::Word,
            Mnemonic::Jml => SizeHint::Long,
            Mnemonic::Brl => SizeHint::RelWord,
            Mnemonic::Bra | Mnemonic::Beq | Mnemonic::Bne | Mnemonic::Bcc | Mnemonic::Bcs =>
                SizeHint::RelByte,
            Mnemonic::Lda | Mnemonic::Sta | Mnemonic::Adc => SizeHint::Long,
        }
    }

    pub fn is_transfer(self) -> (b: bool)
        ensures
            b == self.spec_is_transfer(),
    {
        matches!(self,
            Mnemonic::Rts | Mnemonic::Rti | Mnemonic::Jmp | Mnemonic::Jml
            | Mnemonic::Bra | Mnemonic::Brl)
    }
}

/// Two's-complement representation of `c` in `w * 8` bits.
pub open spec fn two_comp(c: int, w: nat) -> int {
    c % pow256(w)
}

/// 256 to the `w`, for the widths in use.
pub open spec fn pow256(w: nat) -> int {
    if w == 1 {
        0x100
    } else if w == 2 {
        0x1_0000
    } else if w == 3 {
        0x100_0000
    } else {
        1
    }
}

/// A constant `c` fits an absolute field of `w` bytes when it lies in
/// the union of the unsigned and the signed range of that width.
pub open spec fn fits_absolute(c: int, w: nat) -> bool {
    -(pow256(w) / 2) <= c < pow256(w)
}

/// A displacement fits a relative field of `w` bytes when it lies in the
/// signed range of that width.
pub open spec fn fits_relative(c: int, w: nat) -> bool {
    -(pow256(w) / 2) <= c < pow256(w) / 2
}

/// The addressing mode denoted by a reduced operand root and a composed
/// size. A root that is not a plain constant (still symbolic) gets a
/// zero placeholder; the fixup resolver patches it later.
pub open spec fn spec_parse(root: ExprNode, s: SizeHint) -> Result<AddressingMode, EncodeFault> {
    match s {
        SizeHint::Implicit => match root {
            ExprNode::Empty => Ok(AddressingMode::Implied),
            _ => Err(EncodeFault::Mismatch),
        },
        SizeHint::Byte => match root {
            ExprNode::Empty => Err(EncodeFault::Mismatch),
            ExprNode::Constant(c) => if fits_absolute(c as int, 1) {
                Ok(AddressingMode::Direct(two_comp(c as int, 1) as u8))
            } else {
                Err(EncodeFault::Overflow(c))
            },
            _ => Ok(AddressingMode::Direct(0)),
        },
        SizeHint::Word => match root {
            ExprNode::Empty => Err(EncodeFault::Mismatch),
            ExprNode::Constant(c) => if fits_absolute(c as int, 2) {
                Ok(AddressingMode::Absolute(two_comp(c as int, 2) as u16))
            } else {
                Err(EncodeFault::Overflow(c))
            },
            _ => Ok(AddressingMode::Absolute(0)),
        },
        SizeHint::Long => match root {
            ExprNode::Empty => Err(EncodeFault::Mismatch),
            ExprNode::Constant(c) => if fits_absolute(c as int, 3) {
                Ok(AddressingMode::AbsoluteLong(two_comp(c as int, 3) as u32))
            } else {
                Err(EncodeFault::Overflow(c))
            },
            _ => Ok(AddressingMode::AbsoluteLong(0)),
        },
        SizeHint::RelByte => match root {
            ExprNode::Empty => Err(EncodeFault::Mismatch),
            ExprNode::Constant(c) => if fits_relative(c as int, 1) {
                Ok(AddressingMode::Relative(two_comp(c as int, 1) as u8))
            } else {
                Err(EncodeFault::Overflow(c))
            },
            _ => Ok(AddressingMode::Relative(0)),
        },
        SizeHint::RelWord => match root {
            ExprNode::Empty => Err(EncodeFault::Mismatch),
            ExprNode::Constant(c) => if fits_relative(c as int, 2) {
                Ok(AddressingMode::RelativeWord(two_comp(c as int, 2) as u16))
            } else {
                Err(EncodeFault::Overflow(c))
            },
            _ => Ok(AddressingMode::RelativeWord(0)),
        },
    }
}

/// Operand bytes of a mode, little-endian.
pub open spec fn spec_operand_bytes(mode: AddressingMode) -> Seq<u8> {
    match mode {
        AddressingMode::Implied => Seq::<u8>::empty(),
        AddressingMode::Direct(v) => seq![v],
        AddressingMode::Absolute(v) => seq![(v % 0x100) as u8, (v / 0x100) as u8],
        AddressingMode::AbsoluteLong(v) => seq![
            (v % 0x100) as u8,
            ((v / 0x100) % 0x100) as u8,
            ((v / 0x1_0000) % 0x100) as u8,
        ],
        AddressingMode::Relative(v) => seq![v],
        AddressingMode::RelativeWord(v) => seq![(v % 0x100) as u8, (v / 0x100) as u8],
    }
}

/// Full encoding of one instruction: the opcode byte followed by the
/// operand bytes, when the mnemonic supports the mode.
pub open spec fn spec_encode(m: Mnemonic, mode: AddressingMode) -> Option<Seq<u8>> {
    match m.spec_opcode(mode) {
        Some(op) => Some(seq![op] + spec_operand_bytes(mode)),
        None => None,
    }
}

/// Resolve a reduced operand root plus composed size into a concrete
/// addressing mode.
pub fn parse_mode(root: &ExprNode, s: SizeHint) -> (r: Result<AddressingMode, EncodeFault>)
    ensures
        r == spec_parse(*root, s),
{
    match s {
        SizeHint::Implicit => match root {
            ExprNode::Empty => Ok(AddressingMode::Implied),
            _ => Err(EncodeFault::Mismatch),
        },
        SizeHint::Byte => match root {
            ExprNode::Empty => Err(EncodeFault::Mismatch),
            ExprNode::Constant(c) => {
                let c = *c;
                if -0x80 <= c && c < 0x100 {
                    let v: u8 = if c >= 0 { c as u8 } else { (c + 0x100) as u8 };
                    Ok(AddressingMode::Direct(v))
                } else {
                    Err(EncodeFault::Overflow(c))
                }
            },
            _ => Ok(AddressingMode::Direct(0)),
        },
        SizeHint::Word => match root {
            ExprNode::Empty => Err(EncodeFault::Mismatch),
            ExprNode::Constant(c) => {
                let c = *c;
                if -0x8000 <= c && c < 0x1_0000 {
                    let v: u16 = if c >= 0 { c as u16 } else { (c + 0x1_0000) as u16 };
                    Ok(AddressingMode::Absolute(v))
                } else {
                    Err(EncodeFault::Overflow(c))
                }
            },
            _ => Ok(AddressingMode::Absolute(0)),
        },
        SizeHint::Long => match root {
            ExprNode::Empty => Err(EncodeFault::Mismatch),
            ExprNode::Constant(c) => {
                let c = *c;
                if -0x80_0000 <= c && c < 0x100_0000 {
                    let v: u32 = if c >= 0 { c as u32 } else { (c + 0x100_0000) as u32 };
                    Ok(AddressingMode::AbsoluteLong(v))
                } else {
                    Err(EncodeFault::Overflow(c))
                }
            },
            _ => Ok(AddressingMode::AbsoluteLong(0)),
        },
        SizeHint::RelByte => match root {
            ExprNode::Empty => Err(EncodeFault::Mismatch),
            ExprNode::Constant(c) => {
                let c = *c;
                if -0x80 <= c && c < 0x80 {
                    let v: u8 = if c >= 0 { c as u8 } else { (c + 0x100) as u8 };
                    Ok(AddressingMode::Relative(v))
                } else {
                    Err(EncodeFault::Overflow(c))
                }
            },
            _ => Ok(AddressingMode::Relative(0)),
        },
        SizeHint::RelWord => match root {
            ExprNode::Empty => Err(EncodeFault::Mismatch),
            ExprNode::Constant(c) => {
                let c = *c;
                if -0x8000 <= c && c < 0x8000 {
                    let v: u16 = if c >= 0 { c as u16 } else { (c + 0x1_0000) as u16 };
                    Ok(AddressingMode::RelativeWord(v))
                } else {
                    Err(EncodeFault::Overflow(c))
                }
            },
            _ => Ok(AddressingMode::RelativeWord(0)),
        },
    }
}

/// Encode a mnemonic in a mode: the opcode byte, then the operand bytes
/// little-endian. `None` when the mnemonic has no encoding in that mode.
pub fn encode(m: Mnemonic, mode: AddressingMode) -> (r: Option<Vec<u8>>)
    ensures
        (match spec_encode(m, mode) {
            Some(bytes) => r matches Some(v) && v@ == bytes,
            None => r is None,
        }),
{
    let op: Option<u8> = match (m, mode) {
        (Mnemonic::Nop, AddressingMode::Implied) => Some(0xea),
        (Mnemonic::Inx, AddressingMode::Implied) => Some(0xe8),
        (Mnemonic::Rts, AddressingMode::Implied) => Some(0x60),
        (Mnemonic::Rti, AddressingMode::Implied) => Some(0x40),
        (Mnemonic::Jmp, AddressingMode::Absolute(_)) => Some(0x4c),
        (Mnemonic::Jml, AddressingMode::AbsoluteLong(_)) => Some(0x5c),
        (Mnemonic::Bra, AddressingMode::Relative(_)) => Some(0x80),
        (Mnemonic::Brl, AddressingMode::RelativeWord(_)) => Some(0x82),
        (Mnemonic::Beq, AddressingMode::Relative(_)) => Some(0xf0),
        (Mnemonic::Bne, AddressingMode::Relative(_)) => Some(0xd0),
        (Mnemonic::Bcc, AddressingMode::Relative(_)) => Some(0x90),
        (Mnemonic::Bcs, AddressingMode::Relative(_)) => Some(0xb0),
        (Mnemonic::Lda, AddressingMode::Direct(_)) => Some(0xa5),
        (Mnemonic::Lda, AddressingMode::Absolute(_)) => Some(0xad),
        (Mnemonic::Lda, AddressingMode::AbsoluteLong(_)) => Some(0xaf),
        (Mnemonic::Sta, AddressingMode::Direct(_)) => Some(0x85),
        (Mnemonic::Sta, AddressingMode::Absolute(_)) => Some(0x8d),
        (Mnemonic::Sta, AddressingMode::AbsoluteLong(_)) => Some(0x8f),
        (Mnemonic::Adc, AddressingMode::Direct(_)) => Some(0x65),
        (Mnemonic::Adc, AddressingMode::Absolute(_)) => Some(0x6d),
        (Mnemonic::Adc, AddressingMode::AbsoluteLong(_)) => Some(0x6f),
        _ => None,
    };
    match op {
        None => None,
        Some(op) => {
            let mut bytes: Vec<u8> = Vec::new();
            bytes.push(op);
            match mode {
                AddressingMode::Implied => {},
                AddressingMode::Direct(v) => {
                    bytes.push(v);
                },
                AddressingMode::Absolute(v) => {
                    bytes.push((v % 0x100) as u8);
                    bytes.push((v / 0x100) as u8);
                },
                AddressingMode::AbsoluteLong(v) => {
                    bytes.push((v % 0x100) as u8);
                    bytes.push(((v / 0x100) % 0x100) as u8);
                    bytes.push(((v / 0x1_0000) % 0x100) as u8);
                },
                AddressingMode::Relative(v) => {
                    bytes.push(v);
                },
                AddressingMode::RelativeWord(v) => {
                    bytes.push((v % 0x100) as u8);
                    bytes.push((v / 0x100) as u8);
                },
            }
            proof {
                assert(bytes@ =~= seq![op] + spec_operand_bytes(mode));
            }
            Some(bytes)
        },
    }
}

} // verus!
