//! The tag that says what kind of element a payload holds.

use crate::io::{appended, consumed, Error, Read, Write};
use vstd::prelude::*;

verus! {

/// An element type as it appears on the wire: one tag byte, followed by a
/// width byte for the two sized families.
#[derive(Copy, Clone, PartialEq, Eq, Debug, Structural)]
pub enum Type {
    F32,
    Bytes(u8),
    String(u8),
    PropertyId,
    DynString,
    DynBytes,
    DynListPropertyReportV1,
    U128,
    I128,
    U64,
    I64,
    U32,
    I32,
    U16,
    I16,
    U8,
    I8,
}

impl Type {
    /// The tag byte of this type.
    pub open spec fn tag(self) -> u8 {
        match self {
            Type::F32 => 0x00,
            Type::Bytes(_) => 0x01,
            Type::String(_) => 0x02,
            Type::PropertyId => 0x03,
            Type::DynString => 0x04,
            Type::DynBytes => 0x05,
            Type::DynListPropertyReportV1 => 0xC0,
            Type::U128 => 0xF6,
            Type::I128 => 0xF7,
            Type::U64 => 0xF8,
            Type::I64 => 0xF9,
            Type::U32 => 0xFA,
            Type::I32 => 0xFB,
            Type::U16 => 0xFC,
            Type::I16 => 0xFD,
            Type::U8 => 0xFE,
            Type::I8 => 0xFF,
        }
    }

    /// Whether `tag` is one of the assigned type tags.
    pub open spec fn is_assigned_tag(tag: u8) -> bool {
        tag <= 0x05 || tag == 0xC0 || tag >= 0xF6
    }

    /// The bytes that stand for this type on the wire.
    pub open spec fn encoding(self) -> Seq<u8> {
        match self {
            Type::Bytes(width) => seq![0x01u8, width],
            Type::String(width) => seq![0x02u8, width],
            _ => seq![self.tag()],
        }
    }

    /// What the leading bytes of `bytes` stand for: the type and the number
    /// of bytes it takes, or the reason why they are no type.
    pub open spec fn decode(bytes: Seq<u8>) -> Result<(Type, nat), Error> {
        if bytes.len() == 0 {
            Err(Error::UnexpectedEOF)
        } else if bytes[0] == 0x01 || bytes[0] == 0x02 {
            if bytes.len() < 2 {
                Err(Error::UnexpectedEOF)
            } else if bytes[0] == 0x01 {
                Ok((Type::Bytes(bytes[1]), 2nat))
            } else {
                Ok((Type::String(bytes[1]), 2nat))
            }
        } else if bytes[0] == 0x00 {
            Ok((Type::F32, 1nat))
        } else if bytes[0] == 0x03 {
            Ok((Type::PropertyId, 1nat))
        } else if bytes[0] == 0x04 {
            Ok((Type::DynString, 1nat))
        } else if bytes[0] == 0x05 {
            Ok((Type::DynBytes, 1nat))
        } else if bytes[0] == 0xC0 {
            Ok((Type::DynListPropertyReportV1, 1nat))
        } else if bytes[0] == 0xF6 {
            Ok((Type::U128, 1nat))
        } else if bytes[0] == 0xF7 {
            Ok((Type::I128, 1nat))
        } else if bytes[0] == 0xF8 {
            Ok((Type::U64, 1nat))
        } else if bytes[0] == 0xF9 {
            Ok((Type::I64, 1nat))
        } else if bytes[0] == 0xFA {
            Ok((Type::U32, 1nat))
        } else if bytes[0] == 0xFB {
            Ok((Type::I32, 1nat))
        } else if bytes[0] == 0xFC {
            Ok((Type::U16, 1nat))
        } else if bytes[0] == 0xFD {
            Ok((Type::I16, 1nat))
        } else if bytes[0] == 0xFE {
            Ok((Type::U8, 1nat))
        } else if bytes[0] == 0xFF {
            Ok((Type::I8, 1nat))
        } else {
            Err(Error::UnknownTypeIdentifier)
        }
    }

    /// Appends the encoding of this type and returns its length.
    pub fn write<W: Write>(&self, writer: &mut W) -> (r: Result<usize, Error>)
        ensures
            appended(
                old(writer).written(),
                old(writer).room(),
                final(writer).written(),
                final(writer).room(),
                self.encoding(),
                r,
            ),
    {
        Ok(
            match self {
                Type::F32 => writer.write_u8(0x00)?,
                Type::Bytes(size) => writer.write_u8(0x01)? + writer.write_u8(*size)?,
                Type::String(size) => writer.write_u8(0x02)? + writer.write_u8(*size)?,
                Type::PropertyId => writer.write_u8(0x03)?,
                Type::DynString => writer.write_u8(0x04)?,
                Type::DynBytes => writer.write_u8(0x05)?,
                Type::DynListPropertyReportV1 => writer.write_u8(0xC0)?,
                Type::U128 => writer.write_u8(0xF6)?,
                Type::I128 => writer.write_u8(0xF7)?,
                Type::U64 => writer.write_u8(0xF8)?,
                Type::I64 => writer.write_u8(0xF9)?,
                Type::U32 => writer.write_u8(0xFA)?,
                Type::I32 => writer.write_u8(0xFB)?,
                Type::U16 => writer.write_u8(0xFC)?,
                Type::I16 => writer.write_u8(0xFD)?,
                Type::U8 => writer.write_u8(0xFE)?,
                Type::I8 => writer.write_u8(0xFF)?,
            },
        )
    }

    /// Reads one type, consuming exactly the bytes that encode it.
    pub fn read<R: Read>(reader: &mut R) -> (r: Result<Type, Error>)
        ensures
            consumed(
                old(reader).remaining(),
                final(reader).remaining(),
                Type::decode(old(reader).remaining()),
                r,
            ),
    {
        Ok(
            match reader.read_u8()? {
                0x00 => Type::F32,
                0x01 => Type::Bytes(reader.read_u8()?),
                0x02 => Type::String(reader.read_u8()?),
                0x03 => Type::PropertyId,
                0x04 => Type::DynString,
                0x05 => Type::DynBytes,
                0xC0 => Type::DynListPropertyReportV1,
                0xF6 => Type::U128,
                0xF7 => Type::I128,
                0xF8 => Type::U64,
                0xF9 => Type::I64,
                0xFA => Type::U32,
                0xFB => Type::I32,
                0xFC => Type::U16,
                0xFD => Type::I16,
                0xFE => Type::U8,
                0xFF => Type::I8,
                _ => return Err(Error::UnknownTypeIdentifier),
            },
        )
    }
}

impl Type {
    /// Decoding finds a type again at the head of any byte string that
    /// starts with its encoding, and takes exactly the encoding's length.
    pub proof fn round_trip(self, rest: Seq<u8>)
        ensures
            Type::decode(self.encoding() + rest) == Ok::<(Type, nat), Error>(
                (self, self.encoding().len()),
            ),
    {
        let bytes = self.encoding() + rest;
        assert(bytes[0] == self.encoding()[0]);
        if self.encoding().len() > 1 {
            assert(bytes[1] == self.encoding()[1]);
        }
    }

    /// A first byte outside the assigned tags is refused.
    pub proof fn unassigned_tag_is_refused(bytes: Seq<u8>)
        requires
            bytes.len() > 0,
            !Type::is_assigned_tag(bytes[0]),
        ensures
            Type::decode(bytes) == Err::<(Type, nat), Error>(Error::UnknownTypeIdentifier),
    {
    }

    /// Every proper prefix of an encoding ends before the type does.
    pub proof fn truncated_is_incomplete(self, kept: int)
        requires
            0 <= kept < self.encoding().len(),
        ensures
            Type::decode(self.encoding().take(kept)) == Err::<(Type, nat), Error>(
                Error::UnexpectedEOF,
            ),
    {
        let bytes = self.encoding().take(kept);
        if kept > 0 {
            assert(bytes[0] == self.encoding()[0]);
        }
    }
}

} // verus!
