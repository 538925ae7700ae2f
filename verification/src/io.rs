//! Byte-level readers and writers that every codec in this crate works on.

use vstd::prelude::*;
use vstd::slice::slice_subrange;

verus! {

/// What can go wrong while encoding or decoding.
#[derive(Copy, Clone, PartialEq, Eq, Debug, Structural)]
pub enum Error {
    /// The writer has no room left.
    BufferToSmall,
    /// The reader ran out of bytes in the middle of a field.
    UnexpectedEOF,
    /// A tag byte outside the assigned set.
    UnknownTypeIdentifier,
}

impl Error {
    /// The name of this error.
    pub fn as_str(&self) -> (name: &'static str)
        ensures
            name@ == match *self {
                Error::BufferToSmall => "BufferToSmall"@,
                Error::UnexpectedEOF => "UnexpectedEOF"@,
                Error::UnknownTypeIdentifier => "UnknownTypeIdentifier"@,
            },
    {
        match self {
            Error::BufferToSmall => "BufferToSmall",
            Error::UnexpectedEOF => "UnexpectedEOF",
            Error::UnknownTypeIdentifier => "UnknownTypeIdentifier",
        }
    }
}

/// Whether two byte strings are equal byte for byte.
pub fn same_bytes(left: &[u8], right: &[u8]) -> (same: bool)
    ensures
        same == (left@ == right@),
{
    if left.len() != right.len() {
        return false;
    }
    let mut i: usize = 0;
    while i < left.len()
        invariant
            i <= left.len(),
            left.len() == right.len(),
            left@.take(i as int) == right@.take(i as int),
        decreases left.len() - i,
    {
        if left[i] != right[i] {
            return false;
        }
        assert(left@.take(i + 1) =~= left@.take(i as int).push(left@[i as int]));
        assert(right@.take(i + 1) =~= right@.take(i as int).push(right@[i as int]));
        i += 1;
    }
    assert(left@.take(i as int) =~= left@);
    assert(right@.take(i as int) =~= right@);
    true
}

/// How a reader has moved when a decoder returned `result`, given what the
/// grammar says of the bytes that were ahead of it: on success the value is
/// the parsed one and exactly the parsed bytes are gone; on failure the error
/// is the grammar's and nothing is said of the position.
pub open spec fn consumed<T>(
    before: Seq<u8>,
    after: Seq<u8>,
    parsed: Result<(T, nat), Error>,
    result: Result<T, Error>,
) -> bool {
    match parsed {
        Ok((value, count)) => result == Ok::<T, Error>(value) && count <= before.len() && after
            =~= before.skip(count as int),
        Err(e) => result == Err::<T, Error>(e),
    }
}

/// How a writer has moved when an encoder of `bytes` returned `result`: with
/// enough room all of `bytes` were appended and their count returned;
/// otherwise the result is `BufferToSmall`, and nothing is said of how much
/// of `bytes` the writer took.
pub open spec fn appended(
    written_before: Seq<u8>,
    room_before: nat,
    written_after: Seq<u8>,
    room_after: nat,
    bytes: Seq<u8>,
    result: Result<usize, Error>,
) -> bool {
    if room_before >= bytes.len() {
        &&& result == Ok::<usize, Error>(bytes.len() as usize)
        &&& written_after =~= written_before + bytes
        &&& room_after == room_before - bytes.len()
    } else {
        result == Err::<usize, Error>(Error::BufferToSmall)
    }
}

/// A source of bytes. Its model is the sequence of bytes not yet consumed.
pub trait Read {
    /// The bytes that are still to be read, in order.
    spec fn remaining(&self) -> Seq<u8>;

    fn read_u8(&mut self) -> (r: Result<u8, Error>)
        ensures
            old(self).remaining().len() > 0 ==> r == Ok::<u8, Error>(old(self).remaining()[0])
                && final(self).remaining() == old(self).remaining().skip(1),
            old(self).remaining().len() == 0 ==> r == Err::<u8, Error>(Error::UnexpectedEOF)
                && final(self).remaining() == old(self).remaining(),
    ;

    fn available(&self) -> (n: usize)
        ensures
            n == self.remaining().len(),
    ;

    /// Fills the first `min(destination.len(), 255)` places of `destination`
    /// from the reader, or consumes nothing when fewer bytes are available.
    fn read_all(&mut self, destination: &mut [u8]) -> (r: Result<u8, Error>)
        ensures
            final(destination)@.len() == old(destination)@.len(),
            old(self).remaining().len() >= clip_to_u8(old(destination)@.len()) ==> {
                let count = clip_to_u8(old(destination)@.len()) as int;
                &&& r == Ok::<u8, Error>(count as u8)
                &&& final(destination)@ =~= old(self).remaining().take(count) + old(
                    destination,
                )@.skip(count)
                &&& final(self).remaining() =~= old(self).remaining().skip(count)
            },
            old(self).remaining().len() < clip_to_u8(old(destination)@.len()) ==> {
                &&& r == Err::<u8, Error>(Error::UnexpectedEOF)
                &&& final(destination)@ == old(destination)@
                &&& final(self).remaining() == old(self).remaining()
            },
    {
        let len: u8 = clip_len(destination.len());
        if self.available() < len as usize {
            Err(Error::UnexpectedEOF)
        } else {
            let mut i: usize = 0;
            while i < len as usize
                invariant
                    i <= len as usize,
                    len as usize <= destination@.len(),
                    destination@.len() == old(destination)@.len(),
                    len as int <= old(self).remaining().len(),
                    self.remaining() =~= old(self).remaining().skip(i as int),
                    destination@ =~= old(self).remaining().take(i as int) + old(
                        destination,
                    )@.skip(i as int),
                decreases len as usize - i,
            {
                destination[i] = self.read_u8()?;
                i += 1;
            }
            Ok(len)
        }
    }
}

/// A length as it is written into a one-byte length field: lengths above
/// 255 are clipped to 255.
pub open spec fn clip_to_u8(len: nat) -> u8 {
    if len > 255 {
        255u8
    } else {
        len as u8
    }
}

/// Clips a length to what a one-byte length field can hold.
pub fn clip_len(len: usize) -> (clipped: u8)
    ensures
        clipped == clip_to_u8(len as nat),
{
    if len > 255 {
        255
    } else {
        len as u8
    }
}

impl<'a> Read for &'a [u8] {
    open spec fn remaining(&self) -> Seq<u8> {
        (*self)@
    }

    fn read_u8(&mut self) -> (r: Result<u8, Error>) {
        if self.len() == 0 {
            Err(Error::UnexpectedEOF)
        } else {
            let first: u8 = self[0];
            let rest: &'a [u8] = slice_subrange(*self, 1, self.len());
            *self = rest;
            assert(rest@ =~= old(self).remaining().skip(1));
            Ok(first)
        }
    }

    fn available(&self) -> (n: usize) {
        self.len()
    }
}

/// A sink of bytes. Its model is the sequence produced so far and the room
/// that is left.
pub trait Write {
    /// Every byte this writer has accepted, in order.
    spec fn written(&self) -> Seq<u8>;

    /// How many more bytes this writer accepts.
    spec fn room(&self) -> nat;

    fn write_u8(&mut self, value: u8) -> (r: Result<usize, Error>)
        ensures
            old(self).room() > 0 ==> r == Ok::<usize, Error>(1)
                && final(self).written() == old(self).written().push(value)
                && final(self).room() == old(self).room() - 1,
            old(self).room() == 0 ==> r == Err::<usize, Error>(Error::BufferToSmall)
                && final(self).written() == old(self).written()
                && final(self).room() == old(self).room(),
    ;

    fn available(&self) -> (n: usize)
        ensures
            n == self.room(),
    ;

    fn write_all(&mut self, bytes: &[u8]) -> (r: Result<usize, Error>)
        ensures
            old(self).room() >= bytes@.len() ==> r == Ok::<usize, Error>(bytes.len())
                && final(self).written() == old(self).written() + bytes@
                && final(self).room() == old(self).room() - bytes@.len(),
            old(self).room() < bytes@.len() ==> r == Err::<usize, Error>(Error::BufferToSmall)
                && final(self).written() == old(self).written()
                && final(self).room() == old(self).room(),
    {
        if self.available() < bytes.len() {
            Err(Error::BufferToSmall)
        } else {
            let mut i: usize = 0;
            while i < bytes.len()
                invariant
                    i <= bytes.len(),
                    self.written() == old(self).written() + bytes@.take(i as int),
                    self.room() == old(self).room() - i,
                    old(self).room() >= bytes@.len(),
                decreases bytes.len() - i,
            {
                self.write_u8(bytes[i])?;
                assert(bytes@.take(i as int).push(bytes@[i as int]) =~= bytes@.take(i + 1));
                i += 1;
            }
            assert(bytes@.take(i as int) =~= bytes@);
            Ok(bytes.len())
        }
    }
}

impl Write for Vec<u8> {
    open spec fn written(&self) -> Seq<u8> {
        self@
    }

    open spec fn room(&self) -> nat {
        (usize::MAX - self@.len()) as nat
    }

    fn write_u8(&mut self, value: u8) -> (r: Result<usize, Error>) {
        if self.len() == usize::MAX {
            Err(Error::BufferToSmall)
        } else {
            self.push(value);
            Ok(1)
        }
    }

    fn available(&self) -> (n: usize) {
        usize::MAX - self.len()
    }
}

/// A cursor over a fixed output slice: each byte written lands at the
/// cursor, which then advances.
pub struct SliceWriter<'a> {
    buffer: &'a mut [u8],
    position: usize,
}

impl<'a> SliceWriter<'a> {
    #[verifier::type_invariant]
    spec fn within_buffer(&self) -> bool {
        self.position <= self.buffer@.len()
    }

    pub fn new(buffer: &'a mut [u8]) -> (w: Self)
        ensures
            w.written() == Seq::<u8>::empty(),
            w.room() == old(buffer)@.len(),
    {
        SliceWriter { buffer, position: 0 }
    }

    /// What has been written so far.
    pub fn as_slice(&self) -> (bytes: &[u8])
        ensures
            bytes@ == self.written(),
    {
        proof {
            use_type_invariant(self);
        }
        slice_subrange(&*self.buffer, 0, self.position)
    }
}

impl<'a> Write for SliceWriter<'a> {
    closed spec fn written(&self) -> Seq<u8> {
        self.buffer@.take(self.position as int)
    }

    closed spec fn room(&self) -> nat {
        (self.buffer@.len() - self.position) as nat
    }

    fn write_u8(&mut self, value: u8) -> (r: Result<usize, Error>) {
        proof {
            use_type_invariant(&*self);
        }
        if self.position >= self.buffer.len() {
            Err(Error::BufferToSmall)
        } else {
            self.buffer[self.position] = value;
            self.position += 1;
            assert(self.buffer@.take(self.position as int) =~= old(self).buffer@.take(
                old(self).position as int,
            ).push(value));
            Ok(1)
        }
    }

    fn available(&self) -> (n: usize) {
        proof {
            use_type_invariant(self);
        }
        self.buffer.len() - self.position
    }
}

} // verus!
