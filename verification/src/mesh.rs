//! P3M1: bounded colored triangle meshes with rigid skeletal weights.
//! All integers and floats are little endian. Floats are carried as their
//! IEEE-754 bit patterns.
use vstd::prelude::*;
use vstd::utf8::{valid_utf8, decode_utf8};

verus! {

#[derive(Clone, Copy, Debug, PartialEq, Eq, Structural)]
pub enum AssetError {
    Truncated,
    Format,
    Limit,
    Invalid,
}

/// A little-endian `u16`.
pub open spec fn le16(b: Seq<u8>, at: int) -> u16 {
    (b[at] + 256 * b[at + 1]) as u16
}

/// A little-endian `u32`.
pub open spec fn le32(b: Seq<u8>, at: int) -> u32 {
    (b[at] + 256 * b[at + 1] + 65536 * b[at + 2] + 16777216 * b[at + 3]) as u32
}

/// An `f32` bit pattern that is neither infinite nor NaN: its exponent field
/// is not all ones.
pub open spec fn finite_bits(bits: u32) -> bool {
    (bits / 0x80_0000) % 0x100 != 0xff
}

/// Where a read of `n` bytes at `off` ends, or why it cannot happen.
pub open spec fn sp_take(b: Seq<u8>, off: int, n: int) -> Result<int, AssetError> {
    if off + n > usize::MAX {
        Err(AssetError::Limit)
    } else if off + n > b.len() {
        Err(AssetError::Truncated)
    } else {
        Ok(off + n)
    }
}

pub open spec fn sp_u8(b: Seq<u8>, off: int) -> Result<(u8, int), AssetError> {
    match sp_take(b, off, 1) {
        Ok(end) => Ok((b[off], end)),
        Err(e) => Err(e),
    }
}

pub open spec fn sp_u16(b: Seq<u8>, off: int) -> Result<(u16, int), AssetError> {
    match sp_take(b, off, 2) {
        Ok(end) => Ok((le16(b, off), end)),
        Err(e) => Err(e),
    }
}

pub open spec fn sp_u32(b: Seq<u8>, off: int) -> Result<(u32, int), AssetError> {
    match sp_take(b, off, 4) {
        Ok(end) => Ok((le32(b, off), end)),
        Err(e) => Err(e),
    }
}

/// A finite `f32`, as its bits.
pub open spec fn sp_float(b: Seq<u8>, off: int) -> Result<(u32, int), AssetError> {
    match sp_u32(b, off) {
        Ok((bits, end)) => if finite_bits(bits) {
            Ok((bits, end))
        } else {
            Err(AssetError::Invalid)
        },
        Err(e) => Err(e),
    }
}

/// A name: a `u16` byte length of at most 128, then that many bytes of UTF-8.
pub open spec fn sp_name(b: Seq<u8>, off: int) -> Result<(Seq<char>, int), AssetError> {
    match sp_u16(b, off) {
        Ok((len, at)) => if len > 128 {
            Err(AssetError::Limit)
        } else {
            match sp_take(b, at, len as int) {
                Ok(end) => if valid_utf8(b.subrange(at, end)) {
                    Ok((decode_utf8(b.subrange(at, end)), end))
                } else {
                    Err(AssetError::Invalid)
                },
                Err(e) => Err(e),
            }
        },
        Err(e) => Err(e),
    }
}

/// A `u32` element count of at most `max`.
pub open spec fn sp_count(b: Seq<u8>, off: int, max: int) -> Result<(usize, int), AssetError> {
    match sp_u32(b, off) {
        Ok((n, end)) => if n > max {
            Err(AssetError::Limit)
        } else {
            Ok((n as usize, end))
        },
        Err(e) => Err(e),
    }
}

/// Where the cursor stands after a `u32` field at `off` and a check on its
/// value failed: past the field when it was whole, else still at `off`.
pub open spec fn stop_after_u32(b: Seq<u8>, off: int) -> int {
    match sp_u32(b, off) {
        Ok((_, end)) => end,
        Err(_) => off,
    }
}

/// Where the cursor stands after a name at `off` was refused: at `off` when
/// its length is cut short, past the length when it is too long or its bytes
/// are cut short, past the bytes when they are not UTF-8.
pub open spec fn name_stop(b: Seq<u8>, off: int) -> int {
    match sp_u16(b, off) {
        Err(_) => off,
        Ok((len, at)) => if len > 128 {
            at
        } else {
            match sp_take(b, at, len as int) {
                Ok(end) => end,
                Err(_) => at,
            }
        },
    }
}

/// `core::str::from_utf8`: the bytes as a string exactly when they are
/// well-formed UTF-8, decoded as UTF-8.
#[verifier::external_body]
fn utf8_string(bytes: &[u8]) -> (r: Option<String>)
    ensures
        r is Some <==> valid_utf8(bytes@),
        r matches Some(s) ==> s@ == decode_utf8(bytes@),
{
    core::str::from_utf8(bytes).ok().map(|s| s.to_owned())
}

/// A cursor over an asset's bytes.
pub struct Reader<'a> {
    bytes: &'a [u8],
    offset: usize,
}

impl<'a> Reader<'a> {
    pub closed spec fn data(&self) -> Seq<u8> {
        self.bytes@
    }

    pub closed spec fn pos(&self) -> int {
        self.offset as int
    }

    pub fn new(bytes: &'a [u8]) -> (r: Reader<'a>)
        ensures
            r.data() == bytes@,
            r.pos() == 0,
    {
        Reader { bytes, offset: 0 }
    }

    pub fn offset(&self) -> (o: usize)
        ensures
            o == self.pos(),
    {
        self.offset
    }

    /// The next `n` bytes; the cursor moves past them only when they exist.
    pub fn take(&mut self, n: usize) -> (r: Result<&'a [u8], AssetError>)
        requires
            old(self).pos() <= old(self).data().len(),
        ensures
            final(self).data() == old(self).data(),
            final(self).pos() <= final(self).data().len(),
            match sp_take(old(self).data(), old(self).pos(), n as int) {
                Ok(end) => r matches Ok(s) && s@ == old(self).data().subrange(old(self).pos(), end)
                    && final(self).pos() == end,
                Err(e) => r == Err::<&[u8], AssetError>(e) && final(self).pos() == old(self).pos(),
            },
    {
        let end: usize = match self.offset.checked_add(n) {
            Some(end) => end,
            None => return Err(AssetError::Limit),
        };
        if end > self.bytes.len() {
            return Err(AssetError::Truncated);
        }
        let result = vstd::slice::slice_subrange(self.bytes, self.offset, end);
        self.offset = end;
        Ok(result)
    }

    pub fn u8(&mut self) -> (r: Result<u8, AssetError>)
        requires
            old(self).pos() <= old(self).data().len(),
        ensures
            final(self).data() == old(self).data(),
            final(self).pos() <= final(self).data().len(),
            match sp_u8(old(self).data(), old(self).pos()) {
                Ok((v, end)) => r == Ok::<u8, AssetError>(v) && final(self).pos() == end,
                Err(e) => r == Err::<u8, AssetError>(e) && final(self).pos() == old(self).pos(),
            },
    {
        let s = self.take(1)?;
        Ok(s[0])
    }

    pub fn u16(&mut self) -> (r: Result<u16, AssetError>)
        requires
            old(self).pos() <= old(self).data().len(),
        ensures
            final(self).data() == old(self).data(),
            final(self).pos() <= final(self).data().len(),
            match sp_u16(old(self).data(), old(self).pos()) {
                Ok((v, end)) => r == Ok::<u16, AssetError>(v) && final(self).pos() == end,
                Err(e) => r == Err::<u16, AssetError>(e) && final(self).pos() == old(self).pos(),
            },
    {
        let s = self.take(2)?;
        Ok((s[0] as u16) + (s[1] as u16) * 256)
    }

    pub fn u32(&mut self) -> (r: Result<u32, AssetError>)
        requires
            old(self).pos() <= old(self).data().len(),
        ensures
            final(self).data() == old(self).data(),
            final(self).pos() <= final(self).data().len(),
            match sp_u32(old(self).data(), old(self).pos()) {
                Ok((v, end)) => r == Ok::<u32, AssetError>(v) && final(self).pos() == end,
                Err(e) => r == Err::<u32, AssetError>(e) && final(self).pos() == old(self).pos(),
            },
    {
        let s = self.take(4)?;
        Ok((s[0] as u32) + (s[1] as u32) * 256 + (s[2] as u32) * 65536 + (s[3] as u32) * 16777216)
    }

    /// The bits of a finite `f32`; an infinity or NaN is invalid.
    pub fn float_bits(&mut self) -> (r: Result<u32, AssetError>)
        requires
            old(self).pos() <= old(self).data().len(),
        ensures
            final(self).data() == old(self).data(),
            final(self).pos() <= final(self).data().len(),
            match sp_float(old(self).data(), old(self).pos()) {
                Ok((v, end)) => r == Ok::<u32, AssetError>(v) && final(self).pos() == end,
                Err(e) => r == Err::<u32, AssetError>(e) && final(self).pos() == stop_after_u32(
                    old(self).data(),
                    old(self).pos(),
                ),
            },
    {
        let bits: u32 = self.u32()?;
        if (bits / 0x80_0000) % 0x100 == 0xff {
            return Err(AssetError::Invalid);
        }
        Ok(bits)
    }

    pub fn name(&mut self) -> (r: Result<String, AssetError>)
        requires
            old(self).pos() <= old(self).data().len(),
        ensures
            final(self).data() == old(self).data(),
            final(self).pos() <= final(self).data().len(),
            match sp_name(old(self).data(), old(self).pos()) {
                Ok((v, end)) => r matches Ok(s) && s@ == v && final(self).pos() == end,
                Err(e) => r matches Err(x) && x == e && final(self).pos() == name_stop(
                    old(self).data(),
                    old(self).pos(),
                ),
            },
    {
        let len: u16 = self.u16()?;
        if len > 128 {
            return Err(AssetError::Limit);
        }
        let bytes = self.take(len as usize)?;
        match utf8_string(bytes) {
            Some(s) => Ok(s),
            None => Err(AssetError::Invalid),
        }
    }

    pub fn count(&mut self, max: usize) -> (r: Result<usize, AssetError>)
        requires
            old(self).pos() <= old(self).data().len(),
        ensures
            final(self).data() == old(self).data(),
            final(self).pos() <= final(self).data().len(),
            match sp_count(old(self).data(), old(self).pos(), max as int) {
                Ok((v, end)) => r == Ok::<usize, AssetError>(v) && final(self).pos() == end,
                Err(e) => r == Err::<usize, AssetError>(e) && final(self).pos() == stop_after_u32(
                    old(self).data(),
                    old(self).pos(),
                ),
            },
    {
        let n: u32 = self.u32()?;
        if n as usize > max {
            return Err(AssetError::Limit);
        }
        Ok(n as usize)
    }
}

} // verus!
