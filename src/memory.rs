//! A flat, byte-addressed memory with bounds- and alignment-checked little-endian access.
use vstd::prelude::*;

verus! {

#[derive(Clone, Copy, Debug, PartialEq, Eq, Structural)]
pub enum MemoryError {
    OutOfBounds(u32),
    MisalignedAccess(u32),
}

/// Why an access of `width` bytes at `addr` in a memory of `size` bytes fails, if it does.
/// Alignment is checked before bounds.
pub open spec fn access_error(size: nat, addr: u32, width: nat) -> Option<MemoryError> {
    if (addr as nat) % width != 0 {
        Some(MemoryError::MisalignedAccess(addr))
    } else if addr + width > size {
        Some(MemoryError::OutOfBounds(addr))
    } else {
        None
    }
}

/// The unsigned little-endian value of the two bytes at `a`.
pub open spec fn half_at(m: Seq<u8>, a: int) -> int {
    m[a] + 256 * m[a + 1]
}

/// The unsigned little-endian value of the four bytes at `a`.
pub open spec fn word_at(m: Seq<u8>, a: int) -> int {
    m[a] + 256 * m[a + 1] + 0x1_0000 * m[a + 2] + 0x100_0000 * m[a + 3]
}

/// An unsigned value of `bits` bits read as two's complement.
pub open spec fn sign_extend(v: int, bits: nat) -> int {
    if v >= vstd::arithmetic::power2::pow2((bits - 1) as nat) {
        v - vstd::arithmetic::power2::pow2(bits)
    } else {
        v
    }
}

/// `m` with the low byte of `v` written at `a`.
pub open spec fn store_byte(m: Seq<u8>, a: int, v: int) -> Seq<u8> {
    m.update(a, (v % 256) as u8)
}

/// `m` with the low two bytes of `v` written little-endian at `a`.
pub open spec fn store_half(m: Seq<u8>, a: int, v: int) -> Seq<u8> {
    m.update(a, (v % 256) as u8).update(a + 1, ((v / 256) % 256) as u8)
}

/// `m` with the low four bytes of `v` written little-endian at `a`.
pub open spec fn store_word(m: Seq<u8>, a: int, v: int) -> Seq<u8> {
    m.update(a, (v % 256) as u8).update(a + 1, ((v / 256) % 256) as u8).update(
        a + 2,
        ((v / 0x1_0000) % 256) as u8,
    ).update(a + 3, ((v / 0x100_0000) % 256) as u8)
}

pub struct Memory {
    data: Vec<u8>,
}

impl View for Memory {
    type V = Seq<u8>;

    closed spec fn view(&self) -> Seq<u8> {
        self.data@
    }
}

/// The powers of two that the sign extensions of bytes, halfwords and words use.
pub proof fn lemma_pow2_small()
    ensures
        vstd::arithmetic::power2::pow2(7) == 0x80,
        vstd::arithmetic::power2::pow2(8) == 0x100,
        vstd::arithmetic::power2::pow2(15) == 0x8000,
        vstd::arithmetic::power2::pow2(16) == 0x1_0000,
        vstd::arithmetic::power2::pow2(31) == 0x8000_0000,
        vstd::arithmetic::power2::pow2(32) == 0x1_0000_0000,
{
    vstd::arithmetic::power2::lemma2_to64();
}

/// Whether an access of `width` bytes at `addr` is aligned and in bounds; the error otherwise.
fn check_access(size: usize, addr: u32, width: u32) -> (r: Result<usize, MemoryError>)
    requires
        width == 1 || width == 2 || width == 4,
    ensures
        access_error(size as nat, addr, width as nat) matches Some(e) ==> r == Err::<
            usize,
            MemoryError,
        >(e),
        access_error(size as nat, addr, width as nat) is None ==> r == Ok::<usize, MemoryError>(
            addr as usize,
        ),
{
    if addr % width != 0 {
        return Err(MemoryError::MisalignedAccess(addr));
    }
    let a = addr as usize;
    if a >= size || size - a < width as usize {
        return Err(MemoryError::OutOfBounds(addr));
    }
    Ok(a)
}

impl Memory {
    /// A memory of `size` bytes, all zero.
    pub fn new(size: usize) -> (r: Memory)
        ensures
            r@ == Seq::new(size as nat, |_i: int| 0u8),
    {
        let data = vec![0u8; size];
        let r = Memory { data };
        assert(r@ =~= Seq::new(size as nat, |_i: int| 0u8));
        r
    }

    pub fn size(&self) -> (r: usize)
        ensures
            r == self@.len(),
    {
        self.data.len()
    }

    pub fn get_data(&self) -> (r: &Vec<u8>)
        ensures
            r@ == self@,
    {
        &self.data
    }

    /// Reads the byte at `addr`, sign-extended.
    pub fn read_byte(&self, addr: u32) -> (r: Result<i8, MemoryError>)
        ensures
            access_error(self@.len(), addr, 1) matches Some(e) ==> r == Err::<i8, MemoryError>(e),
            access_error(self@.len(), addr, 1) is None ==> (r matches Ok(v) && v == sign_extend(
                self@[addr as int] as int,
                8,
            )),
    {
        let a = match check_access(self.data.len(), addr, 1) {
            Ok(a) => a,
            Err(e) => return Err(e),
        };
        let b = self.data[a];
        proof {
            lemma_pow2_small();
        }
        if b >= 128 {
            Ok((b as i16 - 256) as i8)
        } else {
            Ok(b as i8)
        }
    }

    /// Writes `val` at `addr`.
    pub fn write_byte(&mut self, addr: u32, val: u8) -> (r: Result<(), MemoryError>)
        ensures
            access_error(old(self)@.len(), addr, 1) matches Some(e) ==> r == Err::<(), MemoryError>(
                e,
            ) && final(self)@ == old(self)@,
            access_error(old(self)@.len(), addr, 1) is None ==> r is Ok && final(self)@
                == store_byte(old(self)@, addr as int, val as int),
    {
        let a = match check_access(self.data.len(), addr, 1) {
            Ok(a) => a,
            Err(e) => return Err(e),
        };
        self.data.set(a, val);
        Ok(())
    }

    /// Reads the little-endian halfword at `addr`, sign-extended.
    pub fn read_halfword(&self, addr: u32) -> (r: Result<i16, MemoryError>)
        ensures
            access_error(self@.len(), addr, 2) matches Some(e) ==> r == Err::<i16, MemoryError>(e),
            access_error(self@.len(), addr, 2) is None ==> (r matches Ok(v) && v == sign_extend(
                half_at(self@, addr as int),
                16,
            )),
    {
        let a = match check_access(self.data.len(), addr, 2) {
            Ok(a) => a,
            Err(e) => return Err(e),
        };
        let v: u32 = self.data[a] as u32 + 256 * (self.data[a + 1] as u32);
        proof {
            lemma_pow2_small();
        }
        if v >= 0x8000 {
            Ok((v as i32 - 0x1_0000) as i16)
        } else {
            Ok(v as i16)
        }
    }

    /// Writes `val` little-endian at `addr`.
    pub fn write_halfword(&mut self, addr: u32, val: u16) -> (r: Result<(), MemoryError>)
        ensures
            access_error(old(self)@.len(), addr, 2) matches Some(e) ==> r == Err::<(), MemoryError>(
                e,
            ) && final(self)@ == old(self)@,
            access_error(old(self)@.len(), addr, 2) is None ==> r is Ok && final(self)@
                == store_half(old(self)@, addr as int, val as int),
    {
        let a = match check_access(self.data.len(), addr, 2) {
            Ok(a) => a,
            Err(e) => return Err(e),
        };
        self.data.set(a, (val % 256) as u8);
        self.data.set(a + 1, ((val / 256) % 256) as u8);
        Ok(())
    }

    /// Reads the little-endian word at `addr`.
    pub fn read_word(&self, addr: u32) -> (r: Result<i32, MemoryError>)
        ensures
            access_error(self@.len(), addr, 4) matches Some(e) ==> r == Err::<i32, MemoryError>(e),
            access_error(self@.len(), addr, 4) is None ==> (r matches Ok(v) && v == sign_extend(
                word_at(self@, addr as int),
                32,
            )),
    {
        let a = match check_access(self.data.len(), addr, 4) {
            Ok(a) => a,
            Err(e) => return Err(e),
        };
        let v: u64 = self.data[a] as u64 + 256 * (self.data[a + 1] as u64) + 0x1_0000 * (
        self.data[a + 2] as u64) + 0x100_0000 * (self.data[a + 3] as u64);
        proof {
            lemma_pow2_small();
        }
        if v >= 0x8000_0000 {
            Ok((v as i64 - 0x1_0000_0000) as i32)
        } else {
            Ok(v as i32)
        }
    }

    /// Writes `val` little-endian at `addr`.
    pub fn write_word(&mut self, addr: u32, val: i32) -> (r: Result<(), MemoryError>)
        ensures
            access_error(old(self)@.len(), addr, 4) matches Some(e) ==> r == Err::<(), MemoryError>(
                e,
            ) && final(self)@ == old(self)@,
            access_error(old(self)@.len(), addr, 4) is None ==> r is Ok && final(self)@
                == store_word(old(self)@, addr as int, crate::alu::unsigned(val)),
    {
        let a = match check_access(self.data.len(), addr, 4) {
            Ok(a) => a,
            Err(e) => return Err(e),
        };
        let u = crate::alu::to_unsigned(val);
        self.data.set(a, (u % 256) as u8);
        self.data.set(a + 1, ((u / 256) % 256) as u8);
        self.data.set(a + 2, ((u / 0x1_0000) % 256) as u8);
        self.data.set(a + 3, ((u / 0x100_0000) % 256) as u8);
        Ok(())
    }
}

} // verus!
