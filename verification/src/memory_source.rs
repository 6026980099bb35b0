//! A source of memory that is read through a shared reference.
//!
//! What the source answers when one byte is read is kept as a relation
//! between the address and the outcome ([`MemorySource::reads`]). The
//! contracts of the wider reads say which byte reads they consist of, in
//! which order, where they stop at an error, and how a word is composed of
//! its bytes.
use crate::memory::{
    lemma_run_push, lemma_run_start, run_along, run_fails, run_gives, u16_from_le_bytes,
    u32_from_le_bytes, u64_from_le_halves, word_gives,
};
use vstd::prelude::*;

verus! {

/// A device that can read memory addresses. This may be a live device,
/// or a core dump, or some other operation.
///
/// Only `read_u8` has to be provided. The wider reads are composed from it,
/// least significant byte first.
pub trait MemorySource {
    type Error: core::fmt::Debug + core::fmt::Display;

    /// Whether reading the byte at `address` can have the outcome `outcome`.
    /// A source that says nothing of its reads admits every outcome.
    open spec fn reads(&self, address: u64, outcome: Result<u8, Self::Error>) -> bool {
        true
    }

    /// Read one 8-bit value from the specified address.
    fn read_u8(&self, address: u64) -> (r: Result<u8, Self::Error>)
        ensures
            self.reads(address, r),
    ;

    /// Read one 16-bit value from the specified address. The address does
    /// not need to be aligned, but performance may be improved if it is.
    fn read_u16(&self, address: u64) -> (r: Result<u16, Self::Error>)
        ensures
            match r {
                Ok(v) => word_gives(
                    |s: &Self, a: u64, o: Result<u8, Self::Error>, t: &Self| s.reads(a, o) && s == t,
                    self,
                    address,
                    2,
                    v as u64,
                    self,
                ),
                Err(e) => run_fails(
                    |s: &Self, a: u64, o: Result<u8, Self::Error>, t: &Self| s.reads(a, o) && s == t,
                    self,
                    address,
                    2,
                    e,
                    self,
                ),
            },
    {
        let ghost step = |s: &Self, a: u64, o: Result<u8, Self::Error>, t: &Self| s.reads(a, o) && s == t;
        let ghost mut states: Seq<&Self> = seq![self];
        let ghost mut bytes: Seq<u8> = Seq::empty();
        proof {
            lemma_run_start(step, self, address);
        }
        let b0 = self.read_u8(address)?;
        proof {
            lemma_run_push(step, states, address, bytes, b0, self);
            states = states.push(self);
            bytes = bytes.push(b0);
        }
        let b1 = self.read_u8(address.wrapping_add(1))?;
        proof {
            lemma_run_push(step, states, address, bytes, b1, self);
            states = states.push(self);
            bytes = bytes.push(b1);
        }
        proof {
            assert(run_gives(step, self, address, bytes, self));
        }
        Ok(u16_from_le_bytes(b0, b1))
    }

    /// Read one 32-bit value from the specified address. The address does
    /// not need to be aligned, but performance may be improved if it is.
    fn read_u32(&self, address: u64) -> (r: Result<u32, Self::Error>)
        ensures
            match r {
                Ok(v) => word_gives(
                    |s: &Self, a: u64, o: Result<u8, Self::Error>, t: &Self| s.reads(a, o) && s == t,
                    self,
                    address,
                    4,
                    v as u64,
                    self,
                ),
                Err(e) => run_fails(
                    |s: &Self, a: u64, o: Result<u8, Self::Error>, t: &Self| s.reads(a, o) && s == t,
                    self,
                    address,
                    4,
                    e,
                    self,
                ),
            },
    {
        let ghost step = |s: &Self, a: u64, o: Result<u8, Self::Error>, t: &Self| s.reads(a, o) && s == t;
        let ghost mut states: Seq<&Self> = seq![self];
        let ghost mut bytes: Seq<u8> = Seq::empty();
        proof {
            lemma_run_start(step, self, address);
        }
        let b0 = self.read_u8(address)?;
        proof {
            lemma_run_push(step, states, address, bytes, b0, self);
            states = states.push(self);
            bytes = bytes.push(b0);
        }
        let b1 = self.read_u8(address.wrapping_add(1))?;
        proof {
            lemma_run_push(step, states, address, bytes, b1, self);
            states = states.push(self);
            bytes = bytes.push(b1);
        }
        let b2 = self.read_u8(address.wrapping_add(2))?;
        proof {
            lemma_run_push(step, states, address, bytes, b2, self);
            states = states.push(self);
            bytes = bytes.push(b2);
        }
        let b3 = self.read_u8(address.wrapping_add(3))?;
        proof {
            lemma_run_push(step, states, address, bytes, b3, self);
            states = states.push(self);
            bytes = bytes.push(b3);
        }
        proof {
            assert(run_gives(step, self, address, bytes, self));
        }
        Ok(u32_from_le_bytes(b0, b1, b2, b3))
    }

    /// Read one 64-bit value from the specified address. The address does
    /// not need to be aligned, but performance may be improved if it is.
    fn read_u64(&self, address: u64) -> (r: Result<u64, Self::Error>)
        ensures
            match r {
                Ok(v) => word_gives(
                    |s: &Self, a: u64, o: Result<u8, Self::Error>, t: &Self| s.reads(a, o) && s == t,
                    self,
                    address,
                    8,
                    v as u64,
                    self,
                ),
                Err(e) => run_fails(
                    |s: &Self, a: u64, o: Result<u8, Self::Error>, t: &Self| s.reads(a, o) && s == t,
                    self,
                    address,
                    8,
                    e,
                    self,
                ),
            },
    {
        let ghost step = |s: &Self, a: u64, o: Result<u8, Self::Error>, t: &Self| s.reads(a, o) && s == t;
        let ghost mut states: Seq<&Self> = seq![self];
        let ghost mut bytes: Seq<u8> = Seq::empty();
        proof {
            lemma_run_start(step, self, address);
        }
        let b0 = self.read_u8(address)?;
        proof {
            lemma_run_push(step, states, address, bytes, b0, self);
            states = states.push(self);
            bytes = bytes.push(b0);
        }
        let b1 = self.read_u8(address.wrapping_add(1))?;
        proof {
            lemma_run_push(step, states, address, bytes, b1, self);
            states = states.push(self);
            bytes = bytes.push(b1);
        }
        let b2 = self.read_u8(address.wrapping_add(2))?;
        proof {
            lemma_run_push(step, states, address, bytes, b2, self);
            states = states.push(self);
            bytes = bytes.push(b2);
        }
        let b3 = self.read_u8(address.wrapping_add(3))?;
        proof {
            lemma_run_push(step, states, address, bytes, b3, self);
            states = states.push(self);
            bytes = bytes.push(b3);
        }
        let b4 = self.read_u8(address.wrapping_add(4))?;
        proof {
            lemma_run_push(step, states, address, bytes, b4, self);
            states = states.push(self);
            bytes = bytes.push(b4);
        }
        let b5 = self.read_u8(address.wrapping_add(5))?;
        proof {
            lemma_run_push(step, states, address, bytes, b5, self);
            states = states.push(self);
            bytes = bytes.push(b5);
        }
        let b6 = self.read_u8(address.wrapping_add(6))?;
        proof {
            lemma_run_push(step, states, address, bytes, b6, self);
            states = states.push(self);
            bytes = bytes.push(b6);
        }
        let b7 = self.read_u8(address.wrapping_add(7))?;
        proof {
            lemma_run_push(step, states, address, bytes, b7, self);
            states = states.push(self);
            bytes = bytes.push(b7);
        }
        proof {
            assert(run_gives(step, self, address, bytes, self));
        }
        Ok(u64_from_le_halves(u32_from_le_bytes(b0, b1, b2, b3), u32_from_le_bytes(b4, b5, b6, b7)))
    }

    /// Read data into the buffer. If an error occurs, then the buffer contents
    /// are undefined and may contain partial data.
    fn read(&self, data: &mut [u8], address: u64) -> (r: Result<(), Self::Error>)
        ensures
            final(data)@.len() == old(data)@.len(),
            match r {
                Ok(_) => run_gives(
                    |s: &Self, a: u64, o: Result<u8, Self::Error>, t: &Self| s.reads(a, o) && s == t,
                    self,
                    address,
                    final(data)@,
                    self,
                ),
                Err(e) => run_fails(
                    |s: &Self, a: u64, o: Result<u8, Self::Error>, t: &Self| s.reads(a, o) && s == t,
                    self,
                    address,
                    old(data)@.len(),
                    e,
                    self,
                ),
            },
    {
        let ghost step = |s: &Self, a: u64, o: Result<u8, Self::Error>, t: &Self| s.reads(a, o) && s == t;
        let ghost mut states: Seq<&Self> = seq![self];
        let ghost mut bytes: Seq<u8> = Seq::empty();
        proof {
            lemma_run_start(step, self, address);
        }
        let mut offset: usize = 0;
        while offset < data.len()
            invariant
                data.len() == old(data).len(),
                offset <= data.len(),
                step == |s: &Self, a: u64, o: Result<u8, Self::Error>, t: &Self| s.reads(a, o) && s == t,
                run_along(step, states, address, bytes),
                states[0] == self,
                states.last() == self,
                bytes.len() == offset,
                forall|i: int| 0 <= i < offset ==> data@[i] == #[trigger] bytes[i],
            decreases data.len() - offset,
        {
            let byte = self.read_u8(address.wrapping_add(offset as u64))?;
            data[offset] = byte;
            proof {
                lemma_run_push(step, states, address, bytes, byte, self);
                states = states.push(self);
                bytes = bytes.push(byte);
            }
            offset += 1;
        }
        proof {
            assert(data@ =~= bytes);
        }
        Ok(())
    }

    /// Indicates that a burst of data will be read. The source can use this
    /// information to buffer new contents from the target.
    fn begin(&mut self) -> (r: Result<(), Self::Error>)
        default_ensures
            r is Ok,
            &*final(self) == &*old(self),
    {
        Ok(())
    }

    /// Indicates the data access has finished.
    fn finish(&mut self) {
    }
}

} // verus!
