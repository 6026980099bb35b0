//! Memory traits can be used to read or write data in a given target.
//! This data may be live (for example communicating with a target via
//! a debugger or an emulator), or may be at-rest (for example querying
//! an image of a running device).
//!
//! Words are little-endian: the byte at the lowest address is the least
//! significant. Addresses wrap around at the end of the 64-bit address space.
//!
//! What a device answers when one byte is read or written is not known
//! here. Each trait keeps it as a relation between the state of the device
//! before the access, the address, the outcome, and the state after it
//! ([`Read::reads`], [`Write::writes`]). The contracts of the wider accesses
//! say which byte accesses they consist of, in which order, where they stop
//! at an error, and how a word is composed of its bytes.
use vstd::prelude::*;

verus! {

/// The 16-bit word whose bytes, from the lowest address up, are `b0` and `b1`.
pub open spec fn le_u16(b0: u8, b1: u8) -> u16 {
    (b0 + 0x100 * b1) as u16
}

/// The 32-bit word whose bytes, from the lowest address up, are `b0` to `b3`.
pub open spec fn le_u32(b0: u8, b1: u8, b2: u8, b3: u8) -> u32 {
    (b0 + 0x100 * b1 + 0x1_0000 * b2 + 0x100_0000 * b3) as u32
}

/// The 64-bit word whose halves, from the lowest address up, are `low` and `high`.
pub open spec fn le_u64(low: u32, high: u32) -> u64 {
    (low + 0x1_0000_0000 * high) as u64
}

/// Composes a 16-bit word from its bytes, least significant first.
pub fn u16_from_le_bytes(b0: u8, b1: u8) -> (r: u16)
    ensures
        r == le_u16(b0, b1),
{
    let r = (b0 as u16) | ((b1 as u16) << 8);
    assert(r == b0 as u16 + 0x100 * (b1 as u16)) by (bit_vector)
        requires
            r == (b0 as u16) | ((b1 as u16) << 8),
    ;
    r
}

/// Composes a 32-bit word from its bytes, least significant first.
pub fn u32_from_le_bytes(b0: u8, b1: u8, b2: u8, b3: u8) -> (r: u32)
    ensures
        r == le_u32(b0, b1, b2, b3),
{
    let r = (b0 as u32) | ((b1 as u32) << 8) | ((b2 as u32) << 16) | ((b3 as u32) << 24);
    assert(r == b0 as u32 + 0x100 * (b1 as u32) + 0x1_0000 * (b2 as u32) + 0x100_0000 * (
    b3 as u32)) by (bit_vector)
        requires
            r == (b0 as u32) | ((b1 as u32) << 8) | ((b2 as u32) << 16) | ((b3 as u32) << 24),
    ;
    r
}

/// Composes a 64-bit word from its halves, least significant first.
pub fn u64_from_le_halves(low: u32, high: u32) -> (r: u64)
    ensures
        r == le_u64(low, high),
{
    let r = (low as u64) | ((high as u64) << 32);
    assert(r == low as u64 + 0x1_0000_0000 * (high as u64)) by (bit_vector)
        requires
            r == (low as u64) | ((high as u64) << 32),
    ;
    r
}

/// The address `count` bytes above `address`, wrapping at the end of the
/// address space.
pub open spec fn address_after(address: u64, count: nat) -> u64 {
    ((address + count) % 0x1_0000_0000_0000_0000) as u64
}

/// Whether each of `bytes` is what a step gives at its address, counted from
/// `address` up, between one of `states` and the next.
pub open spec fn run_along<T, E>(
    step: spec_fn(T, u64, Result<u8, E>, T) -> bool,
    states: Seq<T>,
    address: u64,
    bytes: Seq<u8>,
) -> bool {
    &&& states.len() == bytes.len() + 1
    &&& forall|i: int|
        0 <= i < bytes.len() ==> step(
            states[i],
            address_after(address, i as nat),
            Ok(#[trigger] bytes[i]),
            states[i + 1],
        )
}

/// Whether steps at `address` and the addresses that follow it, made one
/// after another from the state `before`, can give `bytes` and end in the
/// state `after`.
pub open spec fn run_gives<T, E>(
    step: spec_fn(T, u64, Result<u8, E>, T) -> bool,
    before: T,
    address: u64,
    bytes: Seq<u8>,
    after: T,
) -> bool {
    exists|states: Seq<T>|
        (#[trigger] run_along(step, states, address, bytes)) && states[0] == before
            && states.last() == after
}

/// Whether steps from `address` up, made one after another from the state
/// `before`, can fail with `error` after fewer than `count` bytes, and end in
/// the state `after`.
pub open spec fn run_fails<T, E>(
    step: spec_fn(T, u64, Result<u8, E>, T) -> bool,
    before: T,
    address: u64,
    count: nat,
    error: E,
    after: T,
) -> bool {
    exists|states: Seq<T>, bytes: Seq<u8>|
        bytes.len() < count && (#[trigger] run_along(step, states, address, bytes)) && states[0]
            == before && step(
            states.last(),
            address_after(address, bytes.len()),
            Err(error),
            after,
        )
}

/// The word whose bytes, from the lowest address up, are `bytes`, where they
/// are one, two, four or eight.
pub open spec fn le_word(bytes: Seq<u8>) -> u64 {
    if bytes.len() == 1 {
        bytes[0] as u64
    } else if bytes.len() == 2 {
        le_u16(bytes[0], bytes[1]) as u64
    } else if bytes.len() == 4 {
        le_u32(bytes[0], bytes[1], bytes[2], bytes[3]) as u64
    } else if bytes.len() == 8 {
        le_u64(
            le_u32(bytes[0], bytes[1], bytes[2], bytes[3]),
            le_u32(bytes[4], bytes[5], bytes[6], bytes[7]),
        )
    } else {
        0
    }
}

/// Whether steps from `address` up, made one after another from the state
/// `before`, can give the `width` bytes of `value`, least significant first,
/// and end in the state `after`.
pub open spec fn word_gives<T, E>(
    step: spec_fn(T, u64, Result<u8, E>, T) -> bool,
    before: T,
    address: u64,
    width: nat,
    value: u64,
    after: T,
) -> bool {
    exists|bytes: Seq<u8>|
        bytes.len() == width && (#[trigger] run_gives(step, before, address, bytes, after))
            && le_word(bytes) == value
}

/// A run that has not started.
pub proof fn lemma_run_start<T, E>(
    step: spec_fn(T, u64, Result<u8, E>, T) -> bool,
    before: T,
    address: u64,
)
    ensures
        run_along(step, seq![before], address, Seq::<u8>::empty()),
{
}

/// One more step extends a run.
pub proof fn lemma_run_push<T, E>(
    step: spec_fn(T, u64, Result<u8, E>, T) -> bool,
    states: Seq<T>,
    address: u64,
    bytes: Seq<u8>,
    byte: u8,
    after: T,
)
    requires
        run_along(step, states, address, bytes),
        step(states.last(), address_after(address, bytes.len()), Ok(byte), after),
    ensures
        run_along(step, states.push(after), address, bytes.push(byte)),
{
    let longer = bytes.push(byte);
    let further = states.push(after);
    assert forall|i: int| 0 <= i < longer.len() implies step(
        further[i],
        address_after(address, i as nat),
        Ok(#[trigger] longer[i]),
        further[i + 1],
    ) by {
        if i < bytes.len() {
            assert(bytes[i] == longer[i]);
        }
    }
}

/// A device that can read memory addresses. This may be a live device,
/// a core dump, or some other operation.
///
/// Only `read_u8` has to be provided. The wider reads are composed from it,
/// least significant byte first; an implementation that overrides them must
/// return the same values.
pub trait Read {
    type Error: core::fmt::Debug + core::fmt::Display;

    /// Whether reading the byte at `address`, with the device in this state,
    /// can have the outcome `outcome` and leave the device in the state
    /// `after`. A device that says nothing of its reads admits every outcome.
    open spec fn reads(&self, address: u64, outcome: Result<u8, Self::Error>, after: &Self) -> bool {
        true
    }

    /// Read one 8-bit value from the specified address.
    fn read_u8(&mut self, address: u64) -> (r: Result<u8, Self::Error>)
        ensures
            old(self).reads(address, r, final(self)),
    ;

    /// Read one 16-bit value from the specified address. The address does
    /// not need to be aligned, but performance may be improved if it is.
    fn read_u16(&mut self, address: u64) -> (r: Result<u16, Self::Error>)
        ensures
            match r {
                Ok(v) => word_gives(
                    |s: &Self, a: u64, o: Result<u8, Self::Error>, t: &Self| s.reads(a, o, t),
                    &*old(self),
                    address,
                    2,
                    v as u64,
                    &*final(self),
                ),
                Err(e) => run_fails(
                    |s: &Self, a: u64, o: Result<u8, Self::Error>, t: &Self| s.reads(a, o, t),
                    &*old(self),
                    address,
                    2,
                    e,
                    &*final(self),
                ),
            },
    {
        let ghost step = |s: &Self, a: u64, o: Result<u8, Self::Error>, t: &Self| s.reads(a, o, t);
        let ghost start: &Self = &*self;
        let ghost mut states: Seq<&Self> = seq![start];
        let ghost mut bytes: Seq<u8> = Seq::empty();
        proof {
            lemma_run_start(step, start, address);
        }
        let b0 = self.read_u8(address)?;
        proof {
            lemma_run_push(step, states, address, bytes, b0, &*self);
            states = states.push(&*self);
            bytes = bytes.push(b0);
        }
        let b1 = self.read_u8(address.wrapping_add(1))?;
        proof {
            lemma_run_push(step, states, address, bytes, b1, &*self);
            states = states.push(&*self);
            bytes = bytes.push(b1);
        }
        proof {
            assert(run_gives(step, start, address, bytes, &*self));
        }
        Ok(u16_from_le_bytes(b0, b1))
    }

    /// Read one 32-bit value from the specified address. The address does
    /// not need to be aligned, but performance may be improved if it is.
    fn read_u32(&mut self, address: u64) -> (r: Result<u32, Self::Error>)
        ensures
            match r {
                Ok(v) => word_gives(
                    |s: &Self, a: u64, o: Result<u8, Self::Error>, t: &Self| s.reads(a, o, t),
                    &*old(self),
                    address,
                    4,
                    v as u64,
                    &*final(self),
                ),
                Err(e) => run_fails(
                    |s: &Self, a: u64, o: Result<u8, Self::Error>, t: &Self| s.reads(a, o, t),
                    &*old(self),
                    address,
                    4,
                    e,
                    &*final(self),
                ),
            },
    {
        let ghost step = |s: &Self, a: u64, o: Result<u8, Self::Error>, t: &Self| s.reads(a, o, t);
        let ghost start: &Self = &*self;
        let ghost mut states: Seq<&Self> = seq![start];
        let ghost mut bytes: Seq<u8> = Seq::empty();
        proof {
            lemma_run_start(step, start, address);
        }
        let b0 = self.read_u8(address)?;
        proof {
            lemma_run_push(step, states, address, bytes, b0, &*self);
            states = states.push(&*self);
            bytes = bytes.push(b0);
        }
        let b1 = self.read_u8(address.wrapping_add(1))?;
        proof {
            lemma_run_push(step, states, address, bytes, b1, &*self);
            states = states.push(&*self);
            bytes = bytes.push(b1);
        }
        let b2 = self.read_u8(address.wrapping_add(2))?;
        proof {
            lemma_run_push(step, states, address, bytes, b2, &*self);
            states = states.push(&*self);
            bytes = bytes.push(b2);
        }
        let b3 = self.read_u8(address.wrapping_add(3))?;
        proof {
            lemma_run_push(step, states, address, bytes, b3, &*self);
            states = states.push(&*self);
            bytes = bytes.push(b3);
        }
        proof {
            assert(run_gives(step, start, address, bytes, &*self));
        }
        Ok(u32_from_le_bytes(b0, b1, b2, b3))
    }

    /// Read one 64-bit value from the specified address. The address does
    /// not need to be aligned, but performance may be improved if it is.
    fn read_u64(&mut self, address: u64) -> (r: Result<u64, Self::Error>)
        ensures
            match r {
                Ok(v) => word_gives(
                    |s: &Self, a: u64, o: Result<u8, Self::Error>, t: &Self| s.reads(a, o, t),
                    &*old(self),
                    address,
                    8,
                    v as u64,
                    &*final(self),
                ),
                Err(e) => run_fails(
                    |s: &Self, a: u64, o: Result<u8, Self::Error>, t: &Self| s.reads(a, o, t),
                    &*old(self),
                    address,
                    8,
                    e,
                    &*final(self),
                ),
            },
    {
        let ghost step = |s: &Self, a: u64, o: Result<u8, Self::Error>, t: &Self| s.reads(a, o, t);
        let ghost start: &Self = &*self;
        let ghost mut states: Seq<&Self> = seq![start];
        let ghost mut bytes: Seq<u8> = Seq::empty();
        proof {
            lemma_run_start(step, start, address);
        }
        let b0 = self.read_u8(address)?;
        proof {
            lemma_run_push(step, states, address, bytes, b0, &*self);
            states = states.push(&*self);
            bytes = bytes.push(b0);
        }
        let b1 = self.read_u8(address.wrapping_add(1))?;
        proof {
            lemma_run_push(step, states, address, bytes, b1, &*self);
            states = states.push(&*self);
            bytes = bytes.push(b1);
        }
        let b2 = self.read_u8(address.wrapping_add(2))?;
        proof {
            lemma_run_push(step, states, address, bytes, b2, &*self);
            states = states.push(&*self);
            bytes = bytes.push(b2);
        }
        let b3 = self.read_u8(address.wrapping_add(3))?;
        proof {
            lemma_run_push(step, states, address, bytes, b3, &*self);
            states = states.push(&*self);
            bytes = bytes.push(b3);
        }
        let b4 = self.read_u8(address.wrapping_add(4))?;
        proof {
            lemma_run_push(step, states, address, bytes, b4, &*self);
            states = states.push(&*self);
            bytes = bytes.push(b4);
        }
        let b5 = self.read_u8(address.wrapping_add(5))?;
        proof {
            lemma_run_push(step, states, address, bytes, b5, &*self);
            states = states.push(&*self);
            bytes = bytes.push(b5);
        }
        let b6 = self.read_u8(address.wrapping_add(6))?;
        proof {
            lemma_run_push(step, states, address, bytes, b6, &*self);
            states = states.push(&*self);
            bytes = bytes.push(b6);
        }
        let b7 = self.read_u8(address.wrapping_add(7))?;
        proof {
            lemma_run_push(step, states, address, bytes, b7, &*self);
            states = states.push(&*self);
            bytes = bytes.push(b7);
        }
        proof {
            assert(run_gives(step, start, address, bytes, &*self));
        }
        Ok(u64_from_le_halves(u32_from_le_bytes(b0, b1, b2, b3), u32_from_le_bytes(b4, b5, b6, b7)))
    }

    /// Read data into the buffer. If an error occurs, then the buffer contents
    /// are undefined and may contain partial data.
    fn read(&mut self, data: &mut [u8], address: u64) -> (r: Result<(), Self::Error>)
        ensures
            final(data)@.len() == old(data)@.len(),
            match r {
                Ok(_) => run_gives(
                    |s: &Self, a: u64, o: Result<u8, Self::Error>, t: &Self| s.reads(a, o, t),
                    &*old(self),
                    address,
                    final(data)@,
                    &*final(self),
                ),
                Err(e) => run_fails(
                    |s: &Self, a: u64, o: Result<u8, Self::Error>, t: &Self| s.reads(a, o, t),
                    &*old(self),
                    address,
                    old(data)@.len(),
                    e,
                    &*final(self),
                ),
            },
    {
        let ghost step = |s: &Self, a: u64, o: Result<u8, Self::Error>, t: &Self| s.reads(a, o, t);
        let ghost start: &Self = &*self;
        let ghost mut states: Seq<&Self> = seq![start];
        let ghost mut bytes: Seq<u8> = Seq::empty();
        proof {
            lemma_run_start(step, start, address);
        }
        let mut offset: usize = 0;
        while offset < data.len()
            invariant
                data.len() == old(data).len(),
                offset <= data.len(),
                step == |s: &Self, a: u64, o: Result<u8, Self::Error>, t: &Self| s.reads(a, o, t),
                run_along(step, states, address, bytes),
                start == &*old(self),
                states[0] == start,
                states.last() == &*self,
                bytes.len() == offset,
                forall|i: int| 0 <= i < offset ==> data@[i] == #[trigger] bytes[i],
            decreases data.len() - offset,
        {
            let byte = self.read_u8(address.wrapping_add(offset as u64))?;
            data[offset] = byte;
            proof {
                lemma_run_push(step, states, address, bytes, byte, &*self);
                states = states.push(&*self);
                bytes = bytes.push(byte);
            }
            offset += 1;
        }
        proof {
            assert(data@ =~= bytes);
        }
        Ok(())
    }

    /// Indicates that a burst of data will be read. The source can use this
    /// information to buffer new contents from the target.
    fn begin(&mut self) -> (r: Result<(), Self::Error>)
        default_ensures
            r is Ok,
            &*final(self) == &*old(self),
    {
        Ok(())
    }

    /// Indicates the data access has finished.
    fn finish(&mut self) {
    }
}

/// Whether byte reads from `address` up, made one after another with the
/// device in the state `before`, can give the `width` bytes of `value`, least
/// significant first, and leave the device in the state `after`.
pub open spec fn device_gives<S: Read + ?Sized>(
    before: &S,
    address: u64,
    width: nat,
    value: u64,
    after: &S,
) -> bool {
    word_gives(
        |s: &S, a: u64, o: Result<u8, S::Error>, t: &S| s.reads(a, o, t),
        before,
        address,
        width,
        value,
        after,
    )
}

/// Whether byte reads from `address` up, made one after another with the
/// device in the state `before`, can fail with `error` after fewer than
/// `count` bytes and leave the device in the state `after`.
pub open spec fn device_fails<S: Read + ?Sized>(
    before: &S,
    address: u64,
    count: nat,
    error: S::Error,
    after: &S,
) -> bool {
    run_fails(
        |s: &S, a: u64, o: Result<u8, S::Error>, t: &S| s.reads(a, o, t),
        before,
        address,
        count,
        error,
        after,
    )
}

/// Whether a read of a word of `width` bytes at `address`, composed of byte
/// reads with the device in the state `before`, can leave the device in the
/// state `after` with `outcome`: the word, or nothing where a byte read
/// failed.
pub open spec fn device_reads<S: Read + ?Sized>(
    before: &S,
    address: u64,
    width: nat,
    outcome: Option<u64>,
    after: &S,
) -> bool {
    match outcome {
        Some(value) => device_gives(before, address, width, value, after),
        None => exists|error: S::Error| #[trigger] device_fails(before, address, width, error, after),
    }
}

/// One byte read is a read of a word of one byte.
pub proof fn lemma_byte_read<S: Read + ?Sized>(
    before: &S,
    address: u64,
    outcome: Result<u8, S::Error>,
    after: &S,
)
    requires
        before.reads(address, outcome, after),
    ensures
        match outcome {
            Ok(byte) => device_gives(before, address, 1, byte as u64, after),
            Err(error) => device_fails(before, address, 1, error, after),
        },
{
    let step = |s: &S, a: u64, o: Result<u8, S::Error>, t: &S| s.reads(a, o, t);
    lemma_run_start(step, before, address);
    match outcome {
        Ok(byte) => {
            lemma_run_push(step, seq![before], address, Seq::<u8>::empty(), byte, after);
            assert(run_gives(step, before, address, Seq::<u8>::empty().push(byte), after));
        },
        Err(error) => {},
    }
}

/// The least significant byte of a word.
pub fn low_byte(word: u64) -> (r: u8)
    ensures
        r == word % 0x100,
{
    let r = (word & 0xff) as u8;
    assert(word & 0xff == word % 0x100) by (bit_vector);
    r
}

/// The byte of `word` at `index`, counted from the least significant.
pub open spec fn le_byte(word: u64, index: int) -> u8 {
    ((word >> ((8 * index) as u64)) % 0x100) as u8
}

/// The `width` low bytes of `word`, least significant first.
pub open spec fn le_bytes(word: u64, width: nat) -> Seq<u8> {
    Seq::new(width, |i: int| le_byte(word, i))
}

/// Whether each of `bytes` is taken by a step at its address, counted from
/// `address` up, between one of `states` and the next.
pub open spec fn written_along<T, E>(
    step: spec_fn(T, u8, u64, Result<(), E>, T) -> bool,
    states: Seq<T>,
    address: u64,
    bytes: Seq<u8>,
) -> bool {
    &&& states.len() == bytes.len() + 1
    &&& forall|i: int|
        0 <= i < bytes.len() ==> step(
            states[i],
            #[trigger] bytes[i],
            address_after(address, i as nat),
            Ok(()),
            states[i + 1],
        )
}

/// Whether steps that write `bytes` from `address` up, made one after another
/// from the state `before`, can end with `outcome` in the state `after`: with
/// all of them written, or with an error at the first that was not.
pub open spec fn write_outcome<T, E>(
    step: spec_fn(T, u8, u64, Result<(), E>, T) -> bool,
    before: T,
    address: u64,
    bytes: Seq<u8>,
    outcome: Result<(), E>,
    after: T,
) -> bool {
    exists|states: Seq<T>, done: int|
        {
            &&& 0 <= done <= bytes.len()
            &&& #[trigger] written_along(step, states, address, bytes.take(done))
            &&& states[0] == before
            &&& match outcome {
                Ok(_) => done == bytes.len() && states.last() == after,
                Err(e) => done < bytes.len() && step(
                    states.last(),
                    bytes[done],
                    address_after(address, done as nat),
                    Err(e),
                    after,
                ),
            }
        }
}

/// A run of writes that has not started.
pub proof fn lemma_write_start<T, E>(
    step: spec_fn(T, u8, u64, Result<(), E>, T) -> bool,
    before: T,
    address: u64,
    bytes: Seq<u8>,
)
    ensures
        written_along(step, seq![before], address, bytes.take(0)),
{
}

/// One more written byte extends a run of writes.
pub proof fn lemma_write_push<T, E>(
    step: spec_fn(T, u8, u64, Result<(), E>, T) -> bool,
    states: Seq<T>,
    address: u64,
    bytes: Seq<u8>,
    after: T,
)
    requires
        states.len() <= bytes.len(),
        written_along(step, states, address, bytes.take(states.len() - 1)),
        step(
            states.last(),
            bytes[states.len() - 1],
            address_after(address, (states.len() - 1) as nat),
            Ok(()),
            after,
        ),
    ensures
        written_along(step, states.push(after), address, bytes.take(states.len() as int)),
{
    let done = states.len() - 1;
    let shorter = bytes.take(done);
    let longer = bytes.take(done + 1);
    let further = states.push(after);
    assert forall|i: int| 0 <= i < longer.len() implies step(
        further[i],
        #[trigger] longer[i],
        address_after(address, i as nat),
        Ok(()),
        further[i + 1],
    ) by {
        if i < done {
            assert(shorter[i] == longer[i]);
        }
    }
}

/// Write data to the device.
///
/// Only `write_u8` has to be provided. The wider writes are composed from it,
/// least significant byte first.
pub trait Write {
    type Error: core::fmt::Debug + core::fmt::Display;

    /// Whether writing `data` to the byte at `address`, with the device in
    /// this state, can have the outcome `outcome` and leave the device in the
    /// state `after`. A device that says nothing of its writes admits every
    /// outcome.
    open spec fn writes(&self, data: u8, address: u64, outcome: Result<(), Self::Error>, after: &Self) -> bool {
        true
    }

    /// Write one 8-bit value to the specified address.
    fn write_u8(&mut self, data: u8, address: u64) -> (r: Result<(), Self::Error>)
        ensures
            old(self).writes(data, address, r, final(self)),
    ;

    /// Write one 16-bit value to the specified address, least significant
    /// byte first.
    fn write_u16(&mut self, data: u16, address: u64) -> (r: Result<(), Self::Error>)
        ensures
            write_outcome(
                |s: &Self, d: u8, a: u64, o: Result<(), Self::Error>, t: &Self| s.writes(d, a, o, t),
                &*old(self),
                address,
                le_bytes(data as u64, 2),
                r,
                &*final(self),
            ),
    {
        let word: u64 = data as u64;
        let ghost step = |s: &Self, d: u8, a: u64, o: Result<(), Self::Error>, t: &Self| s.writes(d, a, o, t);
        let ghost start: &Self = &*self;
        let ghost bytes = le_bytes(word, 2);
        let ghost mut states: Seq<&Self> = seq![start];
        proof {
            assert(word >> 0 == word) by (bit_vector);
            lemma_write_start(step, start, address, bytes);
        }
        self.write_u8(low_byte(word), address)?;
        proof {
            lemma_write_push(step, states, address, bytes, &*self);
            states = states.push(&*self);
        }
        self.write_u8(low_byte(word >> 8), address.wrapping_add(1))?;
        proof {
            lemma_write_push(step, states, address, bytes, &*self);
            states = states.push(&*self);
        }
        Ok(())
    }

    /// Write one 32-bit value to the specified address, least significant
    /// byte first.
    fn write_u32(&mut self, data: u32, address: u64) -> (r: Result<(), Self::Error>)
        ensures
            write_outcome(
                |s: &Self, d: u8, a: u64, o: Result<(), Self::Error>, t: &Self| s.writes(d, a, o, t),
                &*old(self),
                address,
                le_bytes(data as u64, 4),
                r,
                &*final(self),
            ),
    {
        let word: u64 = data as u64;
        let ghost step = |s: &Self, d: u8, a: u64, o: Result<(), Self::Error>, t: &Self| s.writes(d, a, o, t);
        let ghost start: &Self = &*self;
        let ghost bytes = le_bytes(word, 4);
        let ghost mut states: Seq<&Self> = seq![start];
        proof {
            assert(word >> 0 == word) by (bit_vector);
            lemma_write_start(step, start, address, bytes);
        }
        self.write_u8(low_byte(word), address)?;
        proof {
            lemma_write_push(step, states, address, bytes, &*self);
            states = states.push(&*self);
        }
        self.write_u8(low_byte(word >> 8), address.wrapping_add(1))?;
        proof {
            lemma_write_push(step, states, address, bytes, &*self);
            states = states.push(&*self);
        }
        self.write_u8(low_byte(word >> 16), address.wrapping_add(2))?;
        proof {
            lemma_write_push(step, states, address, bytes, &*self);
            states = states.push(&*self);
        }
        self.write_u8(low_byte(word >> 24), address.wrapping_add(3))?;
        proof {
            lemma_write_push(step, states, address, bytes, &*self);
            states = states.push(&*self);
        }
        Ok(())
    }

    /// Write one 64-bit value to the specified address, least significant
    /// byte first.
    fn write_u64(&mut self, data: u64, address: u64) -> (r: Result<(), Self::Error>)
        ensures
            write_outcome(
                |s: &Self, d: u8, a: u64, o: Result<(), Self::Error>, t: &Self| s.writes(d, a, o, t),
                &*old(self),
                address,
                le_bytes(data, 8),
                r,
                &*final(self),
            ),
    {
        let word: u64 = data;
        let ghost step = |s: &Self, d: u8, a: u64, o: Result<(), Self::Error>, t: &Self| s.writes(d, a, o, t);
        let ghost start: &Self = &*self;
        let ghost bytes = le_bytes(word, 8);
        let ghost mut states: Seq<&Self> = seq![start];
        proof {
            assert(word >> 0 == word) by (bit_vector);
            lemma_write_start(step, start, address, bytes);
        }
        self.write_u8(low_byte(word), address)?;
        proof {
            lemma_write_push(step, states, address, bytes, &*self);
            states = states.push(&*self);
        }
        self.write_u8(low_byte(word >> 8), address.wrapping_add(1))?;
        proof {
            lemma_write_push(step, states, address, bytes, &*self);
            states = states.push(&*self);
        }
        self.write_u8(low_byte(word >> 16), address.wrapping_add(2))?;
        proof {
            lemma_write_push(step, states, address, bytes, &*self);
            states = states.push(&*self);
        }
        self.write_u8(low_byte(word >> 24), address.wrapping_add(3))?;
        proof {
            lemma_write_push(step, states, address, bytes, &*self);
            states = states.push(&*self);
        }
        self.write_u8(low_byte(word >> 32), address.wrapping_add(4))?;
        proof {
            lemma_write_push(step, states, address, bytes, &*self);
            states = states.push(&*self);
        }
        self.write_u8(low_byte(word >> 40), address.wrapping_add(5))?;
        proof {
            lemma_write_push(step, states, address, bytes, &*self);
            states = states.push(&*self);
        }
        self.write_u8(low_byte(word >> 48), address.wrapping_add(6))?;
        proof {
            lemma_write_push(step, states, address, bytes, &*self);
            states = states.push(&*self);
        }
        self.write_u8(low_byte(word >> 56), address.wrapping_add(7))?;
        proof {
            lemma_write_push(step, states, address, bytes, &*self);
            states = states.push(&*self);
        }
        Ok(())
    }

    /// Write the bytes of `data` to the addresses from `address` up.
    fn write(&mut self, data: &[u8], address: u64) -> (r: Result<(), Self::Error>)
        ensures
            write_outcome(
                |s: &Self, d: u8, a: u64, o: Result<(), Self::Error>, t: &Self| s.writes(d, a, o, t),
                &*old(self),
                address,
                data@,
                r,
                &*final(self),
            ),
    {
        let ghost step = |s: &Self, d: u8, a: u64, o: Result<(), Self::Error>, t: &Self| s.writes(d, a, o, t);
        let ghost start: &Self = &*self;
        let ghost mut states: Seq<&Self> = seq![start];
        proof {
            lemma_write_start(step, start, address, data@);
        }
        let mut offset: usize = 0;
        while offset < data.len()
            invariant
                offset <= data.len(),
                step == |s: &Self, d: u8, a: u64, o: Result<(), Self::Error>, t: &Self| s.writes(d, a, o, t),
                start == &*old(self),
                states.len() == offset + 1,
                written_along(step, states, address, data@.take(offset as int)),
                states[0] == start,
                states.last() == &*self,
            decreases data.len() - offset,
        {
            self.write_u8(data[offset], address.wrapping_add(offset as u64))?;
            proof {
                lemma_write_push(step, states, address, data@, &*self);
                states = states.push(&*self);
            }
            offset += 1;
        }
        Ok(())
    }

    /// Indicates that a burst of data will be written. The source can use this
    /// information to buffer new contents for the target.
    fn begin(&mut self) -> (r: Result<(), Self::Error>)
        default_ensures
            r is Ok,
            &*final(self) == &*old(self),
    {
        Ok(())
    }

    /// Indicates the data access has finished.
    fn finish(&mut self) {
    }
}

/// A device that can be read and written.
pub trait ReadWrite: Read + Write {
    type Error: core::fmt::Debug + core::fmt::Display;
}

} // verus!
