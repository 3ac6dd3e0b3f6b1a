//! The padded block that a scalar kernel hashes: address, block and nonce,
//! followed by the padding of a 33-byte message.

use crate::address::Address;
use crate::text::{as_text, lemma_ascii_text, text_of};
use vstd::prelude::*;
use vstd::string::*;

verus! {

/// Six bits of the counter `n`, from bit `shift` on, as a printable byte.
pub open spec fn six_bits(n: u64, shift: u64) -> u8 {
    (((n >> shift) & 0x3f) + 32) as u8
}

/// The eleven bytes that stand for the counter `n` in the message.
pub open spec fn nonce_bytes(n: u64) -> Seq<u8> {
    Seq::new(11, |i: int| six_bits(n, (6 * i) as u64))
}

/// The padding of a 33-byte message: the end mark, zero bytes, and the
/// length in bits, 264, as a big-endian number.
pub open spec fn padding() -> Seq<u8> {
    Seq::new(
        31,
        |i: int|
            if i == 0 {
                0x80u8
            } else if i == 29 {
                0x01u8
            } else if i == 30 {
                0x08u8
            } else {
                0u8
            },
    )
}

/// The 33-byte message of an address, a block and a counter.
pub open spec fn message(address: Seq<u8>, block: Seq<u8>, n: u64) -> Seq<u8> {
    address + block + nonce_bytes(n)
}

/// The padded 64-byte block of an address, a block and a counter.
pub open spec fn layout(address: Seq<u8>, block: Seq<u8>, n: u64) -> Seq<u8> {
    message(address, block, n) + padding()
}

/// The counter that follows `n` after `k` steps, wrapping at 2^64.
pub open spec fn counter_after(n: u64, k: nat) -> u64 {
    ((n + k) % 0x1_0000_0000_0000_0000) as u64
}

/// What a kernel input holds.
pub struct InputView {
    /// The ten bytes of the address.
    pub address: Seq<u8>,
    /// The twelve bytes of the block.
    pub block: Seq<u8>,
    /// The counter that the nonce stands for.
    pub counter: u64,
}

/// A type that can be used to efficiently feed input to a CPU miner kernel.
pub trait KernelInput: Sized {
    /// What a kernel returns for an input of this type.
    type Score;

    /// Create a new instance with the given address and nonce.
    fn new(address: Address, nonce: u64) -> Self;

    /// Set the block.
    fn set_block(&mut self, block: &[u8; 12]);

    /// Increment the nonce for the next cycle.
    fn increment_nonce(&mut self);

    /// The nonce as a string, where the score solves the work.
    fn get_solution(&mut self, work: u64, score: Self::Score) -> Option<String>;
}

/// A type to manage miner digest input for scalar kernels.
#[derive(Clone, Copy)]
pub struct ScalarKernelInput {
    data: [u8; 64],
    nonce: u64,
}

impl View for ScalarKernelInput {
    type V = InputView;

    closed spec fn view(&self) -> InputView {
        InputView {
            address: self.data@.subrange(0, 10),
            block: self.data@.subrange(10, 22),
            counter: self.nonce,
        }
    }
}

impl ScalarKernelInput {
    /// The length of the nonce, in bytes.
    pub const NONCE_LENGTH: usize = 11;

    /// The length of the message, in bytes.
    pub const LENGTH: usize = 33;

    /// The 64 bytes of the padded block.
    pub closed spec fn bytes(&self) -> Seq<u8> {
        self.data@
    }

    /// The block is laid out as the address, the block and the counter ask.
    pub open spec fn wf(&self) -> bool {
        &&& self@.address.len() == 10
        &&& self@.block.len() == 12
        &&& self.bytes() == layout(self@.address, self@.block, self@.counter)
    }

    #[verifier::type_invariant]
    spec fn inv(self) -> bool {
        self.data@ == layout(self.data@.subrange(0, 10), self.data@.subrange(10, 22), self.nonce)
    }

    /// Create a new instance with the given address and nonce. The block is
    /// zero until it is set, and the counter starts one after `nonce`.
    pub fn new(address: Address, nonce: u64) -> (input: ScalarKernelInput)
        ensures
            input.wf(),
            input@.address == address@,
            input@.block == Seq::new(12, |i: int| 0u8),
            input@.counter == counter_after(nonce, 1),
    {
        let n: u64 = nonce.wrapping_add(1);
        let mut data: [u8; 64] = [0u8; 64];
        let a = address.as_bytes();
        let mut i: usize = 0;
        while i < 10
            invariant
                i <= 10,
                forall|j: int| 0 <= j < i ==> data@[j] == a@[j],
                forall|j: int| i <= j < 64 ==> data@[j] == 0,
            decreases 10 - i,
        {
            data[i] = a[i];
            i += 1;
        }
        data[33] = 0x80;
        data[62] = 0x01;
        data[63] = 0x08;
        let data = write_nonce(data, n);
        assert(data@ =~= layout(data@.subrange(0, 10), data@.subrange(10, 22), n));
        assert(data@.subrange(0, 10) =~= address@);
        assert(data@.subrange(10, 22) =~= Seq::new(12, |i: int| 0u8));
        ScalarKernelInput { data, nonce: n }
    }

    /// Set the block.
    pub fn set_block(&mut self, block: &[u8; 12])
        ensures
            final(self).wf(),
            final(self)@.block == block@,
            final(self)@.address == old(self)@.address,
            final(self)@.counter == old(self)@.counter,
    {
        proof {
            use_type_invariant(&*self);
        }
        let mut data: [u8; 64] = self.data;
        let mut i: usize = 0;
        while i < 12
            invariant
                i <= 12,
                forall|j: int| 0 <= j < 10 ==> data@[j] == self.data@[j],
                forall|j: int| 22 <= j < 64 ==> data@[j] == self.data@[j],
                forall|j: int| 0 <= j < i ==> data@[10 + j] == block@[j],
            decreases 12 - i,
        {
            data[10 + i] = block[i];
            i += 1;
        }
        assert(data@.subrange(0, 10) =~= self.data@.subrange(0, 10));
        assert(data@.subrange(10, 22) =~= block@);
        assert(data@ =~= layout(data@.subrange(0, 10), data@.subrange(10, 22), self.nonce));
        *self = ScalarKernelInput { data, nonce: self.nonce };
    }

    /// Increment the nonce for the next cycle.
    pub fn increment_nonce(&mut self)
        ensures
            final(self).wf(),
            final(self)@.counter == counter_after(old(self)@.counter, 1),
            final(self)@.address == old(self)@.address,
            final(self)@.block == old(self)@.block,
    {
        proof {
            use_type_invariant(&*self);
        }
        let n: u64 = self.nonce.wrapping_add(1);
        let data = write_nonce(self.data, n);
        assert(data@.subrange(0, 10) =~= self.data@.subrange(0, 10));
        assert(data@.subrange(10, 22) =~= self.data@.subrange(10, 22));
        assert(data@ =~= layout(data@.subrange(0, 10), data@.subrange(10, 22), n));
        *self = ScalarKernelInput { data, nonce: n };
    }

    /// The nonce as a string, where the score solves the work.
    pub fn get_solution(&mut self, work: u64, score: u64) -> (solution: Option<String>)
        ensures
            *final(self) == *old(self),
            final(self).wf(),
            match solution {
                Some(s) => score <= work && s@ == text_of(nonce_bytes(old(self)@.counter)),
                None => score > work,
            },
    {
        if score <= work {
            Some(self.nonce_str().to_owned())
        } else {
            proof {
                use_type_invariant(&*self);
            }
            None
        }
    }

    /// Get an immutable reference to the expanded nonce (e.g. for submission).
    pub fn nonce(&mut self) -> (nonce: &[u8])
        ensures
            *final(self) == *old(self),
            final(self).wf(),
            nonce@ == nonce_bytes(old(self)@.counter),
    {
        proof {
            use_type_invariant(&*self);
        }
        let nonce = vstd::slice::slice_subrange(self.data.as_slice(), 22, 33);
        assert(nonce@ =~= nonce_bytes(self.nonce));
        nonce
    }

    /// The nonce as text: one character for each of its bytes.
    pub fn nonce_str(&mut self) -> (nonce: &str)
        ensures
            *final(self) == *old(self),
            final(self).wf(),
            nonce.spec_bytes() == nonce_bytes(old(self)@.counter),
            nonce@ == text_of(nonce_bytes(old(self)@.counter)),
    {
        let nonce = self.nonce();
        proof {
            lemma_nonce_printable(old(self)@.counter);
            lemma_ascii_text(nonce@);
        }
        as_text(nonce)
    }

    /// Get the data for this input: the 33 bytes of the message.
    pub fn data(&self) -> (data: &[u8])
        ensures
            self.wf(),
            data@ == message(self@.address, self@.block, self@.counter),
    {
        proof {
            use_type_invariant(self);
        }
        let data = vstd::slice::slice_subrange(self.data.as_slice(), 0, 33);
        assert(data@ =~= message(self@.address, self@.block, self@.counter));
        data
    }

    /// Get the full padded data block for this input.
    pub fn data_block(&self) -> (block: &[u8; 64])
        ensures
            self.wf(),
            block@ == self.bytes(),
    {
        proof {
            use_type_invariant(self);
        }
        &self.data
    }

    /// The nonce as an array, for a solution.
    pub fn nonce_array(&self) -> (nonce: [u8; 11])
        ensures
            self.wf(),
            nonce@ == nonce_bytes(self@.counter),
    {
        proof {
            use_type_invariant(self);
        }
        let mut nonce: [u8; 11] = [0u8; 11];
        let mut i: usize = 0;
        while i < 11
            invariant
                i <= 11,
                forall|j: int| 0 <= j < i ==> nonce@[j] == self.data@[22 + j],
            decreases 11 - i,
        {
            nonce[i] = self.data[22 + i];
            i += 1;
        }
        assert(nonce@ =~= nonce_bytes(self.nonce));
        nonce
    }
}

impl KernelInput for ScalarKernelInput {
    type Score = u64;

    fn new(address: Address, nonce: u64) -> (input: ScalarKernelInput)
        ensures
            input.wf(),
            input@.address == address@,
            input@.block == Seq::new(12, |i: int| 0u8),
            input@.counter == counter_after(nonce, 1),
    {
        ScalarKernelInput::new(address, nonce)
    }

    fn set_block(&mut self, block: &[u8; 12])
        ensures
            final(self).wf(),
            final(self)@.block == block@,
            final(self)@.address == old(self)@.address,
            final(self)@.counter == old(self)@.counter,
    {
        ScalarKernelInput::set_block(self, block)
    }

    fn increment_nonce(&mut self)
        ensures
            final(self).wf(),
            final(self)@.counter == counter_after(old(self)@.counter, 1),
            final(self)@.address == old(self)@.address,
            final(self)@.block == old(self)@.block,
    {
        ScalarKernelInput::increment_nonce(self)
    }

    fn get_solution(&mut self, work: u64, score: u64) -> (solution: Option<String>)
        ensures
            *final(self) == *old(self),
            match solution {
                Some(s) => score <= work && s@ == text_of(nonce_bytes(old(self)@.counter)),
                None => score > work,
            },
    {
        ScalarKernelInput::get_solution(self, work, score)
    }
}

/// The block `data` with the bytes of the counter `n` in the place of the nonce.
fn write_nonce(data: [u8; 64], n: u64) -> (out: [u8; 64])
    ensures
        forall|j: int| 0 <= j < 22 ==> out@[j] == data@[j],
        forall|j: int| 33 <= j < 64 ==> out@[j] == data@[j],
        out@.subrange(22, 33) == nonce_bytes(n),
{
    let mut out: [u8; 64] = data;
    let mut i: usize = 0;
    while i < 11
        invariant
            i <= 11,
            forall|j: int| 0 <= j < 22 ==> out@[j] == data@[j],
            forall|j: int| 33 <= j < 64 ==> out@[j] == data@[j],
            forall|j: int| 22 <= j < 22 + i ==> #[trigger] out@[j] == six_bits(n, (6 * (j - 22)) as u64),
        decreases 11 - i,
    {
        let shift: u64 = 6 * (i as u64);
        let slice: u64 = (n >> shift) & 0x3f;
        assert(slice <= 0x3f) by (bit_vector)
            requires
                slice == (n >> shift) & 0x3f,
        ;
        out[22 + i] = (slice + 32) as u8;
        i += 1;
    }
    assert(out@.subrange(22, 33) =~= nonce_bytes(n));
    out
}

/// Every byte of a nonce is printable ASCII, from the space to the underscore.
pub proof fn lemma_nonce_printable(n: u64)
    ensures
        forall|i: int| 0 <= i < 11 ==> 0x20 <= #[trigger] nonce_bytes(n)[i] <= 0x5f,
{
    assert forall|i: int| 0 <= i < 11 implies 0x20 <= #[trigger] nonce_bytes(n)[i] <= 0x5f by {
        let shift = (6 * i) as u64;
        let slice = (n >> shift) & 0x3f;
        assert(slice <= 0x3f) by (bit_vector)
            requires
                slice == (n >> shift) & 0x3f,
        ;
    }
}

/// Stepping a counter `a` times and then `b` times is stepping it `a + b` times.
pub proof fn lemma_counter_after_twice(n: u64, a: nat, b: nat)
    ensures
        counter_after(counter_after(n, a), b) == counter_after(n, a + b),
{
    let m = 0x1_0000_0000_0000_0000int;
    let x = n + a;
    assert(((x % m) + b) % m == (x + b) % m) by {
        vstd::arithmetic::div_mod::lemma_add_mod_noop(x, b as int, m);
        vstd::arithmetic::div_mod::lemma_mod_twice(x, m);
        vstd::arithmetic::div_mod::lemma_add_mod_noop(x % m, b as int, m);
    }
}

/// Two counters with the same nonce bytes are the same counter.
pub proof fn lemma_nonce_injective(a: u64, b: u64)
    requires
        nonce_bytes(a) == nonce_bytes(b),
    ensures
        a == b,
{
    assert(forall|i: int| 0 <= i < 11 ==> nonce_bytes(a)[i] == nonce_bytes(b)[i]);
    assert(nonce_bytes(a)[0] == six_bits(a, 0) && nonce_bytes(b)[0] == six_bits(b, 0));
    assert(nonce_bytes(a)[1] == six_bits(a, 6) && nonce_bytes(b)[1] == six_bits(b, 6));
    assert(nonce_bytes(a)[2] == six_bits(a, 12) && nonce_bytes(b)[2] == six_bits(b, 12));
    assert(nonce_bytes(a)[3] == six_bits(a, 18) && nonce_bytes(b)[3] == six_bits(b, 18));
    assert(nonce_bytes(a)[4] == six_bits(a, 24) && nonce_bytes(b)[4] == six_bits(b, 24));
    assert(nonce_bytes(a)[5] == six_bits(a, 30) && nonce_bytes(b)[5] == six_bits(b, 30));
    assert(nonce_bytes(a)[6] == six_bits(a, 36) && nonce_bytes(b)[6] == six_bits(b, 36));
    assert(nonce_bytes(a)[7] == six_bits(a, 42) && nonce_bytes(b)[7] == six_bits(b, 42));
    assert(nonce_bytes(a)[8] == six_bits(a, 48) && nonce_bytes(b)[8] == six_bits(b, 48));
    assert(nonce_bytes(a)[9] == six_bits(a, 54) && nonce_bytes(b)[9] == six_bits(b, 54));
    assert(nonce_bytes(a)[10] == six_bits(a, 60) && nonce_bytes(b)[10] == six_bits(b, 60));
    assert(a == b) by (bit_vector)
        requires
            (((a >> 0) & 0x3f) + 32) as u8 == (((b >> 0) & 0x3f) + 32) as u8,
            (((a >> 6) & 0x3f) + 32) as u8 == (((b >> 6) & 0x3f) + 32) as u8,
            (((a >> 12) & 0x3f) + 32) as u8 == (((b >> 12) & 0x3f) + 32) as u8,
            (((a >> 18) & 0x3f) + 32) as u8 == (((b >> 18) & 0x3f) + 32) as u8,
            (((a >> 24) & 0x3f) + 32) as u8 == (((b >> 24) & 0x3f) + 32) as u8,
            (((a >> 30) & 0x3f) + 32) as u8 == (((b >> 30) & 0x3f) + 32) as u8,
            (((a >> 36) & 0x3f) + 32) as u8 == (((b >> 36) & 0x3f) + 32) as u8,
            (((a >> 42) & 0x3f) + 32) as u8 == (((b >> 42) & 0x3f) + 32) as u8,
            (((a >> 48) & 0x3f) + 32) as u8 == (((b >> 48) & 0x3f) + 32) as u8,
            (((a >> 54) & 0x3f) + 32) as u8 == (((b >> 54) & 0x3f) + 32) as u8,
            (((a >> 60) & 0x3f) + 32) as u8 == (((b >> 60) & 0x3f) + 32) as u8,
    ;
}

} // verus!
