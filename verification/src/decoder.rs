//! A bounded byte-cursor decoder for reading serialized payloads.

use vstd::prelude::*;

verus! {

/// An error raised while decoding a serialized payload.
#[derive(Debug, Clone, Copy, PartialEq, Eq, Structural, Hash)]
pub enum DecodeError {
    BufferUnderflow { required: usize, remaining: usize },
    MaxDepthExceeded(usize),
    InvalidPayloadPrefix(u8),
}

/// A reader of serialized payloads.
pub trait Decoder: Sized {
    /// The reader's own well-formedness.
    spec fn inv(&self) -> bool;

    /// The bytes not yet consumed.
    spec fn remaining_bytes(&self) -> Seq<u8>;

    /// Checks that at least `n` bytes remain; too short an input reports how
    /// much was asked for and how much is there.
    fn require_remaining(&self, n: usize) -> (r: Result<(), DecodeError>)
        requires
            self.inv(),
        ensures
            r is Ok <==> n <= self.remaining_bytes().len(),
            r matches Err(e) ==> e == (DecodeError::BufferUnderflow {
                required: n,
                remaining: self.remaining_bytes().len() as usize,
            }),
    ;

    /// Reads one byte.
    fn read_byte(&mut self) -> (r: Result<u8, DecodeError>)
        requires
            old(self).inv(),
        ensures
            final(self).inv(),
            match r {
                Ok(b) => {
                    &&& old(self).remaining_bytes().len() > 0
                    &&& b == old(self).remaining_bytes()[0]
                    &&& final(self).remaining_bytes() == old(self).remaining_bytes().drop_first()
                },
                Err(_) => {
                    &&& old(self).remaining_bytes().len() == 0
                    &&& final(self).remaining_bytes() == old(self).remaining_bytes()
                },
            },
    ;
}

/// A decoder over an in-memory byte string.
pub struct VecDecoder {
    /// The payload being read.
    pub input: Vec<u8>,
    /// How far the reader has come.
    pub offset: usize,
    /// How deeply nested values may be.
    pub max_depth: usize,
}

impl VecDecoder {
    /// A fresh decoder at the start of `input`.
    pub fn new(input: Vec<u8>, max_depth: usize) -> (r: VecDecoder)
        ensures
            r.inv(),
            r.input@ == input@,
            r.offset == 0,
            r.max_depth == max_depth,
    {
        VecDecoder { input, offset: 0, max_depth }
    }
}

impl Decoder for VecDecoder {
    /// The cursor never passes the end of the input.
    open spec fn inv(&self) -> bool {
        self.offset <= self.input@.len()
    }

    open spec fn remaining_bytes(&self) -> Seq<u8> {
        self.input@.skip(self.offset as int)
    }

    fn require_remaining(&self, n: usize) -> (r: Result<(), DecodeError>) {
        proof {
            assert(self.remaining_bytes().len() == self.input@.len() - self.offset);
        }
        if n <= self.input.len() - self.offset {
            Ok(())
        } else {
            Err(
                DecodeError::BufferUnderflow {
                    required: n,
                    remaining: self.input.len() - self.offset,
                },
            )
        }
    }

    fn read_byte(&mut self) -> (r: Result<u8, DecodeError>) {
        if self.offset < self.input.len() {
            let b = self.input[self.offset];
            self.offset = self.offset + 1;
            proof {
                assert(final(self).remaining_bytes() =~= old(self).remaining_bytes().drop_first());
            }
            Ok(b)
        } else {
            Err(DecodeError::BufferUnderflow { required: 1, remaining: 0 })
        }
    }
}

} // verus!
