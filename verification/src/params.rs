//! The parameters of a CubeHash instance, and the errors of construction.

use vstd::prelude::*;

verus! {

/// Size of a message block in bytes.
pub const BLOCK_BYTES: usize = 32;

/// Largest output size in bytes.
pub const MAX_OUTPUT_BYTES: usize = 64;

/// Size of a MAC key in bytes.
pub const KEY_BYTES: usize = 64;

/// Why a construction was refused.
#[derive(Clone, Copy, Debug, PartialEq, Eq, Structural)]
pub enum CubeHashError {
    /// The output size is not between 1 and 64 bytes.
    InvalidParameter,
    /// The MAC key is not exactly 64 bytes long.
    InvalidKeyLength,
}

/// The round counts and the output size of an instance, checked once when
/// they are put together: the output size is between 1 and 64 bytes.
#[derive(Clone, Copy, Debug, PartialEq, Eq, Structural)]
pub struct Params {
    init_rounds: u16,
    block_rounds: u16,
    final_rounds: u16,
    output_len: usize,
}

impl Params {
    /// Rounds applied when the state is set up.
    pub closed spec fn i(self) -> nat {
        self.init_rounds as nat
    }

    /// Rounds applied after each absorbed block.
    pub closed spec fn r(self) -> nat {
        self.block_rounds as nat
    }

    /// Rounds applied when the state is closed.
    pub closed spec fn f(self) -> nat {
        self.final_rounds as nat
    }

    /// Output size in bytes.
    pub closed spec fn h(self) -> nat {
        self.output_len as nat
    }

    /// The output size is between 1 and 64 bytes.
    pub open spec fn wf(self) -> bool {
        1 <= self.h() <= 64
    }

    /// Parameters with `init_rounds` rounds at set-up, `block_rounds` rounds
    /// per block, `final_rounds` rounds at the end and an output of
    /// `output_len` bytes. The output size must be between 1 and 64.
    pub fn new(init_rounds: u16, block_rounds: u16, final_rounds: u16, output_len: usize) -> (res:
        Result<Params, CubeHashError>)
        ensures
            res is Ok <==> 1 <= output_len <= 64,
            res matches Ok(p) ==> p.wf() && p.i() == init_rounds && p.r() == block_rounds && p.f()
                == final_rounds && p.h() == output_len,
            res matches Err(e) ==> e == CubeHashError::InvalidParameter,
    {
        if output_len < 1 || output_len > MAX_OUTPUT_BYTES {
            Err(CubeHashError::InvalidParameter)
        } else {
            Ok(Params { init_rounds, block_rounds, final_rounds, output_len })
        }
    }

    /// The standard parameters: 16 rounds at set-up, 16 per block, 32 at the
    /// end, with an output of `output_len` bytes.
    pub fn standard(output_len: usize) -> (res: Result<Params, CubeHashError>)
        ensures
            res is Ok <==> 1 <= output_len <= 64,
            res matches Ok(p) ==> p.wf() && p.i() == 16 && p.r() == 16 && p.f() == 32 && p.h()
                == output_len,
            res matches Err(e) ==> e == CubeHashError::InvalidParameter,
    {
        Params::new(16, 16, 32, output_len)
    }

    /// Rounds applied when the state is set up.
    pub fn init_rounds(&self) -> (n: u16)
        ensures
            n == self.i(),
    {
        self.init_rounds
    }

    /// Rounds applied after each absorbed block.
    pub fn block_rounds(&self) -> (n: u16)
        ensures
            n == self.r(),
    {
        self.block_rounds
    }

    /// Rounds applied when the state is closed.
    pub fn final_rounds(&self) -> (n: u16)
        ensures
            n == self.f(),
    {
        self.final_rounds
    }

    /// Output size in bytes.
    pub fn output_len(&self) -> (n: usize)
        ensures
            n == self.h(),
    {
        self.output_len
    }
}

} // verus!
