//! A 16-bit register machine in the LC-3 tradition, together with its
//! assembler: instruction encoding and decoding, a virtual machine with
//! memory, registers and condition flags, trap service routines modelled
//! as effects, and a parser for the textual assembly language.

use vstd::prelude::*;

pub mod decode;
pub mod lexer;
pub mod isa;
pub mod parser;
pub mod vm;

verus! {

use crate::isa::Instruction;

/// An assembled program: the instructions in source order. An image file
/// is this sequence encoded big-endian behind a one-word origin header.
#[derive(Debug)]
pub struct Program {
    pub instructions: Vec<Instruction>,
}

impl Program {
    /// Every instruction is well formed, so the program can be encoded.
    pub open spec fn wf(self) -> bool {
        forall|k: int| 0 <= k < self.instructions@.len() ==> (#[trigger] self.instructions@[k]).wf()
    }
}

/// The high byte of a word.
pub open spec fn high_byte(w: u16) -> u8 {
    (w / 256) as u8
}

/// The low byte of a word.
pub open spec fn low_byte(w: u16) -> u8 {
    (w % 256) as u8
}

/// The image of an instruction sequence: the origin word 0x3000 followed
/// by each instruction's encoding, all big-endian.
pub open spec fn spec_image(instrs: Seq<Instruction>) -> Seq<u8> {
    Seq::new(
        2 + 2 * instrs.len(),
        |j: int|
            if j == 0 {
                0x30u8
            } else if j == 1 {
                0x00u8
            } else if (j - 2) % 2 == 0 {
                high_byte(instrs[(j - 2) / 2].spec_bytecode())
            } else {
                low_byte(instrs[(j - 2) / 2].spec_bytecode())
            },
    )
}

/// The two halves of the toolchain agree on every bit: an assembled
/// image carries the origin 0x3000 in its header word, the word at each
/// payload index is the encoding of that instruction, and the machine
/// decodes it back to exactly that instruction.
pub proof fn lemma_image_round_trip(instrs: Seq<Instruction>)
    requires
        forall|k: int| 0 <= k < instrs.len() ==> (#[trigger] instrs[k]).wf(),
    ensures
        spec_image(instrs).len() == 2 + 2 * instrs.len(),
        crate::vm::word_at(spec_image(instrs), 0) == 0x3000,
        forall|k: int|
            0 <= k < instrs.len() ==> crate::vm::word_at(spec_image(instrs).skip(2), k) == (
            #[trigger] instrs[k]).spec_bytecode() && crate::decode::spec_decode(
                crate::vm::word_at(spec_image(instrs).skip(2), k),
            ) == Some(instrs[k]),
{
    let img = spec_image(instrs);
    assert(img[0] == 0x30u8);
    assert(img[1] == 0x00u8);
    assert forall|k: int|
        0 <= k < instrs.len() implies crate::vm::word_at(img.skip(2), k) == (
    #[trigger] instrs[k]).spec_bytecode() && crate::decode::spec_decode(
        crate::vm::word_at(img.skip(2), k),
    ) == Some(instrs[k]) by {
        let w = instrs[k].spec_bytecode();
        assert(img.skip(2)[2 * k] == img[2 + 2 * k]);
        assert(img.skip(2)[2 * k + 1] == img[2 + 2 * k + 1]);
        assert((2 + 2 * k - 2) % 2 == 0 && (2 + 2 * k - 2) / 2 == k);
        assert((2 + 2 * k + 1 - 2) % 2 == 1 && (2 + 2 * k + 1 - 2) / 2 == k);
        assert(img[2 + 2 * k] == high_byte(w));
        assert(img[2 + 2 * k + 1] == low_byte(w));
        assert(high_byte(w) * 256 + low_byte(w) == w);
        crate::decode::lemma_decode_bytecode(instrs[k]);
    }
}

/// Serialize a program to an image: a fixed origin header of 0x3000
/// followed by each instruction's encoding, all big-endian.
pub fn serialize(program: &Program) -> (r: Vec<u8>)
    requires
        program.wf(),
    ensures
        r@ == spec_image(program.instructions@),
        r@.len() == 2 + 2 * program.instructions@.len(),
        r@[0] == 0x30u8,
        r@[1] == 0x00u8,
        forall|k: int|
            0 <= k < program.instructions@.len() ==> r@[2 + 2 * k] == high_byte(
                (#[trigger] program.instructions@[k]).spec_bytecode(),
            ) && r@[2 + 2 * k + 1] == low_byte(program.instructions@[k].spec_bytecode()),
{
    let n = program.instructions.len();
    let mut out: Vec<u8> = Vec::new();
    out.push(0x30);
    out.push(0x00);
    let mut i: usize = 0;
    while i < n
        invariant
            n == program.instructions@.len(),
            program.wf(),
            i <= n,
            out@.len() == 2 + 2 * i,
            out@[0] == 0x30u8,
            out@[1] == 0x00u8,
            forall|k: int|
                0 <= k < i ==> out@[2 + 2 * k] == high_byte(
                    (#[trigger] program.instructions@[k]).spec_bytecode(),
                ) && out@[2 + 2 * k + 1] == low_byte(program.instructions@[k].spec_bytecode()),
        decreases n - i,
    {
        let w = program.instructions[i].bytecode();
        out.push((w / 256) as u8);
        out.push((w % 256) as u8);
        i += 1;
    }
    proof {
        assert forall|j: int| 0 <= j < out@.len() implies out@[j] == spec_image(
            program.instructions@,
        )[j] by {
            if j >= 2 {
                let k = (j - 2) / 2;
                if (j - 2) % 2 == 0 {
                    assert(j == 2 + 2 * k);
                } else {
                    assert(j == 2 + 2 * k + 1);
                }
                assert(out@[2 + 2 * k] == high_byte(
                    (#[trigger] program.instructions@[k]).spec_bytecode(),
                ));
            }
        }
        assert(out@ =~= spec_image(program.instructions@));
    }
    out
}

} // verus!
