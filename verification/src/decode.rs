//! Decoding of 16-bit instruction words: sign extension, field
//! extraction, the decoder to the typed instruction form, and the proof
//! that decoding inverts encoding.

use vstd::prelude::*;

verus! {

use crate::isa::{Instruction, Register, TrapVect, spec_register, spec_trap_vect};

/// Sign-extend the low `bit_count` bits of `x` to 16 bits: if bit
/// `bit_count - 1` is set, fill the bits above it with ones.
pub open spec fn spec_sext(x: u16, bit_count: u16) -> u16
    recommends
        1 <= bit_count <= 15,
{
    if (x >> (((bit_count - 1) as u16))) & 1 == 1 {
        x | (0xFFFFu16 << bit_count)
    } else {
        x
    }
}

/// Sign-extend the low `bit_count` bits of `x` to 16 bits.
pub fn sext(x: u16, bit_count: u16) -> (r: u16)
    requires
        1 <= bit_count <= 15,
    ensures
        r == spec_sext(x, bit_count),
{
    if (x >> (bit_count - 1)) & 1 == 1 {
        x | (0xFFFF << bit_count)
    } else {
        x
    }
}

/// The numeric value sign extension denotes: for a field value below the
/// sign bit it is the identity; for one with the sign bit set it adds the
/// two's-complement bias, yielding the 16-bit representation of the
/// negative field value.
pub proof fn lemma_sext_value(x: u16, b: u16)
    requires
        1 <= b <= 15,
        x < (1u16 << b),
    ensures
        x < (1u16 << ((b - 1) as u16)) ==> spec_sext(x, b) == x,
        x >= (1u16 << ((b - 1) as u16)) ==> spec_sext(x, b) == x + 0x10000 - (1u16 << b),
{
    assert((x < (1u16 << ((b - 1) as u16)) ==> spec_sext(x, b) == x) && (x >= (1u16 << ((b
        - 1) as u16)) ==> spec_sext(x, b) == x + 0x10000 - (1u16 << b))) by (bit_vector)
        requires
            1 <= b <= 15,
            x < (1u16 << b),
    ;
}

/// The opcode: the top 4 bits of a word.
pub open spec fn spec_opc(i: u16) -> u16 {
    i >> 12u16
}

/// The opcode of an instruction word, as an index into the 16-way
/// dispatch.
pub fn opc(i: u16) -> (r: usize)
    ensures
        r == spec_opc(i),
{
    (i >> 12) as usize
}

/// The destination (or source, for stores) register field, bits 11..9.
pub open spec fn spec_dr(i: u16) -> u16 {
    (i >> 9u16) & 0x7
}

/// The destination register field of a word.
pub fn dr(i: u16) -> (r: u16)
    ensures
        r == spec_dr(i),
{
    (i >> 9) & 0x7
}

/// The first source register field, bits 8..6.
pub open spec fn spec_sr1(i: u16) -> u16 {
    (i >> 6u16) & 0x7
}

/// The first source register field of a word.
pub fn sr1(i: u16) -> (r: u16)
    ensures
        r == spec_sr1(i),
{
    (i >> 6) & 0x7
}

/// The base register field, bits 8..6 (the same bits as `sr1`).
pub fn base_r(i: u16) -> (r: u16)
    ensures
        r == spec_sr1(i),
{
    (i >> 6) & 0x7
}

/// The sign-extended 6-bit offset field.
pub open spec fn spec_offset_6(i: u16) -> u16 {
    spec_sext(i & 0x3F, 6)
}

/// The sign-extended 6-bit offset of a word.
pub fn offset_6(i: u16) -> (r: u16)
    ensures
        r == spec_offset_6(i),
{
    sext(i & 0x3F, 6)
}

/// The sign-extended 9-bit offset field.
pub open spec fn spec_offset_9(i: u16) -> u16 {
    spec_sext(i & 0x1FF, 9)
}

/// The sign-extended 9-bit offset of a word.
pub fn offset_9(i: u16) -> (r: u16)
    ensures
        r == spec_offset_9(i),
{
    sext(i & 0x1FF, 9)
}

/// The sign-extended 11-bit offset field.
pub open spec fn spec_offset_11(i: u16) -> u16 {
    spec_sext(i & 0x7FF, 11)
}

/// The sign-extended 11-bit offset of a word.
pub fn offset_11(i: u16) -> (r: u16)
    ensures
        r == spec_offset_11(i),
{
    sext(i & 0x7FF, 11)
}

/// Bounds on every field a word can be taken apart into.
pub proof fn lemma_field_bounds(i: u16)
    by (bit_vector)
    ensures
        i >> 12u16 < 16,
        (i >> 9u16) & 0x7 < 8,
        (i >> 6u16) & 0x7 < 8,
        i & 0x7 < 8,
        (i >> 11u16) & 1 < 2,
        (i >> 10u16) & 1 < 2,
        (i >> 5u16) & 1 < 2,
        i & 0x1F < 0x20,
        i & 0x3F < 0x40,
        i & 0xFF < 0x100,
        i & 0x1FF < 0x200,
        i & 0x7FF < 0x800,
{
}

/// Decode a word to its typed instruction. Every word with a valid trap
/// vector decodes; a trap word with a vector outside 0x20..=0x27 does
/// not. Bits the machine ignores (the low bits of Not, Jmp and Jsrr, the
/// unused bits of Rti and Res, bits 4..3 of the register forms of Add and
/// And) are dropped.
pub open spec fn spec_decode(w: u16) -> Option<Instruction> {
    let op = w >> 12u16;
    if op == 0 {
        Some(
            Instruction::Br(
                (w >> 11u16) & 1 == 1,
                (w >> 10u16) & 1 == 1,
                (w >> 9u16) & 1 == 1,
                w & 0x1FF,
            ),
        )
    } else if op == 1 {
        if (w >> 5u16) & 1 == 1 {
            Some(Instruction::Add2(spec_register(spec_dr(w)), spec_register(spec_sr1(w)), w & 0x1F))
        } else {
            Some(
                Instruction::Add1(
                    spec_register(spec_dr(w)),
                    spec_register(spec_sr1(w)),
                    spec_register(w & 0x7),
                ),
            )
        }
    } else if op == 2 {
        Some(Instruction::Ld(spec_register(spec_dr(w)), w & 0x1FF))
    } else if op == 3 {
        Some(Instruction::St(spec_register(spec_dr(w)), w & 0x1FF))
    } else if op == 4 {
        if (w >> 11u16) & 1 == 1 {
            Some(Instruction::Jsr(w & 0x7FF))
        } else {
            Some(Instruction::Jsrr(spec_register(spec_sr1(w))))
        }
    } else if op == 5 {
        if (w >> 5u16) & 1 == 1 {
            Some(Instruction::And2(spec_register(spec_dr(w)), spec_register(spec_sr1(w)), w & 0x1F))
        } else {
            Some(
                Instruction::And1(
                    spec_register(spec_dr(w)),
                    spec_register(spec_sr1(w)),
                    spec_register(w & 0x7),
                ),
            )
        }
    } else if op == 6 {
        Some(Instruction::Ldr(spec_register(spec_dr(w)), spec_register(spec_sr1(w)), w & 0x3F))
    } else if op == 7 {
        Some(Instruction::Str(spec_register(spec_dr(w)), spec_register(spec_sr1(w)), w & 0x3F))
    } else if op == 8 {
        Some(Instruction::Rti)
    } else if op == 9 {
        Some(Instruction::Not(spec_register(spec_dr(w)), spec_register(spec_sr1(w))))
    } else if op == 10 {
        Some(Instruction::Ldi(spec_register(spec_dr(w)), w & 0x1FF))
    } else if op == 11 {
        Some(Instruction::Sti(spec_register(spec_dr(w)), w & 0x1FF))
    } else if op == 12 {
        Some(Instruction::Jmp(spec_register(spec_sr1(w))))
    } else if op == 13 {
        Some(Instruction::Res)
    } else if op == 14 {
        Some(Instruction::Lea(spec_register(spec_dr(w)), w & 0x1FF))
    } else {
        if 0x20 <= (w & 0xFF) && (w & 0xFF) <= 0x27 {
            Some(Instruction::Trap(spec_trap_vect(w & 0xFF)))
        } else {
            None
        }
    }
}

/// Decode a word to its typed instruction, or `None` for a trap word
/// whose vector lies outside 0x20..=0x27.
pub fn decode(w: u16) -> (r: Option<Instruction>)
    ensures
        r == spec_decode(w),
{
    proof {
        lemma_field_bounds(w);
    }
    let op = w >> 12;
    if op == 0 {
        Some(
            Instruction::Br((w >> 11) & 1 == 1, (w >> 10) & 1 == 1, (w >> 9) & 1 == 1, w & 0x1FF),
        )
    } else if op == 1 {
        if (w >> 5) & 1 == 1 {
            Some(
                Instruction::Add2(
                    Register::from_code(dr(w)),
                    Register::from_code(sr1(w)),
                    w & 0x1F,
                ),
            )
        } else {
            Some(
                Instruction::Add1(
                    Register::from_code(dr(w)),
                    Register::from_code(sr1(w)),
                    Register::from_code(w & 0x7),
                ),
            )
        }
    } else if op == 2 {
        Some(Instruction::Ld(Register::from_code(dr(w)), w & 0x1FF))
    } else if op == 3 {
        Some(Instruction::St(Register::from_code(dr(w)), w & 0x1FF))
    } else if op == 4 {
        if (w >> 11) & 1 == 1 {
            Some(Instruction::Jsr(w & 0x7FF))
        } else {
            Some(Instruction::Jsrr(Register::from_code(sr1(w))))
        }
    } else if op == 5 {
        if (w >> 5) & 1 == 1 {
            Some(
                Instruction::And2(
                    Register::from_code(dr(w)),
                    Register::from_code(sr1(w)),
                    w & 0x1F,
                ),
            )
        } else {
            Some(
                Instruction::And1(
                    Register::from_code(dr(w)),
                    Register::from_code(sr1(w)),
                    Register::from_code(w & 0x7),
                ),
            )
        }
    } else if op == 6 {
        Some(Instruction::Ldr(Register::from_code(dr(w)), Register::from_code(sr1(w)), w & 0x3F))
    } else if op == 7 {
        Some(Instruction::Str(Register::from_code(dr(w)), Register::from_code(sr1(w)), w & 0x3F))
    } else if op == 8 {
        Some(Instruction::Rti)
    } else if op == 9 {
        Some(Instruction::Not(Register::from_code(dr(w)), Register::from_code(sr1(w))))
    } else if op == 10 {
        Some(Instruction::Ldi(Register::from_code(dr(w)), w & 0x1FF))
    } else if op == 11 {
        Some(Instruction::Sti(Register::from_code(dr(w)), w & 0x1FF))
    } else if op == 12 {
        Some(Instruction::Jmp(Register::from_code(sr1(w))))
    } else if op == 13 {
        Some(Instruction::Res)
    } else if op == 14 {
        Some(Instruction::Lea(Register::from_code(dr(w)), w & 0x1FF))
    } else {
        let v = w & 0xFF;
        if 0x20 <= v && v <= 0x27 {
            Some(Instruction::Trap(trap_from_vect(v)))
        } else {
            None
        }
    }
}

/// The trap named by a vector.
pub fn trap_from_vect(v: u16) -> (r: TrapVect)
    requires
        0x20 <= v <= 0x27,
    ensures
        r == spec_trap_vect(v),
{
    if v == 0x20 {
        TrapVect::GetC
    } else if v == 0x21 {
        TrapVect::OutC
    } else if v == 0x22 {
        TrapVect::PutS
    } else if v == 0x23 {
        TrapVect::In
    } else if v == 0x24 {
        TrapVect::PutSp
    } else if v == 0x25 {
        TrapVect::Halt
    } else if v == 0x26 {
        TrapVect::InU16
    } else {
        TrapVect::OutU16
    }
}

/// Placing a field below bit 5 leaves bit 5 clear.
proof fn lemma_rt_small(t: u16)
    by (bit_vector)
    requires
        t < 8,
    ensures
        t & 7 == t,
        (t >> 5u16) & 1 == 0,
{
}

/// A branch word: flag bits land in bits 11..9 and the offset in the low
/// 9 bits.
proof fn lemma_rt_br(nb: u16, zb: u16, pb: u16, off: u16)
    by (bit_vector)
    requires
        nb == 0x800 || nb == 0,
        zb == 0x400 || zb == 0,
        pb == 0x200 || pb == 0,
        off < 0x200,
    ensures
        (nb | zb | pb | off) >> 12u16 == 0,
        ((nb | zb | pb | off) >> 11u16) & 1 == (if nb == 0x800 {
            1u16
        } else {
            0u16
        }),
        ((nb | zb | pb | off) >> 10u16) & 1 == (if zb == 0x400 {
            1u16
        } else {
            0u16
        }),
        ((nb | zb | pb | off) >> 9u16) & 1 == (if pb == 0x200 {
            1u16
        } else {
            0u16
        }),
        (nb | zb | pb | off) & 0x1FF == off,
{
}

/// A word of opcode, destination register and 9-bit offset: each field
/// reads back.
proof fn lemma_rt_dr_off9(hi: u16, d: u16, off: u16)
    by (bit_vector)
    requires
        d < 8,
        off < 0x200,
        hi == 0x2000 || hi == 0x3000 || hi == 0xA000 || hi == 0xB000 || hi == 0xE000,
    ensures
        hi == 0x2000 ==> (hi | (d << 9u16) | off) >> 12u16 == 2,
        hi == 0x3000 ==> (hi | (d << 9u16) | off) >> 12u16 == 3,
        hi == 0xA000 ==> (hi | (d << 9u16) | off) >> 12u16 == 10,
        hi == 0xB000 ==> (hi | (d << 9u16) | off) >> 12u16 == 11,
        hi == 0xE000 ==> (hi | (d << 9u16) | off) >> 12u16 == 14,
        ((hi | (d << 9u16) | off) >> 9u16) & 7 == d,
        (hi | (d << 9u16) | off) & 0x1FF == off,
{
}

/// A word of opcode, two register fields and a low 6-bit field: each
/// field reads back.
proof fn lemma_rt_rr_low(hi: u16, d: u16, s: u16, low: u16)
    by (bit_vector)
    requires
        d < 8,
        s < 8,
        low < 0x40,
        hi == 0x1000 || hi == 0x5000 || hi == 0x6000 || hi == 0x7000 || hi == 0x9000,
    ensures
        hi == 0x1000 ==> (hi | (d << 9u16) | (s << 6u16) | low) >> 12u16 == 1,
        hi == 0x5000 ==> (hi | (d << 9u16) | (s << 6u16) | low) >> 12u16 == 5,
        hi == 0x6000 ==> (hi | (d << 9u16) | (s << 6u16) | low) >> 12u16 == 6,
        hi == 0x7000 ==> (hi | (d << 9u16) | (s << 6u16) | low) >> 12u16 == 7,
        hi == 0x9000 ==> (hi | (d << 9u16) | (s << 6u16) | low) >> 12u16 == 9,
        ((hi | (d << 9u16) | (s << 6u16) | low) >> 9u16) & 7 == d,
        ((hi | (d << 9u16) | (s << 6u16) | low) >> 6u16) & 7 == s,
        (hi | (d << 9u16) | (s << 6u16) | low) & 0x3F == low,
        (hi | (d << 9u16) | (s << 6u16) | low) & 0x1F == low & 0x1F,
        (hi | (d << 9u16) | (s << 6u16) | low) & 7 == low & 7,
        ((hi | (d << 9u16) | (s << 6u16) | low) >> 5u16) & 1 == (low >> 5u16) & 1,
{
}

/// A word of opcode, two register fields, bit 5 set and a 5-bit
/// immediate: each field reads back.
proof fn lemma_rt_rr_imm(hi: u16, d: u16, s: u16, m: u16)
    by (bit_vector)
    requires
        d < 8,
        s < 8,
        m < 0x20,
        hi == 0x1000 || hi == 0x5000,
    ensures
        hi == 0x1000 ==> (hi | (d << 9u16) | (s << 6u16) | 0x20u16 | m) >> 12u16 == 1,
        hi == 0x5000 ==> (hi | (d << 9u16) | (s << 6u16) | 0x20u16 | m) >> 12u16 == 5,
        ((hi | (d << 9u16) | (s << 6u16) | 0x20u16 | m) >> 9u16) & 7 == d,
        ((hi | (d << 9u16) | (s << 6u16) | 0x20u16 | m) >> 6u16) & 7 == s,
        (hi | (d << 9u16) | (s << 6u16) | 0x20u16 | m) & 0x1F == m,
        ((hi | (d << 9u16) | (s << 6u16) | 0x20u16 | m) >> 5u16) & 1 == 1,
{
}

/// A long subroutine-jump word: bit 11 is set and the 11-bit offset
/// reads back.
proof fn lemma_rt_jsr(off: u16)
    by (bit_vector)
    requires
        off < 0x800,
    ensures
        (0x4800u16 | off) >> 12u16 == 4,
        ((0x4800u16 | off) >> 11u16) & 1 == 1,
        (0x4800u16 | off) & 0x7FF == off,
{
}

/// A register-indirect jump word: bit 11 is clear and the base register
/// reads back.
proof fn lemma_rt_base(hi: u16, b: u16)
    by (bit_vector)
    requires
        b < 8,
        hi == 0x4000 || hi == 0xC000,
    ensures
        hi == 0x4000 ==> (hi | (b << 6u16)) >> 12u16 == 4,
        hi == 0xC000 ==> (hi | (b << 6u16)) >> 12u16 == 12,
        ((hi | (b << 6u16)) >> 11u16) & 1 == 0,
        ((hi | (b << 6u16)) >> 6u16) & 7 == b,
{
}

/// A trap word: the vector reads back from the low byte.
proof fn lemma_rt_trap(v: u16)
    by (bit_vector)
    requires
        v <= 0xFF,
    ensures
        (0xF000u16 | v) >> 12u16 == 15,
        (0xF000u16 | v) & 0xFF == v,
{
}

/// The two field-free words.
proof fn lemma_rt_fieldless()
    by (bit_vector)
    ensures
        0x8000u16 >> 12u16 == 8,
        0xD000u16 >> 12u16 == 13,
{
}

/// The register named by a register's own code is that register.
pub proof fn lemma_register_roundtrip(r: Register)
    ensures
        spec_register(r.code()) == r,
{
}

/// The trap named by a trap's own vector is that trap.
pub proof fn lemma_trap_roundtrip(t: TrapVect)
    ensures
        spec_trap_vect(t.vect()) == t,
{
}

/// Decoding inverts encoding: every well-formed instruction decodes from
/// its own word back to itself.
#[verifier::rlimit(100)]
pub proof fn lemma_decode_bytecode(i: Instruction)
    requires
        i.wf(),
    ensures
        spec_decode(i.spec_bytecode()) == Some(i),
{
    match i {
        Instruction::Br(n, z, p, off9) => {
            let nb: u16 = if n { 0x800 } else { 0 };
            let zb: u16 = if z { 0x400 } else { 0 };
            let pb: u16 = if p { 0x200 } else { 0 };
            lemma_rt_br(nb, zb, pb, off9);
        },
        Instruction::Add1(dr, sr1, sr2) => {
            lemma_rt_rr_low(0x1000, dr.code(), sr1.code(), sr2.code());
            lemma_rt_small(sr2.code());
            lemma_register_roundtrip(dr);
            lemma_register_roundtrip(sr1);
            lemma_register_roundtrip(sr2);
        },
        Instruction::Add2(dr, sr1, imm5) => {
            lemma_rt_rr_imm(0x1000, dr.code(), sr1.code(), imm5);
            lemma_register_roundtrip(dr);
            lemma_register_roundtrip(sr1);
        },
        Instruction::Ld(dr, off9) => {
            lemma_rt_dr_off9(0x2000, dr.code(), off9);
            lemma_register_roundtrip(dr);
        },
        Instruction::St(sr, off9) => {
            lemma_rt_dr_off9(0x3000, sr.code(), off9);
            lemma_register_roundtrip(sr);
        },
        Instruction::Jsr(off11) => {
            lemma_rt_jsr(off11);
        },
        Instruction::Jsrr(base) => {
            lemma_rt_base(0x4000, base.code());
            lemma_register_roundtrip(base);
        },
        Instruction::And1(dr, sr1, sr2) => {
            lemma_rt_rr_low(0x5000, dr.code(), sr1.code(), sr2.code());
            lemma_rt_small(sr2.code());
            lemma_register_roundtrip(dr);
            lemma_register_roundtrip(sr1);
            lemma_register_roundtrip(sr2);
        },
        Instruction::And2(dr, sr1, imm5) => {
            lemma_rt_rr_imm(0x5000, dr.code(), sr1.code(), imm5);
            lemma_register_roundtrip(dr);
            lemma_register_roundtrip(sr1);
        },
        Instruction::Ldr(dr, base, off6) => {
            lemma_rt_rr_low(0x6000, dr.code(), base.code(), off6);
            lemma_register_roundtrip(dr);
            lemma_register_roundtrip(base);
        },
        Instruction::Str(sr, base, off6) => {
            lemma_rt_rr_low(0x7000, sr.code(), base.code(), off6);
            lemma_register_roundtrip(sr);
            lemma_register_roundtrip(base);
        },
        Instruction::Rti => {
            lemma_rt_fieldless();
        },
        Instruction::Not(dr, sr) => {
            lemma_rt_rr_low(0x9000, dr.code(), sr.code(), 0x3F);
            lemma_register_roundtrip(dr);
            lemma_register_roundtrip(sr);
        },
        Instruction::Ldi(dr, off9) => {
            lemma_rt_dr_off9(0xA000, dr.code(), off9);
            lemma_register_roundtrip(dr);
        },
        Instruction::Sti(sr, off9) => {
            lemma_rt_dr_off9(0xB000, sr.code(), off9);
            lemma_register_roundtrip(sr);
        },
        Instruction::Jmp(base) => {
            lemma_rt_base(0xC000, base.code());
            lemma_register_roundtrip(base);
        },
        Instruction::Res => {
            lemma_rt_fieldless();
        },
        Instruction::Lea(dr, off9) => {
            lemma_rt_dr_off9(0xE000, dr.code(), off9);
            lemma_register_roundtrip(dr);
        },
        Instruction::Trap(t) => {
            lemma_rt_trap(t.vect());
            lemma_trap_roundtrip(t);
        },
    }
}

/// The flag mask a branch tests is the three flag bits read as a 3-bit
/// field: N at bit 11, Z at bit 10, P at bit 9 land on the flag values
/// 4, 2 and 1.
pub proof fn lemma_br_mask(i: u16)
    by (bit_vector)
    ensures
        (i >> 9u16) & 0x7 == (if (i >> 11u16) & 1 == 1 {
            4u16
        } else {
            0u16
        }) | (if (i >> 10u16) & 1 == 1 {
            2u16
        } else {
            0u16
        }) | (if (i >> 9u16) & 1 == 1 {
            1u16
        } else {
            0u16
        }),
{
}

} // verus!
