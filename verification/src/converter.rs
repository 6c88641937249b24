//! Pass 2: resolves each instruction record's operands (registers,
//! immediates, symbol references) against the frozen symbol table and packs
//! opcode, register and immediate fields into a 16-bit or 32-bit word.

use vstd::prelude::*;

verus! {

use crate::error::{AsmError, AsmErrorV};
use crate::isa::{
    i16_opcode, i16_opcode_of, i32_opcode, i32_opcode_of, j_opcode, j_opcode_of, r_opcode,
    r_opcode_of, reg_index, resolve_register,
};
use crate::num::{
    parse_idec, parse_signed_dec, parse_udec, parse_uhex, parse_unsigned_dec, parse_unsigned_hex,
};
use crate::parser::{Format, FormatV, Symbol, SymbolV, wf_format, wf_symbol};
use crate::text::{
    bytes_eq, copy_bytes, has_hex_prefix, lemma_bytes_deep_view, starts_0x, strip_hex_prefix_all,
    strip_hex_prefixes,
};

broadcast use lemma_bytes_deep_view;

/// One encoded machine word: 16 or 32 bits wide.
#[derive(Debug, Clone, Copy, PartialEq, Eq, Structural)]
pub enum Word {
    Word16(u16),
    Word32(u32),
}

/// The address a symbol name resolves to: the *last* matching entry of the
/// table, as the inherited linear scan finds it.  `None` when no entry
/// matches.
pub open spec fn lookup(syms: Seq<SymbolV>, name: Seq<u8>) -> Option<int>
    decreases syms.len(),
{
    if syms.len() == 0 {
        None
    } else if syms.last().name == name {
        Some(syms.last().address)
    } else {
        lookup(syms.drop_last(), name)
    }
}

/// Resolves a symbol name against the table, last match winning.
pub fn lookup_symbol(syms: &Vec<Symbol>, name: &Vec<u8>) -> (r: Option<i64>)
    ensures
        r is Some <==> lookup(syms.deep_view(), name@) is Some,
        r matches Some(a) ==> lookup(syms.deep_view(), name@) == Some(a as int),
        r matches Some(a) ==> exists|k: int|
            0 <= k < syms@.len() && (#[trigger] syms@[k])@.address == a as int,
{
    let ghost symsv = syms.deep_view();
    proof {
        assert(forall|k: int| 0 <= k < syms@.len() ==> symsv[k] == (#[trigger] syms@[k])@);
        assert(symsv.take(syms@.len() as int) =~= symsv);
    }
    let mut i: usize = syms.len();
    while i > 0
        invariant
            i <= syms@.len(),
            symsv == syms.deep_view(),
            symsv.len() == syms@.len(),
            forall|k: int| 0 <= k < syms@.len() ==> symsv[k] == (#[trigger] syms@[k])@,
            lookup(symsv, name@) == lookup(symsv.take(i as int), name@),
        decreases i,
    {
        i -= 1;
        if bytes_eq(&syms[i].name, name) {
            proof {
                assert(symsv.take(i as int + 1).last() == symsv[i as int]);
                assert(lookup(symsv.take(i as int + 1), name@) == Some(symsv[i as int].address));
            }
            return Some(syms[i].address);
        }
        proof {
            assert(symsv.take(i as int + 1).drop_last() =~= symsv.take(i as int));
            assert(lookup(symsv.take(i as int + 1), name@) == lookup(
                symsv.take(i as int),
                name@,
            ));
        }
    }
    proof {
        assert(symsv.take(0) =~= Seq::<SymbolV>::empty());
    }
    None
}

/// The resolved I16 immediate: a hex (`0x`-prefixed) or decimal unsigned
/// 8-bit literal, rejected with a range error above 31 (the 5-bit field).
pub open spec fn resolve_i16_imm(t: Seq<u8>, line_num: u64) -> Result<u32, AsmErrorV> {
    let v = if starts_0x(t) {
        parse_uhex(strip_hex_prefixes(t), 0xFF)
    } else {
        parse_udec(t, 0xFF)
    };
    match v {
        Option::None => Err(AsmErrorV::ImmediateParse { line: line_num, token: t }),
        Option::Some(x) => if x <= 31 {
            Ok(x as u32)
        } else {
            Err(AsmErrorV::ImmediateRange { line: line_num, token: t })
        },
    }
}

/// The resolved I32 immediate field.  A hex literal is an unsigned 16-bit
/// value stored as-is; otherwise a token matching a symbol stands for that
/// symbol's absolute address, and anything else parses as a signed 16-bit
/// decimal; either way the signed value is reinterpreted as the unsigned
/// 16-bit field.
pub open spec fn resolve_i32_imm(t: Seq<u8>, syms: Seq<SymbolV>, line_num: u64) -> Result<
    u32,
    AsmErrorV,
> {
    if starts_0x(t) {
        match parse_uhex(strip_hex_prefixes(t), 0xFFFF) {
            Option::Some(x) => Ok(x as u32),
            Option::None => Err(AsmErrorV::ImmediateParse { line: line_num, token: t }),
        }
    } else {
        match lookup(syms, t) {
            Option::Some(a) => if -32768 <= a <= 32767 {
                Ok(((a as i16) as u16) as u32)
            } else {
                Err(AsmErrorV::ImmediateParse { line: line_num, token: t })
            },
            Option::None => match parse_idec(t, -32768, 32767) {
                Option::Some(x) => Ok(((x as i16) as u16) as u32),
                Option::None => Err(AsmErrorV::ImmediateParse { line: line_num, token: t }),
            },
        }
    }
}

/// The resolved J immediate.  A hex literal is an unsigned 32-bit value;
/// a symbol stands for the PC-relative offset `symbol - address - 4`; any
/// other token parses as a signed 32-bit decimal.  The resulting signed value
/// must lie strictly between `-2^19` and `2^19 - 1`, else a range error.
pub open spec fn resolve_j_imm(t: Seq<u8>, syms: Seq<SymbolV>, addr: int, line_num: u64) -> Result<
    u32,
    AsmErrorV,
> {
    let v: Option<u32> = if starts_0x(t) {
        match parse_uhex(strip_hex_prefixes(t), 0xFFFF_FFFF) {
            Option::Some(x) => Some(x as u32),
            Option::None => None,
        }
    } else {
        match lookup(syms, t) {
            Option::Some(a) => {
                let off = a - addr - 4;
                if -0x8000_0000 <= off <= 0x7FFF_FFFF {
                    Some((off as i32) as u32)
                } else {
                    None
                }
            },
            Option::None => match parse_idec(t, -0x8000_0000, 0x7FFF_FFFF) {
                Option::Some(x) => Some((x as i32) as u32),
                Option::None => None,
            },
        }
    };
    match v {
        Option::None => Err(AsmErrorV::ImmediateParse { line: line_num, token: t }),
        Option::Some(x) => if -0x8_0000 < (x as i32) && (x as i32) < 0x7_FFFF {
            Ok(x)
        } else {
            Err(AsmErrorV::ImmediateRange { line: line_num, token: t })
        },
    }
}

/// The value of a raw constant: its token with every `0x` marker stripped,
/// read as an unsigned 32-bit hexadecimal literal.
pub open spec fn resolve_const(t: Seq<u8>, line_num: u64) -> Result<u32, AsmErrorV> {
    match parse_uhex(strip_hex_prefixes(t), 0xFFFF_FFFF) {
        Option::Some(x) => Ok(x as u32),
        Option::None => Err(AsmErrorV::ImmediateParse { line: line_num, token: t }),
    }
}

/// R-format bit layout: `opcode[5:0] | rd[4:0]<<6 | rs[4:0]<<11`.
pub open spec fn encode_r(op: u32, rd: u32, rs: u32) -> u16 {
    ((op & 0x3F) as u16) | (((rd & 0x1F) as u16) << 6) | (((rs & 0x1F) as u16) << 11)
}

/// I16-format bit layout: `opcode[5:0] | rd[4:0]<<6 | imm[4:0]<<11`.
pub open spec fn encode_i16(op: u32, rd: u32, imm: u32) -> u16 {
    ((op & 0x3F) as u16) | (((rd & 0x1F) as u16) << 6) | (((imm & 0x1F) as u16) << 11)
}

/// I32-format bit layout:
/// `opcode[5:0] | rd[4:0]<<6 | rs[4:0]<<11 | imm[15:0]<<16`.
pub open spec fn encode_i32(op: u32, rd: u32, rs: u32, imm: u32) -> u32 {
    (op & 0x3F) | ((rd & 0x1F) << 6) | ((rs & 0x1F) << 11) | ((imm & 0xFFFF) << 16)
}

/// J-format bit layout: `opcode[5:0] | rd[4:0]<<6 | imm[20:0]<<11`.
pub open spec fn encode_j(op: u32, rd: u32, imm: u32) -> u32 {
    (op & 0x3F) | ((rd & 0x1F) << 6) | ((imm & 0x1F_FFFF) << 11)
}

/// The opcode field of a 16-bit word.
pub open spec fn word16_opcode(w: u16) -> u32 {
    (w & 0x3F) as u32
}

/// The destination register field of a 16-bit word.
pub open spec fn word16_rd(w: u16) -> u32 {
    ((w >> 6) & 0x1F) as u32
}

/// The third field of a 16-bit word: the source register (R format) or the
/// immediate (I16 format).
pub open spec fn word16_field(w: u16) -> u32 {
    ((w >> 11) & 0x1F) as u32
}

/// The opcode field of a 32-bit word.
pub open spec fn word32_opcode(w: u32) -> u32 {
    w & 0x3F
}

/// The destination register field of a 32-bit word.
pub open spec fn word32_rd(w: u32) -> u32 {
    (w >> 6) & 0x1F
}

/// The source register field of an I32 word.
pub open spec fn word32_rs(w: u32) -> u32 {
    (w >> 11) & 0x1F
}

/// The 16-bit immediate field of an I32 word.
pub open spec fn word32_imm16(w: u32) -> u32 {
    (w >> 16) & 0xFFFF
}

/// The 21-bit immediate field of a J word.
pub open spec fn word32_imm21(w: u32) -> u32 {
    (w >> 11) & 0x1F_FFFF
}

/// The signed value a 21-bit immediate field denotes.
pub open spec fn sign_extend_21(x: u32) -> i32 {
    if x & 0x10_0000 != 0 {
        (x | 0xFFE0_0000) as i32
    } else {
        x as i32
    }
}

fn encode_r_word(op: u32, rd: u32, rs: u32) -> (w: u16)
    ensures
        w == encode_r(op, rd, rs),
{
    ((op & 0x3F) as u16) | (((rd & 0x1F) as u16) << 6) | (((rs & 0x1F) as u16) << 11)
}

fn encode_i16_word(op: u32, rd: u32, imm: u32) -> (w: u16)
    ensures
        w == encode_i16(op, rd, imm),
{
    ((op & 0x3F) as u16) | (((rd & 0x1F) as u16) << 6) | (((imm & 0x1F) as u16) << 11)
}

fn encode_i32_word(op: u32, rd: u32, rs: u32, imm: u32) -> (w: u32)
    ensures
        w == encode_i32(op, rd, rs, imm),
{
    (op & 0x3F) | ((rd & 0x1F) << 6) | ((rs & 0x1F) << 11) | ((imm & 0xFFFF) << 16)
}

fn encode_j_word(op: u32, rd: u32, imm: u32) -> (w: u32)
    ensures
        w == encode_j(op, rd, imm),
{
    (op & 0x3F) | ((rd & 0x1F) << 6) | ((imm & 0x1F_FFFF) << 11)
}

/// What pass 2 makes of one record against the completed symbol table:
/// the encoded word, or the first fatal error in the inherited order
/// (opcode, then destination register, then source register, then
/// immediate).
#[verifier::opaque]
pub open spec fn convert_spec(f: FormatV, syms: Seq<SymbolV>) -> Result<Word, AsmErrorV> {
    match f {
        FormatV::RFormat { mnemonic, rd, rs, line_num, .. } => match r_opcode(mnemonic) {
            Option::None => Err(
                AsmErrorV::Syntax { line: line_num, tokens: seq![mnemonic] },
            ),
            Option::Some(op) => match reg_index(rd) {
                Option::None => Err(
                    AsmErrorV::UnknownRegister { line: line_num, register: rd },
                ),
                Option::Some(d) => match reg_index(rs) {
                    Option::None => Err(
                        AsmErrorV::UnknownRegister { line: line_num, register: rs },
                    ),
                    Option::Some(s) => Ok(Word::Word16(encode_r(op, d, s))),
                },
            },
        },
        FormatV::I16Format { mnemonic, rd, imm, line_num, .. } => match i16_opcode(mnemonic) {
            Option::None => Err(
                AsmErrorV::Syntax { line: line_num, tokens: seq![mnemonic] },
            ),
            Option::Some(op) => match reg_index(rd) {
                Option::None => Err(
                    AsmErrorV::UnknownRegister { line: line_num, register: rd },
                ),
                Option::Some(d) => match resolve_i16_imm(imm, line_num) {
                    Err(e) => Err(e),
                    Ok(v) => Ok(Word::Word16(encode_i16(op, d, v))),
                },
            },
        },
        FormatV::I32Format { mnemonic, rd, rs, imm, line_num, .. } => match i32_opcode(mnemonic) {
            Option::None => Err(
                AsmErrorV::Syntax { line: line_num, tokens: seq![mnemonic] },
            ),
            Option::Some(op) => match reg_index(rd) {
                Option::None => Err(
                    AsmErrorV::UnknownRegister { line: line_num, register: rd },
                ),
                Option::Some(d) => match reg_index(rs) {
                    Option::None => Err(
                        AsmErrorV::UnknownRegister { line: line_num, register: rs },
                    ),
                    Option::Some(s) => match resolve_i32_imm(imm, syms, line_num) {
                        Err(e) => Err(e),
                        Ok(v) => Ok(Word::Word32(encode_i32(op, d, s, v))),
                    },
                },
            },
        },
        FormatV::JFormat { mnemonic, rd, imm, address, line_num } => match j_opcode(mnemonic) {
            Option::None => Err(
                AsmErrorV::Syntax { line: line_num, tokens: seq![mnemonic] },
            ),
            Option::Some(op) => match reg_index(rd) {
                Option::None => Err(
                    AsmErrorV::UnknownRegister { line: line_num, register: rd },
                ),
                Option::Some(d) => match resolve_j_imm(imm, syms, address, line_num) {
                    Err(e) => Err(e),
                    Ok(v) => Ok(Word::Word32(encode_j(op, d, v))),
                },
            },
        },
        FormatV::Const { num, line_num, .. } => match resolve_const(num, line_num) {
            Err(e) => Err(e),
            Ok(v) => Ok(Word::Word32(v)),
        },
    }
}

/// Resolves an I16 immediate token.
fn i16_imm_value(t: &Vec<u8>, line_num: u64) -> (r: Result<u32, AsmError>)
    ensures
        r matches Ok(v) ==> resolve_i16_imm(t@, line_num) == Ok::<u32, AsmErrorV>(v),
        r matches Err(e) ==> resolve_i16_imm(t@, line_num) == Err::<u32, AsmErrorV>(e@),
{
    let v: Option<u64> = if has_hex_prefix(t) {
        let stripped = strip_hex_prefix_all(t);
        parse_unsigned_hex(&stripped, 0xFF)
    } else {
        parse_unsigned_dec(t, 0xFF)
    };
    match v {
        Option::None => Err(AsmError::ImmediateParse { line: line_num, token: copy_bytes(t) }),
        Option::Some(x) => if x <= 31 {
            Ok(x as u32)
        } else {
            Err(AsmError::ImmediateRange { line: line_num, token: copy_bytes(t) })
        },
    }
}

/// Resolves an I32 immediate token against the symbol table.
fn i32_imm_value(t: &Vec<u8>, syms: &Vec<Symbol>, line_num: u64) -> (r: Result<u32, AsmError>)
    ensures
        r matches Ok(v) ==> resolve_i32_imm(t@, syms.deep_view(), line_num) == Ok::<
            u32,
            AsmErrorV,
        >(v),
        r matches Err(e) ==> resolve_i32_imm(t@, syms.deep_view(), line_num) == Err::<
            u32,
            AsmErrorV,
        >(e@),
{
    if has_hex_prefix(t) {
        let stripped = strip_hex_prefix_all(t);
        match parse_unsigned_hex(&stripped, 0xFFFF) {
            Option::Some(x) => Ok(x as u32),
            Option::None => Err(
                AsmError::ImmediateParse { line: line_num, token: copy_bytes(t) },
            ),
        }
    } else {
        match lookup_symbol(syms, t) {
            Option::Some(a) => if -32768 <= a && a <= 32767 {
                Ok(((a as i16) as u16) as u32)
            } else {
                Err(AsmError::ImmediateParse { line: line_num, token: copy_bytes(t) })
            },
            Option::None => match parse_signed_dec(t, 32768, 32767) {
                Option::Some(x) => Ok(((x as i16) as u16) as u32),
                Option::None => Err(
                    AsmError::ImmediateParse { line: line_num, token: copy_bytes(t) },
                ),
            },
        }
    }
}

/// Resolves a J immediate token against the symbol table, PC-relative for
/// symbols.
fn j_imm_value(t: &Vec<u8>, syms: &Vec<Symbol>, address: i64, line_num: u64) -> (r: Result<
    u32,
    AsmError,
>)
    requires
        0 <= address as int <= 0xFFFF_FFFF,
        forall|k: int| 0 <= k < syms@.len() ==> wf_symbol((#[trigger] syms@[k])@),
    ensures
        r matches Ok(v) ==> resolve_j_imm(t@, syms.deep_view(), address as int, line_num) == Ok::<
            u32,
            AsmErrorV,
        >(v),
        r matches Err(e) ==> resolve_j_imm(t@, syms.deep_view(), address as int, line_num)
            == Err::<u32, AsmErrorV>(e@),
{
    let v: Option<u32> = if has_hex_prefix(t) {
        let stripped = strip_hex_prefix_all(t);
        match parse_unsigned_hex(&stripped, 0xFFFF_FFFF) {
            Option::Some(x) => Some(x as u32),
            Option::None => None,
        }
    } else {
        match lookup_symbol(syms, t) {
            Option::Some(a) => {
                let off: i64 = a - address - 4;
                if -0x8000_0000i64 <= off && off <= 0x7FFF_FFFFi64 {
                    Some((off as i32) as u32)
                } else {
                    None
                }
            },
            Option::None => match parse_signed_dec(t, 0x8000_0000, 0x7FFF_FFFF) {
                Option::Some(x) => Some((x as i32) as u32),
                Option::None => None,
            },
        }
    };
    match v {
        Option::None => Err(AsmError::ImmediateParse { line: line_num, token: copy_bytes(t) }),
        Option::Some(x) => {
            let xi = x as i32;
            if -0x8_0000 < xi && xi < 0x7_FFFF {
                Ok(x)
            } else {
                Err(AsmError::ImmediateRange { line: line_num, token: copy_bytes(t) })
            }
        },
    }
}

/// Encodes one record against the completed symbol table, exactly as
/// [`convert_spec`] says.
pub fn convert(parsed_line: &Format, symbol_table: &Vec<Symbol>) -> (r: Result<Word, AsmError>)
    requires
        wf_format(parsed_line@),
        forall|k: int| 0 <= k < symbol_table@.len() ==> wf_symbol((#[trigger] symbol_table@[k])@),
    ensures
        r matches Ok(w) ==> convert_spec(parsed_line@, symbol_table.deep_view()) == Ok::<
            Word,
            AsmErrorV,
        >(w),
        r matches Err(e) ==> convert_spec(parsed_line@, symbol_table.deep_view()) == Err::<
            Word,
            AsmErrorV,
        >(e@),
{
    proof {
        reveal(convert_spec);
    }
    match parsed_line {
        Format::RFormat { mnemonic, rd, rs, line_num, .. } => {
            let op = match r_opcode_of(mnemonic) {
                Option::Some(op) => op,
                Option::None => {
                    let e = AsmError::Syntax {
                        line: *line_num,
                        tokens: vec![copy_bytes(mnemonic)],
                    };
                    proof {
                        assert(e@->Syntax_tokens =~= seq![mnemonic@]);
                    }
                    return Err(e);
                },
            };
            let d = match resolve_register(rd) {
                Option::Some(d) => d,
                Option::None => {
                    return Err(
                        AsmError::UnknownRegister { line: *line_num, register: copy_bytes(rd) },
                    );
                },
            };
            let s = match resolve_register(rs) {
                Option::Some(s) => s,
                Option::None => {
                    return Err(
                        AsmError::UnknownRegister { line: *line_num, register: copy_bytes(rs) },
                    );
                },
            };
            Ok(Word::Word16(encode_r_word(op, d, s)))
        },
        Format::I16Format { mnemonic, rd, imm, line_num, .. } => {
            let op = match i16_opcode_of(mnemonic) {
                Option::Some(op) => op,
                Option::None => {
                    let e = AsmError::Syntax {
                        line: *line_num,
                        tokens: vec![copy_bytes(mnemonic)],
                    };
                    proof {
                        assert(e@->Syntax_tokens =~= seq![mnemonic@]);
                    }
                    return Err(e);
                },
            };
            let d = match resolve_register(rd) {
                Option::Some(d) => d,
                Option::None => {
                    return Err(
                        AsmError::UnknownRegister { line: *line_num, register: copy_bytes(rd) },
                    );
                },
            };
            let v = match i16_imm_value(imm, *line_num) {
                Ok(v) => v,
                Err(e) => {
                    return Err(e);
                },
            };
            Ok(Word::Word16(encode_i16_word(op, d, v)))
        },
        Format::I32Format { mnemonic, rd, rs, imm, line_num, .. } => {
            let op = match i32_opcode_of(mnemonic) {
                Option::Some(op) => op,
                Option::None => {
                    let e = AsmError::Syntax {
                        line: *line_num,
                        tokens: vec![copy_bytes(mnemonic)],
                    };
                    proof {
                        assert(e@->Syntax_tokens =~= seq![mnemonic@]);
                    }
                    return Err(e);
                },
            };
            let d = match resolve_register(rd) {
                Option::Some(d) => d,
                Option::None => {
                    return Err(
                        AsmError::UnknownRegister { line: *line_num, register: copy_bytes(rd) },
                    );
                },
            };
            let s = match resolve_register(rs) {
                Option::Some(s) => s,
                Option::None => {
                    return Err(
                        AsmError::UnknownRegister { line: *line_num, register: copy_bytes(rs) },
                    );
                },
            };
            let v = match i32_imm_value(imm, symbol_table, *line_num) {
                Ok(v) => v,
                Err(e) => {
                    return Err(e);
                },
            };
            Ok(Word::Word32(encode_i32_word(op, d, s, v)))
        },
        Format::JFormat { mnemonic, rd, imm, address, line_num } => {
            let op = match j_opcode_of(mnemonic) {
                Option::Some(op) => op,
                Option::None => {
                    let e = AsmError::Syntax {
                        line: *line_num,
                        tokens: vec![copy_bytes(mnemonic)],
                    };
                    proof {
                        assert(e@->Syntax_tokens =~= seq![mnemonic@]);
                    }
                    return Err(e);
                },
            };
            let d = match resolve_register(rd) {
                Option::Some(d) => d,
                Option::None => {
                    return Err(
                        AsmError::UnknownRegister { line: *line_num, register: copy_bytes(rd) },
                    );
                },
            };
            let v = match j_imm_value(imm, symbol_table, *address, *line_num) {
                Ok(v) => v,
                Err(e) => {
                    return Err(e);
                },
            };
            Ok(Word::Word32(encode_j_word(op, d, v)))
        },
        Format::Const { num, line_num, .. } => {
            let stripped = strip_hex_prefix_all(num);
            match parse_unsigned_hex(&stripped, 0xFFFF_FFFF) {
                Option::Some(x) => Ok(Word::Word32(x as u32)),
                Option::None => Err(
                    AsmError::ImmediateParse { line: *line_num, token: copy_bytes(num) },
                ),
            }
        },
    }
}

/// Re-decoding an R-format word recovers its opcode and register fields.
pub proof fn lemma_encode_r_round_trip(op: u32, rd: u32, rs: u32)
    requires
        op < 64,
        rd < 32,
        rs < 32,
    ensures
        word16_opcode(encode_r(op, rd, rs)) == op,
        word16_rd(encode_r(op, rd, rs)) == rd,
        word16_field(encode_r(op, rd, rs)) == rs,
{
    assert(word16_opcode(encode_r(op, rd, rs)) == op && word16_rd(encode_r(op, rd, rs)) == rd
        && word16_field(encode_r(op, rd, rs)) == rs) by (bit_vector)
        requires
            op < 64,
            rd < 32,
            rs < 32,
    ;
}

/// Re-decoding an I16-format word recovers its opcode, register and
/// immediate fields.
pub proof fn lemma_encode_i16_round_trip(op: u32, rd: u32, imm: u32)
    requires
        op < 64,
        rd < 32,
        imm < 32,
    ensures
        word16_opcode(encode_i16(op, rd, imm)) == op,
        word16_rd(encode_i16(op, rd, imm)) == rd,
        word16_field(encode_i16(op, rd, imm)) == imm,
{
    assert(word16_opcode(encode_i16(op, rd, imm)) == op && word16_rd(encode_i16(op, rd, imm))
        == rd && word16_field(encode_i16(op, rd, imm)) == imm) by (bit_vector)
        requires
            op < 64,
            rd < 32,
            imm < 32,
    ;
}

/// Re-decoding an I32-format word recovers its opcode, both register fields
/// and the 16-bit immediate field.
pub proof fn lemma_encode_i32_round_trip(op: u32, rd: u32, rs: u32, imm: u32)
    requires
        op < 64,
        rd < 32,
        rs < 32,
        imm <= 0xFFFF,
    ensures
        word32_opcode(encode_i32(op, rd, rs, imm)) == op,
        word32_rd(encode_i32(op, rd, rs, imm)) == rd,
        word32_rs(encode_i32(op, rd, rs, imm)) == rs,
        word32_imm16(encode_i32(op, rd, rs, imm)) == imm,
{
    assert(word32_opcode(encode_i32(op, rd, rs, imm)) == op && word32_rd(
        encode_i32(op, rd, rs, imm),
    ) == rd && word32_rs(encode_i32(op, rd, rs, imm)) == rs && word32_imm16(
        encode_i32(op, rd, rs, imm),
    ) == imm) by (bit_vector)
        requires
            op < 64,
            rd < 32,
            rs < 32,
            imm <= 0xFFFF,
    ;
}

/// Re-decoding a J-format word recovers its opcode, register and 21-bit
/// immediate fields.
pub proof fn lemma_encode_j_round_trip(op: u32, rd: u32, imm: u32)
    requires
        op < 64,
        rd < 32,
    ensures
        word32_opcode(encode_j(op, rd, imm)) == op,
        word32_rd(encode_j(op, rd, imm)) == rd,
        word32_imm21(encode_j(op, rd, imm)) == imm & 0x1F_FFFF,
{
    assert(word32_opcode(encode_j(op, rd, imm)) == op && word32_rd(encode_j(op, rd, imm)) == rd
        && word32_imm21(encode_j(op, rd, imm)) == imm & 0x1F_FFFF) by (bit_vector)
        requires
            op < 64,
            rd < 32,
    ;
}

/// Sign-extending the 21-bit immediate field recovers the signed value that
/// was encoded, for every value the J range check admits.
pub proof fn lemma_sign_extend_21(x: u32)
    requires
        -0x8_0000 < (x as i32) && (x as i32) < 0x7_FFFF,
    ensures
        sign_extend_21(x & 0x1F_FFFF) == x as i32,
{
    assert(sign_extend_21(x & 0x1F_FFFF) == x as i32) by (bit_vector)
        requires
            -0x8_0000 < (x as i32) && (x as i32) < 0x7_FFFF,
    ;
}

/// A resolved register index fits the 5-bit field.
proof fn lemma_reg_index_range(t: Seq<u8>)
    ensures
        reg_index(t) matches Some(d) ==> d < 32,
{
}

/// Every opcode of the table fits the 6-bit field.
proof fn lemma_opcode_range(m: Seq<u8>)
    ensures
        r_opcode(m) matches Some(op) ==> op < 64,
        i16_opcode(m) matches Some(op) ==> op < 64,
        i32_opcode(m) matches Some(op) ==> op < 64,
        j_opcode(m) matches Some(op) ==> op < 64,
{
}

/// A resolved I16 immediate fits the 5-bit field.
proof fn lemma_resolve_i16_range(t: Seq<u8>, line_num: u64)
    ensures
        resolve_i16_imm(t, line_num) matches Ok(v) ==> v < 32,
{
    crate::num::lemma_parse_udec_range(t, 0xFF);
    crate::num::lemma_parse_uhex_range(crate::text::strip_hex_prefixes(t), 0xFF);
}

/// A resolved I32 immediate fits the 16-bit field.
proof fn lemma_resolve_i32_range(t: Seq<u8>, syms: Seq<SymbolV>, line_num: u64)
    ensures
        resolve_i32_imm(t, syms, line_num) matches Ok(v) ==> v <= 0xFFFF,
{
    crate::num::lemma_parse_uhex_range(crate::text::strip_hex_prefixes(t), 0xFFFF);
}

/// A resolved J immediate passed the signed 21-bit range check.
proof fn lemma_resolve_j_range(t: Seq<u8>, syms: Seq<SymbolV>, addr: int, line_num: u64)
    ensures
        resolve_j_imm(t, syms, addr, line_num) matches Ok(v) ==> -0x8_0000 < (v as i32) && (
        v as i32) < 0x7_FFFF,
{
}

proof fn lemma_convert_round_trip_r(f: FormatV, syms: Seq<SymbolV>, w: Word)
    requires
        f is RFormat,
        convert_spec(f, syms) == Ok::<Word, AsmErrorV>(w),
    ensures
        w is Word16,
        Some(word16_opcode(w->Word16_0)) == r_opcode(f->RFormat_mnemonic),
        Some(word16_rd(w->Word16_0)) == reg_index(f->RFormat_rd),
        Some(word16_field(w->Word16_0)) == reg_index(f->RFormat_rs),
{
    reveal(convert_spec);
    lemma_opcode_range(f->RFormat_mnemonic);
    lemma_reg_index_range(f->RFormat_rd);
    lemma_reg_index_range(f->RFormat_rs);
    lemma_encode_r_round_trip(
        r_opcode(f->RFormat_mnemonic)->Some_0,
        reg_index(f->RFormat_rd)->Some_0,
        reg_index(f->RFormat_rs)->Some_0,
    );
}

proof fn lemma_convert_round_trip_i16(f: FormatV, syms: Seq<SymbolV>, w: Word)
    requires
        f is I16Format,
        convert_spec(f, syms) == Ok::<Word, AsmErrorV>(w),
    ensures
        w is Word16,
        Some(word16_opcode(w->Word16_0)) == i16_opcode(f->I16Format_mnemonic),
        Some(word16_rd(w->Word16_0)) == reg_index(f->I16Format_rd),
        Ok::<u32, AsmErrorV>(word16_field(w->Word16_0)) == resolve_i16_imm(
            f->I16Format_imm,
            f->I16Format_line_num,
        ),
{
    reveal(convert_spec);
    lemma_opcode_range(f->I16Format_mnemonic);
    lemma_reg_index_range(f->I16Format_rd);
    lemma_resolve_i16_range(f->I16Format_imm, f->I16Format_line_num);
    lemma_encode_i16_round_trip(
        i16_opcode(f->I16Format_mnemonic)->Some_0,
        reg_index(f->I16Format_rd)->Some_0,
        resolve_i16_imm(f->I16Format_imm, f->I16Format_line_num)->Ok_0,
    );
}

proof fn lemma_convert_round_trip_i32(f: FormatV, syms: Seq<SymbolV>, w: Word)
    requires
        f is I32Format,
        convert_spec(f, syms) == Ok::<Word, AsmErrorV>(w),
    ensures
        w is Word32,
        Some(word32_opcode(w->Word32_0)) == i32_opcode(f->I32Format_mnemonic),
        Some(word32_rd(w->Word32_0)) == reg_index(f->I32Format_rd),
        Some(word32_rs(w->Word32_0)) == reg_index(f->I32Format_rs),
        Ok::<u32, AsmErrorV>(word32_imm16(w->Word32_0)) == resolve_i32_imm(
            f->I32Format_imm,
            syms,
            f->I32Format_line_num,
        ),
{
    reveal(convert_spec);
    lemma_opcode_range(f->I32Format_mnemonic);
    lemma_reg_index_range(f->I32Format_rd);
    lemma_reg_index_range(f->I32Format_rs);
    lemma_resolve_i32_range(f->I32Format_imm, syms, f->I32Format_line_num);
    lemma_encode_i32_round_trip(
        i32_opcode(f->I32Format_mnemonic)->Some_0,
        reg_index(f->I32Format_rd)->Some_0,
        reg_index(f->I32Format_rs)->Some_0,
        resolve_i32_imm(f->I32Format_imm, syms, f->I32Format_line_num)->Ok_0,
    );
}

#[verifier::rlimit(100)]
#[verifier::spinoff_prover]
proof fn lemma_convert_round_trip_j(f: FormatV, syms: Seq<SymbolV>, w: Word)
    requires
        f is JFormat,
        convert_spec(f, syms) == Ok::<Word, AsmErrorV>(w),
    ensures
        w is Word32,
        Some(word32_opcode(w->Word32_0)) == j_opcode(f->JFormat_mnemonic),
        Some(word32_rd(w->Word32_0)) == reg_index(f->JFormat_rd),
        Ok::<u32, AsmErrorV>(sign_extend_21(word32_imm21(w->Word32_0)) as u32) == resolve_j_imm(
            f->JFormat_imm,
            syms,
            f->JFormat_address,
            f->JFormat_line_num,
        ),
{
    reveal(convert_spec);
    lemma_opcode_range(f->JFormat_mnemonic);
    lemma_reg_index_range(f->JFormat_rd);
    lemma_resolve_j_range(f->JFormat_imm, syms, f->JFormat_address, f->JFormat_line_num);
    let v = resolve_j_imm(f->JFormat_imm, syms, f->JFormat_address, f->JFormat_line_num)->Ok_0;
    lemma_encode_j_round_trip(
        j_opcode(f->JFormat_mnemonic)->Some_0,
        reg_index(f->JFormat_rd)->Some_0,
        v,
    );
    lemma_sign_extend_21(v);
    assert((v as i32) as u32 == v) by (bit_vector);
}

proof fn lemma_convert_round_trip_const(f: FormatV, syms: Seq<SymbolV>, w: Word)
    requires
        f is Const,
        convert_spec(f, syms) == Ok::<Word, AsmErrorV>(w),
    ensures
        w is Word32,
        Ok::<u32, AsmErrorV>(w->Word32_0) == resolve_const(f->Const_num, f->Const_line_num),
{
    reveal(convert_spec);
}

/// Re-decoding an encoded word with the documented bit layout recovers
/// exactly the opcode, the register indices, and the resolved immediate that
/// went in. (round trip)
pub proof fn lemma_convert_round_trip(f: FormatV, syms: Seq<SymbolV>, w: Word)
    requires
        convert_spec(f, syms) == Ok::<Word, AsmErrorV>(w),
    ensures
        match f {
            FormatV::RFormat { mnemonic, rd, rs, .. } => {
                &&& w is Word16
                &&& Some(word16_opcode(w->Word16_0)) == r_opcode(mnemonic)
                &&& Some(word16_rd(w->Word16_0)) == reg_index(rd)
                &&& Some(word16_field(w->Word16_0)) == reg_index(rs)
            },
            FormatV::I16Format { mnemonic, rd, imm, line_num, .. } => {
                &&& w is Word16
                &&& Some(word16_opcode(w->Word16_0)) == i16_opcode(mnemonic)
                &&& Some(word16_rd(w->Word16_0)) == reg_index(rd)
                &&& Ok::<u32, AsmErrorV>(word16_field(w->Word16_0)) == resolve_i16_imm(
                    imm,
                    line_num,
                )
            },
            FormatV::I32Format { mnemonic, rd, rs, imm, line_num, .. } => {
                &&& w is Word32
                &&& Some(word32_opcode(w->Word32_0)) == i32_opcode(mnemonic)
                &&& Some(word32_rd(w->Word32_0)) == reg_index(rd)
                &&& Some(word32_rs(w->Word32_0)) == reg_index(rs)
                &&& Ok::<u32, AsmErrorV>(word32_imm16(w->Word32_0)) == resolve_i32_imm(
                    imm,
                    syms,
                    line_num,
                )
            },
            FormatV::JFormat { mnemonic, rd, imm, address, line_num } => {
                &&& w is Word32
                &&& Some(word32_opcode(w->Word32_0)) == j_opcode(mnemonic)
                &&& Some(word32_rd(w->Word32_0)) == reg_index(rd)
                &&& Ok::<u32, AsmErrorV>(sign_extend_21(word32_imm21(w->Word32_0)) as u32)
                    == resolve_j_imm(imm, syms, address, line_num)
            },
            FormatV::Const { num, line_num, .. } => {
                &&& w is Word32
                &&& Ok::<u32, AsmErrorV>(w->Word32_0) == resolve_const(num, line_num)
            },
        },
{
    match f {
        FormatV::RFormat { .. } => lemma_convert_round_trip_r(f, syms, w),
        FormatV::I16Format { .. } => lemma_convert_round_trip_i16(f, syms, w),
        FormatV::I32Format { .. } => lemma_convert_round_trip_i32(f, syms, w),
        FormatV::JFormat { .. } => lemma_convert_round_trip_j(f, syms, w),
        FormatV::Const { .. } => lemma_convert_round_trip_const(f, syms, w),
    }
}

/// An I32 symbol reference resolves to the label's absolute address, whether
/// the label was declared before or after the referring instruction: only
/// the completed table decides.
pub proof fn lemma_i32_symbol_resolution(t: Seq<u8>, syms: Seq<SymbolV>, line_num: u64, a: int)
    requires
        !starts_0x(t),
        lookup(syms, t) == Some(a),
        0 <= a <= 32767,
    ensures
        resolve_i32_imm(t, syms, line_num) == Ok::<u32, AsmErrorV>(a as u32),
{
    assert(((a as i16) as u16) as u32 == a as u32);
}

/// A J symbol reference resolves to the PC-relative offset
/// `label - instruction - 4`, whether the label was declared before or after
/// the referring instruction.
pub proof fn lemma_j_symbol_resolution(
    t: Seq<u8>,
    syms: Seq<SymbolV>,
    addr: int,
    line_num: u64,
    a: int,
)
    requires
        !starts_0x(t),
        lookup(syms, t) == Some(a),
        -0x8_0000 < a - addr - 4 < 0x7_FFFF,
    ensures
        resolve_j_imm(t, syms, addr, line_num) == Ok::<u32, AsmErrorV>(
            ((a - addr - 4) as i32) as u32,
        ),
{
    let off = a - addr - 4;
    let o = off as i32;
    assert(o == off);
    assert((o as u32) as i32 == o) by (bit_vector);
}

/// A duplicate label name resolves to the entry a linear scan last
/// encounters: the most recently declared matching symbol wins.
pub proof fn lemma_lookup_last_match(syms: Seq<SymbolV>, s: SymbolV)
    ensures
        lookup(syms.push(s), s.name) == Some(s.address),
{
    assert(syms.push(s).last() == s);
}

/// Appending a symbol with a different name leaves a name's resolution
/// unchanged.
pub proof fn lemma_lookup_skips_other_names(syms: Seq<SymbolV>, s: SymbolV, name: Seq<u8>)
    requires
        s.name != name,
    ensures
        lookup(syms.push(s), name) == lookup(syms, name),
{
    assert(syms.push(s).drop_last() =~= syms);
}

} // verus!
