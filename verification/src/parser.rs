//! The layout pass (pass 1): walks the source lines in order, classifies
//! every line, assigns each emitting line the current address, advances the
//! address by the format's byte width, and collects every label into the
//! symbol table at the address it was declared at.

use vstd::prelude::*;

verus! {

use crate::error::{AsmError, AsmErrorV};
use crate::isa::{
    is_i16_mnemonic, is_i32_mnemonic, is_r_mnemonic, i16_mnemonic, i32_mnemonic, lit, r_mnemonic,
};
use crate::text::{
    copy_bytes, ends_in_colon, has_hex_prefix, is_label_token, is_skip_line,
    lemma_bytes_deep_view, line_tokens, skip_line, starts_0x, strip_colons, strip_label_colons,
    token_eq_lit, tokenize,
};
use vstd::string::StrSliceExecFns;

broadcast use lemma_bytes_deep_view;

/// One classified source line that emits machine code, tagged with the
/// address assigned to it and its one-based source line number.  Operand
/// tokens stay textual here; pass 2 resolves them.
#[derive(Debug)]
pub enum Format {
    /// Two registers, a 16-bit word.
    RFormat { mnemonic: Vec<u8>, rd: Vec<u8>, rs: Vec<u8>, address: i64, line_num: u64 },
    /// A register and a 5-bit unsigned immediate, a 16-bit word.
    I16Format { mnemonic: Vec<u8>, rd: Vec<u8>, imm: Vec<u8>, address: i64, line_num: u64 },
    /// Two registers and a 16-bit immediate (numeric or symbol), a 32-bit
    /// word.  `lui` is the degenerate case whose source register is `r0`.
    I32Format {
        mnemonic: Vec<u8>,
        rd: Vec<u8>,
        rs: Vec<u8>,
        imm: Vec<u8>,
        address: i64,
        line_num: u64,
    },
    /// A register and a 21-bit-range immediate (numeric, or symbol resolved
    /// address-relative), a 32-bit word.
    JFormat { mnemonic: Vec<u8>, rd: Vec<u8>, imm: Vec<u8>, address: i64, line_num: u64 },
    /// A raw hexadecimal 32-bit literal placed at the current address.
    Const { num: Vec<u8>, address: i64, line_num: u64 },
}

/// The mathematical image of a [`Format`] record: the same shape over
/// `Seq<u8>` tokens and an unbounded address.
pub enum FormatV {
    RFormat { mnemonic: Seq<u8>, rd: Seq<u8>, rs: Seq<u8>, address: int, line_num: u64 },
    I16Format { mnemonic: Seq<u8>, rd: Seq<u8>, imm: Seq<u8>, address: int, line_num: u64 },
    I32Format {
        mnemonic: Seq<u8>,
        rd: Seq<u8>,
        rs: Seq<u8>,
        imm: Seq<u8>,
        address: int,
        line_num: u64,
    },
    JFormat { mnemonic: Seq<u8>, rd: Seq<u8>, imm: Seq<u8>, address: int, line_num: u64 },
    Const { num: Seq<u8>, address: int, line_num: u64 },
}

impl View for Format {
    type V = FormatV;

    open spec fn view(&self) -> FormatV {
        match self {
            Format::RFormat { mnemonic, rd, rs, address, line_num } => FormatV::RFormat {
                mnemonic: mnemonic@,
                rd: rd@,
                rs: rs@,
                address: *address as int,
                line_num: *line_num,
            },
            Format::I16Format { mnemonic, rd, imm, address, line_num } => FormatV::I16Format {
                mnemonic: mnemonic@,
                rd: rd@,
                imm: imm@,
                address: *address as int,
                line_num: *line_num,
            },
            Format::I32Format { mnemonic, rd, rs, imm, address, line_num } => FormatV::I32Format {
                mnemonic: mnemonic@,
                rd: rd@,
                rs: rs@,
                imm: imm@,
                address: *address as int,
                line_num: *line_num,
            },
            Format::JFormat { mnemonic, rd, imm, address, line_num } => FormatV::JFormat {
                mnemonic: mnemonic@,
                rd: rd@,
                imm: imm@,
                address: *address as int,
                line_num: *line_num,
            },
            Format::Const { num, address, line_num } => FormatV::Const {
                num: num@,
                address: *address as int,
                line_num: *line_num,
            },
        }
    }
}

impl DeepView for Format {
    type V = FormatV;

    open spec fn deep_view(&self) -> FormatV {
        self.view()
    }
}

/// A label: its name (the token with trailing `:` stripped) and the address
/// frozen at the point of declaration.
#[derive(Debug, Clone)]
pub struct Symbol {
    pub name: Vec<u8>,
    pub address: i64,
}

/// The mathematical image of a [`Symbol`].
pub struct SymbolV {
    pub name: Seq<u8>,
    pub address: int,
}

impl View for Symbol {
    type V = SymbolV;

    open spec fn view(&self) -> SymbolV {
        SymbolV { name: self.name@, address: self.address as int }
    }
}

impl DeepView for Symbol {
    type V = SymbolV;

    open spec fn deep_view(&self) -> SymbolV {
        self.view()
    }
}

/// The address every record and symbol starts from: 0 in bare-metal mode,
/// 256 otherwise (the non-zero origin reserves low memory for a fixed
/// bootstrap region).
pub open spec fn origin(bare_metal: bool) -> int {
    if bare_metal {
        0
    } else {
        256
    }
}

/// The address of a record, whatever its variant.
pub open spec fn format_address(f: FormatV) -> int {
    match f {
        FormatV::RFormat { address, .. } => address,
        FormatV::I16Format { address, .. } => address,
        FormatV::I32Format { address, .. } => address,
        FormatV::JFormat { address, .. } => address,
        FormatV::Const { address, .. } => address,
    }
}

/// How many bytes a record emits: 2 for the 16-bit formats, 4 for the 32-bit
/// ones.
pub open spec fn format_width(f: FormatV) -> int {
    match f {
        FormatV::RFormat { .. } => 2,
        FormatV::I16Format { .. } => 2,
        FormatV::I32Format { .. } => 4,
        FormatV::JFormat { .. } => 4,
        FormatV::Const { .. } => 4,
    }
}

/// An address representable in the 4-byte size header and in the i64 record
/// fields.
pub open spec fn wf_addr(a: int) -> bool {
    0 <= a <= 0xFFFF_FFFF
}

pub open spec fn wf_format(f: FormatV) -> bool {
    wf_addr(format_address(f))
}

pub open spec fn wf_symbol(s: SymbolV) -> bool {
    wf_addr(s.address)
}

/// The result of the layout pass: the records, the symbol table, and the
/// running address after the last line.
pub type Pass1 = Result<(Seq<FormatV>, Seq<SymbolV>, int), AsmErrorV>;

/// One line of the layout pass.  A skipped line changes nothing; a label adds
/// a symbol at the current address; an emitting line appends a record tagged
/// with the current address and advances it by the format's width; anything
/// else is a syntax error naming the line.
#[verifier::opaque]
pub open spec fn pass1_step(
    recs: Seq<FormatV>,
    syms: Seq<SymbolV>,
    addr: int,
    line: Seq<u8>,
    line_num: u64,
) -> Pass1 {
    if is_skip_line(line) {
        Ok((recs, syms, addr))
    } else {
        let toks = line_tokens(line);
        if toks.len() == 0 {
            Err(AsmErrorV::Syntax { line: line_num, tokens: toks })
        } else if is_r_mnemonic(toks[0]) {
            if toks.len() == 3 {
                Ok(
                    (
                        recs.push(
                            FormatV::RFormat {
                                mnemonic: toks[0],
                                rd: toks[1],
                                rs: toks[2],
                                address: addr,
                                line_num,
                            },
                        ),
                        syms,
                        addr + 2,
                    ),
                )
            } else {
                Err(AsmErrorV::Syntax { line: line_num, tokens: toks })
            }
        } else if is_i16_mnemonic(toks[0]) {
            if toks.len() == 3 {
                Ok(
                    (
                        recs.push(
                            FormatV::I16Format {
                                mnemonic: toks[0],
                                rd: toks[1],
                                imm: toks[2],
                                address: addr,
                                line_num,
                            },
                        ),
                        syms,
                        addr + 2,
                    ),
                )
            } else {
                Err(AsmErrorV::Syntax { line: line_num, tokens: toks })
            }
        } else if is_i32_mnemonic(toks[0]) {
            if toks.len() == 4 {
                Ok(
                    (
                        recs.push(
                            FormatV::I32Format {
                                mnemonic: toks[0],
                                rd: toks[1],
                                rs: toks[2],
                                imm: toks[3],
                                address: addr,
                                line_num,
                            },
                        ),
                        syms,
                        addr + 4,
                    ),
                )
            } else {
                Err(AsmErrorV::Syntax { line: line_num, tokens: toks })
            }
        } else if toks[0] == lit("lui") {
            if toks.len() == 3 {
                Ok(
                    (
                        recs.push(
                            FormatV::I32Format {
                                mnemonic: toks[0],
                                rd: toks[1],
                                rs: lit("r0"),
                                imm: toks[2],
                                address: addr,
                                line_num,
                            },
                        ),
                        syms,
                        addr + 4,
                    ),
                )
            } else {
                Err(AsmErrorV::Syntax { line: line_num, tokens: toks })
            }
        } else if toks[0] == lit("jal") {
            if toks.len() == 3 {
                Ok(
                    (
                        recs.push(
                            FormatV::JFormat {
                                mnemonic: toks[0],
                                rd: toks[1],
                                imm: toks[2],
                                address: addr,
                                line_num,
                            },
                        ),
                        syms,
                        addr + 4,
                    ),
                )
            } else {
                Err(AsmErrorV::Syntax { line: line_num, tokens: toks })
            }
        } else if toks.len() == 1 && is_label_token(toks[0]) {
            Ok((recs, syms.push(SymbolV { name: strip_colons(toks[0]), address: addr }), addr))
        } else if toks.len() == 1 && starts_0x(toks[0]) {
            Ok(
                (
                    recs.push(FormatV::Const { num: toks[0], address: addr, line_num }),
                    syms,
                    addr + 4,
                ),
            )
        } else {
            Err(AsmErrorV::Syntax { line: line_num, tokens: toks })
        }
    }
}

/// The layout pass over the first `n` lines.  Line numbers are one-based;
/// the first fatal error aborts the pass.
pub open spec fn pass1_upto(lines: Seq<Seq<u8>>, bare_metal: bool, n: int) -> Pass1
    decreases n,
{
    if n <= 0 {
        Ok((Seq::empty(), Seq::empty(), origin(bare_metal)))
    } else {
        match pass1_upto(lines, bare_metal, n - 1) {
            Ok((recs, syms, addr)) => pass1_step(recs, syms, addr, lines[n - 1], n as u64),
            Err(e) => Err(e),
        }
    }
}

/// The whole layout pass.
pub open spec fn pass1(lines: Seq<Seq<u8>>, bare_metal: bool) -> Pass1 {
    pass1_upto(lines, bare_metal, lines.len() as int)
}

/// Once the layout pass fails, every longer prefix fails the same way.
pub proof fn lemma_pass1_err_stable(lines: Seq<Seq<u8>>, bare_metal: bool, m: int, n: int)
    requires
        0 <= m <= n,
        pass1_upto(lines, bare_metal, m) is Err,
    ensures
        pass1_upto(lines, bare_metal, n) == pass1_upto(lines, bare_metal, m),
    decreases n - m,
{
    if m < n {
        lemma_pass1_err_stable(lines, bare_metal, m, n - 1);
    }
}

/// Every address the layout pass assigns lies between the origin and the
/// final running address, which itself grows by at most 4 bytes per line.
pub proof fn lemma_pass1_bounds(lines: Seq<Seq<u8>>, bare_metal: bool, n: int)
    requires
        0 <= n,
    ensures
        pass1_upto(lines, bare_metal, n) matches Ok(st) ==> {
            &&& origin(bare_metal) <= st.2 <= origin(bare_metal) + 4 * n
            &&& forall|k: int|
                0 <= k < st.0.len() ==> origin(bare_metal) <= format_address(#[trigger] st.0[k])
                    && format_address(st.0[k]) + format_width(st.0[k]) <= st.2
            &&& forall|k: int|
                0 <= k < st.1.len() ==> origin(bare_metal) <= (#[trigger] st.1[k]).address
                    && st.1[k].address <= st.2
        },
    decreases n,
{
    reveal(pass1_step);
    if n > 0 {
        lemma_pass1_bounds(lines, bare_metal, n - 1);
    }
}


/// Lays out one source line: appends the record or symbol it declares and
/// returns the next running address, exactly as [`pass1_step`] says.
#[verifier::rlimit(100)]
fn parse_line(
    line: &Vec<u8>,
    line_num: u64,
    address: i64,
    recs: &mut Vec<Format>,
    syms: &mut Vec<Symbol>,
) -> (r: Result<i64, AsmError>)
    requires
        0 <= address as int,
        address as int + 4 <= 0xFFFF_FFFF,
    ensures
        r matches Ok(a) ==> address as int <= a as int <= address as int + 4
            && pass1_step(
            old(recs).deep_view(),
            old(syms).deep_view(),
            address as int,
            line@,
            line_num,
        ) == Ok::<(Seq<FormatV>, Seq<SymbolV>, int), AsmErrorV>(
            (final(recs).deep_view(), final(syms).deep_view(), a as int),
        ),
        r matches Err(e) ==> pass1_step(
            old(recs).deep_view(),
            old(syms).deep_view(),
            address as int,
            line@,
            line_num,
        ) == Err::<(Seq<FormatV>, Seq<SymbolV>, int), AsmErrorV>(e@),
{
    proof {
        reveal(pass1_step);
    }
    let ghost prev_recs = recs.deep_view();
    let ghost prev_syms = syms.deep_view();
    if skip_line(line) {
        return Ok(address);
    }
    let toks = tokenize(line);
    let ghost toksv = line_tokens(line@);
    proof {
        assert(toks.deep_view() == toksv);
        assert(forall|k: int|
            0 <= k < toks@.len() ==> toksv[k] == (#[trigger] toks@[k]).deep_view());
    }
    if toks.len() == 0 {
        let e = AsmError::Syntax { line: line_num, tokens: toks };
        proof {
            assert(e@ == AsmErrorV::Syntax { line: line_num, tokens: toksv });
        }
        return Err(e);
    }
    if r_mnemonic(&toks[0]) {
        if toks.len() == 3 {
            let mnemonic = copy_bytes(&toks[0]);
            let rd = copy_bytes(&toks[1]);
            let rs = copy_bytes(&toks[2]);
            recs.push(Format::RFormat { mnemonic, rd, rs, address, line_num });
            proof {
                assert(recs.deep_view() =~= prev_recs.push(
                    FormatV::RFormat {
                        mnemonic: toksv[0],
                        rd: toksv[1],
                        rs: toksv[2],
                        address: address as int,
                        line_num,
                    },
                ));
            }
            Ok(address + 2)
        } else {
            Err(AsmError::Syntax { line: line_num, tokens: toks })
        }
    } else if i16_mnemonic(&toks[0]) {
        if toks.len() == 3 {
            let mnemonic = copy_bytes(&toks[0]);
            let rd = copy_bytes(&toks[1]);
            let imm = copy_bytes(&toks[2]);
            recs.push(Format::I16Format { mnemonic, rd, imm, address, line_num });
            proof {
                assert(recs.deep_view() =~= prev_recs.push(
                    FormatV::I16Format {
                        mnemonic: toksv[0],
                        rd: toksv[1],
                        imm: toksv[2],
                        address: address as int,
                        line_num,
                    },
                ));
            }
            Ok(address + 2)
        } else {
            Err(AsmError::Syntax { line: line_num, tokens: toks })
        }
    } else if i32_mnemonic(&toks[0]) {
        if toks.len() == 4 {
            let mnemonic = copy_bytes(&toks[0]);
            let rd = copy_bytes(&toks[1]);
            let rs = copy_bytes(&toks[2]);
            let imm = copy_bytes(&toks[3]);
            recs.push(Format::I32Format { mnemonic, rd, rs, imm, address, line_num });
            proof {
                assert(recs.deep_view() =~= prev_recs.push(
                    FormatV::I32Format {
                        mnemonic: toksv[0],
                        rd: toksv[1],
                        rs: toksv[2],
                        imm: toksv[3],
                        address: address as int,
                        line_num,
                    },
                ));
            }
            Ok(address + 4)
        } else {
            Err(AsmError::Syntax { line: line_num, tokens: toks })
        }
    } else if token_eq_lit(&toks[0], "lui") {
        if toks.len() == 3 {
            let mnemonic = copy_bytes(&toks[0]);
            let rd = copy_bytes(&toks[1]);
            let rs = "r0".as_bytes_vec();
            let imm = copy_bytes(&toks[2]);
            recs.push(Format::I32Format { mnemonic, rd, rs, imm, address, line_num });
            proof {
                assert(recs.deep_view() =~= prev_recs.push(
                    FormatV::I32Format {
                        mnemonic: toksv[0],
                        rd: toksv[1],
                        rs: lit("r0"),
                        imm: toksv[2],
                        address: address as int,
                        line_num,
                    },
                ));
            }
            Ok(address + 4)
        } else {
            Err(AsmError::Syntax { line: line_num, tokens: toks })
        }
    } else if token_eq_lit(&toks[0], "jal") {
        if toks.len() == 3 {
            let mnemonic = copy_bytes(&toks[0]);
            let rd = copy_bytes(&toks[1]);
            let imm = copy_bytes(&toks[2]);
            recs.push(Format::JFormat { mnemonic, rd, imm, address, line_num });
            proof {
                assert(recs.deep_view() =~= prev_recs.push(
                    FormatV::JFormat {
                        mnemonic: toksv[0],
                        rd: toksv[1],
                        imm: toksv[2],
                        address: address as int,
                        line_num,
                    },
                ));
            }
            Ok(address + 4)
        } else {
            Err(AsmError::Syntax { line: line_num, tokens: toks })
        }
    } else if toks.len() == 1 && ends_in_colon(&toks[0]) {
        let name = strip_label_colons(&toks[0]);
        syms.push(Symbol { name, address });
        proof {
            assert(syms.deep_view() =~= prev_syms.push(
                SymbolV { name: strip_colons(toksv[0]), address: address as int },
            ));
        }
        Ok(address)
    } else if toks.len() == 1 && has_hex_prefix(&toks[0]) {
        let num = copy_bytes(&toks[0]);
        recs.push(Format::Const { num, address, line_num });
        proof {
            assert(recs.deep_view() =~= prev_recs.push(
                FormatV::Const { num: toksv[0], address: address as int, line_num },
            ));
        }
        Ok(address + 4)
    } else {
        Err(AsmError::Syntax { line: line_num, tokens: toks })
    }
}

/// The layout pass.  Walks `lines` in order and produces the instruction
/// records, the symbol table, and the total emitted byte count (the size
/// header value): the final address minus the origin.
#[verifier::rlimit(100)]
pub fn parse(lines: &Vec<Vec<u8>>, bare_metal: bool) -> (r: Result<
    (Vec<Format>, Vec<Symbol>, u32),
    AsmError,
>)
    requires
        256 + 4 * lines@.len() <= 0xFFFF_FFFF,
    ensures
        r matches Ok(out) ==> {
            &&& pass1(lines.deep_view(), bare_metal) matches Ok(st)
            &&& out.0.deep_view() == st.0
            &&& out.1.deep_view() == st.1
            &&& out.2 == st.2 - origin(bare_metal)
            &&& forall|k: int| 0 <= k < st.0.len() ==> wf_format(#[trigger] st.0[k])
            &&& forall|k: int| 0 <= k < st.1.len() ==> wf_symbol(#[trigger] st.1[k])
        },
        r matches Err(e) ==> pass1(lines.deep_view(), bare_metal) == Err::<
            (Seq<FormatV>, Seq<SymbolV>, int),
            AsmErrorV,
        >(e@),
{
    let ghost linesv = lines.deep_view();
    let mut recs: Vec<Format> = Vec::new();
    let mut syms: Vec<Symbol> = Vec::new();
    let mut address: i64 = if bare_metal {
        0
    } else {
        256
    };
    let mut i: usize = 0;
    proof {
        assert(recs.deep_view() =~= Seq::<FormatV>::empty());
        assert(syms.deep_view() =~= Seq::<SymbolV>::empty());
    }
    while i < lines.len()
        invariant
            i <= lines@.len(),
            linesv == lines.deep_view(),
            linesv.len() == lines@.len(),
            256 + 4 * lines@.len() <= 0xFFFF_FFFF,
            origin(bare_metal) <= address as int <= origin(bare_metal) + 4 * i,
            pass1_upto(linesv, bare_metal, i as int) == Ok::<
                (Seq<FormatV>, Seq<SymbolV>, int),
                AsmErrorV,
            >((recs.deep_view(), syms.deep_view(), address as int)),
        decreases lines@.len() - i,
    {
        let ghost prev_recs = recs.deep_view();
        let ghost prev_syms = syms.deep_view();
        let line = &lines[i];
        proof {
            assert(linesv[i as int] == lines@[i as int].deep_view());
            assert(line@ == linesv[i as int]);
        }
        let line_num: u64 = (i as u64) + 1;
        match parse_line(line, line_num, address, &mut recs, &mut syms) {
            Ok(a) => {
                proof {
                    assert(pass1_upto(linesv, bare_metal, i as int + 1) == pass1_step(
                        prev_recs,
                        prev_syms,
                        address as int,
                        linesv[i as int],
                        (i + 1) as u64,
                    ));
                }
                address = a;
                i += 1;
            },
            Err(e) => {
                proof {
                    assert(pass1_upto(linesv, bare_metal, i as int + 1) == Err::<
                        (Seq<FormatV>, Seq<SymbolV>, int),
                        AsmErrorV,
                    >(e@));
                    lemma_pass1_err_stable(linesv, bare_metal, i as int + 1, linesv.len() as int);
                }
                return Err(e);
            },
        }
    }
    proof {
        lemma_pass1_bounds(linesv, bare_metal, linesv.len() as int);
    }
    let size: u32 = if bare_metal {
        address as u32
    } else {
        (address as u32) - 256
    };
    Ok((recs, syms, size))
}

/// The widths of a record list, summed: how many bytes those records emit.
pub open spec fn sum_widths(recs: Seq<FormatV>) -> int
    decreases recs.len(),
{
    if recs.len() == 0 {
        0
    } else {
        sum_widths(recs.drop_last()) + format_width(recs.last())
    }
}

proof fn lemma_sum_widths_push(s: Seq<FormatV>, x: FormatV)
    ensures
        sum_widths(s.push(x)) == sum_widths(s) + format_width(x),
{
    assert(s.push(x).drop_last() =~= s);
}

/// What one layout step can do: leave everything unchanged, append one
/// record at the current address and advance by its width, or append one
/// symbol at the current address.
#[verifier::rlimit(100)]
#[verifier::spinoff_prover]
proof fn lemma_pass1_step_shape(
    recs: Seq<FormatV>,
    syms: Seq<SymbolV>,
    addr: int,
    line: Seq<u8>,
    line_num: u64,
)
    ensures
        pass1_step(recs, syms, addr, line, line_num) matches Ok(st2) ==> {
            ||| (st2.0 == recs && st2.1 == syms && st2.2 == addr)
            ||| (exists|r: FormatV|
                #![auto]
                st2.0 == recs.push(r) && format_address(r) == addr && st2.2 == addr
                    + format_width(r) && st2.1 == syms)
            ||| (exists|s: SymbolV|
                #![auto]
                st2.1 == syms.push(s) && s.address == addr && st2.0 == recs && st2.2 == addr)
        },
{
    reveal(pass1_step);
    let res = pass1_step(recs, syms, addr, line, line_num);
    if !is_skip_line(line) {
        let toks = line_tokens(line);
        if toks.len() == 0 {
        } else if is_r_mnemonic(toks[0]) {
            if toks.len() == 3 {
                let r = FormatV::RFormat {
                    mnemonic: toks[0],
                    rd: toks[1],
                    rs: toks[2],
                    address: addr,
                    line_num,
                };
                assert(res matches Ok(st2) ==> st2.0 == recs.push(r) && format_address(r) == addr
                    && st2.2 == addr + format_width(r) && st2.1 == syms);
            }
        } else if is_i16_mnemonic(toks[0]) {
            if toks.len() == 3 {
                let r = FormatV::I16Format {
                    mnemonic: toks[0],
                    rd: toks[1],
                    imm: toks[2],
                    address: addr,
                    line_num,
                };
                assert(res matches Ok(st2) ==> st2.0 == recs.push(r) && format_address(r) == addr
                    && st2.2 == addr + format_width(r) && st2.1 == syms);
            }
        } else if is_i32_mnemonic(toks[0]) {
            if toks.len() == 4 {
                let r = FormatV::I32Format {
                    mnemonic: toks[0],
                    rd: toks[1],
                    rs: toks[2],
                    imm: toks[3],
                    address: addr,
                    line_num,
                };
                assert(res matches Ok(st2) ==> st2.0 == recs.push(r) && format_address(r) == addr
                    && st2.2 == addr + format_width(r) && st2.1 == syms);
            }
        } else if toks[0] == lit("lui") {
            if toks.len() == 3 {
                let r = FormatV::I32Format {
                    mnemonic: toks[0],
                    rd: toks[1],
                    rs: lit("r0"),
                    imm: toks[2],
                    address: addr,
                    line_num,
                };
                assert(res matches Ok(st2) ==> st2.0 == recs.push(r) && format_address(r) == addr
                    && st2.2 == addr + format_width(r) && st2.1 == syms);
            }
        } else if toks[0] == lit("jal") {
            if toks.len() == 3 {
                let r = FormatV::JFormat {
                    mnemonic: toks[0],
                    rd: toks[1],
                    imm: toks[2],
                    address: addr,
                    line_num,
                };
                assert(res matches Ok(st2) ==> st2.0 == recs.push(r) && format_address(r) == addr
                    && st2.2 == addr + format_width(r) && st2.1 == syms);
            }
        } else if toks.len() == 1 && is_label_token(toks[0]) {
            let s = SymbolV { name: strip_colons(toks[0]), address: addr };
            assert(res matches Ok(st2) ==> st2.1 == syms.push(s) && s.address == addr && st2.0
                == recs && st2.2 == addr);
        } else if toks.len() == 1 && starts_0x(toks[0]) {
            let r = FormatV::Const { num: toks[0], address: addr, line_num };
            assert(res matches Ok(st2) ==> st2.0 == recs.push(r) && format_address(r) == addr
                && st2.2 == addr + format_width(r) && st2.1 == syms);
        }
    }
}

/// Address accounting of the layout pass: the running address is the origin
/// plus every emitted width; each record's address is the origin plus the
/// widths of all records before it; and each symbol's address is the origin
/// plus the widths of the records declared before it. (label address law)
pub proof fn lemma_layout_addresses(lines: Seq<Seq<u8>>, bare_metal: bool, n: int)
    requires
        0 <= n,
    ensures
        pass1_upto(lines, bare_metal, n) matches Ok(st) ==> {
            &&& st.2 == origin(bare_metal) + sum_widths(st.0)
            &&& forall|k: int|
                0 <= k < st.0.len() ==> format_address(#[trigger] st.0[k]) == origin(bare_metal)
                    + sum_widths(st.0.take(k))
            &&& forall|j: int|
                0 <= j < st.1.len() ==> exists|k: int|
                    0 <= k <= st.0.len() && (#[trigger] st.1[j]).address == origin(bare_metal)
                        + sum_widths(st.0.take(k))
        },
    decreases n,
{
    if n > 0 {
        lemma_layout_addresses(lines, bare_metal, n - 1);
        match pass1_upto(lines, bare_metal, n - 1) {
            Ok(st) => {
                lemma_pass1_step_shape(st.0, st.1, st.2, lines[n - 1], n as u64);
                match pass1_upto(lines, bare_metal, n) {
                    Ok(st2) => {
                        if st2.0 == st.0 && st2.1 == st.1 && st2.2 == st.2 {
                        } else if exists|r: FormatV|
                            #![auto]
                            st2.0 == st.0.push(r) && format_address(r) == st.2 && st2.2 == st.2
                                + format_width(r) && st2.1 == st.1 {
                            let r = choose|r: FormatV|
                                #![auto]
                                st2.0 == st.0.push(r) && format_address(r) == st.2 && st2.2
                                    == st.2 + format_width(r) && st2.1 == st.1;
                            lemma_sum_widths_push(st.0, r);
                            assert forall|k: int| 0 <= k <= st.0.len() implies st2.0.take(k)
                                == st.0.take(k) by {
                                assert(st2.0.take(k) =~= st.0.take(k));
                            }
                            assert(st2.0.take(st.0.len() as int) =~= st.0);
                        } else {
                            let s = choose|s: SymbolV|
                                #![auto]
                                st2.1 == st.1.push(s) && s.address == st.2 && st2.0 == st.0
                                    && st2.2 == st.2;
                            assert(st2.0.take(st2.0.len() as int) =~= st.0);
                            assert(s.address == origin(bare_metal) + sum_widths(
                                st2.0.take(st2.0.len() as int),
                            ));
                        }
                    },
                    Err(_) => {},
                }
            },
            Err(_) => {},
        }
    }
}

} // verus!
