//! The assembly driver: runs the layout pass, then resolves and encodes
//! every record against the frozen symbol table, and emits the byte image in
//! source order — each word least-significant byte first, preceded in
//! non-bare-metal mode by a 4-byte little-endian total-size header.

use vstd::prelude::*;

verus! {

use crate::converter::{convert, convert_spec, Word};
use crate::error::{AsmError, AsmErrorV};
use crate::parser::{
    origin, parse, pass1, wf_format, wf_symbol, Format, FormatV, Symbol, SymbolV,
};
use crate::text::lemma_bytes_deep_view;

broadcast use lemma_bytes_deep_view;

/// The little-endian bytes of one encoded word.
pub open spec fn word_bytes(w: Word) -> Seq<u8> {
    match w {
        Word::Word16(x) => seq![(x & 0xFF) as u8, ((x >> 8) & 0xFF) as u8],
        Word::Word32(x) => seq![
            (x & 0xFF) as u8,
            ((x >> 8) & 0xFF) as u8,
            ((x >> 16) & 0xFF) as u8,
            ((x >> 24) & 0xFF) as u8,
        ],
    }
}

/// The 4-byte little-endian form of the size header.
pub open spec fn le_bytes_4(x: u32) -> Seq<u8> {
    seq![
        (x & 0xFF) as u8,
        ((x >> 8) & 0xFF) as u8,
        ((x >> 16) & 0xFF) as u8,
        ((x >> 24) & 0xFF) as u8,
    ]
}

/// The image bytes of the first `n` records, in source order, or the first
/// encoding error.
pub open spec fn words_upto(recs: Seq<FormatV>, syms: Seq<SymbolV>, n: int) -> Result<
    Seq<u8>,
    AsmErrorV,
>
    decreases n,
{
    if n <= 0 {
        Ok(Seq::empty())
    } else {
        match words_upto(recs, syms, n - 1) {
            Ok(bs) => match convert_spec(recs[n - 1], syms) {
                Ok(w) => Ok(bs + word_bytes(w)),
                Err(e) => Err(e),
            },
            Err(e) => Err(e),
        }
    }
}

/// Once encoding fails, every longer prefix fails the same way.
pub proof fn lemma_words_err_stable(recs: Seq<FormatV>, syms: Seq<SymbolV>, m: int, n: int)
    requires
        0 <= m <= n,
        words_upto(recs, syms, m) is Err,
    ensures
        words_upto(recs, syms, n) == words_upto(recs, syms, m),
    decreases n - m,
{
    if m < n {
        lemma_words_err_stable(recs, syms, m, n - 1);
    }
}

/// The whole pipeline on one source text: layout, then resolve and encode
/// every record, then lay the words out least-significant byte first, with
/// the 4-byte little-endian size header in front unless in bare-metal mode.
pub open spec fn assemble_spec(lines: Seq<Seq<u8>>, bare_metal: bool) -> Result<
    Seq<u8>,
    AsmErrorV,
> {
    match pass1(lines, bare_metal) {
        Err(e) => Err(e),
        Ok((recs, syms, addr)) => match words_upto(recs, syms, recs.len() as int) {
            Err(e) => Err(e),
            Ok(bs) => if bare_metal {
                Ok(bs)
            } else {
                Ok(le_bytes_4((addr - 256) as u32) + bs)
            },
        },
    }
}

/// Appends one word's little-endian bytes.
fn push_word_bytes(out: &mut Vec<u8>, w: Word)
    ensures
        final(out)@ == old(out)@ + word_bytes(w),
{
    match w {
        Word::Word16(x) => {
            out.push((x & 0xFF) as u8);
            out.push(((x >> 8) & 0xFF) as u8);
            proof {
                assert(out@ =~= old(out)@ + word_bytes(Word::Word16(x)));
            }
        },
        Word::Word32(x) => {
            out.push((x & 0xFF) as u8);
            out.push(((x >> 8) & 0xFF) as u8);
            out.push(((x >> 16) & 0xFF) as u8);
            out.push(((x >> 24) & 0xFF) as u8);
            proof {
                assert(out@ =~= old(out)@ + word_bytes(Word::Word32(x)));
            }
        },
    }
}

/// Appends the 4-byte little-endian size header.
fn push_le_4(out: &mut Vec<u8>, x: u32)
    ensures
        final(out)@ == old(out)@ + le_bytes_4(x),
{
    out.push((x & 0xFF) as u8);
    out.push(((x >> 8) & 0xFF) as u8);
    out.push(((x >> 16) & 0xFF) as u8);
    out.push(((x >> 24) & 0xFF) as u8);
    proof {
        assert(out@ =~= old(out)@ + le_bytes_4(x));
    }
}

/// Assembles a source text into its byte image, exactly as
/// [`assemble_spec`] says: the first fatal error anywhere aborts the whole
/// run with no output.
pub fn assemble(lines: &Vec<Vec<u8>>, bare_metal: bool) -> (r: Result<Vec<u8>, AsmError>)
    requires
        256 + 4 * lines@.len() <= 0xFFFF_FFFF,
    ensures
        r matches Ok(bs) ==> assemble_spec(lines.deep_view(), bare_metal) == Ok::<
            Seq<u8>,
            AsmErrorV,
        >(bs@),
        r matches Err(e) ==> assemble_spec(lines.deep_view(), bare_metal) == Err::<
            Seq<u8>,
            AsmErrorV,
        >(e@),
{
    let ghost linesv = lines.deep_view();
    let (recs, syms, size) = match parse(lines, bare_metal) {
        Ok(t) => t,
        Err(e) => {
            return Err(e);
        },
    };
    let ghost recsv = recs.deep_view();
    let ghost symsv = syms.deep_view();
    proof {
        assert(forall|j: int| 0 <= j < recs@.len() ==> recsv[j] == (#[trigger] recs@[j])@);
        assert(forall|j: int| 0 <= j < syms@.len() ==> symsv[j] == (#[trigger] syms@[j])@);
    }
    let mut body: Vec<u8> = Vec::new();
    let mut k: usize = 0;
    while k < recs.len()
        invariant
            k <= recs@.len(),
            linesv == lines.deep_view(),
            recsv == recs.deep_view(),
            symsv == syms.deep_view(),
            recsv.len() == recs@.len(),
            forall|j: int| 0 <= j < recs@.len() ==> recsv[j] == (#[trigger] recs@[j])@,
            forall|j: int| 0 <= j < syms@.len() ==> symsv[j] == (#[trigger] syms@[j])@,
            forall|j: int| 0 <= j < recsv.len() ==> wf_format(#[trigger] recsv[j]),
            forall|j: int| 0 <= j < symsv.len() ==> wf_symbol(#[trigger] symsv[j]),
            pass1(linesv, bare_metal) == Ok::<(Seq<FormatV>, Seq<SymbolV>, int), AsmErrorV>(
                (recsv, symsv, origin(bare_metal) + size as int),
            ),
            words_upto(recsv, symsv, k as int) == Ok::<Seq<u8>, AsmErrorV>(body@),
        decreases recs@.len() - k,
    {
        match convert(&recs[k], &syms) {
            Ok(w) => {
                push_word_bytes(&mut body, w);
                k += 1;
            },
            Err(e) => {
                proof {
                    assert(words_upto(recsv, symsv, k as int + 1) == Err::<Seq<u8>, AsmErrorV>(
                        e@,
                    ));
                    lemma_words_err_stable(recsv, symsv, k as int + 1, recsv.len() as int);
                }
                return Err(e);
            },
        }
    }
    if bare_metal {
        Ok(body)
    } else {
        let mut out: Vec<u8> = Vec::new();
        push_le_4(&mut out, size);
        let mut rest = body;
        out.append(&mut rest);
        Ok(out)
    }
}

} // verus!
