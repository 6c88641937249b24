use vstd::prelude::*;

verus! {

/// A fatal assembly failure.  Every variant carries the one-based source
/// line number it was detected on, together with the offending text.
#[derive(Debug)]
pub enum AsmError {
    /// An unknown mnemonic, a wrong token count for a mnemonic, or a line
    /// that fits no rule at all.  Carries the whole token line.
    Syntax { line: u64, tokens: Vec<Vec<u8>> },
    /// A register operand that is neither `r0`..`r31` nor a documented alias.
    UnknownRegister { line: u64, register: Vec<u8> },
    /// An immediate or constant token that parses as neither a literal of the
    /// expected width nor (where symbols are allowed) a known symbol.
    ImmediateParse { line: u64, token: Vec<u8> },
    /// A successfully parsed immediate that exceeds its field's range.
    ImmediateRange { line: u64, token: Vec<u8> },
}

/// The mathematical image of an [`AsmError`]: the same shape over `Seq<u8>`.
pub enum AsmErrorV {
    Syntax { line: u64, tokens: Seq<Seq<u8>> },
    UnknownRegister { line: u64, register: Seq<u8> },
    ImmediateParse { line: u64, token: Seq<u8> },
    ImmediateRange { line: u64, token: Seq<u8> },
}

impl View for AsmError {
    type V = AsmErrorV;

    open spec fn view(&self) -> AsmErrorV {
        match self {
            AsmError::Syntax { line, tokens } => AsmErrorV::Syntax {
                line: *line,
                tokens: tokens.deep_view(),
            },
            AsmError::UnknownRegister { line, register } => AsmErrorV::UnknownRegister {
                line: *line,
                register: register@,
            },
            AsmError::ImmediateParse { line, token } => AsmErrorV::ImmediateParse {
                line: *line,
                token: token@,
            },
            AsmError::ImmediateRange { line, token } => AsmErrorV::ImmediateRange {
                line: *line,
                token: token@,
            },
        }
    }
}

} // verus!
