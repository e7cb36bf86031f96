//! From bytes to opcodes, and from opcodes to functions.

use crate::header::ByteStream;
use crate::header::Error;
use crate::header::FuncView;
use crate::header::ParsedStmts;
use crate::header::UnverifiedOpcode;
use crate::header::UnverifiedStmt;
use crate::header::stmts_view;
use vstd::prelude::*;

verus! {

/// What the lexer produces and the parser consumes.
pub type LexedOpcodes = Vec<UnverifiedOpcode>;

/// The length of the reserved header at the start of every stream.
pub const BYTES_TO_SKIP: u32 = 4;

/// How many operand bytes follow the given tag, or `None` where the byte is
/// not the tag of any opcode.
pub open spec fn operand_width(tag: u8) -> Option<nat> {
    if tag > 0x28 {
        None
    } else if tag == 0x1B || tag == 0x1C {
        Some(4)
    } else if tag == 0x0C || tag == 0x11 || tag == 0x12 || tag == 0x15 || tag == 0x16 || tag
        == 0x18 || tag == 0x1D || tag == 0x22 {
        Some(1)
    } else {
        Some(0)
    }
}

/// The unsigned number that four bytes spell, most significant byte first.
pub open spec fn be_u32(b: Seq<u8>) -> u32
    recommends
        b.len() == 4,
{
    (b[0] * 0x100_0000 + b[1] * 0x1_0000 + b[2] * 0x100 + b[3]) as u32
}

/// The signed number that four bytes spell in two's complement, most
/// significant byte first.
pub open spec fn be_i32(b: Seq<u8>) -> i32
    recommends
        b.len() == 4,
{
    if b[0] < 0x80 {
        be_u32(b) as i32
    } else {
        (be_u32(b) - 0x1_0000_0000) as i32
    }
}

/// The opcode that a known tag and its operand bytes encode.
pub open spec fn decode(tag: u8, operand: Seq<u8>) -> UnverifiedOpcode
    recommends
        operand_width(tag) == Some(operand.len()),
{
    match tag {
        0x00 => UnverifiedOpcode::ReqOp,
        0x01 => UnverifiedOpcode::RegionOp,
        0x02 => UnverifiedOpcode::HeapOp,
        0x03 => UnverifiedOpcode::CapOp,
        0x04 => UnverifiedOpcode::CapLEOp,
        0x05 => UnverifiedOpcode::UniqueOp,
        0x06 => UnverifiedOpcode::RWOp,
        0x07 => UnverifiedOpcode::BothOp,
        0x08 => UnverifiedOpcode::HandleOp,
        0x09 => UnverifiedOpcode::I32Op,
        0x0A => UnverifiedOpcode::EndFunctionOp,
        0x0B => UnverifiedOpcode::MutOp,
        0x0C => UnverifiedOpcode::TupleOp(operand[0]),
        0x0D => UnverifiedOpcode::ArrOp,
        0x0E => UnverifiedOpcode::AllOp,
        0x0F => UnverifiedOpcode::SomeOp,
        0x10 => UnverifiedOpcode::EmosOp,
        0x11 => UnverifiedOpcode::FuncOp(operand[0]),
        0x12 => UnverifiedOpcode::CTGetOp(operand[0]),
        0x13 => UnverifiedOpcode::CTPopOp,
        0x14 => UnverifiedOpcode::UnpackOp,
        0x15 => UnverifiedOpcode::GetOp(operand[0]),
        0x16 => UnverifiedOpcode::InitOp(operand[0]),
        0x17 => UnverifiedOpcode::MallocOp,
        0x18 => UnverifiedOpcode::ProjOp(operand[0]),
        0x19 => UnverifiedOpcode::CallOp,
        0x1A => UnverifiedOpcode::PrintOp,
        0x1B => UnverifiedOpcode::LitOp(be_i32(operand)),
        0x1C => UnverifiedOpcode::GlobalFuncOp(be_u32(operand)),
        0x1D => UnverifiedOpcode::HaltOp(operand[0]),
        0x1E => UnverifiedOpcode::PackOp,
        0x1F => UnverifiedOpcode::Word32Op,
        0x20 => UnverifiedOpcode::Word64Op,
        0x21 => UnverifiedOpcode::PtrOp,
        0x22 => UnverifiedOpcode::ReprsOp(operand[0]),
        0x23 => UnverifiedOpcode::NewRgnOp,
        0x24 => UnverifiedOpcode::FreeRgnOp,
        0x25 => UnverifiedOpcode::ForallOp,
        0x26 => UnverifiedOpcode::LlarofOp,
        0x27 => UnverifiedOpcode::RgnPolyOp,
        _ => UnverifiedOpcode::YlopNgrOp,
    }
}

/// The opcodes that the stream holds from byte `pos` on, or the first error
/// met on the way. `pos` is the position of a tag byte, or lies at or behind
/// the end of the stream.
pub open spec fn lex_from(bytes: Seq<u8>, pos: int) -> Result<Seq<UnverifiedOpcode>, Error>
    decreases bytes.len() - pos,
{
    if pos < 0 || pos >= bytes.len() {
        Ok(Seq::empty())
    } else {
        let tag = bytes[pos];
        match operand_width(tag) {
            None => Err(Error::SyntaxErrorUnknownOp(pos as u32, tag)),
            Some(w) => if pos + 1 + w > bytes.len() {
                Err(Error::SyntaxErrorParamNeeded(pos as u32, tag))
            } else {
                match lex_from(bytes, pos + 1 + w) {
                    Ok(rest) => Ok(seq![decode(tag, bytes.subrange(pos + 1, pos + 1 + w))] + rest),
                    Err(e) => Err(e),
                }
            },
        }
    }
}

/// What a whole stream lexes to: the header is passed over, whatever it
/// holds, and a stream no longer than the header holds no opcodes.
pub open spec fn lex_spec(bytes: Seq<u8>) -> Result<Seq<UnverifiedOpcode>, Error> {
    lex_from(bytes, BYTES_TO_SKIP as int)
}

/// `done`, followed by what `rest` lexes to.
pub open spec fn lexed_after(
    done: Seq<UnverifiedOpcode>,
    rest: Result<Seq<UnverifiedOpcode>, Error>,
) -> Result<Seq<UnverifiedOpcode>, Error> {
    match rest {
        Ok(ops) => Ok(done + ops),
        Err(e) => Err(e),
    }
}

/// Reads a big-endian `u32` from the four bytes at `at`.
fn read_u32(bytes: &ByteStream, at: usize) -> (v: u32)
    requires
        at + 4 <= bytes@.len() <= u32::MAX,
    ensures
        v == be_u32(bytes@.subrange(at as int, at + 4)),
{
    let b0: u32 = bytes[at] as u32;
    let b1: u32 = bytes[at + 1] as u32;
    let b2: u32 = bytes[at + 2] as u32;
    let b3: u32 = bytes[at + 3] as u32;
    let v: u32 = b0 << 24 | b1 << 16 | b2 << 8 | b3;
    assert(b0 << 24 | b1 << 16 | b2 << 8 | b3 == b0 * 0x100_0000 + b1 * 0x1_0000 + b2 * 0x100 + b3)
        by (bit_vector)
        requires
            b0 < 0x100,
            b1 < 0x100,
            b2 < 0x100,
            b3 < 0x100,
    ;
    v
}

/// Reinterprets 32 bits as a two's-complement number.
fn to_signed(v: u32) -> (i: i32)
    ensures
        v < 0x8000_0000 ==> i == v,
        v >= 0x8000_0000 ==> i == v - 0x1_0000_0000,
{
    if v < 0x8000_0000 {
        v as i32
    } else {
        let low: i32 = (v - 0x8000_0000) as i32;
        low - 0x7fff_ffff - 1
    }
}

/// Decodes the opcode whose tag byte stands at `pos`, and says where the
/// next tag byte stands.
fn lex_one(bytes: &ByteStream, pos: usize) -> (res: Result<(UnverifiedOpcode, usize), Error>)
    requires
        pos < bytes@.len() <= u32::MAX,
    ensures
        match res {
            Ok((op, next)) => {
                &&& operand_width(bytes@[pos as int]) matches Some(w)
                &&& next == pos + 1 + w
                &&& next <= bytes@.len()
                &&& op == decode(bytes@[pos as int], bytes@.subrange(pos + 1, next as int))
            },
            Err(e) => match operand_width(bytes@[pos as int]) {
                None => e == Error::SyntaxErrorUnknownOp(pos as u32, bytes@[pos as int]),
                Some(w) => pos + 1 + w > bytes@.len() && e == Error::SyntaxErrorParamNeeded(
                    pos as u32,
                    bytes@[pos as int],
                ),
            },
        },
{
    let tag: u8 = bytes[pos];
    let at: usize = pos + 1;
    let left: usize = bytes.len() - at;
    if tag > 0x28 {
        return Err(Error::SyntaxErrorUnknownOp(pos as u32, tag));
    }
    if tag == 0x1B || tag == 0x1C {
        if left < 4 {
            return Err(Error::SyntaxErrorParamNeeded(pos as u32, tag));
        }
        let v: u32 = read_u32(bytes, at);
        proof {
            let operand = bytes@.subrange(at as int, at + 4);
            assert(operand[0] == bytes@[at as int]);
        }
        if tag == 0x1B {
            return Ok((UnverifiedOpcode::LitOp(to_signed(v)), at + 4));
        }
        return Ok((UnverifiedOpcode::GlobalFuncOp(v), at + 4));
    }
    if tag == 0x0C || tag == 0x11 || tag == 0x12 || tag == 0x15 || tag == 0x16 || tag == 0x18
        || tag == 0x1D || tag == 0x22 {
        if left < 1 {
            return Err(Error::SyntaxErrorParamNeeded(pos as u32, tag));
        }
        let n: u8 = bytes[at];
        assert(bytes@.subrange(at as int, at + 1)[0] == n);
        let op = match tag {
            0x0C => UnverifiedOpcode::TupleOp(n),
            0x11 => UnverifiedOpcode::FuncOp(n),
            0x12 => UnverifiedOpcode::CTGetOp(n),
            0x15 => UnverifiedOpcode::GetOp(n),
            0x16 => UnverifiedOpcode::InitOp(n),
            0x18 => UnverifiedOpcode::ProjOp(n),
            0x1D => UnverifiedOpcode::HaltOp(n),
            _ => UnverifiedOpcode::ReprsOp(n),
        };
        return Ok((op, at + 1));
    }
    let op = match tag {
        0x00 => UnverifiedOpcode::ReqOp,
        0x01 => UnverifiedOpcode::RegionOp,
        0x02 => UnverifiedOpcode::HeapOp,
        0x03 => UnverifiedOpcode::CapOp,
        0x04 => UnverifiedOpcode::CapLEOp,
        0x05 => UnverifiedOpcode::UniqueOp,
        0x06 => UnverifiedOpcode::RWOp,
        0x07 => UnverifiedOpcode::BothOp,
        0x08 => UnverifiedOpcode::HandleOp,
        0x09 => UnverifiedOpcode::I32Op,
        0x0A => UnverifiedOpcode::EndFunctionOp,
        0x0B => UnverifiedOpcode::MutOp,
        0x0D => UnverifiedOpcode::ArrOp,
        0x0E => UnverifiedOpcode::AllOp,
        0x0F => UnverifiedOpcode::SomeOp,
        0x10 => UnverifiedOpcode::EmosOp,
        0x13 => UnverifiedOpcode::CTPopOp,
        0x14 => UnverifiedOpcode::UnpackOp,
        0x17 => UnverifiedOpcode::MallocOp,
        0x19 => UnverifiedOpcode::CallOp,
        0x1A => UnverifiedOpcode::PrintOp,
        0x1E => UnverifiedOpcode::PackOp,
        0x1F => UnverifiedOpcode::Word32Op,
        0x20 => UnverifiedOpcode::Word64Op,
        0x21 => UnverifiedOpcode::PtrOp,
        0x23 => UnverifiedOpcode::NewRgnOp,
        0x24 => UnverifiedOpcode::FreeRgnOp,
        0x25 => UnverifiedOpcode::ForallOp,
        0x26 => UnverifiedOpcode::LlarofOp,
        0x27 => UnverifiedOpcode::RgnPolyOp,
        _ => UnverifiedOpcode::YlopNgrOp,
    };
    Ok((op, at))
}

/// Lexes a stream into opcodes.
///
/// The first four bytes are passed over. Every opcode after them is decoded
/// in order; the first byte that is no tag, or the first opcode whose operand
/// the stream cuts short, ends the lexing with an error that carries the
/// position of that opcode's tag byte.
pub fn lex(bytes: &ByteStream) -> (res: Result<LexedOpcodes, Error>)
    requires
        bytes@.len() <= u32::MAX,
    ensures
        match res {
            Ok(ops) => lex_spec(bytes@) == Ok::<Seq<UnverifiedOpcode>, Error>(ops@),
            Err(e) => lex_spec(bytes@) == Err::<Seq<UnverifiedOpcode>, Error>(e),
        },
{
    let mut lexed_opcodes: Vec<UnverifiedOpcode> = Vec::new();
    let mut pos: usize = BYTES_TO_SKIP as usize;
    while pos < bytes.len()
        invariant
            pos >= BYTES_TO_SKIP,
            bytes@.len() <= u32::MAX,
            lex_spec(bytes@) == lexed_after(lexed_opcodes@, lex_from(bytes@, pos as int)),
        decreases bytes@.len() - pos,
    {
        match lex_one(bytes, pos) {
            Err(e) => {
                return Err(e);
            },
            Ok((op, next)) => {
                proof {
                    let rest = lex_from(bytes@, next as int);
                    if let Ok(ops) = rest {
                        assert(lexed_opcodes@ + (seq![op] + ops) =~= lexed_opcodes@.push(op) + ops);
                    }
                }
                lexed_opcodes.push(op);
                pos = next;
            },
        }
    }
    assert(lexed_opcodes@ + Seq::<UnverifiedOpcode>::empty() =~= lexed_opcodes@);
    Ok(lexed_opcodes)
}

/// How many opcodes stand before the next end marker, counted from `from`;
/// where no end marker follows, how many stand before the end of the stream.
pub open spec fn body_len(tokens: Seq<UnverifiedOpcode>, from: int) -> nat
    decreases tokens.len() - from,
{
    if from < 0 || from >= tokens.len() || tokens[from] == UnverifiedOpcode::EndFunctionOp {
        0
    } else {
        1 + body_len(tokens, from + 1)
    }
}

/// The functions that begin at or behind opcode `start`, where `start` is the
/// beginning of a function or the end of the stream.
pub open spec fn parse_from(tokens: Seq<UnverifiedOpcode>, start: int) -> Seq<FuncView>
    decreases tokens.len() - start,
{
    if start < 0 || start >= tokens.len() {
        Seq::empty()
    } else {
        let n = body_len(tokens, start);
        let first = FuncView { label: start as u32, body: tokens.subrange(start, start + n) };
        if start + n >= tokens.len() {
            seq![first]
        } else {
            seq![first] + parse_from(tokens, start + n + 1)
        }
    }
}

/// The functions of an opcode stream. A function begins at the first opcode
/// and behind every end marker but one that ends the stream; it runs up to
/// the next end marker, or to the end of the stream; its label is the index
/// of the opcode at which it begins.
pub open spec fn parse_spec(tokens: Seq<UnverifiedOpcode>) -> Seq<FuncView> {
    parse_from(tokens, 0)
}

/// A run of opcodes without an end marker, which an end marker or the end of
/// the stream follows, is the body of the function that begins where it does.
proof fn lemma_body_len(tokens: Seq<UnverifiedOpcode>, from: int, to: int)
    requires
        0 <= from <= to <= tokens.len(),
        forall|k: int| from <= k < to ==> tokens[k] != UnverifiedOpcode::EndFunctionOp,
        to == tokens.len() || tokens[to] == UnverifiedOpcode::EndFunctionOp,
    ensures
        body_len(tokens, from) == to - from,
    decreases to - from,
{
    if from < to {
        lemma_body_len(tokens, from + 1, to);
    }
}

/// Divides an opcode stream into functions.
///
/// Every end marker closes the function that is open, be it empty, and the
/// next function begins behind it. Opcodes that no end marker follows form a
/// last function; an end marker at the very end opens no further one.
pub fn parse(tokens: &LexedOpcodes) -> (parsed_stmts: ParsedStmts)
    requires
        tokens@.len() <= u32::MAX,
    ensures
        stmts_view(parsed_stmts@) == parse_spec(tokens@),
{
    let mut parsed_stmts: Vec<UnverifiedStmt> = Vec::new();
    let mut current_stmt_opcodes: Vec<UnverifiedOpcode> = Vec::new();
    let mut function_label: u32 = 0;
    let mut line: usize = 0;
    assert(stmts_view(parsed_stmts@) + parse_from(tokens@, 0) =~= parse_from(tokens@, 0));
    while line < tokens.len()
        invariant
            function_label <= line <= tokens@.len() <= u32::MAX,
            current_stmt_opcodes@ == tokens@.subrange(function_label as int, line as int),
            forall|k: int|
                function_label <= k < line ==> tokens@[k] != UnverifiedOpcode::EndFunctionOp,
            parse_spec(tokens@) == stmts_view(parsed_stmts@) + parse_from(
                tokens@,
                function_label as int,
            ),
        decreases tokens@.len() - line,
    {
        let op: UnverifiedOpcode = tokens[line];
        match op {
            UnverifiedOpcode::EndFunctionOp => {
                proof {
                    lemma_body_len(tokens@, function_label as int, line as int);
                    let func = FuncView { label: function_label, body: current_stmt_opcodes@ };
                    let rest = parse_from(tokens@, line + 1);
                    assert(parse_from(tokens@, function_label as int) =~= seq![func] + rest);
                    assert(stmts_view(parsed_stmts@) + (seq![func] + rest) =~= stmts_view(
                        parsed_stmts@,
                    ).push(func) + rest);
                    assert(stmts_view(
                        parsed_stmts@.push(
                            UnverifiedStmt::Func(function_label, current_stmt_opcodes),
                        ),
                    ) =~= stmts_view(parsed_stmts@).push(func));
                }
                parsed_stmts.push(UnverifiedStmt::Func(function_label, current_stmt_opcodes));
                function_label = (line + 1) as u32;
                current_stmt_opcodes = Vec::new();
            },
            _ => {
                current_stmt_opcodes.push(op);
            },
        }
        line += 1;
    }
    if current_stmt_opcodes.len() > 0 {
        proof {
            lemma_body_len(tokens@, function_label as int, line as int);
            let func = FuncView { label: function_label, body: current_stmt_opcodes@ };
            assert(stmts_view(parsed_stmts@) + seq![func] =~= stmts_view(parsed_stmts@).push(
                func,
            ));
            assert(stmts_view(
                parsed_stmts@.push(UnverifiedStmt::Func(function_label, current_stmt_opcodes)),
            ) =~= stmts_view(parsed_stmts@).push(func));
        }
        parsed_stmts.push(UnverifiedStmt::Func(function_label, current_stmt_opcodes));
    } else {
        assert(stmts_view(parsed_stmts@) + Seq::<FuncView>::empty() =~= stmts_view(
            parsed_stmts@,
        ));
    }
    parsed_stmts
}

/// From `pos` on, a stream holds no more opcodes than bytes.
proof fn lemma_lex_len(bytes: Seq<u8>, pos: int)
    requires
        0 <= pos,
    ensures
        lex_from(bytes, pos) matches Ok(ops) ==> ops.len() <= bytes.len() - pos || ops.len() == 0,
    decreases bytes.len() - pos,
{
    if pos < bytes.len() {
        if let Some(w) = operand_width(bytes[pos]) {
            if pos + 1 + w <= bytes.len() {
                lemma_lex_len(bytes, pos + 1 + w);
            }
        }
    }
}

/// Lexes a stream of bytes and, where that succeeds, parses the opcodes into
/// functions; a lexing error is handed on as it is.
pub fn go(istream: &ByteStream) -> (res: Result<ParsedStmts, Error>)
    requires
        istream@.len() <= u32::MAX,
    ensures
        match res {
            Ok(stmts) => lex_spec(istream@) matches Ok(tokens) && stmts_view(stmts@) == parse_spec(
                tokens,
            ),
            Err(e) => lex_spec(istream@) == Err::<Seq<UnverifiedOpcode>, Error>(e),
        },
{
    match lex(istream) {
        Err(e) => Err(e),
        Ok(tokens) => {
            proof {
                lemma_lex_len(istream@, BYTES_TO_SKIP as int);
            }
            Ok(parse(&tokens))
        },
    }
}

/// Lexing a stream whose beginning, up to `cut`, lexes without error yields
/// the opcodes of that beginning, followed by what the rest lexes to.
pub proof fn lemma_lex_prefix(bytes: Seq<u8>, from: int, cut: int)
    requires
        0 <= from <= cut <= bytes.len(),
        lex_from(bytes.take(cut), from) is Ok,
    ensures
        lex_from(bytes, from) == lexed_after(
            lex_from(bytes.take(cut), from)->Ok_0,
            lex_from(bytes, cut),
        ),
    decreases cut - from,
{
    let head = bytes.take(cut);
    if from >= cut {
        if let Ok(ops) = lex_from(bytes, cut) {
            assert(Seq::<UnverifiedOpcode>::empty() + ops =~= ops);
        }
    } else {
        let tag = bytes[from];
        assert(head[from] == tag);
        let w = operand_width(tag)->Some_0;
        let next = from + 1 + w;
        lemma_lex_prefix(bytes, next, cut);
        assert(head.subrange(from + 1, next) =~= bytes.subrange(from + 1, next));
        let op = decode(tag, bytes.subrange(from + 1, next));
        let done = lex_from(head, next)->Ok_0;
        if let Ok(ops) = lex_from(bytes, cut) {
            assert(seq![op] + (done + ops) =~= (seq![op] + done) + ops);
        }
    }
}

/// A byte that is not the tag of any opcode, at a position where an opcode is
/// due, makes lexing fail with `SyntaxErrorUnknownOp`, that position and that
/// byte. An opcode is due at `pos` where the stream before `pos` lexes
/// without error.
pub proof fn lemma_unknown_tag(bytes: Seq<u8>, pos: int)
    requires
        BYTES_TO_SKIP <= pos < bytes.len(),
        lex_spec(bytes.take(pos)) is Ok,
        operand_width(bytes[pos]) is None,
    ensures
        lex_spec(bytes) == Err::<Seq<UnverifiedOpcode>, Error>(
            Error::SyntaxErrorUnknownOp(pos as u32, bytes[pos]),
        ),
{
    lemma_lex_prefix(bytes, BYTES_TO_SKIP as int, pos);
}

/// A stream that ends inside the operand of an opcode, or between its tag
/// and its operand, makes lexing fail with `SyntaxErrorParamNeeded`, the
/// position of that opcode's tag byte and the tag byte. The opcode's tag
/// stands at `pos` where the stream before `pos` lexes without error.
pub proof fn lemma_truncated_operand(bytes: Seq<u8>, pos: int)
    requires
        BYTES_TO_SKIP <= pos < bytes.len(),
        lex_spec(bytes.take(pos)) is Ok,
        operand_width(bytes[pos]) matches Some(w) && pos + 1 + w > bytes.len(),
    ensures
        lex_spec(bytes) == Err::<Seq<UnverifiedOpcode>, Error>(
            Error::SyntaxErrorParamNeeded(pos as u32, bytes[pos]),
        ),
{
    lemma_lex_prefix(bytes, BYTES_TO_SKIP as int, pos);
}

} // verus!
