use svm::header::Error::{SyntaxErrorParamNeeded, SyntaxErrorUnknownOp};
use svm::header::UnverifiedOpcode::{
    AllOp, ArrOp, BothOp, CTGetOp, CTPopOp, CallOp, CapLEOp, CapOp, EmosOp, EndFunctionOp,
    ForallOp, FreeRgnOp, FuncOp, GetOp, GlobalFuncOp, HaltOp, HandleOp, HeapOp, I32Op, InitOp,
    LitOp, LlarofOp, MallocOp, MutOp, NewRgnOp, PackOp, PrintOp, ProjOp, PtrOp, RWOp, RegionOp,
    ReprsOp, ReqOp, RgnPolyOp, SomeOp, TupleOp, UniqueOp, UnpackOp, Word32Op, Word64Op, YlopNgrOp,
};
use svm::header::{UnverifiedOpcode, UnverifiedStmt};
use svm::parse;

fn with_header(body: &[u8]) -> Vec<u8> {
    let mut bytes = vec![0x00, 0x00, 0x00, 0x00];
    bytes.extend_from_slice(body);
    bytes
}

fn labels_and_bodies(stmts: &[UnverifiedStmt]) -> Vec<(u32, Vec<UnverifiedOpcode>)> {
    stmts
        .iter()
        .map(|stmt| {
            let UnverifiedStmt::Func(label, ops) = stmt;
            (*label, ops.clone())
        })
        .collect()
}

#[test]
fn test_lex() {
    let input = vec![0x00, 0x00, 0x00, 0x00, 0x00, 0x12, 0x03];
    let output = parse::lex(&input);
    assert_eq!(Ok(vec![ReqOp, CTGetOp(3)]), output);
}

#[test]
fn test_lex_bad() {
    let input = vec![0x00, 0x00, 0x00, 0x00, 0x12];
    let output = parse::lex(&input);
    assert_eq!(Err(SyntaxErrorParamNeeded(4, 0x12)), output);
}

#[test]
fn test_parse() {
    let input = vec![ReqOp, EndFunctionOp, RegionOp];

    let output = parse::parse(&input);

    let Some(stmt1) = output.get(0) else { panic!() };
    let UnverifiedStmt::Func(0, ops1) = stmt1 else {
        panic!()
    };
    assert!(ops1.len() == 1);

    let Some(stmt2) = output.get(1) else { panic!() };
    let UnverifiedStmt::Func(2, ops2) = stmt2 else {
        panic!()
    };
    assert!(ops2.len() == 1);
}

#[test]
fn parse_keeps_the_bodies() {
    let output = parse::parse(&vec![ReqOp, EndFunctionOp, RegionOp]);
    assert_eq!(
        labels_and_bodies(&output),
        vec![(0, vec![ReqOp]), (2, vec![RegionOp])]
    );
    assert_eq!(output[0].label(), 0);
    assert_eq!(output[1].opcodes(), &vec![RegionOp]);
}

#[test]
fn lex_decodes_every_plain_tag() {
    let body: Vec<u8> = vec![
        0x00, 0x01, 0x02, 0x03, 0x04, 0x05, 0x06, 0x07, 0x08, 0x09, 0x0A, 0x0B, 0x0D, 0x0E, 0x0F,
        0x10, 0x13, 0x14, 0x17, 0x19, 0x1A, 0x1E, 0x1F, 0x20, 0x21, 0x23, 0x24, 0x25, 0x26, 0x27,
        0x28,
    ];
    let expected = vec![
        ReqOp, RegionOp, HeapOp, CapOp, CapLEOp, UniqueOp, RWOp, BothOp, HandleOp, I32Op,
        EndFunctionOp, MutOp, ArrOp, AllOp, SomeOp, EmosOp, CTPopOp, UnpackOp, MallocOp, CallOp,
        PrintOp, PackOp, Word32Op, Word64Op, PtrOp, NewRgnOp, FreeRgnOp, ForallOp, LlarofOp,
        RgnPolyOp, YlopNgrOp,
    ];
    assert_eq!(parse::lex(&with_header(&body)), Ok(expected));
}

#[test]
fn lex_decodes_every_one_byte_operand() {
    let body: Vec<u8> = vec![
        0x0C, 2, 0x11, 3, 0x12, 5, 0x15, 7, 0x16, 11, 0x18, 13, 0x1D, 17, 0x22, 255,
    ];
    let expected = vec![
        TupleOp(2),
        FuncOp(3),
        CTGetOp(5),
        GetOp(7),
        InitOp(11),
        ProjOp(13),
        HaltOp(17),
        ReprsOp(255),
    ];
    assert_eq!(parse::lex(&with_header(&body)), Ok(expected));
}

#[test]
fn lex_reads_immediates_big_endian() {
    assert_eq!(
        parse::lex(&with_header(&[0x1B, 0x00, 0x00, 0x01, 0x00])),
        Ok(vec![LitOp(256)])
    );
    assert_eq!(
        parse::lex(&with_header(&[0x1B, 0x12, 0x34, 0x56, 0x78])),
        Ok(vec![LitOp(0x1234_5678)])
    );
    assert_eq!(
        parse::lex(&with_header(&[0x1C, 0x01, 0x02, 0x03, 0x04])),
        Ok(vec![GlobalFuncOp(0x0102_0304)])
    );
    assert_eq!(
        parse::lex(&with_header(&[0x1C, 0xFF, 0xFF, 0xFF, 0xFF])),
        Ok(vec![GlobalFuncOp(u32::MAX)])
    );
}

#[test]
fn lex_reads_literals_as_twos_complement() {
    assert_eq!(
        parse::lex(&with_header(&[0x1B, 0xFF, 0xFF, 0xFF, 0xFF])),
        Ok(vec![LitOp(-1)])
    );
    assert_eq!(
        parse::lex(&with_header(&[0x1B, 0x80, 0x00, 0x00, 0x00])),
        Ok(vec![LitOp(i32::MIN)])
    );
    assert_eq!(
        parse::lex(&with_header(&[0x1B, 0x7F, 0xFF, 0xFF, 0xFF])),
        Ok(vec![LitOp(i32::MAX)])
    );
    assert_eq!(
        parse::lex(&with_header(&[0x1B, 0xFF, 0xFF, 0xFF, 0x85])),
        Ok(vec![LitOp(-123)])
    );
}

#[test]
fn lex_passes_over_the_header() {
    assert_eq!(parse::lex(&vec![]), Ok(vec![]));
    assert_eq!(parse::lex(&vec![0x29]), Ok(vec![]));
    assert_eq!(parse::lex(&vec![0x12, 0x12, 0x12]), Ok(vec![]));
    assert_eq!(parse::lex(&vec![0xFF, 0xFF, 0xFF, 0xFF]), Ok(vec![]));
    assert_eq!(
        parse::lex(&vec![0xFF, 0x1B, 0x12, 0x29, 0x01]),
        Ok(vec![RegionOp])
    );
}

#[test]
fn lex_rejects_every_unknown_tag() {
    for tag in 0x29..=0xFFu8 {
        assert_eq!(
            parse::lex(&with_header(&[tag])),
            Err(SyntaxErrorUnknownOp(4, tag))
        );
        assert_eq!(
            parse::lex(&with_header(&[0x00, 0x01, tag, 0x00])),
            Err(SyntaxErrorUnknownOp(6, tag))
        );
    }
    for tag in 0x00..=0x28u8 {
        assert_ne!(
            parse::lex(&with_header(&[tag, 0, 0, 0, 0])),
            Err(SyntaxErrorUnknownOp(4, tag))
        );
    }
}

#[test]
fn lex_reports_the_position_of_the_tag_byte() {
    // The operand of the first opcode is a byte of the stream like any other.
    assert_eq!(
        parse::lex(&with_header(&[0x12, 0x03, 0xFF])),
        Err(SyntaxErrorUnknownOp(6, 0xFF))
    );
    assert_eq!(
        parse::lex(&with_header(&[0x1B, 0, 0, 0, 1, 0x00, 0x16])),
        Err(SyntaxErrorParamNeeded(10, 0x16))
    );
}

#[test]
fn lex_does_not_take_an_operand_for_a_tag() {
    // 0xFF is the operand of the tuple opcode, not an unknown tag.
    assert_eq!(
        parse::lex(&with_header(&[0x0C, 0xFF])),
        Ok(vec![TupleOp(0xFF)])
    );
    assert_eq!(
        parse::lex(&with_header(&[0x1B, 0x29, 0x2A, 0x2B, 0x2C])),
        Ok(vec![LitOp(0x292A_2B2C)])
    );
}

#[test]
fn lex_rejects_a_stream_cut_inside_an_operand() {
    for tag in [0x0Cu8, 0x11, 0x12, 0x15, 0x16, 0x18, 0x1D, 0x22] {
        assert_eq!(
            parse::lex(&with_header(&[tag])),
            Err(SyntaxErrorParamNeeded(4, tag))
        );
        assert_eq!(
            parse::lex(&with_header(&[0x00, 0x00, 0x00, tag])),
            Err(SyntaxErrorParamNeeded(7, tag))
        );
    }
    for tag in [0x1Bu8, 0x1C] {
        let full = with_header(&[0x00, tag, 1, 2, 3, 4]);
        for cut in 6..10 {
            assert_eq!(
                parse::lex(&full[..cut].to_vec()),
                Err(SyntaxErrorParamNeeded(5, tag))
            );
        }
        assert!(parse::lex(&full).is_ok());
    }
}

#[test]
fn lex_stops_at_the_first_error() {
    assert_eq!(
        parse::lex(&with_header(&[0x30, 0x12])),
        Err(SyntaxErrorUnknownOp(4, 0x30))
    );
    assert_eq!(
        parse::lex(&with_header(&[0x00, 0x40, 0x50])),
        Err(SyntaxErrorUnknownOp(5, 0x40))
    );
}

#[test]
fn parse_of_nothing_is_nothing() {
    assert!(parse::parse(&vec![]).is_empty());
}

#[test]
fn parse_accepts_an_unterminated_last_function() {
    let output = parse::parse(&vec![ReqOp, I32Op, LitOp(7)]);
    assert_eq!(
        labels_and_bodies(&output),
        vec![(0, vec![ReqOp, I32Op, LitOp(7)])]
    );
}

#[test]
fn parse_opens_no_function_behind_a_final_end_marker() {
    let output = parse::parse(&vec![ReqOp, EndFunctionOp]);
    assert_eq!(labels_and_bodies(&output), vec![(0, vec![ReqOp])]);
}

#[test]
fn parse_keeps_empty_functions() {
    let output = parse::parse(&vec![EndFunctionOp]);
    assert_eq!(labels_and_bodies(&output), vec![(0, vec![])]);

    let output = parse::parse(&vec![EndFunctionOp, EndFunctionOp, HaltOp(0)]);
    assert_eq!(
        labels_and_bodies(&output),
        vec![(0, vec![]), (1, vec![]), (2, vec![HaltOp(0)])]
    );
}

#[test]
fn parse_labels_each_function_by_the_index_of_its_first_opcode() {
    let tokens = vec![
        ReqOp,
        EndFunctionOp,
        RegionOp,
        HeapOp,
        EndFunctionOp,
        LitOp(1),
        PrintOp,
        HaltOp(0),
        EndFunctionOp,
        CallOp,
    ];
    let output = parse::parse(&tokens);
    assert_eq!(
        labels_and_bodies(&output),
        vec![
            (0, vec![ReqOp]),
            (2, vec![RegionOp, HeapOp]),
            (5, vec![LitOp(1), PrintOp, HaltOp(0)]),
            (9, vec![CallOp]),
        ]
    );
    for (label, body) in labels_and_bodies(&output) {
        assert_eq!(tokens[label as usize], body[0]);
    }
}

#[test]
fn parse_keeps_every_opcode_but_the_end_markers() {
    let tokens = vec![
        LitOp(1),
        EndFunctionOp,
        EndFunctionOp,
        LitOp(2),
        LitOp(3),
        EndFunctionOp,
        LitOp(4),
    ];
    let output = parse::parse(&tokens);
    let kept: Vec<UnverifiedOpcode> = labels_and_bodies(&output)
        .into_iter()
        .flat_map(|(_, body)| body)
        .collect();
    assert_eq!(kept, vec![LitOp(1), LitOp(2), LitOp(3), LitOp(4)]);
    assert_eq!(output.len(), 4);
}

#[test]
fn go_lexes_then_parses() {
    let bytes = with_header(&[0x00, 0x0A, 0x01, 0x1B, 0, 0, 0, 9, 0x0A, 0x1D, 3]);
    let output = parse::go(&bytes).unwrap();
    assert_eq!(
        labels_and_bodies(&output),
        vec![
            (0, vec![ReqOp]),
            (2, vec![RegionOp, LitOp(9)]),
            (5, vec![HaltOp(3)]),
        ]
    );
}

#[test]
fn go_hands_on_the_lexing_error() {
    assert_eq!(
        parse::go(&with_header(&[0x00, 0x0A, 0x99])),
        Err(SyntaxErrorUnknownOp(6, 0x99))
    );
    assert_eq!(
        parse::go(&with_header(&[0x00, 0x0A, 0x1C, 0x00])),
        Err(SyntaxErrorParamNeeded(6, 0x1C))
    );
}

#[test]
fn go_of_a_bare_header_is_an_empty_program() {
    assert_eq!(parse::go(&vec![0, 0, 0, 0]), Ok(vec![]));
    assert_eq!(parse::go(&vec![]), Ok(vec![]));
}
