use rust_engineering_domain::analyzer::{
    apply_edits, AnalyzerDiagnostic, AnalyzerError, AnalyzerExecution, AnalyzerFailure,
    AnalyzerFile, AnalyzerOutcome, AnalyzerQuery, AnalyzerReadiness, AnalyzerResult,
    AnalyzerRuntime, CodeActionKind, Completeness, DiagnosticSeverity, DocumentSymbol,
    IncompleteReason, LineIndex, Omission, OmissionKind, PositionEncoding, RelatedInformation,
    ServerHealth, ServerStatusObservation, SessionStop, SessionSummary, SymbolKind, SymbolQuery,
    TextRange, MAX_SYMBOL_QUERY_CHARS,
};
use rust_engineering_domain::diagnostic::Position;
use rust_engineering_domain::execution::ExecutionTermination;
use rust_engineering_domain::value::{NonEmptyText, SourceFingerprint};

fn pos(line: u32, column: u32) -> Position {
    Position::new(line, column).unwrap()
}

fn text(value: &str) -> NonEmptyText {
    NonEmptyText::try_from(value.to_owned()).unwrap()
}

fn range(sl: u32, sc: u32, el: u32, ec: u32) -> TextRange {
    TextRange::new(pos(sl, sc), pos(el, ec)).unwrap()
}

#[test]
fn analyzer_file_requires_relative_rs_path() {
    assert!(AnalyzerFile::new("src/lib.rs".into()).is_ok());
    for bad in ["src/lib.txt", "/abs.rs", "../lib.rs", "", "a//b.rs"] {
        assert_eq!(AnalyzerFile::new(bad.into()), Err(AnalyzerError::Invalid));
    }
}

#[test]
fn text_range_rejects_inverted_bounds() {
    assert!(TextRange::new(pos(1, 1), pos(1, 5)).is_ok());
    assert_eq!(
        TextRange::new(pos(2, 1), pos(1, 1)),
        Err(AnalyzerError::InvalidRange)
    );
}

#[test]
fn ascii_offsets_round_trip() {
    let index = LineIndex::new(b"ab\ncd").unwrap();
    assert_eq!(index.position_from_byte_offset(0).unwrap(), pos(1, 1));
    assert_eq!(index.position_from_byte_offset(2).unwrap(), pos(1, 3));
    assert_eq!(index.position_from_byte_offset(3).unwrap(), pos(2, 1));
    assert_eq!(index.position_from_byte_offset(5).unwrap(), pos(2, 3));
    assert_eq!(index.byte_offset_from_position(pos(2, 1)).unwrap(), 3);
    assert_eq!(index.byte_offset_from_position(pos(1, 3)).unwrap(), 2);
}

#[test]
fn offset_past_end_is_out_of_range() {
    let index = LineIndex::new(b"ab").unwrap();
    assert_eq!(
        index.position_from_byte_offset(3),
        Err(AnalyzerError::OutOfRange)
    );
    assert_eq!(
        index.position_from_byte_offset(2),
        Ok(pos(1, 3)),
        "offset == len is a valid end position"
    );
}

#[test]
fn offset_inside_bmp_code_point_is_rejected() {
    let index = LineIndex::new("é".as_bytes()).unwrap();
    assert_eq!(index.position_from_byte_offset(0), Ok(pos(1, 1)));
    assert_eq!(
        index.position_from_byte_offset(1),
        Err(AnalyzerError::OffsetInsideCodePoint)
    );
    assert_eq!(index.position_from_byte_offset(2), Ok(pos(1, 2)));
}

#[test]
fn astral_and_emoji_are_one_scalar_each() {
    let text = "𝄞😀x";
    let index = LineIndex::new(text.as_bytes()).unwrap();
    assert_eq!(index.position_from_byte_offset(0).unwrap(), pos(1, 1));
    assert_eq!(index.position_from_byte_offset(4).unwrap(), pos(1, 2));
    assert_eq!(index.position_from_byte_offset(8).unwrap(), pos(1, 3));
    for inside in [1, 2, 3, 5, 6, 7] {
        assert_eq!(
            index.position_from_byte_offset(inside),
            Err(AnalyzerError::OffsetInsideCodePoint),
            "offset {inside}"
        );
    }
    assert_eq!(index.byte_offset_from_position(pos(1, 2)).unwrap(), 4);
    assert_eq!(index.byte_offset_from_position(pos(1, 4)).unwrap(), 9);
}

#[test]
fn combining_sequences_count_each_scalar() {
    let text = "e\u{0301}x";
    let index = LineIndex::new(text.as_bytes()).unwrap();
    assert_eq!(index.position_from_byte_offset(0).unwrap(), pos(1, 1));
    assert_eq!(index.position_from_byte_offset(1).unwrap(), pos(1, 2));
    assert_eq!(index.position_from_byte_offset(3).unwrap(), pos(1, 3));
}

#[test]
fn crlf_keeps_cr_inside_the_line() {
    let index = LineIndex::new(b"ab\r\ncd").unwrap();
    assert_eq!(index.position_from_byte_offset(2).unwrap(), pos(1, 3));
    assert_eq!(index.position_from_byte_offset(4).unwrap(), pos(2, 1));
    assert_eq!(index.byte_offset_from_position(pos(1, 3)).unwrap(), 2);
}

#[test]
fn bom_at_start_is_an_ordinary_scalar() {
    let text = "\u{FEFF}ab";
    let index = LineIndex::new(text.as_bytes()).unwrap();
    assert_eq!(index.position_from_byte_offset(0).unwrap(), pos(1, 1));
    assert_eq!(index.position_from_byte_offset(3).unwrap(), pos(1, 2));
}

#[test]
fn empty_file_has_one_empty_line() {
    let index = LineIndex::new(b"").unwrap();
    assert_eq!(index.position_from_byte_offset(0).unwrap(), pos(1, 1));
    assert_eq!(index.byte_offset_from_position(pos(1, 1)).unwrap(), 0);
}

#[test]
fn trailing_newline_adds_an_empty_final_line() {
    let with_newline = LineIndex::new(b"a\n").unwrap();
    assert_eq!(with_newline.position_from_byte_offset(2).unwrap(), pos(2, 1));
    let without_newline = LineIndex::new(b"a").unwrap();
    assert_eq!(without_newline.position_from_byte_offset(1).unwrap(), pos(1, 2));
}

#[test]
fn utf16_position_rejects_mid_surrogate_pair() {
    let index = LineIndex::new("𝄞x".as_bytes()).unwrap();
    assert_eq!(index.position_from_utf16(0, 0).unwrap(), pos(1, 1));
    assert_eq!(
        index.position_from_utf16(0, 1),
        Err(AnalyzerError::OffsetInsideCodePoint)
    );
    assert_eq!(index.position_from_utf16(0, 2).unwrap(), pos(1, 2));
}

#[test]
fn utf16_position_out_of_range_past_line_length() {
    let index = LineIndex::new(b"ab").unwrap();
    assert_eq!(
        index.position_from_utf16(0, 5),
        Err(AnalyzerError::OutOfRange)
    );
    assert_eq!(index.position_from_utf16(0, 2).unwrap(), pos(1, 3));
}

#[test]
fn utf8_position_is_a_byte_offset_within_the_line_and_round_trips() {
    let index = LineIndex::new("é\nx".as_bytes()).unwrap();
    assert_eq!(index.position_from_utf8(0, 0).unwrap(), pos(1, 1));
    assert_eq!(index.position_from_utf8(0, 2).unwrap(), pos(1, 2));
    assert_eq!(
        index.position_from_utf8(0, 1),
        Err(AnalyzerError::OffsetInsideCodePoint)
    );
    assert_eq!(index.utf8_from_position(pos(1, 2)).unwrap(), (0, 2));
    assert_eq!(index.utf8_from_position(pos(2, 1)).unwrap(), (1, 0));
}

#[test]
fn symbol_kind_closed_range_is_1_to_26() {
    assert_eq!(SymbolKind::try_from(1), Ok(SymbolKind::File));
    assert_eq!(SymbolKind::try_from(26), Ok(SymbolKind::TypeParameter));
    assert_eq!(
        SymbolKind::try_from(0),
        Err(AnalyzerError::UnknownSymbolKind)
    );
    assert_eq!(
        SymbolKind::try_from(27),
        Err(AnalyzerError::UnknownSymbolKind)
    );
}

#[test]
fn diagnostic_severity_closed_range_is_1_to_4() {
    assert_eq!(
        DiagnosticSeverity::try_from(1),
        Ok(DiagnosticSeverity::Error)
    );
    assert_eq!(
        DiagnosticSeverity::try_from(4),
        Ok(DiagnosticSeverity::Hint)
    );
    assert_eq!(
        DiagnosticSeverity::try_from(0),
        Err(AnalyzerError::UnknownSeverity)
    );
    assert_eq!(
        DiagnosticSeverity::try_from(5),
        Err(AnalyzerError::UnknownSeverity)
    );
}

#[test]
fn document_symbol_requires_selection_inside_range_and_bounded_depth() {
    let range = range(1, 1, 1, 10);
    let inside = TextRange::new(pos(1, 2), pos(1, 5)).unwrap();
    let outside = TextRange::new(pos(1, 2), pos(1, 20)).unwrap();
    let name = || text("f");
    assert!(
        DocumentSymbol::new(name(), SymbolKind::Function, None, false, range, inside, 0).is_ok()
    );
    assert_eq!(
        DocumentSymbol::new(name(), SymbolKind::Function, None, false, range, outside, 0),
        Err(AnalyzerError::InvalidRange)
    );
    assert_eq!(
        DocumentSymbol::new(name(), SymbolKind::Function, None, false, range, inside, 33),
        Err(AnalyzerError::LimitExceeded)
    );
    assert!(
        DocumentSymbol::new(name(), SymbolKind::Function, None, false, range, inside, 32).is_ok()
    );
}

#[test]
fn truncate_detail_marks_only_entries_it_actually_shortens() {
    let range = range(1, 1, 1, 10);
    let symbol = DocumentSymbol::new(
        text("f"),
        SymbolKind::Function,
        Some("é".repeat(10)),
        false,
        range,
        range,
        0,
    )
    .unwrap();
    let within_bound = symbol.clone().truncate_detail(10);
    assert!(!within_bound.detail_truncated());
    assert_eq!(
        within_bound.detail().map(str::chars).map(Iterator::count),
        Some(10)
    );
    let trimmed = symbol.truncate_detail(4);
    assert!(trimmed.detail_truncated());
    assert_eq!(trimmed.detail(), Some("éééé"));
    let no_detail = DocumentSymbol::new(
        text("g"),
        SymbolKind::Function,
        None,
        false,
        range,
        range,
        0,
    )
    .unwrap()
    .truncate_detail(4);
    assert!(!no_detail.detail_truncated());
}

#[test]
fn analyzer_diagnostic_enforces_code_message_and_related_bounds() {
    let range = range(1, 1, 1, 2);
    let file = AnalyzerFile::new("a.rs".into()).unwrap();
    let ok = AnalyzerDiagnostic::new(
        file.clone(),
        range,
        DiagnosticSeverity::Error,
        Some("E0308".into()),
        text("mismatched types"),
        Vec::new(),
    );
    assert!(ok.is_ok());
    let long_code = AnalyzerDiagnostic::new(
        file.clone(),
        range,
        DiagnosticSeverity::Error,
        Some("x".repeat(129)),
        text("m"),
        Vec::new(),
    );
    assert_eq!(long_code, Err(AnalyzerError::LimitExceeded));
    let long_message = AnalyzerDiagnostic::new(
        file.clone(),
        range,
        DiagnosticSeverity::Error,
        None,
        text(&"m".repeat(4097)),
        Vec::new(),
    );
    assert_eq!(long_message, Err(AnalyzerError::LimitExceeded));
    let related = RelatedInformation {
        file: file.clone(),
        range,
        message: text("prior"),
    };
    let too_many_related = AnalyzerDiagnostic::new(
        file,
        range,
        DiagnosticSeverity::Error,
        None,
        text("m"),
        std::iter::repeat_n(related, 33).collect(),
    );
    assert_eq!(too_many_related, Err(AnalyzerError::LimitExceeded));
}

#[test]
fn code_action_kind_lsp_strings_round_trip() {
    let cases = [
        ("quickfix", CodeActionKind::QuickFix),
        ("refactor", CodeActionKind::Refactor),
        ("refactor.extract", CodeActionKind::RefactorExtract),
        ("refactor.inline", CodeActionKind::RefactorInline),
        ("refactor.rewrite", CodeActionKind::RefactorRewrite),
        ("source", CodeActionKind::Source),
        (
            "source.organizeImports",
            CodeActionKind::SourceOrganizeImports,
        ),
    ];
    for (lsp, kind) in cases {
        assert_eq!(CodeActionKind::from_lsp(lsp), Some(kind));
        assert_eq!(kind.to_lsp(), lsp);
    }
    assert_eq!(CodeActionKind::from_lsp("bogus"), None);
}

#[test]
fn apply_edits_handles_several_edits_and_end_insertion() {
    let before = b"abcdef";
    let edits = [
        (range(1, 1, 1, 2), "X"),
        (range(1, 4, 1, 5), ""),
        (range(1, 7, 1, 7), "!"),
    ];
    let after = apply_edits(before, &edits).unwrap();
    assert_eq!(after, b"Xbcef!");
}

#[test]
fn apply_edits_allows_touching_but_rejects_overlap() {
    let before = b"abcdef";
    let touching = [(range(1, 1, 1, 3), "X"), (range(1, 3, 1, 5), "Y")];
    assert_eq!(apply_edits(before, &touching).unwrap(), b"XYef");
    let overlapping = [(range(1, 1, 1, 4), "X"), (range(1, 3, 1, 5), "Y")];
    assert_eq!(
        apply_edits(before, &overlapping),
        Err(AnalyzerError::OverlappingRanges)
    );
}

#[test]
fn apply_edits_result_does_not_depend_on_input_order() {
    let before = b"abcdef";
    let sorted = [
        (range(1, 1, 1, 2), "X"),
        (range(1, 4, 1, 5), ""),
        (range(1, 7, 1, 7), "!"),
    ];
    let shuffled = [
        (range(1, 7, 1, 7), "!"),
        (range(1, 1, 1, 2), "X"),
        (range(1, 4, 1, 5), ""),
    ];
    assert_eq!(
        apply_edits(before, &shuffled).unwrap(),
        apply_edits(before, &sorted).unwrap()
    );
    assert_eq!(apply_edits(before, &shuffled).unwrap(), b"Xbcef!");
}

#[test]
fn apply_edits_rejects_edits_sharing_a_start() {
    let before = b"abcdef";
    let insertion_then_replacement = [(range(1, 2, 1, 2), "X"), (range(1, 2, 1, 4), "Y")];
    assert_eq!(
        apply_edits(before, &insertion_then_replacement),
        Err(AnalyzerError::OverlappingRanges)
    );
    let reversed = [(range(1, 2, 1, 4), "Y"), (range(1, 2, 1, 2), "X")];
    assert_eq!(
        apply_edits(before, &reversed),
        Err(AnalyzerError::OverlappingRanges),
        "the rejection must not depend on input order"
    );
    let two_insertions = [(range(1, 3, 1, 3), "X"), (range(1, 3, 1, 3), "Y")];
    assert_eq!(
        apply_edits(before, &two_insertions),
        Err(AnalyzerError::OverlappingRanges)
    );
}

#[test]
fn apply_edits_rejects_non_utf8_source() {
    let before = [0xff, 0xfe];
    assert_eq!(apply_edits(&before, &[]), Err(AnalyzerError::NotUtf8));
}

#[test]
fn completeness_rejects_limit_visible_omission_while_complete() {
    assert!(Completeness::complete()
        .with_omissions(vec![Omission {
            kind: OmissionKind::ExternalUri,
            count: 1,
        }])
        .is_ok());
    assert_eq!(
        Completeness::complete().with_omissions(vec![Omission {
            kind: OmissionKind::LimitVisible,
            count: 1,
        }]),
        Err(AnalyzerError::Invalid)
    );
    assert!(Completeness::incomplete(vec![IncompleteReason::LimitVisible])
        .with_omissions(vec![Omission {
            kind: OmissionKind::LimitVisible,
            count: 1,
        }])
        .is_ok());
}

#[test]
fn symbol_query_bounds_characters_and_refuses_control_characters() {
    assert!(SymbolQuery::new("add".into()).is_ok());
    assert_eq!(
        SymbolQuery::new(String::new()),
        Err(AnalyzerError::LimitExceeded)
    );
    assert!(SymbolQuery::new("\u{1f600}".repeat(MAX_SYMBOL_QUERY_CHARS)).is_ok());
    assert_eq!(
        SymbolQuery::new("\u{1f600}".repeat(MAX_SYMBOL_QUERY_CHARS + 1)),
        Err(AnalyzerError::LimitExceeded)
    );
    assert_eq!(
        SymbolQuery::new("a\nb".into()),
        Err(AnalyzerError::Invalid),
        "a newline would travel verbatim inside a framed JSON string"
    );
    assert_eq!(
        SymbolQuery::new("a\u{7f}b".into()),
        Err(AnalyzerError::Invalid)
    );
}

#[test]
fn a_result_only_answers_its_own_query() {
    let file = AnalyzerFile::new("src/lib.rs".into()).unwrap();
    let symbols = AnalyzerQuery::DocumentSymbols { file: file.clone() };
    let references = AnalyzerQuery::References {
        file,
        position: pos(1, 1),
        include_declaration: true,
    };
    let answer = AnalyzerResult::DocumentSymbols(Vec::new());
    assert!(answer.answers(&symbols));
    assert!(!answer.answers(&references));
}

#[test]
fn every_query_but_workspace_symbols_names_a_captured_file() {
    let file = AnalyzerFile::new("src/lib.rs".into()).unwrap();
    assert_eq!(
        AnalyzerQuery::Diagnostics { file: file.clone() }.file(),
        Some(&file)
    );
    assert_eq!(
        AnalyzerQuery::CodeActions {
            file: file.clone(),
            range: TextRange::new(pos(1, 1), pos(1, 2)).unwrap(),
            only: vec![CodeActionKind::QuickFix],
        }
        .file(),
        Some(&file)
    );
    assert_eq!(
        AnalyzerQuery::WorkspaceSymbols {
            query: SymbolQuery::new("add".into()).unwrap(),
        }
        .file(),
        None
    );
}

#[test]
fn server_health_has_no_default_for_an_unknown_spelling() {
    assert_eq!(ServerHealth::from_wire("ok"), Some(ServerHealth::Healthy));
    assert_eq!(
        ServerHealth::from_wire("warning"),
        Some(ServerHealth::Warning)
    );
    assert_eq!(ServerHealth::from_wire("error"), Some(ServerHealth::Error));
    assert_eq!(ServerHealth::from_wire("healthy"), None);
}

#[test]
fn an_outcome_is_an_answer_or_a_failure_and_never_both() {
    let fingerprint = |c: &str| -> SourceFingerprint {
        format!("sha256:{}", c.repeat(64)).parse().unwrap()
    };
    let execution = AnalyzerExecution {
        identity: AnalyzerRuntime {
            version: NonEmptyText::try_from("rust-analyzer 1.98.1".to_owned()).unwrap(),
            binary_sha256: fingerprint("a"),
            image_id: NonEmptyText::try_from("sha256:m6".to_owned()).unwrap(),
            config_digest: fingerprint("b"),
        },
        position_encoding: Some(PositionEncoding::Utf8),
        readiness: AnalyzerReadiness::NotReady { elapsed_ms: 1_200 },
        outcome: AnalyzerOutcome::Failed(AnalyzerFailure::NotReady),
        completeness: Completeness::incomplete(vec![IncompleteReason::AnalyzerNotReady]),
        session: SessionSummary {
            stop: SessionStop::Killed,
            exit_code: None,
            messages_in: 3,
            messages_out: 2,
            bytes_in: 64,
            bytes_out: 32,
            stderr_bytes: 0,
            stderr_sha256: fingerprint("c"),
            stderr_truncated: false,
            server_requests_refused: 0,
            notifications_dropped: 1,
            late_responses: 0,
            status_transcript: vec![ServerStatusObservation {
                quiescent: false,
                health: Some(ServerHealth::Warning),
                elapsed_ms: 900,
            }],
            status_notifications: 1,
            fault: Some(AnalyzerFailure::ProtocolLimit),
            declared_frame_bytes: None,
            kill_error: None,
            reap_error: None,
            duration_ms: 10,
        },
        termination: ExecutionTermination::Exited,
        oom_killed: Some(false),
        call_duration_ms: 24,
    };
    assert!(execution.result().is_none());
    assert_eq!(execution.failure(), Some(AnalyzerFailure::NotReady));
    let identity = execution.identity.negotiated(PositionEncoding::Utf8);
    assert_eq!(identity.position_encoding, PositionEncoding::Utf8);
    assert_eq!(identity.version, execution.identity.version);
}

// Further scenarios.

#[test]
fn utf8_round_trip_law_holds_on_multibyte_text() {
    let index = LineIndex::new("aé𝄞\nbc".as_bytes()).unwrap();
    for (line, column) in [(1, 1), (1, 2), (1, 3), (1, 4), (2, 1), (2, 3)] {
        let (l0, c8) = index.utf8_from_position(pos(line, column)).unwrap();
        assert_eq!(index.position_from_utf8(l0, c8).unwrap(), pos(line, column));
        let offset = index.byte_offset_from_position(pos(line, column)).unwrap();
        assert_eq!(index.position_from_byte_offset(offset).unwrap(), pos(line, column));
    }
}

#[test]
fn apply_edits_out_of_range_edit_is_rejected() {
    let before = b"abc";
    let edits = [(range(1, 1, 1, 9), "X")];
    assert_eq!(apply_edits(before, &edits), Err(AnalyzerError::OutOfRange));
    let edits = [(range(3, 1, 3, 1), "X")];
    assert_eq!(apply_edits(before, &edits), Err(AnalyzerError::OutOfRange));
}

#[test]
fn apply_edits_on_multibyte_text_replaces_whole_scalars() {
    let before = "é\nxy".as_bytes();
    let edits = [(range(1, 1, 1, 2), "e"), (range(2, 2, 2, 3), "Z")];
    assert_eq!(apply_edits(before, &edits).unwrap(), b"e\nxZ");
}

#[test]
fn symbol_kind_codes_and_health_wire_cover_every_value() {
    for code in 1..=26u32 {
        assert!(SymbolKind::try_from(code).is_ok());
    }
    assert_eq!(SymbolKind::try_from(12), Ok(SymbolKind::Function));
    assert_eq!(DiagnosticSeverity::try_from(2), Ok(DiagnosticSeverity::Warning));
}

#[test]
fn every_boundary_offset_round_trips_through_its_position() {
    let text = "ab\r\nc\u{e9}\n\nx\u{1F600}y\n";
    let index = LineIndex::new(text.as_bytes()).unwrap();
    for offset in 0..=text.len() {
        match index.position_from_byte_offset(offset) {
            Ok(position) => {
                assert!(text.is_char_boundary(offset));
                let before = &text[..offset];
                let newlines = before.matches('\n').count() as u32;
                let since = before.rsplit('\n').next().unwrap().chars().count() as u32;
                assert_eq!(position, pos(1 + newlines, 1 + since), "{offset}");
                assert_eq!(index.byte_offset_from_position(position).unwrap(), offset);
            }
            Err(error) => {
                assert!(!text.is_char_boundary(offset));
                assert_eq!(error, AnalyzerError::OffsetInsideCodePoint);
            }
        }
    }
}
