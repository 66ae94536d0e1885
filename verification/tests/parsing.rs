//! The descriptor grammar: accepted shapes and every rejection cause.

use fhs_engine::flags::ComplianceFlags;
use fhs_engine::lex::ParseCause;
use fhs_engine::model::DeclKind;
use fhs_engine::parse::parse;

fn parse_text(text: &str, tolerant: bool) -> Result<fhs_engine::model::Model, fhs_engine::lex::ParseError> {
    parse(&text.as_bytes().to_vec(), tolerant)
}

fn cause_of(text: &str) -> (usize, ParseCause) {
    let e = parse_text(text, false).unwrap_err();
    (e.offset, e.cause)
}

#[test]
fn nested_blocks_flatten_in_depth_first_order() {
    let text = "group outer {\n\
                  label = \"top\";\n\
                  resource inner { path = \"/usr/bin/x\"; }\n\
                  group sibling { }\n\
                }\n\
                resource last { path = \"/etc/x\"; }";
    let m = parse_text(text, false).unwrap();
    let names: Vec<&[u8]> = m.decls.iter().map(|d| d.name.as_slice()).collect();
    assert_eq!(
        names,
        vec![&b"outer"[..], &b"inner"[..], &b"sibling"[..], &b"last"[..]]
    );
    let depths: Vec<usize> = m.decls.iter().map(|d| d.depth).collect();
    assert_eq!(depths, vec![0, 1, 1, 0]);
    assert_eq!(m.decls[0].kind, DeclKind::Group);
    assert_eq!(m.decls[1].kind, DeclKind::Resource);
    assert_eq!(m.decls[3].kind, DeclKind::Resource);
    // Attributes attach to the declaration whose block they stand in.
    assert_eq!(m.decls[0].attrs.len(), 1);
    assert_eq!(m.decls[0].attrs[0].key.as_slice(), b"label");
    assert_eq!(m.decls[0].attrs[0].value.as_slice(), b"top");
    assert_eq!(m.decls[1].attrs[0].key.as_slice(), b"path");
    // Offsets point at each declaration's kind keyword.
    assert_eq!(m.decls[0].offset, 0);
    assert_eq!(m.decls[1].offset, text.find("resource inner").unwrap());
}

#[test]
fn duplicate_attribute_keys_rejected() {
    let text = "resource a { path = \"/x\"; path = \"/y\"; }";
    let (off, cause) = cause_of(text);
    assert_eq!(cause, ParseCause::DuplicateAttribute);
    assert_eq!(off, text.rfind("path").unwrap());
}

#[test]
fn unknown_kind_rejected_unless_tolerant() {
    let text = "widget w { }";
    let (off, cause) = cause_of(text);
    assert_eq!(cause, ParseCause::UnknownKind);
    assert_eq!(off, 0);
    let m = parse_text(text, true).unwrap();
    assert_eq!(m.decls.len(), 1);
    assert_eq!(m.decls[0].kind, DeclKind::Other);
}

#[test]
fn tolerated_unknown_kinds_are_inert_under_evaluation() {
    let text = "widget w { }\nresource a { path = \"/usr/bin/a\"; }";
    let input = fhs_engine::io::InputSource::from_bytes(text.as_bytes().to_vec());
    let mut sink = fhs_engine::io::OutputSink::discarding();
    let resp = fhs_engine::run(
        input,
        &mut sink,
        None,
        None,
        &ComplianceFlags::fhs_only().with_unknown_kind_tolerant(),
    )
    .unwrap()
    .unwrap();
    assert!(resp.success);
    assert_eq!(resp.artifacts.len(), 1);
}

#[test]
fn unterminated_string_rejected_at_its_opening_quote() {
    let text = "resource a { path = \"/x";
    let (off, cause) = cause_of(text);
    assert_eq!(cause, ParseCause::UnterminatedString);
    assert_eq!(off, text.find('"').unwrap());
}

#[test]
fn string_may_not_span_lines() {
    let text = "resource a { path = \"/x\n\"; }";
    let (_, cause) = cause_of(text);
    assert_eq!(cause, ParseCause::UnterminatedString);
}

#[test]
fn byte_outside_the_alphabet_rejected() {
    let text = "resource a @ { }";
    let (off, cause) = cause_of(text);
    assert_eq!(cause, ParseCause::InvalidByte);
    assert_eq!(off, text.find('@').unwrap());
}

#[test]
fn unexpected_close_rejected() {
    let (off, cause) = cause_of("}");
    assert_eq!(cause, ParseCause::UnexpectedClose);
    assert_eq!(off, 0);
}

#[test]
fn attribute_outside_any_block_rejected() {
    let (off, cause) = cause_of("path = \"/x\";");
    assert_eq!(cause, ParseCause::AttributeOutsideBlock);
    assert_eq!(off, 0);
}

#[test]
fn attribute_after_child_block_rejected() {
    let text = "group g { resource a { path = \"/usr/bin/a\"; } extra = \"v\"; }";
    let (off, cause) = cause_of(text);
    assert_eq!(cause, ParseCause::AttributeAfterChild);
    assert_eq!(off, text.find("extra").unwrap());
}

#[test]
fn declaration_without_name_rejected() {
    let text = "resource { }";
    let (off, cause) = cause_of(text);
    assert_eq!(cause, ParseCause::ExpectedName);
    assert_eq!(off, text.find('{').unwrap());
}

#[test]
fn declaration_without_block_rejected() {
    let text = "resource a resource b { }";
    let (off, cause) = cause_of(text);
    assert_eq!(cause, ParseCause::ExpectedBlockOpen);
    assert_eq!(off, text.find("resource b").unwrap());
}

#[test]
fn attribute_without_value_rejected() {
    let text = "resource a { path = ; }";
    let (off, cause) = cause_of(text);
    assert_eq!(cause, ParseCause::ExpectedValue);
    assert_eq!(off, text.find(';').unwrap());
}

#[test]
fn attribute_without_semicolon_rejected() {
    let text = "resource a { path = \"/x\" }";
    let (off, cause) = cause_of(text);
    assert_eq!(cause, ParseCause::ExpectedSemicolon);
    assert_eq!(off, text.rfind('}').unwrap());
}

#[test]
fn stray_token_where_declaration_expected_rejected() {
    let text = "; resource a { }";
    let (off, cause) = cause_of(text);
    assert_eq!(cause, ParseCause::ExpectedDeclaration);
    assert_eq!(off, 0);
}

#[test]
fn nested_unterminated_block_reports_innermost_open_brace() {
    let text = "group g { resource a {";
    let (off, cause) = cause_of(text);
    assert_eq!(cause, ParseCause::UnterminatedBlock);
    assert_eq!(off, text.rfind('{').unwrap());
}

#[test]
fn empty_value_and_underscored_names_accepted() {
    let text = "resource a_b { note = \"\"; path = \"/usr/bin/a\"; }";
    let m = parse_text(text, false).unwrap();
    assert_eq!(m.decls[0].name.as_slice(), b"a_b");
    assert_eq!(m.decls[0].attrs[0].value.as_slice(), b"");
}
