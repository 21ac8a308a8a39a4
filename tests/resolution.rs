use std::io::Write;

use tectonic::format::{
    c_format_to_rust, format_to_extension, name_has_extension, name_stays_inside, FileFormat,
};
use tectonic::handle::{InputOrigin, IoErrorKind};
use tectonic::provider::{OpenResult, Provider};
use tectonic::stack::IoStack;

fn memory_with(files: &[(&str, &str)]) -> Provider {
    let mut p = Provider::memory();
    for (name, data) in files {
        p.store(name.as_bytes().to_vec(), data.as_bytes().to_vec());
    }
    p
}

fn opened(r: OpenResult<tectonic::handle::InputHandle>) -> (Vec<u8>, Vec<u8>, InputOrigin) {
    match r {
        OpenResult::Opened(h) => {
            let origin = h.origin();
            let (name, data) = h.into_name_data();
            (name, data, origin)
        }
        OpenResult::NotAvailable => panic!("not available"),
        OpenResult::Failed(e) => panic!("failed: {:?}", e),
    }
}

#[test]
fn first_provider_that_has_the_name_wins() {
    let stack = IoStack::new(vec![
        Provider::stdout(),
        memory_with(&[("a.tex", "one")]),
        memory_with(&[("a.tex", "two")]),
    ]);
    let (name, data, origin) = opened(stack.input_open_name_format(b"a.tex", FileFormat::Tex));
    assert_eq!(name, b"a.tex".to_vec());
    assert_eq!(data, b"one".to_vec());
    assert_eq!(origin, InputOrigin::Memory);
}

#[test]
fn failure_stops_the_search() {
    let stack = IoStack::new(vec![
        Provider::pinned(b"x.tex".to_vec(), Err(IoErrorKind::PermissionDenied)),
        memory_with(&[("x.tex", "later")]),
    ]);
    match stack.input_open_name_format(b"x.tex", FileFormat::Tex) {
        OpenResult::Failed(e) => assert_eq!(e, IoErrorKind::PermissionDenied),
        _ => panic!("expected a failure"),
    }
}

#[test]
fn pinned_input_answers_its_name_and_the_primary_input() {
    let stack = IoStack::new(vec![Provider::pinned(b"main.tex".to_vec(), Ok(b"\\relax".to_vec()))]);
    let (_, data, origin) = opened(stack.input_open_name(b"main.tex"));
    assert_eq!(data, b"\\relax".to_vec());
    assert_eq!(origin, InputOrigin::Pinned);
    assert!(matches!(stack.input_open_name(b"other.tex"), OpenResult::NotAvailable));
    let (name, _, _) = opened(stack.input_open_primary());
    assert_eq!(name, b"main.tex".to_vec());
}

#[test]
fn explicit_extension_is_never_replaced() {
    let stack = IoStack::new(vec![memory_with(&[("foo.tex", "x")])]);
    assert!(matches!(
        stack.input_open_name_format(b"foo.bib", FileFormat::Tex),
        OpenResult::NotAvailable
    ));
}

#[test]
fn candidates_are_tried_in_declared_order() {
    let stack = IoStack::new(vec![memory_with(&[("foo.cls", "cls"), ("foo.sty", "sty")])]);
    let (name, data, _) = opened(stack.input_open_name_format(b"foo", FileFormat::Tex));
    assert_eq!(name, b"foo.sty".to_vec());
    assert_eq!(data, b"sty".to_vec());
}

#[test]
fn bare_name_is_tried_first() {
    let stack = IoStack::new(vec![memory_with(&[("foo.tex", "ext"), ("foo", "bare")])]);
    let (name, data, _) = opened(stack.input_open_name_format(b"foo", FileFormat::Tex));
    assert_eq!(name, b"foo".to_vec());
    assert_eq!(data, b"bare".to_vec());
}

#[test]
fn failure_at_a_candidate_aborts() {
    let stack = IoStack::new(vec![
        Provider::pinned(b"foo.tex".to_vec(), Err(IoErrorKind::Other)),
        memory_with(&[("foo.sty", "sty")]),
    ]);
    assert!(matches!(
        stack.input_open_name_format(b"foo", FileFormat::Tex),
        OpenResult::Failed(IoErrorKind::Other)
    ));
}

#[test]
fn name_ending_in_separator_gets_no_extension() {
    let stack = IoStack::new(vec![memory_with(&[("dir/.tex", "x")])]);
    assert!(matches!(
        stack.input_open_name_format(b"dir/", FileFormat::Tex),
        OpenResult::NotAvailable
    ));
}

#[test]
fn gzip_input_is_decoded() {
    let mut enc = flate2::write::GzEncoder::new(Vec::new(), flate2::Compression::default());
    enc.write_all(b"compressed text").unwrap();
    let gz = enc.finish().unwrap();
    let mut p = Provider::memory();
    p.store(b"data.fmt".to_vec(), gz);
    let stack = IoStack::new(vec![p]);
    match stack.input_open_name_format_gz(b"data", FileFormat::Format, true) {
        OpenResult::Opened(h) => {
            let (name, data) = h.into_name_data();
            assert_eq!(name, b"data.fmt".to_vec());
            assert_eq!(data, b"compressed text".to_vec());
        }
        _ => panic!("expected the decoded input"),
    }
}

#[test]
fn invalid_gzip_input_fails() {
    let stack = IoStack::new(vec![memory_with(&[("data.fmt", "not gzip")])]);
    assert!(matches!(
        stack.input_open_name_format_gz(b"data.fmt", FileFormat::Format, true),
        OpenResult::Failed(IoErrorKind::InvalidData)
    ));
}

#[test]
fn extension_lists() {
    let tex: Vec<Vec<u8>> = ["tex", "sty", "cls", "fd", "aux", "bbl", "def", "clo", "ldf"]
        .iter()
        .map(|s| s.as_bytes().to_vec())
        .collect();
    assert_eq!(format_to_extension(FileFormat::Tex), tex);
    assert_eq!(
        format_to_extension(FileFormat::Pict),
        vec![b"pdf".to_vec(), b"jpg".to_vec(), b"eps".to_vec(), b"epsi".to_vec()]
    );
    assert_eq!(format_to_extension(FileFormat::TFM), vec![b"tfm".to_vec()]);
}

#[test]
fn format_codes() {
    assert_eq!(c_format_to_rust(26), Some(FileFormat::Tex));
    assert_eq!(c_format_to_rust(3), Some(FileFormat::TFM));
    assert_eq!(c_format_to_rust(39), Some(FileFormat::ProgramData));
    assert_eq!(c_format_to_rust(40), Some(FileFormat::ProgramData));
    assert_eq!(c_format_to_rust(47), Some(FileFormat::OpenType));
    assert_eq!(c_format_to_rust(2), None);
    assert_eq!(c_format_to_rust(-1), None);
}

#[test]
fn extensions_of_names() {
    assert!(name_has_extension(b"a/b.c"));
    assert!(name_has_extension(b"a.b."));
    assert!(!name_has_extension(b"a.b/c"));
    assert!(!name_has_extension(b".bashrc"));
    assert!(!name_has_extension(b"x/.y"));
    assert!(!name_has_extension(b""));
}

#[test]
fn names_that_leave_the_root() {
    assert!(name_stays_inside(b"a/b.tex"));
    assert!(name_stays_inside(b"a/..b/c"));
    assert!(name_stays_inside(b"..."));
    assert!(name_stays_inside(b""));
    assert!(!name_stays_inside(b"/etc/passwd"));
    assert!(!name_stays_inside(b".."));
    assert!(!name_stays_inside(b"a/../../b"));
    assert!(!name_stays_inside(b"a/.."));
}
