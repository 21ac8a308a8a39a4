use std::io::Read;

use tectonic::events::IoEvent;
use tectonic::format::FileFormat;
use tectonic::handle::{InputOrigin, IoErrorKind, SeekFrom};
use tectonic::provider::Provider;
use tectonic::session::ExecutionState;
use tectonic::stack::IoStack;
use tectonic::status::{Problem, Severity};

const MD5_HELLO: [u8; 16] = [
    0x5d, 0x41, 0x40, 0x2a, 0xbc, 0x4b, 0x2a, 0x76, 0xb9, 0x71, 0x9d, 0x91, 0x10, 0x17, 0xc5, 0x92,
];

fn session_with(files: &[(&str, &str)]) -> ExecutionState {
    let mut p = Provider::memory();
    for (name, data) in files {
        p.store(name.as_bytes().to_vec(), data.as_bytes().to_vec());
    }
    ExecutionState::new(IoStack::new(vec![p]))
}

fn last_report(es: &ExecutionState) -> (Severity, Problem) {
    let r = es.reports().last().expect("a report");
    (r.severity, r.problem)
}

#[test]
fn scratch_round_trip() {
    let mut es = session_with(&[]);
    let out = es.output_open(b"job.aux", false).expect("an output");
    assert!(!es.output_write(out, b"\\relax "));
    assert!(!es.output_write(out, b"\\bibdata{refs}"));
    assert!(!es.output_close(out));
    let inp = es.input_open(b"job.aux", FileFormat::Tex, false).expect("the input");
    let len = es.input_get_size(inp);
    assert_eq!(es.input_read(inp, len), Ok(b"\\relax \\bibdata{refs}".to_vec()));
}

#[test]
fn input_close_twice_is_a_protocol_violation() {
    let mut es = session_with(&[("a.tex", "hello")]);
    let h = es.input_open(b"a", FileFormat::Tex, false).expect("the input");
    assert!(!es.input_close(h));
    let closed = es
        .events()
        .iter()
        .filter(|e| matches!(e, IoEvent::InputClosed(..)))
        .count();
    assert_eq!(closed, 1);
    assert!(es.reports().is_empty());
    assert!(es.input_close(h));
    assert_eq!(last_report(&es), (Severity::Fatal, Problem::UnknownHandle));
    let closed_after = es
        .events()
        .iter()
        .filter(|e| matches!(e, IoEvent::InputClosed(..)))
        .count();
    assert_eq!(closed_after, 1);
    assert_eq!(es.input_getc(h), Err(IoErrorKind::InvalidInput));
}

#[test]
fn output_close_twice_is_a_protocol_violation() {
    let mut es = session_with(&[]);
    let h = es.output_open(b"x.log", false).expect("an output");
    assert!(!es.output_close(h));
    assert!(es.output_close(h));
    assert_eq!(last_report(&es), (Severity::Fatal, Problem::UnknownHandle));
    assert!(es.output_write(h, b"late"));
}

#[test]
fn output_fingerprint_matches_reference_digest() {
    let mut es = session_with(&[]);
    let h = es.output_open(b"x.log", false).expect("an output");
    es.output_write(h, b"he");
    es.output_write(h, b"llo");
    es.output_close(h);
    match es.events().last() {
        Some(IoEvent::OutputClosed(name, digest)) => {
            assert_eq!(name, &b"x.log".to_vec());
            assert_eq!(digest, &MD5_HELLO);
        }
        _ => panic!("expected an output-closed event"),
    }
}

#[test]
fn input_fingerprint_covers_bytes_read() {
    let mut es = session_with(&[("a.tex", "hello")]);
    let h = es.input_open(b"a.tex", FileFormat::Tex, false).unwrap();
    assert_eq!(es.input_read(h, 5), Ok(b"hello".to_vec()));
    assert_eq!(es.input_getc(h), Err(IoErrorKind::UnexpectedEof));
    es.input_close(h);
    match es.events().last() {
        Some(IoEvent::InputClosed(_, Some(d))) => assert_eq!(d, &MD5_HELLO),
        _ => panic!("expected a digest"),
    }
}

#[test]
fn backward_seek_loses_fingerprint() {
    let mut es = session_with(&[("a.tex", "hello")]);
    let h = es.input_open(b"a.tex", FileFormat::Tex, false).unwrap();
    assert_eq!(es.input_read(h, 3), Ok(b"hel".to_vec()));
    assert_eq!(es.input_seek(h, SeekFrom::Current(-2)), Ok(1));
    assert_eq!(es.input_getc(h), Ok(b'e'));
    assert_eq!(es.input_read(h, 4), Err(IoErrorKind::UnexpectedEof));
    assert_eq!(es.input_read(h, 3), Ok(b"llo".to_vec()));
    es.input_close(h);
    assert!(matches!(es.events().last(), Some(IoEvent::InputClosed(_, None))));
}

#[test]
fn seek_to_the_current_position_keeps_fingerprint() {
    let mut es = session_with(&[("a.tex", "hello")]);
    let h = es.input_open(b"a.tex", FileFormat::Tex, false).unwrap();
    assert_eq!(es.input_seek(h, SeekFrom::Start(0)), Ok(0));
    assert_eq!(es.input_read(h, 5), Ok(b"hello".to_vec()));
    assert_eq!(es.input_seek(h, SeekFrom::End(0)), Ok(5));
    assert_eq!(es.input_seek(h, SeekFrom::Current(-6)), Err(IoErrorKind::InvalidInput));
    es.input_close(h);
    assert!(matches!(es.events().last(), Some(IoEvent::InputClosed(_, Some(d))) if d == &MD5_HELLO));
}

#[test]
fn primary_input_missing_is_fatal() {
    let mut es = session_with(&[("a.tex", "x")]);
    assert_eq!(es.input_open_primary(), None);
    assert_eq!(last_report(&es), (Severity::Fatal, Problem::PrimaryInputMissing));
}

#[test]
fn primary_input_is_opened_from_pinned_file() {
    let stack = IoStack::new(vec![
        Provider::memory(),
        Provider::pinned(b"main.tex".to_vec(), Ok(b"x".to_vec())),
    ]);
    let mut es = ExecutionState::new(stack);
    let h = es.input_open_primary().expect("the primary input");
    assert_eq!(es.input_getc(h), Ok(b'x'));
    assert!(matches!(es.events().last(), Some(IoEvent::PrimaryInputOpened(InputOrigin::Pinned))));
}

#[test]
fn ordinary_input_missing_is_announced_once() {
    let mut es = session_with(&[("font.afm", "x")]);
    assert_eq!(es.input_open(b"font", FileFormat::Type1, false), None);
    assert_eq!(es.events().len(), 1);
    match &es.events()[0] {
        IoEvent::InputNotAvailable(name) => assert_eq!(name, &b"font".to_vec()),
        _ => panic!("expected a not-available event"),
    }
    assert!(es.reports().is_empty());
}

#[test]
fn failed_input_is_a_warning() {
    let stack = IoStack::new(vec![Provider::pinned(b"a.tex".to_vec(), Err(IoErrorKind::PermissionDenied))]);
    let mut es = ExecutionState::new(stack);
    assert_eq!(es.input_open(b"a.tex", FileFormat::Tex, false), None);
    assert_eq!(
        last_report(&es),
        (Severity::Warning, Problem::OpenInputFailed(IoErrorKind::PermissionDenied))
    );
    assert!(es.events().is_empty());
}

#[test]
fn stdout_opens_once() {
    let mut es = ExecutionState::new(IoStack::new(vec![Provider::stdout()]));
    let h = es.output_open_stdout().expect("stdout");
    assert!(matches!(es.events().last(), Some(IoEvent::StdoutOpened)));
    assert_eq!(es.output_open_stdout(), None);
    assert_eq!(
        last_report(&es),
        (Severity::Warning, Problem::OpenStdoutFailed(IoErrorKind::AlreadyOpened))
    );
    es.output_write(h, b"console");
    es.output_close(h);
    let (stack, _, _) = es.into_parts();
    assert_eq!(stack.provider(0).written(), Some(&b"console"[..]));
}

#[test]
fn no_output_provider_gives_no_handle() {
    let mut es = ExecutionState::new(IoStack::new(vec![Provider::stdout()]));
    assert_eq!(es.output_open(b"x.log", false), None);
    assert!(es.events().is_empty());
}

#[test]
fn compressed_output_is_stored_framed() {
    let mut es = session_with(&[]);
    let h = es.output_open(b"x.gz", true).unwrap();
    es.output_write(h, b"hello");
    assert!(!es.output_close(h));
    match es.events().last() {
        Some(IoEvent::OutputClosed(_, d)) => assert_eq!(d, &MD5_HELLO),
        _ => panic!("expected an output-closed event"),
    }
    let (stack, _, _) = es.into_parts();
    let stored = stack.provider(0).stored_content(b"x.gz").unwrap();
    assert_ne!(stored, b"hello".to_vec());
    let mut out = Vec::new();
    flate2::read::GzDecoder::new(&stored[..]).read_to_end(&mut out).unwrap();
    assert_eq!(out, b"hello".to_vec());
}

#[test]
fn file_digest_of_present_and_missing_files() {
    let mut es = session_with(&[("a.tex", "hello")]);
    assert_eq!(es.get_file_md5(b"a"), Some(MD5_HELLO));
    assert_eq!(es.events().len(), 2);
    assert_eq!(es.get_file_md5(b"missing"), None);
    assert!(es.reports().is_empty());
    assert_eq!(es.events().len(), 2);
}

#[test]
fn pushback_holds_one_byte() {
    let mut es = session_with(&[("a.tex", "ab")]);
    let h = es.input_open(b"a.tex", FileFormat::Tex, false).unwrap();
    assert_eq!(es.input_getc(h), Ok(b'a'));
    assert_eq!(es.input_ungetc(h, b'z'), Ok(()));
    assert_eq!(es.input_ungetc(h, b'y'), Err(IoErrorKind::InvalidInput));
    assert_eq!(es.input_read(h, 2), Ok(b"zb".to_vec()));
    assert_eq!(es.input_read(h, 1), Err(IoErrorKind::UnexpectedEof));
    assert_eq!(es.input_read(h, 0), Ok(Vec::new()));
}

#[test]
fn engine_messages_are_reported() {
    let mut es = session_with(&[]);
    es.issue_warning(b"careful");
    assert_eq!(last_report(&es), (Severity::Warning, Problem::EngineMessage));
    es.issue_error(b"broken");
    assert_eq!(last_report(&es), (Severity::Error, Problem::EngineMessage));
    assert_eq!(es.reports()[1].subject, b"broken".to_vec());
}

#[test]
fn finish_closes_what_is_left_open() {
    let mut es = session_with(&[("a.tex", "hello")]);
    let i = es.input_open(b"a.tex", FileFormat::Tex, false).unwrap();
    let o = es.output_open(b"left.log", false).unwrap();
    es.output_write(o, b"data");
    es.finish();
    assert!(es.input_close(i));
    assert!(es.output_close(o));
    let closed = es
        .events()
        .iter()
        .filter(|e| matches!(e, IoEvent::InputClosed(..) | IoEvent::OutputClosed(..)))
        .count();
    assert_eq!(closed, 2);
    let (stack, _, _) = es.into_parts();
    assert_eq!(stack.provider(0).stored_content(b"left.log"), Some(b"data".to_vec()));
}
