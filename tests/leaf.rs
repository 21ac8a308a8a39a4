use tectonic::bibtex::{history_to_result, BibtexEngine, EngineFailure, TexResult};
use tectonic::dpxutil::{parse_c_ident, parse_c_string, parse_float_decimal, skip_white_spaces, xtoi};
use tectonic::error::Unspecified;
use tectonic::events::{dispatch, IoEvent, IoEventBackend, NoopIoEventBackend};
use tectonic::guard::EngineGuard;
use tectonic::handle::InputOrigin;
use tectonic::image::{source_image_type, ImageType};
use tectonic::tfm::{char_info, CharIndices, SizeInfos};

#[test]
fn hex_digits() {
    assert_eq!(xtoi(b'0' as i8), 0);
    assert_eq!(xtoi(b'9' as i8), 9);
    assert_eq!(xtoi(b'A' as i8), 10);
    assert_eq!(xtoi(b'f' as i8), 15);
    assert_eq!(xtoi(b'g' as i8), -1);
    assert_eq!(xtoi(-1), -1);
}

fn header(words: [u16; 12]) -> Vec<u8> {
    words.iter().flat_map(|w| w.to_be_bytes()).collect()
}

#[test]
fn size_header() {
    let bytes = header([100, 18, 0, 127, 20, 10, 8, 2, 30, 5, 0, 7]);
    let s = SizeInfos::parse(&bytes).unwrap();
    assert_eq!(s.file_word_count, 100);
    assert_eq!(s.last_char, 127);
    assert_eq!(s.char_count(), 128);
    assert_eq!(s.expected_file_size(), (6 + 18 + 128 + 20 + 10 + 8 + 2 + 30 + 5 + 0 + 7) * 4);
    assert_eq!(SizeInfos::parse(&bytes[..23]).unwrap_err(), Unspecified);
    let largest = SizeInfos::parse(&header([0, 16360, 0, 0, 0, 0, 0, 0, 0, 0, 0, 16])).unwrap();
    assert_eq!(largest.char_count(), 1);
    assert_eq!(largest.expected_file_size(), 65532);
}

#[test]
fn character_records() {
    assert_eq!(
        char_info(&[5, 0x3a, 0, 0]),
        Ok(CharIndices { width: 5, height: 3, depth: 10 })
    );
    assert_eq!(char_info(&[5, 0x3a, 0]), Err(Unspecified));
    assert_eq!(Unspecified.description(), "corrode::error::Unspecified");
}

#[test]
fn image_types() {
    assert_eq!(source_image_type(&[0xff, 0xd8, 0xff, 0xe0]), Some(ImageType::Jpeg));
    assert_eq!(
        source_image_type(&[0, 0, 0, 0x0c, 0x6a, 0x50, 0x20, 0x20, 0x0d, 0x0a, 0x87, 0x0a]),
        Some(ImageType::Jp2)
    );
    assert_eq!(source_image_type(&[137, 80, 78, 71, 13, 10, 26, 10, 0]), Some(ImageType::Png));
    assert_eq!(source_image_type(b"BM\0\0"), Some(ImageType::Bmp));
    assert_eq!(source_image_type(b"%PDF-1.4\n"), Some(ImageType::Pdf));
    assert_eq!(source_image_type(b"%PDF-1.7\n"), None);
    assert_eq!(source_image_type(b"%!PS-Adobe"), Some(ImageType::Eps));
    assert_eq!(source_image_type(b"GIF89a"), None);
    assert_eq!(source_image_type(b""), None);
}

#[test]
fn history_codes() {
    assert_eq!(history_to_result(0), Ok(TexResult::Spotless));
    assert_eq!(history_to_result(1), Ok(TexResult::Warnings));
    assert_eq!(history_to_result(2), Ok(TexResult::Errors));
    assert_eq!(history_to_result(3), Err(EngineFailure::Fatal));
    assert_eq!(history_to_result(99), Err(EngineFailure::Aborted));
    assert_eq!(history_to_result(4), Err(EngineFailure::UnexpectedHistory(4)));
    let _engine = BibtexEngine::new();
}

#[test]
fn guard_refuses_a_second_start() {
    let mut g = EngineGuard::new();
    assert!(!g.is_running());
    assert!(g.begin());
    assert!(!g.begin());
    assert!(g.is_running());
    g.finish();
    assert!(!g.is_running());
    assert!(g.begin());
}

struct Counter {
    opened: usize,
    closed: Vec<Option<[u8; 16]>>,
}

impl IoEventBackend for Counter {
    fn input_opened(&mut self, _name: &[u8], _origin: InputOrigin) {
        self.opened += 1;
    }
    fn input_closed(&mut self, _name: Vec<u8>, digest: Option<[u8; 16]>) {
        self.closed.push(digest);
    }
}

#[test]
fn events_reach_the_observer_in_order() {
    let events = vec![
        IoEvent::InputOpened(b"a".to_vec(), InputOrigin::Memory),
        IoEvent::StdoutOpened,
        IoEvent::InputClosed(b"a".to_vec(), None),
        IoEvent::InputClosed(b"a".to_vec(), Some([1u8; 16])),
    ];
    let mut c = Counter { opened: 0, closed: Vec::new() };
    dispatch(&events, &mut c);
    assert_eq!(c.opened, 1);
    assert_eq!(c.closed, vec![None, Some([1u8; 16])]);
    let mut noop = NoopIoEventBackend::new();
    dispatch(&events, &mut noop);
}

#[test]
fn white_space_is_skipped() {
    assert_eq!(skip_white_spaces(b" \t\r\n\x0c\0x y"), 6);
    assert_eq!(skip_white_spaces(b"abc"), 0);
    assert_eq!(skip_white_spaces(b"   "), 3);
    assert_eq!(skip_white_spaces(b""), 0);
}

#[test]
fn identifiers() {
    assert_eq!(parse_c_ident(b"_foo9 bar"), Some(5));
    assert_eq!(parse_c_ident(b"Abc"), Some(3));
    assert_eq!(parse_c_ident(b"9abc"), None);
    assert_eq!(parse_c_ident(b""), None);
    assert_eq!(parse_c_ident(b"x-y"), Some(1));
}

#[test]
fn decimal_numbers() {
    assert_eq!(parse_float_decimal(b"1. "), (2, true));
    assert_eq!(parse_float_decimal(b".01x"), (3, true));
    assert_eq!(parse_float_decimal(b"-001E-001,"), (9, true));
    assert_eq!(parse_float_decimal(b"+.e"), (2, false));
    assert_eq!(parse_float_decimal(b"1.2.3"), (3, true));
    assert_eq!(parse_float_decimal(b"abc"), (0, false));
    assert_eq!(parse_float_decimal(b""), (0, false));
}

#[test]
fn c_string_literals() {
    assert_eq!(parse_c_string(b"\"abc\" rest"), (Some(b"abc".to_vec()), 5));
    assert_eq!(parse_c_string(b"\"a\\nb\""), (Some(vec![b'a', 10, b'b']), 6));
    assert_eq!(parse_c_string(b"\"\\101\\x41\\7\""), (Some(vec![65, 65, 7]), 12));
    assert_eq!(parse_c_string(b"\"\\777\""), (Some(vec![255]), 6));
    assert_eq!(parse_c_string(b"\"\\xg\""), (Some(vec![0, b'g']), 5));
    assert_eq!(parse_c_string(b"\"a\\qb\""), (Some(b"ab".to_vec()), 6));
    assert_eq!(parse_c_string(b"\"a\\\nb\""), (Some(b"ab".to_vec()), 6));
    assert_eq!(parse_c_string(b"\"\\\"\\\\\""), (Some(b"\"\\".to_vec()), 6));
    assert_eq!(parse_c_string(b"\"abc"), (None, 4));
    assert_eq!(parse_c_string(b"\"ab\ncd\""), (None, 3));
    assert_eq!(parse_c_string(b"\"a\\"), (None, 3));
    assert_eq!(parse_c_string(b"abc"), (None, 0));
    assert_eq!(parse_c_string(b""), (None, 0));
}
