use tectonic::bridge::{
    get_file_md5, input_close, input_get_size, input_getc, input_open, input_open_primary,
    input_read, input_seek, input_ungetc, output_close, output_flush, output_open,
    output_open_stdout, output_putc, output_write, EOF, SEEK_CUR, SEEK_END, SEEK_SET,
};
use tectonic::digest::get_data_md5;
use tectonic::provider::Provider;
use tectonic::session::ExecutionState;
use tectonic::stack::IoStack;
use tectonic::status::{Problem, Severity};

const MD5_HELLO: [u8; 16] = [
    0x5d, 0x41, 0x40, 0x2a, 0xbc, 0x4b, 0x2a, 0x76, 0xb9, 0x71, 0x9d, 0x91, 0x10, 0x17, 0xc5, 0x92,
];

fn session() -> ExecutionState {
    let mut p = Provider::memory();
    p.store(b"a.tex".to_vec(), b"hi".to_vec());
    ExecutionState::new(IoStack::new(vec![p, Provider::stdout()]))
}

#[test]
fn handles_are_numbered_from_one() {
    let mut es = session();
    let h = input_open(&mut es, b"a", 26, 0);
    assert_eq!(h, 1);
    assert_eq!(input_open(&mut es, b"missing", 26, 0), 0);
    assert_eq!(input_open(&mut es, b"a", 2, 0), 0);
    let o = output_open(&mut es, b"out.log", 0);
    assert_eq!(o, 1);
    assert_eq!(output_open_stdout(&mut es), 2);
}

#[test]
fn getc_reports_end_of_stream_as_eof() {
    let mut es = session();
    let h = input_open(&mut es, b"a.tex", 26, 0);
    assert_eq!(input_get_size(&mut es, h), 2);
    assert_eq!(input_getc(&mut es, h), b'h' as i32);
    assert_eq!(input_ungetc(&mut es, h, b'H' as i32), 0);
    assert_eq!(input_ungetc(&mut es, h, b'H' as i32), -1);
    assert_eq!(input_getc(&mut es, h), b'H' as i32);
    assert_eq!(input_getc(&mut es, h), b'i' as i32);
    assert_eq!(input_getc(&mut es, h), EOF);
    assert_eq!(es.reports().len(), 1);
    assert_eq!(es.reports()[0].problem, Problem::UngetcFailed(tectonic::handle::IoErrorKind::InvalidInput));
}

#[test]
fn read_gives_length_or_minus_one() {
    let mut es = session();
    let h = input_open(&mut es, b"a.tex", 26, 0);
    assert_eq!(input_read(&mut es, h, 2), (2, b"hi".to_vec()));
    assert_eq!(input_read(&mut es, h, 1).0, -1);
    assert_eq!(es.reports()[0].severity, Severity::Warning);
}

#[test]
fn seek_modes() {
    let mut es = session();
    let h = input_open(&mut es, b"a.tex", 26, 0);
    assert_eq!(input_seek(&mut es, h, 0, SEEK_END), (2, false));
    assert_eq!(input_seek(&mut es, h, -1, SEEK_CUR), (1, false));
    assert_eq!(input_seek(&mut es, h, 0, SEEK_SET), (0, false));
    assert!(es.reports().is_empty());
    assert_eq!(input_seek(&mut es, h, 0, 7), (0, true));
    assert_eq!(es.reports()[0].severity, Severity::Fatal);
    assert_eq!(es.reports()[0].problem, Problem::UnknownWhence(7));
    assert_eq!(input_seek(&mut es, h, -1, SEEK_SET), (0, false));
    assert_eq!(es.reports()[1].severity, Severity::Error);
}

#[test]
fn null_handles() {
    let mut es = session();
    assert_eq!(input_close(&mut es, 0), 0);
    assert_eq!(output_close(&mut es, 0), 0);
    assert!(es.reports().is_empty());
    assert_eq!(input_getc(&mut es, 0), EOF);
    assert_eq!(es.reports()[0].problem, Problem::UnknownHandle);
    assert_eq!(output_putc(&mut es, 0, 65), EOF);
    assert_eq!(input_close(&mut es, 5), 1);
}

#[test]
fn output_calls() {
    let mut es = session();
    let o = output_open(&mut es, b"out.log", 0);
    assert_eq!(output_putc(&mut es, o, b'h' as i32), b'h' as i32);
    assert_eq!(output_write(&mut es, o, b"ello"), 4);
    assert_eq!(output_flush(&mut es, o), 0);
    assert_eq!(output_close(&mut es, o), 0);
    assert_eq!(output_close(&mut es, o), 1);
    assert_eq!(output_write(&mut es, o, b"x"), 0);
    let h = input_open(&mut es, b"out.log", 26, 0);
    assert_eq!(input_read(&mut es, h, 5), (5, b"hello".to_vec()));
}

#[test]
fn primary_input_absent() {
    let mut es = session();
    assert_eq!(input_open_primary(&mut es), 0);
    assert_eq!(es.reports()[0].severity, Severity::Fatal);
    assert_eq!(es.reports()[0].problem, Problem::PrimaryInputMissing);
}

#[test]
fn file_and_data_digests() {
    let mut es = ExecutionState::new(IoStack::new(vec![{
        let mut p = Provider::memory();
        p.store(b"h.tex".to_vec(), b"hello".to_vec());
        p
    }]));
    let mut d = [0u8; 16];
    assert_eq!(get_file_md5(&mut es, b"h", &mut d), 0);
    assert_eq!(d, MD5_HELLO);
    let mut e = [7u8; 16];
    assert_eq!(get_file_md5(&mut es, b"nothing", &mut e), 1);
    assert_eq!(e, [7u8; 16]);
    assert_eq!(get_data_md5(b"hello"), MD5_HELLO);
    assert_eq!(
        get_data_md5(b""),
        [0xd4, 0x1d, 0x8c, 0xd9, 0x8f, 0x00, 0xb2, 0x04, 0xe9, 0x80, 0x09, 0x98, 0xec, 0xf8, 0x42, 0x7e]
    );
}
