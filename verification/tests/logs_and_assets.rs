use bevy_magicleap_one::asset_io::{AssetIoError, NoAssetIO};
use bevy_magicleap_one::log_pipe::{log_text, LogPipeReader, ReaderAction, LOG_BUFFER_AVAILABLE};
use bevy_magicleap_one::logging::{LogLevelWriter, MagicLeapOneLogger, MlLogLevel, TraceLevel};

#[test]
fn default_writer_is_info_stdout() {
    let logger = MagicLeapOneLogger {};
    let writer = logger.make_writer();
    assert_eq!(writer.level(), MlLogLevel::Info);
    assert_eq!(writer.tag(), "stdout");
}

#[test]
fn writers_follow_event_levels() {
    let logger = MagicLeapOneLogger {};
    let cases = [
        (TraceLevel::Debug, MlLogLevel::Debug),
        (TraceLevel::Error, MlLogLevel::Error),
        (TraceLevel::Info, MlLogLevel::Info),
        (TraceLevel::Trace, MlLogLevel::Verbose),
        (TraceLevel::Warn, MlLogLevel::Warning),
    ];
    for (level, expected) in cases {
        let writer = logger.make_writer_for(level, "my_target");
        assert_eq!(writer.level(), expected);
        assert_eq!(writer.tag(), "my_target");
    }
}

#[test]
fn write_logs_whole_buffer() {
    let mut writer = LogLevelWriter::Warning("tag".to_string());
    let record = writer.write(b"hello");
    assert_eq!(record.level, MlLogLevel::Warning);
    assert_eq!(record.tag, "tag");
    assert_eq!(record.message, b"hello".to_vec());
    assert_eq!(record.written, 5);
    assert_eq!(writer.flush(), Ok(()));
    let mut fatal = LogLevelWriter::Fatal("f".to_string());
    assert_eq!(fatal.write(b"").written, 0);
    assert_eq!(fatal.level(), MlLogLevel::Fatal);
}

#[test]
fn reader_logs_completed_lines() {
    let mut reader = LogPipeReader::new();
    assert_eq!(reader.read_capacity(), LOG_BUFFER_AVAILABLE);
    assert_eq!(reader.step(3, b"abc"), ReaderAction::Wait);
    assert_eq!(reader.pending_bytes(), &b"abc".to_vec());
    assert_eq!(reader.read_capacity(), LOG_BUFFER_AVAILABLE - 3);
    let action = reader.step(5, b"d\nefg");
    assert_eq!(action, ReaderAction::Log(b"abcd".to_vec()));
    assert_eq!(reader.pending_bytes(), &b"efg".to_vec());
}

#[test]
fn reader_cuts_at_last_newline() {
    let mut reader = LogPipeReader::new();
    let action = reader.step(4, b"a\nb\n");
    assert_eq!(action, ReaderAction::Log(b"a\nb".to_vec()));
    assert!(reader.pending_bytes().is_empty());
}

#[test]
fn reader_logs_line_before_end_of_file() {
    let mut reader = LogPipeReader::new();
    let mut texts = Vec::new();
    for (result, bytes) in [(5isize, &b"ab\ncd"[..]), (0, &b""[..])] {
        match reader.step(result, bytes) {
            ReaderAction::Log(message) => texts.push(log_text(&message)),
            ReaderAction::Finish => break,
            _ => {}
        }
    }
    assert_eq!(texts, vec!["ab".to_string()]);
    assert_eq!(reader.pending_bytes(), &b"cd".to_vec());
}

#[test]
fn reader_logs_each_line_once_in_order() {
    let mut reader = LogPipeReader::new();
    let reads: [&[u8]; 4] = [b"one\ntw", b"o\n", b"thr", b"ee\nfo"];
    let mut logged: Vec<u8> = Vec::new();
    for bytes in reads {
        if let ReaderAction::Log(message) = reader.step(bytes.len() as isize, bytes) {
            logged.extend_from_slice(&message);
            logged.push(b'\n');
        }
    }
    assert_eq!(logged, b"one\ntwo\nthree\n".to_vec());
    assert_eq!(reader.pending_bytes(), &b"fo".to_vec());
}

#[test]
fn reader_logs_empty_line() {
    let mut reader = LogPipeReader::new();
    assert_eq!(reader.step(1, b"\n"), ReaderAction::Log(Vec::new()));
    assert!(reader.pending_bytes().is_empty());
}

#[test]
fn reader_flushes_full_buffer() {
    let mut reader = LogPipeReader::new();
    let data = vec![b'x'; LOG_BUFFER_AVAILABLE];
    let action = reader.step(LOG_BUFFER_AVAILABLE as isize, &data);
    assert_eq!(action, ReaderAction::Log(data));
    assert!(reader.pending_bytes().is_empty());
}

#[test]
fn reader_finishes_and_fails() {
    let mut reader = LogPipeReader::new();
    reader.step(2, b"ab");
    assert_eq!(reader.step(0, b""), ReaderAction::Finish);
    assert_eq!(reader.pending_bytes(), &b"ab".to_vec());
    assert_eq!(reader.step(-1, b""), ReaderAction::Fail);
    assert_eq!(reader.pending_bytes(), &b"ab".to_vec());
}

#[test]
fn log_text_decodes_or_reports() {
    assert_eq!(log_text(b"hi\0there"), "hi\0there");
    assert_eq!(log_text("grüß".as_bytes()), "grüß");
    assert_eq!(log_text(&[0xff, 0xfe]), "Unreadable log buffer!");
    assert_eq!(log_text(&[0xc3]), "Unreadable log buffer!");
}

#[test]
fn no_asset_io_finds_nothing() {
    let io = NoAssetIO::new("assets");
    assert_eq!(io.load_path("a.png"), Err(AssetIoError::NotFound(String::new())));
    assert_eq!(io.read_directory("dir"), Ok(Vec::new()));
    assert_eq!(io.watch_path_for_changes("a", None), Ok(()));
    assert_eq!(io.watch_for_changes(), Ok(()));
    assert!(matches!(io.get_metadata("a"), Err(AssetIoError::NotFound(p)) if p.is_empty()));
}
