use pty_sessions::error::SessionError;
use pty_sessions::geometry::Geometry;
use pty_sessions::registry::SessionRegistry;
use pty_sessions::session::StreamUse;
use pty_sessions::shell::{Platform, SHELL_ATTACHED};

fn registry_of(count: u32) -> SessionRegistry<u32> {
    let mut registry = SessionRegistry::new();
    for handle in 0..count {
        registry.allocate(Some(handle)).unwrap();
    }
    registry
}

#[test]
fn new_registry_is_empty() {
    let registry: SessionRegistry<u32> = SessionRegistry::new();
    assert_eq!(registry.len(), 0);
    assert!(registry.is_empty());
}

#[test]
fn nth_allocation_returns_n_minus_one() {
    let mut registry = SessionRegistry::new();
    for n in 1..=50usize {
        assert_eq!(registry.allocate(Some(n as u32)), Ok(n - 1));
        assert_eq!(registry.len(), n);
    }
    assert!(!registry.is_empty());
}

#[test]
fn failed_allocation_uses_no_index() {
    let mut registry: SessionRegistry<u32> = SessionRegistry::new();
    assert_eq!(registry.allocate(Some(10)), Ok(0));
    assert_eq!(registry.allocate(None), Err(SessionError::AllocationFailed));
    assert_eq!(registry.len(), 1);
    assert_eq!(registry.allocate(Some(11)), Ok(1));
    assert_eq!(registry.handle(0), Ok(&10));
    assert_eq!(registry.handle(1), Ok(&11));
}

#[test]
fn allocation_keeps_earlier_sessions() {
    let mut registry = registry_of(2);
    registry.finish_resize(0, 40, 120, true).unwrap();
    registry.writer_opened(0).unwrap();
    assert_eq!(registry.allocate(Some(7)), Ok(2));
    assert_eq!(registry.geometry(0), Ok(Geometry::with_cells(40, 120)));
    assert_eq!(registry.plan_write(0, "x").unwrap().stream, StreamUse::Reuse);
    assert_eq!(registry.geometry(2), Ok(Geometry::initial()));
}

#[test]
fn fresh_session_has_initial_state() {
    let registry = registry_of(1);
    let session = registry.get(0).unwrap();
    assert_eq!(*session.handle(), 0);
    assert_eq!(session.geometry(), Geometry { rows: 24, cols: 80, pixel_width: 0, pixel_height: 0 });
    assert!(!session.shell_attached());
    assert_eq!(session.writer_use(), StreamUse::Open);
    assert_eq!(session.reader_use(), StreamUse::Open);
    assert_eq!(session.filled_len(), 0);
}

#[test]
fn get_rejects_index_at_and_past_the_end() {
    let registry = registry_of(3);
    assert!(registry.get(2).is_ok());
    assert_eq!(registry.get(3).err(), Some(SessionError::InvalidIndex));
    assert_eq!(registry.get(usize::MAX).err(), Some(SessionError::InvalidIndex));
    assert_eq!(registry.handle(3), Err(SessionError::InvalidIndex));
    assert_eq!(registry.geometry(3), Err(SessionError::InvalidIndex));
}

#[test]
fn get_on_empty_registry_is_invalid_index() {
    let registry: SessionRegistry<u32> = SessionRegistry::new();
    assert_eq!(registry.get(0).err(), Some(SessionError::InvalidIndex));
}

#[test]
fn handle_mut_changes_only_the_handle() {
    let mut registry = registry_of(2);
    registry.finish_resize(1, 30, 100, true).unwrap();
    *registry.handle_mut(1).unwrap() = 99;
    assert_eq!(registry.handle(1), Ok(&99));
    assert_eq!(registry.handle(0), Ok(&0));
    assert_eq!(registry.geometry(1), Ok(Geometry::with_cells(30, 100)));
    assert_eq!(registry.handle_mut(2).err(), Some(SessionError::InvalidIndex));
}

#[test]
fn every_command_rejects_an_invalid_index() {
    let mut registry = registry_of(2);
    for index in [2usize, 3, 1000, usize::MAX] {
        assert_eq!(registry.plan_shell(index, Platform::Posix).err(), Some(SessionError::InvalidIndex));
        assert_eq!(registry.finish_shell(index, Ok(())), Err(SessionError::InvalidIndex));
        assert_eq!(
            registry.finish_shell(index, Err(String::from("no such file"))),
            Err(SessionError::InvalidIndex)
        );
        assert_eq!(registry.plan_write(index, "ls\n").err(), Some(SessionError::InvalidIndex));
        assert_eq!(registry.writer_opened(index), Err(SessionError::InvalidIndex));
        assert_eq!(registry.finish_write(index, true), Err(SessionError::InvalidIndex));
        assert_eq!(registry.finish_write(index, false), Err(SessionError::InvalidIndex));
        assert_eq!(registry.plan_read(index), Err(SessionError::InvalidIndex));
        assert_eq!(registry.reader_opened(index), Err(SessionError::InvalidIndex));
        assert_eq!(registry.fill(index, Some(&b"hi"[..])), Err(SessionError::InvalidIndex));
        assert_eq!(registry.fill(index, None), Err(SessionError::InvalidIndex));
        assert_eq!(registry.read(index), Err(SessionError::InvalidIndex));
        assert_eq!(registry.discard(index), Err(SessionError::InvalidIndex));
        assert_eq!(registry.plan_resize(index, 40, 120), Err(SessionError::InvalidIndex));
        assert_eq!(registry.finish_resize(index, 40, 120, true), Err(SessionError::InvalidIndex));
        assert_eq!(registry.finish_resize(index, 40, 120, false), Err(SessionError::InvalidIndex));
    }
    assert_eq!(registry.len(), 2);
    for index in 0..2 {
        let session = registry.get(index).unwrap();
        assert_eq!(session.geometry(), Geometry::initial());
        assert!(!session.shell_attached());
        assert_eq!(session.writer_use(), StreamUse::Open);
        assert_eq!(session.reader_use(), StreamUse::Open);
        assert_eq!(session.filled_len(), 0);
    }
}

#[test]
fn resize_persists() {
    let mut registry = registry_of(3);
    assert_eq!(
        registry.plan_resize(1, 40, 120),
        Ok(Geometry { rows: 40, cols: 120, pixel_width: 0, pixel_height: 0 })
    );
    assert_eq!(registry.geometry(1), Ok(Geometry::initial()));
    assert_eq!(registry.finish_resize(1, 40, 120, true), Ok(()));
    let geometry = registry.geometry(1).unwrap();
    assert_eq!(geometry.rows, 40);
    assert_eq!(geometry.cols, 120);
    assert_eq!(geometry.pixel_width, 0);
    assert_eq!(geometry.pixel_height, 0);
    assert_eq!(registry.geometry(0), Ok(Geometry::initial()));
    assert_eq!(registry.geometry(2), Ok(Geometry::initial()));
    registry.fill(1, Some(&b"abc"[..])).unwrap();
    registry.read(1).unwrap();
    registry.finish_shell(1, Ok(())).unwrap();
    assert_eq!(registry.geometry(1), Ok(Geometry::with_cells(40, 120)));
}

#[test]
fn refused_resize_keeps_the_geometry() {
    let mut registry = registry_of(1);
    registry.finish_resize(0, 40, 120, true).unwrap();
    assert_eq!(registry.finish_resize(0, 10, 20, false), Err(SessionError::ResizeFailed));
    assert_eq!(registry.geometry(0), Ok(Geometry::with_cells(40, 120)));
}

#[test]
fn resize_accepts_extreme_sizes() {
    let mut registry = registry_of(1);
    assert_eq!(registry.finish_resize(0, 0, 0, true), Ok(()));
    assert_eq!(registry.geometry(0), Ok(Geometry { rows: 0, cols: 0, pixel_width: 0, pixel_height: 0 }));
    assert_eq!(registry.finish_resize(0, u16::MAX, u16::MAX, true), Ok(()));
    assert_eq!(
        registry.geometry(0),
        Ok(Geometry { rows: u16::MAX, cols: u16::MAX, pixel_width: 0, pixel_height: 0 })
    );
}

#[test]
fn shell_plan_follows_the_platform() {
    let registry = registry_of(1);
    let posix = registry.plan_shell(0, Platform::Posix).unwrap();
    assert_eq!(posix.program, "bash");
    assert_eq!(posix.term, "xterm-256color");
    let windows = registry.plan_shell(0, Platform::Windows).unwrap();
    assert_eq!(windows.program, "powershell.exe");
    assert_eq!(windows.term, "cygwin");
}

#[test]
fn spawned_shell_is_attached() {
    let mut registry = registry_of(2);
    assert_eq!(registry.finish_shell(1, Ok(())), Ok(()));
    assert!(registry.get(1).unwrap().shell_attached());
    assert!(!registry.get(0).unwrap().shell_attached());
}

#[test]
fn failed_spawn_keeps_the_message() {
    let mut registry = registry_of(1);
    let reply = registry.finish_shell(0, Err(String::from("Unable to spawn bash")));
    assert_eq!(reply, Err(SessionError::SpawnFailed(String::from("Unable to spawn bash"))));
    assert_eq!(reply.unwrap_err().message(), "Unable to spawn bash");
    assert!(!registry.get(0).unwrap().shell_attached());
}

#[test]
fn failed_spawn_does_not_detach_a_shell() {
    let mut registry = registry_of(1);
    registry.finish_shell(0, Ok(())).unwrap();
    assert!(registry.finish_shell(0, Err(String::from("again"))).is_err());
    assert!(registry.get(0).unwrap().shell_attached());
}

#[test]
fn write_plan_holds_the_raw_bytes() {
    let registry = registry_of(1);
    let plan = registry.plan_write(0, "echo hi\n").unwrap();
    assert_eq!(plan.bytes, b"echo hi\n".to_vec());
    assert_eq!(plan.stream, StreamUse::Open);
    let plan = registry.plan_write(0, "h\u{e9}llo \u{20ac} \u{1f600}").unwrap();
    assert_eq!(
        plan.bytes,
        vec![0x68, 0xc3, 0xa9, 0x6c, 0x6c, 0x6f, 0x20, 0xe2, 0x82, 0xac, 0x20, 0xf0, 0x9f, 0x98, 0x80]
    );
}

#[test]
fn write_plan_of_empty_text_is_empty() {
    let registry = registry_of(1);
    let plan = registry.plan_write(0, "").unwrap();
    assert!(plan.bytes.is_empty());
}

#[test]
fn write_plan_is_not_chunked() {
    let registry = registry_of(1);
    let text = "x".repeat(100_000);
    let plan = registry.plan_write(0, &text).unwrap();
    assert_eq!(plan.bytes.len(), 100_000);
    assert!(plan.bytes.iter().all(|byte| *byte == b'x'));
}

#[test]
fn writer_is_opened_once() {
    let mut registry = registry_of(2);
    assert_eq!(registry.plan_write(0, "a").unwrap().stream, StreamUse::Open);
    assert_eq!(registry.plan_write(0, "a").unwrap().stream, StreamUse::Open);
    assert_eq!(registry.writer_opened(0), Ok(()));
    assert_eq!(registry.plan_write(0, "b").unwrap().stream, StreamUse::Reuse);
    assert_eq!(registry.plan_write(1, "b").unwrap().stream, StreamUse::Open);
    assert_eq!(registry.plan_read(0), Ok(StreamUse::Open));
    registry.finish_resize(0, 1, 1, true).unwrap();
    registry.allocate(Some(5)).unwrap();
    assert_eq!(registry.plan_write(0, "c").unwrap().stream, StreamUse::Reuse);
}

#[test]
fn reader_is_opened_once() {
    let mut registry = registry_of(2);
    assert_eq!(registry.plan_read(1), Ok(StreamUse::Open));
    assert_eq!(registry.reader_opened(1), Ok(()));
    assert_eq!(registry.plan_read(1), Ok(StreamUse::Reuse));
    assert_eq!(registry.plan_read(0), Ok(StreamUse::Open));
    assert_eq!(registry.plan_write(1, "").unwrap().stream, StreamUse::Open);
    registry.fill(1, Some(&b"x"[..])).unwrap();
    registry.read(1).unwrap();
    assert_eq!(registry.plan_read(1), Ok(StreamUse::Reuse));
}

#[test]
fn finished_write_reports_failure() {
    let registry = registry_of(1);
    assert_eq!(registry.finish_write(0, true), Ok(()));
    assert_eq!(registry.finish_write(0, false), Err(SessionError::IOFailed));
}

#[test]
fn failed_fill_is_an_io_failure() {
    let mut registry = registry_of(1);
    registry.fill(0, Some(&b"ab"[..])).unwrap();
    assert_eq!(registry.fill(0, None), Err(SessionError::IOFailed));
    assert_eq!(registry.get(0).unwrap().filled_len(), 2);
    assert_eq!(registry.read(0), Ok(Some(String::from("ab"))));
}

#[test]
fn empty_read_is_idempotent() {
    let mut registry = registry_of(2);
    registry.fill(1, Some(&b"other"[..])).unwrap();
    for _ in 0..5 {
        assert_eq!(registry.read(0), Ok(None));
        assert_eq!(registry.get(0).unwrap().filled_len(), 0);
        assert_eq!(registry.get(1).unwrap().filled_len(), 5);
    }
}

#[test]
fn empty_fill_leaves_no_data() {
    let mut registry = registry_of(1);
    assert_eq!(registry.fill(0, Some(&[][..])), Ok(()));
    assert_eq!(registry.read(0), Ok(None));
}

#[test]
fn read_returns_filled_text_and_consumes_it() {
    let mut registry = registry_of(1);
    registry.fill(0, Some(&b"hello "[..])).unwrap();
    registry.fill(0, Some(&b"world"[..])).unwrap();
    assert_eq!(registry.get(0).unwrap().filled_len(), 11);
    assert_eq!(registry.read(0), Ok(Some(String::from("hello world"))));
    assert_eq!(registry.get(0).unwrap().filled_len(), 0);
    assert_eq!(registry.read(0), Ok(None));
}

#[test]
fn read_touches_one_session_only() {
    let mut registry = registry_of(3);
    registry.fill(0, Some(&b"zero"[..])).unwrap();
    registry.fill(2, Some(&b"two"[..])).unwrap();
    assert_eq!(registry.read(1), Ok(None));
    assert_eq!(registry.read(2), Ok(Some(String::from("two"))));
    assert_eq!(registry.read(0), Ok(Some(String::from("zero"))));
}

#[test]
fn written_text_echoed_back_is_read() {
    let mut registry = registry_of(1);
    let plan = registry.plan_write(0, "echo hi\n").unwrap();
    registry.fill(0, Some(&plan.bytes[..])).unwrap();
    registry.fill(0, Some(&b"hi\r\n"[..])).unwrap();
    let text = registry.read(0).unwrap().unwrap();
    assert_eq!(text, "echo hi\nhi\r\n");
    assert!(text.contains("hi"));
}

#[test]
fn split_two_byte_character_is_recovered() {
    let mut registry = registry_of(1);
    registry.fill(0, Some(&[0xc3][..])).unwrap();
    assert_eq!(registry.read(0), Err(SessionError::DecodeFailed));
    assert_eq!(registry.get(0).unwrap().filled_len(), 1);
    assert_eq!(registry.read(0), Err(SessionError::DecodeFailed));
    registry.fill(0, Some(&[0xa9][..])).unwrap();
    assert_eq!(registry.read(0), Ok(Some(String::from("\u{e9}"))));
    assert_eq!(registry.get(0).unwrap().filled_len(), 0);
}

#[test]
fn split_four_byte_character_is_recovered() {
    let mut registry = registry_of(1);
    let bytes = "a\u{1f600}b".as_bytes();
    for cut in 2..5 {
        registry.fill(0, Some(&bytes[..cut])).unwrap();
        assert_eq!(registry.read(0), Err(SessionError::DecodeFailed));
        assert_eq!(registry.get(0).unwrap().filled_len(), cut);
        registry.fill(0, Some(&bytes[cut..])).unwrap();
        assert_eq!(registry.read(0), Ok(Some(String::from("a\u{1f600}b"))));
        assert_eq!(registry.get(0).unwrap().filled_len(), 0);
    }
}

#[test]
fn fill_at_a_character_boundary_reads_in_two_parts() {
    let mut registry = registry_of(1);
    let bytes = "\u{e9}\u{e8}".as_bytes();
    registry.fill(0, Some(&bytes[..2])).unwrap();
    assert_eq!(registry.read(0), Ok(Some(String::from("\u{e9}"))));
    registry.fill(0, Some(&bytes[2..])).unwrap();
    assert_eq!(registry.read(0), Ok(Some(String::from("\u{e8}"))));
}

#[test]
fn invalid_bytes_fail_the_whole_chunk() {
    let mut registry = registry_of(1);
    registry.fill(0, Some(&b"good"[..])).unwrap();
    registry.fill(0, Some(&[0xff][..])).unwrap();
    assert_eq!(registry.read(0), Err(SessionError::DecodeFailed));
    assert_eq!(registry.get(0).unwrap().filled_len(), 5);
    registry.fill(0, Some(&b"more"[..])).unwrap();
    assert_eq!(registry.read(0), Err(SessionError::DecodeFailed));
    assert_eq!(registry.get(0).unwrap().filled_len(), 9);
}

#[test]
fn second_shell_on_a_session_is_refused() {
    let mut registry = registry_of(2);
    assert!(registry.plan_shell(1, Platform::Posix).is_ok());
    assert_eq!(registry.finish_shell(1, Ok(())), Ok(()));
    for platform in [Platform::Posix, Platform::Windows] {
        let reply = registry.plan_shell(1, platform);
        assert_eq!(
            reply.err(),
            Some(SessionError::SpawnFailed(String::from("a shell is already attached to this session")))
        );
    }
    assert_eq!(registry.plan_shell(1, Platform::Posix).unwrap_err().message(), SHELL_ATTACHED);
    assert!(registry.get(1).unwrap().shell_attached());
    assert!(registry.plan_shell(0, Platform::Posix).is_ok());
    assert!(!registry.get(0).unwrap().shell_attached());
}

#[test]
fn second_shell_stays_refused_whatever_follows() {
    let mut registry = registry_of(1);
    registry.finish_shell(0, Ok(())).unwrap();
    registry.allocate(Some(9)).unwrap();
    registry.writer_opened(0).unwrap();
    registry.reader_opened(0).unwrap();
    registry.fill(0, Some(&b"abc"[..])).unwrap();
    registry.read(0).unwrap();
    registry.discard(0).unwrap();
    registry.finish_resize(0, 50, 132, true).unwrap();
    assert!(registry.finish_shell(0, Err(String::from("no"))).is_err());
    *registry.handle_mut(0).unwrap() = 3;
    assert!(matches!(
        registry.plan_shell(0, Platform::Posix),
        Err(SessionError::SpawnFailed(message)) if message == SHELL_ATTACHED
    ));
}

#[test]
fn shell_can_be_planned_again_after_a_failed_spawn() {
    let mut registry = registry_of(1);
    assert!(registry.plan_shell(0, Platform::Posix).is_ok());
    assert!(registry.finish_shell(0, Err(String::from("bash: not found"))).is_err());
    let command = registry.plan_shell(0, Platform::Posix).unwrap();
    assert_eq!(command.program, "bash");
}

#[test]
fn discard_drops_bytes_that_cannot_be_decoded() {
    let mut registry = registry_of(1);
    registry.fill(0, Some(&[0xff][..])).unwrap();
    assert_eq!(registry.read(0), Err(SessionError::DecodeFailed));
    registry.fill(0, Some(&[0x61][..])).unwrap();
    assert_eq!(registry.read(0), Err(SessionError::DecodeFailed));
    assert_eq!(registry.get(0).unwrap().filled_len(), 2);
    assert_eq!(registry.discard(0), Ok(2));
    assert_eq!(registry.get(0).unwrap().filled_len(), 0);
    assert_eq!(registry.read(0), Ok(None));
    registry.fill(0, Some(&b"back"[..])).unwrap();
    assert_eq!(registry.read(0), Ok(Some(String::from("back"))));
}

#[test]
fn discard_of_nothing_drops_nothing() {
    let mut registry = registry_of(1);
    assert_eq!(registry.discard(0), Ok(0));
    assert_eq!(registry.discard(0), Ok(0));
    assert_eq!(registry.read(0), Ok(None));
}

#[test]
fn discard_drops_text_too_and_touches_one_session() {
    let mut registry = registry_of(2);
    registry.finish_resize(0, 40, 120, true).unwrap();
    registry.reader_opened(0).unwrap();
    registry.fill(0, Some(&b"lost"[..])).unwrap();
    registry.fill(1, Some(&b"kept"[..])).unwrap();
    assert_eq!(registry.discard(0), Ok(4));
    assert_eq!(registry.read(0), Ok(None));
    assert_eq!(registry.read(1), Ok(Some(String::from("kept"))));
    assert_eq!(registry.geometry(0), Ok(Geometry::with_cells(40, 120)));
    assert_eq!(registry.plan_read(0), Ok(StreamUse::Reuse));
}

#[test]
fn text_in_many_fills_is_read_whole() {
    let whole = "pr\u{e9}-\u{20ac}-\u{1f600}-\u{65e5}\u{672c}\u{8a9e} done\r\n";
    let bytes = whole.as_bytes();
    for size in 1..=bytes.len() {
        for read_every in 1..4 {
            let mut registry = registry_of(1);
            let mut output = String::new();
            let mut filled = 0;
            for (count, piece) in bytes.chunks(size).enumerate() {
                registry.fill(0, Some(piece)).unwrap();
                filled += piece.len();
                if count % read_every == 0 {
                    match registry.read(0) {
                        Ok(Some(text)) => output.push_str(&text),
                        Ok(None) => {}
                        Err(error) => assert_eq!(error, SessionError::DecodeFailed),
                    }
                }
                assert!(whole.starts_with(&output));
                assert_eq!(output.len() + registry.get(0).unwrap().filled_len(), filled);
            }
            if let Some(text) = registry.read(0).unwrap() {
                output.push_str(&text);
            }
            assert_eq!(output, whole);
            assert_eq!(registry.get(0).unwrap().filled_len(), 0);
        }
    }
}
