//! What holds of the registry over whole histories of commands.
//!
//! The functions of the registry state, each for itself, what one command
//! replies and how it changes the sessions. The proof functions here put
//! those statements together: they speak of the same sessions and the same
//! transitions, and show what no single command can.

use crate::decode::{consumed, decode, remainder, Decoded};
use crate::error::SessionError;
use crate::geometry::cell_geometry;
use crate::registry::{
    after_allocate, after_discard, after_fill, after_handle, after_read, after_reader_opened,
    after_resize, after_shell, after_writer_opened, allocate_reply, may_plan_shell, valid_index,
};
use crate::session::{SessionModel, StreamUse};
use vstd::prelude::*;
use vstd::utf8::{decode_utf8, encode_utf8, valid_utf8};

verus! {

/// A command that can change the sessions, with the outcome that the
/// operating system gave it.
pub enum Command<H> {
    Allocate { opened: Option<H> },
    Handle { index: usize, handle: H },
    Shell { index: usize, spawned: Result<(), String> },
    WriterOpened { index: usize },
    ReaderOpened { index: usize },
    Fill { index: usize, bytes: Seq<u8> },
    Read { index: usize },
    Discard { index: usize },
    Resize { index: usize, rows: u16, cols: u16, applied: bool },
}

/// The sessions after one command.
pub open spec fn step<H>(sessions: Seq<SessionModel<H>>, command: Command<H>) -> Seq<
    SessionModel<H>,
> {
    match command {
        Command::Allocate { opened } => after_allocate(sessions, opened),
        Command::Handle { index, handle } => after_handle(sessions, index, handle),
        Command::Shell { index, spawned } => after_shell(sessions, index, spawned),
        Command::WriterOpened { index } => after_writer_opened(sessions, index),
        Command::ReaderOpened { index } => after_reader_opened(sessions, index),
        Command::Fill { index, bytes } => after_fill(sessions, index, bytes),
        Command::Read { index } => after_read(sessions, index),
        Command::Discard { index } => after_discard(sessions, index),
        Command::Resize { index, rows, cols, applied } => after_resize(
            sessions,
            index,
            rows,
            cols,
            applied,
        ),
    }
}

/// The sessions after a history of commands, first to last.
pub open spec fn run<H>(sessions: Seq<SessionModel<H>>, commands: Seq<Command<H>>) -> Seq<
    SessionModel<H>,
>
    decreases commands.len(),
{
    if commands.len() == 0 {
        sessions
    } else {
        step(run(sessions, commands.drop_last()), commands.last())
    }
}

/// A fresh registry after one successful allocation for each of `handles`.
pub open spec fn allocations<H>(handles: Seq<H>) -> Seq<SessionModel<H>>
    decreases handles.len(),
{
    if handles.len() == 0 {
        Seq::empty()
    } else {
        after_allocate(allocations(handles.drop_last()), Some(handles.last()))
    }
}

/// Whether session `later` is session `earlier` at a later time: a shell
/// that was attached and a stream that was opened are there for good.
pub open spec fn keeps<H>(earlier: SessionModel<H>, later: SessionModel<H>) -> bool {
    &&& earlier.shell_attached ==> later.shell_attached
    &&& earlier.writer_open ==> later.writer_open
    &&& earlier.reader_open ==> later.reader_open
}

/// The bytes that a read hands to its caller as text.
pub open spec fn delivered(decoded: Decoded) -> Seq<u8> {
    match decoded {
        Decoded::Text(text) => encode_utf8(text),
        _ => Seq::empty(),
    }
}

/// The sessions after `count` reads of session `index` in a row.
pub open spec fn after_reads<H>(sessions: Seq<SessionModel<H>>, index: usize, count: nat) -> Seq<
    SessionModel<H>,
>
    decreases count,
{
    if count == 0 {
        sessions
    } else {
        after_read(after_reads(sessions, index, (count - 1) as nat), index)
    }
}

/// No command removes a session or moves it to another index, takes a
/// shell from it or closes a stream of it.
pub proof fn lemma_step_keeps_sessions<H>(
    sessions: Seq<SessionModel<H>>,
    command: Command<H>,
    index: usize,
)
    requires
        valid_index(sessions, index),
    ensures
        sessions.len() <= step(sessions, command).len() <= sessions.len() + 1,
        valid_index(step(sessions, command), index),
        keeps(sessions[index as int], step(sessions, command)[index as int]),
{
}

/// Over any history, a session stays where it is and keeps its shell and
/// its streams.
pub proof fn lemma_run_keeps_sessions<H>(
    sessions: Seq<SessionModel<H>>,
    commands: Seq<Command<H>>,
    index: usize,
)
    requires
        valid_index(sessions, index),
    ensures
        sessions.len() <= run(sessions, commands).len(),
        valid_index(run(sessions, commands), index),
        keeps(sessions[index as int], run(sessions, commands)[index as int]),
    decreases commands.len(),
{
    if commands.len() > 0 {
        lemma_run_keeps_sessions(sessions, commands.drop_last(), index);
        lemma_step_keeps_sessions(run(sessions, commands.drop_last()), commands.last(), index);
    }
}

/// A history never shortens the registry.
pub proof fn lemma_run_never_shrinks<H>(sessions: Seq<SessionModel<H>>, commands: Seq<Command<H>>)
    ensures
        sessions.len() <= run(sessions, commands).len(),
    decreases commands.len(),
{
    if commands.len() > 0 {
        lemma_run_never_shrinks(sessions, commands.drop_last());
    }
}

/// One successful allocation for each of `handles` leaves as many sessions
/// as there are handles, the session of each handle at the handle's place.
pub proof fn lemma_allocations_in_order<H>(handles: Seq<H>)
    ensures
        allocations(handles).len() == handles.len(),
        forall|i: int|
            0 <= i < handles.len() ==> #[trigger] allocations(handles)[i] == SessionModel::fresh(
                handles[i],
            ),
    decreases handles.len(),
{
    if handles.len() > 0 {
        lemma_allocations_in_order(handles.drop_last());
    }
}

/// Against a fresh registry the `n`-th allocation returns index `n - 1`.
pub proof fn lemma_nth_allocation<H>(handles: Seq<H>, n: int)
    requires
        1 <= n <= handles.len(),
        handles.len() <= usize::MAX,
    ensures
        allocate_reply(allocations(handles.subrange(0, n - 1)), Some(handles[n - 1])) == Ok::<
            usize,
            SessionError,
        >((n - 1) as usize),
{
    lemma_allocations_in_order(handles.subrange(0, n - 1));
}

/// An index is given out once: whatever happens between two successful
/// allocations, the second returns a greater index than the first, and the
/// first one's session is still at its index.
pub proof fn lemma_allocation_never_reuses<H>(
    sessions: Seq<SessionModel<H>>,
    first: H,
    between: Seq<Command<H>>,
    second: H,
)
    requires
        run(after_allocate(sessions, Some(first)), between).len() <= usize::MAX,
    ensures
        ({
            let then = run(after_allocate(sessions, Some(first)), between);
            &&& allocate_reply(sessions, Some(first)) matches Ok(earlier)
            &&& allocate_reply(then, Some(second)) matches Ok(later)
            &&& earlier < later
            &&& !valid_index(sessions, earlier)
            &&& valid_index(then, earlier)
            &&& valid_index(after_allocate(then, Some(second)), later)
        }),
{
    lemma_run_never_shrinks(after_allocate(sessions, Some(first)), between);
}

/// A read of a session with nothing filled finds no data and changes
/// nothing, however often it is repeated.
pub proof fn lemma_empty_read_is_idempotent<H>(
    sessions: Seq<SessionModel<H>>,
    index: usize,
    count: nat,
)
    requires
        valid_index(sessions, index),
        sessions[index as int].filled.len() == 0,
    ensures
        after_reads(sessions, index, count) == sessions,
        after_reads(sessions, index, count)[index as int].read_reply() == Decoded::NoData,
    decreases count,
{
    if count > 0 {
        lemma_empty_read_is_idempotent(sessions, index, (count - 1) as nat);
        assert(remainder(sessions[index as int].filled) == sessions[index as int].filled);
        assert(sessions[index as int].after_read() == sessions[index as int]);
        assert(after_read(sessions, index) == sessions);
    }
}

/// A resize that was applied is what the geometry of the session is from
/// then on, while no other session changes; a resize that was refused
/// changes nothing.
pub proof fn lemma_resize_persists<H>(
    sessions: Seq<SessionModel<H>>,
    index: usize,
    rows: u16,
    cols: u16,
)
    requires
        valid_index(sessions, index),
    ensures
        after_resize(sessions, index, rows, cols, true)[index as int].geometry == cell_geometry(
            rows,
            cols,
        ),
        after_resize(sessions, index, rows, cols, true)[index as int].geometry.rows == rows,
        after_resize(sessions, index, rows, cols, true)[index as int].geometry.cols == cols,
        after_resize(sessions, index, rows, cols, true).len() == sessions.len(),
        forall|other: int|
            0 <= other < sessions.len() && other != index ==> #[trigger] after_resize(
                sessions,
                index,
                rows,
                cols,
                true,
            )[other] == sessions[other],
        after_resize(sessions, index, rows, cols, false) == sessions,
{
}

/// The geometry of a session changes by nothing but an applied resize of
/// that session.
pub proof fn lemma_geometry_stays<H>(
    sessions: Seq<SessionModel<H>>,
    command: Command<H>,
    index: usize,
)
    requires
        valid_index(sessions, index),
        !(command matches Command::Resize { index: resized, applied, .. } && resized == index
            && applied),
    ensures
        step(sessions, command)[index as int].geometry == sessions[index as int].geometry,
{
}

/// A command whose index names no session changes nothing.
pub proof fn lemma_invalid_index_changes_nothing<H>(
    sessions: Seq<SessionModel<H>>,
    command: Command<H>,
)
    requires
        match command {
            Command::Allocate { .. } => false,
            Command::Handle { index, .. } => !valid_index(sessions, index),
            Command::Shell { index, .. } => !valid_index(sessions, index),
            Command::WriterOpened { index } => !valid_index(sessions, index),
            Command::ReaderOpened { index } => !valid_index(sessions, index),
            Command::Fill { index, .. } => !valid_index(sessions, index),
            Command::Read { index } => !valid_index(sessions, index),
            Command::Discard { index } => !valid_index(sessions, index),
            Command::Resize { index, .. } => !valid_index(sessions, index),
        },
    ensures
        step(sessions, command) == sessions,
{
}

/// Once the writer of a session was opened, every later write reuses it;
/// the same holds of the reader. So no session ever has two of either.
pub proof fn lemma_streams_open_once<H>(
    sessions: Seq<SessionModel<H>>,
    index: usize,
    later: Seq<Command<H>>,
)
    requires
        valid_index(sessions, index),
    ensures
        run(after_writer_opened(sessions, index), later)[index as int].writer_use()
            == StreamUse::Reuse,
        run(after_reader_opened(sessions, index), later)[index as int].reader_use()
            == StreamUse::Reuse,
{
    lemma_run_keeps_sessions(after_writer_opened(sessions, index), later, index);
    lemma_run_keeps_sessions(after_reader_opened(sessions, index), later, index);
}

/// A read loses no byte and alters none: what it hands out as text,
/// followed by what it leaves filled, is what was filled.
pub proof fn lemma_read_conserves_bytes(filled: Seq<u8>)
    ensures
        delivered(decode(filled)) + remainder(filled) == filled,
        delivered(decode(filled)).len() == consumed(filled),
        decode(filled) is Invalid ==> remainder(filled) == filled,
{
    if valid_utf8(filled) {
        vstd::utf8::decode_utf8_encode_utf8(filled);
    }
    assert(delivered(decode(filled)) + remainder(filled) =~= filled);
}

/// A character whose bytes arrive in two fills is not lost. If the first
/// fill ends inside the character, the read after it reports that it cannot
/// decode and consumes nothing; once the second fill has brought the rest,
/// the next read returns the whole text and leaves nothing behind.
pub proof fn lemma_split_character_recovers<H>(
    sessions: Seq<SessionModel<H>>,
    index: usize,
    head: Seq<u8>,
    tail: Seq<u8>,
)
    requires
        valid_index(sessions, index),
        sessions[index as int].filled.len() == 0,
        !valid_utf8(head),
        valid_utf8(head + tail),
    ensures
        ({
            let first = after_fill(sessions, index, head);
            let stalled = after_read(first, index);
            let second = after_fill(stalled, index, tail);
            &&& first[index as int].read_reply() == Decoded::Invalid
            &&& stalled == first
            &&& second[index as int].read_reply() == Decoded::Text(decode_utf8(head + tail))
            &&& after_read(second, index)[index as int].filled.len() == 0
        }),
{
    let first = after_fill(sessions, index, head);
    assert(first[index as int].filled == head);
    assert(remainder(head) == head);
    assert(first[index as int].after_read() == first[index as int]);
    let stalled = after_read(first, index);
    assert(stalled == first);
    let second = after_fill(stalled, index, tail);
    assert(second[index as int].filled == head + tail);
    assert((head + tail).len() > 0) by {
        if (head + tail).len() == 0 {
            assert(head == Seq::<u8>::empty());
        }
    }
}

/// Where a valid text starts with a valid text, what follows is a valid
/// text too, and the whole decodes to the two parts, one after the other.
proof fn lemma_text_after_text(head: Seq<u8>, tail: Seq<u8>)
    requires
        valid_utf8(head),
        valid_utf8(head + tail),
    ensures
        valid_utf8(tail),
        decode_utf8(head + tail) == decode_utf8(head) + decode_utf8(tail),
    decreases head.len(),
{
    if head.len() == 0 {
        assert(head + tail =~= tail);
        assert(decode_utf8(head) + decode_utf8(tail) =~= decode_utf8(tail));
    } else {
        let whole = head + tail;
        let rest = vstd::utf8::pop_first_scalar(head);
        assert(whole[0] == head[0]);
        assert(head.len() >= 2 ==> whole[1] == head[1]);
        assert(head.len() >= 3 ==> whole[2] == head[2]);
        assert(head.len() >= 4 ==> whole[3] == head[3]);
        assert(vstd::utf8::pop_first_scalar(whole) =~= rest + tail);
        lemma_text_after_text(rest, tail);
        assert(decode_utf8(whole) =~= decode_utf8(head) + decode_utf8(tail));
    }
}

/// Bytes that make up a valid text and arrive in two fills are read as
/// that text, wherever the cut between the fills falls and whether or not
/// the first fill is read before the second arrives: put together, what the
/// reads hand out is the whole, and nothing stays behind.
pub proof fn lemma_two_fills_lose_nothing<H>(
    sessions: Seq<SessionModel<H>>,
    index: usize,
    head: Seq<u8>,
    tail: Seq<u8>,
)
    requires
        valid_index(sessions, index),
        sessions[index as int].filled.len() == 0,
        valid_utf8(head + tail),
    ensures
        ({
            let first = after_fill(sessions, index, head);
            let between = after_read(first, index);
            let second = after_fill(between, index, tail);
            &&& delivered(first[index as int].read_reply()) + delivered(
                second[index as int].read_reply(),
            ) == head + tail
            &&& after_read(second, index)[index as int].filled.len() == 0
        }),
{
    let first = after_fill(sessions, index, head);
    let between = after_read(first, index);
    let second = after_fill(between, index, tail);
    assert(first[index as int].filled == head);
    if valid_utf8(head) {
        lemma_text_after_text(head, tail);
        lemma_read_conserves_bytes(head);
        lemma_read_conserves_bytes(tail);
        assert(remainder(head) == Seq::<u8>::empty());
        assert(between[index as int].filled == Seq::<u8>::empty());
        assert(second[index as int].filled == tail);
        assert(remainder(tail) == Seq::<u8>::empty());
        assert(delivered(decode(head)) == head);
        assert(delivered(decode(tail)) == tail);
    } else {
        lemma_read_conserves_bytes(head + tail);
        assert(remainder(head) == head);
        assert(first[index as int].after_read() == first[index as int]);
        assert(between == first);
        assert(second[index as int].filled == head + tail);
        assert(remainder(head + tail) == Seq::<u8>::empty());
        assert(delivered(decode(head)) + delivered(decode(head + tail)) == head + tail);
    }
}

/// Text that is written to a session and comes back from it unchanged is
/// read as the same text.
pub proof fn lemma_written_text_reads_back<H>(
    sessions: Seq<SessionModel<H>>,
    index: usize,
    text: Seq<char>,
)
    requires
        valid_index(sessions, index),
        sessions[index as int].filled.len() == 0,
        text.len() > 0,
    ensures
        after_fill(sessions, index, encode_utf8(text))[index as int].read_reply()
            == Decoded::Text(text),
{
    vstd::utf8::encode_utf8_valid_utf8(text);
    vstd::utf8::encode_utf8_decode_utf8(text);
    let echoed = after_fill(sessions, index, encode_utf8(text));
    assert(echoed[index as int].filled == encode_utf8(text));
    assert(encode_utf8(text).len() > 0) by {
        if encode_utf8(text).len() == 0 {
            assert(decode_utf8(encode_utf8(text)).len() == 0);
        }
    }
}

/// A session has one shell at most: once a shell was attached, no later
/// plan for that session allows another, whatever happened in between.
pub proof fn lemma_one_shell<H>(
    sessions: Seq<SessionModel<H>>,
    index: usize,
    later: Seq<Command<H>>,
)
    requires
        valid_index(sessions, index),
    ensures
        !may_plan_shell(run(after_shell(sessions, index, Ok(())), later), index),
        valid_index(run(after_shell(sessions, index, Ok(())), later), index),
{
    lemma_run_keeps_sessions(after_shell(sessions, index, Ok(())), later, index);
}

/// Whatever is filled into a session, after it was thrown away the session
/// reads again: nothing is filled, and text filled from then on is read as
/// that text.
pub proof fn lemma_discard_recovers<H>(
    sessions: Seq<SessionModel<H>>,
    index: usize,
    text: Seq<char>,
)
    requires
        valid_index(sessions, index),
        text.len() > 0,
    ensures
        after_discard(sessions, index)[index as int].read_reply() == Decoded::NoData,
        after_fill(after_discard(sessions, index), index, encode_utf8(text))[index as int]
            .read_reply() == Decoded::Text(text),
{
    let cleared = after_discard(sessions, index);
    assert(cleared[index as int].filled.len() == 0);
    lemma_written_text_reads_back(cleared, index, text);
}

/// The bytes that arrived for session `index` over a history.
pub open spec fn emitted<H>(commands: Seq<Command<H>>, index: usize) -> Seq<u8>
    decreases commands.len(),
{
    if commands.len() == 0 {
        Seq::empty()
    } else {
        emitted(commands.drop_last(), index) + (match commands.last() {
            Command::Fill { index: at, bytes } => if at == index {
                bytes
            } else {
                Seq::empty()
            },
            _ => Seq::empty(),
        })
    }
}

/// The bytes that left the filled bytes of session `index` over a history,
/// in the order in which they left: handed out by a read or thrown away.
pub open spec fn taken<H>(
    sessions: Seq<SessionModel<H>>,
    commands: Seq<Command<H>>,
    index: usize,
) -> Seq<u8>
    decreases commands.len(),
{
    if commands.len() == 0 {
        Seq::empty()
    } else {
        let before = run(sessions, commands.drop_last())[index as int];
        taken(sessions, commands.drop_last(), index) + (match commands.last() {
            Command::Read { index: at } => if at == index {
                delivered(before.read_reply())
            } else {
                Seq::empty()
            },
            Command::Discard { index: at } => if at == index {
                before.filled
            } else {
                Seq::empty()
            },
            _ => Seq::empty(),
        })
    }
}

/// The text that the reads of session `index` handed out over a history,
/// one read's text after the other.
pub open spec fn texts<H>(
    sessions: Seq<SessionModel<H>>,
    commands: Seq<Command<H>>,
    index: usize,
) -> Seq<char>
    decreases commands.len(),
{
    if commands.len() == 0 {
        Seq::empty()
    } else {
        let before = run(sessions, commands.drop_last())[index as int];
        texts(sessions, commands.drop_last(), index) + (match commands.last() {
            Command::Read { index: at } => if at == index {
                match before.read_reply() {
                    Decoded::Text(text) => text,
                    _ => Seq::empty(),
                }
            } else {
                Seq::empty()
            },
            _ => Seq::empty(),
        })
    }
}

/// Whether a history throws away nothing of session `index`.
pub open spec fn discards_nothing<H>(commands: Seq<Command<H>>, index: usize) -> bool {
    forall|i: int|
        0 <= i < commands.len() ==> !(#[trigger] commands[i] matches Command::Discard {
            index: at,
        } && at == index)
}

/// Over any history every byte of a session is accounted for: what was
/// filled at the start, followed by what arrived, is what left, followed
/// by what is still filled. No byte is lost, repeated, moved or altered.
pub proof fn lemma_history_accounts_for_every_byte<H>(
    sessions: Seq<SessionModel<H>>,
    commands: Seq<Command<H>>,
    index: usize,
)
    requires
        valid_index(sessions, index),
    ensures
        valid_index(run(sessions, commands), index),
        sessions[index as int].filled + emitted(commands, index) == taken(
            sessions,
            commands,
            index,
        ) + run(sessions, commands)[index as int].filled,
    decreases commands.len(),
{
    let start = sessions[index as int].filled;
    if commands.len() == 0 {
        assert(start + emitted(commands, index) =~= taken(sessions, commands, index) + start);
    } else {
        let earlier = commands.drop_last();
        let before = run(sessions, earlier);
        lemma_history_accounts_for_every_byte(sessions, earlier, index);
        lemma_step_keeps_sessions(before, commands.last(), index);
        let held = before[index as int].filled;
        let after = run(sessions, commands)[index as int].filled;
        assert(start + emitted(earlier, index) == taken(sessions, earlier, index) + held);
        match commands.last() {
            Command::Fill { index: at, bytes } => {
                if at == index {
                    assert(after == held + bytes);
                    assert(start + (emitted(earlier, index) + bytes) =~= (start + emitted(
                        earlier,
                        index,
                    )) + bytes);
                    assert((taken(sessions, earlier, index) + held) + bytes =~= taken(
                        sessions,
                        earlier,
                        index,
                    ) + (held + bytes));
                } else {
                    assert(after == held);
                }
            },
            Command::Read { index: at } => {
                if at == index {
                    lemma_read_conserves_bytes(held);
                    assert(after == remainder(held));
                    assert((taken(sessions, earlier, index) + delivered(decode(held))) + remainder(
                        held,
                    ) =~= taken(sessions, earlier, index) + (delivered(decode(held)) + remainder(
                        held,
                    )));
                } else {
                    assert(after == held);
                }
            },
            Command::Discard { index: at } => {
                if at == index {
                    assert(after == Seq::<u8>::empty());
                    assert((taken(sessions, earlier, index) + held) + Seq::<u8>::empty()
                        =~= taken(sessions, earlier, index) + held);
                } else {
                    assert(after == held);
                }
            },
            _ => {
                assert(after == held);
            },
        }
        assert(start + emitted(commands, index) =~= taken(sessions, commands, index) + after);
    }
}

/// While nothing is thrown away, what left a session is valid text: the
/// text of its reads, one after the other, and the bytes of that text.
pub proof fn lemma_reads_hand_out_what_left<H>(
    sessions: Seq<SessionModel<H>>,
    commands: Seq<Command<H>>,
    index: usize,
)
    requires
        valid_index(sessions, index),
        discards_nothing(commands, index),
    ensures
        valid_utf8(taken(sessions, commands, index)),
        decode_utf8(taken(sessions, commands, index)) == texts(sessions, commands, index),
        encode_utf8(texts(sessions, commands, index)) == taken(sessions, commands, index),
    decreases commands.len(),
{
    if commands.len() > 0 {
        let earlier = commands.drop_last();
        assert(discards_nothing(earlier, index)) by {
            assert forall|i: int| 0 <= i < earlier.len() implies !(
            #[trigger] earlier[i] matches Command::Discard { index: at } && at == index) by {
                assert(earlier[i] == commands[i]);
            }
        }
        lemma_reads_hand_out_what_left(sessions, earlier, index);
        let left = taken(sessions, earlier, index);
        let held = run(sessions, earlier)[index as int].filled;
        assert(!(commands[commands.len() - 1] matches Command::Discard { index: at } && at
            == index));
        let piece = taken(sessions, commands, index).subrange(
            left.len() as int,
            taken(sessions, commands, index).len() as int,
        );
        assert(taken(sessions, commands, index) =~= left + piece);
        let said = texts(sessions, commands, index).subrange(
            texts(sessions, earlier, index).len() as int,
            texts(sessions, commands, index).len() as int,
        );
        assert(texts(sessions, commands, index) =~= texts(sessions, earlier, index) + said);
        assert(valid_utf8(piece) && decode_utf8(piece) == said) by {
            match commands.last() {
                Command::Read { index: at } => {
                    if at == index && valid_utf8(held) && held.len() > 0 {
                        vstd::utf8::decode_utf8_encode_utf8(held);
                        assert(piece =~= held);
                        assert(said =~= decode_utf8(held));
                    } else {
                        assert(piece =~= Seq::<u8>::empty());
                        assert(said =~= Seq::<char>::empty());
                    }
                },
                _ => {
                    assert(piece =~= Seq::<u8>::empty());
                    assert(said =~= Seq::<char>::empty());
                },
            }
        }
        vstd::utf8::valid_utf8_concat(left, piece);
        lemma_text_after_text(left, piece);
        vstd::utf8::decode_utf8_encode_utf8(left + piece);
    }
}

/// Bytes that make up a valid text are read as that text, in however many
/// fills they arrive and whenever the session is read in between: the texts
/// of the reads, one after the other, are a beginning of the text, what is
/// still filled is the rest of it, and one more read hands that out.
pub proof fn lemma_history_loses_nothing<H>(
    sessions: Seq<SessionModel<H>>,
    commands: Seq<Command<H>>,
    index: usize,
)
    requires
        valid_index(sessions, index),
        sessions[index as int].filled.len() == 0,
        discards_nothing(commands, index),
        valid_utf8(emitted(commands, index)),
    ensures
        ({
            let now = run(sessions, commands);
            &&& valid_index(now, index)
            &&& valid_utf8(now[index as int].filled)
            &&& decode_utf8(emitted(commands, index)) == texts(sessions, commands, index)
                + decode_utf8(now[index as int].filled)
            &&& after_read(now, index)[index as int].filled.len() == 0
            &&& texts(sessions, commands.push(Command::Read { index }), index) == decode_utf8(
                emitted(commands, index),
            )
        }),
{
    let now = run(sessions, commands);
    let left = taken(sessions, commands, index);
    let held = now[index as int].filled;
    lemma_history_accounts_for_every_byte(sessions, commands, index);
    lemma_reads_hand_out_what_left(sessions, commands, index);
    assert(sessions[index as int].filled + emitted(commands, index) =~= emitted(commands, index));
    assert(emitted(commands, index) == left + held);
    lemma_text_after_text(left, held);
    assert(remainder(held) =~= Seq::<u8>::empty());
    let more = commands.push(Command::Read { index });
    assert(more.drop_last() =~= commands);
    assert(more.last() == Command::<H>::Read { index });
    if held.len() == 0 {
        assert(decode_utf8(held) =~= Seq::<char>::empty());
        assert(texts(sessions, more, index) =~= texts(sessions, commands, index));
    }
}

} // verus!
