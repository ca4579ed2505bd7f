//! The session registry: an append-only sequence of sessions, each found by
//! the index it was given when it was allocated.
//!
//! Every command is split around the call into the operating system. What
//! comes before decides whether the index is valid and what to ask for;
//! what comes after takes the outcome and says what the command replies.
//! An index that names no session is answered with `InvalidIndex`, by every
//! function, and leaves the registry as it was.

use crate::decode::{reply_is, text_bytes};
use crate::error::SessionError;
use crate::geometry::{cell_geometry, Geometry};
use crate::session::{Session, SessionModel, StreamUse};
use crate::shell::{shell_program, shell_term, Platform, ShellCommand, SHELL_ATTACHED};
use vstd::prelude::*;
use vstd::utf8::encode_utf8;

verus! {

/// What a write sends, and how it comes by the writer.
pub struct WritePlan {
    pub stream: StreamUse,
    pub bytes: Vec<u8>,
}

/// The sessions of an application, in the order of their allocation.
pub struct SessionRegistry<H> {
    sessions: Vec<Session<H>>,
}

impl<H> View for SessionRegistry<H> {
    type V = Seq<SessionModel<H>>;

    closed spec fn view(&self) -> Seq<SessionModel<H>> {
        self.sessions@.map_values(|session: Session<H>| session@)
    }
}

/// Whether `index` names a session among `sessions`.
pub open spec fn valid_index<H>(sessions: Seq<SessionModel<H>>, index: usize) -> bool {
    index < sessions.len()
}

/// The reply to a command whose index names no session.
pub open spec fn invalid_index<T>(reply: Result<T, SessionError>) -> bool {
    reply matches Err(error) && error == SessionError::InvalidIndex
}

/// The sessions after an allocation: a pair that was opened becomes a fresh
/// session behind all others; without one nothing changes.
pub open spec fn after_allocate<H>(sessions: Seq<SessionModel<H>>, opened: Option<H>) -> Seq<
    SessionModel<H>,
> {
    match opened {
        Some(handle) => sessions.push(SessionModel::fresh(handle)),
        None => sessions,
    }
}

/// The reply to an allocation: the number of sessions before it, or
/// `AllocationFailed` where no pair was opened.
pub open spec fn allocate_reply<H>(sessions: Seq<SessionModel<H>>, opened: Option<H>) -> Result<
    usize,
    SessionError,
> {
    match opened {
        Some(_) => Ok(sessions.len() as usize),
        None => Err(SessionError::AllocationFailed),
    }
}

/// The sessions after the caller worked on the handle of session `index`
/// and left it as `handle`.
pub open spec fn after_handle<H>(sessions: Seq<SessionModel<H>>, index: usize, handle: H) -> Seq<
    SessionModel<H>,
> {
    if valid_index(sessions, index) {
        sessions.update(index as int, sessions[index as int].with_handle(handle))
    } else {
        sessions
    }
}

/// The sessions after a resize of session `index` was attempted.
pub open spec fn after_resize<H>(
    sessions: Seq<SessionModel<H>>,
    index: usize,
    rows: u16,
    cols: u16,
    applied: bool,
) -> Seq<SessionModel<H>> {
    if valid_index(sessions, index) && applied {
        sessions.update(index as int, sessions[index as int].resized(rows, cols))
    } else {
        sessions
    }
}

/// The sessions after `bytes` were filled into session `index`.
pub open spec fn after_fill<H>(sessions: Seq<SessionModel<H>>, index: usize, bytes: Seq<u8>) -> Seq<
    SessionModel<H>,
> {
    if valid_index(sessions, index) {
        sessions.update(index as int, sessions[index as int].fill(bytes))
    } else {
        sessions
    }
}

/// The sessions after a read of session `index`.
pub open spec fn after_read<H>(sessions: Seq<SessionModel<H>>, index: usize) -> Seq<
    SessionModel<H>,
> {
    if valid_index(sessions, index) {
        sessions.update(index as int, sessions[index as int].after_read())
    } else {
        sessions
    }
}

/// The reply of a command that only records a fact about session `index`.
pub open spec fn record_reply<H>(sessions: Seq<SessionModel<H>>, index: usize) -> Result<
    (),
    SessionError,
> {
    if valid_index(sessions, index) {
        Ok(())
    } else {
        Err(SessionError::InvalidIndex)
    }
}

/// The reply of a command on session `index` once the operating system has
/// done its part, or has failed with `failure`.
pub open spec fn outcome_reply<H>(
    sessions: Seq<SessionModel<H>>,
    index: usize,
    done: bool,
    failure: SessionError,
) -> Result<(), SessionError> {
    if !valid_index(sessions, index) {
        Err(SessionError::InvalidIndex)
    } else if done {
        Ok(())
    } else {
        Err(failure)
    }
}

/// Whether a shell may be started on session `index`: there is such a
/// session, and it has no shell yet.
pub open spec fn may_plan_shell<H>(sessions: Seq<SessionModel<H>>, index: usize) -> bool {
    valid_index(sessions, index) && !sessions[index as int].shell_attached
}

/// The sessions after what was filled into session `index` was thrown away.
pub open spec fn after_discard<H>(sessions: Seq<SessionModel<H>>, index: usize) -> Seq<
    SessionModel<H>,
> {
    if valid_index(sessions, index) {
        sessions.update(index as int, sessions[index as int].discarded())
    } else {
        sessions
    }
}

/// The reply to throwing away what was filled into session `index`: the
/// number of bytes that were filled.
pub open spec fn discard_reply<H>(sessions: Seq<SessionModel<H>>, index: usize) -> Result<
    usize,
    SessionError,
> {
    if valid_index(sessions, index) {
        Ok(sessions[index as int].filled.len() as usize)
    } else {
        Err(SessionError::InvalidIndex)
    }
}

/// The reply to starting a shell on session `index`, given what the spawn
/// came to.
pub open spec fn shell_reply<H>(
    sessions: Seq<SessionModel<H>>,
    index: usize,
    spawned: Result<(), String>,
) -> Result<(), SessionError> {
    if !valid_index(sessions, index) {
        Err(SessionError::InvalidIndex)
    } else {
        match spawned {
            Ok(_) => Ok(()),
            Err(message) => Err(SessionError::SpawnFailed(message)),
        }
    }
}

/// The sessions after a spawn on session `index` came to `spawned`.
pub open spec fn after_shell<H>(
    sessions: Seq<SessionModel<H>>,
    index: usize,
    spawned: Result<(), String>,
) -> Seq<SessionModel<H>> {
    if valid_index(sessions, index) && spawned is Ok {
        sessions.update(index as int, sessions[index as int].with_shell())
    } else {
        sessions
    }
}

/// The sessions after the writer of session `index` was opened.
pub open spec fn after_writer_opened<H>(sessions: Seq<SessionModel<H>>, index: usize) -> Seq<
    SessionModel<H>,
> {
    if valid_index(sessions, index) {
        sessions.update(index as int, sessions[index as int].with_writer())
    } else {
        sessions
    }
}

/// The sessions after the reader of session `index` was opened.
pub open spec fn after_reader_opened<H>(sessions: Seq<SessionModel<H>>, index: usize) -> Seq<
    SessionModel<H>,
> {
    if valid_index(sessions, index) {
        sessions.update(index as int, sessions[index as int].with_reader())
    } else {
        sessions
    }
}

impl<H> SessionRegistry<H> {
    /// A registry without sessions.
    pub fn new() -> (registry: SessionRegistry<H>)
        ensures
            registry@ == Seq::<SessionModel<H>>::empty(),
    {
        SessionRegistry { sessions: Vec::new() }
    }

    /// The number of sessions, which is also the next index to be given out.
    pub fn len(&self) -> (len: usize)
        ensures
            len == self@.len(),
    {
        self.sessions.len()
    }

    pub fn is_empty(&self) -> (empty: bool)
        ensures
            empty == (self@.len() == 0),
    {
        self.sessions.len() == 0
    }

    /// Takes in the outcome of opening a pseudo-terminal pair with the
    /// initial geometry. A pair that was opened becomes a new session, and
    /// its index, the number of sessions before it, is returned. `None`
    /// says that the operating system gave no pair: `AllocationFailed`.
    pub fn allocate(&mut self, opened: Option<H>) -> (reply: Result<usize, SessionError>)
        ensures
            reply == allocate_reply(old(self)@, opened),
            final(self)@ == after_allocate(old(self)@, opened),
    {
        match opened {
            Some(handle) => {
                let index = self.sessions.len();
                self.sessions.push(Session::new(handle));
                proof {
                    assert(self@ == old(self)@.push(SessionModel::fresh(handle)));
                }
                Ok(index)
            },
            None => Err(SessionError::AllocationFailed),
        }
    }

    /// Resolves an index to its session.
    pub fn get(&self, index: usize) -> (reply: Result<&Session<H>, SessionError>)
        ensures
            valid_index(self@, index) ==> (reply matches Ok(session) && session@
                == self@[index as int]),
            !valid_index(self@, index) ==> invalid_index(reply),
    {
        if index < self.sessions.len() {
            Ok(&self.sessions[index])
        } else {
            Err(SessionError::InvalidIndex)
        }
    }

    /// The pseudo-terminal handle of session `index`.
    pub fn handle(&self, index: usize) -> (reply: Result<&H, SessionError>)
        ensures
            valid_index(self@, index) ==> (reply matches Ok(handle) && *handle
                == self@[index as int].handle),
            !valid_index(self@, index) ==> invalid_index(reply),
    {
        if index < self.sessions.len() {
            Ok(self.sessions[index].handle())
        } else {
            Err(SessionError::InvalidIndex)
        }
    }

    /// The geometry of session `index`, as the last applied resize left it.
    pub fn geometry(&self, index: usize) -> (reply: Result<Geometry, SessionError>)
        ensures
            valid_index(self@, index) ==> reply == Ok::<Geometry, SessionError>(
                self@[index as int].geometry,
            ),
            !valid_index(self@, index) ==> invalid_index(reply),
    {
        if index < self.sessions.len() {
            Ok(self.sessions[index].geometry())
        } else {
            Err(SessionError::InvalidIndex)
        }
    }

    /// Session `index`, to change it.
    fn session_mut(&mut self, index: usize) -> (session: &mut Session<H>)
        requires
            valid_index(old(self)@, index),
        ensures
            session@ == old(self)@[index as int],
            final(self)@ == old(self)@.update(index as int, final(session)@),
    {
        &mut self.sessions[index]
    }

    /// The pseudo-terminal handle of session `index`, to work on. Whatever
    /// is done to the handle, the rest of the registry stays as it is.
    pub fn handle_mut(&mut self, index: usize) -> (reply: Result<&mut H, SessionError>)
        ensures
            valid_index(old(self)@, index) ==> (reply matches Ok(handle) && *handle == old(
                self,
            )@[index as int].handle && final(self)@ == after_handle(
                old(self)@,
                index,
                *final(handle),
            )),
            !valid_index(old(self)@, index) ==> invalid_index(reply) && final(self)@ == old(
                self,
            )@,
    {
        if index < self.sessions.len() {
            Ok(self.session_mut(index).handle_mut())
        } else {
            Err(SessionError::InvalidIndex)
        }
    }

    /// Before a shell is started on session `index`: the command to spawn
    /// on its slave side, the default shell of `platform` with its terminal
    /// type. A session has one shell at most: for one that has a shell
    /// already the reply is `SpawnFailed`, with `SHELL_ATTACHED` as its
    /// message, and nothing is to be spawned.
    pub fn plan_shell(&self, index: usize, platform: Platform) -> (reply: Result<
        ShellCommand,
        SessionError,
    >)
        ensures
            may_plan_shell(self@, index) ==> (reply matches Ok(command) && command.program@
                == shell_program(platform) && command.term@ == shell_term(platform)),
            valid_index(self@, index) && !may_plan_shell(self@, index) ==> (reply matches Err(
                SessionError::SpawnFailed(message),
            ) && message@ == SHELL_ATTACHED@),
            !valid_index(self@, index) ==> invalid_index(reply),
    {
        if index >= self.sessions.len() {
            Err(SessionError::InvalidIndex)
        } else if self.sessions[index].shell_attached() {
            Err(SessionError::SpawnFailed(SHELL_ATTACHED.to_owned()))
        } else {
            Ok(ShellCommand::for_platform(platform))
        }
    }

    /// After the spawn on session `index`: a shell that started is recorded
    /// as attached; one that did not gives `SpawnFailed` with the operating
    /// system's message, and the session stays as it was.
    pub fn finish_shell(&mut self, index: usize, spawned: Result<(), String>) -> (reply: Result<
        (),
        SessionError,
    >)
        ensures
            reply == shell_reply(old(self)@, index, spawned),
            final(self)@ == after_shell(old(self)@, index, spawned),
    {
        if index >= self.sessions.len() {
            return Err(SessionError::InvalidIndex);
        }
        match spawned {
            Ok(_) => {
                self.session_mut(index).attach_shell();
                Ok(())
            },
            Err(message) => Err(SessionError::SpawnFailed(message)),
        }
    }

    /// Before a write to session `index`: the bytes to send, which are the
    /// UTF-8 encoding of `text` in one piece, and whether the writer has to
    /// be opened first.
    pub fn plan_write(&self, index: usize, text: &str) -> (reply: Result<WritePlan, SessionError>)
        ensures
            valid_index(self@, index) ==> (reply matches Ok(plan) && plan.bytes@ == encode_utf8(
                text@,
            ) && plan.stream == self@[index as int].writer_use()),
            !valid_index(self@, index) ==> invalid_index(reply),
    {
        if index < self.sessions.len() {
            Ok(WritePlan { stream: self.sessions[index].writer_use(), bytes: text_bytes(text) })
        } else {
            Err(SessionError::InvalidIndex)
        }
    }

    /// Records that the writer of session `index` was opened: from now on
    /// every write reuses it.
    pub fn writer_opened(&mut self, index: usize) -> (reply: Result<(), SessionError>)
        ensures
            reply == record_reply(old(self)@, index),
            final(self)@ == after_writer_opened(old(self)@, index),
    {
        if index >= self.sessions.len() {
            return Err(SessionError::InvalidIndex);
        }
        self.session_mut(index).writer_opened();
        Ok(())
    }

    /// After a write to session `index`: `IOFailed` unless all was written.
    pub fn finish_write(&self, index: usize, written: bool) -> (reply: Result<(), SessionError>)
        ensures
            reply == outcome_reply(self@, index, written, SessionError::IOFailed),
    {
        if index >= self.sessions.len() {
            Err(SessionError::InvalidIndex)
        } else if written {
            Ok(())
        } else {
            Err(SessionError::IOFailed)
        }
    }

    /// Before a read of session `index`: whether the reader has to be
    /// opened first.
    pub fn plan_read(&self, index: usize) -> (reply: Result<StreamUse, SessionError>)
        ensures
            valid_index(self@, index) ==> reply == Ok::<StreamUse, SessionError>(
                self@[index as int].reader_use(),
            ),
            !valid_index(self@, index) ==> invalid_index(reply),
    {
        if index < self.sessions.len() {
            Ok(self.sessions[index].reader_use())
        } else {
            Err(SessionError::InvalidIndex)
        }
    }

    /// Records that the reader of session `index` was opened: from now on
    /// every read reuses it.
    pub fn reader_opened(&mut self, index: usize) -> (reply: Result<(), SessionError>)
        ensures
            reply == record_reply(old(self)@, index),
            final(self)@ == after_reader_opened(old(self)@, index),
    {
        if index >= self.sessions.len() {
            return Err(SessionError::InvalidIndex);
        }
        self.session_mut(index).reader_opened();
        Ok(())
    }

    /// Takes in what a fill from the master side of session `index` gave:
    /// the bytes that arrived, or `None` where the fill failed, which is
    /// `IOFailed`. Bytes that arrived are kept behind those filled before,
    /// and nothing is consumed.
    pub fn fill(&mut self, index: usize, incoming: Option<&[u8]>) -> (reply: Result<
        (),
        SessionError,
    >)
        ensures
            reply == outcome_reply(old(self)@, index, incoming is Some, SessionError::IOFailed),
            final(self)@ == (match incoming {
                Some(bytes) => after_fill(old(self)@, index, bytes@),
                None => old(self)@,
            }),
    {
        if index >= self.sessions.len() {
            return Err(SessionError::InvalidIndex);
        }
        match incoming {
            Some(bytes) => {
                self.session_mut(index).fill(bytes);
                Ok(())
            },
            None => Err(SessionError::IOFailed),
        }
    }

    /// Reads session `index`: no data while nothing is filled; the text of
    /// what is filled, which is then consumed, where it is valid UTF-8;
    /// `DecodeFailed` where it is not, with nothing consumed.
    pub fn read(&mut self, index: usize) -> (reply: Result<Option<String>, SessionError>)
        ensures
            valid_index(old(self)@, index) ==> reply_is(
                reply,
                old(self)@[index as int].read_reply(),
            ),
            !valid_index(old(self)@, index) ==> invalid_index(reply),
            final(self)@ == after_read(old(self)@, index),
    {
        if index >= self.sessions.len() {
            return Err(SessionError::InvalidIndex);
        }
        self.session_mut(index).read()
    }

    /// Throws away what is filled into session `index`, text or not, and
    /// says how many bytes that was. Bytes that can never be decoded keep
    /// every read of the session at `DecodeFailed`; after this the session
    /// reads again what is filled from then on.
    pub fn discard(&mut self, index: usize) -> (reply: Result<usize, SessionError>)
        ensures
            reply == discard_reply(old(self)@, index),
            final(self)@ == after_discard(old(self)@, index),
    {
        if index >= self.sessions.len() {
            return Err(SessionError::InvalidIndex);
        }
        Ok(self.session_mut(index).discard_filled())
    }

    /// Before a resize of session `index`: the geometry to ask the
    /// operating system for.
    pub fn plan_resize(&self, index: usize, rows: u16, cols: u16) -> (reply: Result<
        Geometry,
        SessionError,
    >)
        ensures
            valid_index(self@, index) ==> reply == Ok::<Geometry, SessionError>(
                cell_geometry(rows, cols),
            ),
            !valid_index(self@, index) ==> invalid_index(reply),
    {
        if index < self.sessions.len() {
            Ok(Geometry::with_cells(rows, cols))
        } else {
            Err(SessionError::InvalidIndex)
        }
    }

    /// After a resize of session `index`: a geometry that was applied is
    /// stored; one that was refused gives `ResizeFailed`, and the stored
    /// geometry stays.
    pub fn finish_resize(&mut self, index: usize, rows: u16, cols: u16, applied: bool) -> (reply:
        Result<(), SessionError>)
        ensures
            reply == outcome_reply(old(self)@, index, applied, SessionError::ResizeFailed),
            final(self)@ == after_resize(old(self)@, index, rows, cols, applied),
    {
        if index >= self.sessions.len() {
            return Err(SessionError::InvalidIndex);
        }
        if applied {
            self.session_mut(index).set_cells(rows, cols);
            Ok(())
        } else {
            Err(SessionError::ResizeFailed)
        }
    }
}

} // verus!
