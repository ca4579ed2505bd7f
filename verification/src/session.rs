//! One session: a pseudo-terminal handle with what the registry knows of it.

use crate::decode::{decode, decode_chunk, remainder, reply_is, Decoded};
use crate::error::SessionError;
use crate::geometry::{cell_geometry, initial_geometry, Geometry};
use vstd::prelude::*;

verus! {

/// How a command comes by the writer or the reader of a master side.
#[derive(Debug, Clone, Copy, PartialEq, Eq, Structural)]
pub enum StreamUse {
    /// None is outstanding: open one, and report that it was opened.
    Open,
    /// One is outstanding: use it again.
    Reuse,
}

/// A session as contracts see it.
pub struct SessionModel<H> {
    /// The pseudo-terminal pair, as the caller holds it.
    pub handle: H,
    pub geometry: Geometry,
    /// Whether a shell was started on the slave side.
    pub shell_attached: bool,
    /// Whether a writer over the master side is outstanding.
    pub writer_open: bool,
    /// Whether a reader over the master side is outstanding.
    pub reader_open: bool,
    /// The bytes filled from the master side and not yet consumed.
    pub filled: Seq<u8>,
}

impl<H> SessionModel<H> {
    /// A session right after allocation.
    pub open spec fn fresh(handle: H) -> Self {
        SessionModel {
            handle,
            geometry: initial_geometry(),
            shell_attached: false,
            writer_open: false,
            reader_open: false,
            filled: Seq::empty(),
        }
    }

    pub open spec fn with_handle(self, handle: H) -> Self {
        SessionModel { handle, ..self }
    }

    pub open spec fn with_shell(self) -> Self {
        SessionModel { shell_attached: true, ..self }
    }

    pub open spec fn with_writer(self) -> Self {
        SessionModel { writer_open: true, ..self }
    }

    pub open spec fn with_reader(self) -> Self {
        SessionModel { reader_open: true, ..self }
    }

    pub open spec fn writer_use(self) -> StreamUse {
        if self.writer_open {
            StreamUse::Reuse
        } else {
            StreamUse::Open
        }
    }

    pub open spec fn reader_use(self) -> StreamUse {
        if self.reader_open {
            StreamUse::Reuse
        } else {
            StreamUse::Open
        }
    }

    /// The session after `bytes` were filled: they follow what was there.
    pub open spec fn fill(self, bytes: Seq<u8>) -> Self {
        SessionModel { filled: self.filled + bytes, ..self }
    }

    /// What a read of the session finds.
    pub open spec fn read_reply(self) -> Decoded {
        decode(self.filled)
    }

    /// The session after a read: what the read consumed is gone.
    pub open spec fn after_read(self) -> Self {
        SessionModel { filled: remainder(self.filled), ..self }
    }

    /// The session after what was filled was thrown away.
    pub open spec fn discarded(self) -> Self {
        SessionModel { filled: Seq::empty(), ..self }
    }

    /// The session after a resize to `rows` by `cols` was applied.
    pub open spec fn resized(self, rows: u16, cols: u16) -> Self {
        SessionModel { geometry: cell_geometry(rows, cols), ..self }
    }
}

/// One pseudo-terminal session. `H` is the caller's handle on the
/// pseudo-terminal pair; the session carries it and never looks inside.
pub struct Session<H> {
    handle: H,
    geometry: Geometry,
    shell_attached: bool,
    writer_open: bool,
    reader_open: bool,
    filled: Vec<u8>,
}

impl<H> View for Session<H> {
    type V = SessionModel<H>;

    closed spec fn view(&self) -> SessionModel<H> {
        SessionModel {
            handle: self.handle,
            geometry: self.geometry,
            shell_attached: self.shell_attached,
            writer_open: self.writer_open,
            reader_open: self.reader_open,
            filled: self.filled@,
        }
    }
}

impl<H> Session<H> {
    /// A new session around `handle`, 24 rows by 80 columns, with no shell,
    /// no stream and nothing filled.
    pub fn new(handle: H) -> (session: Session<H>)
        ensures
            session@ == SessionModel::fresh(handle),
    {
        Session {
            handle,
            geometry: Geometry::initial(),
            shell_attached: false,
            writer_open: false,
            reader_open: false,
            filled: Vec::new(),
        }
    }

    pub fn handle(&self) -> (handle: &H)
        ensures
            *handle == self@.handle,
    {
        &self.handle
    }

    /// The handle, to work on; the rest of the session stays as it is.
    pub fn handle_mut(&mut self) -> (handle: &mut H)
        ensures
            *handle == old(self)@.handle,
            final(self)@ == old(self)@.with_handle(*final(handle)),
    {
        &mut self.handle
    }

    pub fn geometry(&self) -> (geometry: Geometry)
        ensures
            geometry == self@.geometry,
    {
        self.geometry
    }

    pub fn shell_attached(&self) -> (attached: bool)
        ensures
            attached == self@.shell_attached,
    {
        self.shell_attached
    }

    /// How many bytes are filled and not yet consumed.
    pub fn filled_len(&self) -> (len: usize)
        ensures
            len == self@.filled.len(),
    {
        self.filled.len()
    }

    /// Records that a shell was started on the slave side.
    pub fn attach_shell(&mut self)
        ensures
            final(self)@ == old(self)@.with_shell(),
    {
        self.shell_attached = true;
    }

    /// Whether a write must open the writer or has one to use again.
    pub fn writer_use(&self) -> (stream: StreamUse)
        ensures
            stream == self@.writer_use(),
    {
        if self.writer_open {
            StreamUse::Reuse
        } else {
            StreamUse::Open
        }
    }

    /// Records that the writer was opened.
    pub fn writer_opened(&mut self)
        ensures
            final(self)@ == old(self)@.with_writer(),
    {
        self.writer_open = true;
    }

    /// Whether a read must open the reader or has one to use again.
    pub fn reader_use(&self) -> (stream: StreamUse)
        ensures
            stream == self@.reader_use(),
    {
        if self.reader_open {
            StreamUse::Reuse
        } else {
            StreamUse::Open
        }
    }

    /// Records that the reader was opened.
    pub fn reader_opened(&mut self)
        ensures
            final(self)@ == old(self)@.with_reader(),
    {
        self.reader_open = true;
    }

    /// Takes in bytes that arrived from the master side, behind those that
    /// are filled already. Nothing is consumed.
    pub fn fill(&mut self, bytes: &[u8])
        ensures
            final(self)@ == old(self)@.fill(bytes@),
    {
        let mut i: usize = 0;
        while i < bytes.len()
            invariant
                i <= bytes.len(),
                self@ == old(self)@.fill(bytes@.subrange(0, i as int)),
            decreases bytes.len() - i,
        {
            self.filled.push(bytes[i]);
            proof {
                assert(bytes@.subrange(0, i + 1) == bytes@.subrange(0, i as int).push(
                    bytes@[i as int],
                ));
                assert(self@.filled == old(self)@.filled + bytes@.subrange(0, i + 1));
            }
            i += 1;
        }
        proof {
            assert(bytes@.subrange(0, i as int) == bytes@);
        }
    }

    /// Decodes what is filled. With nothing filled there is no data and
    /// nothing changes. Filled bytes that are valid UTF-8 come back as text
    /// and are consumed. Any others give `DecodeFailed` and stay filled.
    pub fn read(&mut self) -> (reply: Result<Option<String>, SessionError>)
        ensures
            reply_is(reply, old(self)@.read_reply()),
            final(self)@ == old(self)@.after_read(),
    {
        let reply = decode_chunk(self.filled.as_slice());
        match &reply {
            Ok(Some(_)) => {
                self.filled.clear();
            },
            _ => {},
        }
        proof {
            assert(self@.filled == remainder(old(self)@.filled));
        }
        reply
    }

    /// Throws away what is filled, text or not, and says how many bytes
    /// that was. This is the way out for a session whose filled bytes can
    /// never be decoded: the next fill starts afresh.
    pub fn discard_filled(&mut self) -> (dropped: usize)
        ensures
            dropped == old(self)@.filled.len(),
            final(self)@ == old(self)@.discarded(),
    {
        let dropped = self.filled.len();
        self.filled.clear();
        dropped
    }

    /// Records the geometry that a resize to `rows` by `cols` gave the
    /// session.
    pub fn set_cells(&mut self, rows: u16, cols: u16)
        ensures
            final(self)@ == old(self)@.resized(rows, cols),
    {
        self.geometry = Geometry::with_cells(rows, cols);
    }
}

} // verus!
