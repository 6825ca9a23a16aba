//! The session state machine run by the single background flash writer.
//!
//! One long-lived worker owns the flash-write handle and consumes commands
//! strictly in order.  A `Start` opens a fresh target (discarding any open
//! one), a `Chunk` appends to the open target and releases the backpressure
//! gate, and a `Finish` seals the target as the bootable image and restarts
//! the device.  A `Chunk` or `Finish` with no session open kills the worker
//! for good: no later command is consumed until a full device restart.

use vstd::prelude::*;

verus! {

/// A command for the background writer, sent over the ordered channel.
pub enum UpdateCommand {
    /// Open a fresh flash target.
    Start,
    /// Append these bytes to the open target.
    Chunk(Vec<u8>),
    /// Seal the open target as the bootable image and restart.
    Finish,
}

/// The mathematical form of a command.
#[verifier::ext_equal]
pub enum CommandModel {
    Start,
    Chunk(Seq<u8>),
    Finish,
}

impl View for UpdateCommand {
    type V = CommandModel;

    open spec fn view(&self) -> CommandModel {
        match self {
            UpdateCommand::Start => CommandModel::Start,
            UpdateCommand::Chunk(payload) => CommandModel::Chunk(payload@),
            UpdateCommand::Finish => CommandModel::Finish,
        }
    }
}

/// Where the writer stands in the life of an update session.
#[derive(Clone, Copy, PartialEq, Eq, Structural, Debug)]
pub enum WriterPhase {
    /// No session open: awaiting `Start`.
    Idle,
    /// A flash target is open: awaiting `Chunk`, `Finish` or `Start`.
    Active,
    /// The image was sealed and the device restarts: terminal.
    Completed,
    /// The worker hit a command it cannot serve and exited: terminal.
    Dead,
}

/// The mathematical form of the writer: its phase, the bytes written to the
/// open target so far, and the sealed image once `Finish` lands.
#[verifier::ext_equal]
pub struct WriterModel {
    pub phase: WriterPhase,
    pub target: Seq<u8>,
    pub image: Option<Seq<u8>>,
}

/// A writer that has consumed nothing: idle, empty target, no image.
pub open spec fn fresh_writer() -> WriterModel {
    WriterModel { phase: WriterPhase::Idle, target: Seq::empty(), image: None }
}

/// One step of the state machine: what consuming `c` in state `w` leaves.
///
/// The terminal phases absorb everything: a completed writer has restarted
/// the device and a dead worker reads no further command.
pub open spec fn writer_step(w: WriterModel, c: CommandModel) -> WriterModel {
    match w.phase {
        WriterPhase::Idle => match c {
            CommandModel::Start => WriterModel {
                phase: WriterPhase::Active,
                target: Seq::empty(),
                image: w.image,
            },
            _ => WriterModel { phase: WriterPhase::Dead, target: w.target, image: w.image },
        },
        WriterPhase::Active => match c {
            CommandModel::Chunk(payload) => WriterModel {
                phase: WriterPhase::Active,
                target: w.target + payload,
                image: w.image,
            },
            CommandModel::Finish => WriterModel {
                phase: WriterPhase::Completed,
                target: w.target,
                image: Some(w.target),
            },
            CommandModel::Start => WriterModel {
                phase: WriterPhase::Idle,
                target: Seq::empty(),
                image: w.image,
            },
        },
        WriterPhase::Completed => w,
        WriterPhase::Dead => w,
    }
}

/// Consuming `c` in state `w` writes a chunk and releases the backpressure
/// gate: only an open session serving a `Chunk` does.
pub open spec fn writer_acks(w: WriterModel, c: CommandModel) -> bool {
    w.phase == WriterPhase::Active && c is Chunk
}

/// The state machine run over a whole command sequence.
pub open spec fn writer_run(w: WriterModel, cmds: Seq<CommandModel>) -> WriterModel
    decreases cmds.len(),
{
    if cmds.len() == 0 {
        w
    } else {
        writer_run(writer_step(w, cmds[0]), cmds.drop_first())
    }
}

/// The writer itself.  The in-memory target stands for the open flash
/// region; the surrounding program maps a sealed image to "mark bootable
/// and restart" and a dead worker to a thread that has exited.
pub struct UpdateWriter {
    phase: WriterPhase,
    target: Vec<u8>,
    image: Option<Vec<u8>>,
}

impl View for UpdateWriter {
    type V = WriterModel;

    closed spec fn view(&self) -> WriterModel {
        WriterModel {
            phase: self.phase,
            target: self.target@,
            image: match self.image {
                None => None,
                Some(v) => Some(v@),
            },
        }
    }
}

impl UpdateWriter {
    /// A writer that has consumed nothing.
    pub fn new() -> (w: UpdateWriter)
        ensures
            w@ == fresh_writer(),
    {
        let w = UpdateWriter { phase: WriterPhase::Idle, target: Vec::new(), image: None };
        assert(w@ =~= fresh_writer());
        w
    }

    /// Consumes one command, exactly as [`writer_step`] describes, and
    /// reports whether a chunk was written and acknowledged — the one event
    /// that releases the backpressure gate.
    pub fn apply(&mut self, cmd: UpdateCommand) -> (acked: bool)
        ensures
            final(self)@ == writer_step(old(self)@, cmd@),
            acked == writer_acks(old(self)@, cmd@),
    {
        match self.phase {
            WriterPhase::Idle => match cmd {
                UpdateCommand::Start => {
                    self.phase = WriterPhase::Active;
                    self.target = Vec::new();
                    assert(final(self)@ =~= writer_step(old(self)@, cmd@));
                    false
                },
                _ => {
                    self.phase = WriterPhase::Dead;
                    assert(final(self)@ =~= writer_step(old(self)@, cmd@));
                    false
                },
            },
            WriterPhase::Active => match cmd {
                UpdateCommand::Chunk(mut payload) => {
                    self.target.append(&mut payload);
                    assert(final(self)@ =~= writer_step(old(self)@, cmd@));
                    true
                },
                UpdateCommand::Finish => {
                    self.phase = WriterPhase::Completed;
                    let sealed = vec_copy(&self.target);
                    self.image = Some(sealed);
                    assert(final(self)@ =~= writer_step(old(self)@, cmd@));
                    false
                },
                UpdateCommand::Start => {
                    self.phase = WriterPhase::Idle;
                    self.target = Vec::new();
                    assert(final(self)@ =~= writer_step(old(self)@, cmd@));
                    false
                },
            },
            WriterPhase::Completed => {
                assert(final(self)@ =~= writer_step(old(self)@, cmd@));
                false
            },
            WriterPhase::Dead => {
                assert(final(self)@ =~= writer_step(old(self)@, cmd@));
                false
            },
        }
    }

    /// A flash write that fails is fatal: the worker exits for good and is
    /// never retried.  The surrounding program calls this when the flash
    /// primitive reports an error for a chunk.
    pub fn note_write_failure(&mut self)
        ensures
            final(self)@ == (WriterModel {
                phase: WriterPhase::Dead,
                target: old(self)@.target,
                image: old(self)@.image,
            }),
    {
        self.phase = WriterPhase::Dead;
        assert(final(self)@ =~= (WriterModel {
            phase: WriterPhase::Dead,
            target: old(self)@.target,
            image: old(self)@.image,
        }));
    }

    /// The phase the writer stands in.
    pub fn phase(&self) -> (r: WriterPhase)
        ensures
            r == self@.phase,
    {
        self.phase
    }

    /// The sealed bootable image, once `Finish` has landed.
    pub fn image(&self) -> (r: Option<&Vec<u8>>)
        ensures
            match r {
                None => self@.image is None,
                Some(v) => self@.image == Some(v@),
            },
    {
        match &self.image {
            None => None,
            Some(v) => Some(v),
        }
    }

    /// The bytes written to the open target so far.
    pub fn target_bytes(&self) -> (r: &Vec<u8>)
        ensures
            r@ == self@.target,
    {
        &self.target
    }
}

/// A fresh copy of a byte vector.
fn vec_copy(v: &Vec<u8>) -> (r: Vec<u8>)
    ensures
        r@ == v@,
{
    let mut r: Vec<u8> = Vec::new();
    let mut i: usize = 0;
    while i < v.len()
        invariant
            0 <= i <= v@.len(),
            r@ =~= v@.subrange(0, i as int),
        decreases v@.len() - i,
    {
        r.push(v[i]);
        assert(r@ =~= v@.subrange(0, i + 1));
        i = i + 1;
    }
    assert(r@ =~= v@);
    r
}

/// A worker that has died stays dead: no command sequence moves it, no
/// image ever appears beyond what it already holds, and it acknowledges
/// nothing.  An out-of-session command thus disables every future session
/// until a full device restart.
pub proof fn lemma_dead_is_permanent(w: WriterModel, cmds: Seq<CommandModel>)
    requires
        w.phase == WriterPhase::Dead,
    ensures
        writer_run(w, cmds) == w,
    decreases cmds.len(),
{
    if cmds.len() > 0 {
        lemma_dead_is_permanent(w, cmds.drop_first());
    }
}

/// A `Chunk` or `Finish` arriving while no session is open kills the worker
/// permanently: whatever commands follow — any later `Start` sequence
/// included — the worker stays dead, no image appears and no chunk is ever
/// acknowledged again.
pub proof fn lemma_out_of_session_is_fatal(
    w: WriterModel,
    c: CommandModel,
    cmds: Seq<CommandModel>,
)
    requires
        w.phase == WriterPhase::Idle,
        !(c is Start),
    ensures
        writer_run(w, seq![c] + cmds) == (WriterModel {
            phase: WriterPhase::Dead,
            target: w.target,
            image: w.image,
        }),
        forall|c2: CommandModel| !writer_acks(writer_run(w, seq![c] + cmds), c2),
{
    let dead = WriterModel { phase: WriterPhase::Dead, target: w.target, image: w.image };
    assert((seq![c] + cmds)[0] == c);
    assert((seq![c] + cmds).drop_first() =~= cmds);
    assert(writer_step(w, c) == dead);
    lemma_dead_is_permanent(dead, cmds);
}

/// A `Start` arriving while a session is open aborts that session: the
/// machine then behaves exactly as a writer that never saw the session at
/// all.  Whatever image a later `Finish` seals is a function of the later
/// commands alone, so no byte of the aborted session's target reaches it.
pub proof fn lemma_restart_discards_session(w: WriterModel, cmds: Seq<CommandModel>)
    requires
        w.phase == WriterPhase::Active,
        w.image is None,
    ensures
        writer_run(w, seq![CommandModel::Start] + cmds) == writer_run(fresh_writer(), cmds),
{
    assert((seq![CommandModel::Start] + cmds)[0] == CommandModel::Start);
    assert((seq![CommandModel::Start] + cmds).drop_first() =~= cmds);
    assert(writer_step(w, CommandModel::Start) =~= fresh_writer());
}

} // verus!
