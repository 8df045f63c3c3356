use vstd::prelude::*;

verus! {

/// What a track's decoding thread tells the decoder it is doing.
#[derive(Clone, Copy, PartialEq, Eq, Structural, Debug)]
pub enum ThreadStatus {
    WaitingForThread,
    Decoding,
    Loading,
    Ready,
    Dead,
}

/// What the decoding thread found on its command channel. Times are in nanoseconds.
#[derive(Clone, Copy, PartialEq, Eq, Structural, Debug)]
pub enum Command {
    /// Nothing was waiting (or, while debouncing, nothing came in time).
    Nothing,
    /// Seek to the time.
    Seek(u128),
    /// Stop: the decoder said so, or the channel is gone.
    Die,
}

/// What the decoding thread does next.
#[derive(Clone, Copy, PartialEq, Eq, Structural, Debug)]
pub enum ThreadAction {
    /// Stop the thread.
    Stop,
    /// Go on decoding and sending samples.
    Go,
    /// Wait a little for a later seek, aiming at the time meanwhile.
    Debounce(u128),
    /// Restart decoding at the time.
    SeekTo(u128),
}

/// What became of handing a sample to the decoder.
#[derive(Clone, Copy, PartialEq, Eq, Structural, Debug)]
pub enum Sent {
    Taken,
    TimedOut,
    Gone,
}

/// The state of a decoding thread: its status, the number of samples handed
/// over, and whether a decoded sample waits to be handed over.
pub struct DecoderThread {
    pub status: ThreadStatus,
    pub pos: usize,
    pub pending: bool,
}

impl DecoderThread {
    /// A thread that has set up its decoder and is ready.
    pub fn new() -> (res: Self)
        ensures
            res.status == ThreadStatus::Ready,
            res.pos == 0,
            !res.pending,
    {
        DecoderThread { status: ThreadStatus::Ready, pos: 0, pending: false }
    }

    /// The start of a round: a `Die` stops the thread, a seek starts the
    /// debounce (and the thread reports it is decoding), nothing goes on.
    pub fn on_command(&mut self, c: Command) -> (res: ThreadAction)
        ensures
            c is Die ==> res == ThreadAction::Stop && final(self).status == old(self).status,
            c is Nothing ==> res == ThreadAction::Go && final(self).status == old(self).status,
            c matches Command::Seek(t) ==> res == ThreadAction::Debounce(t) && final(self).status
                == ThreadStatus::Decoding,
            final(self).pos == old(self).pos,
            final(self).pending == old(self).pending,
    {
        match c {
            Command::Die => ThreadAction::Stop,
            Command::Nothing => ThreadAction::Go,
            Command::Seek(t) => {
                self.status = ThreadStatus::Decoding;
                ThreadAction::Debounce(t)
            },
        }
    }

    /// One wait of the debounce, aiming at `target`: a later seek replaces the
    /// target and waits again; when nothing more comes the seek happens; a
    /// `Die` stops the thread.
    pub fn debounce(&self, target: u128, c: Command) -> (res: ThreadAction)
        ensures
            c is Die ==> res == ThreadAction::Stop,
            c is Nothing ==> res == ThreadAction::SeekTo(target),
            c matches Command::Seek(t) ==> res == ThreadAction::Debounce(t),
    {
        match c {
            Command::Die => ThreadAction::Stop,
            Command::Nothing => ThreadAction::SeekTo(target),
            Command::Seek(t) => ThreadAction::Debounce(t),
        }
    }

    /// After restarting the decoder `skipped` samples in, the count of samples
    /// handed over starts from there.
    pub fn seeked(&mut self, skipped: usize)
        ensures
            final(self).pos == skipped,
            final(self).status == old(self).status,
            final(self).pending == old(self).pending,
    {
        self.pos = skipped;
    }

    /// Before decoding a new sample the thread reports it is loading; `false`
    /// when a sample still waits and none is decoded.
    pub fn wants_sample(&mut self) -> (res: bool)
        ensures
            res == !old(self).pending,
            res ==> final(self).status == ThreadStatus::Loading,
            !res ==> final(self).status == old(self).status,
            final(self).pos == old(self).pos,
            final(self).pending == old(self).pending,
    {
        if self.pending {
            false
        } else {
            self.status = ThreadStatus::Loading;
            true
        }
    }

    /// A sample was decoded and waits to be handed over.
    pub fn decoded(&mut self)
        ensures
            final(self).pending,
            final(self).status == old(self).status,
            final(self).pos == old(self).pos,
    {
        self.pending = true;
    }

    /// After handing the waiting sample over: taken, it is counted; when the
    /// decoder is busy, the thread reports it is ready and tries again; when
    /// the decoder is gone, the thread stops.
    pub fn after_send(&mut self, sent: Sent) -> (res: ThreadAction)
        requires
            sent is Taken ==> old(self).pos < usize::MAX,
        ensures
            sent is Taken ==> res == ThreadAction::Go && !final(self).pending && final(self).pos
                == old(self).pos + 1 && final(self).status == old(self).status,
            sent is TimedOut ==> res == ThreadAction::Go && final(self).pending == old(self).pending
                && final(self).pos == old(self).pos && final(self).status == ThreadStatus::Ready,
            sent is Gone ==> res == ThreadAction::Stop && final(self).pending == old(self).pending
                && final(self).pos == old(self).pos && final(self).status == old(self).status,
    {
        match sent {
            Sent::Taken => {
                self.pending = false;
                self.pos = self.pos + 1;
                ThreadAction::Go
            },
            Sent::TimedOut => {
                self.status = ThreadStatus::Ready;
                ThreadAction::Go
            },
            Sent::Gone => ThreadAction::Stop,
        }
    }

    /// The thread has ended, for whatever reason.
    pub fn ended(&mut self)
        ensures
            final(self).status == ThreadStatus::Dead,
            final(self).pos == old(self).pos,
            final(self).pending == old(self).pending,
    {
        self.status = ThreadStatus::Dead;
    }
}

} // verus!
