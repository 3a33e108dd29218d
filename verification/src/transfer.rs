use crate::error::DownloadError;
use crate::progress::ProgressReporter;
use vstd::prelude::*;

verus! {

/// One result of a read against the response body: the bytes it returned
/// (none at all meaning end of stream), or a read error.
pub enum ReadEvent {
    Bytes(Vec<u8>),
    Failed,
}

/// The bytes an event carries.
pub open spec fn event_data(e: ReadEvent) -> Seq<u8> {
    match e {
        ReadEvent::Bytes(d) => d@,
        ReadEvent::Failed => Seq::empty(),
    }
}

/// Whether an event is a successful read.
pub open spec fn is_read(e: ReadEvent) -> bool {
    e is Bytes
}

/// Whether an event is the zero-length read that ends the stream.
pub open spec fn is_end(e: ReadEvent) -> bool {
    is_read(e) && event_data(e).len() == 0
}

/// What one whole transfer yields, at the specification level: the bytes
/// accumulated up to a zero-length read (done), up to a read error
/// (aborted), or up to the end of the given events with the stream still
/// open (incomplete).
pub enum SpecOutcome {
    Done(Seq<u8>),
    Aborted(Seq<u8>),
    Incomplete(Seq<u8>),
}

/// The same outcome with `data` put in front of what was accumulated.
pub open spec fn outcome_prepend(data: Seq<u8>, o: SpecOutcome) -> SpecOutcome {
    match o {
        SpecOutcome::Done(s) => SpecOutcome::Done(data + s),
        SpecOutcome::Aborted(s) => SpecOutcome::Aborted(data + s),
        SpecOutcome::Incomplete(s) => SpecOutcome::Incomplete(data + s),
    }
}

/// The outcome of the streaming loop over a sequence of read events:
/// chunks accumulate until the first zero-length read or the first read
/// error; nothing past that point is looked at.
pub open spec fn run_spec(events: Seq<ReadEvent>) -> SpecOutcome
    decreases events.len(),
{
    if events.len() == 0 {
        SpecOutcome::Incomplete(Seq::empty())
    } else {
        match events[0] {
            ReadEvent::Failed => SpecOutcome::Aborted(Seq::empty()),
            ReadEvent::Bytes(d) => if d@.len() == 0 {
                SpecOutcome::Done(Seq::empty())
            } else {
                outcome_prepend(d@, run_spec(events.drop_first()))
            },
        }
    }
}

proof fn lemma_prepend_nil(o: SpecOutcome)
    ensures
        outcome_prepend(Seq::empty(), o) == o,
{
    match o {
        SpecOutcome::Done(s) => {
            assert(Seq::empty() + s =~= s);
        },
        SpecOutcome::Aborted(s) => {
            assert(Seq::empty() + s =~= s);
        },
        SpecOutcome::Incomplete(s) => {
            assert(Seq::empty() + s =~= s);
        },
    }
}

proof fn lemma_prepend_compose(a: Seq<u8>, b: Seq<u8>, o: SpecOutcome)
    ensures
        outcome_prepend(a, outcome_prepend(b, o)) == outcome_prepend(a + b, o),
{
    match o {
        SpecOutcome::Done(s) => {
            assert(a + (b + s) =~= (a + b) + s);
        },
        SpecOutcome::Aborted(s) => {
            assert(a + (b + s) =~= (a + b) + s);
        },
        SpecOutcome::Incomplete(s) => {
            assert(a + (b + s) =~= (a + b) + s);
        },
    }
}

/// The transfer state the streaming loop mutates: the accumulation buffer.
/// The number of bytes received so far is the buffer's length.
pub struct TransferState {
    buf: Vec<u8>,
}

impl TransferState {
    /// The accumulated bytes.
    pub closed spec fn buffer(self) -> Seq<u8> {
        self.buf@
    }

    /// An empty accumulation buffer, as the loop starts with.
    pub fn new() -> (r: Self)
        ensures
            r.buffer() == Seq::<u8>::empty(),
    {
        TransferState { buf: Vec::new() }
    }

    /// Appends one chunk of read bytes to the accumulation buffer.
    pub fn ingest(&mut self, chunk: &Vec<u8>)
        ensures
            final(self).buffer() == old(self).buffer() + chunk@,
    {
        let mut j: usize = 0;
        while j < chunk.len()
            invariant
                j <= chunk@.len(),
                self.buf@ == old(self).buffer() + chunk@.subrange(0, j as int),
            decreases chunk@.len() - j,
        {
            self.buf.push(chunk[j]);
            j += 1;
            proof {
                assert(chunk@.subrange(0, j as int) =~= chunk@.subrange(0, j - 1).push(
                    chunk@[j - 1],
                ));
                assert(self.buf@ =~= old(self).buffer() + chunk@.subrange(0, j as int));
            }
        }
        proof {
            assert(chunk@.subrange(0, chunk@.len() as int) =~= chunk@);
        }
    }

    /// The number of bytes received so far.
    pub fn received(&self) -> (n: usize)
        ensures
            n == self.buffer().len(),
    {
        self.buf.len()
    }

    /// Hands the whole accumulated buffer on, for the persistence step.
    pub fn into_buffer(self) -> (r: Vec<u8>)
        ensures
            r@ == self.buffer(),
    {
        self.buf
    }
}

/// What the loop does after one event: keep reading, finish normally, or
/// abort the download.
#[derive(Clone, Copy, Debug, PartialEq, Eq, Structural)]
pub enum StepAction {
    Continue,
    Finish,
    Abort,
}

/// Advances the streaming loop by one read event: a chunk of bytes is
/// appended to the buffer and the reporter advances by exactly its length;
/// the zero-length read finishes the reporter and ends the loop; a read
/// error aborts the download with nothing appended. The reporter's
/// cumulative advance always equals the number of bytes accumulated.
pub fn transfer_step(
    state: &mut TransferState,
    reporter: &mut ProgressReporter,
    event: &ReadEvent,
) -> (a: StepAction)
    requires
        !old(reporter).finished_spec(),
        old(reporter).advanced_spec() == old(state).buffer().len(),
    ensures
        final(reporter).mode_spec() == old(reporter).mode_spec(),
        final(reporter).advanced_spec() == final(state).buffer().len(),
        (is_end(*event) ==> a == StepAction::Finish
            && final(state).buffer() == old(state).buffer()
            && final(reporter).finished_spec()),
        (is_read(*event) && !is_end(*event) ==> a == StepAction::Continue
            && final(state).buffer() == old(state).buffer() + event_data(*event)
            && !final(reporter).finished_spec()),
        (!is_read(*event) ==> a == StepAction::Abort
            && final(state).buffer() == old(state).buffer()
            && !final(reporter).finished_spec()),
{
    match event {
        ReadEvent::Failed => StepAction::Abort,
        ReadEvent::Bytes(d) => {
            if d.len() == 0 {
                reporter.finish();
                StepAction::Finish
            } else {
                let len = d.len();
                state.ingest(d);
                let total = state.received();
                proof {
                    assert(old(reporter).advanced_spec() + len as nat == total as nat);
                }
                reporter.advance(len as u64);
                StepAction::Continue
            }
        },
    }
}

/// Runs the whole streaming loop over a sequence of read events, exactly
/// as the download performs it against the live body stream: every chunk
/// is appended to the buffer and advances the reporter by its length; the
/// first zero-length read finishes the reporter and yields the buffer; a
/// read error discards the buffer and surfaces an I/O error, so nothing
/// reaches the persistence step. An event sequence that runs out with the
/// stream still open is treated as end of stream.
pub fn run_transfer(events: &Vec<ReadEvent>, reporter: &mut ProgressReporter) -> (r: Result<
    Vec<u8>,
    DownloadError,
>)
    requires
        !old(reporter).finished_spec(),
        old(reporter).advanced_spec() == 0,
    ensures
        final(reporter).mode_spec() == old(reporter).mode_spec(),
        (match run_spec(events@) {
            SpecOutcome::Done(data) => (r matches Ok(v) && v@ == data)
                && final(reporter).finished_spec()
                && final(reporter).advanced_spec() == data.len(),
            SpecOutcome::Incomplete(data) => (r matches Ok(v) && v@ == data)
                && final(reporter).finished_spec()
                && final(reporter).advanced_spec() == data.len(),
            SpecOutcome::Aborted(data) => r == Err::<Vec<u8>, DownloadError>(DownloadError::Io)
                && !final(reporter).finished_spec()
                && final(reporter).advanced_spec() == data.len(),
        }),
{
    let mut state = TransferState::new();
    let n = events.len();
    proof {
        assert(events@.subrange(0, n as int) =~= events@);
        lemma_prepend_nil(run_spec(events@));
    }
    let mut i: usize = 0;
    loop
        invariant
            i <= n == events@.len(),
            !reporter.finished_spec(),
            reporter.advanced_spec() == state.buffer().len(),
            reporter.mode_spec() == old(reporter).mode_spec(),
            run_spec(events@) == outcome_prepend(
                state.buffer(),
                run_spec(events@.subrange(i as int, n as int)),
            ),
        decreases n - i,
    {
        if i == n {
            proof {
                assert(events@.subrange(i as int, n as int) =~= Seq::<ReadEvent>::empty());
            }
            reporter.finish();
            return Ok(state.into_buffer());
        }
        let ghost tail = events@.subrange(i as int, n as int);
        proof {
            assert(tail[0] == events@[i as int]);
            assert(tail.drop_first() =~= events@.subrange(i + 1, n as int));
        }
        let ghost prev = state.buffer();
        let event = &events[i];
        match transfer_step(&mut state, reporter, event) {
            StepAction::Abort => {
                return Err(DownloadError::Io);
            },
            StepAction::Finish => {
                return Ok(state.into_buffer());
            },
            StepAction::Continue => {
                proof {
                    lemma_prepend_compose(
                        prev,
                        event_data(events@[i as int]),
                        run_spec(events@.subrange(i + 1, n as int)),
                    );
                }
                i += 1;
            },
        }
    }
}

/// Cuts a read buffer down to the bytes a read actually returned: the
/// first `count` of them.
pub fn take_read(data: Vec<u8>, count: usize) -> (r: Vec<u8>)
    requires
        count <= data@.len(),
    ensures
        r@ == data@.subrange(0, count as int),
{
    let mut d = data;
    d.truncate(count);
    d
}

/// The total number of bytes carried by the read events.
pub open spec fn total_bytes(events: Seq<ReadEvent>) -> nat
    decreases events.len(),
{
    if events.len() == 0 {
        0
    } else {
        event_data(events[0]).len() + total_bytes(events.drop_first())
    }
}

/// The concatenation of all bytes carried by the read events.
pub open spec fn all_data(events: Seq<ReadEvent>) -> Seq<u8>
    decreases events.len(),
{
    if events.len() == 0 {
        Seq::empty()
    } else {
        event_data(events[0]) + all_data(events.drop_first())
    }
}

proof fn lemma_all_data_len(events: Seq<ReadEvent>)
    ensures
        all_data(events).len() == total_bytes(events),
    decreases events.len(),
{
    if events.len() > 0 {
        lemma_all_data_len(events.drop_first());
    }
}

/// Law: over any sequence of read results that all succeed and end in a
/// zero-length read, the transfer completes, the accumulated buffer is the
/// concatenation of the chunks, and its length is exactly the sum of the
/// chunk sizes. Through `run_transfer`'s contract this is also the
/// reporter's cumulative advance.
pub proof fn lemma_complete_transfer(events: Seq<ReadEvent>)
    requires
        events.len() > 0,
        forall|j: int| 0 <= j < events.len() - 1 ==> is_read(#[trigger] events[j]) && !is_end(
            events[j],
        ),
        is_end(events[events.len() - 1]),
    ensures
        run_spec(events) == SpecOutcome::Done(all_data(events)),
        all_data(events).len() == total_bytes(events),
    decreases events.len(),
{
    lemma_all_data_len(events);
    if events.len() == 1 {
        assert(all_data(events.drop_first()) =~= Seq::<u8>::empty());
        assert(all_data(events) =~= Seq::<u8>::empty());
    } else {
        let rest = events.drop_first();
        assert forall|j: int| 0 <= j < rest.len() - 1 implies is_read(#[trigger] rest[j])
            && !is_end(rest[j]) by {
            assert(rest[j] == events[j + 1]);
        }
        assert(rest[rest.len() - 1] == events[events.len() - 1]);
        lemma_complete_transfer(rest);
        assert(run_spec(events) == outcome_prepend(
            event_data(events[0]),
            SpecOutcome::Done(all_data(rest)),
        ));
    }
}

/// Law: a read error mid-loop aborts the transfer where it stands: the
/// outcome is aborted after exactly the chunks read before the error.
/// Through `run_transfer`'s contract the operation then surfaces an I/O
/// error and no buffer reaches the persistence step.
pub proof fn lemma_failed_transfer(events: Seq<ReadEvent>, i: int)
    requires
        0 <= i < events.len(),
        !is_read(events[i]),
        forall|j: int| 0 <= j < i ==> is_read(#[trigger] events[j]) && !is_end(events[j]),
    ensures
        run_spec(events) == SpecOutcome::Aborted(all_data(events.subrange(0, i))),
    decreases events.len(),
{
    if i == 0 {
        assert(events.subrange(0, 0) =~= Seq::<ReadEvent>::empty());
    } else {
        let rest = events.drop_first();
        assert forall|j: int| 0 <= j < i - 1 implies is_read(#[trigger] rest[j]) && !is_end(
            rest[j],
        ) by {
            assert(rest[j] == events[j + 1]);
        }
        assert(rest[i - 1] == events[i]);
        lemma_failed_transfer(rest, i - 1);
        assert(rest.subrange(0, i - 1) =~= events.subrange(1, i));
        let front = events.subrange(0, i);
        assert(front[0] == events[0]);
        assert(front.drop_first() =~= events.subrange(1, i));
        assert(run_spec(events) == outcome_prepend(
            event_data(events[0]),
            SpecOutcome::Aborted(all_data(events.subrange(1, i))),
        ));
        assert(all_data(front) == event_data(events[0]) + all_data(events.subrange(1, i)));
    }
}

} // verus!
