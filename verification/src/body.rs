//! The streaming body: data chunks in the order of their source, then the
//! trailers, once, then nothing.
//!
//! The body holds its source but never runs it. Whoever drives the body
//! polls the source and hands each answer to the body, which decides what
//! the consumer gets to see.

use vstd::prelude::*;
use crate::chunk::{same_chunk, Chunk};
use crate::metadata::MetadataMap;
use crate::status::{status_entries, Status};

verus! {

/// A guess at how many bytes a body still has to give.
#[derive(Clone, Copy, Debug, PartialEq, Eq)]
pub struct SizeHint {
    lower: u64,
    upper: Option<u64>,
}

impl SizeHint {
    #[verifier::type_invariant]
    spec fn ordered(&self) -> bool {
        self.upper matches Some(upper) ==> self.lower <= upper
    }

    /// The least number of bytes to come.
    pub closed spec fn spec_lower(&self) -> u64 {
        self.lower
    }

    /// The greatest number of bytes to come, where one is known.
    pub closed spec fn spec_upper(&self) -> Option<u64> {
        self.upper
    }

    /// The hint that knows nothing: at least zero bytes, no upper bound.
    pub fn new() -> (hint: Self)
        ensures
            hint.spec_lower() == 0,
            hint.spec_upper() is None,
    {
        SizeHint { lower: 0, upper: None }
    }

    /// The hint of exactly `size` bytes.
    pub fn with_exact(size: u64) -> (hint: Self)
        ensures
            hint.spec_lower() == size,
            hint.spec_upper() == Some(size),
    {
        SizeHint { lower: size, upper: Some(size) }
    }

    /// The hint of at least `lower` bytes, with no upper bound.
    pub fn at_least(lower: u64) -> (hint: Self)
        ensures
            hint.spec_lower() == lower,
            hint.spec_upper() is None,
    {
        SizeHint { lower, upper: None }
    }

    /// The hint of at least `lower` and at most `upper` bytes.
    pub fn bounded(lower: u64, upper: u64) -> (hint: Self)
        requires
            lower <= upper,
        ensures
            hint.spec_lower() == lower,
            hint.spec_upper() == Some(upper),
    {
        SizeHint { lower, upper: Some(upper) }
    }

    /// The least number of bytes to come.
    #[verifier::when_used_as_spec(spec_lower)]
    pub fn lower(&self) -> (lower: u64)
        ensures
            lower == self.spec_lower(),
    {
        self.lower
    }

    /// The greatest number of bytes to come, where one is known.
    #[verifier::when_used_as_spec(spec_upper)]
    pub fn upper(&self) -> (upper: Option<u64>)
        ensures
            upper == self.spec_upper(),
    {
        self.upper
    }

    /// The number of bytes to come, where the hint is exact.
    pub fn exact(&self) -> (size: Option<u64>)
        ensures
            size == if self.spec_upper() == Some(self.spec_lower()) {
                Some(self.spec_lower())
            } else {
                None
            },
    {
        match self.upper {
            Some(upper) => if upper == self.lower {
                Some(upper)
            } else {
                None
            },
            None => None,
        }
    }
}

/// What a source answers when it is asked for data.
#[derive(Debug)]
pub enum DataEvent<D, E> {
    /// Nothing is ready yet.
    Pending,
    /// The next chunk.
    Chunk(D),
    /// The source failed.
    Failed(E),
    /// The source has no more data.
    End,
}

/// What a source answers when it is asked for its trailers.
#[derive(Debug)]
pub enum TrailerEvent<E> {
    /// Nothing is ready yet.
    Pending,
    /// The trailers, or `None` where the source has none.
    Ready(Option<MetadataMap>),
    /// The source failed.
    Failed(E),
}

/// What a body answers when it is asked for the next chunk.
#[derive(Debug)]
pub enum ChunkPoll<D, E> {
    /// Nothing is ready yet: ask again later.
    Pending,
    /// The next chunk.
    Chunk(D),
    /// The source failed.
    Error(E),
    /// All data has been handed out.
    EndOfData,
}

/// What a body answers when it is asked for its trailers.
#[derive(Debug)]
pub enum TrailersPoll<E> {
    /// Nothing can be said yet: ask again later.
    Pending,
    /// The trailers, or `None` where there are none or they were handed
    /// out before.
    Ready(Option<MetadataMap>),
    /// The source failed.
    Error(E),
}

/// A body over a source of type `S`.
#[derive(Debug)]
pub struct StreamingBody<S> {
    source: Option<S>,
    ended: bool,
    held: Option<MetadataMap>,
    settled: bool,
    copying: bool,
}

/// What a call for the next chunk may do: `pre` is the body before the
/// call, `event` what the source said, `post` the body after it and
/// `answer` what the consumer is told.
///
/// A body that has ended, or that has no source, answers `EndOfData`
/// whatever the event. Otherwise the event is handed on: a chunk as it
/// is, or gathered into one buffer where the body does so. The body has
/// ended once it has answered `EndOfData`, and nothing else ends it.
pub open spec fn chunk_step<S, D: Chunk, E>(
    pre: StreamingBody<S>,
    event: DataEvent<D, E>,
    post: StreamingBody<S>,
    answer: ChunkPoll<D, E>,
) -> bool {
    &&& post.source() == pre.source()
    &&& post.held() == pre.held()
    &&& post.settled() == pre.settled()
    &&& post.copies() == pre.copies()
    &&& post.ended() == (pre.ended() || answer is EndOfData)
    &&& if pre.ended() || pre.source() is None {
        answer is EndOfData
    } else {
        match event {
            DataEvent::Pending => answer is Pending,
            DataEvent::Chunk(data) => answer matches ChunkPoll::Chunk(out) && same_chunk(
                data,
                out,
                pre.copies(),
            ),
            DataEvent::Failed(error) => answer == ChunkPoll::<D, E>::Error(error),
            DataEvent::End => answer is EndOfData,
        }
    }
}

/// The trailers in an event, where it brings some.
pub open spec fn early_trailers<E>(event: TrailerEvent<E>) -> Option<MetadataMap> {
    match event {
        TrailerEvent::Ready(trailers) => trailers,
        _ => None,
    }
}

/// What a call for the trailers may do, in the terms of `chunk_step`.
///
/// Before the body has ended the answer is `Pending`; trailers that the
/// source gives that early are kept. After the end the body hands out
/// what it keeps, once. Where it keeps nothing and the matter is not
/// settled, the source's answer is handed on and settles it. From then on
/// the answer is `Ready(None)`.
pub open spec fn trailers_step<S, E>(
    pre: StreamingBody<S>,
    event: TrailerEvent<E>,
    post: StreamingBody<S>,
    answer: TrailersPoll<E>,
) -> bool {
    &&& post.source() == pre.source()
    &&& post.ended() == pre.ended()
    &&& post.copies() == pre.copies()
    &&& if !pre.ended() {
        &&& answer is Pending
        &&& post.settled() == pre.settled()
        &&& post.held() == if pre.held() is None && !pre.settled() {
            early_trailers(event)
        } else {
            pre.held()
        }
    } else if pre.held() is Some {
        &&& answer == TrailersPoll::<E>::Ready(pre.held())
        &&& post.held() is None
        &&& post.settled()
    } else if pre.settled() {
        &&& answer == TrailersPoll::<E>::Ready(None)
        &&& post.held() is None
        &&& post.settled()
    } else {
        &&& post.held() is None
        &&& match event {
            TrailerEvent::Pending => answer is Pending && !post.settled(),
            TrailerEvent::Ready(trailers) => answer == TrailersPoll::<E>::Ready(trailers)
                && post.settled(),
            TrailerEvent::Failed(error) => answer == TrailersPoll::<E>::Error(error) && post.settled(),
        }
    }
}

impl<S> StreamingBody<S> {
    /// The source that the body holds, if it holds one.
    pub closed spec fn source(&self) -> Option<S> {
        self.source
    }

    /// Whether the body has answered `EndOfData`.
    pub closed spec fn ended(&self) -> bool {
        self.ended
    }

    /// The trailers that the body keeps for the consumer.
    pub closed spec fn held(&self) -> Option<MetadataMap> {
        self.held
    }

    /// Whether the question of the trailers is closed: they were handed
    /// out, or it is known that none will come.
    pub closed spec fn settled(&self) -> bool {
        self.settled
    }

    /// Whether the body gathers each chunk into one buffer before it
    /// hands it on.
    pub closed spec fn copies(&self) -> bool {
        self.copying
    }

    /// Whether the body is new: it has not ended, keeps no trailers, and
    /// the question of the trailers is open.
    pub open spec fn fresh(&self) -> bool {
        !self.ended() && self.held() is None && !self.settled()
    }

    /// A body over `source`.
    pub fn new(source: S) -> (body: Self)
        ensures
            body.source() == Some(source),
            body.fresh(),
            !body.copies(),
    {
        StreamingBody { source: Some(source), ended: false, held: None, settled: false, copying: false }
    }

    /// A body over `source` that gathers each chunk into one buffer
    /// before it hands it on.
    pub fn copying(source: S) -> (body: Self)
        ensures
            body.source() == Some(source),
            body.fresh(),
            body.copies(),
    {
        StreamingBody { source: Some(source), ended: false, held: None, settled: false, copying: true }
    }

    /// A body without data that ends at once and then reports `status`
    /// in its trailers.
    pub fn empty(status: &Status) -> (body: Self)
        ensures
            body.source() is None,
            !body.ended(),
            !body.settled(),
            !body.copies(),
            body.held() matches Some(trailers) && trailers@ == status_entries(
                status.spec_code(),
                status.spec_message(),
            ),
    {
        StreamingBody {
            source: None,
            ended: false,
            held: Some(status.to_trailers()),
            settled: false,
            copying: false,
        }
    }

    /// Whether all data has been handed out.
    #[verifier::when_used_as_spec(ended)]
    pub fn is_ended(&self) -> (ended: bool)
        ensures
            ended == self.ended(),
    {
        self.ended
    }

    /// Whether the source is to be asked for data before the next call
    /// of `poll_next_chunk`. Where this is false the event handed to
    /// that call plays no part.
    pub fn wants_data(&self) -> (wanted: bool)
        ensures
            wanted == (!self.ended() && self.source() is Some),
    {
        !self.ended && self.source.is_some()
    }

    /// Whether the source is to be asked for its trailers before the next
    /// call of `poll_trailers`. Where this is false the event handed to
    /// that call is not handed on.
    pub fn wants_trailers(&self) -> (wanted: bool)
        ensures
            wanted == (self.ended() && self.held() is None && !self.settled()),
    {
        self.ended && self.held.is_none() && !self.settled
    }

    /// Whether the body has nothing more to give: the data has ended
    /// and the question of the trailers is closed.
    pub fn is_finished(&self) -> (finished: bool)
        ensures
            finished == (self.ended() && self.held() is None && self.settled()),
    {
        self.ended && self.held.is_none() && self.settled
    }

    /// The source, to look at.
    pub fn source_ref(&self) -> (source: Option<&S>)
        ensures
            match source {
                Some(held) => self.source() == Some(*held),
                None => self.source() is None,
            },
    {
        self.source.as_ref()
    }

    /// The source, for the driver to poll.
    pub fn source_mut(&mut self) -> (source: Option<&mut S>)
        ensures
            final(self).ended() == old(self).ended(),
            final(self).held() == old(self).held(),
            final(self).settled() == old(self).settled(),
            final(self).copies() == old(self).copies(),
            match source {
                Some(held) => old(self).source() == Some(*held) && final(self).source() == Some(
                    *final(held),
                ),
                None => old(self).source() is None && final(self).source() is None,
            },
    {
        self.source.as_mut()
    }

    /// Gives the source back.
    pub fn into_source(self) -> (source: Option<S>)
        ensures
            source == self.source(),
    {
        self.source
    }

    /// The next chunk, given what the source said when it was asked.
    pub fn poll_next_chunk<D: Chunk, E>(&mut self, event: DataEvent<D, E>) -> (answer: ChunkPoll<D, E>)
        ensures
            chunk_step(*old(self), event, *final(self), answer),
    {
        if self.ended || self.source.is_none() {
            self.ended = true;
            return ChunkPoll::EndOfData;
        }
        match event {
            DataEvent::Pending => ChunkPoll::Pending,
            DataEvent::Chunk(data) => {
                if self.copying {
                    ChunkPoll::Chunk(data.copy_out())
                } else {
                    ChunkPoll::Chunk(data)
                }
            },
            DataEvent::Failed(error) => ChunkPoll::Error(error),
            DataEvent::End => {
                self.ended = true;
                ChunkPoll::EndOfData
            },
        }
    }

    /// The trailers, given what the source said when it was asked.
    pub fn poll_trailers<E>(&mut self, event: TrailerEvent<E>) -> (answer: TrailersPoll<E>)
        ensures
            trailers_step(*old(self), event, *final(self), answer),
    {
        if !self.ended {
            if self.held.is_none() && !self.settled {
                match event {
                    TrailerEvent::Ready(Some(early)) => {
                        self.held = Some(early);
                    },
                    _ => {},
                }
            }
            return TrailersPoll::Pending;
        }
        if self.held.is_some() {
            self.settled = true;
            return TrailersPoll::Ready(self.held.take());
        }
        if self.settled {
            return TrailersPoll::Ready(None);
        }
        match event {
            TrailerEvent::Pending => TrailersPoll::Pending,
            TrailerEvent::Ready(trailers) => {
                self.settled = true;
                TrailersPoll::Ready(trailers)
            },
            TrailerEvent::Failed(error) => {
                self.settled = true;
                TrailersPoll::Error(error)
            },
        }
    }

    /// How many bytes are still to come, given the hint of the source. A
    /// body that has ended or has no source has none to give.
    pub fn size_hint(&self, source_hint: SizeHint) -> (hint: SizeHint)
        ensures
            hint.spec_lower() == if self.ended() || self.source() is None {
                0
            } else {
                source_hint.spec_lower()
            },
            hint.spec_upper() == if self.ended() || self.source() is None {
                Some(0u64)
            } else {
                source_hint.spec_upper()
            },
    {
        if self.ended || self.source.is_none() {
            SizeHint::with_exact(0)
        } else {
            source_hint
        }
    }
}

/// A body of the shared mode, whose source may move between threads.
pub type BoxBody<S> = StreamingBody<S>;

/// A body of the local mode, whose source stays on its thread.
pub type UnsendBoxBody<S> = StreamingBody<S>;

/// A body of the local mode.
pub type LocalBoxBody<S> = UnsendBoxBody<S>;

/// A body without data, for the shared mode: it ends at once and then
/// reports `status` in its trailers.
pub fn empty_body<S: Send>(status: &Status) -> (body: BoxBody<S>)
    ensures
        body.source() is None,
        !body.ended(),
        !body.settled(),
        !body.copies(),
        body.held() matches Some(trailers) && trailers@ == status_entries(
            status.spec_code(),
            status.spec_message(),
        ),
{
    StreamingBody::empty(status)
}

/// A body without data, for the local mode: it ends at once and then
/// reports `status` in its trailers.
pub fn local_empty_body<S>(status: &Status) -> (body: LocalBoxBody<S>)
    ensures
        body.source() is None,
        !body.ended(),
        !body.settled(),
        !body.copies(),
        body.held() matches Some(trailers) && trailers@ == status_entries(
            status.spec_code(),
            status.spec_message(),
        ),
{
    StreamingBody::empty(status)
}

impl<S> Default for StreamingBody<S> {
    /// A body without data and without trailers.
    fn default() -> (body: Self)
        ensures
            body.source() is None,
            !body.ended(),
            body.held() is None,
            body.settled(),
            !body.copies(),
    {
        StreamingBody { source: None, ended: false, held: None, settled: true, copying: false }
    }
}

/// What happens to a body, one thing at a time.
pub enum Call<D, E> {
    /// The driver used the source, to poll it.
    Drive,
    /// A call for the next chunk: what it was handed and what it
    /// answered.
    Chunk(DataEvent<D, E>, ChunkPoll<D, E>),
    /// A call for the trailers: what it was handed and what it
    /// answered.
    Trailers(TrailerEvent<E>, TrailersPoll<E>),
}

/// What the driver may do to a body between two calls: use its source.
/// The rest of the body stays as it is.
pub open spec fn driven<S>(pre: StreamingBody<S>, post: StreamingBody<S>) -> bool {
    &&& post.source() is Some <==> pre.source() is Some
    &&& post.ended() == pre.ended()
    &&& post.held() == pre.held()
    &&& post.settled() == pre.settled()
    &&& post.copies() == pre.copies()
}

/// Whether `call` may lead a body from `pre` to `post`.
pub open spec fn step<S, D: Chunk, E>(pre: StreamingBody<S>, call: Call<D, E>, post: StreamingBody<S>) -> bool {
    match call {
        Call::Drive => driven(pre, post),
        Call::Chunk(event, answer) => chunk_step(pre, event, post, answer),
        Call::Trailers(event, answer) => trailers_step(pre, event, post, answer),
    }
}

/// Whether `calls` may happen one after the other to a body, with
/// `states` as what the body is before, between and after them.
pub open spec fn is_run<S, D: Chunk, E>(states: Seq<StreamingBody<S>>, calls: Seq<Call<D, E>>) -> bool {
    &&& states.len() == calls.len() + 1
    &&& forall|i: int| 0 <= i < calls.len() ==> step(states[i], #[trigger] calls[i], states[i + 1])
}

/// Whether `call` asked for a chunk and was told that the data has ended.
pub open spec fn gave_end<D, E>(call: Call<D, E>) -> bool {
    call matches Call::Chunk(_, answer) && answer is EndOfData
}

/// Whether `call` asked for the trailers and was told anything but to
/// wait.
pub open spec fn gave_trailers<D, E>(call: Call<D, E>) -> bool {
    call matches Call::Trailers(_, answer) && !(answer is Pending)
}

/// Whether `call` belongs to the streaming of data: the driver polls the
/// source, or the body is asked for a chunk while the source waits or
/// gives one.
pub open spec fn streams<D, E>(call: Call<D, E>) -> bool {
    match call {
        Call::Drive => true,
        Call::Chunk(event, _) => event is Pending || event is Chunk,
        Call::Trailers(_, _) => false,
    }
}

/// Whether `call` asked for a chunk when the source had none left.
pub open spec fn source_ends<D, E>(call: Call<D, E>) -> bool {
    call matches Call::Chunk(event, _) && event is End
}

/// The chunks that the source gave in `calls`, in their order.
pub open spec fn sent<D, E>(calls: Seq<Call<D, E>>) -> Seq<D>
    decreases calls.len(),
{
    if calls.len() == 0 {
        Seq::empty()
    } else {
        match calls.last() {
            Call::Chunk(DataEvent::Chunk(data), _) => sent(calls.drop_last()).push(data),
            _ => sent(calls.drop_last()),
        }
    }
}

/// The chunks that the body handed out in `calls`, in their order.
pub open spec fn received<D, E>(calls: Seq<Call<D, E>>) -> Seq<D>
    decreases calls.len(),
{
    if calls.len() == 0 {
        Seq::empty()
    } else {
        match calls.last() {
            Call::Chunk(_, ChunkPoll::Chunk(data)) => received(calls.drop_last()).push(data),
            _ => received(calls.drop_last()),
        }
    }
}

/// Whether `got` is `given` chunk for chunk: the same bytes throughout,
/// and the very same pieces unless they were copied.
pub open spec fn same_chunks<D: Chunk>(given: Seq<D>, got: Seq<D>, copies: bool) -> bool {
    &&& given.len() == got.len()
    &&& forall|i: int| 0 <= i < given.len() ==> same_chunk(#[trigger] given[i], got[i], copies)
}

/// A body that has ended stays ended, whatever happens to it.
pub proof fn lemma_ended_stays<S, D: Chunk, E>(
    states: Seq<StreamingBody<S>>,
    calls: Seq<Call<D, E>>,
    from: int,
    to: int,
)
    requires
        is_run(states, calls),
        0 <= from <= to <= calls.len(),
        states[from].ended(),
    ensures
        states[to].ended(),
    decreases to - from,
{
    if from < to {
        lemma_ended_stays(states, calls, from, to - 1);
        assert(step(states[to - 1], calls[to - 1], states[to]));
    }
}

/// A body that was not ended at first and is ended after `upto` calls
/// has answered `EndOfData` in one of them.
pub proof fn lemma_end_was_given<S, D: Chunk, E>(
    states: Seq<StreamingBody<S>>,
    calls: Seq<Call<D, E>>,
    upto: int,
)
    requires
        is_run(states, calls),
        !states[0].ended(),
        0 <= upto <= calls.len(),
        states[upto].ended(),
    ensures
        exists|i: int| 0 <= i < upto && gave_end(#[trigger] calls[i]),
    decreases upto,
{
    assert(upto > 0);
    assert(step(states[upto - 1], calls[upto - 1], states[upto]));
    if states[upto - 1].ended() {
        lemma_end_was_given(states, calls, upto - 1);
    } else {
        assert(gave_end(calls[upto - 1]));
    }
}

/// The trailers come behind the data: a body that was not ended at first
/// tells nothing of its trailers, but to wait, before it has answered
/// `EndOfData` to a call for a chunk.
pub proof fn lemma_trailers_wait_for_end<S, D: Chunk, E>(
    states: Seq<StreamingBody<S>>,
    calls: Seq<Call<D, E>>,
    at: int,
)
    requires
        is_run(states, calls),
        !states[0].ended(),
        0 <= at < calls.len(),
        gave_trailers(calls[at]),
    ensures
        exists|i: int| 0 <= i < at && gave_end(#[trigger] calls[i]),
{
    assert(step(states[at], calls[at], states[at + 1]));
    lemma_end_was_given(states, calls, at);
}

/// While data streams through a body over a source, the body hands on
/// chunk for chunk and does not end.
proof fn lemma_streaming<S, D: Chunk, E>(states: Seq<StreamingBody<S>>, calls: Seq<Call<D, E>>, upto: int)
    requires
        is_run(states, calls),
        0 <= upto <= calls.len(),
        !states[0].ended(),
        states[0].source() is Some,
        forall|i: int| 0 <= i < upto ==> streams(#[trigger] calls[i]),
    ensures
        !states[upto].ended(),
        states[upto].source() is Some,
        states[upto].copies() == states[0].copies(),
        states[upto].held() == states[0].held(),
        states[upto].settled() == states[0].settled(),
        same_chunks(sent(calls.take(upto)), received(calls.take(upto)), states[0].copies()),
    decreases upto,
{
    if upto == 0 {
        assert(calls.take(0) =~= Seq::empty());
    } else {
        lemma_streaming(states, calls, upto - 1);
        let k = upto - 1;
        assert(step(states[k], calls[k], states[k + 1]));
        assert(streams(calls[k]));
        assert(calls.take(upto).drop_last() =~= calls.take(k));
        assert(calls.take(upto).last() == calls[k]);
    }
}

/// The round trip: a new body over a source that gives its chunks, ends,
/// and then gives its trailers hands the consumer the same chunks in the
/// same order, then `EndOfData`, then the same trailers. It has not
/// ended before the source has, and has when it has.
///
/// `calls` is what happens while the data streams, with the call that
/// finds the source at its end as the last. `polled` is the body when
/// the driver has asked the source for its trailers, `after` the body
/// when it has been asked for them with the source's answer.
pub proof fn lemma_round_trip<S, D: Chunk, E>(
    states: Seq<StreamingBody<S>>,
    calls: Seq<Call<D, E>>,
    trailers: Option<MetadataMap>,
    polled: StreamingBody<S>,
    after: StreamingBody<S>,
    answer: TrailersPoll<E>,
)
    requires
        is_run(states, calls),
        calls.len() > 0,
        states[0].fresh(),
        states[0].source() is Some,
        forall|i: int| 0 <= i < calls.len() - 1 ==> streams(#[trigger] calls[i]),
        source_ends(calls.last()),
        driven(states.last(), polled),
        trailers_step(polled, TrailerEvent::<E>::Ready(trailers), after, answer),
    ensures
        same_chunks(sent(calls), received(calls), states[0].copies()),
        forall|i: int| 0 <= i < calls.len() ==> !(#[trigger] states[i]).ended(),
        states.last().ended(),
        gave_end(calls.last()),
        answer == TrailersPoll::<E>::Ready(trailers),
        after.ended(),
{
    let n = calls.len() as int - 1;
    lemma_streaming(states, calls, n);
    assert(step(states[n], calls[n], states[n + 1]));
    assert(calls.drop_last() =~= calls.take(n));
    assert forall|i: int| 0 <= i < calls.len() implies !(#[trigger] states[i]).ended() by {
        lemma_streaming(states, calls, i);
    }
}

/// Once a body has ended and the question of its trailers is settled, it
/// has nothing more to give: every call for a chunk is answered
/// `EndOfData`, every call for the trailers `Ready(None)`, and the body
/// stays as it is.
pub proof fn lemma_spent<S, D: Chunk, E>(pre: StreamingBody<S>, call: Call<D, E>, post: StreamingBody<S>)
    requires
        pre.ended(),
        pre.settled(),
        pre.held() is None,
        step(pre, call, post),
    ensures
        post.ended(),
        post.settled(),
        post.held() is None,
        match call {
            Call::Drive => true,
            Call::Chunk(_, answer) => answer is EndOfData,
            Call::Trailers(_, answer) => answer == TrailersPoll::<E>::Ready(None),
        },
{
}

} // verus!
