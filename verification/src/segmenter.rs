//! Splitting a continuous stream of samples into utterances.

use vstd::prelude::*;
use vstd::slice::slice_subrange;

verus! {

/// What both engines expect, and what the browser sends.
pub const SAMPLE_RATE: u32 = 16_000;

/// About 30 ms of samples: what the browser sends at a time.
pub const FRAME: usize = 484;

/// One second: an utterance is not cut on silence before it is this long.
pub const MIN_SAMPLES: usize = 16_000;

/// Nine tenths of a second: this much silence ends an utterance.
pub const SILENCE_SAMPLES: usize = 14_400;

/// Twenty seconds: an utterance is cut once it is this long.
pub const MAX_SAMPLES: usize = 320_000;

/// A quarter of a second: less than this is not worth an utterance of its own.
pub const FLUSH_SAMPLES: usize = 4_000;

/// Splits a continuous stream into utterances on trailing silence.
///
/// Whether a stretch of samples is quiet is for the caller to say.
pub struct Segmenter<S> {
    buffer: Vec<S>,
    silence_run: usize,
    consumed: usize,
}

/// One utterance, with its place counted in samples from the start of the stream.
#[derive(Debug, PartialEq)]
pub struct Utterance<S> {
    pub samples: Vec<S>,
    pub start: usize,
    pub end: usize,
}

/// What a [`Segmenter`] holds: the samples that belong to no utterance yet, how many
/// of the last of them are quiet, and how many came before them.
#[verifier::ext_equal]
pub struct SegmenterView<S> {
    pub buffer: Seq<S>,
    pub silence_run: nat,
    pub consumed: nat,
}

/// What an [`Utterance`] holds.
#[verifier::ext_equal]
pub struct UtteranceView<S> {
    pub samples: Seq<S>,
    pub start: nat,
    pub end: nat,
}

impl<S> View for Segmenter<S> {
    type V = SegmenterView<S>;

    closed spec fn view(&self) -> SegmenterView<S> {
        SegmenterView {
            buffer: self.buffer@,
            silence_run: self.silence_run as nat,
            consumed: self.consumed as nat,
        }
    }
}

impl<S> View for Utterance<S> {
    type V = UtteranceView<S>;

    open spec fn view(&self) -> UtteranceView<S> {
        UtteranceView { samples: self.samples@, start: self.start as nat, end: self.end as nat }
    }
}

/// What a list of utterances holds.
pub open spec fn utterances_view<S>(utterances: Seq<Utterance<S>>) -> Seq<UtteranceView<S>> {
    Seq::new(utterances.len(), |i: int| utterances[i]@)
}

/// An utterance that may not be there, as a list.
pub open spec fn listed<S>(utterance: Option<Utterance<S>>) -> Seq<UtteranceView<S>> {
    match utterance {
        Some(u) => seq![u@],
        None => Seq::empty(),
    }
}

impl<S> SegmenterView<S> {
    /// How many samples there were so far.
    pub open spec fn fed(self) -> nat {
        self.consumed + self.buffer.len()
    }

    /// What holds of every segmenter: the silence that it counts is in its buffer,
    /// an utterance that is long enough to be cut has been cut, and what it was fed
    /// can be counted.
    pub open spec fn well_formed(self) -> bool {
        &&& self.silence_run <= self.buffer.len()
        &&& self.buffer.len() < MAX_SAMPLES
        &&& self.fed() <= usize::MAX
    }

    /// The segmenter with all that it was fed consumed.
    pub open spec fn drained(self) -> SegmenterView<S> {
        SegmenterView { buffer: Seq::empty(), silence_run: 0, consumed: self.fed() }
    }
}

/// A segmenter before the first sample.
pub open spec fn fresh_segmenter<S>() -> SegmenterView<S> {
    SegmenterView { buffer: Seq::empty(), silence_run: 0, consumed: 0 }
}

/// The buffer is closed: it becomes an utterance, unless it is quiet from end to
/// end. All-silence stretches are dropped rather than sent to the engine.
pub open spec fn taken<S>(quiet: spec_fn(Seq<S>) -> bool, s: SegmenterView<S>) -> (
    SegmenterView<S>,
    Seq<UtteranceView<S>>,
) {
    (
        s.drained(),
        if s.buffer.len() == 0 || quiet(s.buffer) {
            Seq::empty()
        } else {
            seq![UtteranceView { samples: s.buffer, start: s.consumed, end: s.fed() }]
        },
    )
}

/// Whether the buffer is to be closed: it is long enough and ends in silence, or it
/// is too long.
pub open spec fn closes<S>(s: SegmenterView<S>) -> bool {
    ||| s.buffer.len() >= MIN_SAMPLES && s.silence_run >= SILENCE_SAMPLES
    ||| s.buffer.len() >= MAX_SAMPLES
}

/// The segmenter with one more frame in its buffer.
pub open spec fn extended<S>(
    quiet: spec_fn(Seq<S>) -> bool,
    s: SegmenterView<S>,
    frame: Seq<S>,
) -> SegmenterView<S> {
    SegmenterView {
        buffer: s.buffer + frame,
        silence_run: if quiet(frame) {
            s.silence_run + frame.len()
        } else {
            0
        },
        consumed: s.consumed,
    }
}

/// What one frame leads to.
pub open spec fn framed<S>(
    quiet: spec_fn(Seq<S>) -> bool,
    s: SegmenterView<S>,
    frame: Seq<S>,
) -> (SegmenterView<S>, Seq<UtteranceView<S>>) {
    let next = extended(quiet, s, frame);
    if closes(next) {
        taken(quiet, next)
    } else {
        (next, Seq::empty())
    }
}

/// How long the next frame is.
pub open spec fn frame_len(n: nat) -> int {
    if n < FRAME {
        n as int
    } else {
        FRAME as int
    }
}

/// What samples lead to, frame by frame.
pub open spec fn pushed<S>(
    quiet: spec_fn(Seq<S>) -> bool,
    s: SegmenterView<S>,
    samples: Seq<S>,
) -> (SegmenterView<S>, Seq<UtteranceView<S>>)
    decreases samples.len(),
{
    if samples.len() == 0 {
        (s, Seq::empty())
    } else {
        let n = frame_len(samples.len());
        let (next, first) = framed(quiet, s, samples.take(n));
        let (last, rest) = pushed(quiet, next, samples.skip(n));
        (last, first + rest)
    }
}

/// What the end of the stream leads to: what is left becomes an utterance, unless it
/// is too short. Either way it has been consumed.
pub open spec fn flushed<S>(quiet: spec_fn(Seq<S>) -> bool, s: SegmenterView<S>) -> (
    SegmenterView<S>,
    Seq<UtteranceView<S>>,
) {
    if s.buffer.len() < FLUSH_SAMPLES {
        (s.drained(), Seq::empty())
    } else {
        taken(quiet, s)
    }
}

/// Whether a function can judge any stretch of samples.
pub open spec fn total_judge<S, Q: Fn(&[S]) -> bool>(judge: Q) -> bool {
    forall|s: &[S]| #[trigger] call_requires(judge, (s,))
}

/// Whether a function judges as `quiet` does.
pub open spec fn judges<S, Q: Fn(&[S]) -> bool>(
    judge: Q,
    quiet: spec_fn(Seq<S>) -> bool,
) -> bool {
    forall|s: &[S], b: bool| #[trigger] call_ensures(judge, (s,), b) ==> b == quiet(s@)
}

fn append<S: Copy>(buffer: &mut Vec<S>, samples: &[S])
    ensures
        final(buffer)@ == old(buffer)@ + samples@,
{
    let ghost before = buffer@;
    let mut i: usize = 0;
    assert(before + samples@.take(0) =~= before);
    while i < samples.len()
        invariant
            i <= samples@.len(),
            buffer@ == before + samples@.take(i as int),
        decreases samples@.len() - i,
    {
        buffer.push(samples[i]);
        i += 1;
        assert(buffer@ =~= before + samples@.take(i as int));
    }
    assert(samples@.take(i as int) =~= samples@);
}

impl<S> Default for Segmenter<S> {
    fn default() -> (segmenter: Self)
        ensures
            segmenter@ == fresh_segmenter::<S>(),
            segmenter@.well_formed(),
    {
        Segmenter::new()
    }
}

impl<S> Segmenter<S> {
    pub fn new() -> (segmenter: Self)
        ensures
            segmenter@ == fresh_segmenter::<S>(),
            segmenter@.well_formed(),
    {
        let segmenter = Segmenter { buffer: Vec::new(), silence_run: 0, consumed: 0 };
        assert(segmenter@ =~= fresh_segmenter::<S>());
        segmenter
    }

    /// How many samples there were so far.
    pub fn fed(&self) -> (n: usize)
        requires
            self@.well_formed(),
        ensures
            n == self@.fed(),
    {
        self.consumed + self.buffer.len()
    }
}

impl<S: Copy> Segmenter<S> {
    fn take<Q: Fn(&[S]) -> bool>(&mut self, quiet: &Q) -> (utterance: Option<Utterance<S>>)
        requires
            total_judge(*quiet),
            old(self)@.fed() <= usize::MAX,
        ensures
            final(self)@ == old(self)@.drained(),
            forall|q: spec_fn(Seq<S>) -> bool| #[trigger]
                judges(*quiet, q) ==> listed(utterance) == taken(q, old(self)@).1,
    {
        let mut samples: Vec<S> = Vec::new();
        core::mem::swap(&mut samples, &mut self.buffer);
        let start: usize = self.consumed;
        self.consumed = start + samples.len();
        self.silence_run = 0;
        assert(self@ =~= old(self)@.drained());
        if samples.len() == 0 || quiet(samples.as_slice()) {
            return None;
        }
        Some(Utterance { samples, start, end: self.consumed })
    }

    fn add_frame<Q: Fn(&[S]) -> bool>(&mut self, frame: &[S], quiet: &Q) -> (utterance: Option<
        Utterance<S>,
    >)
        requires
            total_judge(*quiet),
            old(self)@.well_formed(),
            frame@.len() <= FRAME,
            old(self)@.fed() + frame@.len() <= usize::MAX,
        ensures
            final(self)@.well_formed(),
            final(self)@.fed() == old(self)@.fed() + frame@.len(),
            forall|q: spec_fn(Seq<S>) -> bool| #[trigger]
                judges(*quiet, q) ==> final(self)@ == framed(q, old(self)@, frame@).0 && listed(
                    utterance,
                ) == framed(q, old(self)@, frame@).1,
    {
        append(&mut self.buffer, frame);
        if quiet(frame) {
            self.silence_run = self.silence_run + frame.len();
        } else {
            self.silence_run = 0;
        }
        let long_enough: bool = self.buffer.len() >= MIN_SAMPLES;
        let trailing: bool = self.silence_run >= SILENCE_SAMPLES;
        let too_long: bool = self.buffer.len() >= MAX_SAMPLES;
        let ghost next = self@;
        assert forall|q: spec_fn(Seq<S>) -> bool| #[trigger] judges(*quiet, q) implies next
            == extended(q, old(self)@, frame@) by {
            assert(next =~= extended(q, old(self)@, frame@));
        }
        if (long_enough && trailing) || too_long {
            self.take(quiet)
        } else {
            None
        }
    }

    /// Feed samples, get back any utterances that just closed. `quiet` says whether a
    /// stretch of samples is quiet.
    pub fn push<Q: Fn(&[S]) -> bool>(&mut self, samples: &[S], quiet: Q) -> (out: Vec<
        Utterance<S>,
    >)
        requires
            total_judge(quiet),
            old(self)@.well_formed(),
            old(self)@.fed() + samples@.len() <= usize::MAX,
        ensures
            final(self)@.well_formed(),
            final(self)@.fed() == old(self)@.fed() + samples@.len(),
            forall|q: spec_fn(Seq<S>) -> bool| #[trigger]
                judges(quiet, q) ==> final(self)@ == pushed(q, old(self)@, samples@).0
                    && utterances_view(out@) == pushed(q, old(self)@, samples@).1,
    {
        let mut out: Vec<Utterance<S>> = Vec::new();
        let ghost before = self@;
        let mut i: usize = 0;
        proof {
            assert(samples@.skip(0) =~= samples@);
            assert forall|q: spec_fn(Seq<S>) -> bool| #[trigger] judges(quiet, q) implies (
            utterances_view(out@) + pushed(q, self@, samples@.skip(0)).1) == pushed(
                q,
                before,
                samples@,
            ).1 by {
                assert(utterances_view(out@) + pushed(q, before, samples@).1 =~= pushed(
                    q,
                    before,
                    samples@,
                ).1);
            }
        }
        while i < samples.len()
            invariant
                total_judge(quiet),
                i <= samples@.len(),
                self@.well_formed(),
                self@.fed() == before.fed() + i,
                before.fed() + samples@.len() <= usize::MAX,
                forall|q: spec_fn(Seq<S>) -> bool| #[trigger]
                    judges(quiet, q) ==> pushed(q, self@, samples@.skip(i as int)).0 == pushed(
                        q,
                        before,
                        samples@,
                    ).0 && utterances_view(out@) + pushed(q, self@, samples@.skip(i as int)).1
                        == pushed(q, before, samples@).1,
            decreases samples@.len() - i,
        {
            let n: usize = if samples.len() - i < FRAME {
                samples.len() - i
            } else {
                FRAME
            };
            let frame = slice_subrange(samples, i, i + n);
            let ghost s0 = self@;
            let ghost out0 = utterances_view(out@);
            let ghost left = samples@.skip(i as int);
            proof {
                assert(frame@ =~= left.take(n as int));
                assert(left.skip(n as int) =~= samples@.skip(i + n));
            }
            let closed = self.add_frame(frame, &quiet);
            let ghost found = listed(closed);
            if let Some(utterance) = closed {
                out.push(utterance);
            }
            proof {
                assert(utterances_view(out@) =~= out0 + found);
                assert forall|q: spec_fn(Seq<S>) -> bool| #[trigger] judges(quiet, q) implies pushed(
                    q,
                    self@,
                    samples@.skip(i + n),
                ).0 == pushed(q, before, samples@).0 && utterances_view(out@) + pushed(
                    q,
                    self@,
                    samples@.skip(i + n),
                ).1 == pushed(q, before, samples@).1 by {
                    let rest = pushed(q, self@, samples@.skip(i + n)).1;
                    assert(found == framed(q, s0, frame@).1);
                    assert(pushed(q, s0, left).1 == found + rest);
                    assert(out0 + found + rest =~= out0 + (found + rest));
                }
            }
            i = i + n;
        }
        proof {
            assert forall|q: spec_fn(Seq<S>) -> bool| #[trigger] judges(quiet, q) implies self@
                == pushed(q, before, samples@).0 && utterances_view(out@) == pushed(
                q,
                before,
                samples@,
            ).1 by {
                assert(pushed(q, self@, samples@.skip(i as int)).1 =~= Seq::empty());
                assert(utterances_view(out@) + Seq::empty() =~= utterances_view(out@));
            }
        }
        out
    }

    /// Close out whatever is left, e.g. when the recording stops.
    pub fn flush<Q: Fn(&[S]) -> bool>(&mut self, quiet: Q) -> (utterance: Option<Utterance<S>>)
        requires
            total_judge(quiet),
            old(self)@.well_formed(),
        ensures
            final(self)@.well_formed(),
            final(self)@ == old(self)@.drained(),
            forall|q: spec_fn(Seq<S>) -> bool| #[trigger]
                judges(quiet, q) ==> listed(utterance) == flushed(q, old(self)@).1,
    {
        if self.buffer.len() < FLUSH_SAMPLES {
            self.consumed = self.consumed + self.buffer.len();
            self.buffer.clear();
            self.silence_run = 0;
            assert(self@ =~= old(self)@.drained());
            return None;
        }
        self.take(&quiet)
    }
}

// ---------------------------------------------------------------------------
// What holds of every stream
// ---------------------------------------------------------------------------

/// Whether an utterance is a stretch of the stream, at the place that it names.
pub open spec fn lies_in<S>(u: UtteranceView<S>, stream: Seq<S>) -> bool {
    &&& u.start < u.end <= stream.len()
    &&& u.samples == stream.subrange(u.start as int, u.end as int)
}

/// Whether utterances lie in the stream one after the other, none of them before
/// `from` or after `to`.
pub open spec fn in_order<S>(
    utterances: Seq<UtteranceView<S>>,
    stream: Seq<S>,
    from: nat,
    to: nat,
) -> bool {
    &&& from <= to
    &&& forall|i: int|
        0 <= i < utterances.len() ==> {
            &&& lies_in(#[trigger] utterances[i], stream)
            &&& from <= utterances[i].start
            &&& utterances[i].end <= to
        }
    &&& forall|i: int, j: int|
        0 <= i < j < utterances.len() ==> (#[trigger] utterances[i]).end <= (
        #[trigger] utterances[j]).start
}

impl<S> SegmenterView<S> {
    /// Whether this is a segmenter that was fed this stream: what it has not consumed
    /// yet is the end of it.
    pub open spec fn was_fed(self, stream: Seq<S>) -> bool {
        &&& self.fed() == stream.len()
        &&& self.buffer == stream.skip(self.consumed as int)
    }
}

proof fn lemma_taken_in_order<S>(
    quiet: spec_fn(Seq<S>) -> bool,
    s: SegmenterView<S>,
    stream: Seq<S>,
)
    requires
        s.was_fed(stream),
    ensures
        taken(quiet, s).0.was_fed(stream),
        in_order(taken(quiet, s).1, stream, s.consumed, taken(quiet, s).0.consumed),
{
    assert(stream.skip(stream.len() as int) =~= Seq::empty());
    assert(s.buffer =~= stream.subrange(s.consumed as int, s.fed() as int));
}

proof fn lemma_framed_in_order<S>(
    quiet: spec_fn(Seq<S>) -> bool,
    s: SegmenterView<S>,
    stream: Seq<S>,
    frame: Seq<S>,
)
    requires
        s.was_fed(stream),
    ensures
        framed(quiet, s, frame).0.was_fed(stream + frame),
        in_order(
            framed(quiet, s, frame).1,
            stream + frame,
            s.consumed,
            framed(quiet, s, frame).0.consumed,
        ),
{
    let next = extended(quiet, s, frame);
    assert(next.buffer =~= (stream + frame).skip(s.consumed as int));
    lemma_taken_in_order(quiet, next, stream + frame);
}

proof fn lemma_in_order_joined<S>(
    first: Seq<UtteranceView<S>>,
    rest: Seq<UtteranceView<S>>,
    stream: Seq<S>,
    longer: Seq<S>,
    from: nat,
    between: nat,
    to: nat,
)
    requires
        stream.is_prefix_of(longer),
        in_order(first, stream, from, between),
        in_order(rest, longer, between, to),
    ensures
        in_order(first + rest, longer, from, to),
{
    let all = first + rest;
    assert forall|i: int| 0 <= i < all.len() implies {
        &&& lies_in(#[trigger] all[i], longer)
        &&& from <= all[i].start
        &&& all[i].end <= to
    } by {
        if i < first.len() {
            let u = first[i];
            assert(lies_in(u, stream));
            assert(stream.subrange(u.start as int, u.end as int) =~= longer.subrange(
                u.start as int,
                u.end as int,
            ));
        } else {
            assert(all[i] == rest[i - first.len()]);
        }
    }
    assert forall|i: int, j: int| 0 <= i < j < all.len() implies (#[trigger] all[i]).end <= (
    #[trigger] all[j]).start by {
        if j < first.len() {
            assert(all[i] == first[i] && all[j] == first[j]);
        } else if i < first.len() {
            assert(all[i] == first[i] && all[j] == rest[j - first.len()]);
        } else {
            assert(all[i] == rest[i - first.len()] && all[j] == rest[j - first.len()]);
        }
    }
}

/// The utterances that samples lead to are stretches of the whole stream, each at
/// the place that it names, in order and without overlap; and what does not belong
/// to one yet is kept.
pub proof fn utterances_are_timed_against_the_stream<S>(
    quiet: spec_fn(Seq<S>) -> bool,
    s: SegmenterView<S>,
    stream: Seq<S>,
    samples: Seq<S>,
)
    requires
        s.was_fed(stream),
    ensures
        pushed(quiet, s, samples).0.was_fed(stream + samples),
        in_order(
            pushed(quiet, s, samples).1,
            stream + samples,
            s.consumed,
            pushed(quiet, s, samples).0.consumed,
        ),
    decreases samples.len(),
{
    if samples.len() == 0 {
        assert(stream + samples =~= stream);
    } else {
        let n = frame_len(samples.len());
        let frame = samples.take(n);
        let rest = samples.skip(n);
        let (next, first) = framed(quiet, s, frame);
        lemma_framed_in_order(quiet, s, stream, frame);
        utterances_are_timed_against_the_stream(quiet, next, stream + frame, rest);
        assert(stream + frame + rest =~= stream + samples);
        assert((stream + frame).is_prefix_of(stream + samples));
        lemma_in_order_joined(
            first,
            pushed(quiet, next, rest).1,
            stream + frame,
            stream + samples,
            s.consumed,
            next.consumed,
            pushed(quiet, next, rest).0.consumed,
        );
    }
}

/// The same of what is left at the end of the stream.
pub proof fn the_last_utterance_is_timed_against_the_stream<S>(
    quiet: spec_fn(Seq<S>) -> bool,
    s: SegmenterView<S>,
    stream: Seq<S>,
)
    requires
        s.was_fed(stream),
    ensures
        flushed(quiet, s).0 == s.drained(),
        flushed(quiet, s).0.was_fed(stream),
        in_order(flushed(quiet, s).1, stream, s.consumed, stream.len()),
{
    lemma_taken_in_order(quiet, s, stream);
}

/// Pieces of a stream, put together.
pub open spec fn stream_of<S>(pieces: Seq<Seq<S>>) -> Seq<S>
    decreases pieces.len(),
{
    if pieces.len() == 0 {
        Seq::empty()
    } else {
        stream_of(pieces.drop_last()) + pieces.last()
    }
}

/// What a stream leads to that comes in pieces.
pub open spec fn heard<S>(quiet: spec_fn(Seq<S>) -> bool, pieces: Seq<Seq<S>>) -> (
    SegmenterView<S>,
    Seq<UtteranceView<S>>,
)
    decreases pieces.len(),
{
    if pieces.len() == 0 {
        (fresh_segmenter(), Seq::empty())
    } else {
        let (s, before) = heard(quiet, pieces.drop_last());
        let (t, now) = pushed(quiet, s, pieces.last());
        (t, before + now)
    }
}

/// However a recording is cut into pieces on its way, all of its utterances, with the
/// one that its end leads to, lie in it one after the other at the places that they
/// name.
pub proof fn recordings_are_heard_in_order<S>(
    quiet: spec_fn(Seq<S>) -> bool,
    pieces: Seq<Seq<S>>,
)
    ensures
        heard(quiet, pieces).0.was_fed(stream_of(pieces)),
        in_order(
            heard(quiet, pieces).1,
            stream_of(pieces),
            0,
            heard(quiet, pieces).0.consumed,
        ),
        in_order(
            heard(quiet, pieces).1 + flushed(quiet, heard(quiet, pieces).0).1,
            stream_of(pieces),
            0,
            stream_of(pieces).len(),
        ),
    decreases pieces.len(),
{
    let stream = stream_of(pieces);
    let (t, all) = heard(quiet, pieces);
    if pieces.len() == 0 {
        assert(stream.skip(0) =~= Seq::empty());
    } else {
        let (s, before) = heard(quiet, pieces.drop_last());
        let (_, now) = pushed(quiet, s, pieces.last());
        let earlier = stream_of(pieces.drop_last());
        recordings_are_heard_in_order(quiet, pieces.drop_last());
        utterances_are_timed_against_the_stream(quiet, s, earlier, pieces.last());
        assert(earlier.is_prefix_of(stream));
        lemma_in_order_joined(before, now, earlier, stream, 0, s.consumed, t.consumed);
    }
    the_last_utterance_is_timed_against_the_stream(quiet, t, stream);
    assert(stream.is_prefix_of(stream));
    lemma_in_order_joined(all, flushed(quiet, t).1, stream, stream, 0, t.consumed, stream.len());
}

/// Whether stretches of the stream follow each other without a gap from `from` to `to`.
pub open spec fn tiles<S>(
    stretches: Seq<UtteranceView<S>>,
    stream: Seq<S>,
    from: nat,
    to: nat,
) -> bool
    decreases stretches.len(),
{
    if stretches.len() == 0 {
        from == to
    } else {
        let last = stretches.last();
        &&& tiles(stretches.drop_last(), stream, from, last.start)
        &&& lies_in(last, stream)
        &&& last.end == to
    }
}

/// Those of the stretches that are not quiet from end to end.
pub open spec fn speech_in<S>(
    quiet: spec_fn(Seq<S>) -> bool,
    stretches: Seq<UtteranceView<S>>,
) -> Seq<UtteranceView<S>>
    decreases stretches.len(),
{
    if stretches.len() == 0 {
        Seq::empty()
    } else {
        let before = speech_in(quiet, stretches.drop_last());
        if quiet(stretches.last().samples) {
            before
        } else {
            before.push(stretches.last())
        }
    }
}

proof fn lemma_tiles_in_longer<S>(
    stretches: Seq<UtteranceView<S>>,
    stream: Seq<S>,
    longer: Seq<S>,
    from: nat,
    to: nat,
)
    requires
        stream.is_prefix_of(longer),
        tiles(stretches, stream, from, to),
    ensures
        tiles(stretches, longer, from, to),
    decreases stretches.len(),
{
    if stretches.len() > 0 {
        let last = stretches.last();
        lemma_tiles_in_longer(stretches.drop_last(), stream, longer, from, last.start);
        assert(stream.subrange(last.start as int, last.end as int) =~= longer.subrange(
            last.start as int,
            last.end as int,
        ));
    }
}

proof fn lemma_tiles_joined<S>(
    quiet: spec_fn(Seq<S>) -> bool,
    first: Seq<UtteranceView<S>>,
    rest: Seq<UtteranceView<S>>,
    stream: Seq<S>,
    from: nat,
    between: nat,
    to: nat,
)
    requires
        tiles(first, stream, from, between),
        tiles(rest, stream, between, to),
    ensures
        tiles(first + rest, stream, from, to),
        speech_in(quiet, first + rest) == speech_in(quiet, first) + speech_in(quiet, rest),
    decreases rest.len(),
{
    if rest.len() == 0 {
        assert(first + rest =~= first);
    } else {
        lemma_tiles_joined(
            quiet,
            first,
            rest.drop_last(),
            stream,
            from,
            between,
            rest.last().start,
        );
        assert((first + rest).drop_last() =~= first + rest.drop_last());
    }
}

proof fn lemma_taken_tiles<S>(
    quiet: spec_fn(Seq<S>) -> bool,
    s: SegmenterView<S>,
    stream: Seq<S>,
) -> (stretches: Seq<UtteranceView<S>>)
    requires
        s.was_fed(stream),
    ensures
        tiles(stretches, stream, s.consumed, s.fed()),
        speech_in(quiet, stretches) == taken(quiet, s).1,
{
    let none = Seq::<UtteranceView<S>>::empty();
    if s.buffer.len() == 0 {
        none
    } else {
        let all = UtteranceView { samples: s.buffer, start: s.consumed, end: s.fed() };
        assert(s.buffer =~= stream.subrange(s.consumed as int, s.fed() as int));
        assert(none.push(all).drop_last() =~= none);
        assert(tiles(none, stream, s.consumed, s.consumed));
        assert(speech_in(quiet, none) == none);
        none.push(all)
    }
}

proof fn lemma_pushed_tiles<S>(
    quiet: spec_fn(Seq<S>) -> bool,
    s: SegmenterView<S>,
    stream: Seq<S>,
    samples: Seq<S>,
) -> (stretches: Seq<UtteranceView<S>>)
    requires
        s.was_fed(stream),
    ensures
        tiles(stretches, stream + samples, s.consumed, pushed(quiet, s, samples).0.consumed),
        speech_in(quiet, stretches) == pushed(quiet, s, samples).1,
    decreases samples.len(),
{
    if samples.len() == 0 {
        Seq::empty()
    } else {
        let n = frame_len(samples.len());
        let frame = samples.take(n);
        let rest = samples.skip(n);
        let next = extended(quiet, s, frame);
        let after = framed(quiet, s, frame).0;
        lemma_framed_in_order(quiet, s, stream, frame);
        assert(next.buffer =~= (stream + frame).skip(s.consumed as int));
        let first = if closes(next) {
            lemma_taken_tiles(quiet, next, stream + frame)
        } else {
            Seq::empty()
        };
        let others = lemma_pushed_tiles(quiet, after, stream + frame, rest);
        assert(stream + frame + rest =~= stream + samples);
        assert((stream + frame).is_prefix_of(stream + samples));
        lemma_tiles_in_longer(
            first,
            stream + frame,
            stream + samples,
            s.consumed,
            after.consumed,
        );
        lemma_tiles_joined(
            quiet,
            first,
            others,
            stream + samples,
            s.consumed,
            after.consumed,
            pushed(quiet, s, samples).0.consumed,
        );
        first + others
    }
}

proof fn lemma_heard_tiles<S>(quiet: spec_fn(Seq<S>) -> bool, pieces: Seq<Seq<S>>) -> (stretches:
    Seq<UtteranceView<S>>)
    ensures
        tiles(stretches, stream_of(pieces), 0, heard(quiet, pieces).0.consumed),
        speech_in(quiet, stretches) == heard(quiet, pieces).1,
    decreases pieces.len(),
{
    if pieces.len() == 0 {
        Seq::empty()
    } else {
        let front = pieces.drop_last();
        let s = heard(quiet, front).0;
        let end = heard(quiet, pieces).0.consumed;
        let stream = stream_of(pieces);
        recordings_are_heard_in_order(quiet, front);
        let before = lemma_heard_tiles(quiet, front);
        let now = lemma_pushed_tiles(quiet, s, stream_of(front), pieces.last());
        assert(stream_of(front).is_prefix_of(stream));
        lemma_tiles_in_longer(before, stream_of(front), stream, 0, s.consumed);
        lemma_tiles_joined(quiet, before, now, stream, 0, s.consumed, end);
        before + now
    }
}

/// All of the utterances of a recording that comes in pieces, with the one that its end
/// leads to.
pub open spec fn all_heard<S>(quiet: spec_fn(Seq<S>) -> bool, pieces: Seq<Seq<S>>) -> Seq<
    UtteranceView<S>,
> {
    heard(quiet, pieces).1 + flushed(quiet, heard(quiet, pieces).0).1
}

/// How far a recording was listened to: what is left at its end is dropped where it is
/// less than a quarter of a second.
pub open spec fn listened_to<S>(quiet: spec_fn(Seq<S>) -> bool, pieces: Seq<Seq<S>>) -> nat {
    if heard(quiet, pieces).0.buffer.len() < FLUSH_SAMPLES {
        heard(quiet, pieces).0.consumed
    } else {
        stream_of(pieces).len()
    }
}

/// Nothing but silence is left out: a recording, but for less than a quarter of a second
/// at its end, falls into stretches that follow each other without a gap, and its
/// utterances are those of them that are not quiet from end to end. So what lies before,
/// between and behind the utterances is made of stretches that were judged quiet.
pub proof fn only_silence_is_left_out<S>(
    quiet: spec_fn(Seq<S>) -> bool,
    pieces: Seq<Seq<S>>,
) -> (stretches: Seq<UtteranceView<S>>)
    ensures
        tiles(stretches, stream_of(pieces), 0, listened_to(quiet, pieces)),
        all_heard(quiet, pieces) == speech_in(quiet, stretches),
        listened_to(quiet, pieces) <= stream_of(pieces).len() < listened_to(quiet, pieces)
            + FLUSH_SAMPLES,
{
    let stream = stream_of(pieces);
    let s = heard(quiet, pieces).0;
    recordings_are_heard_in_order(quiet, pieces);
    let before = lemma_heard_tiles(quiet, pieces);
    if s.buffer.len() < FLUSH_SAMPLES {
        assert(all_heard(quiet, pieces) =~= heard(quiet, pieces).1);
        before
    } else {
        let last = lemma_taken_tiles(quiet, s, stream);
        lemma_tiles_joined(quiet, before, last, stream, 0, s.consumed, stream.len());
        before + last
    }
}

/// The samples of each of these utterances.
pub open spec fn samples_in<S>(utterances: Seq<UtteranceView<S>>) -> Seq<Seq<S>> {
    Seq::new(utterances.len(), |i: int| utterances[i].samples)
}

proof fn lemma_tiles_make_the_stream<S>(
    quiet: spec_fn(Seq<S>) -> bool,
    stretches: Seq<UtteranceView<S>>,
    stream: Seq<S>,
    to: nat,
)
    requires
        tiles(stretches, stream, 0, to),
        forall|stretch: Seq<S>| stretch.len() > 0 ==> !#[trigger] quiet(stretch),
    ensures
        to <= stream.len(),
        speech_in(quiet, stretches) == stretches,
        stream_of(samples_in(stretches)) == stream.take(to as int),
    decreases stretches.len(),
{
    if stretches.len() > 0 {
        let last = stretches.last();
        lemma_tiles_make_the_stream(quiet, stretches.drop_last(), stream, last.start);
        assert(stretches.drop_last().push(last) =~= stretches);
        assert(samples_in(stretches).drop_last() =~= samples_in(stretches.drop_last()));
        assert(stream.take(last.start as int) + last.samples =~= stream.take(to as int));
    } else {
        assert(stream.take(0) =~= Seq::empty());
    }
}

/// Where no stretch is quiet, nothing is lost: the utterances put together are the
/// recording, but for less than a quarter of a second at its end.
pub proof fn speech_without_silence_is_heard_whole<S>(
    quiet: spec_fn(Seq<S>) -> bool,
    pieces: Seq<Seq<S>>,
)
    requires
        forall|stretch: Seq<S>| stretch.len() > 0 ==> !#[trigger] quiet(stretch),
    ensures
        stream_of(samples_in(all_heard(quiet, pieces))) == stream_of(pieces).take(
            listened_to(quiet, pieces) as int,
        ),
        listened_to(quiet, pieces) <= stream_of(pieces).len() < listened_to(quiet, pieces)
            + FLUSH_SAMPLES,
{
    let stretches = only_silence_is_left_out(quiet, pieces);
    lemma_tiles_make_the_stream(
        quiet,
        stretches,
        stream_of(pieces),
        listened_to(quiet, pieces),
    );
}

/// The frames that samples are judged by, one after the other.
pub open spec fn frames_in<S>(samples: Seq<S>) -> Seq<Seq<S>>
    decreases samples.len(),
{
    if samples.len() == 0 {
        Seq::empty()
    } else if samples.len() <= SAMPLE_RATE / 33 {
        seq![samples]
    } else {
        let n = (SAMPLE_RATE / 33) as int;
        seq![samples.take(n)] + frames_in(samples.skip(n))
    }
}

/// The frames of a recording that comes in pieces.
pub open spec fn frames_of<S>(pieces: Seq<Seq<S>>) -> Seq<Seq<S>>
    decreases pieces.len(),
{
    if pieces.len() == 0 {
        Seq::empty()
    } else {
        frames_of(pieces.drop_last()) + frames_in(pieces.last())
    }
}

/// How many samples at the end of these frames are quiet, frame by frame.
pub open spec fn quiet_end<S>(quiet: spec_fn(Seq<S>) -> bool, frames: Seq<Seq<S>>) -> nat
    decreases frames.len(),
{
    if frames.len() > 0 && quiet(frames.last()) {
        quiet_end(quiet, frames.drop_last()) + frames.last().len()
    } else {
        0
    }
}

/// Whether frames are to become an utterance: they last a second and end in nine tenths of
/// a second of silence, or they last twenty seconds.
pub open spec fn complete<S>(quiet: spec_fn(Seq<S>) -> bool, frames: Seq<Seq<S>>) -> bool {
    let length = stream_of(frames).len();
    ||| length >= SAMPLE_RATE && 10 * quiet_end(quiet, frames) >= 9 * SAMPLE_RATE
    ||| length >= 20 * SAMPLE_RATE
}

/// Whether frames are not complete yet, and were not at any time before.
pub open spec fn incomplete<S>(quiet: spec_fn(Seq<S>) -> bool, frames: Seq<Seq<S>>) -> bool {
    forall|k: int| 0 <= k <= frames.len() ==> !complete(quiet, #[trigger] frames.take(k))
}

/// Whether frames are complete, and became so with the last of them.
pub open spec fn just_complete<S>(quiet: spec_fn(Seq<S>) -> bool, frames: Seq<Seq<S>>) -> bool {
    frames.len() > 0 && incomplete(quiet, frames.drop_last()) && complete(quiet, frames)
}

/// The utterances that groups of frames become: those that are not quiet from end to end,
/// each at its place in the stream.
pub open spec fn utterances_of<S>(
    quiet: spec_fn(Seq<S>) -> bool,
    groups: Seq<Seq<Seq<S>>>,
) -> Seq<UtteranceView<S>>
    decreases groups.len(),
{
    if groups.len() == 0 {
        Seq::empty()
    } else {
        let before = utterances_of(quiet, groups.drop_last());
        let samples = stream_of(groups.last());
        let start = stream_of(stream_of(groups.drop_last())).len();
        if quiet(samples) {
            before
        } else {
            before.push(UtteranceView { samples, start, end: start + samples.len() })
        }
    }
}

/// Whether a segmenter that was given these frames has cut them into these groups, and
/// still holds the rest.
spec fn has_cut<S>(
    quiet: spec_fn(Seq<S>) -> bool,
    s: SegmenterView<S>,
    utterances: Seq<UtteranceView<S>>,
    frames: Seq<Seq<S>>,
    groups: Seq<Seq<Seq<S>>>,
    rest: Seq<Seq<S>>,
) -> bool {
    &&& frames == stream_of(groups) + rest
    &&& forall|i: int| 0 <= i < groups.len() ==> just_complete(quiet, #[trigger] groups[i])
    &&& incomplete(quiet, rest)
    &&& s.buffer == stream_of(rest)
    &&& s.silence_run == quiet_end(quiet, rest)
    &&& s.consumed == stream_of(stream_of(groups)).len()
    &&& utterances == utterances_of(quiet, groups)
}

proof fn lemma_streams_joined<S>(a: Seq<Seq<S>>, b: Seq<Seq<S>>)
    ensures
        stream_of(a + b) == stream_of(a) + stream_of(b),
    decreases b.len(),
{
    if b.len() == 0 {
        assert(a + b =~= a);
        assert(stream_of(a) + stream_of(b) =~= stream_of(a));
    } else {
        lemma_streams_joined(a, b.drop_last());
        assert((a + b).drop_last() =~= a + b.drop_last());
        assert(stream_of(a) + stream_of(b.drop_last()) + b.last() =~= stream_of(a) + (stream_of(
            b.drop_last(),
        ) + b.last()));
    }
}

proof fn lemma_frame_has_cut<S>(
    quiet: spec_fn(Seq<S>) -> bool,
    s: SegmenterView<S>,
    utterances: Seq<UtteranceView<S>>,
    frames: Seq<Seq<S>>,
    groups: Seq<Seq<Seq<S>>>,
    rest: Seq<Seq<S>>,
    frame: Seq<S>,
) -> (cut: (Seq<Seq<Seq<S>>>, Seq<Seq<S>>))
    requires
        has_cut(quiet, s, utterances, frames, groups, rest),
    ensures
        has_cut(
            quiet,
            framed(quiet, s, frame).0,
            utterances + framed(quiet, s, frame).1,
            frames.push(frame),
            cut.0,
            cut.1,
        ),
{
    let more = rest.push(frame);
    let next = extended(quiet, s, frame);
    let none = Seq::<Seq<S>>::empty();
    assert(more.drop_last() =~= rest);
    assert(next.buffer == stream_of(more));
    assert(next.silence_run == quiet_end(quiet, more));
    assert(closes(next) == complete(quiet, more));
    assert(frames.push(frame) =~= stream_of(groups) + more);
    assert(incomplete(quiet, none)) by {
        assert forall|k: int| 0 <= k <= none.len() implies !complete(
            quiet,
            #[trigger] none.take(k),
        ) by {
            assert(none.take(k) =~= none);
            assert(stream_of(none).len() == 0);
        }
    }
    if closes(next) {
        let cut = groups.push(more);
        assert(cut.drop_last() =~= groups);
        assert(stream_of(cut) =~= frames.push(frame));
        assert(stream_of(cut) + none =~= frames.push(frame));
        lemma_streams_joined(stream_of(groups), more);
        assert forall|i: int| 0 <= i < cut.len() implies just_complete(quiet, #[trigger] cut[i]) by {
            if i < groups.len() {
                assert(cut[i] == groups[i]);
            }
        }
        assert(utterances + framed(quiet, s, frame).1 =~= utterances_of(quiet, cut));
        (cut, none)
    } else {
        assert(incomplete(quiet, more)) by {
            assert forall|k: int| 0 <= k <= more.len() implies !complete(
                quiet,
                #[trigger] more.take(k),
            ) by {
                if k < more.len() {
                    assert(more.take(k) =~= rest.take(k));
                } else {
                    assert(more.take(k) =~= more);
                }
            }
        }
        assert(utterances + framed(quiet, s, frame).1 =~= utterances);
        (groups, more)
    }
}

proof fn lemma_push_has_cut<S>(
    quiet: spec_fn(Seq<S>) -> bool,
    s: SegmenterView<S>,
    utterances: Seq<UtteranceView<S>>,
    frames: Seq<Seq<S>>,
    groups: Seq<Seq<Seq<S>>>,
    rest: Seq<Seq<S>>,
    samples: Seq<S>,
) -> (cut: (Seq<Seq<Seq<S>>>, Seq<Seq<S>>))
    requires
        has_cut(quiet, s, utterances, frames, groups, rest),
    ensures
        has_cut(
            quiet,
            pushed(quiet, s, samples).0,
            utterances + pushed(quiet, s, samples).1,
            frames + frames_in(samples),
            cut.0,
            cut.1,
        ),
    decreases samples.len(),
{
    if samples.len() == 0 {
        assert(frames + frames_in(samples) =~= frames);
        assert(utterances + pushed(quiet, s, samples).1 =~= utterances);
        (groups, rest)
    } else {
        let n = frame_len(samples.len());
        let frame = samples.take(n);
        let others = samples.skip(n);
        let (next, first) = framed(quiet, s, frame);
        let mid = lemma_frame_has_cut(quiet, s, utterances, frames, groups, rest, frame);
        let cut = lemma_push_has_cut(
            quiet,
            next,
            utterances + first,
            frames.push(frame),
            mid.0,
            mid.1,
            others,
        );
        assert(frames.push(frame) + frames_in(others) =~= frames + frames_in(samples)) by {
            if samples.len() <= FRAME {
                assert(frame =~= samples);
                assert(others =~= Seq::empty());
            }
        }
        assert(utterances + first + pushed(quiet, next, others).1 =~= utterances + pushed(
            quiet,
            s,
            samples,
        ).1);
        cut
    }
}

proof fn lemma_heard_has_cut<S>(quiet: spec_fn(Seq<S>) -> bool, pieces: Seq<Seq<S>>) -> (cut: (
    Seq<Seq<Seq<S>>>,
    Seq<Seq<S>>,
))
    ensures
        has_cut(
            quiet,
            heard(quiet, pieces).0,
            heard(quiet, pieces).1,
            frames_of(pieces),
            cut.0,
            cut.1,
        ),
    decreases pieces.len(),
{
    if pieces.len() == 0 {
        let none = Seq::<Seq<S>>::empty();
        let groups = Seq::<Seq<Seq<S>>>::empty();
        assert(stream_of(groups) =~= none);
        assert(stream_of(none) =~= Seq::empty());
        assert(stream_of(groups) + none =~= none);
        assert forall|k: int| 0 <= k <= none.len() implies !complete(
            quiet,
            #[trigger] none.take(k),
        ) by {
            assert(none.take(k) =~= none);
        }
        (groups, none)
    } else {
        let (s, before) = heard(quiet, pieces.drop_last());
        let mid = lemma_heard_has_cut(quiet, pieces.drop_last());
        lemma_push_has_cut(
            quiet,
            s,
            before,
            frames_of(pieces.drop_last()),
            mid.0,
            mid.1,
            pieces.last(),
        )
    }
}

/// Every pause ends an utterance, and nothing else does but its length: the frames of a
/// recording fall into groups, each of which became complete with its last frame and not
/// before, and a rest that is not complete yet. The utterances are the groups that are not
/// quiet from end to end, at their places in the stream; and at the end of the recording
/// the rest becomes one, too, where it is not quiet and lasts a quarter of a second.
pub proof fn pauses_end_utterances<S>(quiet: spec_fn(Seq<S>) -> bool, pieces: Seq<Seq<S>>) -> (cut: (
    Seq<Seq<Seq<S>>>,
    Seq<Seq<S>>,
))
    ensures
        frames_of(pieces) == stream_of(cut.0) + cut.1,
        forall|i: int| 0 <= i < cut.0.len() ==> just_complete(quiet, #[trigger] cut.0[i]),
        incomplete(quiet, cut.1),
        heard(quiet, pieces).0.buffer == stream_of(cut.1),
        heard(quiet, pieces).1 == utterances_of(quiet, cut.0),
        all_heard(quiet, pieces) == utterances_of(
            quiet,
            if 4 * stream_of(cut.1).len() >= SAMPLE_RATE {
                cut.0.push(cut.1)
            } else {
                cut.0
            },
        ),
{
    let cut = lemma_heard_has_cut(quiet, pieces);
    let s = heard(quiet, pieces).0;
    if 4 * stream_of(cut.1).len() >= SAMPLE_RATE {
        assert(cut.0.push(cut.1).drop_last() =~= cut.0);
    }
    assert(all_heard(quiet, pieces) =~= utterances_of(
        quiet,
        if 4 * stream_of(cut.1).len() >= SAMPLE_RATE {
            cut.0.push(cut.1)
        } else {
            cut.0
        },
    ));
    cut
}

/// After any push, what is left never both lasts a second and ends in nine tenths of a
/// second of silence, and never lasts twenty seconds.
pub proof fn no_pause_is_passed_over<S>(quiet: spec_fn(Seq<S>) -> bool, pieces: Seq<Seq<S>>)
    ensures
        exists|cut: int|
            0 <= cut <= frames_of(pieces).len() && {
                let left = #[trigger] frames_of(pieces).skip(cut);
                &&& heard(quiet, pieces).0.buffer == stream_of(left)
                &&& !(stream_of(left).len() >= SAMPLE_RATE && 10 * quiet_end(quiet, left) >= 9
                    * SAMPLE_RATE)
                &&& stream_of(left).len() < 20 * SAMPLE_RATE
            },
{
    let cut = pauses_end_utterances(quiet, pieces);
    let at = stream_of(cut.0).len() as int;
    assert(frames_of(pieces).skip(at) =~= cut.1);
    assert(cut.1.take(cut.1.len() as int) =~= cut.1);
}

/// The frames of a recording, put together, are the recording.
pub proof fn frames_make_the_recording<S>(pieces: Seq<Seq<S>>)
    ensures
        stream_of(frames_of(pieces)) == stream_of(pieces),
    decreases pieces.len(),
{
    if pieces.len() > 0 {
        frames_make_the_recording(pieces.drop_last());
        lemma_frames_make_the_piece(pieces.last());
        lemma_streams_joined(frames_of(pieces.drop_last()), frames_in(pieces.last()));
    }
}

proof fn lemma_frames_make_the_piece<S>(samples: Seq<S>)
    ensures
        stream_of(frames_in(samples)) == samples,
    decreases samples.len(),
{
    let none = Seq::<Seq<S>>::empty();
    assert(stream_of(none) =~= Seq::empty());
    if samples.len() == 0 {
    } else {
        let n = frame_len(samples.len());
        let frame = samples.take(n);
        let first = seq![frame];
        assert(first.drop_last() =~= none);
        assert(stream_of(first) =~= frame);
        if samples.len() <= FRAME {
            assert(frame =~= samples);
        } else {
            lemma_frames_make_the_piece(samples.skip(n));
            lemma_streams_joined(first, frames_in(samples.skip(n)));
            assert(frame + samples.skip(n) =~= samples);
        }
    }
}

/// Silence does not reach the engine, and long speech is cut: an utterance is never
/// quiet from end to end, it lasts at least a second, and it is cut at the end of the
/// frame that makes it twenty seconds long.
pub proof fn utterances_are_neither_quiet_nor_endless<S>(
    quiet: spec_fn(Seq<S>) -> bool,
    s: SegmenterView<S>,
    samples: Seq<S>,
)
    requires
        s.buffer.len() < MAX_SAMPLES,
    ensures
        pushed(quiet, s, samples).0.buffer.len() < MAX_SAMPLES,
        forall|i: int|
            0 <= i < pushed(quiet, s, samples).1.len() ==> {
                let u = #[trigger] pushed(quiet, s, samples).1[i];
                &&& !quiet(u.samples)
                &&& MIN_SAMPLES <= u.samples.len() < MAX_SAMPLES + FRAME
            },
    decreases samples.len(),
{
    if samples.len() > 0 {
        let n = frame_len(samples.len());
        let (next, first) = framed(quiet, s, samples.take(n));
        utterances_are_neither_quiet_nor_endless(quiet, next, samples.skip(n));
        let rest = pushed(quiet, next, samples.skip(n)).1;
        assert forall|i: int| 0 <= i < pushed(quiet, s, samples).1.len() implies {
            let u = #[trigger] pushed(quiet, s, samples).1[i];
            &&& !quiet(u.samples)
            &&& MIN_SAMPLES <= u.samples.len() < MAX_SAMPLES + FRAME
        } by {
            if i >= first.len() {
                assert(pushed(quiet, s, samples).1[i] == rest[i - first.len()]);
            }
        }
    }
}

/// It does not matter in how many pushes whole frames come: pushing `x` and then `y`
/// is pushing both at once.
pub proof fn frames_may_come_together_or_apart<S>(
    quiet: spec_fn(Seq<S>) -> bool,
    s: SegmenterView<S>,
    x: Seq<S>,
    y: Seq<S>,
)
    requires
        x.len() % (FRAME as nat) == 0,
    ensures
        pushed(quiet, s, x + y).0 == pushed(quiet, pushed(quiet, s, x).0, y).0,
        pushed(quiet, s, x + y).1 == pushed(quiet, s, x).1 + pushed(
            quiet,
            pushed(quiet, s, x).0,
            y,
        ).1,
    decreases x.len(),
{
    if x.len() == 0 {
        assert(x + y =~= y);
        assert(pushed(quiet, s, x).1 + pushed(quiet, s, y).1 =~= pushed(quiet, s, y).1);
    } else {
        let n = FRAME as int;
        assert(x.len() >= n);
        let (next, first) = framed(quiet, s, x.take(n));
        assert((x + y).take(n) =~= x.take(n));
        assert((x + y).skip(n) =~= x.skip(n) + y);
        frames_may_come_together_or_apart(quiet, next, x.skip(n), y);
        let mid = pushed(quiet, next, x.skip(n));
        assert(first + (mid.1 + pushed(quiet, mid.0, y).1) =~= (first + mid.1) + pushed(
            quiet,
            mid.0,
            y,
        ).1);
    }
}

/// Whether each of these frames is quiet.
pub open spec fn all_quiet<S>(quiet: spec_fn(Seq<S>) -> bool, frames: Seq<Seq<S>>) -> bool {
    forall|i: int| 0 <= i < frames.len() ==> quiet(#[trigger] frames[i])
}

/// Whether the last `run` of these samples are quiet, frame by frame.
pub open spec fn ends_quiet<S>(
    quiet: spec_fn(Seq<S>) -> bool,
    samples: Seq<S>,
    run: nat,
) -> bool {
    run <= samples.len() && exists|frames: Seq<Seq<S>>| #[trigger]
        all_quiet(quiet, frames) && stream_of(frames) == samples.skip(samples.len() - run)
}

proof fn lemma_extended_ends_quiet<S>(
    quiet: spec_fn(Seq<S>) -> bool,
    s: SegmenterView<S>,
    frame: Seq<S>,
)
    requires
        ends_quiet(quiet, s.buffer, s.silence_run),
    ensures
        ends_quiet(
            quiet,
            extended(quiet, s, frame).buffer,
            extended(quiet, s, frame).silence_run,
        ),
{
    let next = extended(quiet, s, frame);
    if quiet(frame) {
        let frames = choose|frames: Seq<Seq<S>>| #[trigger]
            all_quiet(quiet, frames) && stream_of(frames) == s.buffer.skip(
                s.buffer.len() - s.silence_run,
            );
        let more = frames.push(frame);
        assert(more.drop_last() =~= frames);
        assert(all_quiet(quiet, more));
        assert(stream_of(more) =~= next.buffer.skip(next.buffer.len() - next.silence_run));
    } else {
        let none = Seq::<Seq<S>>::empty();
        assert(all_quiet(quiet, none));
        assert(stream_of(none) =~= next.buffer.skip(next.buffer.len() as int));
    }
}

/// An utterance that is not cut for its length ends in nine tenths of a second of
/// silence at least.
pub proof fn utterances_are_split_on_silence<S>(
    quiet: spec_fn(Seq<S>) -> bool,
    s: SegmenterView<S>,
    samples: Seq<S>,
)
    requires
        ends_quiet(quiet, s.buffer, s.silence_run),
    ensures
        ({
            let (t, utterances) = pushed(quiet, s, samples);
            &&& ends_quiet(quiet, t.buffer, t.silence_run)
            &&& forall|i: int|
                0 <= i < utterances.len() ==> {
                    let u = #[trigger] utterances[i];
                    u.samples.len() >= MAX_SAMPLES || exists|run: nat|
                        run >= SILENCE_SAMPLES && #[trigger] ends_quiet(quiet, u.samples, run)
                }
        }),
    decreases samples.len(),
{
    if samples.len() > 0 {
        let n = frame_len(samples.len());
        let frame = samples.take(n);
        let extended = extended(quiet, s, frame);
        let (next, first) = framed(quiet, s, frame);
        lemma_extended_ends_quiet(quiet, s, frame);
        let none = Seq::<Seq<S>>::empty();
        assert(all_quiet(quiet, none));
        assert(closes(extended) ==> stream_of(none) =~= next.buffer.skip(0));
        utterances_are_split_on_silence(quiet, next, samples.skip(n));
        let rest = pushed(quiet, next, samples.skip(n)).1;
        let all = pushed(quiet, s, samples).1;
        assert forall|i: int| 0 <= i < all.len() implies {
            let u = #[trigger] all[i];
            u.samples.len() >= MAX_SAMPLES || exists|run: nat|
                run >= SILENCE_SAMPLES && #[trigger] ends_quiet(quiet, u.samples, run)
        } by {
            if i >= first.len() {
                assert(all[i] == rest[i - first.len()]);
            } else {
                assert(all[i].samples == extended.buffer);
                assert(ends_quiet(quiet, extended.buffer, extended.silence_run));
            }
        }
    }
}

/// Whether an utterance is one that a stream is to be split into: it is not quiet from
/// end to end, it lasts at least a second, and it ends in silence or was cut for its
/// length.
pub open spec fn well_cut<S>(quiet: spec_fn(Seq<S>) -> bool, u: UtteranceView<S>) -> bool {
    &&& !quiet(u.samples)
    &&& MIN_SAMPLES <= u.samples.len() < MAX_SAMPLES + FRAME
    &&& u.samples.len() >= MAX_SAMPLES || exists|run: nat|
        run >= SILENCE_SAMPLES && #[trigger] ends_quiet(quiet, u.samples, run)
}

/// However a recording is cut into pieces on its way, each of its utterances is well
/// cut.
pub proof fn recordings_are_well_cut<S>(quiet: spec_fn(Seq<S>) -> bool, pieces: Seq<Seq<S>>)
    ensures
        heard(quiet, pieces).0.buffer.len() < MAX_SAMPLES,
        ends_quiet(
            quiet,
            heard(quiet, pieces).0.buffer,
            heard(quiet, pieces).0.silence_run,
        ),
        forall|i: int|
            0 <= i < heard(quiet, pieces).1.len() ==> well_cut(
                quiet,
                #[trigger] heard(quiet, pieces).1[i],
            ),
    decreases pieces.len(),
{
    let (t, all) = heard(quiet, pieces);
    if pieces.len() == 0 {
        let none = Seq::<Seq<S>>::empty();
        assert(all_quiet(quiet, none));
        assert(stream_of(none) =~= t.buffer.skip(0));
    } else {
        let (s, before) = heard(quiet, pieces.drop_last());
        let now = pushed(quiet, s, pieces.last()).1;
        recordings_are_well_cut(quiet, pieces.drop_last());
        utterances_are_neither_quiet_nor_endless(quiet, s, pieces.last());
        utterances_are_split_on_silence(quiet, s, pieces.last());
        assert forall|i: int| 0 <= i < all.len() implies well_cut(quiet, #[trigger] all[i]) by {
            if i < before.len() {
                assert(all[i] == before[i]);
            } else {
                let u = now[i - before.len()];
                assert(all[i] == u);
            }
        }
    }
}

/// Times are counted in samples, of which a second has sixteen thousand.
pub proof fn times_are_counted_in_samples()
    ensures
        SAMPLE_RATE == 16_000,
        FRAME == SAMPLE_RATE / 33,
        MIN_SAMPLES == SAMPLE_RATE,
        10 * SILENCE_SAMPLES == 9 * SAMPLE_RATE,
        MAX_SAMPLES == 20 * SAMPLE_RATE,
        4 * FLUSH_SAMPLES == SAMPLE_RATE,
{
}

} // verus!
