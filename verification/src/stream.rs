use vstd::prelude::*;

use crate::generation::{dec_fragment, GenerationResponseStream, GenerationResponseStreamV};
use crate::json::{json_of_bytes, parse_json_bytes};
use crate::sse::{byte_seqs_of, sse_events, SseDecoder};

verus! {

/// The end-of-stream sentinel: the service marks the last event by the
/// literal payload `[DONE]` instead of closing the connection.
pub open spec fn sentinel() -> Seq<u8> {
    seq![91u8, 68u8, 79u8, 78u8, 69u8, 93u8]
}

/// The error taxonomy of one streamed response.
#[derive(Debug, PartialEq)]
pub enum StreamError {
    /// The transport-level event framing itself failed.
    EventParseFailed,
    /// An event's payload was not a well-shaped fragment; the raw payload is
    /// kept for diagnosis.
    StreamDeserializationFailed { event_data: Vec<u8> },
}

/// The mathematical shape of one item a streamed sequence yields.
#[verifier::ext_equal]
pub enum StreamItemV {
    Fragment(GenerationResponseStreamV),
    Malformed(Seq<u8>),
    TransportFailed,
}

/// The shape of one exec item.
pub open spec fn item_dv(it: Result<GenerationResponseStream, StreamError>) -> StreamItemV {
    match it {
        Ok(f) => StreamItemV::Fragment(f.dv()),
        Err(StreamError::EventParseFailed) => StreamItemV::TransportFailed,
        Err(StreamError::StreamDeserializationFailed { event_data }) => StreamItemV::Malformed(
            event_data@,
        ),
    }
}

pub open spec fn items_dv(items: Seq<Result<GenerationResponseStream, StreamError>>) -> Seq<
    StreamItemV,
> {
    Seq::new(items.len(), |i: int| item_dv(items[i]))
}

/// What one event payload means: the sentinel ends the stream, a well-shaped
/// JSON payload is a fragment, anything else poisons the stream.
#[verifier::ext_equal]
pub enum EventOutcome {
    Done,
    Fragment(GenerationResponseStreamV),
    Bad,
}

pub open spec fn event_outcome(data: Seq<u8>) -> EventOutcome {
    if data == sentinel() {
        EventOutcome::Done
    } else {
        match json_of_bytes(data) {
            Some(j) => match dec_fragment(j) {
                Some(f) => EventOutcome::Fragment(f),
                None => EventOutcome::Bad,
            },
            None => EventOutcome::Bad,
        }
    }
}

/// The items a sequence of event payloads yields: fragments in arrival
/// order, stopped cleanly by the sentinel (which yields nothing), or ended by
/// one malformed payload that is the last item ever produced.
pub open spec fn stream_outputs(events: Seq<Seq<u8>>) -> Seq<StreamItemV>
    decreases events.len(),
{
    if events.len() == 0 {
        Seq::empty()
    } else {
        match event_outcome(events[0]) {
            EventOutcome::Done => Seq::empty(),
            EventOutcome::Bad => seq![StreamItemV::Malformed(events[0])],
            EventOutcome::Fragment(f) => seq![StreamItemV::Fragment(f)] + stream_outputs(
                events.drop_first(),
            ),
        }
    }
}

/// Whether the stream is still producing after the given events.
pub open spec fn stream_live(events: Seq<Seq<u8>>) -> bool
    decreases events.len(),
{
    if events.len() == 0 {
        true
    } else {
        match event_outcome(events[0]) {
            EventOutcome::Done => false,
            EventOutcome::Bad => false,
            EventOutcome::Fragment(_) => stream_live(events.drop_first()),
        }
    }
}

/// One more event extends the outputs only while the stream is live: a
/// fragment is appended, the sentinel ends the stream with no item, a
/// malformed payload is the last item; after either, nothing more appears.
pub proof fn lemma_stream_step(events: Seq<Seq<u8>>, e: Seq<u8>)
    ensures
        stream_outputs(events.push(e)) == if stream_live(events) {
            match event_outcome(e) {
                EventOutcome::Done => stream_outputs(events),
                EventOutcome::Bad => stream_outputs(events).push(StreamItemV::Malformed(e)),
                EventOutcome::Fragment(f) => stream_outputs(events).push(
                    StreamItemV::Fragment(f),
                ),
            }
        } else {
            stream_outputs(events)
        },
        stream_live(events.push(e)) == (stream_live(events) && event_outcome(e)
            is Fragment),
    decreases events.len(),
{
    reveal_with_fuel(stream_outputs, 3);
    reveal_with_fuel(stream_live, 3);
    if events.len() == 0 {
        assert(events.push(e)[0] == e);
        assert(events.push(e).drop_first() =~= Seq::<Seq<u8>>::empty());
        match event_outcome(e) {
            EventOutcome::Done => {},
            EventOutcome::Bad => {
                assert(stream_outputs(events.push(e)) =~= stream_outputs(events).push(
                    StreamItemV::Malformed(e),
                ));
            },
            EventOutcome::Fragment(f) => {
                assert(stream_outputs(events.push(e)) =~= stream_outputs(events).push(
                    StreamItemV::Fragment(f),
                ));
            },
        }
    } else {
        assert(events.push(e).drop_first() =~= events.drop_first().push(e));
        assert(events.push(e)[0] == events[0]);
        lemma_stream_step(events.drop_first(), e);
        match event_outcome(events[0]) {
            EventOutcome::Done => {},
            EventOutcome::Bad => {},
            EventOutcome::Fragment(f) => {
                if stream_live(events) {
                    match event_outcome(e) {
                        EventOutcome::Done => {},
                        EventOutcome::Bad => {
                            assert(stream_outputs(events.push(e)) =~= stream_outputs(events).push(
                                StreamItemV::Malformed(e),
                            ));
                        },
                        EventOutcome::Fragment(g) => {
                            assert(stream_outputs(events.push(e)) =~= stream_outputs(events).push(
                                StreamItemV::Fragment(g),
                            ));
                        },
                    }
                }
            },
        }
    }
}

/// The lazy, finite, non-restartable decoder of one streamed response: raw
/// transport bytes go in, decoded fragments come out in arrival order, and
/// after the sentinel, a malformed payload or a transport failure nothing is
/// ever produced again.
pub struct StreamDecoder {
    sse: SseDecoder,
    live: bool,
    events: Ghost<Seq<Seq<u8>>>,
    failed: Ghost<bool>,
}

impl StreamDecoder {
    /// Every event payload the framing layer has dispatched.
    pub closed spec fn events(&self) -> Seq<Seq<u8>> {
        self.events@
    }

    /// Every transport byte this decoder has consumed.
    pub closed spec fn fed(&self) -> Seq<u8> {
        self.sse.fed()
    }

    /// Whether the transport reported a framing failure.
    pub closed spec fn transport_failed_flag(&self) -> bool {
        self.failed@
    }

    /// The decoder's state follows the framing layer and the stream rule.
    pub closed spec fn wf(&self) -> bool {
        &&& self.sse.wf()
        &&& self.events@ == sse_events(self.sse.fed())
        &&& self.live == (stream_live(self.events@) && !self.failed@)
    }

    /// A fresh decoder for one response stream.
    pub fn new() -> (r: StreamDecoder)
        ensures
            r.wf(),
            r.events() == Seq::<Seq<u8>>::empty(),
            !r.transport_failed_flag(),
    {
        let r = StreamDecoder {
            sse: SseDecoder::new(),
            live: true,
            events: Ghost(Seq::empty()),
            failed: Ghost(false),
        };
        proof {
            assert(sse_events(Seq::<u8>::empty()) =~= Seq::<Seq<u8>>::empty());
        }
        r
    }

    /// Consumes one chunk of transport bytes and yields every item it
    /// completes: fragments in arrival order; nothing for the sentinel,
    /// which ends the stream; one final `StreamDeserializationFailed`
    /// carrying the raw payload for a malformed event. A stream once ended
    /// yields nothing, whatever arrives.
    pub fn feed(&mut self, chunk: &[u8]) -> (items: Vec<
        Result<GenerationResponseStream, StreamError>,
    >)
        requires
            old(self).wf(),
        ensures
            final(self).wf(),
            final(self).transport_failed_flag() == old(self).transport_failed_flag(),
            final(self).events() == sse_events(old(self).fed() + chunk@),
            old(self).transport_failed_flag() ==> items@.len() == 0,
            !old(self).transport_failed_flag() ==> stream_outputs(final(self).events())
                == stream_outputs(old(self).events()) + items_dv(items@),
    {
        let events = self.sse.feed(chunk);
        let ghost evs0 = self.events@;
        let mut items: Vec<Result<GenerationResponseStream, StreamError>> = Vec::new();
        let mut i: usize = 0;
        while i < events.len()
            invariant
                0 <= i <= events@.len(),
                self.sse.wf(),
                sse_events(self.sse.fed()) == evs0 + byte_seqs_of(events@),
                self.sse.fed() == old(self).fed() + chunk@,
                self.events@ == evs0 + byte_seqs_of(events@).take(i as int),
                self.failed@ == old(self).failed@,
                self.live == (stream_live(self.events@) && !self.failed@),
                self.failed@ ==> items@.len() == 0,
                !self.failed@ ==> stream_outputs(self.events@) == stream_outputs(evs0) + items_dv(
                    items@,
                ),
            decreases events@.len() - i,
        {
            let ghost pre = self.events@;
            let data = &events[i];
            proof {
                assert(byte_seqs_of(events@).take(i + 1).drop_last() =~= byte_seqs_of(
                    events@,
                ).take(i as int));
                assert(evs0 + byte_seqs_of(events@).take(i + 1) =~= pre.push(data@));
                lemma_stream_step(pre, data@);
            }
            if self.live {
                if is_sentinel(data) {
                    self.live = false;
                } else {
                    match parse_json_bytes(data.as_slice()) {
                        Some(j) => match GenerationResponseStream::from_json(&j) {
                            Some(f) => {
                                let ghost before = items_dv(items@);
                                items.push(Ok(f));
                                proof {
                                    assert(items_dv(items@) =~= before.push(
                                        StreamItemV::Fragment(f.dv()),
                                    ));
                                }
                            },
                            None => {
                                let raw = crate::json::copy_bytes(data.as_slice());
                                let ghost before = items_dv(items@);
                                items.push(
                                    Err(StreamError::StreamDeserializationFailed { event_data: raw }),
                                );
                                self.live = false;
                                proof {
                                    assert(items_dv(items@) =~= before.push(
                                        StreamItemV::Malformed(data@),
                                    ));
                                }
                            },
                        },
                        None => {
                            let raw = crate::json::copy_bytes(data.as_slice());
                            let ghost before = items_dv(items@);
                            items.push(
                                Err(StreamError::StreamDeserializationFailed { event_data: raw }),
                            );
                            self.live = false;
                            proof {
                                assert(items_dv(items@) =~= before.push(
                                    StreamItemV::Malformed(data@),
                                ));
                            }
                        },
                    }
                }
            }
            proof {
                self.events@ = pre.push(data@);
            }
            i += 1;
        }
        proof {
            assert(byte_seqs_of(events@).take(events@.len() as int) =~= byte_seqs_of(events@));
            assert(self.events@ =~= sse_events(old(self).fed() + chunk@));
        }
        items
    }

    /// Reports a transport failure: while the stream is still live this
    /// yields the one `EventParseFailed` item and ends the stream; an ended
    /// stream yields nothing.
    pub fn transport_failed(&mut self) -> (item: Option<
        Result<GenerationResponseStream, StreamError>,
    >)
        requires
            old(self).wf(),
        ensures
            final(self).wf(),
            final(self).transport_failed_flag(),
            final(self).events() == old(self).events(),
            item matches Some(it) <==> (stream_live(old(self).events()) && !old(
                self,
            ).transport_failed_flag()),
            item matches Some(it) ==> it == Err::<GenerationResponseStream, StreamError>(
                StreamError::EventParseFailed,
            ),
    {
        let was_live = self.live;
        self.live = false;
        proof {
            self.failed@ = true;
        }
        if was_live {
            Some(Err(StreamError::EventParseFailed))
        } else {
            None
        }
    }
}

/// True exactly of the sentinel payload.
pub fn is_sentinel(data: &Vec<u8>) -> (r: bool)
    ensures
        r == (data@ == sentinel()),
{
    let r = data.len() == 6 && data[0] == 91 && data[1] == 68 && data[2] == 79 && data[3] == 78
        && data[4] == 69 && data[5] == 93;
    proof {
        if r {
            assert(data@ =~= sentinel());
        } else {
            if data@.len() == 6 {
                assert(sentinel()[0] == 91 && sentinel()[1] == 68 && sentinel()[2] == 79
                    && sentinel()[3] == 78 && sentinel()[4] == 69 && sentinel()[5] == 93);
            }
        }
    }
    r
}

/// The stream sentinel ends the sequence cleanly: when every earlier event
/// is a well-shaped fragment and the next event's payload is exactly the
/// sentinel, the decoded sequence is those fragments in order — no item for
/// the sentinel itself — and the stream produces nothing afterwards,
/// whatever arrives.
pub proof fn lemma_sentinel_ends_stream(events: Seq<Seq<u8>>, k: int, later: Seq<Seq<u8>>)
    requires
        0 <= k < events.len(),
        forall|i: int| 0 <= i < k ==> #[trigger] event_outcome(events[i]) is Fragment,
        events[k] == sentinel(),
        events.len() == k + 1,
    ensures
        stream_outputs(events) == Seq::new(
            k as nat,
            |i: int| StreamItemV::Fragment(event_outcome(events[i])->Fragment_0),
        ),
        !stream_live(events),
        stream_outputs(events + later) == stream_outputs(events),
    decreases k,
{
    assert(event_outcome(events[k]) is Done);
    if k == 0 {
        assert(stream_outputs(events) =~= Seq::new(
            0,
            |i: int| StreamItemV::Fragment(event_outcome(events[i])->Fragment_0),
        ));
    } else {
        let rest = events.drop_first();
        assert(rest.len() == k);
        assert(rest[k - 1] == events[k]);
        assert(forall|i: int| 0 <= i < k - 1 ==> #[trigger] event_outcome(rest[i])
            is Fragment) by {
            assert(forall|i: int| 0 <= i < k - 1 ==> rest[i] == events[i + 1]);
        }
        lemma_sentinel_ends_stream(rest, k - 1, later);
        assert(stream_outputs(events) =~= Seq::new(
            k as nat,
            |i: int| StreamItemV::Fragment(event_outcome(events[i])->Fragment_0),
        ));
    }
    lemma_dead_stream_stays_dead(events, later);
}

/// A malformed payload poisons the stream: every earlier well-shaped
/// fragment is yielded in order, then the one failure item carrying that raw
/// payload, and nothing ever again.
pub proof fn lemma_malformed_ends_stream(events: Seq<Seq<u8>>, k: int, later: Seq<Seq<u8>>)
    requires
        0 <= k < events.len(),
        forall|i: int| 0 <= i < k ==> #[trigger] event_outcome(events[i]) is Fragment,
        event_outcome(events[k]) is Bad,
        events.len() == k + 1,
    ensures
        stream_outputs(events) == Seq::new(
            k as nat,
            |i: int| StreamItemV::Fragment(event_outcome(events[i])->Fragment_0),
        ).push(StreamItemV::Malformed(events[k])),
        !stream_live(events),
        stream_outputs(events + later) == stream_outputs(events),
    decreases k,
{
    if k == 0 {
        assert(stream_outputs(events) =~= Seq::new(
            0,
            |i: int| StreamItemV::Fragment(event_outcome(events[i])->Fragment_0),
        ).push(StreamItemV::Malformed(events[0])));
    } else {
        let rest = events.drop_first();
        assert(rest.len() == k);
        assert(rest[k - 1] == events[k]);
        assert(forall|i: int| 0 <= i < k - 1 ==> #[trigger] event_outcome(rest[i])
            is Fragment) by {
            assert(forall|i: int| 0 <= i < k - 1 ==> rest[i] == events[i + 1]);
        }
        lemma_malformed_ends_stream(rest, k - 1, later);
        assert(stream_outputs(events) =~= Seq::new(
            k as nat,
            |i: int| StreamItemV::Fragment(event_outcome(events[i])->Fragment_0),
        ).push(StreamItemV::Malformed(events[k])));
    }
    lemma_dead_stream_stays_dead(events, later);
}

/// Once the stream has stopped, later events change nothing.
pub proof fn lemma_dead_stream_stays_dead(events: Seq<Seq<u8>>, later: Seq<Seq<u8>>)
    requires
        !stream_live(events),
    ensures
        stream_outputs(events + later) == stream_outputs(events),
        !stream_live(events + later),
    decreases later.len(),
{
    if later.len() == 0 {
        assert(events + later =~= events);
    } else {
        lemma_dead_stream_stays_dead(events, later.drop_last());
        assert(events + later =~= (events + later.drop_last()).push(later.last()));
        lemma_stream_step(events + later.drop_last(), later.last());
    }
}

} // verus!
