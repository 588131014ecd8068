use crate::stream::{
    decode_chunk, decoded_chunk, events_view, prepend, Decoded, EventView, StreamEvent,
};
use vstd::prelude::*;

verus! {

/// What the transport handed over when it was asked for the next chunk.
pub enum Delivery<'a> {
    /// The bytes of one chunk, of any size.
    Chunk(&'a [u8]),
    /// The chunk could not be read.
    Failed,
    /// The transport has ended.
    Closed,
}

/// A `Delivery` as mathematics.
pub enum DeliveryView {
    Chunk(Seq<u8>),
    Failed,
    Closed,
}

impl<'a> View for Delivery<'a> {
    type V = DeliveryView;

    open spec fn view(&self) -> DeliveryView {
        match self {
            Delivery::Chunk(bytes) => DeliveryView::Chunk(bytes@),
            Delivery::Failed => DeliveryView::Failed,
            Delivery::Closed => DeliveryView::Closed,
        }
    }
}

/// One step of the decoder: the events to report and whether the stream is
/// over afterwards. Once it is over, nothing more is reported. A chunk that
/// could not be read is reported and does not end the stream; the end of the
/// transport ends it without a report.
pub open spec fn step_of(finished: bool, delivery: DeliveryView) -> Decoded {
    if finished {
        Decoded { events: Seq::empty(), done: true }
    } else {
        match delivery {
            DeliveryView::Chunk(bytes) => decoded_chunk(bytes),
            DeliveryView::Failed => Decoded {
                events: seq![EventView::TransportFailure],
                done: false,
            },
            DeliveryView::Closed => Decoded { events: Seq::empty(), done: true },
        }
    }
}

/// The events of a stream of chunks that were all read: those of each chunk
/// in the order of arrival, up to the chunk that holds the sentinel.
pub open spec fn stream_events(chunks: Seq<Seq<u8>>) -> Seq<EventView>
    decreases chunks.len(),
{
    if chunks.len() == 0 {
        Seq::empty()
    } else {
        let first = decoded_chunk(chunks.first());
        if first.done {
            first.events
        } else {
            first.events + stream_events(chunks.drop_first())
        }
    }
}

/// Whether one of the chunks holds the sentinel.
pub open spec fn stream_done(chunks: Seq<Seq<u8>>) -> bool {
    exists|i: int| 0 <= i < chunks.len() && (#[trigger] decoded_chunk(chunks[i])).done
}

/// The decoder's state between two chunks: only whether the stream is over.
/// No part of a chunk is kept for the next one.
pub struct StreamDecoder {
    finished: bool,
}

impl StreamDecoder {
    /// Whether the stream is over.
    pub closed spec fn finished(&self) -> bool {
        self.finished
    }

    /// A decoder at the start of a stream.
    pub fn new() -> (decoder: StreamDecoder)
        ensures
            !decoder.finished(),
    {
        StreamDecoder { finished: false }
    }

    /// Tells whether the stream is over: no more chunks are to be read.
    pub fn is_finished(&self) -> (r: bool)
        ensures
            r == self.finished(),
    {
        self.finished
    }

    /// Takes what the transport handed over and returns the events to
    /// report for it, in order.
    pub fn step(&mut self, delivery: Delivery<'_>) -> (events: Vec<StreamEvent>)
        ensures
            events_view(events@) == step_of(old(self).finished(), delivery@).events,
            final(self).finished() == step_of(old(self).finished(), delivery@).done,
    {
        if self.finished {
            return Vec::new();
        }
        match delivery {
            Delivery::Chunk(bytes) => {
                let out = decode_chunk(bytes);
                self.finished = out.done;
                out.events
            },
            Delivery::Failed => {
                let events = vec![StreamEvent::TransportFailure];
                assert(events_view(events@) =~= seq![EventView::TransportFailure]);
                events
            },
            Delivery::Closed => {
                self.finished = true;
                Vec::new()
            },
        }
    }
}

/// Decodes a whole stream whose chunks are all at hand.
pub fn decode_stream(chunks: &Vec<Vec<u8>>) -> (events: Vec<StreamEvent>)
    ensures
        events_view(events@) == stream_events(chunks@.map_values(|chunk: Vec<u8>| chunk@)),
{
    let ghost all = chunks@.map_values(|chunk: Vec<u8>| chunk@);
    let mut decoder = StreamDecoder::new();
    let mut events: Vec<StreamEvent> = Vec::new();
    let mut i: usize = 0;
    assert(all.skip(0) =~= all);
    assert(Seq::<EventView>::empty() + stream_events(all) =~= stream_events(all));
    while i < chunks.len() && !decoder.is_finished()
        invariant
            i <= chunks.len(),
            all == chunks@.map_values(|chunk: Vec<u8>| chunk@),
            decoder.finished() ==> stream_events(all) == events_view(events@),
            !decoder.finished() ==> stream_events(all) == events_view(events@) + stream_events(
                all.skip(i as int),
            ),
        decreases chunks.len() - i,
    {
        let ghost before = events_view(events@);
        let ghost tail = all.skip(i as int);
        let mut produced = decoder.step(Delivery::Chunk(chunks[i].as_slice()));
        proof {
            assert(tail.first() == chunks@[i as int]@);
            assert(tail.drop_first() =~= all.skip(i + 1));
            assert(events_view(events@ + produced@) =~= before + events_view(produced@));
            assert(before + (events_view(produced@) + stream_events(all.skip(i + 1))) =~= (before
                + events_view(produced@)) + stream_events(all.skip(i + 1)));
        }
        events.append(&mut produced);
        i += 1;
    }
    proof {
        if !decoder.finished() {
            assert(all.skip(i as int).len() == 0);
            assert(events_view(events@) + Seq::<EventView>::empty() =~= events_view(events@));
        }
    }
    events
}

/// Events come in the order of arrival, and none after the sentinel: one
/// more chunk adds its events behind those of the chunks before it, or
/// nothing when the stream was over already.
pub proof fn lemma_stream_push(chunks: Seq<Seq<u8>>, chunk: Seq<u8>)
    ensures
        stream_events(chunks.push(chunk)) == if stream_done(chunks) {
            stream_events(chunks)
        } else {
            stream_events(chunks) + decoded_chunk(chunk).events
        },
    decreases chunks.len(),
{
    if chunks.len() == 0 {
        assert(chunks.push(chunk).first() == chunk);
        assert(chunks.push(chunk).drop_first() =~= Seq::<Seq<u8>>::empty());
        assert(stream_events(chunks.push(chunk).drop_first()) =~= Seq::<EventView>::empty());
        assert(decoded_chunk(chunk).events + Seq::<EventView>::empty() =~= decoded_chunk(
            chunk,
        ).events);
        assert(Seq::<EventView>::empty() + decoded_chunk(chunk).events =~= decoded_chunk(
            chunk,
        ).events);
    } else {
        let first = decoded_chunk(chunks.first());
        let rest = chunks.drop_first();
        assert(chunks.push(chunk).first() == chunks.first());
        assert(chunks.push(chunk).drop_first() =~= rest.push(chunk));
        if first.done {
            assert(decoded_chunk(chunks[0]).done);
        } else {
            lemma_stream_push(rest, chunk);
            if stream_done(rest) {
                let i = choose|i: int| 0 <= i < rest.len() && (#[trigger] decoded_chunk(rest[i])).done;
                assert(decoded_chunk(chunks[i + 1]).done);
            } else {
                if stream_done(chunks) {
                    let i = choose|i: int|
                        0 <= i < chunks.len() && (#[trigger] decoded_chunk(chunks[i])).done;
                    assert(decoded_chunk(rest[i - 1]).done);
                }
                assert(first.events + (stream_events(rest) + decoded_chunk(chunk).events) =~= (
                first.events + stream_events(rest)) + decoded_chunk(chunk).events);
            }
        }
    }
}

} // verus!
