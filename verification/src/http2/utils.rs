//! The streams that a client opens.
use vstd::prelude::*;

use super::session::StreamView;
use super::{Config, StreamId};

verus! {

/// Opens a new stream, and returns its identifier once done.
///
/// As long as all streams are opened here, none takes the place of another.
pub fn new_stream(config: &mut Config) -> (stream_id: StreamId)
    requires
        old(config).next_stream_id + 2 <= StreamId::MAX,
    ensures
        stream_id == old(config).next_stream_id,
        final(config).next_stream_id == old(config).next_stream_id + 2,
        final(config).session@ == old(config).session@.insert(stream_id, StreamView::fresh()),
        old(config).in_order() ==> final(config).in_order()
            && !old(config).session@.contains_key(stream_id),
{
    let stream_id: StreamId = get_next_stream_id(config);
    config.session.new_stream(stream_id);
    stream_id
}

/// Returns the next stream identifier, and moves on to the one after it.
pub fn get_next_stream_id(config: &mut Config) -> (stream_id: StreamId)
    requires
        old(config).next_stream_id + 2 <= StreamId::MAX,
    ensures
        stream_id == old(config).next_stream_id,
        final(config).next_stream_id == old(config).next_stream_id + 2,
        final(config).session == old(config).session,
{
    let stream_id: StreamId = config.next_stream_id;
    config.next_stream_id = config.next_stream_id + 2;
    stream_id
}

} // verus!
