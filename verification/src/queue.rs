//! The bounded hand-off queue between the selector and the scheduler.
//!
//! A FIFO of download requests with a configurable capacity.  A full queue
//! refuses new items — the selector suspends on that refusal, which is the
//! pipeline's sole backpressure.  Closing the producer side signals the end
//! of the stream; the consumer still drains every item already queued and
//! only then observes end-of-stream.

use crate::request::DownloadRequest;
use crate::request::RequestModel;
use vstd::prelude::*;

verus! {

/// A bounded FIFO of download requests.
pub struct RequestQueue {
    items: Vec<DownloadRequest>,
    capacity: usize,
    closed: bool,
}

impl RequestQueue {
    /// The queued requests, oldest first.
    pub closed spec fn items(self) -> Seq<RequestModel> {
        self.items.deep_view()
    }

    /// The capacity the queue was created with.
    pub closed spec fn capacity(self) -> usize {
        self.capacity
    }

    /// Whether the producer side has closed the queue.
    pub closed spec fn is_closed(self) -> bool {
        self.closed
    }

    /// The queue never holds more than its capacity.
    pub closed spec fn wf(self) -> bool {
        &&& self.items@.len() <= self.capacity
        &&& 0 < self.capacity
    }

    /// An empty, open queue of the given capacity.
    pub fn new(capacity: usize) -> (r: RequestQueue)
        requires
            0 < capacity,
        ensures
            r.wf(),
            r.items() =~= Seq::<RequestModel>::empty(),
            r.capacity() == capacity,
            !r.is_closed(),
    {
        RequestQueue { items: Vec::new(), capacity, closed: false }
    }

    /// How many requests are queued.
    pub fn len(&self) -> (r: usize)
        ensures
            r == self.items().len(),
    {
        self.items.len()
    }

    /// Hand one request over, unless the queue is full or closed.
    ///
    /// Returns whether the request was accepted; on refusal it is handed
    /// back unchanged, and the caller (the selector) suspends and offers
    /// it again — that refusal is the backpressure.
    pub fn try_enqueue(&mut self, req: DownloadRequest) -> (r: Result<(), DownloadRequest>)
        requires
            old(self).wf(),
        ensures
            final(self).wf(),
            final(self).capacity() == old(self).capacity(),
            final(self).is_closed() == old(self).is_closed(),
            r is Ok <==> (!old(self).is_closed() && old(self).items().len() < old(
                self,
            ).capacity()),
            r is Ok ==> final(self).items() =~= old(self).items().push(req@),
            r is Err ==> final(self).items() =~= old(self).items(),
            r matches Err(give_back) ==> give_back@ == req@,
    {
        if !self.closed && self.items.len() < self.capacity {
            self.items.push(req);
            proof {
                assert(self.items() =~= old(self).items().push(req@));
            }
            Result::Ok(())
        } else {
            Result::Err(req)
        }
    }

    /// Close the producer side: no more items will be offered.
    pub fn close(&mut self)
        requires
            old(self).wf(),
        ensures
            final(self).wf(),
            final(self).capacity() == old(self).capacity(),
            final(self).is_closed(),
            final(self).items() =~= old(self).items(),
    {
        self.closed = true;
    }

    /// Take the oldest queued request.
    ///
    /// `None` is end-of-stream: it is returned only once the queue is both
    /// closed and drained.  While the queue is open and empty the consumer
    /// has nothing to take and suspends instead of calling this.
    pub fn dequeue(&mut self) -> (r: Option<DownloadRequest>)
        requires
            old(self).wf(),
            old(self).items().len() > 0 || old(self).is_closed(),
        ensures
            final(self).wf(),
            final(self).capacity() == old(self).capacity(),
            final(self).is_closed() == old(self).is_closed(),
            old(self).items().len() > 0 ==> (r matches Some(req) && req@ == old(self).items()[0]
                && final(self).items() =~= old(self).items().drop_first()),
            old(self).items().len() == 0 ==> r is None && final(self).items() =~= old(
                self,
            ).items(),
    {
        if self.items.len() > 0 {
            let req = self.items.remove(0);
            proof {
                assert(self.items() =~= old(self).items().drop_first());
            }
            Option::Some(req)
        } else {
            Option::None
        }
    }
}

} // verus!
