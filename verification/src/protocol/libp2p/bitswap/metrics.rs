//! Bitswap protocol metrics.
//!
//! Provides counters for bitswap operations. Consumers can read these counters and export them to
//! their metrics system (e.g., Prometheus). A counter that exceeds the largest number starts over.

use vstd::prelude::*;

verus! {

/// What the counters read.
pub struct MetricsView {
    /// Number of incoming requests received.
    pub requests_received: usize,
    /// Total CIDs requested across all incoming requests.
    pub cids_requested: usize,
    /// Number of blocks sent in responses.
    pub blocks_sent: usize,
    /// Total bytes of block data sent in responses.
    pub blocks_sent_bytes: usize,
    /// Number of presence responses sent (Have + DontHave).
    pub presences_sent: usize,
    /// Number of DontHave responses sent.
    pub dont_have_sent: usize,
    /// Number of requests sent to remote peers.
    pub requests_sent: usize,
    /// Number of responses received from remote peers.
    pub responses_received: usize,
    /// Number of blocks received in responses.
    pub blocks_received: usize,
    /// Total bytes of block data received in responses.
    pub blocks_received_bytes: usize,
}

/// Bitswap protocol metrics.
///
/// Provides counters for monitoring bitswap protocol activity.
#[derive(Debug, PartialEq, Eq)]
pub struct BitswapMetrics {
    /// Number of incoming requests received.
    requests_received: usize,
    /// Total CIDs requested across all incoming requests.
    cids_requested: usize,
    /// Number of blocks sent in responses.
    blocks_sent: usize,
    /// Total bytes of block data sent in responses.
    blocks_sent_bytes: usize,
    /// Number of presence responses sent (Have + DontHave).
    presences_sent: usize,
    /// Number of DontHave responses sent.
    dont_have_sent: usize,
    /// Number of requests sent to remote peers.
    requests_sent: usize,
    /// Number of responses received from remote peers.
    responses_received: usize,
    /// Number of blocks received in responses.
    blocks_received: usize,
    /// Total bytes of block data received in responses.
    blocks_received_bytes: usize,
}

impl View for BitswapMetrics {
    type V = MetricsView;

    closed spec fn view(&self) -> MetricsView {
        MetricsView {
            requests_received: self.requests_received,
            cids_requested: self.cids_requested,
            blocks_sent: self.blocks_sent,
            blocks_sent_bytes: self.blocks_sent_bytes,
            presences_sent: self.presences_sent,
            dont_have_sent: self.dont_have_sent,
            requests_sent: self.requests_sent,
            responses_received: self.responses_received,
            blocks_received: self.blocks_received,
            blocks_received_bytes: self.blocks_received_bytes,
        }
    }
}

/// A counter that reads `count` after `n` more.
pub open spec fn advanced(count: usize, n: usize) -> usize {
    if count + n <= usize::MAX {
        (count + n) as usize
    } else {
        (count + n - usize::MAX - 1) as usize
    }
}

/// Lets a counter that reads `count` go on by `n`.
fn advance(count: usize, n: usize) -> (r: usize)
    ensures
        r == advanced(count, n),
{
    if n <= usize::MAX - count {
        count + n
    } else {
        n - (usize::MAX - count) - 1
    }
}

impl Default for BitswapMetrics {
    fn default() -> (r: Self)
        ensures
            r@ == (MetricsView {
                requests_received: 0,
                cids_requested: 0,
                blocks_sent: 0,
                blocks_sent_bytes: 0,
                presences_sent: 0,
                dont_have_sent: 0,
                requests_sent: 0,
                responses_received: 0,
                blocks_received: 0,
                blocks_received_bytes: 0,
            }),
    {
        BitswapMetrics::new()
    }
}

impl BitswapMetrics {
    /// Create new [`BitswapMetrics`].
    pub fn new() -> (r: Self)
        ensures
            r@ == (MetricsView {
                requests_received: 0,
                cids_requested: 0,
                blocks_sent: 0,
                blocks_sent_bytes: 0,
                presences_sent: 0,
                dont_have_sent: 0,
                requests_sent: 0,
                responses_received: 0,
                blocks_received: 0,
                blocks_received_bytes: 0,
            }),
    {
        BitswapMetrics {
            requests_received: 0,
            cids_requested: 0,
            blocks_sent: 0,
            blocks_sent_bytes: 0,
            presences_sent: 0,
            dont_have_sent: 0,
            requests_sent: 0,
            responses_received: 0,
            blocks_received: 0,
            blocks_received_bytes: 0,
        }
    }

    /// Record an incoming request with the given number of CIDs.
    pub fn on_request_received(&mut self, cid_count: usize)
        ensures
            final(self)@ == (MetricsView {
                requests_received: advanced(old(self)@.requests_received, 1),
                cids_requested: advanced(old(self)@.cids_requested, cid_count),
                ..old(self)@
            }),
    {
        self.requests_received = advance(self.requests_received, 1);
        self.cids_requested = advance(self.cids_requested, cid_count);
    }

    /// Record blocks sent in a response.
    pub fn on_blocks_sent(&mut self, count: usize, bytes: usize)
        ensures
            final(self)@ == (MetricsView {
                blocks_sent: advanced(old(self)@.blocks_sent, count),
                blocks_sent_bytes: advanced(old(self)@.blocks_sent_bytes, bytes),
                ..old(self)@
            }),
    {
        self.blocks_sent = advance(self.blocks_sent, count);
        self.blocks_sent_bytes = advance(self.blocks_sent_bytes, bytes);
    }

    /// Record presence responses sent.
    pub fn on_presences_sent(&mut self, count: usize, dont_have_count: usize)
        ensures
            final(self)@ == (MetricsView {
                presences_sent: advanced(old(self)@.presences_sent, count),
                dont_have_sent: advanced(old(self)@.dont_have_sent, dont_have_count),
                ..old(self)@
            }),
    {
        self.presences_sent = advance(self.presences_sent, count);
        self.dont_have_sent = advance(self.dont_have_sent, dont_have_count);
    }

    /// Record a request sent to a remote peer.
    pub fn on_request_sent(&mut self)
        ensures
            final(self)@ == (MetricsView {
                requests_sent: advanced(old(self)@.requests_sent, 1),
                ..old(self)@
            }),
    {
        self.requests_sent = advance(self.requests_sent, 1);
    }

    /// Record a response received from a remote peer.
    pub fn on_response_received(&mut self, block_count: usize, block_bytes: usize)
        ensures
            final(self)@ == (MetricsView {
                responses_received: advanced(old(self)@.responses_received, 1),
                blocks_received: advanced(old(self)@.blocks_received, block_count),
                blocks_received_bytes: advanced(old(self)@.blocks_received_bytes, block_bytes),
                ..old(self)@
            }),
    {
        self.responses_received = advance(self.responses_received, 1);
        self.blocks_received = advance(self.blocks_received, block_count);
        self.blocks_received_bytes = advance(self.blocks_received_bytes, block_bytes);
    }

    /// Total incoming requests received.
    pub fn requests_received(&self) -> (r: usize)
        ensures
            r == self@.requests_received,
    {
        self.requests_received
    }

    /// Total CIDs requested across all incoming requests.
    pub fn cids_requested(&self) -> (r: usize)
        ensures
            r == self@.cids_requested,
    {
        self.cids_requested
    }

    /// Total blocks sent in responses.
    pub fn blocks_sent(&self) -> (r: usize)
        ensures
            r == self@.blocks_sent,
    {
        self.blocks_sent
    }

    /// Total bytes of block data sent in responses.
    pub fn blocks_sent_bytes(&self) -> (r: usize)
        ensures
            r == self@.blocks_sent_bytes,
    {
        self.blocks_sent_bytes
    }

    /// Total presence responses sent (Have + DontHave).
    pub fn presences_sent(&self) -> (r: usize)
        ensures
            r == self@.presences_sent,
    {
        self.presences_sent
    }

    /// Total DontHave responses sent.
    pub fn dont_have_sent(&self) -> (r: usize)
        ensures
            r == self@.dont_have_sent,
    {
        self.dont_have_sent
    }

    /// Total requests sent to remote peers.
    pub fn requests_sent(&self) -> (r: usize)
        ensures
            r == self@.requests_sent,
    {
        self.requests_sent
    }

    /// Total responses received from remote peers.
    pub fn responses_received(&self) -> (r: usize)
        ensures
            r == self@.responses_received,
    {
        self.responses_received
    }

    /// Total blocks received in responses.
    pub fn blocks_received(&self) -> (r: usize)
        ensures
            r == self@.blocks_received,
    {
        self.blocks_received
    }

    /// Total bytes of block data received in responses.
    pub fn blocks_received_bytes(&self) -> (r: usize)
        ensures
            r == self@.blocks_received_bytes,
    {
        self.blocks_received_bytes
    }
}

/// A counter counts: what it reads goes up by as much as is added, until it starts over.
pub proof fn law_counter_counts(count: usize, n: usize, m: usize)
    ensures
        count + n <= usize::MAX ==> advanced(count, n) == count + n,
        advanced(count, 0) == count,
        count + n + m <= usize::MAX ==> advanced(advanced(count, n), m) == count + n + m,
        advanced(usize::MAX, 1) == 0,
{
}

} // verus!
