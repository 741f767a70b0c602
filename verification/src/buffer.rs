//! Adaptive streaming buffer: an ordered collection of non-overlapping-keyed
//! byte ranges with a read cursor, watermark signalling, and an eviction
//! policy that keeps the total buffered bytes within a configured maximum at
//! every observable moment.

use vstd::prelude::*;

verus! {

/// Buffer configuration.
#[derive(Debug, Clone)]
pub struct BufferConfig {
    /// Minimum buffer size in bytes
    pub min_buffer_size: usize,
    /// Maximum buffer size in bytes
    pub max_buffer_size: usize,
    /// Target buffer duration in milliseconds (advisory, for media)
    pub target_duration_ms: u64,
    /// Low watermark: more data is needed when below this
    pub low_watermark: usize,
    /// High watermark: the buffer counts as full at or above this
    pub high_watermark: usize,
}

impl BufferConfig {
    /// A buffer configuration is well formed when its minimum does not
    /// exceed its maximum and the watermarks are ordered below the maximum.
    pub open spec fn wf(self) -> bool {
        self.min_buffer_size <= self.max_buffer_size
            && self.low_watermark <= self.high_watermark
            && self.high_watermark <= self.max_buffer_size
    }

    /// Create a new buffer config with custom sizes and default watermarks
    /// and duration, clipped so that the result is well formed.
    pub fn new(min: usize, max: usize) -> (r: Self)
        requires
            min <= max,
        ensures
            r.wf(),
            r.min_buffer_size == min,
            r.max_buffer_size == max,
    {
        let low: usize = if 256 * 1024 <= max { 256 * 1024 } else { max };
        let high: usize = if 8 * 1024 * 1024 <= max { 8 * 1024 * 1024 } else { max };
        Self {
            min_buffer_size: min,
            max_buffer_size: max,
            target_duration_ms: 10_000,
            low_watermark: low,
            high_watermark: high,
        }
    }

    /// Set the advisory target duration in milliseconds.
    pub fn with_target_duration(self, duration_ms: u64) -> (r: Self)
        ensures
            r == (Self { target_duration_ms: duration_ms, ..self }),
    {
        Self { target_duration_ms: duration_ms, ..self }
    }

    /// Set the watermarks.
    pub fn with_watermarks(self, low: usize, high: usize) -> (r: Self)
        requires
            low <= high,
            high <= self.max_buffer_size,
        ensures
            r == (Self { low_watermark: low, high_watermark: high, ..self }),
            self.min_buffer_size <= self.max_buffer_size ==> r.wf(),
    {
        Self { low_watermark: low, high_watermark: high, ..self }
    }
}

impl Default for BufferConfig {
    /// The default configuration: 64 KiB minimum, 16 MiB maximum,
    /// watermarks at 256 KiB and 8 MiB, ten seconds of advisory duration.
    fn default() -> (r: Self)
        ensures
            r.wf(),
            r.min_buffer_size == 64 * 1024,
            r.max_buffer_size == 16 * 1024 * 1024,
            r.low_watermark == 256 * 1024,
            r.high_watermark == 8 * 1024 * 1024,
            r.target_duration_ms == 10_000,
    {
        Self {
            min_buffer_size: 64 * 1024,
            max_buffer_size: 16 * 1024 * 1024,
            target_duration_ms: 10_000,
            low_watermark: 256 * 1024,
            high_watermark: 8 * 1024 * 1024,
        }
    }
}

/// A buffered range of data at an absolute stream position.
#[derive(Debug, Clone)]
pub struct BufferedRange {
    /// Start position in the stream
    pub start: u64,
    /// The buffered data
    pub data: Vec<u8>,
}

impl BufferedRange {
    /// One-past-the-end stream position of this range.
    pub open spec fn spec_end(self) -> int {
        self.start + self.data@.len()
    }

    /// Whether a stream position falls inside this range.
    pub open spec fn spec_contains(self, pos: u64) -> bool {
        self.start <= pos < self.spec_end()
    }
}

/// The sum of the data lengths of the ranges in `s`.
pub open spec fn total_len(s: Seq<BufferedRange>) -> int
    decreases s.len(),
{
    if s.len() == 0 {
        0
    } else {
        total_len(s.drop_last()) + s.last().data@.len()
    }
}

proof fn lemma_total_len_nonneg(s: Seq<BufferedRange>)
    ensures
        total_len(s) >= 0,
    decreases s.len(),
{
    if s.len() > 0 {
        lemma_total_len_nonneg(s.drop_last());
    }
}

proof fn lemma_total_len_remove(s: Seq<BufferedRange>, i: int)
    requires
        0 <= i < s.len(),
    ensures
        total_len(s.remove(i)) == total_len(s) - s[i].data@.len(),
    decreases s.len(),
{
    if i == s.len() - 1 {
        assert(s.remove(i) =~= s.drop_last());
    } else {
        lemma_total_len_remove(s.drop_last(), i);
        assert(s.remove(i).drop_last() =~= s.drop_last().remove(i));
        assert(s.remove(i).last() == s.last());
    }
}

proof fn lemma_total_len_push(s: Seq<BufferedRange>, r: BufferedRange)
    ensures
        total_len(s.push(r)) == total_len(s) + r.data@.len(),
{
    assert(s.push(r).drop_last() =~= s);
}

proof fn lemma_total_len_insert(s: Seq<BufferedRange>, i: int, r: BufferedRange)
    requires
        0 <= i <= s.len(),
    ensures
        total_len(s.insert(i, r)) == total_len(s) + r.data@.len(),
    decreases s.len(),
{
    if i == s.len() {
        assert(s.insert(i, r) =~= s.push(r));
        lemma_total_len_push(s, r);
    } else {
        lemma_total_len_insert(s.drop_last(), i, r);
        assert(s.insert(i, r).drop_last() =~= s.drop_last().insert(i, r));
        assert(s.insert(i, r).last() == s.last());
    }
}

/// Ranges sorted by strictly increasing start position.
pub open spec fn sorted_ranges(s: Seq<BufferedRange>) -> bool {
    forall|i: int, j: int| 0 <= i < j < s.len() ==> s[i].start < s[j].start
}

/// Every range ends at a stream position that fits in a u64.
pub open spec fn ends_bounded(s: Seq<BufferedRange>) -> bool {
    forall|i: int| 0 <= i < s.len() ==> (#[trigger] s[i]).spec_end() <= u64::MAX
}

/// Whether some range starts at key `k`.
pub open spec fn has_start(s: Seq<BufferedRange>, k: u64) -> bool {
    exists|i: int| 0 <= i < s.len() && (#[trigger] s[i]).start == k
}

/// The index of the range starting at `k` (starts are distinct in a
/// sorted list).
pub open spec fn start_index(s: Seq<BufferedRange>, k: u64) -> int {
    choose|i: int| 0 <= i < s.len() && (#[trigger] s[i]).start == k
}

/// The data of the range starting at `k`.
pub open spec fn data_at_start(s: Seq<BufferedRange>, k: u64) -> Seq<u8> {
    s[start_index(s, k)].data@
}

/// When index `i` starts at `k` in a sorted list, the data at `k` is
/// exactly that range's data.
proof fn lemma_data_at_start(s: Seq<BufferedRange>, i: int, k: u64)
    requires
        sorted_ranges(s),
        0 <= i < s.len(),
        s[i].start == k,
    ensures
        has_start(s, k),
        start_index(s, k) == i,
        data_at_start(s, k) == s[i].data@,
{
    let j = start_index(s, k);
    assert(0 <= j < s.len() && s[j].start == k);
    if j != i {
        if j < i {
            assert(s[j].start < s[i].start);
        } else {
            assert(s[i].start < s[j].start);
        }
    }
}

/// Removing a range keeps the remaining ranges sorted and bounded.
proof fn lemma_remove_keeps_shape(s: Seq<BufferedRange>, i: int)
    requires
        0 <= i < s.len(),
        sorted_ranges(s),
        ends_bounded(s),
    ensures
        sorted_ranges(s.remove(i)),
        ends_bounded(s.remove(i)),
{
    let t = s.remove(i);
    assert forall|a: int, b: int| 0 <= a < b < t.len() implies t[a].start < t[b].start by {
        let a0 = if a < i { a } else { a + 1 };
        let b0 = if b < i { b } else { b + 1 };
        assert(t[a] == s[a0]);
        assert(t[b] == s[b0]);
    }
    assert forall|k: int| 0 <= k < t.len() implies (#[trigger] t[k]).spec_end() <= u64::MAX by {
        let k0 = if k < i { k } else { k + 1 };
        assert(t[k] == s[k0]);
    }
}

/// Every range's length is bounded by the total of the whole sequence.
proof fn lemma_total_len_elem(s: Seq<BufferedRange>, i: int)
    requires
        0 <= i < s.len(),
    ensures
        s[i].data@.len() <= total_len(s),
    decreases s.len(),
{
    lemma_total_len_nonneg(s.drop_last());
    if i < s.len() - 1 {
        lemma_total_len_elem(s.drop_last(), i);
    }
}

proof fn lemma_total_len_update(s: Seq<BufferedRange>, i: int, v: BufferedRange)
    requires
        0 <= i < s.len(),
    ensures
        total_len(s.update(i, v)) == total_len(s) - s[i].data@.len() + v.data@.len(),
{
    assert(s.update(i, v) =~= s.remove(i).insert(i, v));
    lemma_total_len_remove(s, i);
    lemma_total_len_insert(s.remove(i), i, v);
}

/// Replacing the range at index `i` with one of the same start keeps the
/// list sorted and bounded and the other keys' data untouched.
proof fn lemma_ranges_set_keeps(prev: Seq<BufferedRange>, i: int, cur: Seq<BufferedRange>, k: u64)
    requires
        sorted_ranges(prev),
        ends_bounded(prev),
        0 <= i < prev.len(),
        prev[i].start == k,
        cur == prev.update(i, cur[i]),
        cur.len() == prev.len(),
        cur[i].start == k,
        cur[i].spec_end() <= u64::MAX,
    ensures
        sorted_ranges(cur),
        ends_bounded(cur),
        has_start(cur, k),
        data_at_start(cur, k) == cur[i].data@,
        forall|q: u64| q != k ==> has_start(cur, q) == has_start(prev, q),
        forall|q: u64|
            q != k && has_start(prev, q) ==> data_at_start(cur, q) == data_at_start(prev, q),
{
    assert forall|a: int, b: int| 0 <= a < b < cur.len() implies cur[a].start < cur[b].start by {
        if a != i && b != i {
            assert(cur[a] == prev[a] && cur[b] == prev[b]);
        } else if a == i {
            assert(cur[b] == prev[b]);
            assert(prev[i].start < prev[b].start);
        } else {
            assert(cur[a] == prev[a]);
            assert(prev[a].start < prev[i].start);
        }
    }
    assert forall|w: int| 0 <= w < cur.len() implies (#[trigger] cur[w]).spec_end()
        <= u64::MAX by {
        if w != i {
            assert(cur[w] == prev[w]);
        }
    }
    lemma_data_at_start(cur, i, k);
    assert forall|q: u64| q != k implies has_start(cur, q) == has_start(prev, q) by {
        if has_start(cur, q) {
            let w = choose|w: int| 0 <= w < cur.len() && (#[trigger] cur[w]).start == q;
            assert(w != i);
            assert(prev[w] == cur[w]);
        }
        if has_start(prev, q) {
            let w = choose|w: int| 0 <= w < prev.len() && (#[trigger] prev[w]).start == q;
            assert(w != i);
            assert(cur[w] == prev[w]);
        }
    }
    assert forall|q: u64| q != k && has_start(prev, q) implies data_at_start(cur, q)
        == data_at_start(prev, q) by {
        let w = choose|w: int| 0 <= w < prev.len() && (#[trigger] prev[w]).start == q;
        assert(w != i);
        assert(cur[w] == prev[w]);
        lemma_data_at_start(prev, w, q);
        lemma_data_at_start(cur, w, q);
    }
}

/// Adaptive buffer for streaming data.
///
/// Ranges are kept sorted by start position, with distinct start keys; the
/// total buffered byte count is the sum of the range lengths and never
/// exceeds the configured maximum.
#[derive(Debug)]
pub struct AdaptiveBuffer {
    /// Configuration
    config: BufferConfig,
    /// Buffered ranges, sorted by ascending start position
    ranges: Vec<BufferedRange>,
    /// Total buffered bytes
    total_buffered: usize,
    /// Total stream size, if known
    stream_size: Option<u64>,
    /// Current read position
    read_position: u64,
    /// Bytes consumed since the last adaptation
    bytes_consumed: usize,
    /// Current adaptive buffer target
    adaptive_target: usize,
}

impl AdaptiveBuffer {
    /// Structural invariant: sorted distinct range keys, an exact byte
    /// count, the count within the configured maximum, and every range
    /// ending at a representable stream position.
    pub closed spec fn wf(self) -> bool {
        &&& self.config.wf()
        &&& sorted_ranges(self.ranges@)
        &&& self.total_buffered == total_len(self.ranges@)
        &&& self.total_buffered <= self.config.max_buffer_size
        &&& ends_bounded(self.ranges@)
    }

    /// Whether position `pos` falls inside some buffered range.
    pub open spec fn spec_is_buffered(self, pos: u64) -> bool {
        exists|i: int|
            0 <= i < self.spec_ranges().len() && self.spec_ranges()[i].spec_contains(pos)
    }

    /// The buffered ranges, for contracts.
    pub closed spec fn spec_ranges(self) -> Seq<BufferedRange> {
        self.ranges@
    }

    /// The current read cursor, for contracts.
    pub closed spec fn spec_position(self) -> u64 {
        self.read_position
    }

    /// The configuration, for contracts.
    pub closed spec fn spec_config(self) -> BufferConfig {
        self.config
    }

    /// Create a new adaptive buffer.
    pub fn new(config: BufferConfig) -> (r: Self)
        requires
            config.wf(),
        ensures
            r.wf(),
            r.spec_config() == config,
            r.spec_ranges().len() == 0,
            r.spec_position() == 0,
            r.buffered_bytes() == 0,
            r.adaptive_target() == config.min_buffer_size,
            r.stream_size() is None,
    {
        let adaptive_target = config.min_buffer_size;
        Self {
            config,
            ranges: Vec::new(),
            total_buffered: 0,
            stream_size: None,
            read_position: 0,
            bytes_consumed: 0,
            adaptive_target,
        }
    }

    /// Record a known total stream size.
    pub fn with_stream_size(self, size: u64) -> (r: Self)
        requires
            self.wf(),
        ensures
            r.wf(),
            r.stream_size() == Some(size),
            r.spec_ranges() == self.spec_ranges(),
            r.spec_position() == self.spec_position(),
            r.buffered_bytes() == self.buffered_bytes(),
            r.spec_config() == self.spec_config(),
    {
        Self { stream_size: Some(size), ..self }
    }

    /// Get the current read position.
    pub fn position(&self) -> (r: u64)
        ensures
            r == self.spec_position(),
    {
        self.read_position
    }

    /// Get the total buffered bytes.
    #[verifier::when_used_as_spec(spec_buffered_bytes)]
    pub fn buffered_bytes(&self) -> (r: usize)
        ensures
            r == self.spec_buffered_bytes(),
    {
        self.total_buffered
    }

    /// The total buffered byte count, for contracts.
    pub closed spec fn spec_buffered_bytes(&self) -> usize {
        self.total_buffered
    }

    /// Get the stream size, if known.
    #[verifier::when_used_as_spec(spec_stream_size)]
    pub fn stream_size(&self) -> (r: Option<u64>)
        ensures
            r == self.spec_stream_size(),
    {
        self.stream_size
    }

    /// The known stream size, for contracts.
    pub closed spec fn spec_stream_size(&self) -> Option<u64> {
        self.stream_size
    }

    /// More data is needed exactly when the buffered total is below the
    /// low watermark.
    pub fn needs_data(&self) -> (r: bool)
        ensures
            r == (self.buffered_bytes() < self.spec_config().low_watermark),
    {
        self.total_buffered < self.config.low_watermark
    }

    /// The buffer is full exactly when the buffered total has reached the
    /// high watermark.
    pub fn is_full(&self) -> (r: bool)
        ensures
            r == (self.buffered_bytes() >= self.spec_config().high_watermark),
    {
        self.total_buffered >= self.config.high_watermark
    }

    /// Get the current adaptive buffer target.
    #[verifier::when_used_as_spec(spec_adaptive_target)]
    pub fn adaptive_target(&self) -> (r: usize)
        ensures
            r == self.spec_adaptive_target(),
    {
        self.adaptive_target
    }

    /// The adaptive target, for contracts.
    pub closed spec fn spec_adaptive_target(&self) -> usize {
        self.adaptive_target
    }

    /// Find the index of the range whose start position equals `position`.
    fn find_index_of_start(&self, position: u64) -> (r: Option<usize>)
        requires
            self.wf(),
        ensures
            match r {
                Some(i) => i < self.ranges@.len() && self.ranges@[i as int].start == position,
                None => forall|i: int|
                    0 <= i < self.ranges@.len() ==> self.ranges@[i].start != position,
            },
    {
        let mut i: usize = 0;
        while i < self.ranges.len()
            invariant
                i <= self.ranges@.len(),
                forall|k: int| 0 <= k < i ==> self.ranges@[k].start != position,
            decreases self.ranges@.len() - i,
        {
            if self.ranges[i].start == position {
                return Some(i);
            }
            i = i + 1;
        }
        None
    }

    /// Find the index of the first (lowest-start) range containing `pos`.
    fn find_index_containing(&self, pos: u64) -> (r: Option<usize>)
        requires
            self.wf(),
        ensures
            match r {
                Some(i) => i < self.ranges@.len() && self.ranges@[i as int].spec_contains(pos)
                    && (forall|k: int| 0 <= k < i ==> !self.ranges@[k].spec_contains(pos)),
                None => !self.spec_is_buffered(pos),
            },
    {
        let mut i: usize = 0;
        while i < self.ranges.len()
            invariant
                self.wf(),
                i <= self.ranges@.len(),
                forall|k: int| 0 <= k < i ==> !self.ranges@[k].spec_contains(pos),
            decreases self.ranges@.len() - i,
        {
            let r = &self.ranges[i];
            if r.start <= pos && pos - r.start < r.data.len() as u64 {
                return Some(i);
            }
            i = i + 1;
        }
        None
    }

    /// Add data to the buffer at a specific stream position.
    ///
    /// Empty data is a no-op. Old ranges are evicted before insertion, so
    /// the buffered total never exceeds the configured maximum, not even
    /// momentarily; data larger than the whole buffer is truncated to the
    /// maximum. The new data replaces any range already keyed by the same
    /// position.
    pub fn add_data(&mut self, position: u64, data: Vec<u8>)
        requires
            old(self).wf(),
            position + data@.len() <= u64::MAX,
        ensures
            final(self).wf(),
            final(self).spec_config() == old(self).spec_config(),
            final(self).spec_position() == old(self).spec_position(),
            final(self).spec_stream_size() == old(self).spec_stream_size(),
            final(self).buffered_bytes() <= old(self).spec_config().max_buffer_size,
            data@.len() == 0 ==> *final(self) == *old(self),
            data@.len() > 0 && old(self).spec_config().max_buffer_size > 0
                ==> final(self).spec_is_buffered(position),
            data@.len() > 0 && data@.len() <= old(self).spec_config().max_buffer_size ==> {
                &&& has_start(final(self).spec_ranges(), position)
                &&& data_at_start(final(self).spec_ranges(), position) == data@
            },
            data@.len() > 0 && old(self).buffered_bytes() + data@.len() <= old(
                self,
            ).spec_config().max_buffer_size ==> {
                &&& forall|q: u64|
                    q != position ==> has_start(final(self).spec_ranges(), q) == has_start(
                        old(self).spec_ranges(),
                        q,
                    )
                &&& forall|q: u64|
                    q != position && has_start(old(self).spec_ranges(), q) ==> data_at_start(
                        final(self).spec_ranges(),
                        q,
                    ) == data_at_start(old(self).spec_ranges(), q)
            },
    {
        if data.len() == 0 {
            return;
        }

        let data_len = data.len();

        // Evict before inserting so the maximum is never overshot.
        if data_len > self.config.max_buffer_size
            || self.total_buffered > self.config.max_buffer_size - data_len {
            self.evict_to_make_room(data_len);
        }

        // Truncate a block that is larger than the whole buffer.
        let ghost given = data@;
        let data = if data_len > self.config.max_buffer_size {
            let mut d = data;
            d.truncate(self.config.max_buffer_size);
            d
        } else {
            data
        };
        let actual_len = data.len();
        proof {
            lemma_total_len_nonneg(self.ranges@);
            assert(data_len <= self.config.max_buffer_size ==> data@ == given);
        }

        // Replace an existing range with the same key in place, else
        // insert sorted.
        if let Some(i) = self.find_index_of_start(position) {
            let removed_len = self.ranges[i].data.len();
            let ghost prev = self.ranges@;
            proof {
                lemma_total_len_elem(prev, i as int);
            }
            self.ranges.set(i, BufferedRange { start: position, data });
            proof {
                lemma_total_len_update(prev, i as int, self.ranges@[i as int]);
                lemma_ranges_set_keeps(prev, i as int, self.ranges@, position);
                if actual_len > 0 {
                    assert((i as int) < self.spec_ranges().len());
                    assert(self.spec_ranges()[i as int].spec_contains(position));
                    assert(self.spec_is_buffered(position));
                }
                if data_len <= self.config.max_buffer_size {
                    assert(data_at_start(self.ranges@, position) == given);
                }
            }
            self.total_buffered = self.total_buffered - removed_len + actual_len;
        } else {
            let i2 = self.insert_position(position);
            let ghost prev = self.ranges@;
            self.insert_range_at(i2, position, data);
            proof {
                assert((i2 as int) < self.spec_ranges().len());
                assert(self.spec_ranges()[i2 as int].start == position);
                lemma_data_at_start(self.ranges@, i2 as int, position);
                if actual_len > 0 {
                    assert(self.spec_ranges()[i2 as int].spec_contains(position));
                    assert(self.spec_is_buffered(position));
                }
                if data_len <= self.config.max_buffer_size {
                    assert(data_at_start(self.ranges@, position) == given);
                }
                assert forall|q: u64| q != position implies has_start(self.ranges@, q)
                    == has_start(prev, q) by {
                    if has_start(self.ranges@, q) {
                        let w = choose|w: int|
                            0 <= w < self.ranges@.len() && (#[trigger] self.ranges@[w]).start
                                == q;
                        let w0 = if w < i2 as int {
                            w
                        } else {
                            w - 1
                        };
                        assert(prev[w0] == self.ranges@[w]);
                    }
                    if has_start(prev, q) {
                        let w = choose|w: int|
                            0 <= w < prev.len() && (#[trigger] prev[w]).start == q;
                        let w1 = if w < i2 as int {
                            w
                        } else {
                            w + 1
                        };
                        assert(self.ranges@[w1] == prev[w]);
                    }
                }
                assert forall|q: u64| q != position && has_start(prev, q) implies data_at_start(
                    self.ranges@,
                    q,
                ) == data_at_start(prev, q) by {
                    let w = choose|w: int|
                        0 <= w < prev.len() && (#[trigger] prev[w]).start == q;
                    let w1 = if w < i2 as int {
                        w
                    } else {
                        w + 1
                    };
                    assert(self.ranges@[w1] == prev[w]);
                    lemma_data_at_start(prev, w, q);
                    lemma_data_at_start(self.ranges@, w1, q);
                }
            }
        }
    }

    /// The index at which a range starting at `position` belongs so that
    /// the ranges stay sorted; `position` is not an existing key.
    fn insert_position(&self, position: u64) -> (r: usize)
        requires
            self.wf(),
            forall|i: int| 0 <= i < self.ranges@.len() ==> self.ranges@[i].start != position,
        ensures
            r <= self.ranges@.len(),
            forall|k: int| 0 <= k < r ==> self.ranges@[k].start < position,
            forall|k: int| r <= k < self.ranges@.len() ==> self.ranges@[k].start > position,
    {
        let mut i: usize = 0;
        while i < self.ranges.len()
            invariant
                self.wf(),
                i <= self.ranges@.len(),
                forall|k: int| 0 <= k < i ==> self.ranges@[k].start < position,
                forall|k: int| 0 <= k < self.ranges@.len() ==> self.ranges@[k].start != position,
            decreases self.ranges@.len() - i,
        {
            if self.ranges[i].start > position {
                return i;
            }
            i = i + 1;
        }
        i
    }

    /// Insert a fresh range at index `i`, keeping the invariant.
    fn insert_range_at(&mut self, i: usize, position: u64, data: Vec<u8>)
        requires
            old(self).wf(),
            i <= old(self).ranges@.len(),
            forall|k: int| 0 <= k < i ==> old(self).ranges@[k].start < position,
            forall|k: int| i <= k < old(self).ranges@.len() ==> old(self).ranges@[k].start > position,
            old(self).total_buffered + data@.len() <= old(self).config.max_buffer_size,
            position + data@.len() <= u64::MAX,
        ensures
            final(self).wf(),
            final(self).config == old(self).config,
            final(self).read_position == old(self).read_position,
            final(self).stream_size == old(self).stream_size,
            final(self).ranges@.len() == old(self).ranges@.len() + 1,
            final(self).ranges@[i as int].start == position,
            final(self).ranges@[i as int].data@ == data@,
            forall|k: int| 0 <= k < i ==> final(self).ranges@[k] == old(self).ranges@[k],
            forall|k: int|
                i < k < final(self).ranges@.len() ==> final(self).ranges@[k] == old(self).ranges@[
                    k - 1
                ],
    {
        let len = data.len();
        let ghost prev = self.ranges@;
        let ghost v = BufferedRange { start: position, data: data };
        self.ranges.insert(i, BufferedRange { start: position, data });
        proof {
            assert(self.ranges@ =~= prev.insert(i as int, v));
            lemma_total_len_insert(prev, i as int, v);
            lemma_total_len_nonneg(prev);
        }
        self.total_buffered = self.total_buffered + len;
        proof {
            assert forall|a: int, b: int|
                0 <= a < b < self.ranges@.len() implies self.ranges@[a].start
                < self.ranges@[b].start by {
                let a0 = if a <= i { a } else { a - 1 };
                let b0 = if b <= i { b } else { b - 1 };
                if a < i && b > i {
                    assert(prev[a0].start < position);
                    assert(prev[b0].start > position);
                }
            }
            assert forall|k: int|
                0 <= k < self.ranges@.len() implies (#[trigger] self.ranges@[k]).spec_end()
                <= u64::MAX by {
                if k != i {
                    let k0 = if k < i { k } else { k - 1 };
                    assert(self.ranges@[k] == prev[k0]);
                }
            }
        }
    }

    /// Evict ranges until at least `needed_space` bytes are free below the
    /// maximum, preferring ranges that lie entirely before the read cursor.
    fn evict_to_make_room(&mut self, needed_space: usize)
        requires
            old(self).wf(),
        ensures
            final(self).wf(),
            final(self).config == old(self).config,
            final(self).read_position == old(self).read_position,
            final(self).stream_size == old(self).stream_size,
            final(self).total_buffered + needed_space <= old(self).config.max_buffer_size
                || final(self).total_buffered == 0,
    {
        let target_size: usize = if needed_space <= self.config.max_buffer_size {
            self.config.max_buffer_size - needed_space
        } else {
            0
        };

        while self.total_buffered > target_size && self.ranges.len() > 0
            invariant
                self.wf(),
                self.config == old(self).config,
                self.read_position == old(self).read_position,
                self.stream_size == old(self).stream_size,
            decreases self.ranges@.len(),
        {
            // Prefer the first range that ends at or before the cursor: it
            // cannot be read again without a seek.
            let mut pick: usize = 0;
            let mut found = false;
            let mut j: usize = 0;
            while j < self.ranges.len()
                invariant
                    self.wf(),
                    self.ranges@.len() > 0,
                    j <= self.ranges@.len(),
                    found ==> pick < self.ranges@.len(),
                    !found ==> pick == 0,
                decreases self.ranges@.len() - j,
            {
                let r = &self.ranges[j];
                if r.start + (r.data.len() as u64) <= self.read_position {
                    pick = j;
                    found = true;
                    break;
                }
                j = j + 1;
            }
            let victim = if found { pick } else { 0 };
            let removed_len = self.ranges[victim].data.len();
            let ghost prev = self.ranges@;
            proof {
                lemma_total_len_remove(prev, victim as int);
                lemma_total_len_nonneg(prev.remove(victim as int));
                lemma_remove_keeps_shape(prev, victim as int);
            }
            self.ranges.remove(victim);
            self.total_buffered = self.total_buffered - removed_len;
        }
        proof {
            if self.ranges@.len() == 0 {
                assert(total_len(self.ranges@) == 0);
            }
        }
    }

    /// Read up to `len` bytes from the range containing the read cursor.
    ///
    /// Returns `None` when the cursor lies in no buffered range. On
    /// success, the returned bytes are exactly the stored bytes at the
    /// cursor, and the cursor advances by exactly the number returned.
    pub fn read(&mut self, len: usize) -> (r: Option<Vec<u8>>)
        requires
            old(self).wf(),
        ensures
            final(self).wf(),
            final(self).spec_config() == old(self).spec_config(),
            final(self).spec_ranges() == old(self).spec_ranges(),
            final(self).spec_stream_size() == old(self).spec_stream_size(),
            final(self).buffered_bytes() == old(self).buffered_bytes(),
            match r {
                None => {
                    &&& !old(self).spec_is_buffered(old(self).spec_position())
                    &&& final(self).spec_position() == old(self).spec_position()
                },
                Some(data) => {
                    &&& old(self).spec_is_buffered(old(self).spec_position())
                    &&& data@.len() > 0 || len == 0
                    &&& data@.len() <= len
                    &&& final(self).spec_position() == old(self).spec_position() + data@.len()
                    &&& exists|i: int|
                        {
                            &&& 0 <= i < old(self).spec_ranges().len()
                            &&& old(self).spec_ranges()[i].spec_contains(old(self).spec_position())
                            &&& (forall|j: int|
                                0 <= j < i ==> !old(self).spec_ranges()[j].spec_contains(
                                    old(self).spec_position(),
                                ))
                            &&& data@.len() == (if len as int <= old(self).spec_ranges()[
                                i
                            ].spec_end() - old(self).spec_position() {
                                len as int
                            } else {
                                old(self).spec_ranges()[i].spec_end() - old(
                                    self,
                                ).spec_position()
                            })
                            &&& data@ == old(self).spec_ranges()[i].data@.subrange(
                                old(self).spec_position() - old(self).spec_ranges()[i].start,
                                old(self).spec_position() - old(self).spec_ranges()[i].start
                                    + data@.len(),
                            )
                        }
                },
            },
    {
        let pos = self.read_position;

        let idx = match self.find_index_containing(pos) {
            Some(i) => i,
            None => {
                return None;
            },
        };

        proof {
            assert(self.spec_ranges()[idx as int].spec_contains(pos));
        }
        let range_start = self.ranges[idx].start;
        let dlen = self.ranges[idx].data.len();
        assert(pos - range_start < dlen as u64);
        let offset = (pos - range_start) as usize;
        assert(offset == pos - range_start);
        let available = self.ranges[idx].data.len() - offset;
        let to_read = if len < available { len } else { available };

        let mut out: Vec<u8> = Vec::new();
        assert(out@ =~= self.ranges@[idx as int].data@.subrange(offset as int, offset as int));
        let mut k: usize = 0;
        while k < to_read
            invariant
                self.wf(),
                idx < self.ranges@.len(),
                offset + to_read <= dlen,
                dlen == self.ranges@[idx as int].data@.len(),
                k <= to_read,
                out@ == self.ranges@[idx as int].data@.subrange(
                    offset as int,
                    offset + k,
                ),
            decreases to_read - k,
        {
            let b = self.ranges[idx].data[offset + k];
            out.push(b);
            assert(out@ =~= self.ranges@[idx as int].data@.subrange(offset as int, offset + k + 1));
            k = k + 1;
        }

        self.read_position = self.read_position + to_read as u64;
        self.bytes_consumed = if self.bytes_consumed <= usize::MAX - to_read {
            self.bytes_consumed + to_read
        } else {
            usize::MAX
        };

        self.adapt_buffer_size();

        assert(out@ == self.ranges@[idx as int].data@.subrange(
            pos - self.ranges@[idx as int].start,
            pos - self.ranges@[idx as int].start + out@.len(),
        ));
        Some(out)
    }

    /// Seek to a stream position.
    ///
    /// A position beyond the known stream size is rejected and leaves the
    /// cursor unchanged; otherwise the cursor moves there and the result
    /// says whether the new cursor lies in a buffered range.
    pub fn seek(&mut self, position: u64) -> (r: bool)
        requires
            old(self).wf(),
        ensures
            final(self).wf(),
            final(self).spec_config() == old(self).spec_config(),
            final(self).spec_ranges() == old(self).spec_ranges(),
            final(self).buffered_bytes() == old(self).buffered_bytes(),
            final(self).spec_stream_size() == old(self).spec_stream_size(),
            match old(self).spec_stream_size() {
                Some(size) => if position > size {
                    &&& r == false
                    &&& final(self).spec_position() == old(self).spec_position()
                } else {
                    &&& final(self).spec_position() == position
                    &&& r == old(self).spec_is_buffered(position)
                },
                None => {
                    &&& final(self).spec_position() == position
                    &&& r == old(self).spec_is_buffered(position)
                },
            },
    {
        if let Some(size) = self.stream_size {
            if position > size {
                return false;
            }
        }

        self.read_position = position;

        proof {
            assert(self.spec_ranges() == old(self).spec_ranges());
            if self.spec_is_buffered(position) {
                let i = choose|i: int|
                    0 <= i < self.spec_ranges().len()
                        && self.spec_ranges()[i].spec_contains(position);
                assert(old(self).spec_ranges()[i].spec_contains(position));
            }
            if old(self).spec_is_buffered(position) {
                let i = choose|i: int|
                    0 <= i < old(self).spec_ranges().len()
                        && old(self).spec_ranges()[i].spec_contains(position);
                assert(self.spec_ranges()[i].spec_contains(position));
            }
        }
        match self.find_index_containing(position) {
            Some(i) => {
                proof {
                    assert(self.spec_ranges()[i as int].spec_contains(position));
                }
                true
            },
            None => false,
        }
    }

    /// The buffered ranges as (start, end) pairs, sorted by start.
    pub fn buffered_ranges(&self) -> (r: Vec<(u64, u64)>)
        requires
            self.wf(),
        ensures
            r@.len() == self.spec_ranges().len(),
            forall|i: int|
                0 <= i < r@.len() ==> r@[i].0 == self.spec_ranges()[i].start
                    && r@[i].1 == self.spec_ranges()[i].spec_end(),
    {
        let mut out: Vec<(u64, u64)> = Vec::new();
        let mut i: usize = 0;
        while i < self.ranges.len()
            invariant
                self.wf(),
                i <= self.ranges@.len(),
                out@.len() == i,
                forall|k: int|
                    0 <= k < i ==> out@[k].0 == self.ranges@[k].start
                        && out@[k].1 == self.ranges@[k].spec_end(),
            decreases self.ranges@.len() - i,
        {
            let r = &self.ranges[i];
            out.push((r.start, r.start + r.data.len() as u64));
            i = i + 1;
        }
        out
    }

    /// Whether a position is buffered.
    pub fn is_buffered(&self, position: u64) -> (r: bool)
        requires
            self.wf(),
        ensures
            r == self.spec_is_buffered(position),
    {
        match self.find_index_containing(position) {
            Some(i) => {
                proof {
                    assert(self.spec_ranges()[i as int].spec_contains(position));
                }
                true
            },
            None => false,
        }
    }

    /// Clear the buffer: no ranges, no buffered bytes, cursor at zero.
    pub fn clear(&mut self)
        requires
            old(self).wf(),
        ensures
            final(self).wf(),
            final(self).spec_config() == old(self).spec_config(),
            final(self).spec_ranges().len() == 0,
            final(self).buffered_bytes() == 0,
            final(self).spec_position() == 0,
            final(self).spec_stream_size() == old(self).spec_stream_size(),
    {
        self.ranges.clear();
        self.total_buffered = 0;
        self.read_position = 0;
    }

    /// Grow the adaptive target by half, capped at the maximum, once the
    /// bytes consumed since the last adaptation pass an eighth of the high
    /// watermark.
    fn adapt_buffer_size(&mut self)
        requires
            old(self).wf(),
        ensures
            final(self).wf(),
            final(self).config == old(self).config,
            final(self).ranges@ == old(self).ranges@,
            final(self).total_buffered == old(self).total_buffered,
            final(self).read_position == old(self).read_position,
            final(self).stream_size == old(self).stream_size,
    {
        let adaptation_threshold = self.config.high_watermark / 8;

        if self.bytes_consumed >= adaptation_threshold {
            let grown = if self.adaptive_target <= usize::MAX / 3 * 2 {
                self.adaptive_target / 2 * 3
            } else {
                usize::MAX
            };
            self.adaptive_target = if grown < self.config.max_buffer_size {
                grown
            } else {
                self.config.max_buffer_size
            };
            self.bytes_consumed = 0;
        }
    }
}

} // verus!
