//! Stream handling on top of the adaptive buffer: positions, resumable
//! stream state, and the read/seek surface with its error taxonomy.

use crate::buffer::{AdaptiveBuffer, BufferConfig};
use crate::errors::StreamError;
use crate::metadata::now_millis;
use vstd::prelude::*;
use vstd::string::StringExecFns;

verus! {

/// Stream position information.
#[derive(Debug, Clone)]
pub struct StreamPosition {
    /// Current byte position
    pub position: u64,
    /// Total stream size, if known
    pub total_size: Option<u64>,
}

impl StreamPosition {
    /// Create a new stream position.
    pub fn new(position: u64, total_size: Option<u64>) -> (r: Self)
        ensures
            r.position == position,
            r.total_size == total_size,
    {
        Self { position, total_size }
    }
}

/// Stream state for resumption.
#[derive(Debug, Clone)]
pub struct StreamState {
    /// Stream identifier
    pub stream_id: String,
    /// Last known position
    pub position: u64,
    /// Total size, if known
    pub total_size: Option<u64>,
    /// Time of last activity, milliseconds since the epoch
    pub last_activity: u64,
}

impl StreamState {
    /// Create a new stream state, active now.
    pub fn new(stream_id: String, position: u64, total_size: Option<u64>) -> (r: Self)
        ensures
            r.stream_id@ == stream_id@,
            r.position == position,
            r.total_size == total_size,
    {
        Self { stream_id, position, total_size, last_activity: now_millis() }
    }

    /// Record a new position, touching the activity time.
    pub fn update_position(&mut self, position: u64)
        ensures
            final(self).position == position,
            final(self).stream_id@ == old(self).stream_id@,
            final(self).total_size == old(self).total_size,
    {
        self.position = position;
        self.last_activity = now_millis();
    }
}

/// Stream handler: buffering, seeking and resumption for one stream.
pub struct StreamHandler {
    stream_id: String,
    buffer: AdaptiveBuffer,
    state: StreamState,
    started_at_ms: u64,
    bytes_read: u64,
    active: bool,
}

impl StreamHandler {
    /// The underlying buffer, for contracts.
    pub closed spec fn spec_buffer(&self) -> AdaptiveBuffer {
        self.buffer
    }

    /// The stream id, for contracts.
    pub closed spec fn spec_stream_id(&self) -> Seq<char> {
        self.stream_id@
    }

    /// The resumption state, for contracts.
    pub closed spec fn spec_state(&self) -> StreamState {
        self.state
    }

    /// Whether the stream is active, for contracts.
    pub closed spec fn spec_active(&self) -> bool {
        self.active
    }

    /// The total bytes read, for contracts.
    pub closed spec fn spec_bytes_read(&self) -> u64 {
        self.bytes_read
    }

    /// Structural invariant: the buffer is well formed.
    pub open spec fn wf(&self) -> bool {
        self.spec_buffer().wf()
    }

    /// Create a new active handler with an empty buffer.
    pub fn new(stream_id: String, config: BufferConfig) -> (r: Self)
        requires
            config.wf(),
        ensures
            r.wf(),
            r.spec_stream_id() == stream_id@,
            r.spec_active(),
            r.spec_bytes_read() == 0,
            r.spec_buffer().spec_position() == 0,
            r.spec_buffer().buffered_bytes() == 0,
            r.spec_buffer().spec_config() == config,
    {
        let buffer = AdaptiveBuffer::new(config);
        let state = StreamState::new(stream_id.clone(), 0, None);
        Self {
            stream_id,
            buffer,
            state,
            started_at_ms: now_millis(),
            bytes_read: 0,
            active: true,
        }
    }

    /// Record a known stream size.
    pub fn with_size(self, size: u64) -> (r: Self)
        requires
            self.wf(),
        ensures
            r.wf(),
            r.spec_buffer().stream_size() == Some(size),
            r.spec_state().total_size == Some(size),
            r.spec_stream_id() == self.spec_stream_id(),
            r.spec_active() == self.spec_active(),
    {
        let buffer = self.buffer.with_stream_size(size);
        let mut state = self.state;
        state.total_size = Some(size);
        Self { buffer, state, ..self }
    }

    /// Resume from a saved state: a fresh buffer whose cursor starts at
    /// the saved position.
    pub fn resume(stream_id: String, config: BufferConfig, state: StreamState) -> (r: Self)
        requires
            config.wf(),
        ensures
            r.wf(),
            r.spec_stream_id() == stream_id@,
            r.spec_active(),
            r.spec_bytes_read() == 0,
            r.spec_buffer().buffered_bytes() == 0,
            r.spec_buffer().spec_ranges().len() == 0,
            match state.total_size {
                Some(size) => state.position <= size ==> r.spec_buffer().spec_position()
                    == state.position,
                None => r.spec_buffer().spec_position() == state.position,
            },
            r.spec_state().total_size == state.total_size,
    {
        let mut buffer = AdaptiveBuffer::new(config);
        if let Some(size) = state.total_size {
            buffer = buffer.with_stream_size(size);
        }
        buffer.seek(state.position);
        Self {
            stream_id,
            buffer,
            state,
            started_at_ms: now_millis(),
            bytes_read: 0,
            active: true,
        }
    }

    /// The stream id.
    pub fn stream_id(&self) -> (r: &str)
        ensures
            r@ == self.spec_stream_id(),
    {
        self.stream_id.as_str()
    }

    /// The current position and known size.
    pub fn position(&self) -> (r: StreamPosition)
        ensures
            r.position == self.spec_buffer().spec_position(),
            r.total_size == self.spec_buffer().stream_size(),
    {
        StreamPosition::new(self.buffer.position(), self.buffer.stream_size())
    }

    /// The saved state for resumption.
    pub fn state(&self) -> (r: &StreamState)
        ensures
            r == self.spec_state(),
    {
        &self.state
    }

    /// Whether the stream is active.
    pub fn is_active(&self) -> (r: bool)
        ensures
            r == self.spec_active(),
    {
        self.active
    }

    /// Whether the buffer wants more data.
    pub fn needs_data(&self) -> (r: bool)
        ensures
            r == (self.spec_buffer().buffered_bytes()
                < self.spec_buffer().spec_config().low_watermark),
    {
        self.buffer.needs_data()
    }

    /// Whether the buffer is full.
    pub fn is_buffer_full(&self) -> (r: bool)
        ensures
            r == (self.spec_buffer().buffered_bytes()
                >= self.spec_buffer().spec_config().high_watermark),
    {
        self.buffer.is_full()
    }

    /// Add data to the buffer at a stream position.
    pub fn add_data(&mut self, position: u64, data: Vec<u8>)
        requires
            old(self).wf(),
            position + data@.len() <= u64::MAX,
        ensures
            final(self).wf(),
            final(self).spec_buffer().buffered_bytes() <= old(
                self,
            ).spec_buffer().spec_config().max_buffer_size,
            final(self).spec_active() == old(self).spec_active(),
            final(self).spec_stream_id() == old(self).spec_stream_id(),
            data@.len() > 0 && old(self).spec_buffer().spec_config().max_buffer_size > 0
                ==> final(self).spec_buffer().spec_is_buffered(position),
    {
        self.buffer.add_data(position, data);
    }

    /// Read up to `len` bytes at the cursor.
    ///
    /// Fails with NotFound on a stopped stream and with a buffer underrun
    /// when the cursor lies in no buffered range; on success the bytes
    /// come verbatim from the range at the cursor, which advances by
    /// exactly the number returned.
    pub fn read(&mut self, len: usize) -> (r: Result<Vec<u8>, StreamError>)
        requires
            old(self).wf(),
        ensures
            final(self).wf(),
            final(self).spec_active() == old(self).spec_active(),
            !old(self).spec_active() ==> (r matches Err(e) && e is NotFound) && *final(self)
                == *old(self),
            old(self).spec_active() ==> match r {
                Ok(data) => {
                    &&& old(self).spec_buffer().spec_is_buffered(
                        old(self).spec_buffer().spec_position(),
                    )
                    &&& final(self).spec_state().position == final(self).spec_buffer()
                        .spec_position()
                    &&& data@.len() <= len
                    &&& final(self).spec_buffer().spec_position() == old(
                        self,
                    ).spec_buffer().spec_position() + data@.len()
                    &&& exists|i: int|
                        {
                            &&& 0 <= i < old(self).spec_buffer().spec_ranges().len()
                            &&& (#[trigger] old(self).spec_buffer().spec_ranges()[
                                i
                            ]).spec_contains(old(self).spec_buffer().spec_position())
                            &&& data@ == old(self).spec_buffer().spec_ranges()[i].data@.subrange(
                                old(self).spec_buffer().spec_position() - old(
                                    self,
                                ).spec_buffer().spec_ranges()[i].start,
                                old(self).spec_buffer().spec_position() - old(
                                    self,
                                ).spec_buffer().spec_ranges()[i].start + data@.len(),
                            )
                        }
                },
                Err(e) => e is BufferUnderrun && !old(self).spec_buffer().spec_is_buffered(
                    old(self).spec_buffer().spec_position(),
                ),
            },
    {
        if !self.active {
            return Err(StreamError::NotFound(self.stream_id.clone()));
        }

        match self.buffer.read(len) {
            Some(data) => {
                self.bytes_read = if self.bytes_read <= u64::MAX - data.len() as u64 {
                    self.bytes_read + data.len() as u64
                } else {
                    u64::MAX
                };
                let pos = self.buffer.position();
                self.state.update_position(pos);
                Ok(data)
            },
            None => Err(StreamError::BufferUnderrun),
        }
    }

    /// Seek to a position.
    ///
    /// Fails with NotFound on a stopped stream and with an out-of-bounds
    /// error beyond the known size; otherwise the cursor moves there.
    pub fn seek(&mut self, position: u64) -> (r: Result<(), StreamError>)
        requires
            old(self).wf(),
        ensures
            final(self).wf(),
            final(self).spec_active() == old(self).spec_active(),
            !old(self).spec_active() ==> (r matches Err(e) && e is NotFound),
            !old(self).spec_active() ==> *final(self) == *old(self),
            old(self).spec_active() ==> match r {
                Ok(()) => {
                    &&& final(self).spec_buffer().spec_position() == position
                    &&& final(self).spec_state().position == position
                    &&& (match old(self).spec_buffer().stream_size() {
                        Some(size) => position <= size,
                        None => true,
                    })
                },
                Err(e) => {
                    &&& e is SeekOutOfBounds
                    &&& old(self).spec_buffer().stream_size() matches Some(size) && position
                        > size
                    &&& *final(self) == *old(self)
                },
            },
    {
        if !self.active {
            return Err(StreamError::NotFound(self.stream_id.clone()));
        }

        if let Some(size) = self.buffer.stream_size() {
            if position > size {
                return Err(StreamError::SeekOutOfBounds { position, size });
            }
        }

        self.buffer.seek(position);
        self.state.update_position(position);
        Ok(())
    }

    /// Whether a position is buffered.
    pub fn is_buffered(&self, position: u64) -> (r: bool)
        requires
            self.wf(),
        ensures
            r == self.spec_buffer().spec_is_buffered(position),
    {
        self.buffer.is_buffered(position)
    }

    /// The buffered ranges as (start, end) pairs.
    pub fn buffered_ranges(&self) -> (r: Vec<(u64, u64)>)
        requires
            self.wf(),
        ensures
            r@.len() == self.spec_buffer().spec_ranges().len(),
    {
        self.buffer.buffered_ranges()
    }

    /// The total buffered bytes.
    pub fn buffered_bytes(&self) -> (r: usize)
        ensures
            r == self.spec_buffer().buffered_bytes(),
    {
        self.buffer.buffered_bytes()
    }

    /// The total bytes read.
    pub fn bytes_read(&self) -> (r: u64)
        ensures
            r == self.spec_bytes_read(),
    {
        self.bytes_read
    }

    /// Milliseconds of wallclock time since the handler started
    /// (saturating at zero if the clock stepped backwards).
    pub fn elapsed_ms(&self) -> u64 {
        let now = now_millis();
        if now >= self.started_at_ms {
            now - self.started_at_ms
        } else {
            0
        }
    }

    /// Stop the stream.
    pub fn stop(&mut self)
        ensures
            !final(self).spec_active(),
            final(self).wf() == old(self).wf(),
            final(self).spec_buffer() == old(self).spec_buffer(),
    {
        self.active = false;
    }

    /// Clear the buffer.
    pub fn clear_buffer(&mut self)
        requires
            old(self).wf(),
        ensures
            final(self).wf(),
            final(self).spec_buffer().buffered_bytes() == 0,
            final(self).spec_buffer().spec_ranges().len() == 0,
            final(self).spec_buffer().spec_position() == 0,
            final(self).spec_active() == old(self).spec_active(),
    {
        self.buffer.clear();
    }
}

} // verus!
