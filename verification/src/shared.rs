//! The capture side, without a capture API.
//!
//! The system hands the audio plug-in every frame the machine plays, because
//! the plug-in *is* the output device. It publishes them in a ring buffer in
//! shared memory, which this side maps read-only. No capture API is involved
//! anywhere, so no permission guards it.
//!
//! One writer, one reader, no locks. The writer publishes `written` after the
//! frames it describes; a reader that trusts nothing beyond `written` cannot
//! read a frame that is only half there.

use vstd::prelude::*;

use crate::text::{decimal, decimal_signed, digits, signed_digits};

verus! {

/// The name of the shared-memory segment that the driver creates.
pub const NAME: &'static str = "/DisEQ.audio";

/// `'KDSN'`, written last so a reader that sees it sees a filled-in header.
pub const MAGIC: u32 = 0x4B44_534E;

pub const VERSION: u32 = 1;

/// Bytes the header takes in the segment; the samples follow it.
pub const HEADER_BYTES: usize = 40;

/// The header the driver writes, field for field as it lies in the segment.
///
/// Fixed-width types and explicit padding: this is read by another process
/// compiled by another compiler, so nothing here may depend on either.
#[derive(Clone, Copy, Debug, PartialEq, Eq, Structural)]
pub struct Header {
    pub magic: u32,
    pub version: u32,
    pub channels: u32,
    pub capacity_frames: u32,
    /// The bits of the sample rate, a double-precision number.
    pub sample_rate_bits: u64,
    /// Sample time one past the last frame the driver has written.
    pub written: i64,
    /// Not zero while the device has IO running.
    pub running: u32,
    pub reserved: u32,
}

#[derive(Clone, Copy, Debug, PartialEq, Eq, Structural)]
pub enum SharedError {
    /// No segment. The driver is not installed, or has not been loaded since
    /// it was.
    Absent,
    /// The segment is there but could not be mapped.
    Unmappable(i32),
    /// A driver from a different version of this project.
    Version { found: u32, wanted: u32 },
    /// Mapped, but the header has not been filled in: the plug-in is loading.
    NotReady,
}

impl SharedError {
    pub open spec fn text(self) -> Seq<char> {
        match self {
            SharedError::Absent => {
                "the DisEQ driver is not loaded — run 'make driver-install'"@
            },
            SharedError::Unmappable(errno) => {
                "the driver's audio buffer could not be mapped ("@ + signed_digits(errno as int)
                    + ")"@
            },
            SharedError::Version { found, wanted } => {
                "the installed driver speaks version "@ + digits(found as nat)
                    + ", this app speaks "@ + digits(wanted as nat)
                    + " — run 'make driver-install'"@
            },
            SharedError::NotReady => "the driver is still starting up"@,
        }
    }

    pub fn message(&self) -> (message: String)
        ensures
            message@ == self.text(),
    {
        match self {
            SharedError::Absent => {
                "the DisEQ driver is not loaded — run 'make driver-install'".to_owned()
            },
            SharedError::Unmappable(errno) => {
                let mut message = "the driver's audio buffer could not be mapped (".to_owned();
                message.append(decimal_signed(*errno as i64).as_str());
                message.append(")");
                message
            },
            SharedError::Version { found, wanted } => {
                let mut message = "the installed driver speaks version ".to_owned();
                message.append(decimal(*found as u64).as_str());
                message.append(", this app speaks ");
                message.append(decimal(*wanted as u64).as_str());
                message.append(" — run 'make driver-install'");
                message
            },
            SharedError::NotReady => "the driver is still starting up".to_owned(),
        }
    }
}

// --- mapping the segment ----------------------------------------------------

/// Where the opening of the segment stands.
#[derive(Clone, Copy, Debug)]
pub enum OpenStage {
    /// The segment is being opened by name.
    Finding,
    /// It is open; its size is being asked for.
    Measuring,
    /// It is open and that large; it is being mapped.
    Mapping { bytes: usize },
    /// It is mapped and closed; the header is being read.
    Checking { bytes: usize },
    /// Mapped and sound.
    Open { bytes: usize, ring: SharedRing },
    Failed { error: SharedError },
}

/// What the system answered.
#[derive(Clone, Copy, Debug)]
pub enum OpenEvent {
    NotFound,
    Found,
    NotMeasured { errno: i32 },
    Measured { bytes: usize },
    NotMapped { errno: i32 },
    Mapped,
    HeaderRead { header: Header },
}

/// What has to be given back as the stage is left.
#[derive(Clone, Copy, Debug, PartialEq, Eq, Structural)]
pub struct Release {
    pub close: bool,
    pub unmap: bool,
}

/// The ring that `header` describes, or why it describes none.
pub open spec fn described(header: Header) -> Result<SharedRing, SharedError> {
    if header.magic != MAGIC {
        Err(SharedError::NotReady)
    } else if header.version != VERSION {
        Err(SharedError::Version { found: header.version, wanted: VERSION })
    } else if header.capacity_frames == 0 || header.channels == 0 {
        Err(SharedError::NotReady)
    } else {
        Ok(
            SharedRing {
                capacity: header.capacity_frames as usize,
                channels: header.channels as usize,
                opened_rate_bits: header.sample_rate_bits,
                header,
            },
        )
    }
}

impl OpenStage {
    /// Whether the segment's descriptor is open, and whether it is mapped.
    pub open spec fn holds(self) -> (bool, bool) {
        match self {
            OpenStage::Finding => (false, false),
            OpenStage::Measuring => (true, false),
            OpenStage::Mapping { .. } => (true, false),
            OpenStage::Checking { .. } => (false, true),
            OpenStage::Open { .. } => (false, true),
            OpenStage::Failed { .. } => (false, false),
        }
    }

    /// Whether `event` answers what this stage asked.
    pub open spec fn awaits(self, event: OpenEvent) -> bool {
        match self {
            OpenStage::Finding => event is NotFound || event is Found,
            OpenStage::Measuring => event is NotMeasured || event is Measured,
            OpenStage::Mapping { .. } => event is NotMapped || event is Mapped,
            OpenStage::Checking { .. } => event is HeaderRead,
            OpenStage::Open { .. } => false,
            OpenStage::Failed { .. } => false,
        }
    }

    pub open spec fn after(self, event: OpenEvent) -> OpenStage {
        match (self, event) {
            (OpenStage::Finding, OpenEvent::NotFound) => {
                OpenStage::Failed { error: SharedError::Absent }
            },
            (OpenStage::Finding, OpenEvent::Found) => OpenStage::Measuring,
            (OpenStage::Measuring, OpenEvent::NotMeasured { errno }) => {
                OpenStage::Failed { error: SharedError::Unmappable(errno) }
            },
            (OpenStage::Measuring, OpenEvent::Measured { bytes }) => if bytes < HEADER_BYTES {
                OpenStage::Failed { error: SharedError::NotReady }
            } else {
                OpenStage::Mapping { bytes }
            },
            (OpenStage::Mapping { .. }, OpenEvent::NotMapped { errno }) => {
                OpenStage::Failed { error: SharedError::Unmappable(errno) }
            },
            (OpenStage::Mapping { bytes }, OpenEvent::Mapped) => OpenStage::Checking { bytes },
            (OpenStage::Checking { bytes }, OpenEvent::HeaderRead { header }) => match described(
                header,
            ) {
                Ok(ring) => OpenStage::Open { bytes, ring },
                Err(error) => OpenStage::Failed { error },
            },
            _ => self,
        }
    }

    /// Takes the system's answer, and says what is to be given back now: the
    /// descriptor as soon as the segment is mapped or cannot be, the mapping
    /// when what it holds is not a ring this side can read.
    pub fn step(self, event: OpenEvent) -> (next: (OpenStage, Release))
        requires
            self.awaits(event),
        ensures
            next.0 == self.after(event),
            next.1 == (Release {
                close: self.holds().0 && !next.0.holds().0,
                unmap: self.holds().1 && !next.0.holds().1,
            }),
    {
        let nothing = Release { close: false, unmap: false };
        let close = Release { close: true, unmap: false };
        match (self, event) {
            (OpenStage::Finding, OpenEvent::NotFound) => {
                (OpenStage::Failed { error: SharedError::Absent }, nothing)
            },
            (OpenStage::Finding, OpenEvent::Found) => (OpenStage::Measuring, nothing),
            (OpenStage::Measuring, OpenEvent::NotMeasured { errno }) => {
                (OpenStage::Failed { error: SharedError::Unmappable(errno) }, close)
            },
            (OpenStage::Measuring, OpenEvent::Measured { bytes }) => {
                if bytes < HEADER_BYTES {
                    (OpenStage::Failed { error: SharedError::NotReady }, close)
                } else {
                    (OpenStage::Mapping { bytes }, nothing)
                }
            },
            (OpenStage::Mapping { .. }, OpenEvent::NotMapped { errno }) => {
                (OpenStage::Failed { error: SharedError::Unmappable(errno) }, close)
            },
            (OpenStage::Mapping { bytes }, OpenEvent::Mapped) => {
                (OpenStage::Checking { bytes }, close)
            },
            (OpenStage::Checking { bytes }, OpenEvent::HeaderRead { header }) => {
                match SharedRing::open(header) {
                    Ok(ring) => (OpenStage::Open { bytes, ring }, nothing),
                    Err(error) => {
                        (OpenStage::Failed { error }, Release { close: false, unmap: true })
                    },
                }
            },
            _ => (self, nothing),
        }
    }
}

/// Nothing leaks: a failed opening holds neither the descriptor nor the
/// mapping, and one that succeeded holds the mapping alone.
pub proof fn law_a_finished_opening_holds_the_mapping_or_nothing(
    stage: OpenStage,
    event: OpenEvent,
)
    requires
        stage.awaits(event),
    ensures
        stage.after(event) is Failed ==> stage.after(event).holds() == (false, false),
        stage.after(event) is Open ==> stage.after(event).holds() == (false, true),
{
}

// --- reading it -------------------------------------------------------------

/// A read-only view of the driver's ring.
#[derive(Clone, Copy, Debug)]
pub struct SharedRing {
    pub capacity: usize,
    pub channels: usize,
    /// The bits of the rate read when the ring was mapped.
    pub opened_rate_bits: u64,
    /// What the driver last published.
    pub header: Header,
}

proof fn lemma_inside(position: int, source: int, capacity: int, channels: int)
    by (nonlinear_arith)
    requires
        0 <= position < capacity,
        0 <= source < channels,
    ensures
        0 <= position * channels,
        position * channels + source < capacity * channels,
        position * channels <= capacity * channels,
{
}

impl SharedRing {
    pub open spec fn wf(self) -> bool {
        0 < self.capacity <= u32::MAX && 0 < self.channels <= u32::MAX
    }

    /// Whether `from..from + frames` is entirely inside what the driver has
    /// written and still holds.
    pub open spec fn holds(self, from: int, frames: int) -> bool {
        self.header.written - self.capacity <= from && from + frames <= self.header.written
    }

    /// The sample that a reader's `channel` hears at sample time `t`. A reader
    /// asking for more channels than the ring has gets the last one repeated,
    /// which is the sane answer for mono.
    pub open spec fn sample<T>(self, samples: Seq<T>, channel: int, t: int) -> T {
        samples[(t % self.capacity as int) * self.channels + (if channel < self.channels {
            channel
        } else {
            self.channels - 1
        })]
    }

    /// The ring that a mapped header describes.
    pub fn open(header: Header) -> (ring: Result<SharedRing, SharedError>)
        ensures
            ring == described(header),
            ring matches Ok(ring) ==> ring.wf(),
    {
        if header.magic != MAGIC {
            return Err(SharedError::NotReady);
        }
        if header.version != VERSION {
            return Err(SharedError::Version { found: header.version, wanted: VERSION });
        }
        let capacity: usize = header.capacity_frames as usize;
        let channels: usize = header.channels as usize;
        if capacity == 0 || channels == 0 {
            return Err(SharedError::NotReady);
        }
        Ok(SharedRing { capacity, channels, opened_rate_bits: header.sample_rate_bits, header })
    }

    /// Takes what the driver publishes now. The shape of the ring stays what it
    /// was when it was mapped.
    pub fn refresh(&mut self, header: Header)
        ensures
            *final(self) == (SharedRing { header, ..*old(self) }),
    {
        self.header = header;
    }

    /// Sample time one past the last frame the driver has written.
    pub fn written(&self) -> (time: i64)
        ensures
            time == self.header.written,
    {
        self.header.written
    }

    /// Whether the device has IO running. False means nothing is playing
    /// through it, and a reader should be silent rather than replay the ring.
    pub fn is_running(&self) -> (running: bool)
        ensures
            running == (self.header.running != 0),
    {
        self.header.running != 0
    }

    /// The bits of the rate the driver is running at, as it last published it.
    pub fn sample_rate(&self) -> (bits: u64)
        ensures
            bits == self.header.sample_rate_bits,
    {
        self.header.sample_rate_bits
    }

    /// The bits of the rate read when the ring was mapped, for callers that
    /// want a value that cannot change under them.
    pub fn opened_sample_rate(&self) -> (bits: u64)
        ensures
            bits == self.opened_rate_bits,
    {
        self.opened_rate_bits
    }

    pub fn channels(&self) -> (channels: usize)
        ensures
            channels == self.channels,
    {
        self.channels
    }

    pub fn capacity(&self) -> (capacity: usize)
        ensures
            capacity == self.capacity,
    {
        self.capacity
    }

    /// Copies `frames` frames starting at sample time `from` into
    /// `destination`, de-interleaving as it goes, as far as each plane reaches.
    /// `samples` is what follows the header in the segment.
    ///
    /// Returns false when the request is not entirely inside what the driver
    /// has written and still holds, in which case `destination` is left
    /// untouched: the caller silences rather than playing whatever happened to
    /// be there.
    pub fn read<T: Copy>(
        &self,
        samples: &[T],
        destination: &mut [&mut [T]],
        from: i64,
        frames: usize,
    ) -> (held: bool)
        requires
            self.wf(),
            samples@.len() >= self.capacity * self.channels,
            frames <= i64::MAX,
            from + frames <= i64::MAX,
            self.header.written - self.capacity >= i64::MIN,
        ensures
            held == (frames == 0 || self.holds(from as int, frames as int)),
            final(destination)@.len() == old(destination)@.len(),
            forall|p: int|
                #![trigger final(destination)@[p]]
                0 <= p < final(destination)@.len() ==> final(destination)@[p]@.len() == old(destination)@[p]@.len() && final(final(destination)@[p])@ == final(old(destination)@[p])@,
            forall|p: int, i: int|
                #![trigger final(destination)@[p]@[i]]
                0 <= p < final(destination)@.len() && 0 <= i < final(destination)@[p]@.len()
                    ==> final(destination)@[p]@[i] == (if held && i < frames {
                    self.sample(samples@, p, from + i)
                } else {
                    old(destination)@[p]@[i]
                }),
    {
        if frames == 0 {
            return true;
        }
        let written: i64 = self.written();
        let oldest: i64 = written - self.capacity as i64;
        if from < oldest || from + frames as i64 > written {
            return false;
        }
        let channels: usize = self.channels;
        let total: usize = samples.len();
        let mut frame: usize = 0;
        while frame < frames
            invariant
                frame <= frames,
                self.wf(),
                channels == self.channels,
                total == samples@.len() >= self.capacity * self.channels,
                frames <= i64::MAX,
                from + frames <= i64::MAX,
                destination@.len() == old(destination)@.len(),
                forall|p: int|
                    #![trigger destination@[p]]
                    0 <= p < destination@.len() ==> destination@[p]@.len() == old(destination)@[p]@.len() && final(destination@[p])@ == final(old(destination)@[p])@,
                forall|p: int, i: int|
                    #![trigger destination@[p]@[i]]
                    0 <= p < destination@.len() && 0 <= i < destination@[p]@.len()
                        ==> destination@[p]@[i] == (if i < frame {
                        self.sample(samples@, p, from + i)
                    } else {
                        old(destination)@[p]@[i]
                    }),
            decreases frames - frame,
        {
            let position: usize = match (from + frame as i64).checked_rem_euclid(
                self.capacity as i64,
            ) {
                Some(position) => position as usize,
                None => 0,
            };
            let mut plane: usize = 0;
            while plane < destination.len()
                invariant
                    plane <= destination@.len(),
                    frame < frames,
                    self.wf(),
                    channels == self.channels,
                    total == samples@.len() >= self.capacity * self.channels,
                    position == (from + frame) % self.capacity as int,
                    position < self.capacity,
                    destination@.len() == old(destination)@.len(),
                    forall|p: int|
                        #![trigger destination@[p]]
                        0 <= p < destination@.len() ==> destination@[p]@.len() == old(destination)@[p]@.len() && final(destination@[p])@ == final(old(destination)@[p])@,
                    forall|p: int, i: int|
                        #![trigger destination@[p]@[i]]
                        0 <= p < destination@.len() && 0 <= i < destination@[p]@.len()
                            ==> destination@[p]@[i] == (if i < frame || (i == frame && p < plane) {
                            self.sample(samples@, p, from + i)
                        } else {
                            old(destination)@[p]@[i]
                        }),
                decreases destination@.len() - plane,
            {
                // A plane too short for the frame is skipped; those after it
                // still get theirs.
                if frame < destination[plane].len() {
                    let source: usize = if plane < channels {
                        plane
                    } else {
                        channels - 1
                    };
                    proof {
                        lemma_inside(
                            position as int,
                            source as int,
                            self.capacity as int,
                            channels as int,
                        );
                    }
                    destination[plane][frame] = samples[position * channels + source];
                }
                plane += 1;
            }
            frame += 1;
        }
        true
    }
}

// --- what holds of the driver's buffer --------------------------------------

/// A buffer is opened where the driver has marked it, in our version, and it has
/// room and channels; it is as the driver says it is.
pub proof fn law_a_buffer_is_opened_as_the_driver_says(
    header: Header,
    opened: Result<SharedRing, SharedError>,
    capacity: usize,
    channels: usize,
    rate: u64,
    at_first: u64,
    written: i64,
    running: bool,
)
    requires
        call_ensures(SharedRing::open, (header,), opened),
        opened is Ok ==> call_ensures(SharedRing::capacity, (&opened->Ok_0,), capacity),
        opened is Ok ==> call_ensures(SharedRing::channels, (&opened->Ok_0,), channels),
        opened is Ok ==> call_ensures(SharedRing::sample_rate, (&opened->Ok_0,), rate),
        opened is Ok ==> call_ensures(SharedRing::opened_sample_rate, (&opened->Ok_0,), at_first),
        opened is Ok ==> call_ensures(SharedRing::written, (&opened->Ok_0,), written),
        opened is Ok ==> call_ensures(SharedRing::is_running, (&opened->Ok_0,), running),
    ensures
        opened is Ok <==> header.magic == 0x4B44_534Eu32 && header.version == 1
            && header.capacity_frames > 0 && header.channels > 0,
        opened is Ok ==> {
            &&& capacity == header.capacity_frames
            &&& channels == header.channels
            &&& rate == header.sample_rate_bits && at_first == header.sample_rate_bits
            &&& written == header.written
            &&& running <==> header.running != 0
        },
        opened matches Err(error) ==> error == (if header.magic == 0x4B44_534Eu32 && header.version
            != 1 {
            SharedError::Version { found: header.version, wanted: 1 }
        } else {
            SharedError::NotReady
        }),
{
}

/// A refreshed buffer shows what the driver says now, and remembers what it was
/// opened at.
pub proof fn law_a_refreshed_buffer_keeps_its_shape(
    ring: &mut SharedRing,
    header: Header,
    rate: u64,
    at_first: u64,
    before: u64,
    written: i64,
    running: bool,
)
    requires
        call_ensures(SharedRing::opened_sample_rate, (&*old(ring),), before),
        call_ensures(SharedRing::refresh, (ring, header), ()),
        call_ensures(SharedRing::sample_rate, (&*final(ring),), rate),
        call_ensures(SharedRing::opened_sample_rate, (&*final(ring),), at_first),
        call_ensures(SharedRing::written, (&*final(ring),), written),
        call_ensures(SharedRing::is_running, (&*final(ring),), running),
    ensures
        rate == header.sample_rate_bits,
        at_first == before,
        written == header.written,
        running <==> header.running != 0,
        final(ring).capacity == old(ring).capacity,
        final(ring).channels == old(ring).channels,
{
}

/// Opening goes from finding over measuring and mapping to checking. What fails
/// says why, and gives back what was taken: the descriptor where there is one,
/// the mapping where it was checked and not fit. A mapped buffer needs no
/// descriptor any more.
pub proof fn law_opening_gives_back_what_it_took(
    stage: OpenStage,
    event: OpenEvent,
    next: (OpenStage, Release),
    opened: Result<SharedRing, SharedError>,
)
    requires
        stage.awaits(event),
        call_ensures(OpenStage::step, (stage, event), next),
        event matches OpenEvent::HeaderRead { header } ==> call_ensures(
            SharedRing::open,
            (header,),
            opened,
        ),
    ensures
        match event {
            OpenEvent::NotFound => next.0 == (OpenStage::Failed { error: SharedError::Absent })
                && !next.1.close && !next.1.unmap,
            OpenEvent::Found => next.0 == OpenStage::Measuring && !next.1.close && !next.1.unmap,
            OpenEvent::NotMeasured { errno } => next.0 == (OpenStage::Failed {
                error: SharedError::Unmappable(errno),
            }) && next.1.close && !next.1.unmap,
            OpenEvent::Measured { bytes } => if bytes >= 40 {
                next.0 == (OpenStage::Mapping { bytes }) && !next.1.close && !next.1.unmap
            } else {
                next.0 == (OpenStage::Failed { error: SharedError::NotReady }) && next.1.close
                    && !next.1.unmap
            },
            OpenEvent::NotMapped { errno } => next.0 == (OpenStage::Failed {
                error: SharedError::Unmappable(errno),
            }) && next.1.close && !next.1.unmap,
            OpenEvent::Mapped => stage is Mapping && next.0 == (OpenStage::Checking {
                bytes: stage->Mapping_bytes,
            }) && next.1.close && !next.1.unmap,
            OpenEvent::HeaderRead { .. } => stage is Checking && !next.1.close && match opened {
                Ok(ring) => next.0 == (OpenStage::Open { bytes: stage->Checking_bytes, ring })
                    && !next.1.unmap,
                Err(error) => next.0 == (OpenStage::Failed { error }) && next.1.unmap,
            },
        },
{
}

/// Frames are read where the driver has written them and not yet over them: each
/// from its place in the buffer, frame by frame and channel by channel, the last
/// channel standing in for those the driver has not. What is not held is not
/// touched.
pub proof fn law_frames_are_read_from_their_place<T: Copy>(
    ring: SharedRing,
    samples: &[T],
    destination: &mut [&mut [T]],
    from: i64,
    frames: usize,
    held: bool,
    turn: int,
    place: int,
    p: int,
    i: int,
)
    requires
        ring.wf(),
        samples@.len() >= ring.capacity * ring.channels,
        frames > 0,
        call_ensures(SharedRing::read::<T>, (&ring, samples, destination, from, frames), held),
        0 <= p < final(destination)@.len(),
        0 <= i < final(destination)@[p]@.len(),
        0 <= place < ring.capacity,
        from + i == turn * ring.capacity + place,
    ensures
        held <==> ring.header.written - ring.capacity <= from && from + frames
            <= ring.header.written,
        held && i < frames && p < ring.channels ==> final(destination)@[p]@[i] == samples@[place
            * ring.channels + p],
        held && i < frames && p >= ring.channels ==> final(destination)@[p]@[i] == samples@[place
            * ring.channels + ring.channels - 1],
        !held || i >= frames ==> final(destination)@[p]@[i] == old(destination)@[p]@[i],
{
    assert(final(destination)@[p]@[i] == final(destination)@[p]@[i]);
    assert((from + i) % ring.capacity as int == place) by {
        vstd::arithmetic::div_mod::lemma_fundamental_div_mod_converse(
            from + i,
            ring.capacity as int,
            turn,
            place,
        );
    }
}

/// What went wrong with the driver's buffer.
pub proof fn law_a_buffer_error_says_what_went_wrong(
    error: SharedError,
    message: String,
    number: String,
    theirs: String,
    ours: String,
)
    requires
        call_ensures(SharedError::message, (&error,), message),
        error matches SharedError::Unmappable(errno) ==> call_ensures(
            decimal_signed,
            (errno as i64,),
            number,
        ),
        error matches SharedError::Version { found, wanted } ==> call_ensures(
            decimal,
            (found as u64,),
            theirs,
        ) && call_ensures(decimal, (wanted as u64,), ours),
    ensures
        match error {
            SharedError::Absent => message@
                == "the DisEQ driver is not loaded — run 'make driver-install'"@,
            SharedError::Unmappable(_) => message@
                == "the driver's audio buffer could not be mapped ("@ + number@ + ")"@,
            SharedError::Version { .. } => message@ == "the installed driver speaks version "@
                + theirs@ + ", this app speaks "@ + ours@ + " — run 'make driver-install'"@,
            SharedError::NotReady => message@ == "the driver is still starting up"@,
        },
{
}

} // verus!
