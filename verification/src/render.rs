//! What is sent to the equaliser's audio unit, and rendering through it offline
//! so its effect can be measured instead of trusted.

use vstd::prelude::*;

use crate::eq::{Gains, Settings};
use crate::text::{decimal_signed, signed_digits};

verus! {

// --- the unit ---------------------------------------------------------------

/// What the audio unit is told. Levels are in micro-decibels.
#[derive(Clone, Copy, Debug)]
pub struct Parameters {
    pub gains: Gains,
    pub global_gain: i32,
    pub bypass: bool,
}

impl Parameters {
    /// The parameters that put settings into force. Cheap enough for every ramp
    /// frame: each is a parameter write, not a graph change.
    pub fn apply(settings: &Settings) -> (parameters: Self)
        ensures
            parameters.gains == settings.gains,
            parameters.global_gain == settings.overall(),
            parameters.bypass == !settings.enabled,
    {
        Parameters {
            gains: settings.gains,
            global_gain: settings.global_gain(),
            bypass: !settings.enabled,
        }
    }
}

// --- offline ----------------------------------------------------------------

/// Frames per render call. Larger than any realistic hardware buffer, so a
/// second of audio costs a handful of calls.
pub const RENDER_BLOCK: usize = 4_096;

#[derive(Debug)]
pub enum OfflineError {
    Format,
    ManualRendering(String),
    Start(String),
    Buffer,
    /// The status that a render call returned.
    Render(i64),
}

impl OfflineError {
    pub open spec fn text(self) -> Seq<char> {
        match self {
            OfflineError::Format => "could not build the render format"@,
            OfflineError::ManualRendering(why) => "manual rendering refused: "@ + why@,
            OfflineError::Start(why) => "engine would not start: "@ + why@,
            OfflineError::Buffer => "could not allocate a PCM buffer"@,
            OfflineError::Render(status) => "render returned status "@ + signed_digits(
                status as int,
            ),
        }
    }

    pub fn message(&self) -> (message: String)
        ensures
            message@ == self.text(),
    {
        match self {
            OfflineError::Format => "could not build the render format".to_owned(),
            OfflineError::ManualRendering(why) => {
                let mut message = "manual rendering refused: ".to_owned();
                message.append(why.as_str());
                message
            },
            OfflineError::Start(why) => {
                let mut message = "engine would not start: ".to_owned();
                message.append(why.as_str());
                message
            },
            OfflineError::Buffer => "could not allocate a PCM buffer".to_owned(),
            OfflineError::Render(status) => {
                let mut message = "render returned status ".to_owned();
                message.append(decimal_signed(*status).as_str());
                message
            },
        }
    }
}

/// The status of a render call that went well.
pub const RENDERED: i64 = 0;

/// Frames on their way out of an offline renderer, block by block.
#[derive(Debug)]
pub struct Rendering<T> {
    /// How many frames went in.
    pub wanted: usize,
    pub frames: Vec<T>,
}

impl<T: Copy> Rendering<T> {
    /// The frames that the next call is to render.
    pub open spec fn next(self) -> int {
        let left = self.wanted - self.frames@.len();
        if left <= 0 {
            0
        } else if left > RENDER_BLOCK {
            RENDER_BLOCK as int
        } else {
            left
        }
    }

    pub fn begin(wanted: usize) -> (rendering: Self)
        ensures
            rendering.wanted == wanted,
            rendering.frames@ == Seq::<T>::empty(),
    {
        Rendering { wanted, frames: Vec::new() }
    }

    /// How many frames to render next; `None` once there are as many as went in.
    pub fn want(&self) -> (frames: Option<usize>)
        ensures
            match frames {
                Some(frames) => frames == self.next() && frames > 0,
                None => self.next() == 0,
            },
    {
        if self.frames.len() >= self.wanted {
            return None;
        }
        let left: usize = self.wanted - self.frames.len();
        if left > RENDER_BLOCK {
            Some(RENDER_BLOCK)
        } else {
            Some(left)
        }
    }

    /// Takes the outcome of a render call. Anything but success ends it.
    pub fn rendered(&mut self, status: i64, block: &[T]) -> (result: Result<(), OfflineError>)
        ensures
            status == RENDERED ==> {
                &&& result is Ok
                &&& final(self).wanted == old(self).wanted
                &&& final(self).frames@ == old(self).frames@ + block@
            },
            status != RENDERED ==> {
                &&& result == Err::<(), OfflineError>(OfflineError::Render(status))
                &&& *final(self) == *old(self)
            },
    {
        if status != RENDERED {
            return Err(OfflineError::Render(status));
        }
        let mut i: usize = 0;
        assert(self.frames@ =~= old(self).frames@ + block@.take(0));
        while i < block.len()
            invariant
                i <= block@.len(),
                self.wanted == old(self).wanted,
                self.frames@ == old(self).frames@ + block@.take(i as int),
            decreases block@.len() - i,
        {
            self.frames.push(block[i]);
            assert(self.frames@ =~= old(self).frames@ + block@.take(i + 1));
            i += 1;
        }
        assert(block@.take(i as int) =~= block@);
        Ok(())
    }
}

/// Where every call renders the frames it was asked for, exactly as many frames
/// come out as went in: a call never asks for more than are missing, and while
/// any are, it brings the end closer.
pub proof fn law_as_many_frames_come_out_as_went_in<T: Copy>(
    before: Rendering<T>,
    after: Rendering<T>,
    block: Seq<T>,
)
    requires
        before.frames@.len() <= before.wanted,
        block.len() == before.next(),
        after.wanted == before.wanted,
        after.frames@ == before.frames@ + block,
    ensures
        after.frames@.len() <= after.wanted,
        before.frames@.len() < before.wanted ==> after.frames@.len() > before.frames@.len(),
        after.next() == 0 ==> after.frames@.len() == after.wanted,
{
}

/// The unit plays the bands as they are set, at the level the settings come to,
/// and is passed by where the equaliser is off.
pub proof fn law_the_unit_is_set_as_the_equaliser_is(
    settings: Settings,
    parameters: Parameters,
    level: i32,
    band: int,
)
    requires
        call_ensures(Parameters::apply, (&settings,), parameters),
        call_ensures(Settings::global_gain, (&settings,), level),
        0 <= band < 10,
    ensures
        parameters.gains@[band] == settings.gains@[band],
        parameters.global_gain == level,
        parameters.bypass == !settings.enabled,
{
}

/// A rendering asks for what is left, 4,096 frames at a time, takes what came in
/// order, and is over once it has everything; a refusal leaves it as it was.
pub proof fn law_a_rendering_takes_what_came<T: Copy>(
    wanted: usize,
    fresh: Rendering<T>,
    rendering: &mut Rendering<T>,
    ask: Option<usize>,
    status: i64,
    block: &[T],
    result: Result<(), OfflineError>,
    i: int,
)
    requires
        call_ensures(Rendering::<T>::begin, (wanted,), fresh),
        call_ensures(Rendering::<T>::want, (&*old(rendering),), ask),
        call_ensures(Rendering::<T>::rendered, (rendering, status, block), result),
    ensures
        fresh.wanted == wanted && fresh.frames@.len() == 0,
        ask is None <==> old(rendering).frames@.len() >= old(rendering).wanted,
        ask matches Some(frames) ==> frames <= 4_096 && (frames == 4_096
            || frames == old(rendering).wanted - old(rendering).frames@.len())
            && frames <= old(rendering).wanted - old(rendering).frames@.len(),
        result is Ok <==> status == 0,
        result matches Err(error) ==> error == OfflineError::Render(status),
        final(rendering).wanted == old(rendering).wanted,
        status != 0 ==> final(rendering).frames@ == old(rendering).frames@,
        status == 0 ==> {
            &&& final(rendering).frames@.len() == old(rendering).frames@.len() + block@.len()
            &&& 0 <= i < final(rendering).frames@.len() ==> final(rendering).frames@[i] == (if i
                < old(rendering).frames@.len() {
                old(rendering).frames@[i]
            } else {
                block@[i - old(rendering).frames@.len()]
            })
        },
{
}

/// What went wrong with a rendering.
pub proof fn law_a_rendering_error_says_what_went_wrong(
    error: OfflineError,
    message: String,
    number: String,
)
    requires
        call_ensures(OfflineError::message, (&error,), message),
        error matches OfflineError::Render(status) ==> call_ensures(
            decimal_signed,
            (status,),
            number,
        ),
    ensures
        match error {
            OfflineError::Format => message@ == "could not build the render format"@,
            OfflineError::ManualRendering(why) => message@ == "manual rendering refused: "@ + why@,
            OfflineError::Start(why) => message@ == "engine would not start: "@ + why@,
            OfflineError::Buffer => message@ == "could not allocate a PCM buffer"@,
            OfflineError::Render(_) => message@ == "render returned status "@ + number@,
        },
{
}

} // verus!
