//! Process taps: taking one application's audio out of the system mix so it can
//! be put back at a different level.
//!
//! The tapped process stops reaching the output device directly; whatever gain
//! is applied on the way through is that application's volume. It costs nothing
//! while nobody is reading the tap, which is why an app with its fader at 100%
//! can be left tapped.

use vstd::prelude::*;

use crate::format::CHANNELS;
use crate::processes::{last_component, Process};
use crate::text::{decimal_signed, signed_digits};

verus! {

#[derive(Clone, Copy, Debug, PartialEq, Eq, Structural)]
pub enum TapError {
    /// The system refused to create the tap. `-4` is an OS with no tap support.
    /// Most other failures here are the user having declined audio capture.
    Refused(i32),
    /// The tap was created but publishes no UID, so it cannot be named in an
    /// aggregate device's tap list and is useless.
    NoUid,
}

impl TapError {
    pub open spec fn text(self) -> Seq<char> {
        match self {
            TapError::Refused(status) => {
                "the system refused a process tap (status "@ + signed_digits(status as int)
                    + ") — this needs macOS 14.4+ and permission to record audio"@
            },
            TapError::NoUid => "the tap published no UID"@,
        }
    }

    pub fn message(&self) -> (message: String)
        ensures
            message@ == self.text(),
    {
        match self {
            TapError::Refused(status) => {
                let mut message = "the system refused a process tap (status ".to_owned();
                message.append(decimal_signed(*status as i64).as_str());
                message.append(") — this needs macOS 14.4+ and permission to record audio");
                message
            },
            TapError::NoUid => "the tap published no UID".to_owned(),
        }
    }
}

/// A live tap on one process. While it lives the process reaches nothing but
/// the tap.
#[derive(Debug)]
pub struct Tap {
    pub id: u32,
    pub uid: String,
    pub process: Process,
    /// Channels of the format it delivers, where it publishes one.
    pub format_channels: Option<u32>,
}

/// The name a tap on process `pid` is given.
pub fn tap_name(pid: i32) -> (name: String)
    ensures
        name@ == "DisEQ fader for pid "@ + signed_digits(pid as int),
{
    let mut name = "DisEQ fader for pid ".to_owned();
    name.append(decimal_signed(pid as i64).as_str());
    name
}

/// Whether the system made a tap: it says so, and names an object.
pub fn created(status: i32, id: u32) -> (result: Result<u32, TapError>)
    ensures
        result == (if status == 0 && id != 0 {
            Ok(id)
        } else {
            Err(TapError::Refused(status))
        }),
{
    if status != 0 || id == 0 {
        Err(TapError::Refused(status))
    } else {
        Ok(id)
    }
}

/// Whether taps can be created at all on this machine, given what the system
/// answered to a tap that takes nobody's audio away.
pub fn are_permitted(status: i32, id: u32) -> (result: Result<(), TapError>)
    ensures
        result == (if status == 0 && id != 0 {
            Ok(())
        } else {
            Err(TapError::Refused(status))
        }),
{
    match created(status, id) {
        Ok(_) => Ok(()),
        Err(error) => Err(error),
    }
}

impl Tap {
    /// The tap that the system made of `process`. One without a UID is no tap:
    /// whoever made it destroys it again.
    pub fn muting(
        process: &Process,
        id: u32,
        uid: Option<String>,
        format_channels: Option<u32>,
    ) -> (tap: Result<Tap, TapError>)
        ensures
            match uid {
                Some(uid) => tap == Ok::<Tap, TapError>(
                    Tap { id, uid, process: *process, format_channels },
                ),
                None => tap == Err::<Tap, TapError>(TapError::NoUid),
            },
    {
        match uid {
            Some(uid) => Ok(Tap { id, uid, process: process.clone(), format_channels }),
            None => Err(TapError::NoUid),
        }
    }

    pub fn id(&self) -> (id: u32)
        ensures
            id == self.id,
    {
        self.id
    }

    /// The UID an aggregate device's tap list refers to it by.
    pub fn uid(&self) -> (uid: &str)
        ensures
            uid@ == self.uid@,
    {
        self.uid.as_str()
    }

    pub fn process(&self) -> (process: &Process)
        ensures
            *process == self.process,
    {
        &self.process
    }

    /// How many channels this tap contributes to an aggregate device's input.
    pub fn channels(&self) -> (channels: usize)
        ensures
            channels == (match self.format_channels {
                Some(channels) => if channels > 0 {
                    channels as int
                } else {
                    CHANNELS as int
                },
                None => CHANNELS as int,
            }),
    {
        match self.format_channels {
            Some(channels) => {
                if channels > 0 {
                    channels as usize
                } else {
                    CHANNELS
                }
            },
            None => CHANNELS,
        }
    }

    /// What the tap is shown as: still meaningful for a process that has since
    /// exited.
    pub fn description(&self) -> (description: String)
        ensures
            description@ == (match self.process.bundle_id {
                Some(bundle_id) => bundle_id@.skip(last_component(bundle_id@)),
                None => "pid "@ + signed_digits(self.process.pid as int),
            }),
    {
        match self.process.short_name() {
            Some(name) => name.to_owned(),
            None => {
                let mut description = "pid ".to_owned();
                description.append(decimal_signed(self.process.pid as i64).as_str());
                description
            },
        }
    }
}

/// A tap is made where the system gave it an id and no error; taps are
/// permitted where one is.
pub proof fn law_a_tap_is_made_without_an_error(
    status: i32,
    id: u32,
    made: Result<u32, TapError>,
    permitted: Result<(), TapError>,
)
    requires
        call_ensures(created, (status, id), made),
        call_ensures(are_permitted, (status, id), permitted),
    ensures
        made is Ok <==> status == 0 && id != 0,
        made matches Ok(tap) ==> tap == id,
        made matches Err(error) ==> error == TapError::Refused(status),
        permitted is Ok <==> made is Ok,
        permitted matches Err(error) ==> error == TapError::Refused(status),
{
}

/// A tap is its process's, under the id and the UID it was given, with the
/// channels it says, or two.
pub proof fn law_a_tap_is_its_process_s(
    process: Process,
    id: u32,
    uid: Option<String>,
    channels: Option<u32>,
    tap: Result<Tap, TapError>,
    told: u32,
    named: &str,
    whose: &Process,
    count: usize,
)
    requires
        call_ensures(Tap::muting, (&process, id, uid, channels), tap),
        tap is Ok ==> call_ensures(Tap::id, (&tap->Ok_0,), told),
        tap is Ok ==> call_ensures(Tap::uid, (&tap->Ok_0,), named),
        tap is Ok ==> call_ensures(Tap::process, (&tap->Ok_0,), whose),
        tap is Ok ==> call_ensures(Tap::channels, (&tap->Ok_0,), count),
    ensures
        tap is Ok <==> uid is Some,
        tap matches Err(error) ==> error == TapError::NoUid,
        tap is Ok ==> told == id && named@ == (uid->0)@ && *whose == process,
        tap is Ok ==> count == (if channels is Some && channels->0 > 0 {
            channels->0 as int
        } else {
            2
        }),
{
}

/// A tap is called by its application, or by its pid.
pub proof fn law_a_tap_is_called_by_its_application(
    tap: Tap,
    description: String,
    short: Option<&str>,
    name: String,
    pid: String,
)
    requires
        call_ensures(Tap::description, (&tap,), description),
        call_ensures(Process::short_name, (&tap.process,), short),
        call_ensures(decimal_signed, (tap.process.pid as i64,), pid),
        call_ensures(tap_name, (tap.process.pid,), name),
    ensures
        short matches Some(short) ==> description@ == short@,
        short is None ==> description@ == "pid "@ + pid@,
        name@ == "DisEQ fader for pid "@ + pid@,
{
}

/// What went wrong with a tap.
pub proof fn law_a_tap_error_says_what_went_wrong(
    error: TapError,
    message: String,
    number: String,
)
    requires
        call_ensures(TapError::message, (&error,), message),
        error matches TapError::Refused(status) ==> call_ensures(
            decimal_signed,
            (status as i64,),
            number,
        ),
    ensures
        match error {
            TapError::Refused(_) => message@ == "the system refused a process tap (status "@
                + number@ + ") — this needs macOS 14.4+ and permission to record audio"@,
            TapError::NoUid => message@ == "the tap published no UID"@,
        },
{
}

} // verus!
