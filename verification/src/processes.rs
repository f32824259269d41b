//! The applications making sound, as the system's audio sees them.
//!
//! Every audio-producing process has an audio object of its own, which is what
//! the App Mixer needs: something to hang a fader on, and something
//! [`crate::tap`] can point a tap at.

use vstd::prelude::*;
use vstd::string::StrSliceExecFns;

use crate::devices::copied;
use crate::lists::{first, lemma_filter_next, lemma_filter_push, lemma_first_at, lemma_first_none};

verus! {

/// One process that the system's audio knows about.
#[derive(Debug)]
pub struct Process {
    /// The audio object, not the process. This is what a tap description takes.
    pub id: u32,
    pub pid: i32,
    /// `com.spotify.client` and the like. Absent for processes with no bundle:
    /// command-line tools, and some helpers.
    pub bundle_id: Option<String>,
    /// Whether it is producing audio right now. A process that has gone quiet
    /// keeps its object for a while, so this is what separates "playing" from
    /// "played something once".
    pub is_playing: bool,
}

impl Clone for Process {
    fn clone(&self) -> (process: Self)
        ensures
            process == *self,
    {
        Process {
            id: self.id,
            pid: self.pid,
            bundle_id: copied(&self.bundle_id),
            is_playing: self.is_playing,
        }
    }
}

/// Where the last component of a dotted name starts.
pub open spec fn last_component(name: Seq<char>) -> int
    decreases name.len(),
{
    if name.len() == 0 || name.last() == '.' {
        name.len() as int
    } else {
        last_component(name.drop_last())
    }
}

pub proof fn lemma_last_component(name: Seq<char>, start: int)
    requires
        0 <= start <= name.len(),
        start == 0 || name[start - 1] == '.',
        forall|i: int| start <= i < name.len() ==> (#[trigger] name[i]) != '.',
    ensures
        last_component(name) == start,
    decreases name.len(),
{
    if start < name.len() {
        assert(name.last() == name[name.len() - 1]);
        lemma_last_component(name.drop_last(), start);
    }
}

/// The part of a dotted name after its last dot; all of it where there is none.
pub fn short_name_of(name: &str) -> (short: &str)
    ensures
        short@ == name@.skip(last_component(name@)),
{
    let total: usize = name.unicode_len();
    let mut start: usize = total;
    while start > 0 && name.get_char(start - 1) != '.'
        invariant
            start <= total,
            total == name@.len(),
            forall|i: int| start <= i < total ==> (#[trigger] name@[i]) != '.',
        decreases start,
    {
        start -= 1;
    }
    proof {
        lemma_last_component(name@, start as int);
        assert(name@.subrange(start as int, total as int) == name@.skip(start as int));
    }
    name.substring_char(start, total)
}

impl Process {
    /// The process as it is shown: a process object with no pid is one that
    /// exited between the enumeration and the query, and an empty bundle
    /// identifier is none.
    pub fn describe(
        id: u32,
        pid: Option<i32>,
        bundle_id: Option<String>,
        is_playing: bool,
    ) -> (process: Process)
        ensures
            process.id == id,
            process.pid == (match pid {
                Some(pid) => pid as int,
                None => 0,
            }),
            process.bundle_id == (match bundle_id {
                Some(text) if text@.len() > 0 => bundle_id,
                _ => None,
            }),
            process.is_playing == is_playing,
    {
        let pid: i32 = match pid {
            Some(pid) => pid,
            None => 0,
        };
        let bundle_id = match bundle_id {
            Some(text) => {
                if text.as_str().unicode_len() > 0 {
                    Some(text)
                } else {
                    None
                }
            },
            None => None,
        };
        Process { id, pid, bundle_id, is_playing }
    }

    /// The last component of the bundle ID, which is the closest thing to a
    /// display name that the system's audio has.
    pub fn short_name(&self) -> (name: Option<&str>)
        ensures
            match self.bundle_id {
                Some(bundle_id) => name matches Some(name) && name@ == bundle_id@.skip(
                    last_component(bundle_id@),
                ),
                None => name is None,
            },
    {
        match &self.bundle_id {
            Some(bundle_id) => Some(short_name_of(bundle_id.as_str())),
            None => None,
        }
    }
}

/// The audio process for a running process, if there is one.
///
/// Only processes that have played audio at some point are listed, so this is
/// `None` for a process that has never made a sound.
pub fn by_pid(processes: &[Process], pid: i32) -> (process: Option<Process>)
    ensures
        process == first(processes@, |process: Process| process.pid == pid),
{
    let ghost wanted = |process: Process| process.pid == pid;
    let mut i: usize = 0;
    while i < processes.len()
        invariant
            i <= processes@.len(),
            wanted == (|process: Process| process.pid == pid),
            forall|j: int| 0 <= j < i ==> !wanted(#[trigger] processes@[j]),
        decreases processes@.len() - i,
    {
        if processes[i].pid == pid {
            proof {
                lemma_first_at(processes@, wanted, i as int);
            }
            return Some(processes[i].clone());
        }
        i += 1;
    }
    proof {
        lemma_first_none(processes@, wanted);
    }
    None
}

/// Only the ones making sound now: what the mixer shows a fader for.
pub fn playing(processes: &[Process]) -> (listed: Vec<Process>)
    ensures
        listed@ == processes@.filter(|process: Process| process.is_playing),
{
    let ghost keeps = |process: Process| process.is_playing;
    let mut listed: Vec<Process> = Vec::new();
    let mut i: usize = 0;
    while i < processes.len()
        invariant
            i <= processes@.len(),
            keeps == (|process: Process| process.is_playing),
            listed@ == processes@.take(i as int).filter(keeps),
        decreases processes@.len() - i,
    {
        proof {
            lemma_filter_next(processes@, i as int, keeps);
        }
        if processes[i].is_playing {
            listed.push(processes[i].clone());
        }
        i += 1;
    }
    assert(processes@.take(i as int) == processes@);
    listed
}

/// The short name is what follows the last dot, or everything where there is
/// none.
pub proof fn law_a_short_name_follows_the_last_dot(name: &str, short: &str, start: int)
    requires
        call_ensures(short_name_of, (name,), short),
        0 <= start <= name@.len(),
        start == 0 || name@[start - 1] == '.',
        forall|i: int| start <= i < name@.len() ==> (#[trigger] name@[i]) != '.',
    ensures
        short@ == name@.subrange(start, name@.len() as int),
{
    lemma_last_component(name@, start);
}

/// A process is what the system says of it; a bundle without a name is none.
pub proof fn law_a_process_is_what_it_was_said_to_be(
    id: u32,
    pid: Option<i32>,
    bundle_id: Option<String>,
    is_playing: bool,
    process: Process,
    short: Option<&str>,
    name: &str,
    alone: &str,
)
    requires
        call_ensures(Process::describe, (id, pid, bundle_id, is_playing), process),
        call_ensures(Process::short_name, (&process,), short),
        bundle_id matches Some(text) ==> name@ == text@,
        call_ensures(short_name_of, (name,), alone),
    ensures
        process.id == id,
        process.is_playing == is_playing,
        pid matches Some(pid) ==> process.pid == pid,
        pid is None ==> process.pid == 0,
        bundle_id is None || (bundle_id->0)@.len() == 0 ==> process.bundle_id is None
            && short is None,
        bundle_id is Some && (bundle_id->0)@.len() > 0 ==> process.bundle_id == bundle_id
            && short is Some && (short->0)@ == alone@,
{
}

/// A process is found by its pid, the first one of it, and those playing are
/// listed in order, no others.
pub proof fn law_processes_are_found_and_listed(
    processes: &[Process],
    more: &[Process],
    process: Process,
    pid: i32,
    at: int,
    found: Option<Process>,
    listed: Vec<Process>,
    then: Vec<Process>,
)
    requires
        call_ensures(by_pid, (processes, pid), found),
        0 <= at <= processes@.len(),
        forall|i: int| 0 <= i < at ==> (#[trigger] processes@[i]).pid != pid,
        at < processes@.len() ==> processes@[at].pid == pid,
        more@ == processes@.push(process),
        call_ensures(playing, (processes,), listed),
        call_ensures(playing, (more,), then),
    ensures
        found == (if at < processes@.len() {
            Some(processes@[at])
        } else {
            None
        }),
        processes@.len() == 0 ==> listed@.len() == 0,
        then@ == (if process.is_playing {
            listed@.push(process)
        } else {
            listed@
        }),
{
    let wanted = |process: Process| process.pid == pid;
    if at < processes@.len() {
        lemma_first_at(processes@, wanted, at);
    } else {
        lemma_first_none(processes@, wanted);
    }
    let keeps = |process: Process| process.is_playing;
    lemma_filter_push(processes@, process, keeps);
    if processes@.len() == 0 {
        reveal(Seq::filter);
    }
}

} // verus!
