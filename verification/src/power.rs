//! When a display may be brought back, and what to do when bringing it back
//! produces something that is not there.
//!
//! Enabling a port with nothing plugged into it does not fail. It succeeds, and
//! the window server invents a display, one that shows up in the layout, takes
//! windows, and leaves the port in a state a real monitor plugged in afterwards
//! comes up "No Signal" on. So there are two rules:
//!
//! 1. **Only reconnect hardware that is there.**
//! 2. **Never light the built-in panel with the lid shut.**
//!
//! Both rules degrade to "allow" where the machine cannot answer, so hardware
//! this code does not recognise keeps working exactly as it did.

use vstd::prelude::*;

use crate::display::{Attachment, DisplayId, DisplaySnapshot};
use crate::lists::{lemma_filter_next, lemma_filter_push};

verus! {

/// Why a display could not be connected or disconnected.
#[derive(Clone, Copy, Debug, PartialEq, Eq, Structural)]
pub enum PowerError {
    /// Switching off the last display would leave nothing to switch it on with.
    LastActiveDisplay,
    /// There is no other display to mirror onto.
    NoMirrorTarget,
    /// There is nothing on the other end of the cable.
    NotAttached,
    /// The built-in panel with the lid shut.
    LidClosed,
    /// The system has no such switch.
    Unavailable,
    /// The system refused.
    Failed,
}

impl PowerError {
    pub open spec fn text(self) -> Seq<char> {
        match self {
            PowerError::LastActiveDisplay => "Cannot disconnect the only active display"@,
            PowerError::NoMirrorTarget => "No other display to mirror onto"@,
            PowerError::NotAttached => "Nothing is plugged into this display's port"@,
            PowerError::LidClosed => "The built-in display stays off while the lid is closed"@,
            PowerError::Unavailable => "Disconnect is unavailable on this macOS build"@,
            PowerError::Failed => "The system refused the change"@,
        }
    }

    /// A refusal as something worth showing the user.
    pub fn message(self) -> (message: &'static str)
        ensures
            message@ == self.text(),
    {
        match self {
            PowerError::LastActiveDisplay => "Cannot disconnect the only active display",
            PowerError::NoMirrorTarget => "No other display to mirror onto",
            PowerError::NotAttached => "Nothing is plugged into this display's port",
            PowerError::LidClosed => "The built-in display stays off while the lid is closed",
            PowerError::Unavailable => "Disconnect is unavailable on this macOS build",
            PowerError::Failed => "The system refused the change",
        }
    }
}

/// A panel that is plugged in, told by what it says of itself.
#[derive(Clone, Copy, Debug, PartialEq, Eq, Structural)]
pub struct AttachedPanel {
    pub vendor: u32,
    pub model: u32,
    pub serial: u32,
}

/// A panel, and whether it matches anything in a list it was held against.
#[derive(Clone, Copy, Debug)]
pub struct Compared {
    pub panel: AttachedPanel,
    /// It is one of the displays in the layout.
    pub lit: bool,
    /// It is one of the displays that were switched off from here.
    pub recorded: bool,
}

/// Panels that are plugged in but have no display in the desktop layout:
/// everything in it is real hardware sitting dark, and nothing else is worth
/// turning a port on for.
pub fn dark_panels(attached: &[Compared]) -> (dark: Vec<Compared>)
    ensures
        dark@ == attached@.filter(|compared: Compared| !compared.lit),
{
    let ghost keeps = |compared: Compared| !compared.lit;
    let mut dark: Vec<Compared> = Vec::new();
    let mut i: usize = 0;
    while i < attached.len()
        invariant
            i <= attached@.len(),
            keeps == (|compared: Compared| !compared.lit),
            dark@ == attached@.take(i as int).filter(keeps),
        decreases attached@.len() - i,
    {
        proof {
            lemma_filter_next(attached@, i as int, keeps);
        }
        if !attached[i].lit {
            dark.push(attached[i]);
        }
        i += 1;
    }
    assert(attached@.take(i as int) == attached@);
    dark
}

/// Panels that are plugged in and dark for no reason this app knows of.
///
/// A display switched off from the panel keeps a record and stays off: that is
/// the user's choice, and undoing it behind their back would be worse than the
/// bug. A dark panel with *no* record is something else: hardware the window
/// server is refusing to light.
pub fn orphaned_panels(attached: &[Compared]) -> (orphans: Vec<AttachedPanel>)
    ensures
        orphans@ == attached@.filter(|compared: Compared| !compared.lit).filter(
            |compared: Compared| !compared.recorded,
        ).map_values(|compared: Compared| compared.panel),
{
    let dark = dark_panels(attached);
    let ghost keeps = |compared: Compared| !compared.recorded;
    let ghost panel_of = |compared: Compared| compared.panel;
    let mut orphans: Vec<AttachedPanel> = Vec::new();
    let mut i: usize = 0;
    assert(orphans@ =~= dark@.take(0).filter(keeps).map_values(panel_of)) by {
        reveal(Seq::filter);
    }
    while i < dark.len()
        invariant
            i <= dark@.len(),
            keeps == (|compared: Compared| !compared.recorded),
            panel_of == (|compared: Compared| compared.panel),
            orphans@ == dark@.take(i as int).filter(keeps).map_values(panel_of),
        decreases dark@.len() - i,
    {
        proof {
            lemma_filter_next(dark@, i as int, keeps);
        }
        let ghost before = dark@.take(i as int).filter(keeps);
        if !dark[i].recorded {
            orphans.push(dark[i].panel);
            assert(before.push(dark@[i as int]).map_values(panel_of) =~= before.map_values(
                panel_of,
            ).push(dark@[i as int].panel));
        }
        i += 1;
    }
    assert(dark@.take(i as int) == dark@);
    orphans
}

fn holds(panels: &[AttachedPanel], panel: AttachedPanel) -> (held: bool)
    ensures
        held == panels@.contains(panel),
{
    let mut i: usize = 0;
    while i < panels.len()
        invariant
            i <= panels@.len(),
            forall|j: int| 0 <= j < i ==> (#[trigger] panels@[j]) != panel,
        decreases panels@.len() - i,
    {
        if panels[i] == panel {
            assert(panels@[i as int] == panel);
            return true;
        }
        i += 1;
    }
    false
}

/// The recovery of orphaned panels: which ones a pass has already been spent
/// on, so a port that refuses to come back is not retried every few seconds for
/// the rest of the session, and whether a pass is running.
///
/// An entry is dropped as soon as its panel stops being orphaned, including
/// when it is unplugged, so the next replug is a fresh attempt.
#[derive(Debug)]
pub struct Recovery {
    attempted: Vec<AttachedPanel>,
    running: bool,
}

impl Recovery {
    pub closed spec fn attempted(self) -> Set<AttachedPanel> {
        self.attempted@.to_set()
    }

    pub closed spec fn is_running(self) -> bool {
        self.running
    }

    pub fn new() -> (recovery: Self)
        ensures
            recovery.attempted() == Set::<AttachedPanel>::empty(),
            !recovery.is_running(),
    {
        let recovery = Recovery { attempted: Vec::new(), running: false };
        assert(recovery.attempted() =~= Set::<AttachedPanel>::empty());
        recovery
    }

    /// Decides whether a recovery pass is to be made for these orphans: one is
    /// where an orphan has not been tried, unless a pass is under way. All of
    /// them count as tried from now on.
    pub fn recover_orphaned_panels(&mut self, orphans: &[AttachedPanel]) -> (start: bool)
        ensures
            final(self).attempted() == orphans@.to_set(),
            start == (!old(self).is_running() && exists|i: int|
                0 <= i < orphans@.len() && !old(self).attempted().contains(
                    #[trigger] orphans@[i],
                )),
            final(self).is_running() == (old(self).is_running() || start),
    {
        let mut fresh: bool = false;
        let mut now: Vec<AttachedPanel> = Vec::new();
        let mut i: usize = 0;
        while i < orphans.len()
            invariant
                i <= orphans@.len(),
                *self == *old(self),
                now@ == orphans@.take(i as int),
                fresh == exists|j: int|
                    0 <= j < i && !self.attempted().contains(#[trigger] orphans@[j]),
            decreases orphans@.len() - i,
        {
            if !holds(&self.attempted, orphans[i]) {
                fresh = true;
                assert(!self.attempted().contains(orphans@[i as int]));
            }
            now.push(orphans[i]);
            assert(orphans@.take(i as int).push(orphans@[i as int]) == orphans@.take(i + 1));
            i += 1;
        }
        assert(orphans@.take(i as int) == orphans@);
        // A panel that is no longer orphaned, lit or unplugged, is no longer
        // something that was tried in vain.
        self.attempted = now;
        if !fresh || self.running {
            return false;
        }
        self.running = true;
        true
    }

    /// The pass is over.
    pub fn finished(&mut self)
        ensures
            final(self).attempted() == old(self).attempted(),
            !final(self).is_running(),
    {
        self.running = false;
    }
}

/// An orphan is tried once, however often it is seen: as long as it stays
/// orphaned, no further pass is started on its account.
pub proof fn law_an_orphan_is_tried_once(orphans: Seq<AttachedPanel>, attempted: Set<AttachedPanel>)
    requires
        attempted == orphans.to_set(),
    ensures
        !exists|i: int| 0 <= i < orphans.len() && !attempted.contains(#[trigger] orphans[i]),
{
}

/// Whether re-enabling this display could produce anything real. `lid_closed`
/// and `attachment` are what the machine says of the lid and of the panel.
///
/// Checked before the call rather than after, because the after is the damage.
pub fn may_connect(
    snapshot: &DisplaySnapshot,
    lid_closed: Option<bool>,
    attachment: Attachment,
) -> (allowed: Result<(), PowerError>)
    ensures
        allowed == (if snapshot.is_builtin {
            // The panel is soldered in, so it is always attached. Whether it
            // may be lit is the lid's business.
            if lid_closed == Some(true) {
                Err(PowerError::LidClosed)
            } else {
                Ok(())
            }
        } else if attachment == Attachment::Absent {
            Err(PowerError::NotAttached)
        } else {
            Ok(())
        }),
{
    if snapshot.is_builtin {
        return if is_shut(lid_closed) {
            Err(PowerError::LidClosed)
        } else {
            Ok(())
        };
    }
    match attachment {
        Attachment::Absent => Err(PowerError::NotAttached),
        Attachment::Attached | Attachment::Unknown => Ok(()),
    }
}

fn is_shut(lid_closed: Option<bool>) -> (shut: bool)
    ensures
        shut == (lid_closed == Some(true)),
{
    match lid_closed {
        Some(closed) => closed,
        None => false,
    }
}

/// A display that has just come online is one that actually exists: the
/// built-in panel under an open lid, or one that is plugged in, as far as the
/// machine can tell.
pub open spec fn exists_for_real(
    snapshot: DisplaySnapshot,
    lid_closed: Option<bool>,
    detection: bool,
    plugged_in: bool,
) -> bool {
    if snapshot.is_builtin {
        lid_closed != Some(true)
    } else {
        !detection || plugged_in
    }
}

/// Whether a display that has just come online is one that actually exists.
///
/// The check that catches what [`may_connect`] cannot: a stale id carries no
/// identity to test beforehand, so the test is what appeared afterwards. On a
/// machine that cannot detect panels there is nothing to check it against.
pub fn is_real(
    snapshot: &DisplaySnapshot,
    lid_closed: Option<bool>,
    detection: bool,
    plugged_in: bool,
) -> (genuine: bool)
    ensures
        genuine == exists_for_real(*snapshot, lid_closed, detection, plugged_in),
{
    if snapshot.is_builtin {
        return !is_shut(lid_closed);
    }
    if !detection {
        return true;
    }
    plugged_in
}

/// How long to give the window server to publish a display after a
/// configuration transaction has completed, in milliseconds.
pub const SETTLE_MS: u64 = 1_500;

/// Milliseconds between two looks.
pub const SETTLE_STEP_MS: u64 = 50;

/// What a look for a display comes to.
#[derive(Clone, Copy, Debug, PartialEq, Eq, Structural)]
pub enum Look {
    Appeared,
    GaveUp,
    Again,
}

/// Waits for a display to appear: one look, `waited` milliseconds in.
pub fn settle_for(online: bool, waited: u64) -> (look: Look)
    ensures
        look == (if online {
            Look::Appeared
        } else if waited >= SETTLE_MS {
            Look::GaveUp
        } else {
            Look::Again
        }),
{
    if online {
        Look::Appeared
    } else if waited >= SETTLE_MS {
        Look::GaveUp
    } else {
        Look::Again
    }
}

// --- the sweep --------------------------------------------------------------

/// Where a sweep over the displays that the window server still lists stands.
#[derive(Clone, Copy, Debug, PartialEq, Eq, Structural)]
pub enum Stage {
    /// Candidate `next` is to be looked at.
    Looking,
    /// It is being enabled.
    Enabling,
    /// It is enabled; what appears is being waited for.
    Settling,
    Done,
}

/// What is to be asked of the system.
#[derive(Clone, Copy, Debug, PartialEq, Eq, Structural)]
pub enum SweepAction {
    /// See whether the candidate is online, and whether it is built in.
    LookAt { id: DisplayId },
    Enable { id: DisplayId },
    /// Wait for it to appear and judge what appeared.
    Settle { id: DisplayId },
    /// Put the port back the way it was.
    PutBack { id: DisplayId },
}

#[derive(Clone, Copy, Debug)]
pub enum SweepEvent {
    Looked { online: bool, is_builtin: bool },
    Enabled { accepted: bool },
    /// It appeared, is online and exists.
    Settled { genuine: bool },
}

/// Re-enables displays the window server still lists but the system has
/// dropped, keeping only the ones that turn out to be real.
///
/// Ids are enabled one at a time and each is judged on what it produced: a
/// display matching a panel that is plugged in stays, anything else is put
/// straight back. That is what makes this safe to run blind, which it has to
/// be, because a record written in an earlier session carries that session's
/// ids and the window server hands out new ones on every boot.
#[derive(Debug)]
pub struct Sweep {
    pub candidates: Vec<DisplayId>,
    pub next: usize,
    pub restored: usize,
    pub lid_shut: bool,
    pub stage: Stage,
}

impl Sweep {
    pub open spec fn wf(self) -> bool {
        &&& self.restored <= self.next <= self.candidates@.len() <= usize::MAX
        &&& self.stage != Stage::Done ==> self.next < self.candidates@.len()
    }

    /// The sweep at its next candidate, if there is one.
    pub open spec fn moved_on(self, restored: int) -> Sweep {
        Sweep {
            next: (self.next + 1) as usize,
            restored: restored as usize,
            stage: if self.next + 1 < self.candidates@.len() {
                Stage::Looking
            } else {
                Stage::Done
            },
            ..self
        }
    }

    pub open spec fn awaits(self, event: SweepEvent) -> bool {
        match self.stage {
            Stage::Looking => event is Looked,
            Stage::Enabling => event is Enabled,
            Stage::Settling => event is Settled,
            Stage::Done => false,
        }
    }

    /// A candidate is not worth enabling: it is online already, or it is the
    /// built-in panel under a shut lid.
    pub open spec fn passed_over(self, online: bool, is_builtin: bool) -> bool {
        online || (self.lid_shut && is_builtin)
    }

    pub open spec fn after(self, event: SweepEvent) -> Sweep {
        match event {
            SweepEvent::Looked { online, is_builtin } => if self.passed_over(online, is_builtin) {
                self.moved_on(self.restored as int)
            } else {
                Sweep { stage: Stage::Enabling, ..self }
            },
            SweepEvent::Enabled { accepted } => if accepted {
                Sweep { stage: Stage::Settling, ..self }
            } else {
                self.moved_on(self.restored as int)
            },
            SweepEvent::Settled { genuine } => if genuine {
                self.moved_on(self.restored + 1)
            } else {
                self.moved_on(self.restored as int)
            },
        }
    }

    /// The action that a stage stands for.
    pub open spec fn asking(self) -> Option<SweepAction> {
        match self.stage {
            Stage::Looking => Some(SweepAction::LookAt { id: self.candidates@[self.next as int] }),
            Stage::Enabling => Some(SweepAction::Enable { id: self.candidates@[self.next as int] }),
            Stage::Settling => Some(SweepAction::Settle { id: self.candidates@[self.next as int] }),
            Stage::Done => None,
        }
    }

    /// Begins a sweep, unless there is nothing to bring back: everything plugged
    /// in is already lit, and the built-in is either lit too or shut under its
    /// lid. That way out is worth taking, because the alternative is an
    /// enable/disable cycle the user sees as a flicker across every screen.
    pub fn restore_disabled(
        candidates: Vec<DisplayId>,
        any_dark: bool,
        built_in_online: bool,
        lid_closed: Option<bool>,
    ) -> (sweep: Self)
        ensures
            sweep.wf(),
            sweep == (Sweep {
                candidates,
                next: 0,
                restored: 0,
                lid_shut: lid_closed == Some(true),
                stage: if candidates@.len() == 0 || (!any_dark && (built_in_online || lid_closed
                    == Some(true))) {
                    Stage::Done
                } else {
                    Stage::Looking
                },
            }),
    {
        let lid_shut: bool = is_shut(lid_closed);
        let stage = if candidates.len() == 0 || (!any_dark && (built_in_online || lid_shut)) {
            Stage::Done
        } else {
            Stage::Looking
        };
        Sweep { candidates, next: 0, restored: 0, lid_shut, stage }
    }

    /// What is to be asked of the system next; nothing once the sweep is over.
    pub fn action(&self) -> (action: Option<SweepAction>)
        requires
            self.wf(),
        ensures
            action == self.asking(),
    {
        match self.stage {
            Stage::Looking => Some(SweepAction::LookAt { id: self.candidates[self.next] }),
            Stage::Enabling => Some(SweepAction::Enable { id: self.candidates[self.next] }),
            Stage::Settling => Some(SweepAction::Settle { id: self.candidates[self.next] }),
            Stage::Done => None,
        }
    }

    /// Takes the system's answer. A candidate that lit nothing, or lit something
    /// with no hardware behind it, is to be put back: the result says so.
    pub fn step(&mut self, event: SweepEvent) -> (undo: Option<SweepAction>)
        requires
            old(self).wf(),
            old(self).awaits(event),
        ensures
            final(self).wf(),
            *final(self) == old(self).after(event),
            undo == (if event == (SweepEvent::Settled { genuine: false }) {
                Some(SweepAction::PutBack { id: old(self).candidates@[old(self).next as int] })
            } else {
                None
            }),
    {
        let id: DisplayId = self.candidates[self.next];
        match event {
            SweepEvent::Looked { online, is_builtin } => {
                if online || (self.lid_shut && is_builtin) {
                    self.move_on();
                } else {
                    self.stage = Stage::Enabling;
                }
                None
            },
            SweepEvent::Enabled { accepted } => {
                if accepted {
                    self.stage = Stage::Settling;
                } else {
                    self.move_on();
                }
                None
            },
            SweepEvent::Settled { genuine } => {
                if genuine {
                    self.restored = self.restored + 1;
                    self.move_on();
                    None
                } else {
                    self.move_on();
                    Some(SweepAction::PutBack { id })
                }
            },
        }
    }

    fn move_on(&mut self)
        requires
            old(self).next < old(self).candidates@.len() <= usize::MAX,
        ensures
            *final(self) == old(self).moved_on(old(self).restored as int),
    {
        self.next = self.next + 1;
        self.stage = if self.next < self.candidates.len() {
            Stage::Looking
        } else {
            Stage::Done
        };
    }

    /// How many came back.
    pub fn restored(&self) -> (count: usize)
        ensures
            count == self.restored,
    {
        self.restored
    }
}

/// With the lid shut the built-in panel is never lit: no answer leads from
/// looking at it to enabling it.
pub proof fn law_a_shut_lid_keeps_the_built_in_panel_dark(sweep: Sweep, online: bool)
    requires
        sweep.lid_shut,
    ensures
        sweep.after(SweepEvent::Looked { online, is_builtin: true }).stage != Stage::Enabling,
{
}

/// A sweep ends: every answer either moves the candidate along its way or moves
/// on to the next one.
pub proof fn law_a_sweep_ends(sweep: Sweep, event: SweepEvent)
    requires
        sweep.wf(),
        sweep.awaits(event),
    ensures
        sweep.after(event).wf(),
        sweep.after(event).next == sweep.next + 1 || (sweep.after(event).next == sweep.next && (
        sweep.stage == Stage::Looking && sweep.after(event).stage == Stage::Enabling || sweep.stage
            == Stage::Enabling && sweep.after(event).stage == Stage::Settling)),
{
}

/// Dark panels are picked one by one, in order: a further one is dark exactly
/// where nothing lights it, and is an orphan where besides that no record
/// accounts for it.
pub proof fn law_an_orphan_is_dark_without_a_record(
    attached: &[Compared],
    more: &[Compared],
    compared: Compared,
    dark: Vec<Compared>,
    darker: Vec<Compared>,
    orphans: Vec<AttachedPanel>,
    then: Vec<AttachedPanel>,
)
    requires
        more@ == attached@.push(compared),
        call_ensures(dark_panels, (attached,), dark),
        call_ensures(dark_panels, (more,), darker),
        call_ensures(orphaned_panels, (attached,), orphans),
        call_ensures(orphaned_panels, (more,), then),
    ensures
        attached@.len() == 0 ==> dark@.len() == 0 && orphans@.len() == 0,
        darker@ == (if compared.lit {
            dark@
        } else {
            dark@.push(compared)
        }),
        then@ == (if compared.lit || compared.recorded {
            orphans@
        } else {
            orphans@.push(compared.panel)
        }),
{
    let unlit = |compared: Compared| !compared.lit;
    let unrecorded = |compared: Compared| !compared.recorded;
    let panel_of = |compared: Compared| compared.panel;
    lemma_filter_push(attached@, compared, unlit);
    lemma_filter_push(attached@.filter(unlit), compared, unrecorded);
    let kept = attached@.filter(unlit).filter(unrecorded);
    assert(kept.push(compared).map_values(panel_of) =~= kept.map_values(panel_of).push(
        compared.panel,
    ));
}

/// A recovery pass is made for an orphan that is new, unless one is running, and
/// not again for the same orphans; one that was an orphan no longer in between is
/// new again.
pub proof fn law_a_pass_is_made_once_for_an_orphan(
    recovery: &mut Recovery,
    orphans: &[AttachedPanel],
    start: bool,
    over: &mut Recovery,
    again: &mut Recovery,
    second: bool,
    gone: &mut Recovery,
    nobody: &[AttachedPanel],
    none: bool,
    back: &mut Recovery,
    third: bool,
    i: int,
)
    requires
        call_ensures(Recovery::recover_orphaned_panels, (recovery, orphans), start),
        *old(over) == *final(recovery),
        call_ensures(Recovery::finished, (over,), ()),
        *old(again) == *final(over),
        call_ensures(Recovery::recover_orphaned_panels, (again, orphans), second),
        *old(gone) == *final(again),
        nobody@.len() == 0,
        call_ensures(Recovery::recover_orphaned_panels, (gone, nobody), none),
        *old(back) == *final(gone),
        call_ensures(Recovery::recover_orphaned_panels, (back, orphans), third),
        0 <= i < orphans@.len(),
    ensures
        old(recovery).is_running() ==> !start,
        !old(recovery).is_running() && !old(recovery).attempted().contains(orphans@[i]) ==> start,
        !second,
        !none,
        third,
{
    assert forall|j: int| 0 <= j < orphans@.len() implies final(over).attempted().contains(
        #[trigger] orphans@[j],
    ) by {
        assert(orphans@.contains(orphans@[j]));
    }
    assert(!nobody@.to_set().contains(orphans@[i]));
}

/// The built-in panel may be lit unless the lid is shut; anything else unless
/// nothing is plugged in. Where the machine cannot say, it may.
pub proof fn law_only_what_is_there_may_be_lit(
    snapshot: DisplaySnapshot,
    lid_closed: Option<bool>,
    attachment: Attachment,
    allowed: Result<(), PowerError>,
)
    requires
        call_ensures(may_connect, (&snapshot, lid_closed, attachment), allowed),
    ensures
        allowed == Err::<(), PowerError>(PowerError::LidClosed) <==> snapshot.is_builtin
            && lid_closed == Some(true),
        allowed == Err::<(), PowerError>(PowerError::NotAttached) <==> !snapshot.is_builtin
            && attachment == Attachment::Absent,
        allowed is Ok <==> !(snapshot.is_builtin && lid_closed == Some(true)) && !(
        !snapshot.is_builtin && attachment == Attachment::Absent),
{
}

/// What came online exists where a panel that is plugged in accounts for it, or
/// nothing can be checked; the built-in one exists while the lid is not shut.
pub proof fn law_what_came_online_is_checked(
    snapshot: DisplaySnapshot,
    lid_closed: Option<bool>,
    detection: bool,
    plugged_in: bool,
    genuine: bool,
)
    requires
        call_ensures(is_real, (&snapshot, lid_closed, detection, plugged_in), genuine),
    ensures
        snapshot.is_builtin ==> (genuine <==> lid_closed != Some(true)),
        !snapshot.is_builtin ==> (genuine <==> plugged_in || !detection),
{
}

/// A display is waited for until it appears, for a second and a half.
pub proof fn law_a_display_is_waited_for(online: bool, waited: u64, look: Look)
    requires
        call_ensures(settle_for, (online, waited), look),
    ensures
        look == Look::Appeared <==> online,
        look == Look::Again <==> !online && waited < 1_500,
        look == Look::GaveUp <==> !online && waited >= 1_500,
{
}

/// There is nothing to sweep where everything plugged in is lit and the built-in
/// panel is lit or under a shut lid; else the sweep goes through all candidates.
pub proof fn law_a_sweep_is_made_where_something_is_dark(
    candidates: Vec<DisplayId>,
    any_dark: bool,
    built_in_online: bool,
    lid_closed: Option<bool>,
    sweep: Sweep,
    action: Option<SweepAction>,
)
    requires
        candidates@.len() > 0,
        call_ensures(
            Sweep::restore_disabled,
            (candidates, any_dark, built_in_online, lid_closed),
            sweep,
        ),
        call_ensures(Sweep::action, (&sweep,), action),
    ensures
        sweep.candidates == candidates,
        sweep.restored == 0,
        action is None <==> !any_dark && (built_in_online || lid_closed == Some(true)),
        action is Some ==> action == Some(SweepAction::LookAt { id: candidates@[0] }),
{
}

/// One display of a sweep: it is passed over where it is online, or where it is
/// the built-in one under a shut lid; else it is enabled, waited for and counted
/// where it turns out to exist. What does not exist is put back, and nothing else
/// is. Then the next one has its turn.
pub proof fn law_a_sweep_keeps_only_what_exists(
    sweep: &mut Sweep,
    event: SweepEvent,
    asked: Option<SweepAction>,
    undo: Option<SweepAction>,
    next: Option<SweepAction>,
)
    requires
        old(sweep).wf(),
        old(sweep).awaits(event),
        call_ensures(Sweep::action, (&*old(sweep),), asked),
        call_ensures(Sweep::step, (sweep, event), undo),
        call_ensures(Sweep::action, (&*final(sweep),), next),
    ensures
        ({
            let id = old(sweep).candidates@[old(sweep).next as int];
            let following = if old(sweep).next + 1 < old(sweep).candidates@.len() {
                Some(SweepAction::LookAt { id: old(sweep).candidates@[old(sweep).next + 1] })
            } else {
                None
            };
            &&& event matches SweepEvent::Looked { online, is_builtin } ==> {
                let over = online || old(sweep).lid_shut && is_builtin;
                &&& asked == Some(SweepAction::LookAt { id })
                &&& over ==> next == following
                &&& !over ==> next == Some(SweepAction::Enable { id })
                &&& final(sweep).restored == old(sweep).restored
            }
            &&& event matches SweepEvent::Enabled { accepted } ==> {
                &&& asked == Some(SweepAction::Enable { id })
                &&& accepted ==> next == Some(SweepAction::Settle { id })
                &&& !accepted ==> next == following
                &&& final(sweep).restored == old(sweep).restored
            }
            &&& event matches SweepEvent::Settled { genuine } ==> {
                &&& asked == Some(SweepAction::Settle { id })
                &&& next == following
                &&& genuine ==> final(sweep).restored == old(sweep).restored + 1 && undo is None
                &&& !genuine ==> final(sweep).restored == old(sweep).restored && undo == Some(
                    SweepAction::PutBack { id },
                )
            }
            &&& undo is Some ==> event is Settled
            &&& final(sweep).candidates == old(sweep).candidates
            &&& final(sweep).lid_shut == old(sweep).lid_shut
        }),
{
}

/// Why a display was not switched.
pub proof fn law_a_refusal_says_why(error: PowerError, message: &'static str)
    requires
        call_ensures(PowerError::message, (error,), message),
    ensures
        match error {
            PowerError::LastActiveDisplay => message@
                == "Cannot disconnect the only active display"@,
            PowerError::NoMirrorTarget => message@ == "No other display to mirror onto"@,
            PowerError::NotAttached => message@ == "Nothing is plugged into this display's port"@,
            PowerError::LidClosed => message@
                == "The built-in display stays off while the lid is closed"@,
            PowerError::Unavailable => message@ == "Disconnect is unavailable on this macOS build"@,
            PowerError::Failed => message@ == "The system refused the change"@,
        },
{
}

/// A recovery starts with nothing attempted, so that the first orphan has a pass
/// made for it.
pub proof fn law_the_first_orphan_has_a_pass(
    fresh: Recovery,
    recovery: &mut Recovery,
    orphans: &[AttachedPanel],
    start: bool,
    sweep: Sweep,
    restored: usize,
)
    requires
        call_ensures(Recovery::new, (), fresh),
        *old(recovery) == fresh,
        call_ensures(Recovery::recover_orphaned_panels, (recovery, orphans), start),
        orphans@.len() > 0,
        call_ensures(Sweep::restored, (&sweep,), restored),
    ensures
        start,
        restored == sweep.restored,
{
    assert(!fresh.attempted().contains(orphans@[0]));
}

} // verus!
