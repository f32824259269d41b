//! Configuration protection: pin a display's layout and put it back when
//! something else changes it.
//!
//! The system re-arranges displays on wake, on hotplug, and when apps
//! reconfigure them. Protection records the wanted state and restores it
//! whenever the system drifts.

use std::collections::HashMap;

use vstd::prelude::*;

use crate::display::{DisplayId, DisplaySnapshot};
use crate::text::{decimal_signed, signed_digits};

verus! {

broadcast use vstd::std_specs::hash::group_hash_axioms;

#[derive(Clone, Copy, Debug)]
pub struct Pinned {
    pub io_mode_id: i32,
    pub origin: (i32, i32),
    pub mirrors: Option<DisplayId>,
}

/// What happened to a display.
#[derive(Clone, Copy, Debug, PartialEq, Eq, Structural)]
pub enum Change {
    Added,
    Removed,
    Reconfigured,
}

/// What is to be asked of the system to put a layout back.
#[derive(Clone, Copy, Debug, PartialEq, Eq, Structural)]
pub enum Restore {
    SetMode { display: DisplayId, io_mode_id: i32 },
    SetOrigin { display: DisplayId, x: i32, y: i32 },
    SetMirror { display: DisplayId, source: DisplayId },
    ClearMirror { display: DisplayId },
}

/// Whether a change is one to put back. A display that has just gone away
/// cannot be restored, and one that just arrived has no pinned state yet.
pub fn is_worth_restoring(change: Change) -> (worth: bool)
    ensures
        worth == (change != Change::Removed && change != Change::Added),
{
    match change {
        Change::Removed | Change::Added => false,
        Change::Reconfigured => true,
    }
}

impl Pinned {
    /// What puts a display that has drifted from this layout back to it, one
    /// action for each thing that drifted.
    pub open spec fn restoring(self, snapshot: DisplaySnapshot) -> Seq<Restore> {
        let display = snapshot.id;
        (match snapshot.current_mode {
            Some(mode) if mode.io_mode_id == self.io_mode_id => Seq::empty(),
            _ => seq![Restore::SetMode { display, io_mode_id: self.io_mode_id }],
        }) + (if snapshot.origin == self.origin {
            Seq::empty()
        } else {
            seq![Restore::SetOrigin { display, x: self.origin.0, y: self.origin.1 }]
        }) + (if snapshot.mirrors == self.mirrors {
            Seq::empty()
        } else {
            match self.mirrors {
                Some(source) => seq![Restore::SetMirror { display, source }],
                None => seq![Restore::ClearMirror { display }],
            }
        })
    }
}

fn same_mirror(left: Option<DisplayId>, right: Option<DisplayId>) -> (same: bool)
    ensures
        same == (left == right),
{
    match (left, right) {
        (None, None) => true,
        (Some(left), Some(right)) => left == right,
        _ => false,
    }
}

/// The layouts that are pinned.
#[derive(Debug)]
pub struct Protection {
    pinned: HashMap<u32, Pinned>,
}

impl Protection {
    pub closed spec fn layouts(self) -> Map<u32, Pinned> {
        self.pinned@
    }

    pub fn new() -> (protection: Self)
        ensures
            protection.layouts() == Map::<u32, Pinned>::empty(),
    {
        Protection { pinned: HashMap::new() }
    }

    pub fn is_protected(&self, display: DisplayId) -> (is: bool)
        ensures
            is == self.layouts().contains_key(display.0),
    {
        self.pinned.contains_key(&display.0)
    }

    /// Pins the display's current layout; nothing where it has no mode.
    pub fn protect(&mut self, snapshot: &DisplaySnapshot)
        ensures
            final(self).layouts() == (match snapshot.current_mode {
                Some(mode) => old(self).layouts().insert(
                    snapshot.id.0,
                    (Pinned {
                        io_mode_id: mode.io_mode_id,
                        origin: snapshot.origin,
                        mirrors: snapshot.mirrors,
                    }),
                ),
                None => old(self).layouts(),
            }),
    {
        match snapshot.current_mode {
            None => {},
            Some(mode) => {
                self.pinned.insert(
                    snapshot.id.0,
                    Pinned {
                        io_mode_id: mode.io_mode_id,
                        origin: snapshot.origin,
                        mirrors: snapshot.mirrors,
                    },
                );
            },
        }
    }

    pub fn unprotect(&mut self, display: DisplayId)
        ensures
            final(self).layouts() == old(self).layouts().remove(display.0),
    {
        self.pinned.remove(&display.0);
    }

    pub fn describe(&self, display: DisplayId) -> (description: Option<String>)
        ensures
            match description {
                Some(text) => self.layouts().contains_key(display.0) && ({
                    let pinned = self.layouts()[display.0];
                    text@ == "mode "@ + signed_digits(pinned.io_mode_id as int) + " at "@
                        + signed_digits(pinned.origin.0 as int) + ","@ + signed_digits(
                        pinned.origin.1 as int,
                    )
                }),
                None => !self.layouts().contains_key(display.0),
            },
    {
        match self.pinned.get(&display.0) {
            None => None,
            Some(pinned) => {
                let mut text = "mode ".to_owned();
                text.append(decimal_signed(pinned.io_mode_id as i64).as_str());
                text.append(" at ");
                text.append(decimal_signed(pinned.origin.0 as i64).as_str());
                text.append(",");
                text.append(decimal_signed(pinned.origin.1 as i64).as_str());
                Some(text)
            },
        }
    }

    /// What puts the display back to its pinned layout, if it has drifted.
    pub fn restore(&self, snapshot: &DisplaySnapshot) -> (actions: Vec<Restore>)
        ensures
            actions@ == (if snapshot.is_online && self.layouts().contains_key(snapshot.id.0) {
                self.layouts()[snapshot.id.0].restoring(*snapshot)
            } else {
                Seq::empty()
            }),
    {
        let mut actions: Vec<Restore> = Vec::new();
        let wanted: Pinned = match self.pinned.get(&snapshot.id.0) {
            None => {
                return actions;
            },
            Some(wanted) => *wanted,
        };
        if !snapshot.is_online {
            return actions;
        }
        let display: DisplayId = snapshot.id;
        let mode_drifted: bool = match snapshot.current_mode {
            Some(mode) => mode.io_mode_id != wanted.io_mode_id,
            None => true,
        };
        if mode_drifted {
            actions.push(Restore::SetMode { display, io_mode_id: wanted.io_mode_id });
        }
        if snapshot.origin.0 != wanted.origin.0 || snapshot.origin.1 != wanted.origin.1 {
            actions.push(Restore::SetOrigin { display, x: wanted.origin.0, y: wanted.origin.1 });
        }
        if !same_mirror(snapshot.mirrors, wanted.mirrors) {
            match wanted.mirrors {
                Some(source) => {
                    actions.push(Restore::SetMirror { display, source });
                },
                None => {
                    actions.push(Restore::ClearMirror { display });
                },
            }
        }
        assert(actions@ =~= wanted.restoring(*snapshot));
        actions
    }
}

/// A display that stands as it was pinned is left alone: restoring it asks
/// nothing of the system, so a restore never sets off another.
pub proof fn law_a_display_in_its_pinned_layout_is_left_alone(
    pinned: Pinned,
    snapshot: DisplaySnapshot,
)
    requires
        snapshot.current_mode matches Some(mode) && mode.io_mode_id == pinned.io_mode_id,
        snapshot.origin == pinned.origin,
        snapshot.mirrors == pinned.mirrors,
    ensures
        pinned.restoring(snapshot) == Seq::<Restore>::empty(),
{
    assert(pinned.restoring(snapshot) =~= Seq::<Restore>::empty());
}

/// A layout that is pinned stays pinned as it was seen until it is let go; other
/// displays are not touched. A display without a mode cannot be pinned.
pub proof fn law_a_layout_is_pinned_as_it_was_seen(
    protection: &mut Protection,
    snapshot: DisplaySnapshot,
    other: DisplayId,
    before: bool,
    after: bool,
    then: &mut Protection,
    last: bool,
)
    requires
        call_ensures(Protection::protect, (protection, &snapshot), ()),
        call_ensures(Protection::is_protected, (&*old(protection), other), before),
        call_ensures(Protection::is_protected, (&*final(protection), other), after),
        *old(then) == *final(protection),
        call_ensures(Protection::unprotect, (then, snapshot.id), ()),
        call_ensures(Protection::is_protected, (&*final(then), other), last),
    ensures
        other == snapshot.id ==> (after <==> before || snapshot.current_mode is Some) && !last,
        other != snapshot.id ==> after == before && last == before,
        snapshot.current_mode matches Some(mode) ==> {
            let pinned = final(protection).layouts()[snapshot.id.0];
            &&& pinned.io_mode_id == mode.io_mode_id
            &&& pinned.origin == snapshot.origin
            &&& pinned.mirrors == snapshot.mirrors
        },
{
}

/// A display that drifted is put back to the layout it was pinned in, in each
/// respect in which it drifted and in no other; one that is not protected or not
/// online is left alone.
pub proof fn law_a_drifted_display_is_put_back(
    protection: &mut Protection,
    seen: DisplaySnapshot,
    snapshot: DisplaySnapshot,
    actions: Vec<Restore>,
)
    requires
        seen.current_mode is Some,
        snapshot.id == seen.id,
        call_ensures(Protection::protect, (protection, &seen), ()),
        call_ensures(Protection::restore, (&*final(protection), &snapshot), actions),
    ensures
        !snapshot.is_online ==> actions@.len() == 0,
        snapshot.is_online ==> {
            let display = snapshot.id;
            let mode = Restore::SetMode {
                display,
                io_mode_id: (seen.current_mode->0).io_mode_id,
            };
            let origin = Restore::SetOrigin { display, x: seen.origin.0, y: seen.origin.1 };
            &&& actions@.contains(mode) <==> !(snapshot.current_mode is Some && (
            snapshot.current_mode->0).io_mode_id == (seen.current_mode->0).io_mode_id)
            &&& actions@.contains(origin) <==> snapshot.origin != seen.origin
            &&& seen.mirrors matches Some(source) ==> (actions@.contains(
                Restore::SetMirror { display, source },
            ) <==> snapshot.mirrors != seen.mirrors)
            &&& seen.mirrors is None ==> (actions@.contains(Restore::ClearMirror { display })
                <==> snapshot.mirrors is Some)
            &&& forall|i: int|
                #![trigger actions@[i]]
                0 <= i < actions@.len() ==> match actions@[i] {
                    Restore::SetMode { .. } => actions@[i] == mode,
                    Restore::SetOrigin { .. } => actions@[i] == origin,
                    Restore::SetMirror { display: to, source } => to == display && seen.mirrors
                        == Some(source),
                    Restore::ClearMirror { display: to } => to == display && seen.mirrors is None,
                }
        },
{
    if snapshot.is_online {
        let display = snapshot.id;
        let pinned = final(protection).layouts()[snapshot.id.0];
        let mode = Restore::SetMode { display, io_mode_id: pinned.io_mode_id };
        let origin = Restore::SetOrigin { display, x: pinned.origin.0, y: pinned.origin.1 };
        let moved = !(snapshot.current_mode is Some && (snapshot.current_mode->0).io_mode_id
            == pinned.io_mode_id);
        let first: int = if moved {
            1
        } else {
            0
        };
        if moved {
            assert(actions@[0] == mode);
        }
        if snapshot.origin != pinned.origin {
            assert(actions@[first] == origin);
        }
        if snapshot.mirrors != pinned.mirrors {
            assert(actions@.last() is SetMirror || actions@.last() is ClearMirror);
            assert(actions@[actions@.len() - 1] == actions@.last());
        }
        if actions@.contains(mode) {
            assert(actions@[actions@.index_of(mode)] == mode);
        }
        if actions@.contains(origin) {
            assert(actions@[actions@.index_of(origin)] == origin);
        }
        if let Some(source) = seen.mirrors {
            let mirror = Restore::SetMirror { display, source };
            if actions@.contains(mirror) {
                assert(actions@[actions@.index_of(mirror)] == mirror);
            }
        } else {
            let clear = Restore::ClearMirror { display };
            if actions@.contains(clear) {
                assert(actions@[actions@.index_of(clear)] == clear);
            }
        }
    }
}

/// Without protection nothing is put back.
pub proof fn law_an_unprotected_display_is_left_alone(
    protection: Protection,
    snapshot: DisplaySnapshot,
    protected: bool,
    actions: Vec<Restore>,
)
    requires
        call_ensures(Protection::is_protected, (&protection, snapshot.id), protected),
        !protected,
        call_ensures(Protection::restore, (&protection, &snapshot), actions),
    ensures
        actions@.len() == 0,
{
}

/// Only a display that was there before and still is can be put back.
pub proof fn law_arrivals_and_departures_are_not_drift(change: Change, worth: bool)
    requires
        call_ensures(is_worth_restoring, (change,), worth),
    ensures
        worth <==> change == Change::Reconfigured,
{
}

/// A pinned layout is told by its mode and where it stands.
pub proof fn law_a_pinned_layout_is_told(
    protection: &mut Protection,
    snapshot: DisplaySnapshot,
    text: Option<String>,
    mode: String,
    x: String,
    y: String,
)
    requires
        snapshot.current_mode is Some,
        call_ensures(Protection::protect, (protection, &snapshot), ()),
        call_ensures(Protection::describe, (&*final(protection), snapshot.id), text),
        call_ensures(
            decimal_signed,
            ((snapshot.current_mode->0).io_mode_id as i64,),
            mode,
        ),
        call_ensures(decimal_signed, (snapshot.origin.0 as i64,), x),
        call_ensures(decimal_signed, (snapshot.origin.1 as i64,), y),
    ensures
        text is Some && (text->0)@ == "mode "@ + mode@ + " at "@ + x@ + ","@ + y@,
{
}

/// Nothing is protected to begin with.
pub proof fn law_nothing_is_protected_to_begin_with(
    protection: Protection,
    display: DisplayId,
    protected: bool,
)
    requires
        call_ensures(Protection::new, (), protection),
        call_ensures(Protection::is_protected, (&protection, display), protected),
    ensures
        !protected,
{
}

} // verus!
