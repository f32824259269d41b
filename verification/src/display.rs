//! Displays as the panel shows them: what the system says of each, and which of
//! its modes the resolution slider offers.

use vstd::prelude::*;

use crate::lists::{
    first, in_order, lemma_filter_next, lemma_filter_push, lemma_first, lemma_first_at,
    lemma_first_none, lemma_place_at, lemma_sorted, place, sorted, total_order,
};
use crate::offline::{Offline, Registry};

verus! {

#[derive(Clone, Copy, Debug, PartialEq, Eq, Structural)]
pub struct DisplayId(pub u32);

#[derive(Clone, Copy, Debug, PartialEq, Eq, Structural)]
pub struct DisplayMode {
    /// In points.
    pub width: u32,
    pub height: u32,
    pub hidpi: bool,
    /// In millihertz; zero where the rate varies.
    pub refresh_rate: u64,
    pub io_mode_id: i32,
}

impl DisplayMode {
    pub fn is_hidpi(&self) -> (hidpi: bool)
        ensures
            hidpi == self.hidpi,
    {
        self.hidpi
    }

    pub open spec fn same_size(self, other: DisplayMode) -> bool {
        self.width == other.width && self.height == other.height
    }
}

/// What the system says of a display.
#[derive(Debug)]
pub struct DisplaySnapshot {
    pub id: DisplayId,
    pub name: String,
    pub is_builtin: bool,
    pub is_main: bool,
    pub is_active: bool,
    pub is_online: bool,
    pub vendor: u32,
    pub model: u32,
    pub serial: u32,
    pub unit: u32,
    /// In whole points.
    pub origin: (i32, i32),
    pub size: (i32, i32),
    pub mirrors: Option<DisplayId>,
    pub current_mode: Option<DisplayMode>,
}

impl Clone for DisplaySnapshot {
    fn clone(&self) -> (snapshot: Self)
        ensures
            snapshot == *self,
    {
        DisplaySnapshot {
            id: self.id,
            name: self.name.clone(),
            is_builtin: self.is_builtin,
            is_main: self.is_main,
            is_active: self.is_active,
            is_online: self.is_online,
            vendor: self.vendor,
            model: self.model,
            serial: self.serial,
            unit: self.unit,
            origin: self.origin,
            size: self.size,
            mirrors: self.mirrors,
            current_mode: self.current_mode,
        }
    }
}

/// A display as the UI needs it: the raw system snapshot plus its modes.
#[derive(Debug)]
pub struct Display {
    pub snapshot: DisplaySnapshot,
    pub modes: Vec<DisplayMode>,
    pub native: Option<DisplayMode>,
}

impl Clone for Display {
    fn clone(&self) -> (display: Self)
        ensures
            display.snapshot == self.snapshot,
            display.modes@ == self.modes@,
            display.native == self.native,
    {
        let mut modes: Vec<DisplayMode> = Vec::new();
        let mut i: usize = 0;
        while i < self.modes.len()
            invariant
                i <= self.modes@.len(),
                modes@ == self.modes@.take(i as int),
            decreases self.modes@.len() - i,
        {
            modes.push(self.modes[i]);
            assert(modes@ =~= self.modes@.take(i + 1));
            i += 1;
        }
        assert(modes@ =~= self.modes@);
        Display { snapshot: self.snapshot.clone(), modes, native: self.native }
    }
}

// --- which modes the slider offers ------------------------------------------

/// Width over height as a fraction; nothing at all for a mode without height.
pub open spec fn aspect(mode: DisplayMode) -> (int, int) {
    if mode.height == 0 {
        (0, 1)
    } else {
        (mode.width as int, mode.height as int)
    }
}

pub open spec fn distance(left: int, right: int) -> int {
    if left < right {
        right - left
    } else {
        left - right
    }
}

/// Two modes have the same aspect ratio: the ratios differ by less than a
/// hundredth.
pub open spec fn same_aspect(left: DisplayMode, right: DisplayMode) -> bool {
    let (left_width, left_height) = aspect(left);
    let (right_width, right_height) = aspect(right);
    distance(left_width * right_height, right_width * left_height) * 100 < left_height
        * right_height
}

fn fraction(mode: &DisplayMode) -> (fraction: (u128, u128))
    ensures
        fraction.0 == aspect(*mode).0,
        fraction.1 == aspect(*mode).1,
        fraction.0 <= u32::MAX,
        0 < fraction.1 <= u32::MAX,
{
    if mode.height == 0 {
        (0, 1)
    } else {
        (mode.width as u128, mode.height as u128)
    }
}

fn has_same_aspect(left: &DisplayMode, right: &DisplayMode) -> (same: bool)
    ensures
        same == same_aspect(*left, *right),
{
    let (left_width, left_height): (u128, u128) = fraction(left);
    let (right_width, right_height): (u128, u128) = fraction(right);
    assert(0 <= left_width * right_height <= 0xFFFF_FFFF * 0xFFFF_FFFF) by (nonlinear_arith)
        requires
            0 <= left_width <= 0xFFFF_FFFF,
            0 <= right_height <= 0xFFFF_FFFF,
    ;
    assert(0 <= right_width * left_height <= 0xFFFF_FFFF * 0xFFFF_FFFF) by (nonlinear_arith)
        requires
            0 <= right_width <= 0xFFFF_FFFF,
            0 <= left_height <= 0xFFFF_FFFF,
    ;
    assert(0 <= left_height * right_height <= 0xFFFF_FFFF * 0xFFFF_FFFF) by (nonlinear_arith)
        requires
            0 <= left_height <= 0xFFFF_FFFF,
            0 <= right_height <= 0xFFFF_FFFF,
    ;
    let one: u128 = left_width * right_height;
    let other: u128 = right_width * left_height;
    let apart: u128 = if one < other {
        other - one
    } else {
        one - other
    };
    apart * 100 < left_height * right_height
}

/// A mode may stand before another that is at least as wide.
pub open spec fn no_wider() -> spec_fn(DisplayMode, DisplayMode) -> bool {
    |left: DisplayMode, right: DisplayMode| left.width <= right.width
}

/// Modes sorted by width; those of one width stay in the order they came in.
pub open spec fn by_width(modes: Seq<DisplayMode>) -> Seq<DisplayMode> {
    sorted(modes, no_wider())
}

/// The list without those that are the size of the one before.
pub open spec fn distinct(modes: Seq<DisplayMode>) -> Seq<DisplayMode>
    decreases modes.len(),
{
    if modes.len() <= 1 {
        modes
    } else {
        let before = distinct(modes.drop_last());
        if before.last().same_size(modes.last()) {
            before
        } else {
            before.push(modes.last())
        }
    }
}

/// A list is sorted by width.
pub open spec fn widening(modes: Seq<DisplayMode>) -> bool {
    forall|i: int, j: int|
        0 <= i <= j < modes.len() ==> (#[trigger] modes[i]).width <= (#[trigger] modes[j]).width
}

proof fn lemma_by_width(modes: Seq<DisplayMode>)
    ensures
        widening(by_width(modes)),
        by_width(modes).to_multiset() == modes.to_multiset(),
{
    lemma_sorted(modes, no_wider());
    assert forall|i: int, j: int| 0 <= i <= j < by_width(modes).len() implies (
    #[trigger] by_width(modes)[i]).width <= (#[trigger] by_width(modes)[j]).width by {
        if i < j {
            assert(no_wider()(by_width(modes)[i], by_width(modes)[j]));
        }
    }
}

/// Dropping repeats keeps a mode of the last one's size at the end, and no
/// repeat.
proof fn lemma_distinct_ends(modes: Seq<DisplayMode>)
    ensures
        modes.len() > 0 ==> distinct(modes).len() > 0 && distinct(modes).last().same_size(
            modes.last(),
        ),
        forall|i: int|
            #![trigger distinct(modes)[i]]
            0 < i < distinct(modes).len() ==> !distinct(modes)[i - 1].same_size(
                distinct(modes)[i],
            ),
    decreases modes.len(),
{
    if modes.len() > 1 {
        let rest = modes.drop_last();
        lemma_distinct_ends(rest);
        let before = distinct(rest);
        let after = distinct(modes);
        assert forall|i: int|
            #![trigger after[i]]
            0 < i < after.len() implies !after[i - 1].same_size(after[i]) by {
            if i < before.len() {
                assert(before[i] == after[i]);
                assert(before[i - 1] == after[i - 1]);
            }
        }
    }
}

/// What is left is in the list.
proof fn lemma_distinct_inside(modes: Seq<DisplayMode>, i: int)
    requires
        0 <= i < distinct(modes).len(),
    ensures
        modes.contains(distinct(modes)[i]),
    decreases modes.len(),
{
    if modes.len() <= 1 {
        assert(modes[i] == distinct(modes)[i]);
    } else {
        let rest = modes.drop_last();
        let before = distinct(rest);
        if i < before.len() {
            lemma_distinct_inside(rest, i);
            let k = choose|k: int| 0 <= k < rest.len() && rest[k] == before[i];
            assert(modes[k] == distinct(modes)[i]);
        } else {
            assert(modes[modes.len() - 1] == distinct(modes)[i]);
        }
    }
}

/// Nothing that is left is wider than the last of the list, and it widens.
proof fn lemma_distinct_widens(modes: Seq<DisplayMode>)
    requires
        widening(modes),
    ensures
        widening(distinct(modes)),
    decreases modes.len(),
{
    if modes.len() > 1 {
        let rest = modes.drop_last();
        lemma_distinct_widens(rest);
        lemma_distinct_ends(rest);
        let before = distinct(rest);
        let after = distinct(modes);
        assert(rest.last() == modes[modes.len() - 2]);
        assert(before.last().width <= modes.last().width);
        assert forall|i: int, j: int| 0 <= i <= j < after.len() implies (
        #[trigger] after[i]).width <= (#[trigger] after[j]).width by {
            if j < before.len() {
                assert(before[i].width <= before[j].width);
            } else if i < before.len() {
                assert(before[i].width <= before[before.len() - 1].width);
            }
        }
    }
}

/// No size is lost.
proof fn lemma_distinct_covers(modes: Seq<DisplayMode>, i: int)
    requires
        0 <= i < modes.len(),
    ensures
        exists|j: int|
            0 <= j < distinct(modes).len() && (#[trigger] distinct(modes)[j]).same_size(modes[i]),
    decreases modes.len(),
{
    lemma_distinct_ends(modes);
    let after = distinct(modes);
    if i == modes.len() - 1 {
        assert(after[after.len() - 1].same_size(modes[i]));
    } else {
        let rest = modes.drop_last();
        lemma_distinct_covers(rest, i);
        let before = distinct(rest);
        let j = choose|j: int|
            0 <= j < before.len() && (#[trigger] before[j]).same_size(rest[i]);
        assert(after[j] == before[j]);
        assert(after[j].same_size(modes[i]));
    }
}

impl Display {
    /// The mode whose aspect ratio the others are to match: the one in force, or
    /// the native one while none is. A display that has no native mode has
    /// nothing to choose from.
    pub open spec fn model(self) -> Option<DisplayMode> {
        match (self.native, self.snapshot.current_mode) {
            (None, _) => None,
            (Some(native), None) => Some(native),
            (Some(_), Some(current)) => Some(current),
        }
    }

    /// Modes matching the current aspect ratio, from the narrowest to the
    /// widest, no two neighbours of one size: the list the resolution slider
    /// indexes into.
    pub open spec fn selectable(self) -> Seq<DisplayMode> {
        match self.model() {
            None => Seq::empty(),
            Some(model) => distinct(
                by_width(self.modes@.filter(|mode: DisplayMode| same_aspect(mode, model))),
            ),
        }
    }

    /// A display as the system describes it.
    pub fn load(
        snapshot: DisplaySnapshot,
        modes: Vec<DisplayMode>,
        native: Option<DisplayMode>,
    ) -> (display: Self)
        ensures
            display == (Display { snapshot, modes, native }),
    {
        Display { snapshot, modes, native }
    }

    pub fn id(&self) -> (id: DisplayId)
        ensures
            id == self.snapshot.id,
    {
        self.snapshot.id
    }

    pub fn name(&self) -> (name: &str)
        ensures
            name@ == self.snapshot.name@,
    {
        self.snapshot.name.as_str()
    }

    /// Modes matching the current aspect ratio, sorted by width: the list the
    /// resolution slider indexes into.
    pub fn selectable_modes(&self) -> (modes: Vec<DisplayMode>)
        ensures
            modes@ == self.selectable(),
    {
        let native: DisplayMode = match self.native {
            None => {
                return Vec::new();
            },
            Some(native) => native,
        };
        let model: DisplayMode = match self.snapshot.current_mode {
            Some(current) => current,
            None => native,
        };
        let ghost keeps = |mode: DisplayMode| same_aspect(mode, model);
        let mut ordered: Vec<DisplayMode> = Vec::new();
        let mut i: usize = 0;
        while i < self.modes.len()
            invariant
                i <= self.modes@.len(),
                keeps == (|mode: DisplayMode| same_aspect(mode, model)),
                ordered@ == by_width(self.modes@.take(i as int).filter(keeps)),
            decreases self.modes@.len() - i,
        {
            let mode: DisplayMode = self.modes[i];
            proof {
                lemma_filter_next(self.modes@, i as int, keeps);
            }
            if has_same_aspect(&mode, &model) {
                let ghost kept = self.modes@.take(i as int).filter(keeps);
                let mut at: usize = ordered.len();
                while at > 0 && ordered[at - 1].width > mode.width
                    invariant
                        at <= ordered@.len(),
                        forall|j: int|
                            at <= j < ordered@.len() ==> (#[trigger] ordered@[j]).width > mode.width,
                    decreases at,
                {
                    at -= 1;
                }
                proof {
                    lemma_place_at(ordered@, no_wider(), mode, at as int);
                    assert(kept.push(mode).drop_last() == kept);
                }
                ordered.insert(at, mode);
            }
            i += 1;
        }
        assert(self.modes@.take(i as int) == self.modes@);
        let mut modes: Vec<DisplayMode> = Vec::new();
        let mut k: usize = 0;
        while k < ordered.len()
            invariant
                k <= ordered@.len(),
                modes@ == distinct(ordered@.take(k as int)),
                k > 0 ==> modes@.len() > 0,
            decreases ordered@.len() - k,
        {
            let mode: DisplayMode = ordered[k];
            proof {
                assert(ordered@.take(k + 1).drop_last() == ordered@.take(k as int));
                if k == 0 {
                    assert(ordered@.take(1) == modes@.push(mode));
                }
            }
            let repeated: bool = if modes.len() > 0 {
                let last: DisplayMode = modes[modes.len() - 1];
                last.width == mode.width && last.height == mode.height
            } else {
                false
            };
            if !repeated {
                modes.push(mode);
            }
            k += 1;
        }
        assert(ordered@.take(k as int) == ordered@);
        modes
    }

    /// The first stop of the slider with the size of a mode.
    pub open spec fn is_stop(self, mode: DisplayMode, index: int) -> bool {
        &&& 0 <= index < self.selectable().len()
        &&& self.selectable()[index].same_size(mode)
        &&& forall|i: int| 0 <= i < index ==> !(#[trigger] self.selectable()[i]).same_size(mode)
    }

    /// The stop of the slider that the mode in force is at, if it is at one.
    pub open spec fn position(self) -> Option<usize> {
        match self.snapshot.current_mode {
            Some(mode) if exists|index: int| #[trigger] self.is_stop(mode, index) => Some(
                (choose|index: int| #[trigger] self.is_stop(mode, index)) as usize,
            ),
            _ => None,
        }
    }

    pub fn current_mode_index(&self) -> (index: Option<usize>)
        ensures
            index == self.position(),
            index matches Some(index) ==> index < self.selectable().len(),
    {
        let current: DisplayMode = match self.snapshot.current_mode {
            None => {
                return None;
            },
            Some(current) => current,
        };
        let modes = self.selectable_modes();
        let mut i: usize = 0;
        while i < modes.len()
            invariant
                i <= modes@.len(),
                modes@ == self.selectable(),
                self.snapshot.current_mode == Some(current),
                forall|j: int|
                    0 <= j < i ==> !(#[trigger] self.selectable()[j]).same_size(current),
            decreases modes@.len() - i,
        {
            if modes[i].width == current.width && modes[i].height == current.height {
                proof {
                    assert(self.is_stop(current, i as int));
                    let chosen = choose|index: int| #[trigger] self.is_stop(current, index);
                    assert(self.is_stop(current, chosen));
                    if chosen < i {
                        assert(!self.selectable()[chosen].same_size(current));
                    }
                    if i < chosen {
                        assert(!self.selectable()[i as int].same_size(current));
                    }
                }
                return Some(i);
            }
            i += 1;
        }
        None
    }

    /// The width in force and the widest there is, where both are known.
    pub open spec fn scale(self) -> Option<(u32, u32)> {
        match self.snapshot.current_mode {
            Some(current) if self.selectable().len() > 0 && self.selectable().last().width != 0 =>
                Some((current.width, self.selectable().last().width)),
            _ => None,
        }
    }

    /// Desktop space of the current mode relative to the widest mode available,
    /// as a pair of widths: what the resolution readout shows.
    ///
    /// Measured in points rather than pixels, because that is what determines
    /// how much fits on screen: a HiDPI mode and its 1x twin cover the same
    /// area at very different pixel counts.
    pub fn resolution_scale(&self) -> (scale: Option<(u32, u32)>)
        ensures
            scale == self.scale(),
    {
        let current: DisplayMode = match self.snapshot.current_mode {
            None => {
                return None;
            },
            Some(current) => current,
        };
        let modes = self.selectable_modes();
        if modes.len() == 0 {
            return None;
        }
        let widest: u32 = modes[modes.len() - 1].width;
        if widest == 0 {
            None
        } else {
            Some((current.width, widest))
        }
    }
}

/// The slider moves from the narrowest mode to the widest, has no two
/// neighbouring stops of one size, offers only modes that the display has in the
/// current aspect ratio, and leaves out no size that it has.
pub proof fn law_the_slider_offers_each_size_in_order(display: Display, model: DisplayMode)
    requires
        display.model() == Some(model),
    ensures
        widening(display.selectable()),
        forall|i: int|
            0 <= i < display.selectable().len() ==> display.modes@.contains(
                #[trigger] display.selectable()[i],
            ) && same_aspect(display.selectable()[i], model),
        forall|i: int|
            #![trigger display.selectable()[i]]
            0 < i < display.selectable().len() ==> !display.selectable()[i - 1].same_size(
                display.selectable()[i],
            ),
        forall|i: int|
            0 <= i < display.modes@.len() && same_aspect(#[trigger] display.modes@[i], model)
                ==> exists|j: int|
                0 <= j < display.selectable().len() && (
                #[trigger] display.selectable()[j]).same_size(display.modes@[i]),
{
    let keeps = |mode: DisplayMode| same_aspect(mode, model);
    let kept = display.modes@.filter(keeps);
    let ordered = by_width(kept);
    lemma_by_width(kept);
    lemma_distinct_ends(ordered);
    lemma_distinct_widens(ordered);
    kept.to_multiset_ensures();
    ordered.to_multiset_ensures();
    broadcast use vstd::seq_lib::group_filter_ensures;

    assert forall|i: int| 0 <= i < display.selectable().len() implies display.modes@.contains(
        #[trigger] display.selectable()[i],
    ) && same_aspect(display.selectable()[i], model) by {
        let mode = display.selectable()[i];
        lemma_distinct_inside(ordered, i);
        assert(ordered.contains(mode));
        assert(ordered.to_multiset().count(mode) > 0);
        assert(kept.contains(mode));
        let k = choose|k: int| 0 <= k < kept.len() && kept[k] == mode;
        assert(keeps(kept[k]));
        lemma_filter_source(display.modes@, keeps, k);
    }
    assert forall|i: int|
        0 <= i < display.modes@.len() && same_aspect(
            #[trigger] display.modes@[i],
            model,
        ) implies exists|j: int|
        0 <= j < display.selectable().len() && (#[trigger] display.selectable()[j]).same_size(
            display.modes@[i],
        ) by {
        let mode = display.modes@[i];
        assert(keeps(mode));
        assert(kept.contains(mode));
        assert(kept.to_multiset().count(mode) > 0);
        assert(ordered.contains(mode));
        let k = choose|k: int| 0 <= k < ordered.len() && ordered[k] == mode;
        lemma_distinct_covers(ordered, k);
        let j = choose|j: int|
            0 <= j < distinct(ordered).len() && (#[trigger] distinct(ordered)[j]).same_size(ordered[k]);
        assert(display.selectable()[j].same_size(display.modes@[i]));
    }
}

proof fn lemma_filter_source<A>(items: Seq<A>, keeps: spec_fn(A) -> bool, k: int)
    requires
        0 <= k < items.filter(keeps).len(),
    ensures
        items.contains(items.filter(keeps)[k]),
    decreases items.len(),
{
    reveal(Seq::filter);
    if items.len() > 0 {
        let rest = items.drop_last();
        if k < rest.filter(keeps).len() {
            lemma_filter_source(rest, keeps, k);
            let i = choose|i: int| 0 <= i < rest.len() && rest[i] == rest.filter(keeps)[k];
            assert(items[i] == items.filter(keeps)[k]);
        } else {
            assert(items[items.len() - 1] == items.filter(keeps)[k]);
        }
    }
}

// --- the catalogue ----------------------------------------------------------

/// Whether there is a panel on the other end of the cable.
#[derive(Clone, Copy, Debug, PartialEq, Eq, Structural)]
pub enum Attachment {
    Attached,
    Absent,
    /// The machine cannot say.
    Unknown,
}

/// What becomes of a record when the displays are listed.
#[derive(Clone, Copy, Debug, PartialEq, Eq, Structural)]
pub enum Fate {
    /// Back on its own, or gone for good: the record goes.
    Forget,
    /// Still in the layout, just mirrored: the card is already there.
    Keep,
    /// Off the device tree: a card is shown for it, or the toggle that brings
    /// it back would not exist.
    Show,
}

/// The listed display of an id.
pub open spec fn with_id(displays: Seq<Display>, id: DisplayId) -> Option<Display> {
    first(displays, |display: Display| display.snapshot.id == id)
}

/// What becomes of the record of `entry`. One whose panel is gone has no
/// hardware behind it any more, and a card offering to reconnect it would offer
/// to invent a monitor.
pub open spec fn fate(displays: Seq<Display>, entry: Offline, attachment: Attachment) -> Fate {
    match with_id(displays, entry.id) {
        Some(display) => if display.snapshot.is_active && display.snapshot.mirrors is None {
            Fate::Forget
        } else {
            Fate::Keep
        },
        None => if attachment == Attachment::Absent {
            Fate::Forget
        } else {
            Fate::Show
        },
    }
}

/// The records that are left once the first `count` were judged.
pub open spec fn kept_records(
    records: Map<u32, Offline>,
    displays: Seq<Display>,
    entries: Seq<Offline>,
    attachments: Seq<Attachment>,
    count: int,
) -> Map<u32, Offline>
    decreases count,
{
    if count <= 0 {
        records
    } else {
        let before = kept_records(records, displays, entries, attachments, count - 1);
        let entry = entries[count - 1];
        if fate(displays, entry, attachments[count - 1]) == Fate::Forget {
            before.remove(entry.id.0)
        } else {
            before
        }
    }
}

/// A card built from a record alone.
pub open spec fn is_ghost_of(card: Display, entry: Offline) -> bool {
    &&& card.modes@ == Seq::<DisplayMode>::empty()
    &&& card.native is None
    &&& card.snapshot == (DisplaySnapshot {
        id: entry.id,
        name: entry.name,
        is_builtin: entry.is_builtin,
        is_main: false,
        is_active: false,
        is_online: false,
        vendor: entry.vendor,
        model: entry.model,
        serial: entry.serial,
        unit: entry.unit,
        origin: (0, 0),
        size: (0, 0),
        mirrors: None,
        current_mode: None,
    })
}

/// `cards` are those of the records among the first `count` that are shown.
pub open spec fn ghost_cards(
    displays: Seq<Display>,
    entries: Seq<Offline>,
    attachments: Seq<Attachment>,
    count: int,
    cards: Seq<Display>,
) -> bool
    decreases count,
{
    if count <= 0 {
        cards.len() == 0
    } else if fate(displays, entries[count - 1], attachments[count - 1]) == Fate::Show {
        &&& cards.len() > 0
        &&& is_ghost_of(cards.last(), entries[count - 1])
        &&& ghost_cards(displays, entries, attachments, count - 1, cards.drop_last())
    } else {
        ghost_cards(displays, entries, attachments, count - 1, cards)
    }
}

pub open spec fn rank(display: Display) -> (int, int, int) {
    (
        if display.snapshot.is_main {
            0
        } else {
            1
        },
        if display.snapshot.is_builtin {
            0
        } else {
            1
        },
        display.snapshot.id.0 as int,
    )
}

/// Main first, then built-in, then by display id, so the panel does not
/// reshuffle between refreshes.
pub open spec fn panel_order() -> spec_fn(Display, Display) -> bool {
    |left: Display, right: Display|
        {
            let (left_main, left_builtin, left_id) = rank(left);
            let (right_main, right_builtin, right_id) = rank(right);
            left_main < right_main || (left_main == right_main && (left_builtin < right_builtin || (
            left_builtin == right_builtin && left_id <= right_id)))
        }
}

fn may_stand_before(left: &Display, right: &Display) -> (may: bool)
    ensures
        may == panel_order()(*left, *right),
{
    if left.snapshot.is_main != right.snapshot.is_main {
        return left.snapshot.is_main;
    }
    if left.snapshot.is_builtin != right.snapshot.is_builtin {
        return left.snapshot.is_builtin;
    }
    left.snapshot.id.0 <= right.snapshot.id.0
}

fn find_id(displays: &[Display], id: DisplayId) -> (index: Option<usize>)
    ensures
        match index {
            Some(index) => index < displays@.len() && with_id(displays@, id) == Some(
                displays@[index as int],
            ),
            None => with_id(displays@, id) is None,
        },
{
    let ghost wanted = |display: Display| display.snapshot.id == id;
    let mut i: usize = 0;
    while i < displays.len()
        invariant
            i <= displays@.len(),
            wanted == (|display: Display| display.snapshot.id == id),
            forall|j: int| 0 <= j < i ==> !wanted(#[trigger] displays@[j]),
        decreases displays@.len() - i,
    {
        if displays[i].snapshot.id.0 == id.0 {
            assert(displays@[i as int].snapshot.id == id);
            proof {
                lemma_first_at(displays@, wanted, i as int);
            }
            return Some(i);
        }
        i += 1;
    }
    proof {
        lemma_first_none(displays@, wanted);
    }
    None
}

/// The set of displays currently attached, in a stable order.
///
/// Displays this app hard-disconnected are listed even though the system no
/// longer lists them, from the record taken before they went away: without them
/// the card carrying the toggle that brings them back would vanish too.
#[derive(Debug)]
pub struct DisplayCatalog {
    pub displays: Vec<Display>,
}

impl DisplayCatalog {
    /// Whether the panel behind a record has to be looked for: only one whose
    /// display the system does not list.
    pub fn asks_for(displays: &[Display], entry: &Offline) -> (asks: bool)
        ensures
            asks == (with_id(displays@, entry.id) is None),
    {
        find_id(displays, entry.id).is_none()
    }

    fn judge(displays: &[Display], entry: &Offline, attachment: Attachment) -> (judged: Fate)
        ensures
            judged == fate(displays@, *entry, attachment),
    {
        match find_id(displays, entry.id) {
            Some(index) => {
                if displays[index].snapshot.is_active && displays[index].snapshot.mirrors.is_none() {
                    Fate::Forget
                } else {
                    Fate::Keep
                }
            },
            None => {
                if attachment == Attachment::Absent {
                    Fate::Forget
                } else {
                    Fate::Show
                }
            },
        }
    }

    /// The catalogue of the displays that the system lists and of those that
    /// are switched off. `attachments` says of each record, in the order the
    /// registry keeps them, whether its panel is there.
    ///
    /// A record of a display that is back on its own, or whose panel is gone,
    /// is dropped. Returns whether any was, in which case the file is to be
    /// written again.
    pub fn load(
        displays: Vec<Display>,
        registry: &mut Registry,
        attachments: &[Attachment],
    ) -> (loaded: (DisplayCatalog, bool))
        requires
            old(registry).wf(),
            attachments@.len() == old(registry).listed().len(),
        ensures
            final(registry).wf(),
            final(registry).records() == kept_records(
                old(registry).records(),
                displays@,
                old(registry).listed(),
                attachments@,
                attachments@.len() as int,
            ),
            loaded.1 == exists|i: int|
                0 <= i < attachments@.len() && fate(
                    displays@,
                    old(registry).listed()[i],
                    #[trigger] attachments@[i],
                ) == Fate::Forget,
            exists|cards: Seq<Display>|
                {
                    &&& ghost_cards(
                        displays@,
                        old(registry).listed(),
                        attachments@,
                        attachments@.len() as int,
                        cards,
                    )
                    &&& loaded.0.displays@ == #[trigger] sorted(displays@ + cards, panel_order())
                },
    {
        let entries = registry.all();
        let ghost records = registry.records();
        let mut cards: Vec<Display> = Vec::new();
        let mut forgot: bool = false;
        let mut i: usize = 0;
        while i < entries.len()
            invariant
                i <= entries@.len(),
                entries@.len() == attachments@.len(),
                entries@ == old(registry).listed(),
                registry.wf(),
                registry.records() == kept_records(
                    records,
                    displays@,
                    entries@,
                    attachments@,
                    i as int,
                ),
                ghost_cards(displays@, entries@, attachments@, i as int, cards@),
                forgot == exists|j: int|
                    0 <= j < i && fate(displays@, entries@[j], #[trigger] attachments@[j])
                        == Fate::Forget,
            decreases entries@.len() - i,
        {
            let judged = Self::judge(&displays, &entries[i], attachments[i]);
            if judged == Fate::Forget {
                registry.forget(entries[i].id);
                forgot = true;
                assert(fate(displays@, entries@[i as int], attachments@[i as int])
                    == Fate::Forget);
            } else if judged == Fate::Show {
                let ghost before = cards@;
                let card = entries[i].ghost();
                cards.push(card);
                assert(cards@.drop_last() == before);
                assert(is_ghost_of(cards@.last(), entries@[i as int]));
            }
            i += 1;
        }
        let ghost all = displays@ + cards@;
        let mut waiting: Vec<Display> = displays;
        waiting.append(&mut cards);
        assert(waiting@ == all);
        let mut ordered: Vec<Display> = Vec::new();
        let ghost mut done: int = 0;
        while waiting.len() > 0
            invariant
                0 <= done <= all.len(),
                waiting@ == all.skip(done),
                ordered@ == sorted(all.take(done), panel_order()),
            decreases waiting@.len(),
        {
            let display = waiting.remove(0);
            let mut at: usize = ordered.len();
            while at > 0 && !may_stand_before(&ordered[at - 1], &display)
                invariant
                    at <= ordered@.len(),
                    forall|j: int|
                        at <= j < ordered@.len() ==> !panel_order()(
                            #[trigger] ordered@[j],
                            display,
                        ),
                decreases at,
            {
                at -= 1;
            }
            proof {
                lemma_place_at(ordered@, panel_order(), display, at as int);
                assert(all.take(done + 1).drop_last() == all.take(done));
                assert(all.take(done + 1).last() == display);
                assert(all.skip(done).remove(0) == all.skip(done + 1));
                done = done + 1;
            }
            ordered.insert(at, display);
        }
        assert(all.take(done) == all);
        (DisplayCatalog { displays: ordered }, forgot)
    }

    pub fn get(&self, id: DisplayId) -> (display: Option<&Display>)
        ensures
            match with_id(self.displays@, id) {
                Some(found) => display == Some(&found),
                None => display is None,
            },
    {
        match find_id(&self.displays, id) {
            Some(index) => Some(&self.displays[index]),
            None => None,
        }
    }
}

/// The catalogue is in the panel's order and lists exactly the displays it was
/// given and the cards of those that are off.
pub proof fn law_the_catalogue_is_in_panel_order(displays: Seq<Display>)
    ensures
        in_order(sorted(displays, panel_order()), panel_order()),
        sorted(displays, panel_order()).to_multiset() == displays.to_multiset(),
{
    assert(total_order(panel_order()));
    lemma_sorted(displays, panel_order());
}

// --- what the slider and the catalogue are for ------------------------------

/// The width over height of two modes differs by less than a hundredth.
pub open spec fn shaped_alike(mode: DisplayMode, model: DisplayMode) -> bool {
    -(mode.height * model.height) < 100 * (mode.width * model.height - model.width * mode.height)
        < mode.height * model.height
}

proof fn lemma_shaped_alike(mode: DisplayMode, model: DisplayMode)
    requires
        mode.height > 0,
        model.height > 0,
    ensures
        same_aspect(mode, model) <==> shaped_alike(mode, model),
{
}

/// Every stop of the slider is a mode of the display whose width over height is
/// within a hundredth of the current one's; the stops go from the narrowest to
/// the widest and no two neighbours are alike.
pub proof fn law_the_slider_keeps_the_current_shape(
    display: Display,
    modes: Vec<DisplayMode>,
    model: DisplayMode,
    i: int,
    j: int,
)
    requires
        call_ensures(Display::selectable_modes, (&display,), modes),
        display.native is Some,
        model == (match display.snapshot.current_mode {
            Some(current) => current,
            None => display.native->0,
        }),
        model.height > 0,
        0 <= i <= j < modes@.len(),
    ensures
        display.modes@.contains(modes@[i]),
        modes@[i].height > 0 ==> shaped_alike(modes@[i], model),
        modes@[i].width <= modes@[j].width,
        j == i + 1 ==> modes@[i].width != modes@[j].width || modes@[i].height != modes@[j].height,
{
    let stops = display.selectable();
    assert(widening(stops)) by {
        law_the_slider_offers_each_size_in_order(display, model);
    }
    assert(display.modes@.contains(stops[i]) && same_aspect(stops[i], model)) by {
        law_the_slider_offers_each_size_in_order(display, model);
    }
    if j == i + 1 {
        assert(!stops[j - 1].same_size(stops[j])) by {
            law_the_slider_offers_each_size_in_order(display, model);
        }
    }
    if modes@[i].height > 0 {
        lemma_shaped_alike(modes@[i], model);
    }
}

/// Every size that has the current shape has a stop.
pub proof fn law_every_size_of_the_current_shape_is_offered(
    display: Display,
    modes: Vec<DisplayMode>,
    model: DisplayMode,
    k: int,
)
    requires
        call_ensures(Display::selectable_modes, (&display,), modes),
        display.native is Some,
        model == (match display.snapshot.current_mode {
            Some(current) => current,
            None => display.native->0,
        }),
        model.height > 0,
        0 <= k < display.modes@.len(),
        display.modes@[k].height > 0,
        shaped_alike(display.modes@[k], model),
    ensures
        exists|stop: int|
            0 <= stop < modes@.len() && (#[trigger] modes@[stop]).width == display.modes@[k].width
                && modes@[stop].height == display.modes@[k].height,
{
    law_the_slider_offers_each_size_in_order(display, model);
    lemma_shaped_alike(display.modes@[k], model);
    let stop = choose|stop: int|
        0 <= stop < display.selectable().len() && (#[trigger] display.selectable()[stop]).same_size(
            display.modes@[k],
        );
    assert(modes@[stop].width == display.modes@[k].width);
}

/// A 4:3 mode and a 16:9 mode are shaped alike neither with each other nor with a
/// 16:10 one, at any size; modes of one ratio always are.
pub proof fn law_shapes_are_told_apart(mode: DisplayMode, model: DisplayMode)
    requires
        mode.height > 0,
        model.height > 0,
    ensures
        10 * model.width == 16 * model.height && (3 * mode.width == 4 * mode.height || 9
            * mode.width == 16 * mode.height) ==> !shaped_alike(mode, model),
        9 * model.width == 16 * model.height && 3 * mode.width == 4 * mode.height ==> !shaped_alike(
            mode,
            model,
        ),
        mode.width * model.height == model.width * mode.height ==> shaped_alike(mode, model),
{
    let w = mode.width as int;
    let h = mode.height as int;
    let mw = model.width as int;
    let mh = model.height as int;
    assert(0 < h * mh) by (nonlinear_arith)
        requires
            0 < h,
            0 < mh,
    ;
    assert(3 * (w * mh) == (3 * w) * mh && 9 * (w * mh) == (9 * w) * mh && 10 * (mw * h) == (10
        * mw) * h && 9 * (mw * h) == (9 * mw) * h) by (nonlinear_arith);
    assert((4 * h) * mh == 4 * (h * mh) && (16 * h) * mh == 16 * (h * mh) && (16 * mh) * h == 16
        * (h * mh)) by (nonlinear_arith);
}

/// A display whose native mode is not known has nothing to choose from.
pub proof fn law_without_a_native_mode_there_is_no_stop(display: Display, modes: Vec<DisplayMode>)
    requires
        call_ensures(Display::selectable_modes, (&display,), modes),
        display.native is None,
    ensures
        modes@.len() == 0,
{
}

/// The first mode of a size is the one that is offered: a further mode of a size
/// that is on the slider already changes nothing, and neither does one of
/// another shape.
pub proof fn law_the_first_mode_of_a_size_is_offered(
    display: Display,
    more: Display,
    mode: DisplayMode,
    model: DisplayMode,
    modes: Vec<DisplayMode>,
    then: Vec<DisplayMode>,
)
    requires
        more.snapshot == display.snapshot,
        more.native == display.native,
        more.modes@ == display.modes@.push(mode),
        display.native is Some,
        model == (match display.snapshot.current_mode {
            Some(current) => current,
            None => display.native->0,
        }),
        model.height > 0,
        mode.height > 0,
        call_ensures(Display::selectable_modes, (&display,), modes),
        call_ensures(Display::selectable_modes, (&more,), then),
        !shaped_alike(mode, model) || (exists|stop: int|
            0 <= stop < modes@.len() && (#[trigger] modes@[stop]).same_size(mode)) && forall|
            stop: int,
        |
            0 <= stop < modes@.len() && (#[trigger] modes@[stop]).width == mode.width
                ==> modes@[stop].height == mode.height,
    ensures
        then@ == modes@,
{
    let keeps = |mode: DisplayMode| same_aspect(mode, model);
    let kept = display.modes@.filter(keeps);
    lemma_filter_push(display.modes@, mode, keeps);
    lemma_shaped_alike(mode, model);
    if keeps(mode) {
        let ordered = by_width(kept);
        lemma_by_width(kept);
        let stop = choose|stop: int|
            0 <= stop < modes@.len() && (#[trigger] modes@[stop]).same_size(mode);
        lemma_distinct_inside(ordered, stop);
        let from = choose|at: int| 0 <= at < ordered.len() && ordered[at] == modes@[stop];
        let at = place(ordered, no_wider(), mode);
        lemma_place_bounds(ordered, mode, from);
        assert(kept.push(mode).drop_last() == kept);
        assert(by_width(kept.push(mode)) == ordered.insert(at, mode));
        let before = ordered[at - 1];
        lemma_distinct_covers(ordered, at - 1);
        let same = choose|same: int|
            0 <= same < distinct(ordered).len() && (#[trigger] distinct(ordered)[same]).same_size(
                before,
            );
        assert(modes@[same].same_size(before));
        assert(before.width == mode.width);
        lemma_distinct_insert(ordered, at, mode);
    }
}

/// A mode goes behind everything that is no wider, which is further on than
/// anything of its own width.
proof fn lemma_place_bounds(ordered: Seq<DisplayMode>, mode: DisplayMode, from: int)
    requires
        widening(ordered),
        0 <= from < ordered.len(),
        ordered[from].width == mode.width,
    ensures
        from < place(ordered, no_wider(), mode) <= ordered.len(),
        ordered[place(ordered, no_wider(), mode) - 1].width == mode.width,
    decreases ordered.len(),
{
    assert(no_wider()(ordered.last(), mode) == (ordered.last().width <= mode.width));
    if ordered.last().width <= mode.width {
        assert(ordered[from].width <= ordered[ordered.len() - 1].width);
    } else {
        let rest = ordered.drop_last();
        assert forall|i: int, j: int| 0 <= i <= j < rest.len() implies (#[trigger] rest[i]).width
            <= (#[trigger] rest[j]).width by {
            assert(ordered[i].width <= ordered[j].width);
        }
        assert(from < rest.len());
        assert(rest[from].width == mode.width);
        lemma_place_bounds(rest, mode, from);
    }
}

/// A mode of the size of the one before it is dropped again.
proof fn lemma_distinct_insert(modes: Seq<DisplayMode>, at: int, mode: DisplayMode)
    requires
        0 < at <= modes.len(),
        modes[at - 1].same_size(mode),
    ensures
        distinct(modes.insert(at, mode)) == distinct(modes),
    decreases modes.len(),
{
    let longer = modes.insert(at, mode);
    lemma_distinct_ends(modes);
    if at == modes.len() {
        assert(longer.drop_last() == modes);
        assert(longer.last() == mode);
    } else {
        assert(longer.drop_last() == modes.drop_last().insert(at, mode));
        assert(longer.last() == modes.last());
        assert(modes.drop_last()[at - 1] == modes[at - 1]);
        lemma_distinct_insert(modes.drop_last(), at, mode);
    }
}

/// The slider stands at the first stop of the size in force, and nowhere where
/// there is none.
pub proof fn law_the_slider_stands_at_the_size_in_force(
    display: Display,
    modes: Vec<DisplayMode>,
    index: Option<usize>,
    i: int,
)
    requires
        call_ensures(Display::selectable_modes, (&display,), modes),
        call_ensures(Display::current_mode_index, (&display,), index),
        0 <= i < modes@.len(),
    ensures
        index matches Some(at) ==> {
            &&& at < modes@.len()
            &&& display.snapshot.current_mode matches Some(current) && modes@[at as int].width
                == current.width && modes@[at as int].height == current.height
            &&& i < at ==> modes@[i].width != (display.snapshot.current_mode->0).width
                || modes@[i].height != (display.snapshot.current_mode->0).height
        },
        index is None && display.snapshot.current_mode is Some ==> modes@[i].width != (
        display.snapshot.current_mode->0).width || modes@[i].height != (
        display.snapshot.current_mode->0).height,
{
    if let Some(current) = display.snapshot.current_mode {
        if exists|index: int| #[trigger] display.is_stop(current, index) {
            let chosen = choose|index: int| #[trigger] display.is_stop(current, index);
            assert(display.is_stop(current, chosen));
            assert(chosen < modes@.len() && modes@.len() <= usize::MAX) by {
                assert(modes.len() == modes@.len());
            }
        } else {
            if modes@[i].same_size(current) {
                lemma_some_stop(display, current, i);
            }
        }
    }
}

proof fn lemma_some_stop(display: Display, mode: DisplayMode, i: int)
    requires
        0 <= i < display.selectable().len(),
        display.selectable()[i].same_size(mode),
    ensures
        exists|index: int| #[trigger] display.is_stop(mode, index),
    decreases i,
{
    if forall|j: int| 0 <= j < i ==> !(#[trigger] display.selectable()[j]).same_size(mode) {
        assert(display.is_stop(mode, i));
    } else {
        let j = choose|j: int| 0 <= j < i && (#[trigger] display.selectable()[j]).same_size(mode);
        lemma_some_stop(display, mode, j);
    }
}

/// The readout compares the width in force with the widest stop: no stop is
/// wider than that, and one is as wide.
pub proof fn law_the_readout_compares_with_the_widest(
    display: Display,
    modes: Vec<DisplayMode>,
    scale: Option<(u32, u32)>,
    i: int,
)
    requires
        call_ensures(Display::selectable_modes, (&display,), modes),
        call_ensures(Display::resolution_scale, (&display,), scale),
        0 <= i < modes@.len(),
        modes@[i].width > 0,
    ensures
        scale is Some <==> display.snapshot.current_mode is Some,
        scale matches Some((current, widest)) ==> {
            &&& current == (display.snapshot.current_mode->0).width
            &&& modes@[i].width <= widest
            &&& modes@.last().width == widest
        },
{
    law_the_slider_offers_each_size_in_order(display, display.model()->0);
    assert(display.selectable()[i].width <= display.selectable()[display.selectable().len()
        - 1].width);
}

/// A display is found by its id.
pub proof fn law_a_display_is_found_by_its_id(
    catalog: DisplayCatalog,
    id: DisplayId,
    found: Option<&Display>,
)
    requires
        call_ensures(DisplayCatalog::get, (&catalog, id), found),
    ensures
        found matches Some(display) ==> display.snapshot.id == id && catalog.displays@.contains(
            *display,
        ),
        found is None ==> forall|i: int|
            0 <= i < catalog.displays@.len() ==> (#[trigger] catalog.displays@[i]).snapshot.id
                != id,
{
    let wanted = |display: Display| display.snapshot.id == id;
    lemma_first(catalog.displays@, wanted);
    if found is None {
        assert forall|i: int| 0 <= i < catalog.displays@.len() implies (
        #[trigger] catalog.displays@[i]).snapshot.id != id by {
            assert(!wanted(catalog.displays@[i]));
        }
    }
}

/// What becomes of a record when the displays are listed. One whose display is
/// listed stays while the display is mirrored or inactive, and goes once it is in
/// the layout under its own power. One whose display is not listed stays, and has
/// a card, unless its panel is known to be gone. What stays is not changed.
pub proof fn law_a_record_stays_as_long_as_its_display_is_off(
    displays: Vec<Display>,
    registry: &mut Registry,
    attachments: &[Attachment],
    loaded: (DisplayCatalog, bool),
    entries: Vec<Offline>,
    i: int,
    listed: Option<int>,
)
    requires
        old(registry).wf(),
        attachments@.len() == old(registry).listed().len(),
        call_ensures(DisplayCatalog::load, (displays, registry, attachments), loaded),
        call_ensures(Registry::all, (&*old(registry),), entries),
        0 <= i < entries@.len(),
        match listed {
            Some(at) => 0 <= at < displays@.len() && displays@[at].snapshot.id == entries@[i].id
                && forall|j: int|
                0 <= j < at ==> (#[trigger] displays@[j]).snapshot.id != entries@[i].id,
            None => forall|j: int|
                0 <= j < displays@.len() ==> (#[trigger] displays@[j]).snapshot.id
                    != entries@[i].id,
        },
    ensures
        ({
            let stays = match listed {
                Some(at) => !displays@[at].snapshot.is_active || displays@[at].snapshot.mirrors
                    is Some,
                None => attachments@[i] != Attachment::Absent,
            };
            &&& final(registry).records().contains_key(entries@[i].id.0) <==> stays
            &&& stays ==> final(registry).records()[entries@[i].id.0] == entries@[i]
            &&& !stays ==> loaded.1
            &&& listed is None && stays ==> exists|k: int|
                0 <= k < loaded.0.displays@.len() && {
                    let card = #[trigger] loaded.0.displays@[k];
                    &&& card.snapshot.id == entries@[i].id
                    &&& card.snapshot.name@ == entries@[i].name@
                    &&& !card.snapshot.is_active
                    &&& !card.snapshot.is_online
                    &&& card.native is None
                }
        }),
{
    let id = entries@[i].id;
    let wanted = |display: Display| display.snapshot.id == id;
    match listed {
        Some(at) => {
            assert forall|j: int| 0 <= j < at implies !wanted(#[trigger] displays@[j]) by {
                assert(displays@[j].snapshot.id != id);
            }
            lemma_first_at(displays@, wanted, at);
        },
        None => {
            assert forall|j: int| 0 <= j < displays@.len() implies !wanted(
                #[trigger] displays@[j],
            ) by {
                assert(displays@[j].snapshot.id != id);
            }
            lemma_first_none(displays@, wanted);
        },
    }
    old(registry).lemma_listed();
    let count = attachments@.len() as int;
    lemma_kept_records(
        old(registry).records(),
        displays@,
        entries@,
        attachments@,
        count,
        id.0,
    );
    assert forall|j: int|
        0 <= j < count && fate(displays@, entries@[j], #[trigger] attachments@[j])
            == Fate::Forget && entries@[j].id.0 == id.0 implies j == i by {
        if j < i {
            assert(entries@[j].id != entries@[i].id);
        }
        if i < j {
            assert(entries@[i].id != entries@[j].id);
        }
    }
    assert(fate(displays@, entries@[i], attachments@[i]) == Fate::Forget ==> loaded.1);
    let cards = choose|cards: Seq<Display>|
        {
            &&& ghost_cards(displays@, old(registry).listed(), attachments@, count, cards)
            &&& loaded.0.displays@ == #[trigger] sorted(displays@ + cards, panel_order())
        };
    if fate(displays@, entries@[i], attachments@[i]) == Fate::Show {
        lemma_shown_card(displays@, entries@, attachments@, count, cards, i);
        let k = choose|k: int| 0 <= k < cards.len()
            && is_ghost_of(#[trigger] cards[k], entries@[i]);
        let all = displays@ + cards;
        assert(all[displays@.len() + k] == cards[k]);
        law_the_catalogue_is_in_panel_order(all);
        all.to_multiset_ensures();
        loaded.0.displays@.to_multiset_ensures();
        assert(all.contains(cards[k]));
        assert(all.to_multiset().count(cards[k]) > 0);
        assert(loaded.0.displays@.contains(cards[k]));
        let at = choose|at: int|
            0 <= at < loaded.0.displays@.len() && loaded.0.displays@[at] == cards[k];
        assert(is_ghost_of(loaded.0.displays@[at], entries@[i]));
    }
}

proof fn lemma_kept_records(
    records: Map<u32, Offline>,
    displays: Seq<Display>,
    entries: Seq<Offline>,
    attachments: Seq<Attachment>,
    count: int,
    id: u32,
)
    ensures
        kept_records(records, displays, entries, attachments, count).contains_key(id) <==> (
        records.contains_key(id) && forall|j: int|
            0 <= j < count && fate(displays, entries[j], #[trigger] attachments[j]) == Fate::Forget
                ==> entries[j].id.0 != id),
        kept_records(records, displays, entries, attachments, count).contains_key(id)
            ==> kept_records(records, displays, entries, attachments, count)[id] == records[id],
    decreases count,
{
    if count > 0 {
        lemma_kept_records(records, displays, entries, attachments, count - 1, id);
        let before = kept_records(records, displays, entries, attachments, count - 1);
        let dropped = fate(displays, entries[count - 1], attachments[count - 1]) == Fate::Forget;
        if forall|j: int|
            0 <= j < count - 1 && fate(displays, entries[j], #[trigger] attachments[j])
                == Fate::Forget ==> entries[j].id.0 != id {
            if !(dropped && entries[count - 1].id.0 == id) {
                assert forall|j: int|
                    0 <= j < count && fate(displays, entries[j], #[trigger] attachments[j])
                        == Fate::Forget implies entries[j].id.0 != id by {}
            }
        }
    }
}

proof fn lemma_shown_card(
    displays: Seq<Display>,
    entries: Seq<Offline>,
    attachments: Seq<Attachment>,
    count: int,
    cards: Seq<Display>,
    i: int,
)
    requires
        ghost_cards(displays, entries, attachments, count, cards),
        0 <= i < count,
        fate(displays, entries[i], attachments[i]) == Fate::Show,
    ensures
        exists|k: int| 0 <= k < cards.len() && is_ghost_of(#[trigger] cards[k], entries[i]),
    decreases count,
{
    if fate(displays, entries[count - 1], attachments[count - 1]) == Fate::Show {
        if i == count - 1 {
            assert(is_ghost_of(cards[cards.len() - 1], entries[i]));
        } else {
            lemma_shown_card(displays, entries, attachments, count - 1, cards.drop_last(), i);
            let k = choose|k: int|
                0 <= k < cards.drop_last().len() && is_ghost_of(
                    #[trigger] cards.drop_last()[k],
                    entries[i],
                );
            assert(is_ghost_of(cards[k], entries[i]));
        }
    } else {
        lemma_shown_card(displays, entries, attachments, count - 1, cards, i);
    }
}

/// Every listed display has its card, and the cards stand main first, the
/// built-in ones before the others, and by id.
pub proof fn law_every_display_has_its_card_in_order(
    displays: Vec<Display>,
    registry: &mut Registry,
    attachments: &[Attachment],
    loaded: (DisplayCatalog, bool),
    listed: int,
    i: int,
    j: int,
)
    requires
        old(registry).wf(),
        attachments@.len() == old(registry).listed().len(),
        call_ensures(DisplayCatalog::load, (displays, registry, attachments), loaded),
        0 <= listed < displays@.len(),
        0 <= i < j < loaded.0.displays@.len(),
    ensures
        loaded.0.displays@.contains(displays@[listed]),
        ({
            let left = loaded.0.displays@[i].snapshot;
            let right = loaded.0.displays@[j].snapshot;
            &&& right.is_main ==> left.is_main
            &&& left.is_main == right.is_main && right.is_builtin ==> left.is_builtin
            &&& left.is_main == right.is_main && left.is_builtin == right.is_builtin ==> left.id.0
                <= right.id.0
        }),
{
    let cards = choose|cards: Seq<Display>|
        {
            &&& ghost_cards(
                displays@,
                old(registry).listed(),
                attachments@,
                attachments@.len() as int,
                cards,
            )
            &&& loaded.0.displays@ == #[trigger] sorted(displays@ + cards, panel_order())
        };
    let all = displays@ + cards;
    law_the_catalogue_is_in_panel_order(all);
    assert(panel_order()(loaded.0.displays@[i], loaded.0.displays@[j]));
    all.to_multiset_ensures();
    loaded.0.displays@.to_multiset_ensures();
    assert(all[listed] == displays@[listed]);
    assert(all.contains(displays@[listed]));
    assert(all.to_multiset().count(displays@[listed]) > 0);
}

/// A panel is looked for only where the system does not list its display.
pub proof fn law_only_what_is_not_listed_is_looked_for(
    displays: &[Display],
    entry: Offline,
    asks: bool,
    i: int,
)
    requires
        call_ensures(DisplayCatalog::asks_for, (displays, &entry), asks),
        0 <= i < displays@.len(),
    ensures
        asks ==> displays@[i].snapshot.id != entry.id,
        !asks ==> exists|j: int|
            0 <= j < displays@.len() && (#[trigger] displays@[j]).snapshot.id == entry.id,
{
    let wanted = |display: Display| display.snapshot.id == entry.id;
    lemma_first(displays@, wanted);
    if asks {
        assert(!wanted(displays@[i]));
    } else {
        let at = choose|at: int|
            0 <= at < displays@.len() && #[trigger] displays@[at] == first(displays@, wanted)->0
                && wanted(displays@[at]);
        assert(displays@[at].snapshot.id == entry.id);
    }
}

/// A display is what was loaded of it.
pub proof fn law_a_display_is_what_was_loaded(
    snapshot: DisplaySnapshot,
    modes: Vec<DisplayMode>,
    native: Option<DisplayMode>,
    display: Display,
    id: DisplayId,
    name: &str,
    mode: DisplayMode,
    sharp: bool,
)
    requires
        call_ensures(Display::load, (snapshot, modes, native), display),
        call_ensures(Display::id, (&display,), id),
        call_ensures(Display::name, (&display,), name),
        call_ensures(DisplayMode::is_hidpi, (&mode,), sharp),
    ensures
        display.snapshot == snapshot,
        display.modes@ == modes@,
        display.native == native,
        id == snapshot.id,
        name@ == snapshot.name@,
        sharp == mode.hidpi,
{
}

} // verus!
