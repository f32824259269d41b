//! Which of the queued monitor commands are worth sending.
//!
//! A single read costs at least one 50 ms reply wait and retries up to five
//! times, so a miss approaches half a second, and a slider dragged across a
//! dozen values would queue seconds of traffic. One worker owns the bus, and it
//! drops what a later command makes pointless.

use vstd::prelude::*;

use crate::display::DisplayId;

verus! {

/// A command to a monitor. `R` is wherever the answer to a read goes.
#[derive(Debug)]
pub enum Command<R> {
    Read { display: DisplayId, code: u8, reply: R },
    Write { display: DisplayId, code: u8, value: u16 },
    Rediscover,
}

impl<R> Command<R> {
    /// The control that a command sets, if it sets one.
    pub open spec fn sets(self) -> Option<(DisplayId, u8)> {
        match self {
            Command::Write { display, code, .. } => Some((display, code)),
            _ => None,
        }
    }
}

/// Command `i` is a write that a later write to the same display and code makes
/// redundant.
pub open spec fn superseded<R>(batch: Seq<Command<R>>, i: int) -> bool {
    batch[i].sets() is Some && exists|j: int|
        i < j < batch.len() && (#[trigger] batch[j]).sets() == batch[i].sets()
}

/// What is left of the commands from `from` on, in their order.
pub open spec fn survivors<R>(batch: Seq<Command<R>>, from: int) -> Seq<Command<R>>
    decreases batch.len() - from,
{
    if from >= batch.len() {
        Seq::empty()
    } else if superseded(batch, from) {
        survivors(batch, from + 1)
    } else {
        seq![batch[from]] + survivors(batch, from + 1)
    }
}

/// Drops every write that a later write to the same display and code makes
/// redundant, leaving all other commands in their original order.
pub fn collapse<R>(batch: Vec<Command<R>>) -> (kept: Vec<Command<R>>)
    ensures
        kept@ == survivors(batch@, 0),
{
    let ghost all = batch@;
    let mut left: Vec<Command<R>> = batch;
    let mut seen: Vec<(DisplayId, u8)> = Vec::new();
    let mut backwards: Vec<Command<R>> = Vec::new();
    assert(backwards@.reverse() =~= survivors(all, all.len() as int));
    while left.len() > 0
        invariant
            left@.len() <= all.len(),
            left@ == all.take(left@.len() as int),
            backwards@.reverse() == survivors(all, left@.len() as int),
            forall|k: int|
                0 <= k < seen@.len() ==> exists|j: int|
                    left@.len() <= j < all.len() && (#[trigger] all[j]).sets() == Some(
                        #[trigger] seen@[k],
                    ),
            forall|j: int|
                left@.len() <= j < all.len() && (#[trigger] all[j]).sets() is Some
                    ==> seen@.contains(all[j].sets()->0),
        decreases left@.len(),
    {
        let ghost at = left@.len() - 1;
        let ghost seen_before = seen@;
        match left.pop() {
            None => {},
            Some(command) => {
                assert(command == all[at]);
                assert(left@ == all.take(at));
                let mut redundant: bool = false;
                match &command {
                    Command::Write { display, code, .. } => {
                        let mut k: usize = 0;
                        while k < seen.len() && !redundant
                            invariant
                                k <= seen@.len(),
                                command.sets() == Some((*display, *code)),
                                redundant ==> seen@.contains((*display, *code)),
                                !redundant ==> forall|m: int|
                                    0 <= m < k ==> (#[trigger] seen@[m]) != (*display, *code),
                            decreases seen@.len() - k,
                        {
                            if seen[k].0.0 == display.0 && seen[k].1 == *code {
                                assert(seen@[k as int] == (*display, *code));
                                redundant = true;
                            }
                            k += 1;
                        }
                        if !redundant {
                            assert(!seen@.contains((*display, *code)));
                            seen.push((*display, *code));
                            assert(seen@[seen@.len() - 1] == (*display, *code));
                        }
                    },
                    _ => {},
                }
                proof {
                    if redundant {
                        let k = choose|k: int|
                            0 <= k < seen_before.len() && seen_before[k] == command.sets()->0;
                        let j = choose|j: int|
                            at + 1 <= j < all.len() && (#[trigger] all[j]).sets() == Some(
                                seen_before[k],
                            );
                        assert(all[j].sets() == all[at].sets());
                        assert(superseded(all, at));
                    } else {
                        if superseded(all, at) {
                            let j = choose|j: int|
                                at < j < all.len() && (#[trigger] all[j]).sets() == all[at].sets();
                            assert(seen_before.contains(all[j].sets()->0));
                            assert(false);
                        }
                    }
                    assert forall|j: int|
                        at <= j < all.len() && (
                        #[trigger] all[j]).sets() is Some implies seen@.contains(
                        all[j].sets()->0,
                    ) by {
                        if j > at {
                            assert(seen_before.contains(all[j].sets()->0));
                            let k = choose|k: int|
                                0 <= k < seen_before.len() && seen_before[k] == all[j].sets()->0;
                            assert(seen@[k] == all[j].sets()->0);
                        }
                    }
                    assert forall|k: int| 0 <= k < seen@.len() implies exists|j: int|
                        at <= j < all.len() && (#[trigger] all[j]).sets() == Some(
                            #[trigger] seen@[k],
                        ) by {
                        if k < seen_before.len() {
                            assert(seen_before[k] == seen@[k]);
                            let j = choose|j: int|
                                at + 1 <= j < all.len() && (#[trigger] all[j]).sets() == Some(
                                    seen_before[k],
                                );
                            assert(all[j].sets() == Some(seen@[k]));
                        } else {
                            assert(all[at].sets() == Some(seen@[k]));
                        }
                    }
                }
                if !redundant {
                    let ghost before = backwards@;
                    backwards.push(command);
                    assert(backwards@.reverse() =~= seq![command] + before.reverse());
                }
            },
        }
    }
    let ghost kept_all = backwards@.reverse();
    let mut kept: Vec<Command<R>> = Vec::new();
    while backwards.len() > 0
        invariant
            backwards@.len() + kept@.len() == kept_all.len(),
            kept@ == kept_all.take(kept@.len() as int),
            backwards@.reverse() == kept_all.skip(kept@.len() as int),
        decreases backwards@.len(),
    {
        let ghost before = backwards@;
        match backwards.pop() {
            None => {},
            Some(command) => {
                assert(before.reverse()[0] == command);
                assert(kept_all.skip(kept@.len() as int)[0] == command);
                assert(backwards@.reverse() =~= before.reverse().skip(1));
                kept.push(command);
                assert(kept@ =~= kept_all.take(kept@.len() as int));
                assert(backwards@.reverse() =~= kept_all.skip(kept@.len() as int));
            },
        }
    }
    kept
}

/// The link to a display, if it answered.
pub fn find(links: &[DisplayId], display: DisplayId) -> (index: Option<usize>)
    ensures
        match index {
            Some(index) => index < links@.len() && links@[index as int] == display && forall|i: int|
                0 <= i < index ==> (#[trigger] links@[i]) != display,
            None => !links@.contains(display),
        },
{
    let mut i: usize = 0;
    while i < links.len()
        invariant
            i <= links@.len(),
            forall|j: int| 0 <= j < i ==> (#[trigger] links@[j]) != display,
        decreases links@.len() - i,
    {
        if links[i].0 == display.0 {
            return Some(i);
        }
        i += 1;
    }
    None
}

proof fn lemma_survivors<R>(batch: Seq<Command<R>>, from: int, command: Command<R>)
    requires
        0 <= from,
    ensures
        survivors(batch, from).contains(command) <==> exists|i: int|
            from <= i < batch.len() && (#[trigger] batch[i]) == command && !superseded(batch, i),
    decreases batch.len() - from,
{
    if from < batch.len() {
        lemma_survivors(batch, from + 1, command);
        let rest = survivors(batch, from + 1);
        let all = survivors(batch, from);
        if all.contains(command) {
            let k = choose|k: int| 0 <= k < all.len() && all[k] == command;
            if superseded(batch, from) {
                assert(rest.contains(command));
            } else if k == 0 {
                assert(batch[from] == command && !superseded(batch, from));
            } else {
                assert(rest[k - 1] == command);
            }
        }
        if exists|i: int|
            from <= i < batch.len() && (#[trigger] batch[i]) == command && !superseded(batch, i) {
            let i = choose|i: int|
                from <= i < batch.len() && (#[trigger] batch[i]) == command && !superseded(
                    batch,
                    i,
                );
            if i == from {
                assert(all[0] == command);
            } else {
                let k = choose|k: int| 0 <= k < rest.len() && rest[k] == command;
                if superseded(batch, from) {
                    assert(all[k] == command);
                } else {
                    assert(all[k + 1] == command);
                }
            }
        }
    }
}

/// The value a control ends at is not lost: the last write to it survives, and
/// so does everything that is not a write.
pub proof fn law_the_last_write_and_every_other_command_survive<R>(
    batch: Seq<Command<R>>,
    i: int,
)
    requires
        0 <= i < batch.len(),
        batch[i].sets() is None || forall|j: int|
            i < j < batch.len() ==> (#[trigger] batch[j]).sets() != batch[i].sets(),
    ensures
        survivors(batch, 0).contains(batch[i]),
{
    lemma_survivors(batch, 0, batch[i]);
    assert(!superseded(batch, i));
}

/// What goes before a batch is dropped exactly where it writes what the batch
/// writes again, to the same control of the same display; otherwise it goes first,
/// and the batch goes as it would have gone alone.
pub proof fn law_a_write_is_dropped_only_for_a_later_one<R>(
    command: Command<R>,
    batch: Vec<Command<R>>,
    longer: Vec<Command<R>>,
    kept: Vec<Command<R>>,
    then: Vec<Command<R>>,
)
    requires
        longer@ == seq![command] + batch@,
        call_ensures(collapse::<R>, (batch,), kept),
        call_ensures(collapse::<R>, (longer,), then),
    ensures
        batch@.len() == 0 ==> kept@.len() == 0,
        ({
            let written_again = command matches Command::Write { display, code, .. } && exists|
                j: int,
            |
                0 <= j < batch@.len() && (#[trigger] batch@[j]) is Write && batch@[j]->Write_display
                    == display && batch@[j]->Write_code == code;
            then@ == (if written_again {
                kept@
            } else {
                seq![command] + kept@
            })
        }),
{
    lemma_survivors_shift(command, batch@, 0);
    assert(longer@[0] == command);
    if command is Write {
        if superseded(longer@, 0) {
            let j = choose|j: int|
                0 < j < longer@.len() && (#[trigger] longer@[j]).sets() == command.sets();
            assert(longer@[j] == batch@[j - 1]);
            assert(batch@[j - 1] is Write);
        }
        if exists|j: int|
            0 <= j < batch@.len() && (#[trigger] batch@[j]) is Write && batch@[j]->Write_display
                == command->Write_display && batch@[j]->Write_code == command->Write_code {
            let j = choose|j: int|
                0 <= j < batch@.len() && (#[trigger] batch@[j]) is Write && batch@[j]->Write_display
                    == command->Write_display && batch@[j]->Write_code == command->Write_code;
            assert(longer@[j + 1] == batch@[j]);
            assert(longer@[j + 1].sets() == command.sets());
            assert(superseded(longer@, 0));
        }
    }
}

proof fn lemma_survivors_shift<R>(command: Command<R>, batch: Seq<Command<R>>, from: int)
    requires
        0 <= from,
    ensures
        survivors(seq![command] + batch, from + 1) == survivors(batch, from),
    decreases batch.len() - from,
{
    let longer = seq![command] + batch;
    if from < batch.len() {
        lemma_survivors_shift(command, batch, from + 1);
        assert(longer[from + 1] == batch[from]);
        if superseded(batch, from) {
            let j = choose|j: int|
                from < j < batch.len() && (#[trigger] batch[j]).sets() == batch[from].sets();
            assert(longer[j + 1].sets() == longer[from + 1].sets());
        }
        if superseded(longer, from + 1) {
            let j = choose|j: int|
                from + 1 < j < longer.len() && (#[trigger] longer[j]).sets() == longer[from
                    + 1].sets();
            assert(batch[j - 1].sets() == batch[from].sets());
        }
    }
}

/// A link is the display's own, the first one of it, and is missing only where
/// the display has none.
pub proof fn law_a_link_is_the_display_s_own(
    links: &[DisplayId],
    display: DisplayId,
    index: Option<usize>,
    i: int,
)
    requires
        call_ensures(find, (links, display), index),
    ensures
        index matches Some(at) ==> at < links@.len() && links@[at as int] == display && (0 <= i
            < at ==> links@[i] != display),
        index is None && 0 <= i < links@.len() ==> links@[i] != display,
{
}

} // verus!
