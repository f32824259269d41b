//! Displays this app has taken out of the desktop layout.
//!
//! A hard disconnect removes the display from the device tree, so the system
//! stops listing it, and with it goes the card whose toggle would bring it
//! back. Every disconnect is recorded here, and the record outlives the
//! process: quitting while a display is off must not leave the only way back a
//! physical replug.

use vstd::prelude::*;

use crate::display::{Display, DisplayId, DisplaySnapshot};
use crate::text::{
    all_digits, bare_line, characters, decimal, digits, is_digit, law_a_written_number_reads_back,
    lemma_one_piece, lemma_pieces_of_two, lines, lines_of, parse_u32, parsed_u32, pieces, same,
    shown, split, text_of,
};

verus! {

/// Which mechanism takes a display out of the layout.
#[derive(Clone, Copy, Debug, PartialEq, Eq, Structural)]
pub enum Strategy {
    Mirror,
    HardDisconnect,
}

/// One display that was switched off, in enough detail to show a card for it
/// and to recognise it when it comes back under a different id.
#[derive(Debug)]
pub struct Offline {
    pub id: DisplayId,
    pub name: String,
    pub is_builtin: bool,
    pub vendor: u32,
    pub model: u32,
    pub serial: u32,
    pub unit: u32,
    /// Which mechanism took it out, so the reverse can match.
    pub strategy: Strategy,
}

impl Clone for Offline {
    fn clone(&self) -> (entry: Self)
        ensures
            entry == *self,
    {
        Offline {
            id: self.id,
            name: self.name.clone(),
            is_builtin: self.is_builtin,
            vendor: self.vendor,
            model: self.model,
            serial: self.serial,
            unit: self.unit,
            strategy: self.strategy,
        }
    }
}

pub open spec fn strategy_word(strategy: Strategy) -> Seq<char> {
    match strategy {
        Strategy::Mirror => "mirror"@,
        Strategy::HardDisconnect => "hard"@,
    }
}

pub open spec fn flag_digit(flag: bool) -> Seq<char> {
    if flag {
        digits(1)
    } else {
        digits(0)
    }
}

/// The fields of a line hold a record.
pub open spec fn readable(fields: Seq<Seq<char>>) -> bool {
    &&& fields.len() >= 8
    &&& parsed_u32(fields[0]) is Some
    &&& parsed_u32(fields[1]) is Some
    &&& parsed_u32(fields[2]) is Some
    &&& parsed_u32(fields[3]) is Some
    &&& parsed_u32(fields[4]) is Some
    &&& fields[6] == "hard"@ || fields[6] == "mirror"@
}

impl Offline {
    /// The fields of a line hold this record.
    pub open spec fn read_from(self, fields: Seq<Seq<char>>) -> bool {
        &&& parsed_u32(fields[0]) == Some(self.id.0)
        &&& parsed_u32(fields[1]) == Some(self.vendor)
        &&& parsed_u32(fields[2]) == Some(self.model)
        &&& parsed_u32(fields[3]) == Some(self.serial)
        &&& parsed_u32(fields[4]) == Some(self.unit)
        &&& self.is_builtin == (fields[5] == "1"@)
        &&& self.strategy == (if fields[6] == "hard"@ {
            Strategy::HardDisconnect
        } else {
            Strategy::Mirror
        })
        &&& self.name@ == fields[7]
    }

    /// The record as a line: its fields with tabs between them. The name is
    /// last so it can contain anything but a tab.
    pub open spec fn line(self) -> Seq<char> {
        digits(self.id.0 as nat).push('\t') + (digits(self.vendor as nat).push('\t') + (digits(
            self.model as nat,
        ).push('\t') + (digits(self.serial as nat).push('\t') + (digits(self.unit as nat).push(
            '\t',
        ) + (flag_digit(self.is_builtin).push('\t') + (strategy_word(self.strategy).push('\t')
            + self.name@))))))
    }

    /// Same panel, different session: ids are handed out afresh on every boot,
    /// so identity is the hardware, not the number. A panel that reports no
    /// hardware identity is told by its unit.
    pub open spec fn is_panel(self, snapshot: DisplaySnapshot) -> bool {
        if self.vendor != 0 || self.model != 0 || self.serial != 0 {
            self.vendor == snapshot.vendor && self.model == snapshot.model && self.serial
                == snapshot.serial
        } else {
            self.is_builtin == snapshot.is_builtin && self.unit == snapshot.unit
        }
    }

    pub fn from_display(display: &Display, strategy: Strategy) -> (entry: Self)
        ensures
            entry == (Offline {
                id: display.snapshot.id,
                name: display.snapshot.name,
                is_builtin: display.snapshot.is_builtin,
                vendor: display.snapshot.vendor,
                model: display.snapshot.model,
                serial: display.snapshot.serial,
                unit: display.snapshot.unit,
                strategy,
            }),
    {
        let snapshot = &display.snapshot;
        Offline {
            id: snapshot.id,
            name: snapshot.name.clone(),
            is_builtin: snapshot.is_builtin,
            vendor: snapshot.vendor,
            model: snapshot.model,
            serial: snapshot.serial,
            unit: snapshot.unit,
            strategy,
        }
    }

    pub fn matches(&self, snapshot: &DisplaySnapshot) -> (matches: bool)
        ensures
            matches == self.is_panel(*snapshot),
    {
        if self.vendor != 0 || self.model != 0 || self.serial != 0 {
            return self.vendor == snapshot.vendor && self.model == snapshot.model && self.serial
                == snapshot.serial;
        }
        self.is_builtin == snapshot.is_builtin && self.unit == snapshot.unit
    }

    /// A card for a display the system no longer reports, built from what was
    /// recorded before it went away.
    pub fn ghost(&self) -> (display: Display)
        ensures
            display.modes@ == Seq::<crate::display::DisplayMode>::empty(),
            display.native is None,
            display.snapshot == (DisplaySnapshot {
                id: self.id,
                name: self.name,
                is_builtin: self.is_builtin,
                is_main: false,
                is_active: false,
                is_online: false,
                vendor: self.vendor,
                model: self.model,
                serial: self.serial,
                unit: self.unit,
                origin: (0, 0),
                size: (0, 0),
                mirrors: None,
                current_mode: None,
            }),
    {
        Display {
            snapshot: DisplaySnapshot {
                id: self.id,
                name: self.name.clone(),
                is_builtin: self.is_builtin,
                is_main: false,
                is_active: false,
                is_online: false,
                vendor: self.vendor,
                model: self.model,
                serial: self.serial,
                unit: self.unit,
                origin: (0, 0),
                size: (0, 0),
                mirrors: None,
                current_mode: None,
            },
            modes: Vec::new(),
            native: None,
        }
    }

    pub fn to_line(&self) -> (line: String)
        ensures
            line@ == self.line(),
    {
        let strategy = match self.strategy {
            Strategy::Mirror => "mirror",
            Strategy::HardDisconnect => "hard",
        };
        let mut line = decimal(self.id.0 as u64);
        line.push('\t');
        line.append(decimal(self.vendor as u64).as_str());
        line.push('\t');
        line.append(decimal(self.model as u64).as_str());
        line.push('\t');
        line.append(decimal(self.serial as u64).as_str());
        line.push('\t');
        line.append(decimal(self.unit as u64).as_str());
        line.push('\t');
        line.append(decimal(if self.is_builtin {
            1
        } else {
            0
        }).as_str());
        line.push('\t');
        line.append(strategy);
        line.push('\t');
        line.append(self.name.as_str());
        assert(line@ =~= self.line());
        line
    }

    pub fn from_line(line: &str) -> (entry: Option<Self>)
        ensures
            match entry {
                Some(entry) => readable(pieces(line@, '\t')) && entry.read_from(
                    pieces(line@, '\t'),
                ),
                None => !readable(pieces(line@, '\t')),
            },
    {
        let chars = characters(line);
        Self::from_characters(&chars)
    }

    fn from_characters(line: &[char]) -> (entry: Option<Self>)
        ensures
            match entry {
                Some(entry) => readable(pieces(line@, '\t')) && entry.read_from(
                    pieces(line@, '\t'),
                ),
                None => !readable(pieces(line@, '\t')),
            },
    {
        let fields = split(line, '\t');
        let ghost all = pieces(line@, '\t');
        assert(fields@.len() == all.len());
        assert(forall|i: int| 0 <= i < fields@.len() ==> (#[trigger] fields@[i])@ == shown(
            fields@,
        )[i]);
        if fields.len() < 8 {
            return None;
        }
        let id: u32 = match parse_u32(&fields[0]) {
            Some(value) => value,
            None => {
                return None;
            },
        };
        let vendor: u32 = match parse_u32(&fields[1]) {
            Some(value) => value,
            None => {
                return None;
            },
        };
        let model: u32 = match parse_u32(&fields[2]) {
            Some(value) => value,
            None => {
                return None;
            },
        };
        let serial: u32 = match parse_u32(&fields[3]) {
            Some(value) => value,
            None => {
                return None;
            },
        };
        let unit: u32 = match parse_u32(&fields[4]) {
            Some(value) => value,
            None => {
                return None;
            },
        };
        let is_builtin: bool = same(text_of(&fields[5]).as_str(), "1");
        let word = text_of(&fields[6]);
        let strategy = if same(word.as_str(), "hard") {
            Strategy::HardDisconnect
        } else if same(word.as_str(), "mirror") {
            Strategy::Mirror
        } else {
            return None;
        };
        Some(
            Offline {
                id: DisplayId(id),
                name: text_of(&fields[7]),
                is_builtin,
                vendor,
                model,
                serial,
                unit,
                strategy,
            },
        )
    }
}

proof fn lemma_digits_hold_no(value: nat, other: char)
    requires
        value <= u32::MAX,
        !is_digit(other),
    ensures
        !digits(value).contains(other),
{
    law_a_written_number_reads_back(value as u32);
    assert(all_digits(digits(value)));
}

proof fn lemma_words()
    ensures
        !"mirror"@.contains('\t'),
        !"hard"@.contains('\t'),
        !"mirror"@.contains('\n'),
        !"hard"@.contains('\n'),
        "mirror"@ != "hard"@,
        "1"@ == digits(1),
        "1"@ != digits(0),
{
    reveal_strlit("mirror");
    reveal_strlit("hard");
    reveal_strlit("1");
    assert("hard"@.len() != "mirror"@.len());
    assert("1"@ =~= digits(1));
    assert(digits(0)[0] == '0');
    assert("1"@[0] == '1');
}

/// A record that is written as a line and read back is the same record, as long
/// as its name holds no tab.
pub proof fn law_a_record_round_trips_through_a_line(entry: Offline)
    requires
        !entry.name@.contains('\t'),
    ensures
        readable(pieces(entry.line(), '\t')),
        entry.read_from(pieces(entry.line(), '\t')),
        pieces(entry.line(), '\t').len() == 8,
{
    let tab = '\t';
    let id = digits(entry.id.0 as nat);
    let vendor = digits(entry.vendor as nat);
    let model = digits(entry.model as nat);
    let serial = digits(entry.serial as nat);
    let unit = digits(entry.unit as nat);
    let flag = flag_digit(entry.is_builtin);
    let word = strategy_word(entry.strategy);
    lemma_words();
    lemma_digits_hold_no(entry.id.0 as nat, tab);
    lemma_digits_hold_no(entry.vendor as nat, tab);
    lemma_digits_hold_no(entry.model as nat, tab);
    lemma_digits_hold_no(entry.serial as nat, tab);
    lemma_digits_hold_no(entry.unit as nat, tab);
    lemma_digits_hold_no(0, tab);
    lemma_digits_hold_no(1, tab);
    law_a_written_number_reads_back(entry.id.0);
    law_a_written_number_reads_back(entry.vendor);
    law_a_written_number_reads_back(entry.model);
    law_a_written_number_reads_back(entry.serial);
    law_a_written_number_reads_back(entry.unit);
    let tail7 = word.push(tab) + entry.name@;
    let tail6 = flag.push(tab) + tail7;
    let tail5 = unit.push(tab) + tail6;
    let tail4 = serial.push(tab) + tail5;
    let tail3 = model.push(tab) + tail4;
    let tail2 = vendor.push(tab) + tail3;
    lemma_pieces_of_two(id, tail2, tab);
    lemma_pieces_of_two(vendor, tail3, tab);
    lemma_pieces_of_two(model, tail4, tab);
    lemma_pieces_of_two(serial, tail5, tab);
    lemma_pieces_of_two(unit, tail6, tab);
    lemma_pieces_of_two(flag, tail7, tab);
    lemma_pieces_of_two(word, entry.name@, tab);
    lemma_one_piece(id, tab);
    lemma_one_piece(vendor, tab);
    lemma_one_piece(model, tab);
    lemma_one_piece(serial, tab);
    lemma_one_piece(unit, tab);
    lemma_one_piece(flag, tab);
    lemma_one_piece(word, tab);
    lemma_one_piece(entry.name@, tab);
    assert(pieces(entry.line(), tab) =~= seq![
        id,
        vendor,
        model,
        serial,
        unit,
        flag,
        word,
        entry.name@,
    ]);
}

// --- the file ---------------------------------------------------------------

/// The text that holds some records: a line each.
pub open spec fn written(entries: Seq<Offline>) -> Seq<char>
    decreases entries.len(),
{
    if entries.len() == 0 {
        Seq::empty()
    } else {
        written(entries.drop_last()) + entries.last().line().push('\n')
    }
}

/// The records that some lines hold, in order; a line that holds none is passed
/// over.
pub open spec fn read_lines(lines: Seq<Seq<char>>, entries: Seq<Offline>) -> bool
    decreases lines.len(),
{
    if lines.len() == 0 {
        entries.len() == 0
    } else if readable(pieces(lines.last(), '\t')) {
        &&& entries.len() > 0
        &&& entries.last().read_from(pieces(lines.last(), '\t'))
        &&& read_lines(lines.drop_last(), entries.drop_last())
    } else {
        read_lines(lines.drop_last(), entries)
    }
}

pub fn write_file(entries: &[Offline]) -> (text: String)
    ensures
        text@ == written(entries@),
{
    let mut text = String::new();
    let mut i: usize = 0;
    while i < entries.len()
        invariant
            i <= entries@.len(),
            text@ == written(entries@.take(i as int)),
        decreases entries@.len() - i,
    {
        let ghost before = text@;
        text.append(entries[i].to_line().as_str());
        text.push('\n');
        proof {
            assert(entries@.take(i + 1).drop_last() == entries@.take(i as int));
            assert(text@ =~= before + entries@[i as int].line().push('\n'));
        }
        i += 1;
    }
    assert(entries@.take(i as int) == entries@);
    text
}

pub fn read_file(text: &str) -> (entries: Vec<Offline>)
    ensures
        read_lines(lines_of(text@), entries@),
{
    let chars = characters(text);
    let all = lines(&chars);
    let ghost shown_lines = shown(all@);
    let mut entries: Vec<Offline> = Vec::new();
    let mut i: usize = 0;
    while i < all.len()
        invariant
            i <= all@.len(),
            shown_lines == shown(all@),
            read_lines(shown_lines.take(i as int), entries@),
        decreases all@.len() - i,
    {
        proof {
            assert(shown_lines.take(i + 1).drop_last() == shown_lines.take(i as int));
            assert(shown_lines.take(i + 1).last() == all@[i as int]@);
        }
        let ghost before = entries@;
        match Offline::from_characters(&all[i]) {
            Some(entry) => {
                entries.push(entry);
                assert(entries@.drop_last() == before);
            },
            None => {},
        }
        i += 1;
    }
    assert(shown_lines.take(i as int) == shown_lines);
    entries
}

/// A name that survives being written to the file: no tab and no line feed in
/// it, and no carriage return at its end.
pub open spec fn plain_name(name: Seq<char>) -> bool {
    &&& !name.contains('\t')
    &&& !name.contains('\n')
    &&& name.len() > 0 ==> name.last() != '\r'
}

proof fn lemma_concat_holds_no(left: Seq<char>, right: Seq<char>, ch: char)
    requires
        !left.contains(ch),
        !right.contains(ch),
    ensures
        !(left + right).contains(ch),
{
    if (left + right).contains(ch) {
        let i = choose|i: int| 0 <= i < (left + right).len() && (left + right)[i] == ch;
        if i < left.len() {
            assert(left[i] == ch);
        } else {
            assert(right[i - left.len()] == ch);
        }
    }
}

proof fn lemma_field_holds_no(field: Seq<char>, rest: Seq<char>, ch: char)
    requires
        !field.contains(ch),
        !rest.contains(ch),
        ch != '\t',
    ensures
        !(field.push('\t') + rest).contains(ch),
{
    assert(!field.push('\t').contains(ch)) by {
        if field.push('\t').contains(ch) {
            let i = choose|i: int|
                0 <= i < field.push('\t').len() && field.push('\t')[i] == ch;
            if i < field.len() {
                assert(field[i] == ch);
            }
        }
    }
    lemma_concat_holds_no(field.push('\t'), rest, ch);
}

proof fn lemma_line_is_one(entry: Offline)
    requires
        plain_name(entry.name@),
    ensures
        !entry.line().contains('\n'),
        entry.line().len() > 0,
        bare_line(entry.line()) == entry.line(),
{
    let feed = '\n';
    lemma_words();
    lemma_digits_hold_no(entry.id.0 as nat, feed);
    lemma_digits_hold_no(entry.vendor as nat, feed);
    lemma_digits_hold_no(entry.model as nat, feed);
    lemma_digits_hold_no(entry.serial as nat, feed);
    lemma_digits_hold_no(entry.unit as nat, feed);
    lemma_digits_hold_no(0, feed);
    lemma_digits_hold_no(1, feed);
    let tail7 = strategy_word(entry.strategy).push('\t') + entry.name@;
    let tail6 = flag_digit(entry.is_builtin).push('\t') + tail7;
    let tail5 = digits(entry.unit as nat).push('\t') + tail6;
    let tail4 = digits(entry.serial as nat).push('\t') + tail5;
    let tail3 = digits(entry.model as nat).push('\t') + tail4;
    let tail2 = digits(entry.vendor as nat).push('\t') + tail3;
    lemma_field_holds_no(strategy_word(entry.strategy), entry.name@, feed);
    lemma_field_holds_no(flag_digit(entry.is_builtin), tail7, feed);
    lemma_field_holds_no(digits(entry.unit as nat), tail6, feed);
    lemma_field_holds_no(digits(entry.serial as nat), tail5, feed);
    lemma_field_holds_no(digits(entry.model as nat), tail4, feed);
    lemma_field_holds_no(digits(entry.vendor as nat), tail3, feed);
    lemma_field_holds_no(digits(entry.id.0 as nat), tail2, feed);
    let line = entry.line();
    assert(tail7.last() == (if entry.name@.len() > 0 {
        entry.name@.last()
    } else {
        '\t'
    }));
    assert(line.last() == tail2.last());
    assert(tail2.last() == tail3.last());
    assert(tail3.last() == tail4.last());
    assert(tail4.last() == tail5.last());
    assert(tail5.last() == tail6.last());
    assert(tail6.last() == tail7.last());
}

/// Cutting a text that ends in `tail`, which holds no separator, only lengthens
/// the last piece of what came before.
proof fn lemma_pieces_append(text: Seq<char>, tail: Seq<char>, separator: char)
    requires
        !tail.contains(separator),
    ensures
        pieces(text, separator).len() > 0,
        pieces(text + tail, separator) == pieces(text, separator).drop_last().push(
            pieces(text, separator).last() + tail,
        ),
    decreases text.len() + tail.len(),
{
    if tail.len() == 0 {
        if text.len() > 0 {
            lemma_pieces_append(text.drop_last(), tail, separator);
        }
        assert(text + tail == text);
        assert(pieces(text, separator).last() + tail =~= pieces(text, separator).last());
        assert(pieces(text + tail, separator) =~= pieces(text, separator).drop_last().push(
            pieces(text, separator).last() + tail,
        ));
    } else {
        let rest = tail.drop_last();
        assert(!rest.contains(separator)) by {
            if rest.contains(separator) {
                let i = choose|i: int| 0 <= i < rest.len() && rest[i] == separator;
                assert(tail[i] == separator);
            }
        }
        lemma_pieces_append(text, rest, separator);
        assert((text + tail).drop_last() == text + rest);
        assert((text + tail).last() == tail[tail.len() - 1]);
        let before = pieces(text + rest, separator);
        assert(before.last() + seq![tail.last()] =~= pieces(text, separator).last() + tail);
        assert(before.last().push(tail.last()) =~= pieces(text, separator).last() + tail);
        assert(pieces(text + tail, separator) =~= pieces(text, separator).drop_last().push(
            pieces(text, separator).last() + tail,
        ));
    }
}

proof fn lemma_written_pieces(entries: Seq<Offline>)
    requires
        forall|i: int| 0 <= i < entries.len() ==> plain_name((#[trigger] entries[i]).name@),
    ensures
        pieces(written(entries), '\n') == entries.map_values(|entry: Offline| entry.line()).push(
            Seq::<char>::empty(),
        ),
    decreases entries.len(),
{
    let feed = '\n';
    if entries.len() == 0 {
        assert(pieces(written(entries), feed) =~= entries.map_values(
            |entry: Offline| entry.line(),
        ).push(Seq::<char>::empty()));
    } else {
        let rest = entries.drop_last();
        let last = entries.last();
        assert(plain_name(entries[entries.len() - 1].name@));
        assert forall|i: int| 0 <= i < rest.len() implies plain_name(
            (#[trigger] rest[i]).name@,
        ) by {
            assert(rest[i] == entries[i]);
        }
        lemma_written_pieces(rest);
        lemma_line_is_one(last);
        let before = written(rest);
        let line = last.line();
        lemma_pieces_append(before, line, feed);
        assert(Seq::<char>::empty() + line =~= line);
        let whole = before + line.push(feed);
        assert(whole == (before + line).push(feed));
        assert(whole.drop_last() == before + line);
        assert(pieces(whole, feed) =~= entries.map_values(|entry: Offline| entry.line()).push(
            Seq::<char>::empty(),
        ));
    }
}

proof fn lemma_written_reads(entries: Seq<Offline>)
    requires
        forall|i: int| 0 <= i < entries.len() ==> plain_name((#[trigger] entries[i]).name@),
    ensures
        read_lines(entries.map_values(|entry: Offline| entry.line()), entries),
    decreases entries.len(),
{
    if entries.len() > 0 {
        let rest = entries.drop_last();
        assert(plain_name(entries[entries.len() - 1].name@));
        assert forall|i: int| 0 <= i < rest.len() implies plain_name(
            (#[trigger] rest[i]).name@,
        ) by {
            assert(rest[i] == entries[i]);
        }
        lemma_written_reads(rest);
        law_a_record_round_trips_through_a_line(entries.last());
        let lines = entries.map_values(|entry: Offline| entry.line());
        assert(lines.drop_last() =~= rest.map_values(|entry: Offline| entry.line()));
        assert(lines.last() == entries.last().line());
    }
}

/// What is written to the file is what is read from it: every record whose name
/// is plain survives the end of the process, in order.
pub proof fn law_the_file_gives_back_every_record(entries: Seq<Offline>)
    requires
        forall|i: int| 0 <= i < entries.len() ==> plain_name((#[trigger] entries[i]).name@),
    ensures
        read_lines(lines_of(written(entries)), entries),
{
    lemma_written_pieces(entries);
    lemma_written_reads(entries);
    let lines = entries.map_values(|entry: Offline| entry.line());
    assert forall|i: int| 0 <= i < entries.len() implies bare_line(
        (#[trigger] entries[i]).line(),
    ) == entries[i].line() by {
        lemma_line_is_one(entries[i]);
    }
    let parts = pieces(written(entries), '\n');
    assert(parts.drop_last() =~= lines);
    assert(lines.map_values(|line: Seq<char>| bare_line(line)) =~= lines);
    assert(lines_of(written(entries)) =~= lines);
}

// --- the registry -----------------------------------------------------------

/// No two records are of one display.
pub open spec fn unique_ids(entries: Seq<Offline>) -> bool {
    forall|i: int, j: int|
        0 <= i < j < entries.len() ==> (#[trigger] entries[i]).id.0 != (#[trigger] entries[j]).id.0
}

/// Some records by the displays they are of; the last one counts where there
/// are several of one display.
pub open spec fn by_id(entries: Seq<Offline>) -> Map<u32, Offline>
    decreases entries.len(),
{
    if entries.len() == 0 {
        Map::empty()
    } else {
        by_id(entries.drop_last()).insert(entries.last().id.0, entries.last())
    }
}

proof fn lemma_by_id(entries: Seq<Offline>)
    requires
        unique_ids(entries),
    ensures
        forall|id: u32| #[trigger] by_id(entries).contains_key(id) <==> exists|i: int|
            0 <= i < entries.len() && (#[trigger] entries[i]).id.0 == id,
        forall|i: int|
            0 <= i < entries.len() ==> by_id(entries)[(#[trigger] entries[i]).id.0] == entries[i],
    decreases entries.len(),
{
    if entries.len() > 0 {
        let rest = entries.drop_last();
        let last = entries.last();
        assert forall|i: int, j: int| 0 <= i < j < rest.len() implies (#[trigger] rest[i]).id.0
            != (#[trigger] rest[j]).id.0 by {
            assert(entries[i].id.0 != entries[j].id.0);
        }
        lemma_by_id(rest);
        assert forall|id: u32| #[trigger] by_id(entries).contains_key(id) <==> exists|i: int|
            0 <= i < entries.len() && (#[trigger] entries[i]).id.0 == id by {
            if by_id(entries).contains_key(id) {
                if id == last.id.0 {
                    assert(entries[entries.len() - 1].id.0 == id);
                } else {
                    assert(by_id(rest).contains_key(id));
                    let i = choose|i: int| 0 <= i < rest.len() && (#[trigger] rest[i]).id.0 == id;
                    assert(entries[i].id.0 == id);
                }
            }
            if exists|i: int| 0 <= i < entries.len() && (#[trigger] entries[i]).id.0 == id {
                let i = choose|i: int|
                    0 <= i < entries.len() && (#[trigger] entries[i]).id.0 == id;
                if i < rest.len() {
                    assert(rest[i].id.0 == id);
                    assert(by_id(rest).contains_key(id));
                }
            }
        }
        assert forall|i: int| 0 <= i < entries.len() implies by_id(entries)[(
        #[trigger] entries[i]).id.0] == entries[i] by {
            if i < rest.len() {
                assert(rest[i] == entries[i]);
                assert(entries[i].id.0 != entries[entries.len() - 1].id.0);
            }
        }
    }
}

/// The displays that are switched off.
#[derive(Debug)]
pub struct Registry {
    entries: Vec<Offline>,
}

impl Registry {
    /// No two records are of one display.
    pub closed spec fn wf(self) -> bool {
        unique_ids(self.entries@)
    }

    /// The records, in the order they are kept.
    pub closed spec fn listed(self) -> Seq<Offline> {
        self.entries@
    }

    /// The records by the displays they are of.
    pub open spec fn records(self) -> Map<u32, Offline> {
        by_id(self.listed())
    }

    /// The records that are kept are of one display each.
    pub proof fn lemma_listed(self)
        requires
            self.wf(),
        ensures
            forall|i: int, j: int|
                0 <= i < j < self.listed().len() ==> (#[trigger] self.listed()[i]).id != (
                #[trigger] self.listed()[j]).id,
            forall|i: int|
                0 <= i < self.listed().len() ==> self.records().contains_key(
                    (#[trigger] self.listed()[i]).id.0,
                ) && self.records()[self.listed()[i].id.0] == self.listed()[i],
    {
        lemma_by_id(self.entries@);
        assert forall|i: int, j: int| 0 <= i < j < self.listed().len() implies (
        #[trigger] self.listed()[i]).id != (#[trigger] self.listed()[j]).id by {
            assert(self.entries@[i].id.0 != self.entries@[j].id.0);
        }
    }

    /// The registry that a file's records make; of several records of one
    /// display the last counts.
    pub fn load(entries: Vec<Offline>) -> (registry: Self)
        ensures
            registry.wf(),
            registry.records() == by_id(entries@),
    {
        let mut registry = Registry { entries: Vec::new() };
        let mut i: usize = 0;
        assert(registry.records() =~= by_id(entries@.take(0)));
        while i < entries.len()
            invariant
                i <= entries@.len(),
                registry.wf(),
                registry.records() == by_id(entries@.take(i as int)),
            decreases entries@.len() - i,
        {
            proof {
                assert(entries@.take(i + 1).drop_last() == entries@.take(i as int));
            }
            registry.put(entries[i].clone());
            i += 1;
        }
        assert(entries@.take(i as int) == entries@);
        registry
    }

    fn position(&self, id: u32) -> (index: Option<usize>)
        ensures
            match index {
                Some(index) => index < self.entries@.len() && self.entries@[index as int].id.0
                    == id,
                None => forall|i: int|
                    0 <= i < self.entries@.len() ==> (#[trigger] self.entries@[i]).id.0 != id,
            },
    {
        let mut i: usize = 0;
        while i < self.entries.len()
            invariant
                i <= self.entries@.len(),
                forall|j: int| 0 <= j < i ==> (#[trigger] self.entries@[j]).id.0 != id,
            decreases self.entries@.len() - i,
        {
            if self.entries[i].id.0 == id {
                return Some(i);
            }
            i += 1;
        }
        None
    }

    /// Keeps a record, in place of one of the same display.
    fn put(&mut self, entry: Offline)
        requires
            old(self).wf(),
        ensures
            final(self).wf(),
            final(self).records() == old(self).records().insert(entry.id.0, entry),
    {
        let id: u32 = entry.id.0;
        proof {
            lemma_by_id(self.entries@);
        }
        match self.position(id) {
            Some(index) => {
                let ghost before = self.entries@;
                self.entries[index] = entry;
                proof {
                    let after = self.entries@;
                    assert(after == before.update(index as int, entry));
                    assert(unique_ids(after)) by {
                        assert forall|i: int, j: int| 0 <= i < j < after.len() implies (
                        #[trigger] after[i]).id.0 != (#[trigger] after[j]).id.0 by {
                            assert(before[i].id.0 != before[j].id.0);
                        }
                    }
                    lemma_by_id(after);
                    assert forall|key: u32| #[trigger]
                        by_id(after).contains_key(key) == by_id(before).insert(
                            id,
                            entry,
                        ).contains_key(key) by {
                        if by_id(after).contains_key(key) && key != id {
                            let i = choose|i: int|
                                0 <= i < after.len() && (#[trigger] after[i]).id.0 == key;
                            assert(before[i].id.0 == key);
                        }
                        if by_id(before).contains_key(key) {
                            let i = choose|i: int|
                                0 <= i < before.len() && (#[trigger] before[i]).id.0 == key;
                            assert(after[i].id.0 == key);
                        }
                        assert(after[index as int].id.0 == id);
                    }
                    assert forall|key: u32| by_id(after).contains_key(key) implies #[trigger] by_id(
                        after,
                    )[key] == by_id(before).insert(id, entry)[key] by {
                        let i = choose|i: int|
                            0 <= i < after.len() && (#[trigger] after[i]).id.0 == key;
                        if i != index {
                            assert(before[i] == after[i]);
                            assert(before[i].id.0 != before[index as int].id.0);
                        }
                    }
                    assert(by_id(after) =~= by_id(before).insert(id, entry));
                }
            },
            None => {
                let ghost before = self.entries@;
                self.entries.push(entry);
                assert(self.entries@.drop_last() == before);
            },
        }
    }

    /// Takes the record of a display out, and hands it back.
    fn take(&mut self, id: u32) -> (entry: Option<Offline>)
        requires
            old(self).wf(),
        ensures
            final(self).wf(),
            match entry {
                Some(entry) => old(self).records().contains_key(id) && old(self).records()[id]
                    == entry,
                None => !old(self).records().contains_key(id),
            },
            final(self).records() == old(self).records().remove(id),
            entry is None ==> *final(self) == *old(self),
    {
        proof {
            lemma_by_id(self.entries@);
        }
        match self.position(id) {
            Some(index) => {
                let ghost before = self.entries@;
                let entry = self.entries.remove(index);
                proof {
                    let after = self.entries@;
                    assert(after == before.remove(index as int));
                    assert forall|i: int, j: int| 0 <= i < j < after.len() implies (
                    #[trigger] after[i]).id.0 != (#[trigger] after[j]).id.0 by {
                        let left = if i < index {
                            i
                        } else {
                            i + 1
                        };
                        let right = if j < index {
                            j
                        } else {
                            j + 1
                        };
                        assert(before[left].id.0 != before[right].id.0);
                    }
                    lemma_by_id(after);
                    assert(before[index as int].id.0 == id);
                    assert forall|key: u32| #[trigger]
                        by_id(after).contains_key(key) == by_id(before).remove(id).contains_key(
                            key,
                        ) by {
                        if by_id(after).contains_key(key) {
                            let i = choose|i: int|
                                0 <= i < after.len() && (#[trigger] after[i]).id.0 == key;
                            let from = if i < index {
                                i
                            } else {
                                i + 1
                            };
                            assert(before[from] == after[i]);
                            assert(before[from].id.0 != before[index as int].id.0);
                        }
                        if by_id(before).contains_key(key) && key != id {
                            let i = choose|i: int|
                                0 <= i < before.len() && (#[trigger] before[i]).id.0 == key;
                            let to = if i < index {
                                i
                            } else {
                                i - 1
                            };
                            assert(after[to] == before[i]);
                        }
                    }
                    assert forall|key: u32| by_id(after).contains_key(key) implies #[trigger] by_id(
                        after,
                    )[key] == by_id(before).remove(id)[key] by {
                        let i = choose|i: int|
                            0 <= i < after.len() && (#[trigger] after[i]).id.0 == key;
                        let from = if i < index {
                            i
                        } else {
                            i + 1
                        };
                        assert(before[from] == after[i]);
                    }
                    assert(by_id(after) =~= by_id(before).remove(id));
                }
                Some(entry)
            },
            None => {
                assert(!by_id(self.entries@).contains_key(id));
                assert(by_id(self.entries@) =~= by_id(self.entries@).remove(id));
                None
            },
        }
    }

    /// Records a display that was taken out of the layout.
    pub fn record(&mut self, display: &Display, strategy: Strategy)
        requires
            old(self).wf(),
        ensures
            final(self).wf(),
            final(self).records() == old(self).records().insert(
                display.snapshot.id.0,
                (Offline {
                    id: display.snapshot.id,
                    name: display.snapshot.name,
                    is_builtin: display.snapshot.is_builtin,
                    vendor: display.snapshot.vendor,
                    model: display.snapshot.model,
                    serial: display.snapshot.serial,
                    unit: display.snapshot.unit,
                    strategy,
                }),
            ),
    {
        self.put(Offline::from_display(display, strategy));
    }

    /// Drops the record of a display. Returns whether there was one, in which
    /// case the file is to be written again.
    pub fn forget(&mut self, display: DisplayId) -> (forgot: bool)
        requires
            old(self).wf(),
        ensures
            final(self).wf(),
            forgot == old(self).records().contains_key(display.0),
            final(self).records() == old(self).records().remove(display.0),
            !forgot ==> *final(self) == *old(self),
    {
        self.take(display.0).is_some()
    }

    pub fn is_offline(&self, display: DisplayId) -> (is: bool)
        requires
            self.wf(),
        ensures
            is == self.records().contains_key(display.0),
    {
        proof {
            lemma_by_id(self.entries@);
        }
        self.position(display.0).is_some()
    }

    /// How `display` was taken out of the layout, if this app took it out.
    pub fn strategy(&self, display: DisplayId) -> (strategy: Option<Strategy>)
        requires
            self.wf(),
        ensures
            strategy == (if self.records().contains_key(display.0) {
                Some(self.records()[display.0].strategy)
            } else {
                None
            }),
    {
        proof {
            lemma_by_id(self.entries@);
        }
        match self.position(display.0) {
            Some(index) => Some(self.entries[index].strategy),
            None => None,
        }
    }

    pub fn all(&self) -> (entries: Vec<Offline>)
        ensures
            entries@ == self.listed(),
    {
        let mut entries: Vec<Offline> = Vec::new();
        let mut i: usize = 0;
        while i < self.entries.len()
            invariant
                i <= self.entries@.len(),
                entries@ == self.entries@.take(i as int),
            decreases self.entries@.len() - i,
        {
            entries.push(self.entries[i].clone());
            assert(self.entries@.take(i as int).push(self.entries@[i as int])
                == self.entries@.take(i + 1));
            i += 1;
        }
        assert(self.entries@.take(i as int) == self.entries@);
        entries
    }

    /// Entry `index` is of the panel that `snapshot` shows, under another id.
    pub open spec fn is_stale(self, index: int, snapshot: DisplaySnapshot) -> bool {
        &&& 0 <= index < self.listed().len()
        &&& self.listed()[index].id != snapshot.id
        &&& self.listed()[index].is_panel(snapshot)
    }

    /// Re-keys a record onto the id the display has now.
    ///
    /// A display that comes back after a reboot is the same panel with a new id,
    /// and the record has to follow it or the toggle would act on nothing.
    /// Returns whether there was one, in which case the file is to be written
    /// again.
    pub fn rekey(&mut self, snapshot: &DisplaySnapshot) -> (found: bool)
        requires
            old(self).wf(),
        ensures
            final(self).wf(),
            found == exists|index: int| #[trigger] old(self).is_stale(index, *snapshot),
            !found ==> *final(self) == *old(self),
            found ==> exists|index: int|
                {
                    let entry = old(self).listed()[index];
                    &&& #[trigger] old(self).is_stale(index, *snapshot)
                    &&& forall|i: int| i < index ==> !#[trigger] old(self).is_stale(i, *snapshot)
                    &&& final(self).records() == old(self).records().remove(entry.id.0).insert(
                        snapshot.id.0,
                        (Offline { id: snapshot.id, name: snapshot.name, ..entry }),
                    )
                },
    {
        let mut i: usize = 0;
        while i < self.entries.len()
            invariant
                i <= self.entries@.len(),
                self.wf(),
                *self == *old(self),
                forall|j: int| j < i ==> !#[trigger] self.is_stale(j, *snapshot),
            decreases self.entries@.len() - i,
        {
            if self.entries[i].id.0 != snapshot.id.0 && self.entries[i].matches(snapshot) {
                assert(self.is_stale(i as int, *snapshot));
                let stale: u32 = self.entries[i].id.0;
                proof {
                    lemma_by_id(self.entries@);
                    assert(self.records()[stale] == self.entries@[i as int]);
                    assert(self.records().contains_key(stale));
                }
                match self.take(stale) {
                    Some(entry) => {
                        self.put(
                            Offline { id: snapshot.id, name: snapshot.name.clone(), ..entry },
                        );
                    },
                    None => {},
                }
                assert(old(self).is_stale(i as int, *snapshot));
                return true;
            }
            i += 1;
        }
        false
    }
}

/// Switching a display off and on again leaves no record of it, and leaves
/// every other record as it was.
pub proof fn law_forgetting_undoes_recording(records: Map<u32, Offline>, id: u32, entry: Offline)
    requires
        !records.contains_key(id),
    ensures
        records.insert(id, entry).remove(id) == records,
{
    assert(records.insert(id, entry).remove(id) =~= records);
}

/// A record follows its panel to the id it has now: afterwards the display is
/// known to be switched off, in the way it was switched off.
pub proof fn law_a_record_follows_its_panel(
    records: Map<u32, Offline>,
    stale: u32,
    snapshot: DisplaySnapshot,
)
    requires
        records.contains_key(stale),
        stale != snapshot.id.0,
    ensures
        ({
            let entry = records[stale];
            let moved = records.remove(stale).insert(
                snapshot.id.0,
                Offline { id: snapshot.id, name: snapshot.name, ..entry },
            );
            &&& moved.contains_key(snapshot.id.0)
            &&& moved[snapshot.id.0].strategy == entry.strategy
            &&& moved[snapshot.id.0].is_panel(snapshot) == entry.is_panel(snapshot)
            &&& !moved.contains_key(stale)
        }),
{
}

// --- what the records are for -----------------------------------------------

/// Two records say the same of a display.
pub open spec fn same_record(left: Offline, right: Offline) -> bool {
    &&& left.id == right.id
    &&& left.name@ == right.name@
    &&& left.is_builtin == right.is_builtin
    &&& left.vendor == right.vendor
    &&& left.model == right.model
    &&& left.serial == right.serial
    &&& left.unit == right.unit
    &&& left.strategy == right.strategy
}

/// A record written as a line holds its fields with tabs between them, numbers in
/// decimal and the way it was switched off in a word, and is read back as it was.
pub proof fn law_a_written_record_is_read_back(
    entry: Offline,
    line: String,
    text: &str,
    read: Option<Offline>,
)
    requires
        !entry.name@.contains('\t'),
        call_ensures(Offline::to_line, (&entry,), line),
        text@ == line@,
        call_ensures(Offline::from_line, (text,), read),
    ensures
        read is Some,
        same_record(read->0, entry),
        ({
            let fields = pieces(line@, '\t');
            &&& fields.len() == 8
            &&& fields[0] == digits(entry.id.0 as nat)
            &&& fields[1] == digits(entry.vendor as nat)
            &&& fields[2] == digits(entry.model as nat)
            &&& fields[3] == digits(entry.serial as nat)
            &&& fields[4] == digits(entry.unit as nat)
            &&& entry.is_builtin ==> fields[5] == "1"@
            &&& entry.strategy == Strategy::HardDisconnect ==> fields[6] == "hard"@
            &&& entry.strategy == Strategy::Mirror ==> fields[6] == "mirror"@
            &&& fields[7] == entry.name@
        }),
{
    law_a_record_round_trips_through_a_line(entry);
    let tab = '\t';
    let id = digits(entry.id.0 as nat);
    let vendor = digits(entry.vendor as nat);
    let model = digits(entry.model as nat);
    let serial = digits(entry.serial as nat);
    let unit = digits(entry.unit as nat);
    let flag = flag_digit(entry.is_builtin);
    let word = strategy_word(entry.strategy);
    lemma_words();
    lemma_digits_hold_no(entry.id.0 as nat, tab);
    lemma_digits_hold_no(entry.vendor as nat, tab);
    lemma_digits_hold_no(entry.model as nat, tab);
    lemma_digits_hold_no(entry.serial as nat, tab);
    lemma_digits_hold_no(entry.unit as nat, tab);
    lemma_digits_hold_no(0, tab);
    lemma_digits_hold_no(1, tab);
    let tail7 = word.push(tab) + entry.name@;
    let tail6 = flag.push(tab) + tail7;
    let tail5 = unit.push(tab) + tail6;
    let tail4 = serial.push(tab) + tail5;
    let tail3 = model.push(tab) + tail4;
    let tail2 = vendor.push(tab) + tail3;
    lemma_pieces_of_two(id, tail2, tab);
    lemma_pieces_of_two(vendor, tail3, tab);
    lemma_pieces_of_two(model, tail4, tab);
    lemma_pieces_of_two(serial, tail5, tab);
    lemma_pieces_of_two(unit, tail6, tab);
    lemma_pieces_of_two(flag, tail7, tab);
    lemma_pieces_of_two(word, entry.name@, tab);
    lemma_one_piece(id, tab);
    lemma_one_piece(vendor, tab);
    lemma_one_piece(model, tab);
    lemma_one_piece(serial, tab);
    lemma_one_piece(unit, tab);
    lemma_one_piece(flag, tab);
    lemma_one_piece(word, tab);
    lemma_one_piece(entry.name@, tab);
    let fields = pieces(entry.line(), tab);
    assert(fields =~= seq![id, vendor, model, serial, unit, flag, word, entry.name@]);
}

proof fn lemma_read_lines_agree(lines: Seq<Seq<char>>, left: Seq<Offline>, right: Seq<Offline>)
    requires
        read_lines(lines, left),
        read_lines(lines, right),
    ensures
        left.len() == right.len(),
        forall|i: int|
            0 <= i < left.len() ==> same_record(#[trigger] left[i], right[i]),
    decreases lines.len(),
{
    if lines.len() > 0 {
        if readable(pieces(lines.last(), '\t')) {
            lemma_read_lines_agree(lines.drop_last(), left.drop_last(), right.drop_last());
            assert forall|i: int| 0 <= i < left.len() implies same_record(
                #[trigger] left[i],
                right[i],
            ) by {
                if i < left.len() - 1 {
                    assert(same_record(left.drop_last()[i], right.drop_last()[i]));
                }
            }
        } else {
            lemma_read_lines_agree(lines.drop_last(), left, right);
        }
    }
}

/// What is switched off outlives the process: the records that are written to the
/// file are read from it again, each of them, in order.
pub proof fn law_the_records_outlive_the_process(
    entries: &[Offline],
    file: String,
    text: &str,
    read: Vec<Offline>,
    i: int,
)
    requires
        forall|i: int| 0 <= i < entries@.len() ==> plain_name((#[trigger] entries@[i]).name@),
        call_ensures(write_file, (entries,), file),
        text@ == file@,
        call_ensures(read_file, (text,), read),
        0 <= i < entries@.len(),
    ensures
        read@.len() == entries@.len(),
        same_record(read@[i], entries@[i]),
{
    law_the_file_gives_back_every_record(entries@);
    lemma_read_lines_agree(lines_of(text@), read@, entries@);
}

/// A display that is switched off is known to be off, and how; every other
/// display is as it was. Once it is forgotten it is not known to be off any more.
pub proof fn law_a_record_stands_until_it_is_forgotten(
    registry: &mut Registry,
    display: Display,
    strategy: Strategy,
    other: DisplayId,
    before: bool,
    off: bool,
    how: Option<Strategy>,
    then: &mut Registry,
    forgot: bool,
    after: bool,
)
    requires
        old(registry).wf(),
        call_ensures(Registry::record, (registry, &display, strategy), ()),
        call_ensures(Registry::is_offline, (&*old(registry), other), before),
        call_ensures(Registry::is_offline, (&*final(registry), other), off),
        call_ensures(Registry::strategy, (&*final(registry), other), how),
        *old(then) == *final(registry),
        call_ensures(Registry::forget, (then, display.snapshot.id), forgot),
        call_ensures(Registry::is_offline, (&*final(then), other), after),
    ensures
        forgot,
        other == display.snapshot.id ==> off && how == Some(strategy) && !after,
        other != display.snapshot.id ==> off == before && after == before,
        how is Some <==> off,
        final(registry).records()[display.snapshot.id.0].name@ == display.snapshot.name@,
        final(registry).records()[display.snapshot.id.0].vendor == display.snapshot.vendor,
        final(registry).records()[display.snapshot.id.0].model == display.snapshot.model,
        final(registry).records()[display.snapshot.id.0].serial == display.snapshot.serial,
        final(registry).records()[display.snapshot.id.0].unit == display.snapshot.unit,
        final(registry).records()[display.snapshot.id.0].is_builtin == display.snapshot.is_builtin,
{
}

/// The records that are listed are those that are kept, one for each display that
/// is known to be off.
pub proof fn law_every_record_is_listed_once(
    registry: Registry,
    entries: Vec<Offline>,
    display: DisplayId,
    off: bool,
)
    requires
        registry.wf(),
        call_ensures(Registry::all, (&registry,), entries),
        call_ensures(Registry::is_offline, (&registry, display), off),
    ensures
        off <==> exists|i: int| 0 <= i < entries@.len() && (#[trigger] entries@[i]).id == display,
        forall|i: int, j: int|
            0 <= i < j < entries@.len() ==> (#[trigger] entries@[i]).id != (
            #[trigger] entries@[j]).id,
        forall|i: int|
            0 <= i < entries@.len() ==> registry.records().contains_key(
                (#[trigger] entries@[i]).id.0,
            ) && registry.records()[entries@[i].id.0] == entries@[i],
{
    lemma_by_id(registry.entries@);
    assert forall|i: int, j: int| 0 <= i < j < entries@.len() implies (#[trigger] entries@[i]).id
        != (#[trigger] entries@[j]).id by {
        assert(registry.entries@[i].id.0 != registry.entries@[j].id.0);
    }
    if off {
        let i = choose|i: int|
            0 <= i < registry.entries@.len() && (#[trigger] registry.entries@[i]).id.0
                == display.0;
        assert(entries@[i].id == display);
    }
}

/// A panel is recognised by its hardware identity whatever its id, and by its
/// unit where it has none.
pub proof fn law_a_panel_is_recognised_by_its_hardware(
    entry: Offline,
    snapshot: DisplaySnapshot,
    matches: bool,
)
    requires
        call_ensures(Offline::matches, (&entry, &snapshot), matches),
    ensures
        entry.vendor != 0 || entry.model != 0 || entry.serial != 0 ==> (matches <==> entry.vendor
            == snapshot.vendor && entry.model == snapshot.model && entry.serial
            == snapshot.serial),
        entry.vendor == 0 && entry.model == 0 && entry.serial == 0 ==> (matches
            <==> entry.is_builtin == snapshot.is_builtin && entry.unit == snapshot.unit),
{
}

/// A display that comes back under another id takes its record with it, and with
/// it the way it was switched off; every other record stays.
pub proof fn law_a_record_moves_to_the_id_its_panel_has_now(
    registry: &mut Registry,
    snapshot: DisplaySnapshot,
    found: bool,
    entries: Vec<Offline>,
    stale: int,
    matches: bool,
    how: Option<Strategy>,
    was: Option<Strategy>,
    other: u32,
)
    requires
        old(registry).wf(),
        call_ensures(Registry::rekey, (registry, &snapshot), found),
        call_ensures(Registry::all, (&*old(registry),), entries),
        0 <= stale < entries@.len(),
        entries@[stale].id != snapshot.id,
        call_ensures(Offline::matches, (&entries@[stale], &snapshot), matches),
        matches,
        forall|i: int|
            0 <= i < stale ==> (#[trigger] entries@[i]).id == snapshot.id || !entries@[i].is_panel(
                snapshot,
            ),
        call_ensures(Registry::strategy, (&*final(registry), snapshot.id), how),
        call_ensures(Registry::strategy, (&*final(registry), entries@[stale].id), was),
        other != snapshot.id.0,
        other != entries@[stale].id.0,
    ensures
        found,
        how == Some(entries@[stale].strategy),
        was is None,
        final(registry).records()[snapshot.id.0].name@ == snapshot.name@,
        final(registry).records()[snapshot.id.0].vendor == entries@[stale].vendor,
        final(registry).records().contains_key(other) == old(registry).records().contains_key(
            other,
        ),
        old(registry).records().contains_key(other)
            ==> final(registry).records()[other] == old(registry).records()[other],
{
    lemma_by_id(old(registry).entries@);
    assert(old(registry).is_stale(stale, snapshot));
    let index = choose|index: int|
        {
            let entry = old(registry).listed()[index];
            &&& #[trigger] old(registry).is_stale(index, snapshot)
            &&& forall|i: int| i < index ==> !#[trigger] old(registry).is_stale(i, snapshot)
            &&& final(registry).records() == old(registry).records().remove(entry.id.0).insert(
                snapshot.id.0,
                (Offline { id: snapshot.id, name: snapshot.name, ..entry }),
            )
        };
    assert(old(registry).is_stale(index, snapshot));
    if index < stale {
        assert(entries@[index].id == snapshot.id || !entries@[index].is_panel(snapshot));
    }
    assert(index == stale);
}

/// The card of a display that is off shows what was recorded of it, and that it
/// is off.
pub proof fn law_a_card_stands_for_what_is_off(entry: Offline, card: Display)
    requires
        call_ensures(Offline::ghost, (&entry,), card),
    ensures
        card.snapshot.id == entry.id,
        card.snapshot.name@ == entry.name@,
        card.snapshot.is_builtin == entry.is_builtin,
        card.snapshot.vendor == entry.vendor,
        card.snapshot.model == entry.model,
        card.snapshot.serial == entry.serial,
        card.snapshot.unit == entry.unit,
        !card.snapshot.is_main,
        !card.snapshot.is_active,
        !card.snapshot.is_online,
        card.snapshot.mirrors is None,
        card.snapshot.current_mode is None,
        card.native is None,
        card.modes@.len() == 0,
{
}

/// Of several records of one display in a file, the last counts.
pub proof fn law_the_last_record_of_a_display_counts(
    entries: Vec<Offline>,
    registry: Registry,
    i: int,
)
    requires
        call_ensures(Registry::load, (entries,), registry),
        0 <= i < entries@.len(),
        forall|j: int|
            i < j < entries@.len() ==> (#[trigger] entries@[j]).id.0 != entries@[i].id.0,
    ensures
        registry.records().contains_key(entries@[i].id.0),
        registry.records()[entries@[i].id.0] == entries@[i],
{
    lemma_last_counts(entries@, i);
}

proof fn lemma_last_counts(entries: Seq<Offline>, i: int)
    requires
        0 <= i < entries.len(),
        forall|j: int| i < j < entries.len() ==> (#[trigger] entries[j]).id.0 != entries[i].id.0,
    ensures
        by_id(entries).contains_key(entries[i].id.0),
        by_id(entries)[entries[i].id.0] == entries[i],
    decreases entries.len(),
{
    if i < entries.len() - 1 {
        let rest = entries.drop_last();
        assert forall|j: int| i < j < rest.len() implies (#[trigger] rest[j]).id.0
            != rest[i].id.0 by {
            assert(entries[j].id.0 != entries[i].id.0);
        }
        lemma_last_counts(rest, i);
        assert(entries[entries.len() - 1].id.0 != entries[i].id.0);
    }
}

/// A record is of the display it was made for, and of the way it was switched
/// off.
pub proof fn law_a_record_is_of_its_display(display: Display, strategy: Strategy, entry: Offline)
    requires
        call_ensures(Offline::from_display, (&display, strategy), entry),
    ensures
        entry.id == display.snapshot.id,
        entry.name == display.snapshot.name,
        entry.is_builtin == display.snapshot.is_builtin,
        entry.vendor == display.snapshot.vendor,
        entry.model == display.snapshot.model,
        entry.serial == display.snapshot.serial,
        entry.unit == display.snapshot.unit,
        entry.strategy == strategy,
{
}

/// A line is read by its fields, which have tabs between them: five numbers, a
/// flag, the way the display was switched off, and its name. A line that has not
/// all of them, or a number or a way that cannot be read, holds no record; what
/// follows the name is passed over.
pub proof fn law_a_line_is_read_by_its_fields(
    line: &str,
    chars: &[char],
    parts: Vec<Vec<char>>,
    entry: Option<Offline>,
    id: Option<u32>,
    vendor: Option<u32>,
    model: Option<u32>,
    serial: Option<u32>,
    unit: Option<u32>,
)
    requires
        chars@ == line@,
        call_ensures(split, (chars, '\t'), parts),
        call_ensures(Offline::from_line, (line,), entry),
        parts@.len() >= 8 ==> {
            &&& parsed_u32(parts@[0]@) == id
            &&& parsed_u32(parts@[1]@) == vendor
            &&& parsed_u32(parts@[2]@) == model
            &&& parsed_u32(parts@[3]@) == serial
            &&& parsed_u32(parts@[4]@) == unit
        },
    ensures
        entry is Some <==> parts@.len() >= 8 && id is Some && vendor is Some && model is Some
            && serial is Some && unit is Some && (parts@[6]@ == "hard"@ || parts@[6]@
            == "mirror"@),
        entry matches Some(entry) ==> {
            &&& id == Some(entry.id.0)
            &&& vendor == Some(entry.vendor)
            &&& model == Some(entry.model)
            &&& serial == Some(entry.serial)
            &&& unit == Some(entry.unit)
            &&& entry.is_builtin <==> parts@[5]@ == "1"@
            &&& entry.strategy == Strategy::HardDisconnect <==> parts@[6]@ == "hard"@
            &&& entry.name@ == parts@[7]@
        },
{
    let fields = pieces(line@, '\t');
    assert(shown(parts@).len() == parts@.len());
    assert forall|k: int| 0 <= k < parts@.len() implies fields[k] == (#[trigger] parts@[k])@ by {
        assert(shown(parts@)[k] == parts@[k]@);
    }
    if parts@.len() >= 8 {
        assert(fields[0] == parts@[0]@ && fields[1] == parts@[1]@ && fields[2] == parts@[2]@);
        assert(fields[3] == parts@[3]@ && fields[4] == parts@[4]@ && fields[5] == parts@[5]@);
        assert(fields[6] == parts@[6]@ && fields[7] == parts@[7]@);
    }
}

/// A file is read line by line: one more line adds the record it holds after the
/// others, and nothing where it holds none.
pub proof fn law_a_file_is_read_line_by_line(
    text: &str,
    more: &str,
    chars: &[char],
    longer: &[char],
    rows: Vec<Vec<char>>,
    then: Vec<Vec<char>>,
    line: &str,
    entry: Option<Offline>,
    before: Vec<Offline>,
    after: Vec<Offline>,
    i: int,
)
    requires
        chars@ == text@,
        longer@ == more@,
        call_ensures(lines, (chars,), rows),
        call_ensures(lines, (longer,), then),
        then@.len() == rows@.len() + 1,
        forall|k: int| 0 <= k < rows@.len() ==> (#[trigger] then@[k])@ == rows@[k]@,
        line@ == then@.last()@,
        call_ensures(Offline::from_line, (line,), entry),
        call_ensures(read_file, (text,), before),
        call_ensures(read_file, (more,), after),
    ensures
        rows@.len() == 0 ==> before@.len() == 0,
        entry is None ==> after@.len() == before@.len() && (0 <= i < before@.len() ==> same_record(
            after@[i],
            before@[i],
        )),
        entry matches Some(entry) ==> {
            &&& after@.len() == before@.len() + 1
            &&& 0 <= i < before@.len() ==> same_record(after@[i], before@[i])
            &&& same_record(after@.last(), entry)
        },
{
    let all = lines_of(more@);
    assert(shown(rows@).len() == rows@.len());
    assert(shown(then@).len() == then@.len());
    assert(all.last() == line@) by {
        assert(shown(then@)[then@.len() - 1] == then@[then@.len() - 1]@);
    }
    assert(all.drop_last() =~= lines_of(text@)) by {
        assert forall|k: int| 0 <= k < rows@.len() implies all[k] == lines_of(text@)[k] by {
            assert(shown(then@)[k] == then@[k]@);
            assert(shown(rows@)[k] == rows@[k]@);
        }
    }
    if readable(pieces(line@, '\t')) {
        lemma_read_lines_agree(lines_of(text@), after@.drop_last(), before@);
        if 0 <= i < before@.len() {
            assert(same_record(after@.drop_last()[i], before@[i]));
        }
    } else {
        lemma_read_lines_agree(lines_of(text@), after@, before@);
    }
}

} // verus!
