//! What things are called: applications on their faders, displays in the
//! settings file, status codes in the log.

use vstd::arithmetic::div_mod::lemma_fundamental_div_mod_converse;
use vstd::prelude::*;
use vstd::string::StrSliceExecFns;

use crate::display::Display;
use crate::processes::{last_component, lemma_last_component, short_name_of, Process};
use crate::text::{
    characters, decimal, decimal_signed, digits, hex_digits, hexadecimal, padded, signed_digits,
    text_of,
};

verus! {

// --- applications -----------------------------------------------------------

/// One application's fader, as the panel shows it.
#[derive(Debug)]
pub struct AppFader {
    pub process: Process,
    /// Millionths of full level.
    pub gain: u32,
}

/// What marks a process as another's helper.
pub const HELPER: &'static str = ".helper";

/// The part of `text` before the first place where `mark` stands.
pub open spec fn before_first(text: Seq<char>, mark: Seq<char>) -> Seq<char>
    decreases text.len(),
{
    if text.len() == 0 || mark.is_prefix_of(text) {
        Seq::empty()
    } else {
        seq![text[0]] + before_first(text.drop_first(), mark)
    }
}

/// The name of the application a bundle belongs to, all of it: the part before
/// any helper suffix.
pub open spec fn application(bundle: Seq<char>) -> Seq<char> {
    if HELPER@.is_suffix_of(bundle) {
        bundle.take(bundle.len() - HELPER@.len())
    } else {
        before_first(bundle, HELPER@)
    }
}

/// The last meaningful component of a bundle's identifier.
pub open spec fn stem(bundle: Seq<char>) -> Seq<char> {
    application(bundle).skip(last_component(application(bundle)))
}

/// The text of the characters from `from` up to `to`.
fn slice(chars: &[char], from: usize, to: usize) -> (text: String)
    requires
        from <= to <= chars@.len(),
    ensures
        text@ == chars@.subrange(from as int, to as int),
{
    let mut kept: Vec<char> = Vec::new();
    let mut i: usize = from;
    while i < to
        invariant
            from <= i <= to <= chars@.len(),
            kept@ == chars@.subrange(from as int, i as int),
        decreases to - i,
    {
        kept.push(chars[i]);
        assert(kept@ =~= chars@.subrange(from as int, i + 1));
        i += 1;
    }
    text_of(kept.as_slice())
}

/// Whether `mark` stands in `text` at `at`.
fn stands_at(text: &[char], mark: &[char], at: usize) -> (stands: bool)
    requires
        at <= text@.len(),
    ensures
        stands == mark@.is_prefix_of(text@.skip(at as int)),
{
    let total: usize = text.len();
    if mark.len() > total - at {
        return false;
    }
    let ghost rest = text@.skip(at as int);
    let mut i: usize = 0;
    while i < mark.len()
        invariant
            i <= mark@.len(),
            at + mark@.len() <= total == text@.len(),
            rest == text@.skip(at as int),
            forall|j: int| 0 <= j < i ==> (#[trigger] mark@[j]) == rest[j],
        decreases mark@.len() - i,
    {
        if text[at + i] != mark[i] {
            assert(rest[i as int] != mark@[i as int]);
            assert(rest.subrange(0, mark@.len() as int)[i as int] == rest[i as int]);
            return false;
        }
        i += 1;
    }
    assert(rest.subrange(0, mark@.len() as int) =~= mark@);
    true
}

/// Where `mark` first stands in `text`, or the end of it.
fn first_mark(text: &[char], mark: &[char]) -> (at: usize)
    ensures
        at <= text@.len(),
        text@.take(at as int) == before_first(text@, mark@),
{
    let mut at: usize = 0;
    assert(text@.skip(0) =~= text@);
    assert(text@.take(0) + before_first(text@, mark@) =~= before_first(text@, mark@));
    while at < text.len() && !stands_at(text, mark, at)
        invariant
            at <= text@.len(),
            text@.take(at as int) + before_first(text@.skip(at as int), mark@) == before_first(
                text@,
                mark@,
            ),
        decreases text@.len() - at,
    {
        let ghost rest = text@.skip(at as int);
        proof {
            assert(rest.drop_first() =~= text@.skip(at + 1));
            assert(text@.take(at as int) + (seq![rest[0]] + before_first(rest.drop_first(), mark@))
                =~= text@.take(at + 1) + before_first(text@.skip(at + 1), mark@));
        }
        at += 1;
    }
    assert(before_first(text@.skip(at as int), mark@) =~= Seq::empty());
    assert(text@.take(at as int) + Seq::<char>::empty() =~= text@.take(at as int));
    at
}

/// The last meaningful component of a bundle's identifier.
///
/// `com.brave.Browser.helper` is Brave, not "helper": the part that names the
/// application is the one before any helper suffix.
pub fn bundle_stem(bundle: &str) -> (name: String)
    ensures
        name@ == stem(bundle@),
{
    let text = characters(bundle);
    let mark = characters(HELPER);
    let ends: bool = text.len() >= mark.len() && stands_at(
        text.as_slice(),
        mark.as_slice(),
        text.len() - mark.len(),
    );
    proof {
        let cut = bundle@.len() - HELPER@.len();
        if cut >= 0 {
            let tail = bundle@.skip(cut);
            assert(tail.subrange(0, HELPER@.len() as int) =~= tail);
            assert(bundle@.subrange(cut, bundle@.len() as int) =~= tail);
        }
        assert(ends == HELPER@.is_suffix_of(bundle@));
    }
    let cut: usize = if ends {
        text.len() - mark.len()
    } else {
        first_mark(text.as_slice(), mark.as_slice())
    };
    let whole = slice(text.as_slice(), 0, cut);
    assert(whole@ =~= application(bundle@));
    short_name_of(whole.as_str()).to_owned()
}

/// What `char::to_uppercase` gives for a character.
pub uninterp spec fn uppercase(ch: char) -> Seq<char>;

/// `char::to_uppercase`, collected: a character's capital, which may be more
/// than one character. Which that is, Unicode's tables decide.
#[verifier::external_body]
fn to_uppercase(ch: char) -> (text: String)
    ensures
        text@ == uppercase(ch),
{
    ch.to_uppercase().to_string()
}

/// What is written on the row of an application whose stem is `stem`, given the
/// capital that the stem starts with.
pub open spec fn titled(bundle: Seq<char>, stem: Seq<char>, capital: Seq<char>) -> Seq<char> {
    if stem.len() == 0 {
        bundle
    } else {
        capital + stem.skip(1)
    }
}

/// What is written on a fader's row.
pub open spec fn fader_name(process: Process) -> Seq<char> {
    match process.bundle_id {
        None => "pid "@ + signed_digits(process.pid as int),
        Some(bundle) => titled(bundle@, stem(bundle@), uppercase(stem(bundle@)[0])),
    }
}

/// The name of an application: its stem with `capital` in place of the first
/// letter, or its whole identifier where nothing is left of it.
pub fn title(bundle: &str, stem: &str, capital: &str) -> (name: String)
    ensures
        name@ == titled(bundle@, stem@, capital@),
{
    let letters = characters(stem);
    if letters.len() == 0 {
        return bundle.to_owned();
    }
    let mut name = capital.to_owned();
    name.append(slice(letters.as_slice(), 1, letters.len()).as_str());
    assert(stem@.skip(1) =~= stem@.subrange(1, stem@.len() as int));
    name
}

impl AppFader {
    /// What to write on the row. Bundle IDs are what Core Audio gives us, and
    /// the last meaningful component reads better than the whole thing.
    pub fn name(&self) -> (name: String)
        ensures
            name@ == fader_name(self.process),
    {
        match &self.process.bundle_id {
            None => {
                let mut name = "pid ".to_owned();
                name.append(decimal_signed(self.process.pid as i64).as_str());
                name
            },
            Some(bundle) => {
                let stem = bundle_stem(bundle.as_str());
                if stem.as_str().unicode_len() == 0 {
                    return bundle.clone();
                }
                let capital = to_uppercase(stem.as_str().get_char(0));
                title(bundle.as_str(), stem.as_str(), capital.as_str())
            },
        }
    }
}

// --- displays ---------------------------------------------------------------

pub open spec fn truth(value: bool) -> Seq<char> {
    if value {
        "true"@
    } else {
        "false"@
    }
}

/// What a display is called in the settings file.
pub open spec fn display_key(display: Display) -> Seq<char> {
    let snapshot = display.snapshot;
    if snapshot.vendor != 0 || snapshot.model != 0 || snapshot.serial != 0 {
        padded(hex_digits(snapshot.vendor as nat, false), 8) + ":"@ + padded(
            hex_digits(snapshot.model as nat, false),
            8,
        ) + ":"@ + padded(hex_digits(snapshot.serial as nat, false), 8)
    } else {
        "builtin:"@ + truth(snapshot.is_builtin) + ":"@ + digits(snapshot.unit as nat) + ":"@
            + snapshot.name@
    }
}

/// A settings key for one physical display.
///
/// Core Graphics ids change between logins. Vendor/model/serial is the stable
/// identity used elsewhere in the app; built-in panels sometimes publish zeroes
/// for all three, so their unit and name provide the fallback.
pub fn display_persistence_key(display: &Display) -> (key: String)
    ensures
        key@ == display_key(*display),
{
    let snapshot = &display.snapshot;
    if snapshot.vendor != 0 || snapshot.model != 0 || snapshot.serial != 0 {
        let mut key = hexadecimal(snapshot.vendor, 8, false);
        key.append(":");
        key.append(hexadecimal(snapshot.model, 8, false).as_str());
        key.append(":");
        key.append(hexadecimal(snapshot.serial, 8, false).as_str());
        key
    } else {
        let mut key = "builtin:".to_owned();
        key.append(
            if snapshot.is_builtin {
                "true"
            } else {
                "false"
            },
        );
        key.append(":");
        key.append(decimal(snapshot.unit as u64).as_str());
        key.append(":");
        key.append(snapshot.name.as_str());
        key
    }
}

/// The key does not follow the display's id, nor anything else that moves with
/// the layout: where the panel publishes an identity, that identity alone
/// decides it.
pub proof fn law_the_key_survives_enumeration(before: Display, after: Display)
    requires
        before.snapshot.vendor == after.snapshot.vendor,
        before.snapshot.model == after.snapshot.model,
        before.snapshot.serial == after.snapshot.serial,
        before.snapshot.vendor != 0 || before.snapshot.model != 0 || before.snapshot.serial != 0,
    ensures
        display_key(before) == display_key(after),
{
}

// --- status codes -----------------------------------------------------------

/// The bits of a status code, as a number.
pub open spec fn code_of(status: i32) -> int {
    if status < 0 {
        status + 0x1_0000_0000
    } else {
        status as int
    }
}

/// The four characters of a code, most significant first.
pub open spec fn letters(code: int) -> Seq<int> {
    seq![code / 0x100_0000, code / 0x1_0000 % 256, code / 256 % 256, code % 256]
}

pub open spec fn graphic(letter: int) -> bool {
    0x21 <= letter <= 0x7E
}

pub open spec fn readable(code: int) -> bool {
    graphic(letters(code)[0]) && graphic(letters(code)[1]) && graphic(letters(code)[2]) && graphic(
        letters(code)[3],
    )
}

pub open spec fn status_text(status: i32) -> Seq<char> {
    let code = code_of(status);
    if status == 0 {
        "ok"@
    } else if readable(code) {
        seq![
            '\'',
            letters(code)[0] as char,
            letters(code)[1] as char,
            letters(code)[2] as char,
            letters(code)[3] as char,
            '\'',
        ]
    } else {
        signed_digits(status as int)
    }
}

fn is_graphic(letter: u8) -> (is: bool)
    ensures
        is == graphic(letter as int),
{
    0x21 <= letter && letter <= 0x7E
}

/// Core Audio status codes are four-character codes. Printed raw they are
/// meaningless nine-digit numbers.
pub fn status_name(status: i32) -> (name: String)
    ensures
        name@ == status_text(status),
{
    if status == 0 {
        return "ok".to_owned();
    }
    let code: u64 = if status < 0 {
        (status as i64 + 0x1_0000_0000) as u64
    } else {
        status as u64
    };
    let first: u8 = (code / 0x100_0000) as u8;
    let second: u8 = (code / 0x1_0000 % 256) as u8;
    let third: u8 = (code / 256 % 256) as u8;
    let fourth: u8 = (code % 256) as u8;
    if is_graphic(first) && is_graphic(second) && is_graphic(third) && is_graphic(fourth) {
        let text: [char; 6] = [
            '\'',
            first as char,
            second as char,
            third as char,
            fourth as char,
            '\'',
        ];
        let name = text_of(text.as_slice());
        assert(name@ =~= status_text(status));
        name
    } else {
        decimal_signed(status as i64)
    }
}

// --- what holds of names ----------------------------------------------------

/// What an application's helper is marked with.
pub open spec fn helper_mark() -> Seq<char> {
    seq!['.', 'h', 'e', 'l', 'p', 'e', 'r']
}

/// Whether a helper's mark stands at an index.
pub open spec fn marked_at(text: Seq<char>, at: int) -> bool {
    0 <= at && at + 7 <= text.len() && text.subrange(at, at + 7) == helper_mark()
}

proof fn lemma_before_first(text: Seq<char>, mark: Seq<char>, at: int)
    requires
        0 <= at <= text.len(),
        forall|i: int| 0 <= i < at ==> !mark.is_prefix_of(#[trigger] text.skip(i)),
        at < text.len() ==> mark.is_prefix_of(text.skip(at)),
    ensures
        before_first(text, mark) == text.take(at),
    decreases text.len(),
{
    if at == 0 {
        if text.len() > 0 {
            assert(text.skip(0) =~= text);
        }
        assert(text.take(0) =~= Seq::empty());
    } else {
        assert(text.skip(0) =~= text);
        assert(!mark.is_prefix_of(text.skip(0)));
        let rest = text.drop_first();
        assert forall|i: int| 0 <= i < at - 1 implies !mark.is_prefix_of(
            #[trigger] rest.skip(i),
        ) by {
            assert(rest.skip(i) =~= text.skip(i + 1));
        }
        if at < text.len() {
            assert(rest.skip(at - 1) =~= text.skip(at));
        }
        lemma_before_first(rest, mark, at - 1);
        assert(seq![text[0]] + rest.take(at - 1) =~= text.take(at));
    }
}

/// An application's name is the last part of its bundle, with a helper taken for
/// the application it helps: the mark is cut off at the end, else where it
/// stands first.
pub proof fn law_a_helper_is_named_after_its_application(
    bundle: &str,
    name: String,
    cut: int,
    start: int,
)
    requires
        call_ensures(bundle_stem, (bundle,), name),
        0 <= cut <= bundle@.len(),
        marked_at(bundle@, bundle@.len() - 7) ==> cut == bundle@.len() - 7,
        !marked_at(bundle@, bundle@.len() - 7) ==> {
            &&& forall|i: int| 0 <= i < cut ==> !#[trigger] marked_at(bundle@, i)
            &&& cut < bundle@.len() ==> marked_at(bundle@, cut)
        },
        0 <= start <= cut,
        start == 0 || bundle@[start - 1] == '.',
        forall|i: int| start <= i < cut ==> (#[trigger] bundle@[i]) != '.',
    ensures
        name@ == bundle@.subrange(start, cut),
{
    reveal_strlit(".helper");
    assert(HELPER@ =~= helper_mark());
    let text = bundle@;
    let mark = helper_mark();
    assert forall|i: int| 0 <= i <= text.len() implies mark.is_prefix_of(#[trigger] text.skip(i))
        == marked_at(text, i) by {
        let rest = text.skip(i);
        if i + 7 <= text.len() {
            assert(rest.subrange(0, 7) =~= text.subrange(i, i + 7));
        }
    }
    assert(mark.is_suffix_of(text) == marked_at(text, text.len() - 7)) by {
        if text.len() >= 7 {
            let tail = text.subrange(text.len() - 7, text.len() as int);
            assert(tail =~= text.subrange(text.len() - 7, text.len() - 7 + 7));
        }
    }
    if !marked_at(text, text.len() - 7) {
        assert forall|i: int| 0 <= i < cut implies !mark.is_prefix_of(#[trigger] text.skip(i)) by {
            assert(!marked_at(text, i));
        }
        if cut < text.len() {
            assert(mark.is_prefix_of(text.skip(cut)));
        }
        lemma_before_first(text, mark, cut);
    }
    let whole = application(text);
    assert(whole =~= text.take(cut));
    lemma_last_component(whole, start);
    assert(whole.skip(start) =~= text.subrange(start, cut));
}

/// A fader is named after its application, with a capital, or after its pid
/// where there is no bundle; a bundle that names nothing stands for itself.
pub proof fn law_a_fader_is_named_after_its_application(
    fader: AppFader,
    name: String,
    bundle: &str,
    stem: String,
    pid: String,
)
    requires
        call_ensures(AppFader::name, (&fader,), name),
        fader.process.bundle_id matches Some(text) ==> bundle@ == text@,
        call_ensures(bundle_stem, (bundle,), stem),
        call_ensures(decimal_signed, (fader.process.pid as i64,), pid),
    ensures
        fader.process.bundle_id is None ==> name@ == "pid "@ + pid@,
        fader.process.bundle_id is Some && stem@.len() == 0 ==> name@ == bundle@,
        fader.process.bundle_id is Some && stem@.len() > 0 ==> name@ == uppercase(stem@[0])
            + stem@.subrange(1, stem@.len() as int),
{
    if stem@.len() > 0 {
        assert(stem@.skip(1) =~= stem@.subrange(1, stem@.len() as int));
    }
}

/// A title puts the capital in place of the first letter.
pub proof fn law_a_title_has_its_capital(bundle: &str, stem: &str, capital: &str, name: String)
    requires
        call_ensures(title, (bundle, stem, capital), name),
    ensures
        stem@.len() == 0 ==> name@ == bundle@,
        stem@.len() > 0 ==> name@ == capital@ + stem@.subrange(1, stem@.len() as int),
{
    if stem@.len() > 0 {
        assert(stem@.skip(1) =~= stem@.subrange(1, stem@.len() as int));
    }
}

/// A display is kept under the numbers of its hardware, eight digits each; one
/// without any under what it is, its unit and its name.
pub proof fn law_a_display_is_kept_under_its_hardware(
    display: Display,
    key: String,
    vendor: String,
    model: String,
    serial: String,
    unit: String,
)
    requires
        call_ensures(display_persistence_key, (&display,), key),
        call_ensures(hexadecimal, (display.snapshot.vendor, 8, false), vendor),
        call_ensures(hexadecimal, (display.snapshot.model, 8, false), model),
        call_ensures(hexadecimal, (display.snapshot.serial, 8, false), serial),
        call_ensures(decimal, (display.snapshot.unit as u64,), unit),
    ensures
        ({
            let snapshot = display.snapshot;
            let bare = snapshot.vendor == 0 && snapshot.model == 0 && snapshot.serial == 0;
            &&& !bare ==> key@ == vendor@ + ":"@ + model@ + ":"@ + serial@
            &&& bare && snapshot.is_builtin ==> key@ == "builtin:"@ + "true"@ + ":"@ + unit@ + ":"@
                + snapshot.name@
            &&& bare && !snapshot.is_builtin ==> key@ == "builtin:"@ + "false"@ + ":"@ + unit@
                + ":"@ + snapshot.name@
        }),
{
}

proof fn lemma_letters(code: int, a: int, b: int, c: int, d: int)
    requires
        0 <= a < 256 && 0 <= b < 256 && 0 <= c < 256 && 0 <= d < 256,
        code == a * 16_777_216 + b * 65_536 + c * 256 + d,
    ensures
        code / 0x100_0000 == a,
        code / 0x1_0000 % 256 == b,
        code / 256 % 256 == c,
        code % 256 == d,
{
    let two = a * 256 + b;
    let three = two * 256 + c;
    lemma_fundamental_div_mod_converse(code, 256, three, d);
    lemma_fundamental_div_mod_converse(code, 0x1_0000, two, c * 256 + d);
    lemma_fundamental_div_mod_converse(code, 0x100_0000, a, b * 65_536 + c * 256 + d);
    lemma_fundamental_div_mod_converse(three, 256, two, c);
    lemma_fundamental_div_mod_converse(two, 256, a, b);
}

/// A status that spells four letters is shown as them; any other as its number,
/// and none as ok.
pub proof fn law_a_status_is_spelled_out(
    status: i32,
    name: String,
    number: String,
    a: int,
    b: int,
    c: int,
    d: int,
)
    requires
        call_ensures(status_name, (status,), name),
        call_ensures(decimal_signed, (status as i64,), number),
        0 <= a < 256 && 0 <= b < 256 && 0 <= c < 256 && 0 <= d < 256,
        a * 16_777_216 + b * 65_536 + c * 256 + d == (if status < 0 {
            status + 4_294_967_296
        } else {
            status as int
        }),
    ensures
        status == 0 ==> name@ == "ok"@,
        status != 0 ==> name@ == (if 33 <= a <= 126 && 33 <= b <= 126 && 33 <= c <= 126 && 33 <= d
            <= 126 {
            seq!['\'', a as char, b as char, c as char, d as char, '\'']
        } else {
            number@
        }),
{
    lemma_letters(code_of(status), a, b, c, d);
    assert(letters(code_of(status)) =~= seq![a, b, c, d]);
}

} // verus!
