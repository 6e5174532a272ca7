//! The table of keys: which number each system has for them.

pub mod hex_opt_serde;
pub mod hex_serde;

use crate::text::{lower_ascii, lowered, same_text};
use qapi_spec::Enum;
use vstd::prelude::*;

verus! {

/// A key, by its place among those that the machine control protocol names.
#[derive(Debug, Clone, Copy, PartialEq, Eq, Structural)]
pub struct QKeyCode {
    pub index: usize,
}

/// What `qapi_qmp::QKeyCode::from_name` finds: the place of the key with a
/// name.
pub uninterp spec fn key_named(name: Seq<char>) -> Option<usize>;

/// `qapi_qmp::QKeyCode::from_name`: the place of the key with a name, where
/// one has it.
#[verifier::external_body]
fn find_key(name: &str) -> (index: Option<usize>)
    ensures
        index == key_named(name@),
{
    qapi_qmp::QKeyCode::from_name(name).map(|key| key.discriminant())
}

/// The place of `qapi_qmp::QKeyCode::unmapped`, which comes first.
#[verifier::external_body]
fn unmapped_key() -> (index: usize)
    ensures
        index == 0,
{
    qapi_qmp::QKeyCode::unmapped.discriminant()
}

/// The records of `csv::Reader` over some bytes, the header among them; none
/// where the bytes are no table.
pub uninterp spec fn csv_rows(data: Seq<u8>) -> Option<Seq<Seq<Seq<char>>>>;

/// Rows of fields, each by its characters.
pub open spec fn row_texts(rows: Seq<Vec<String>>) -> Seq<Seq<Seq<char>>> {
    rows.map_values(|row: Vec<String>| row@.map_values(|field: String| field@))
}

/// `csv::Reader` over some bytes, with the header as the first record: the
/// fields of each record. It fails where a record has not as many fields as the
/// header, or is not text.
#[verifier::external_body]
fn read_csv(data: &[u8]) -> (rows: Option<Vec<Vec<String>>>)
    ensures
        csv_rows(data@) == match rows {
            Some(rows) => Some(row_texts(rows@)),
            None => None,
        },
{
    let mut reader = csv::ReaderBuilder::new().has_headers(false).from_reader(data);
    let rows: Result<Vec<_>, csv::Error> = reader.records().collect();
    let rows = rows.ok()?;
    Some(rows.iter().map(|row| row.iter().map(String::from).collect()).collect())
}

/// A key of the table.
#[derive(Debug, PartialEq, Eq)]
pub struct Keymap {
    pub linux_name: Option<String>,
    pub linux_keycode: u16,
    pub mac_name: Option<String>,
    pub mac_keycode: Option<u16>,
    pub at_set1_keycode: Option<u16>,
    pub at_set2_keycode: Option<u16>,
    pub at_set3_keycode: Option<u16>,
    pub usb_keycodes: Option<u16>,
    pub win32_name: Option<String>,
    pub win32_keycode: Option<u16>,
    pub xwin_xt: Option<String>,
    pub xfree86_kbd_xt: Option<String>,
    pub x11_keysym_name: Option<String>,
    pub x11_keysym: Option<u16>,
    pub html_code: Option<String>,
    pub xkb_key_name: Option<String>,
    pub qemu_qkeycode: Option<String>,
    pub sub_kbd: Option<u16>,
    pub apple_adb: Option<u16>,
}

/// The fields of a row that stand below a name in the header.
pub open spec fn fields_below(
    header: Seq<Seq<char>>,
    row: Seq<Seq<char>>,
    name: Seq<char>,
) -> Seq<Seq<char>>
    decreases header.len(),
{
    if header.len() == 0 {
        Seq::empty()
    } else {
        let before = fields_below(header.drop_last(), row, name);
        if header.last() == name && header.len() <= row.len() {
            before.push(row[header.len() - 1])
        } else {
            before
        }
    }
}

/// The text of a row below a name, which may be missing or empty but not there
/// twice.
pub open spec fn text_below(
    header: Seq<Seq<char>>,
    row: Seq<Seq<char>>,
    name: Seq<char>,
) -> Option<Option<Seq<char>>> {
    let fields = fields_below(header, row, name);
    if fields.len() == 0 {
        Some(None)
    } else if fields.len() == 1 {
        if fields[0].len() == 0 {
            Some(None)
        } else {
            Some(Some(fields[0]))
        }
    } else {
        None
    }
}

/// The number of a row below a name, which is there once.
pub open spec fn number_below(
    header: Seq<Seq<char>>,
    row: Seq<Seq<char>>,
    name: Seq<char>,
) -> Option<u16> {
    let fields = fields_below(header, row, name);
    if fields.len() == 1 {
        hex_serde::number(fields[0])
    } else {
        None
    }
}

/// The number of a row below a name, which is there once but may be empty.
pub open spec fn optional_number_below(
    header: Seq<Seq<char>>,
    row: Seq<Seq<char>>,
    name: Seq<char>,
) -> Option<Option<u16>> {
    let fields = fields_below(header, row, name);
    if fields.len() == 1 {
        hex_opt_serde::optional_number(fields[0])
    } else {
        None
    }
}

/// Whether a text of a key is the one that a row has.
pub open spec fn is_text_field(own: Option<String>, found: Option<Option<Seq<char>>>) -> bool {
    found == Some(
        match own {
            Some(text) => Some(text@),
            None => None,
        },
    )
}

/// Whether a key is the one that a row stands for.
pub open spec fn is_row(k: Keymap, header: Seq<Seq<char>>, row: Seq<Seq<char>>) -> bool {
    &&& is_text_field(k.linux_name, text_below(header, row, "Linux Name"@))
    &&& number_below(header, row, "Linux Keycode"@) == Some(k.linux_keycode)
    &&& is_text_field(k.mac_name, text_below(header, row, "OS-X Name"@))
    &&& optional_number_below(header, row, "OS-X Keycode"@) == Some(k.mac_keycode)
    &&& optional_number_below(header, row, "AT set1 keycode"@) == Some(k.at_set1_keycode)
    &&& optional_number_below(header, row, "AT set2 keycode"@) == Some(k.at_set2_keycode)
    &&& optional_number_below(header, row, "AT set3 keycode"@) == Some(k.at_set3_keycode)
    &&& optional_number_below(header, row, "USB Keycodes"@) == Some(k.usb_keycodes)
    &&& is_text_field(k.win32_name, text_below(header, row, "Win32 Name"@))
    &&& optional_number_below(header, row, "Win32 Keycode"@) == Some(k.win32_keycode)
    &&& is_text_field(k.xwin_xt, text_below(header, row, "Xwin XT"@))
    &&& is_text_field(k.xfree86_kbd_xt, text_below(header, row, "Xfree86 KBD XT"@))
    &&& is_text_field(k.x11_keysym_name, text_below(header, row, "X11 keysym name"@))
    &&& optional_number_below(header, row, "X11 keysym"@) == Some(k.x11_keysym)
    &&& is_text_field(k.html_code, text_below(header, row, "HTML code"@))
    &&& is_text_field(k.xkb_key_name, text_below(header, row, "XKB key name"@))
    &&& is_text_field(k.qemu_qkeycode, text_below(header, row, "QEMU QKeyCode"@))
    &&& optional_number_below(header, row, "Sun KBD"@) == Some(k.sub_kbd)
    &&& optional_number_below(header, row, "Apple ADB"@) == Some(k.apple_adb)
}

/// Whether a row stands for a key.
pub open spec fn is_key_row(header: Seq<Seq<char>>, row: Seq<Seq<char>>) -> bool {
    &&& text_below(header, row, "Linux Name"@) is Some
    &&& number_below(header, row, "Linux Keycode"@) is Some
    &&& text_below(header, row, "OS-X Name"@) is Some
    &&& optional_number_below(header, row, "OS-X Keycode"@) is Some
    &&& optional_number_below(header, row, "AT set1 keycode"@) is Some
    &&& optional_number_below(header, row, "AT set2 keycode"@) is Some
    &&& optional_number_below(header, row, "AT set3 keycode"@) is Some
    &&& optional_number_below(header, row, "USB Keycodes"@) is Some
    &&& text_below(header, row, "Win32 Name"@) is Some
    &&& optional_number_below(header, row, "Win32 Keycode"@) is Some
    &&& text_below(header, row, "Xwin XT"@) is Some
    &&& text_below(header, row, "Xfree86 KBD XT"@) is Some
    &&& text_below(header, row, "X11 keysym name"@) is Some
    &&& optional_number_below(header, row, "X11 keysym"@) is Some
    &&& text_below(header, row, "HTML code"@) is Some
    &&& text_below(header, row, "XKB key name"@) is Some
    &&& text_below(header, row, "QEMU QKeyCode"@) is Some
    &&& optional_number_below(header, row, "Sun KBD"@) is Some
    &&& optional_number_below(header, row, "Apple ADB"@) is Some
}

/// The fields of a row that stand below a name in the header, at most two of
/// them.
fn find_fields(header: &Vec<String>, row: &Vec<String>, name: &str) -> (found: (usize, usize))
    ensures
        ({
            let fields = fields_below(texts(header@), texts(row@), name@);
            &&& found.0 == fields.len()
            &&& fields.len() > 0 ==> found.1 < row@.len() && fields[fields.len() - 1]
                == row@[found.1 as int]@
        }),
{
    let mut count: usize = 0;
    let mut at: usize = 0;
    let ghost h = texts(header@);
    let ghost r = texts(row@);
    assert(h.take(0) =~= Seq::<Seq<char>>::empty());
    for i in 0..header.len()
        invariant
            h == texts(header@),
            r == texts(row@),
            count <= i,
            count == fields_below(h.take(i as int), r, name@).len(),
            count > 0 ==> at < row@.len() && fields_below(h.take(i as int), r, name@)[count - 1]
                == row@[at as int]@,
    {
        assert(h.take(i + 1).drop_last() =~= h.take(i as int));
        assert(h.take(i + 1).last() == header@[i as int]@);
        if i < row.len() && same_text(header[i].as_str(), name) {
            count = count + 1;
            at = i;
        }
    }
    assert(h.take(h.len() as int) =~= h);
    (count, at)
}

/// Some strings by their characters.
pub open spec fn texts(strings: Seq<String>) -> Seq<Seq<char>> {
    strings.map_values(|s: String| s@)
}

fn text_field(header: &Vec<String>, row: &Vec<String>, name: &str) -> (field: Option<
    Option<String>,
>)
    ensures
        field is Some <==> text_below(texts(header@), texts(row@), name@) is Some,
        field matches Some(own) ==> is_text_field(
            own,
            text_below(texts(header@), texts(row@), name@),
        ),
{
    let (count, at) = find_fields(header, row, name);
    if count == 0 {
        Some(None)
    } else if count == 1 {
        if row[at].as_str().unicode_len() == 0 {
            Some(None)
        } else {
            Some(Some(row[at].clone()))
        }
    } else {
        None
    }
}

fn number_field(header: &Vec<String>, row: &Vec<String>, name: &str) -> (field: Option<u16>)
    ensures
        field == number_below(texts(header@), texts(row@), name@),
{
    let (count, at) = find_fields(header, row, name);
    if count == 1 {
        hex_serde::deserialize(row[at].as_str())
    } else {
        None
    }
}

fn optional_number_field(header: &Vec<String>, row: &Vec<String>, name: &str) -> (field: Option<
    Option<u16>,
>)
    ensures
        field == optional_number_below(texts(header@), texts(row@), name@),
{
    let (count, at) = find_fields(header, row, name);
    if count == 1 {
        hex_opt_serde::deserialize(row[at].as_str())
    } else {
        None
    }
}

/// The number of a key for a keyboard of the set 1, with the high bit where it
/// has two bytes.
pub open spec fn qnum_of(k: Keymap) -> u8 {
    match k.at_set1_keycode {
        Some(at1) => if at1 > 0x7f {
            (0x80 + at1 % 0x80) as u8
        } else {
            at1 as u8
        },
        None => 0,
    }
}

/// The place of a key, by its name in lower case; none where it has no name.
pub open spec fn qkeycode_of(k: Keymap) -> Option<QKeyCode> {
    match k.qemu_qkeycode {
        Some(name) => match key_named(lowered(name@)) {
            Some(index) => Some(QKeyCode { index }),
            None => None,
        },
        None => None,
    }
}

/// Whether the name of a key, where it has one, is one that there is.
pub open spec fn is_known(k: Keymap) -> bool {
    k.qemu_qkeycode matches Some(name) ==> key_named(lowered(name@)) is Some
}

impl Keymap {
    /// The key that a row stands for, where it stands for one.
    pub fn from_row(header: &Vec<String>, row: &Vec<String>) -> (keymap: Option<Keymap>)
        ensures
            keymap is Some <==> is_key_row(texts(header@), texts(row@)),
            keymap matches Some(k) ==> is_row(k, texts(header@), texts(row@)),
    {
        let linux_name = match text_field(header, row, "Linux Name") {
            Some(field) => field,
            None => {
                return None;
            },
        };
        let linux_keycode = match number_field(header, row, "Linux Keycode") {
            Some(field) => field,
            None => {
                return None;
            },
        };
        let mac_name = match text_field(header, row, "OS-X Name") {
            Some(field) => field,
            None => {
                return None;
            },
        };
        let mac_keycode = match optional_number_field(header, row, "OS-X Keycode") {
            Some(field) => field,
            None => {
                return None;
            },
        };
        let at_set1_keycode = match optional_number_field(header, row, "AT set1 keycode") {
            Some(field) => field,
            None => {
                return None;
            },
        };
        let at_set2_keycode = match optional_number_field(header, row, "AT set2 keycode") {
            Some(field) => field,
            None => {
                return None;
            },
        };
        let at_set3_keycode = match optional_number_field(header, row, "AT set3 keycode") {
            Some(field) => field,
            None => {
                return None;
            },
        };
        let usb_keycodes = match optional_number_field(header, row, "USB Keycodes") {
            Some(field) => field,
            None => {
                return None;
            },
        };
        let win32_name = match text_field(header, row, "Win32 Name") {
            Some(field) => field,
            None => {
                return None;
            },
        };
        let win32_keycode = match optional_number_field(header, row, "Win32 Keycode") {
            Some(field) => field,
            None => {
                return None;
            },
        };
        let xwin_xt = match text_field(header, row, "Xwin XT") {
            Some(field) => field,
            None => {
                return None;
            },
        };
        let xfree86_kbd_xt = match text_field(header, row, "Xfree86 KBD XT") {
            Some(field) => field,
            None => {
                return None;
            },
        };
        let x11_keysym_name = match text_field(header, row, "X11 keysym name") {
            Some(field) => field,
            None => {
                return None;
            },
        };
        let x11_keysym = match optional_number_field(header, row, "X11 keysym") {
            Some(field) => field,
            None => {
                return None;
            },
        };
        let html_code = match text_field(header, row, "HTML code") {
            Some(field) => field,
            None => {
                return None;
            },
        };
        let xkb_key_name = match text_field(header, row, "XKB key name") {
            Some(field) => field,
            None => {
                return None;
            },
        };
        let qemu_qkeycode = match text_field(header, row, "QEMU QKeyCode") {
            Some(field) => field,
            None => {
                return None;
            },
        };
        let sub_kbd = match optional_number_field(header, row, "Sun KBD") {
            Some(field) => field,
            None => {
                return None;
            },
        };
        let apple_adb = match optional_number_field(header, row, "Apple ADB") {
            Some(field) => field,
            None => {
                return None;
            },
        };
        Some(
            Keymap {
                linux_name,
                linux_keycode,
                mac_name,
                mac_keycode,
                at_set1_keycode,
                at_set2_keycode,
                at_set3_keycode,
                usb_keycodes,
                win32_name,
                win32_keycode,
                xwin_xt,
                xfree86_kbd_xt,
                x11_keysym_name,
                x11_keysym,
                html_code,
                xkb_key_name,
                qemu_qkeycode,
                sub_kbd,
                apple_adb,
            },
        )
    }

    /// The place of the key.
    pub fn qemu_qkeycode(&self) -> (key: Option<QKeyCode>)
        requires
            is_known(*self),
        ensures
            key == qkeycode_of(*self),
    {
        match &self.qemu_qkeycode {
            Some(name) => match find_key(lower_ascii(name.as_str()).as_str()) {
                Some(index) => Some(QKeyCode { index }),
                None => None,
            },
            None => None,
        }
    }

    /// Whether the name of the key, where it has one, is one that there is.
    pub fn knows_qkeycode(&self) -> (known: bool)
        ensures
            known == is_known(*self),
    {
        match &self.qemu_qkeycode {
            Some(name) => find_key(lower_ascii(name.as_str()).as_str()).is_some(),
            None => true,
        }
    }

    /// The place of the key, or else nothing where its name is none that there
    /// is.
    pub fn try_qemu_qkeycode(&self) -> (key: Option<Option<QKeyCode>>)
        ensures
            key == if is_known(*self) {
                Some(qkeycode_of(*self))
            } else {
                None
            },
    {
        if self.knows_qkeycode() {
            Some(self.qemu_qkeycode())
        } else {
            None
        }
    }

    /// The number of the key for the machine.
    pub fn qemu_qnum(&self) -> (qnum: u8)
        ensures
            qnum == qnum_of(*self),
    {
        let at1: u16 = match self.at_set1_keycode {
            Some(at1) => at1,
            None => 0,
        };
        proof {
            assert(at1 > 0x7f ==> (at1 as u8) | 0x80u8 == 0x80 + at1 % 0x80) by (bit_vector);
            assert(at1 <= 0x7f ==> (at1 as u8) | 0u8 == at1) by (bit_vector);
        }
        #[verifier::truncate]
        (at1 as u8) | if at1 > 0x7f {
            0x80
        } else {
            0
        }
    }
}

/// The first key with a code.
pub open spec fn first_with(keymaps: Seq<Keymap>, code: u16) -> Option<Keymap>
    decreases keymaps.len(),
{
    if keymaps.len() == 0 {
        None
    } else if keymaps[0].linux_keycode == code {
        Some(keymaps[0])
    } else {
        first_with(keymaps.drop_first(), code)
    }
}

/// The largest code of some keys.
pub open spec fn max_code(keymaps: Seq<Keymap>) -> u16
    decreases keymaps.len(),
{
    if keymaps.len() == 0 {
        0
    } else {
        let before = max_code(keymaps.drop_last());
        if keymaps.last().linux_keycode > before {
            keymaps.last().linux_keycode
        } else {
            before
        }
    }
}

/// The numbers of the keys by their codes; 0 where no key has the code.
pub open spec fn qnums(keymaps: Seq<Keymap>) -> Seq<u8> {
    Seq::new(
        (max_code(keymaps) + 1) as nat,
        |i: int|
            match first_with(keymaps, i as u16) {
                Some(k) => qnum_of(k),
                None => 0,
            },
    )
}

/// The places of the keys by their codes; the first one where no key has the
/// code, or the key has no name.
pub open spec fn qkeycodes(keymaps: Seq<Keymap>) -> Seq<QKeyCode> {
    Seq::new(
        (max_code(keymaps) + 1) as nat,
        |i: int|
            match first_with(keymaps, i as u16) {
                Some(k) => match qkeycode_of(k) {
                    Some(key) => key,
                    None => QKeyCode { index: 0 },
                },
                None => QKeyCode { index: 0 },
            },
    )
}

/// Every key is listed: its code is within the lists, and the number and the
/// place there are those of the first key with the code.
pub proof fn every_key_is_listed(keymaps: Seq<Keymap>, i: int)
    requires
        0 <= i < keymaps.len(),
    ensures
        keymaps[i].linux_keycode < qnums(keymaps).len(),
        keymaps[i].linux_keycode < qkeycodes(keymaps).len(),
        first_with(keymaps, keymaps[i].linux_keycode) matches Some(first)
            && first.linux_keycode == keymaps[i].linux_keycode
            && qnums(keymaps)[keymaps[i].linux_keycode as int] == qnum_of(first),
{
    lemma_max_code(keymaps, i);
    lemma_first_with(keymaps, i);
}

/// The lists of the numbers and of the places of the keys are of one length, up
/// to the largest code.
pub proof fn lists_are_of_one_length(keymaps: Seq<Keymap>)
    ensures
        qkeycodes(keymaps).len() == qnums(keymaps).len(),
        qnums(keymaps).len() == max_code(keymaps) + 1,
{
}

proof fn lemma_max_code(keymaps: Seq<Keymap>, i: int)
    requires
        0 <= i < keymaps.len(),
    ensures
        keymaps[i].linux_keycode <= max_code(keymaps),
    decreases keymaps.len(),
{
    if i < keymaps.len() - 1 {
        lemma_max_code(keymaps.drop_last(), i);
    }
}

proof fn lemma_first_with(keymaps: Seq<Keymap>, i: int)
    requires
        0 <= i < keymaps.len(),
    ensures
        first_with(keymaps, keymaps[i].linux_keycode) matches Some(first)
            && first.linux_keycode == keymaps[i].linux_keycode,
    decreases keymaps.len(),
{
    if keymaps[0].linux_keycode != keymaps[i].linux_keycode {
        lemma_first_with(keymaps.drop_first(), i - 1);
    }
}

/// Whether the names of all keys that are the first ones with their codes are
/// names that there are.
pub open spec fn all_known(keymaps: Seq<Keymap>) -> bool {
    forall|code: u16| #[trigger]
        first_with(keymaps, code) matches Some(k) ==> is_known(k)
}

/// The table of keys.
#[derive(Debug, PartialEq, Eq)]
pub struct Keymaps {
    pub keymaps: Vec<Keymap>,
}

/// The bytes are no table of keys.
#[derive(Debug, Clone, Copy, PartialEq, Eq, Structural)]
pub struct BadTable;

/// Whether some keys are those of a table that starts with its header.
pub open spec fn are_rows(keymaps: Seq<Keymap>, rows: Seq<Seq<Seq<char>>>) -> bool {
    &&& keymaps.len() == if rows.len() == 0 {
        0
    } else {
        (rows.len() - 1) as nat
    }
    &&& forall|i: int|
        0 <= i < keymaps.len() ==> is_row(#[trigger] keymaps[i], rows[0], rows[i + 1])
}

/// Whether each row of a table that starts with its header stands for a key.
pub open spec fn is_table(rows: Seq<Seq<Seq<char>>>) -> bool {
    forall|i: int| 1 <= i < rows.len() ==> is_key_row(rows[0], #[trigger] rows[i])
}

impl Keymaps {
    /// The keys of a table that starts with its header.
    pub fn from_rows(rows: &Vec<Vec<String>>) -> (keymaps: Result<Keymaps, BadTable>)
        ensures
            keymaps is Ok <==> is_table(row_texts(rows@)),
            keymaps matches Ok(k) ==> are_rows(k.keymaps@, row_texts(rows@)),
    {
        let mut keymaps: Vec<Keymap> = Vec::new();
        let ghost all = row_texts(rows@);
        if rows.len() == 0 {
            return Ok(Keymaps { keymaps });
        }
        assert(all[0] =~= texts(rows@[0]@));
        for i in 1..rows.len()
            invariant
                rows@.len() > 0,
                all == row_texts(rows@),
                all[0] == texts(rows@[0]@),
                keymaps@.len() == i - 1,
                forall|j: int|
                    0 <= j < keymaps@.len() ==> is_row(#[trigger] keymaps@[j], all[0], all[j + 1]),
                forall|j: int| 1 <= j < i ==> is_key_row(all[0], #[trigger] all[j]),
        {
            assert(all[i as int] =~= texts(rows@[i as int]@));
            match Keymap::from_row(&rows[0], &rows[i]) {
                Some(keymap) => {
                    keymaps.push(keymap);
                },
                None => {
                    return Err(BadTable);
                },
            }
        }
        Ok(Keymaps { keymaps })
    }

    /// The keys of a table in the form of comma-separated values.
    pub fn from_csv(data: &[u8]) -> (keymaps: Result<Keymaps, BadTable>)
        ensures
            keymaps is Ok <==> (csv_rows(data@) matches Some(rows) && is_table(rows)),
            keymaps matches Ok(k) ==> are_rows(k.keymaps@, csv_rows(data@)->0),
    {
        match read_csv(data) {
            Some(rows) => Keymaps::from_rows(&rows),
            None => Err(BadTable),
        }
    }

    fn max_keycode(&self) -> (max: u16)
        ensures
            max == max_code(self.keymaps@),
    {
        let mut max: u16 = 0;
        for i in 0..self.keymaps.len()
            invariant
                max == max_code(self.keymaps@.take(i as int)),
        {
            assert(self.keymaps@.take(i + 1).drop_last() =~= self.keymaps@.take(i as int));
            if self.keymaps[i].linux_keycode > max {
                max = self.keymaps[i].linux_keycode;
            }
        }
        assert(self.keymaps@.take(self.keymaps@.len() as int) =~= self.keymaps@);
        max
    }

    fn find(&self, code: u16) -> (keymap: Option<&Keymap>)
        ensures
            first_with(self.keymaps@, code) == match keymap {
                Some(k) => Some(*k),
                None => None,
            },
    {
        assert(self.keymaps@.skip(0) =~= self.keymaps@);
        for i in 0..self.keymaps.len()
            invariant
                first_with(self.keymaps@, code) == first_with(self.keymaps@.skip(i as int), code),
        {
            assert(self.keymaps@.skip(i as int)[0] == self.keymaps@[i as int]);
            assert(self.keymaps@.skip(i as int).drop_first() =~= self.keymaps@.skip(i + 1));
            if self.keymaps[i].linux_keycode == code {
                return Some(&self.keymaps[i]);
            }
        }
        None
    }

    /// The places of the keys by their codes.
    pub fn qkeycode_keycodes(&self) -> (keys: Vec<QKeyCode>)
        requires
            all_known(self.keymaps@),
        ensures
            keys@ == qkeycodes(self.keymaps@),
    {
        let max = self.max_keycode();
        let mut keys: Vec<QKeyCode> = Vec::new();
        for i in 0..max as u32 + 1
            invariant
                max == max_code(self.keymaps@),
                all_known(self.keymaps@),
                keys@ =~= qkeycodes(self.keymaps@).take(i as int),
        {
            let key = match self.find(i as u16) {
                Some(keymap) => {
                    assert(first_with(self.keymaps@, i as u16) == Some(*keymap));
                    match keymap.qemu_qkeycode() {
                        Some(key) => key,
                        None => QKeyCode { index: unmapped_key() },
                    }
                },
                None => QKeyCode { index: unmapped_key() },
            };
            keys.push(key);
        }
        assert(qkeycodes(self.keymaps@).take(qkeycodes(self.keymaps@).len() as int)
            =~= qkeycodes(self.keymaps@));
        keys
    }

    /// The places of the keys by their codes, or else nothing where the name of
    /// one is none that there is.
    pub fn try_qkeycode_keycodes(&self) -> (keys: Option<Vec<QKeyCode>>)
        ensures
            keys is Some <==> all_known(self.keymaps@),
            keys matches Some(k) ==> k@ == qkeycodes(self.keymaps@),
    {
        let mut code: u32 = 0;
        while code < 0x1_0000
            invariant
                code <= 0x1_0000,
                forall|c: u16| #[trigger]
                    first_with(self.keymaps@, c) matches Some(k) ==> c < code ==> is_known(k),
            decreases 0x1_0000 - code,
        {
            if let Some(keymap) = self.find(code as u16) {
                assert(first_with(self.keymaps@, code as u16) == Some(*keymap));
                if !keymap.knows_qkeycode() {
                    return None;
                }
            }
            code = code + 1;
        }
        Some(self.qkeycode_keycodes())
    }

    /// The numbers of the keys by their codes.
    pub fn qnum_keycodes(&self) -> (nums: Vec<u8>)
        ensures
            nums@ == qnums(self.keymaps@),
    {
        let max = self.max_keycode();
        let mut nums: Vec<u8> = Vec::new();
        for i in 0..max as u32 + 1
            invariant
                max == max_code(self.keymaps@),
                nums@ =~= qnums(self.keymaps@).take(i as int),
        {
            let num = match self.find(i as u16) {
                Some(keymap) => keymap.qemu_qnum(),
                None => 0,
            };
            nums.push(num);
        }
        assert(qnums(self.keymaps@).take(qnums(self.keymaps@).len() as int) =~= qnums(
            self.keymaps@,
        ));
        nums
    }
}

/// The number of a key for the machine is its number for a keyboard of the set 1;
/// one that takes two bytes is told by its low seven bits and the high bit.
pub proof fn numbers_are_those_of_the_first_set(k: Keymap, qnum: u8)
    requires
        call_ensures(Keymap::qemu_qnum, (&k,), qnum),
    ensures
        k.at_set1_keycode is None ==> qnum == 0,
        k.at_set1_keycode matches Some(at1) ==> {
            &&& at1 < 0x80 ==> qnum == at1
            &&& at1 >= 0x80 ==> qnum >= 0x80 && qnum % 0x80 == at1 % 0x80
        },
{
}

proof fn lemma_found_first(keymaps: Seq<Keymap>, code: u16)
    ensures
        match first_with(keymaps, code) {
            Some(k) => exists|i: int|
                {
                    &&& 0 <= i < keymaps.len()
                    &&& #[trigger] keymaps[i] == k
                    &&& k.linux_keycode == code
                    &&& forall|j: int| 0 <= j < i ==> (#[trigger] keymaps[j]).linux_keycode != code
                },
            None => forall|i: int|
                0 <= i < keymaps.len() ==> (#[trigger] keymaps[i]).linux_keycode != code,
        },
    decreases keymaps.len(),
{
    if keymaps.len() > 0 {
        if keymaps[0].linux_keycode == code {
            assert(keymaps[0] == keymaps[0]);
        } else {
            let rest = keymaps.drop_first();
            lemma_found_first(rest, code);
            match first_with(rest, code) {
                Some(k) => {
                    let i = choose|i: int|
                        {
                            &&& 0 <= i < rest.len()
                            &&& #[trigger] rest[i] == k
                            &&& k.linux_keycode == code
                            &&& forall|j: int|
                                0 <= j < i ==> (#[trigger] rest[j]).linux_keycode != code
                        };
                    assert(keymaps[i + 1] == k);
                    assert forall|j: int| 0 <= j < i + 1 implies (
                    #[trigger] keymaps[j]).linux_keycode != code by {
                        if j > 0 {
                            assert(rest[j - 1] == keymaps[j]);
                        }
                    }
                },
                None => {
                    assert forall|i: int| 0 <= i < keymaps.len() implies (
                    #[trigger] keymaps[i]).linux_keycode != code by {
                        if i > 0 {
                            assert(rest[i - 1] == keymaps[i]);
                        }
                    }
                },
            }
        }
    }
}

proof fn lemma_largest(keymaps: Seq<Keymap>)
    ensures
        forall|i: int|
            0 <= i < keymaps.len() ==> (#[trigger] keymaps[i]).linux_keycode <= max_code(keymaps),
        max_code(keymaps) == 0 || exists|i: int|
            0 <= i < keymaps.len() && (#[trigger] keymaps[i]).linux_keycode == max_code(keymaps),
    decreases keymaps.len(),
{
    if keymaps.len() > 0 {
        let fewer = keymaps.drop_last();
        lemma_largest(fewer);
        assert forall|i: int| 0 <= i < keymaps.len() implies (#[trigger] keymaps[i]).linux_keycode
            <= max_code(keymaps) by {
            if i < fewer.len() {
                assert(fewer[i] == keymaps[i]);
            }
        }
        if max_code(keymaps) != 0 {
            if max_code(keymaps) == max_code(fewer) {
                let i = choose|i: int|
                    0 <= i < fewer.len() && (#[trigger] fewer[i]).linux_keycode == max_code(fewer);
                assert(keymaps[i] == fewer[i]);
            } else {
                assert(keymaps[keymaps.len() - 1].linux_keycode == max_code(keymaps));
            }
        }
    }
}

/// The lists of the numbers and of the places reach up to the largest code of a key.
/// At each code stands the number, and the place, of the first key with that code;
/// where there is none, or it has none, the number zero and the first place stand.
pub proof fn lists_are_by_code(
    table: Keymaps,
    nums: Vec<u8>,
    keys: Vec<QKeyCode>,
    at: int,
    code: int,
    qnum: u8,
    key: Option<QKeyCode>,
)
    requires
        all_known(table.keymaps@),
        call_ensures(Keymaps::qnum_keycodes, (&table,), nums),
        call_ensures(Keymaps::qkeycode_keycodes, (&table,), keys),
        0 <= at < table.keymaps@.len() ==> call_ensures(
            Keymap::qemu_qnum,
            (&table.keymaps@[at],),
            qnum,
        ) && call_ensures(Keymap::qemu_qkeycode, (&table.keymaps@[at],), key),
    ensures
        keys@.len() == nums@.len(),
        nums@.len() > 0,
        forall|i: int|
            0 <= i < table.keymaps@.len() ==> (#[trigger] table.keymaps@[i]).linux_keycode
                < nums@.len(),
        nums@.len() > 1 ==> exists|i: int|
            0 <= i < table.keymaps@.len() && (#[trigger] table.keymaps@[i]).linux_keycode
                == nums@.len() - 1,
        0 <= at < table.keymaps@.len() && table.keymaps@[at].linux_keycode == code && (forall|i: int|
            0 <= i < at ==> (#[trigger] table.keymaps@[i]).linux_keycode != code) ==> {
            &&& nums@[code] == qnum
            &&& keys@[code].index == if key is Some {
                key->0.index
            } else {
                0
            }
        },
        0 <= code < nums@.len() && (forall|i: int|
            0 <= i < table.keymaps@.len() ==> (#[trigger] table.keymaps@[i]).linux_keycode != code)
            ==> nums@[code] == 0 && keys@[code].index == 0,
{
    let keymaps = table.keymaps@;
    lemma_largest(keymaps);
    if 0 <= code <= u16::MAX {
        lemma_found_first(keymaps, code as u16);
    }
    if 0 <= at < keymaps.len() {
        assert(keymaps[at].linux_keycode <= max_code(keymaps));
        if keymaps[at].linux_keycode == code && forall|i: int|
            0 <= i < at ==> (#[trigger] keymaps[i]).linux_keycode != code {
            let found = first_with(keymaps, code as u16);
            assert(found is Some) by {
                if found is None {
                    assert(keymaps[at].linux_keycode != code);
                }
            }
            let i = choose|i: int|
                {
                    &&& 0 <= i < keymaps.len()
                    &&& #[trigger] keymaps[i] == found->0
                    &&& found->0.linux_keycode == code
                    &&& forall|j: int| 0 <= j < i ==> (#[trigger] keymaps[j]).linux_keycode != code
                };
            if i < at {
                assert(keymaps[i].linux_keycode != code);
            }
            if at < i {
                assert(keymaps[at].linux_keycode != code);
            }
            assert(is_known(keymaps[at]));
        }
    }
}

/// A key that has no name has no place, and one that has is looked up by its name
/// in lower case; a name that there is none of is told apart from that.
pub proof fn places_are_looked_up_by_name(
    k: Keymap,
    known: bool,
    tried: Option<Option<QKeyCode>>,
)
    requires
        call_ensures(Keymap::knows_qkeycode, (&k,), known),
        call_ensures(Keymap::try_qemu_qkeycode, (&k,), tried),
    ensures
        tried is Some <==> known,
        k.qemu_qkeycode is None ==> tried == Some(None::<QKeyCode>),
        k.qemu_qkeycode matches Some(name) ==> {
            let lower = name@.map_values(
                |c: char|
                    if 'A' as u32 <= c as u32 <= 'Z' as u32 {
                        (c as u32 + 0x20) as char
                    } else {
                        c
                    },
            );
            &&& known <==> key_named(lower) is Some
            &&& known ==> tried == Some(Some(QKeyCode { index: key_named(lower)->0 }))
        },
{
    if let Some(name) = k.qemu_qkeycode {
        let lower = name@.map_values(
            |c: char|
                if 'A' as u32 <= c as u32 <= 'Z' as u32 {
                    (c as u32 + 0x20) as char
                } else {
                    c
                },
        );
        assert forall|i: int| 0 <= i < name@.len() implies #[trigger] lower[i] == lowered(
            name@,
        )[i] by {}
        assert(lower =~= lowered(name@));
    }
}

proof fn lemma_only_field(header: Seq<Seq<char>>, row: Seq<Seq<char>>, at: int)
    requires
        0 <= at < header.len(),
        at < row.len(),
        forall|i: int| 0 <= i < header.len() && i != at ==> #[trigger] header[i] != header[at],
    ensures
        fields_below(header, row, header[at]) == seq![row[at]],
    decreases header.len(),
{
    let fewer = header.drop_last();
    if at == header.len() - 1 {
        lemma_no_field(fewer, row, header[at]);
        assert(fields_below(header, row, header[at]) =~= seq![row[at]]);
    } else {
        assert(fewer[at] == header[at]);
        assert forall|i: int| 0 <= i < fewer.len() && i != at implies #[trigger] fewer[i]
            != fewer[at] by {
            assert(fewer[i] == header[i]);
        }
        lemma_only_field(fewer, row, at);
        assert(header[header.len() - 1] != header[at]);
    }
}

proof fn lemma_no_field(header: Seq<Seq<char>>, row: Seq<Seq<char>>, name: Seq<char>)
    requires
        forall|i: int| 0 <= i < header.len() ==> #[trigger] header[i] != name,
    ensures
        fields_below(header, row, name).len() == 0,
    decreases header.len(),
{
    if header.len() > 0 {
        let fewer = header.drop_last();
        assert forall|i: int| 0 <= i < fewer.len() implies #[trigger] fewer[i] != name by {
            assert(fewer[i] == header[i]);
        }
        lemma_no_field(fewer, row, name);
        assert(header[header.len() - 1] != name);
    }
}

/// Whether a text that may be missing is the one of a field, which is missing where
/// the field is empty.
pub open spec fn is_text_of(text: Option<String>, field: Seq<char>) -> bool {
    &&& text is None <==> field.len() == 0
    &&& text matches Some(own) ==> own@ == field
}

/// A key has from each column of its row what the header names the column for.
pub proof fn columns_are_known_by_name(
    header: Vec<String>,
    row: Vec<String>,
    k: Keymap,
    at: int,
    number: Option<u16>,
    optional: Option<Option<u16>>,
)
    requires
        call_ensures(Keymap::from_row, (&header, &row), Some(k)),
        0 <= at < header@.len(),
        at < row@.len(),
        forall|i: int|
            0 <= i < header@.len() && i != at ==> (#[trigger] header@[i])@ != header@[at]@,
        exists|text: &str| #[trigger]
            call_ensures(hex_serde::deserialize, (text,), number) && text@ == row@[at]@,
        exists|text: &str| #[trigger]
            call_ensures(hex_opt_serde::deserialize, (text,), optional) && text@ == row@[at]@,
    ensures
        ({
            let name = header@[at]@;
            let own = row@[at]@;
            &&& name == "Linux Keycode"@ ==> Some(k.linux_keycode) == number
            &&& name == "Linux Name"@ ==> is_text_of(k.linux_name, own)
            &&& name == "OS-X Name"@ ==> is_text_of(k.mac_name, own)
            &&& name == "Win32 Name"@ ==> is_text_of(k.win32_name, own)
            &&& name == "Xwin XT"@ ==> is_text_of(k.xwin_xt, own)
            &&& name == "Xfree86 KBD XT"@ ==> is_text_of(k.xfree86_kbd_xt, own)
            &&& name == "X11 keysym name"@ ==> is_text_of(k.x11_keysym_name, own)
            &&& name == "HTML code"@ ==> is_text_of(k.html_code, own)
            &&& name == "XKB key name"@ ==> is_text_of(k.xkb_key_name, own)
            &&& name == "QEMU QKeyCode"@ ==> is_text_of(k.qemu_qkeycode, own)
            &&& name == "OS-X Keycode"@ ==> Some(k.mac_keycode) == optional
            &&& name == "AT set1 keycode"@ ==> Some(k.at_set1_keycode) == optional
            &&& name == "AT set2 keycode"@ ==> Some(k.at_set2_keycode) == optional
            &&& name == "AT set3 keycode"@ ==> Some(k.at_set3_keycode) == optional
            &&& name == "USB Keycodes"@ ==> Some(k.usb_keycodes) == optional
            &&& name == "Win32 Keycode"@ ==> Some(k.win32_keycode) == optional
            &&& name == "X11 keysym"@ ==> Some(k.x11_keysym) == optional
            &&& name == "Sun KBD"@ ==> Some(k.sub_kbd) == optional
            &&& name == "Apple ADB"@ ==> Some(k.apple_adb) == optional
        }),
{
    let names = texts(header@);
    let fields = texts(row@);
    assert(names[at] == header@[at]@ && fields[at] == row@[at]@);
    assert forall|i: int| 0 <= i < names.len() && i != at implies #[trigger] names[i]
        != names[at] by {
        assert(names[i] == header@[i]@);
    }
    lemma_only_field(names, fields, at);
}

/// A table has one key for each row below its header, in order, and is none where a
/// row stands for no key.
pub proof fn tables_have_a_key_for_each_row(
    rows: Vec<Vec<String>>,
    keymaps: Result<Keymaps, BadTable>,
    i: int,
    key: Option<Keymap>,
)
    requires
        call_ensures(Keymaps::from_rows, (&rows,), keymaps),
        1 <= i < rows@.len(),
        call_ensures(Keymap::from_row, (&rows@[0], &rows@[i]), key),
    ensures
        key is None ==> keymaps is Err,
        keymaps matches Ok(table) ==> {
            &&& table.keymaps@.len() == rows@.len() - 1
            &&& table.keymaps@[i - 1].linux_keycode == key->0.linux_keycode
            &&& table.keymaps@[i - 1].at_set1_keycode == key->0.at_set1_keycode
            &&& table.keymaps@[i - 1].usb_keycodes == key->0.usb_keycodes
            &&& table.keymaps@[i - 1].x11_keysym == key->0.x11_keysym
        },
{
    let all = row_texts(rows@);
    assert(all[0] =~= texts(rows@[0]@));
    assert(all[i] =~= texts(rows@[i]@));
    if let Ok(table) = keymaps {
        assert(is_row(table.keymaps@[i - 1], all[0], all[i]));
    }
    if is_table(all) {
        assert(is_key_row(all[0], all[i]));
    }
}

/// A table in the form of comma-separated values is read as its rows are.
pub proof fn tables_are_read_row_by_row(data: &[u8], keymaps: Result<Keymaps, BadTable>)
    requires
        call_ensures(Keymaps::from_csv, (data,), keymaps),
    ensures
        csv_rows(data@) is None ==> keymaps is Err,
        csv_rows(data@) matches Some(rows) ==> {
            &&& rows.len() <= 1 ==> keymaps is Ok && keymaps->Ok_0.keymaps@.len() == 0
            &&& keymaps is Ok && rows.len() > 0 ==> keymaps->Ok_0.keymaps@.len() == rows.len() - 1
            &&& keymaps is Ok <==> forall|i: int|
                1 <= i < rows.len() ==> is_key_row(rows[0], #[trigger] rows[i])
            &&& keymaps matches Ok(table) ==> forall|i: int|
                0 <= i < table.keymaps@.len() ==> is_row(
                    #[trigger] table.keymaps@[i],
                    rows[0],
                    rows[i + 1],
                )
        },
{
}

/// The places of the keys are given unless the name of one is none that there is.
pub proof fn places_are_given_where_names_are_known(
    table: Keymaps,
    tried: Option<Vec<QKeyCode>>,
    keys: Vec<QKeyCode>,
)
    requires
        call_ensures(Keymaps::try_qkeycode_keycodes, (&table,), tried),
        all_known(table.keymaps@) ==> call_ensures(Keymaps::qkeycode_keycodes, (&table,), keys),
    ensures
        (forall|i: int|
            0 <= i < table.keymaps@.len() ==> is_known(#[trigger] table.keymaps@[i])) ==> tried is Some,
        tried is Some ==> tried->0@ == keys@,
{
    if forall|i: int| 0 <= i < table.keymaps@.len() ==> is_known(#[trigger] table.keymaps@[i]) {
        assert forall|code: u16| #[trigger]
            first_with(table.keymaps@, code) matches Some(k) ==> is_known(k) by {
            lemma_found_first(table.keymaps@, code);
        }
    }
}

} // verus!
