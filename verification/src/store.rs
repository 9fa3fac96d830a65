//! The device's storage: what is written to it, and in which of its two partitions
//! a key lives.

use vstd::prelude::*;
use vstd::string::StringExecFns;
use vstd::utf8::{decode_utf8, encode_utf8, encode_utf8_decode_utf8, encode_utf8_valid_utf8, valid_utf8};
use crate::dash;
use crate::ddu::pins::DevicePins;
use crate::text::{same_str, utf8_str};

verus! {

/// A value to be stored under a key.
#[derive(Debug, PartialEq)]
pub enum Put {
    Text(&'static str, String),
    U8(&'static str, u8),
    U16(&'static str, u16),
    /// The pins, as JSON under `pinsjson`.
    Pins(DevicePins),
    /// The pins of a board without a backlight pin, as JSON under `pinsjson`.
    BoardPins(dash::state::DevicePins),
}

/// A value to be stored, as plain values.
pub enum PutView {
    Text(Seq<char>, Seq<char>),
    U8(Seq<char>, u8),
    U16(Seq<char>, u16),
    Pins(DevicePins),
    /// The pins of a board without a backlight pin, as JSON under `pinsjson`.
    BoardPins(dash::state::DevicePins),
}

impl View for Put {
    type V = PutView;

    open spec fn view(&self) -> PutView {
        match *self {
            Put::Text(k, s) => PutView::Text(k@, s@),
            Put::U8(k, v) => PutView::U8(k@, v),
            Put::U16(k, v) => PutView::U16(k@, v),
            Put::Pins(p) => PutView::Pins(p),
            Put::BoardPins(p) => PutView::BoardPins(p),
        }
    }
}

/// The values to be stored, as plain values.
pub open spec fn put_views(v: Seq<Put>) -> Seq<PutView> {
    v.map_values(|p: Put| p@)
}

/// The keys of the large texts, which have a partition of their own where the device
/// has one.
pub open spec fn is_blob_key(key: Seq<char>) -> bool {
    ||| key == "uijson"@
    ||| key == "edjson"@
    ||| key == "racejson"@
    ||| key == "carjson"@
    ||| key == "profjson"@
    ||| key == "buttonsjson"@
}

/// Whether a key belongs to the large texts.
pub fn blob_key(key: &str) -> (r: bool)
    ensures
        r == is_blob_key(key@),
{
    same_str(key, "uijson") || same_str(key, "edjson") || same_str(key, "racejson") || same_str(
        key,
        "carjson",
    ) || same_str(key, "profjson") || same_str(key, "buttonsjson")
}

/// How a text is written.
#[derive(Clone, Copy, Debug, PartialEq, Eq, Structural)]
pub enum Route {
    /// To the partition of the large texts; once that has worked, the copy in the
    /// main one goes.
    Blob,
    /// To the main partition.
    Main,
}

/// How a text is written under a key.
pub fn route(key: &str, has_blob: bool) -> (r: Route)
    ensures
        r == if has_blob && is_blob_key(key@) {
            Route::Blob
        } else {
            Route::Main
        },
{
    if has_blob && blob_key(key) {
        Route::Blob
    } else {
        Route::Main
    }
}

/// The text of stored bytes; `None` where they are no UTF-8.
pub open spec fn bytes_text(b: Seq<u8>) -> Option<Seq<char>> {
    if valid_utf8(b) {
        Some(decode_utf8(b))
    } else {
        None
    }
}

/// The text that is read under a key, given what the two partitions hold there: the
/// partition of the large texts goes first, for the keys that live in it.
pub open spec fn stored_of(key: Seq<char>, blob: Option<Seq<u8>>, main: Option<Seq<u8>>) -> Option<
    Seq<char>,
> {
    match (blob, main) {
        (Some(b), _) if is_blob_key(key) => bytes_text(b),
        (_, Some(b)) => bytes_text(b),
        _ => None,
    }
}

/// The text of stored bytes.
fn text_of(b: &[u8]) -> (r: Option<String>)
    ensures
        match r {
            Some(s) => bytes_text(b@) == Some(s@),
            None => bytes_text(b@) is None,
        },
{
    match utf8_str(b) {
        Some(s) => {
            proof {
                vstd::utf8::encode_utf8_decode_utf8(s@);
            }
            Some(String::from_str(s))
        },
        None => None,
    }
}

/// The text that is read under a key.
pub fn stored_text(key: &str, blob: Option<&[u8]>, main: Option<&[u8]>) -> (r: Option<String>)
    ensures
        ({
            let b = match blob {
                Some(x) => Some(x@),
                None => None,
            };
            let m = match main {
                Some(x) => Some(x@),
                None => None,
            };
            match r {
                Some(s) => stored_of(key@, b, m) == Some(s@),
                None => stored_of(key@, b, m) is None,
            }
        }),
{
    if blob_key(key) {
        match blob {
            Some(b) => {
                return text_of(b);
            },
            None => {},
        }
    }
    match main {
        Some(b) => text_of(b),
        None => None,
    }
}

/// A text that has moved to the partition of the large texts is read from there,
/// whatever the main partition still holds; one that never moved is still read from
/// the main one.
pub proof fn moved_text_wins(key: Seq<char>, new: Seq<u8>, stale: Option<Seq<u8>>)
    requires
        is_blob_key(key),
    ensures
        stored_of(key, Some(new), stale) == bytes_text(new),
        stored_of(key, None, Some(new)) == bytes_text(new),
{
}

// ---------------------------------------------------------------- boot counter

/// One more, up to 255.
pub open spec fn bumped(n: u8) -> u8 {
    if n == 255 {
        255
    } else {
        (n + 1) as u8
    }
}

/// A boot begins: the number of boots in a row that have not been confirmed, this
/// one counted, and what is to be stored. Without a storage every boot is the first.
pub fn boot_attempt_begin(has_store: bool, stored: Option<u8>) -> (r: (u8, Option<Put>))
    ensures
        ({
            let n = bumped(
                match stored {
                    Some(x) => x,
                    None => 0,
                },
            );
            if has_store {
                r.0 == n && (r.1 matches Some(p) && p@ == PutView::U8("bootfail"@, n))
            } else {
                r.0 == 1 && r.1 is None
            }
        }),
{
    if !has_store {
        return (1, None);
    }
    let old: u8 = match stored {
        Some(x) => x,
        None => 0,
    };
    let n: u8 = if old == 255 {
        255
    } else {
        old + 1
    };
    (n, Some(Put::U8("bootfail", n)))
}

/// A boot is good: what is to be stored, nothing where the counter is 0 already.
pub fn boot_mark_ok(stored: Option<u8>) -> (r: Option<Put>)
    ensures
        match r {
            Some(p) => (stored matches Some(x) && x != 0) && p@ == PutView::U8("bootfail"@, 0),
            None => stored is None || stored == Some(0u8),
        },
{
    match stored {
        Some(n) => if n != 0 {
            Some(Put::U8("bootfail", 0))
        } else {
            None
        },
        None => None,
    }
}

/// Which of the two slots holds the firmware to boot.
pub fn set_main_slot(idx: u8) -> (r: Put)
    ensures
        r@ == PutView::U8("mainslot"@, (idx % 2) as u8),
{
    Put::U8("mainslot", idx % 2)
}

/// The counter after that many boots in a row without a confirmation.
pub open spec fn after_boots(start: u8, boots: nat) -> u8
    decreases boots,
{
    if boots == 0 {
        start
    } else {
        bumped(after_boots(start, (boots - 1) as nat))
    }
}

/// Boots in a row that are never confirmed are counted, up to 255.
pub proof fn failed_boots_count(boots: nat)
    ensures
        after_boots(0, boots) == if boots < 255 {
            boots as int
        } else {
            255
        },
    decreases boots,
{
    if boots > 0 {
        failed_boots_count((boots - 1) as nat);
    }
}

/// The layouts, the editor's copy, the car, the profile and the buttons are large
/// texts. Any other key lives in the main partition alone, whatever the other holds.
pub proof fn other_keys_keep_to_the_main(key: Seq<char>, blob: Option<Seq<u8>>, main: Seq<u8>)
    ensures
        is_blob_key("uijson"@) && is_blob_key("edjson"@) && is_blob_key("racejson"@)
            && is_blob_key("carjson"@) && is_blob_key("profjson"@) && is_blob_key("buttonsjson"@),
        key != "uijson"@ && key != "edjson"@ && key != "racejson"@ && key != "carjson"@ && key
            != "profjson"@ && key != "buttonsjson"@ ==> stored_of(key, blob, Some(main))
            == bytes_text(main) && stored_of(key, blob, None) is None,
        blob is None ==> stored_of(key, blob, None) is None,
{
}

/// A text that was stored is read as it was written, from either partition; bytes
/// that are no text are not.
pub proof fn stored_texts_are_read_back(key: Seq<char>, s: Seq<char>, b: Seq<u8>)
    ensures
        stored_of(key, None, Some(encode_utf8(s))) == Some(s),
        is_blob_key(key) ==> stored_of(key, Some(encode_utf8(s)), None) == Some(s),
        !valid_utf8(b) ==> stored_of(key, None, Some(b)) is None,
{
    encode_utf8_valid_utf8(s);
    encode_utf8_decode_utf8(s);
}

} // verus!
