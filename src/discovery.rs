//! Choosing, from directory listings, the keyboard backlight control and
//! the input event devices. Names are raw bytes, as the file system holds
//! them.
use vstd::prelude::*;
use crate::backlight::BacklightError;

verus! {

/// `kbd_backlight`: the name of a keyboard backlight control ends with it.
pub open spec fn backlight_suffix() -> Seq<u8> {
    seq![0x6bu8, 0x62u8, 0x64u8, 0x5fu8, 0x62u8, 0x61u8, 0x63u8, 0x6bu8, 0x6cu8, 0x69u8, 0x67u8, 0x68u8, 0x74u8]
}

/// `event`: the name of an input event device starts with it.
pub open spec fn event_prefix() -> Seq<u8> {
    seq![0x65u8, 0x76u8, 0x65u8, 0x6eu8, 0x74u8]
}

pub open spec fn has_suffix(s: Seq<u8>, suffix: Seq<u8>) -> bool {
    suffix.len() <= s.len() && s.subrange(s.len() - suffix.len(), s.len() as int) == suffix
}

pub open spec fn has_prefix(s: Seq<u8>, prefix: Seq<u8>) -> bool {
    prefix.len() <= s.len() && s.subrange(0, prefix.len() as int) == prefix
}

/// A directory entry: its name, and whether it is of the kind looked for
/// (a directory for backlight controls, a character device for input).
pub struct Entry {
    pub name: Vec<u8>,
    pub is_kind: bool,
}

pub open spec fn is_backlight_entry(e: Entry) -> bool {
    e.is_kind && has_suffix(e.name@, backlight_suffix())
}

pub open spec fn is_input_entry(e: Entry) -> bool {
    e.is_kind && has_prefix(e.name@, event_prefix())
}

fn ends_with(s: &Vec<u8>, suffix: &Vec<u8>) -> (r: bool)
    ensures
        r == has_suffix(s@, suffix@),
{
    if suffix.len() > s.len() {
        return false;
    }
    let off = s.len() - suffix.len();
    let mut i: usize = 0;
    while i < suffix.len()
        invariant
            i <= suffix@.len(),
            off as int + suffix@.len() == s@.len(),
            s@.len() == s.len(),
            forall|k: int| 0 <= k < i ==> s@[off + k] == suffix@[k],
        decreases suffix@.len() - i,
    {
        if s[off + i] != suffix[i] {
            assert(s@.subrange(off as int, s@.len() as int)[i as int] != suffix@[i as int]);
            return false;
        }
        i = i + 1;
    }
    assert(s@.subrange(off as int, s@.len() as int) =~= suffix@);
    true
}

fn starts_with(s: &Vec<u8>, prefix: &Vec<u8>) -> (r: bool)
    ensures
        r == has_prefix(s@, prefix@),
{
    if prefix.len() > s.len() {
        return false;
    }
    let mut i: usize = 0;
    while i < prefix.len()
        invariant
            i <= prefix@.len() <= s@.len(),
            forall|k: int| 0 <= k < i ==> s@[k] == prefix@[k],
        decreases prefix@.len() - i,
    {
        if s[i] != prefix[i] {
            assert(s@.subrange(0, prefix@.len() as int)[i as int] != prefix@[i as int]);
            return false;
        }
        i = i + 1;
    }
    assert(s@.subrange(0, prefix@.len() as int) =~= prefix@);
    true
}

/// The first entry that is a keyboard backlight control directory;
/// `NotFound` when there is none.
pub fn find_keyboard_backlight(entries: &Vec<Entry>) -> (r: Result<usize, BacklightError>)
    ensures
        match r {
            Ok(i) => i < entries@.len() && is_backlight_entry(entries@[i as int]) && forall|
                j: int,
            | 0 <= j < i ==> !is_backlight_entry(#[trigger] entries@[j]),
            Err(e) => e == BacklightError::NotFound && forall|j: int|
                0 <= j < entries@.len() ==> !is_backlight_entry(#[trigger] entries@[j]),
        },
{
    let suffix: Vec<u8> = vec![0x6b, 0x62, 0x64, 0x5f, 0x62, 0x61, 0x63, 0x6b, 0x6c, 0x69, 0x67, 0x68, 0x74];
    assert(suffix@ =~= backlight_suffix());
    let mut i: usize = 0;
    while i < entries.len()
        invariant
            i <= entries@.len(),
            suffix@ == backlight_suffix(),
            forall|j: int| 0 <= j < i ==> !is_backlight_entry(#[trigger] entries@[j]),
        decreases entries@.len() - i,
    {
        if entries[i].is_kind && ends_with(&entries[i].name, &suffix) {
            return Ok(i);
        }
        i = i + 1;
    }
    Err(BacklightError::NotFound)
}

/// The indices, in order, of the entries that are input event devices.
pub fn select_input_devices(entries: &Vec<Entry>) -> (r: Vec<usize>)
    ensures
        forall|k: int| 0 <= k < r@.len() ==> #[trigger] r@[k] < entries@.len()
            && is_input_entry(entries@[r@[k] as int]),
        forall|k: int, l: int| 0 <= k < l < r@.len() ==> r@[k] < r@[l],
        forall|j: int| 0 <= j < entries@.len() && is_input_entry(#[trigger] entries@[j]) ==> exists|
            k: int,
        | 0 <= k < r@.len() && r@[k] == j,
{
    let prefix: Vec<u8> = vec![0x65, 0x76, 0x65, 0x6e, 0x74];
    assert(prefix@ =~= event_prefix());
    let mut r: Vec<usize> = Vec::new();
    let mut i: usize = 0;
    while i < entries.len()
        invariant
            i <= entries@.len(),
            prefix@ == event_prefix(),
            forall|k: int| 0 <= k < r@.len() ==> #[trigger] r@[k] < i && is_input_entry(
                entries@[r@[k] as int],
            ),
            forall|k: int, l: int| 0 <= k < l < r@.len() ==> r@[k] < r@[l],
            forall|j: int| 0 <= j < i && is_input_entry(#[trigger] entries@[j]) ==> exists|k: int|
                0 <= k < r@.len() && r@[k] == j,
        decreases entries@.len() - i,
    {
        let ghost before = r@;
        if entries[i].is_kind && starts_with(&entries[i].name, &prefix) {
            r.push(i);
            proof {
                assert forall|j: int|
                    0 <= j < i + 1 && is_input_entry(#[trigger] entries@[j]) implies exists|k: int|
                    0 <= k < r@.len() && r@[k] == j by {
                    if j == i {
                        assert(r@[r@.len() - 1] == j);
                    } else {
                        let k = choose|k: int| 0 <= k < before.len() && before[k] == j;
                        assert(r@[k] == j);
                    }
                }
            }
        }
        i = i + 1;
    }
    r
}

} // verus!
