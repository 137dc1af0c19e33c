//! Finding the keyboard among the input devices that the system lists.

use crate::chars::{
    find, find_text, from_chars, lines_of, rows, slice, split_lines, to_chars,
};
use crate::sorting::{part_views, split, split_parts};
use std::path::Path;
use vstd::prelude::*;
use vstd::string::StringExecFns;

verus! {

/// The directory of the input devices.
pub const EVENT_DIR: &'static str = "/dev/input/";

/// The last component of `path`, if it has one.
pub uninterp spec fn file_name_of(path: Seq<char>) -> Option<Seq<char>>;

/// `Path::file_name` gives the last component of a path, and none where the
/// path has none, as where it ends in `..`. It goes by the text of the path
/// alone.
#[verifier::external_body]
fn file_name(path: &str) -> (name: Option<String>)
    ensures
        match name {
            Some(n) => file_name_of(path@) == Some(n@),
            None => file_name_of(path@) is None,
        },
{
    Path::new(path).file_name().map(|name| name.to_string_lossy().to_string())
}

/// Why no keyboard could be looked for.
#[derive(Debug, Clone, Copy, PartialEq, Eq, Structural)]
pub enum DeviceError {
    /// A line of handlers has no last component.
    NoFileName,
}

/// The first of `parts` that holds `event`, and `whole` if none does.
pub open spec fn event_part(parts: Seq<Seq<char>>, whole: Seq<char>) -> Seq<char>
    decreases parts.len(),
{
    if parts.len() == 0 {
        whole
    } else if find(parts[0], "event"@) is Some {
        parts[0]
    } else {
        event_part(parts.drop_first(), whole)
    }
}

/// What reading the list of devices has found: the handlers of the device
/// read last, and the keyboard once it is found.
pub struct DeviceScan {
    pub handlers: Seq<char>,
    pub keyboard: Option<Seq<char>>,
    pub failed: bool,
}

/// What has been found after one more line. Once the keyboard is found, or a
/// line has failed, nothing changes any more. A line of handlers is kept by
/// its last component. A line of the events that a keyboard sends makes the
/// device read last the keyboard: its file is the first of its handlers that
/// holds `event`.
pub open spec fn scan_device_line(scan: DeviceScan, line: Seq<char>) -> DeviceScan {
    if scan.keyboard is Some || scan.failed {
        scan
    } else {
        let named = find(line, "H: Handlers=sysrq"@) is Some;
        if named && file_name_of(line) is None {
            DeviceScan { failed: true, ..scan }
        } else {
            let handlers = if named {
                file_name_of(line)->0
            } else {
                scan.handlers
            };
            if find(line, "EV=120013"@) is Some {
                DeviceScan {
                    handlers,
                    keyboard: Some(EVENT_DIR@ + event_part(split(handlers, ' '), handlers)),
                    failed: false,
                }
            } else {
                DeviceScan { handlers, ..scan }
            }
        }
    }
}

/// What has been found after `lines`.
pub open spec fn scan_devices(lines: Seq<Seq<char>>) -> DeviceScan
    decreases lines.len(),
{
    if lines.len() == 0 {
        DeviceScan { handlers: Seq::empty(), keyboard: None, failed: false }
    } else {
        scan_device_line(scan_devices(lines.drop_last()), lines.last())
    }
}

/// The first of `parts` that holds `event`, and `whole` if none does.
fn first_event_part(parts: &Vec<Vec<char>>, whole: &Vec<char>) -> (part: Vec<char>)
    ensures
        part@ == event_part(part_views(parts@), whole@),
{
    let pattern = to_chars("event");
    let mut i: usize = 0;
    let ghost all = part_views(parts@);
    proof {
        assert(all.skip(0) =~= all);
    }
    while i < parts.len()
        invariant
            i <= parts.len(),
            all == part_views(parts@),
            pattern@ == "event"@,
            event_part(all, whole@) == event_part(all.skip(i as int), whole@),
        decreases parts.len() - i,
    {
        proof {
            assert(all.skip(i as int)[0] == parts@[i as int]@);
            assert(all.skip(i as int).drop_first() =~= all.skip(i + 1));
        }
        if find_text(&parts[i], &pattern).is_some() {
            let part = slice(&parts[i], 0, parts[i].len());
            proof {
                assert(part@ =~= parts@[i as int]@);
            }
            return part;
        }
        i += 1;
    }
    let part = slice(whole, 0, whole.len());
    proof {
        assert(part@ =~= whole@);
    }
    part
}

/// The file of the keyboard among the devices that `devices` lists, which is
/// what the system's list of input devices holds; the empty name where it lists
/// no keyboard.
pub fn nix_find_keyboard_device(devices: &str) -> (keyboard: Result<String, DeviceError>)
    ensures
        keyboard is Err <==> scan_devices(lines_of(devices@)).failed,
        keyboard matches Ok(file) ==> file@ == match scan_devices(lines_of(devices@)).keyboard {
            Some(k) => k,
            None => Seq::empty(),
        },
{
    let lines = split_lines(&to_chars(devices));
    let handlers_mark = to_chars("H: Handlers=sysrq");
    let events_mark = to_chars("EV=120013");
    let mut handlers: Vec<char> = Vec::new();
    let mut i: usize = 0;
    let ghost all = rows(lines@);
    proof {
        assert(all.take(0) =~= Seq::<Seq<char>>::empty());
    }
    while i < lines.len()
        invariant
            i <= lines.len(),
            all == rows(lines@),
            all == lines_of(devices@),
            handlers_mark@ == "H: Handlers=sysrq"@,
            events_mark@ == "EV=120013"@,
            scan_devices(all.take(i as int)) == (DeviceScan {
                handlers: handlers@,
                keyboard: None,
                failed: false,
            }),
        decreases lines.len() - i,
    {
        let line = &lines[i];
        proof {
            assert(all.take(i + 1).drop_last() =~= all.take(i as int));
            assert(all.take(i + 1).last() == line@);
        }
        if find_text(line, &handlers_mark).is_some() {
            match file_name(from_chars(line).as_str()) {
                Some(name) => {
                    handlers = to_chars(name.as_str());
                },
                None => {
                    proof {
                        assert(scan_devices(all.take(i + 1)).failed);
                        lemma_scan_is_final(all, i + 1);
                    }
                    return Err(DeviceError::NoFileName);
                },
            }
        }
        if find_text(line, &events_mark).is_some() {
            let parts = split_parts(&handlers, ' ');
            let part = first_event_part(&parts, &handlers);
            let mut file = String::from_str(EVENT_DIR);
            let mut k: usize = 0;
            while k < part.len()
                invariant
                    k <= part.len(),
                    file@ == EVENT_DIR@ + part@.take(k as int),
                decreases part.len() - k,
            {
                file.push(part[k]);
                k += 1;
                proof {
                    assert(file@ =~= EVENT_DIR@ + part@.take(k as int));
                }
            }
            proof {
                assert(part@.take(part.len() as int) =~= part@);
                assert(scan_devices(all.take(i + 1)).keyboard == Some(file@));
                lemma_scan_is_final(all, i + 1);
            }
            return Ok(file);
        }
        i += 1;
    }
    proof {
        assert(all.take(lines.len() as int) =~= all);
    }
    Ok(String::new())
}

/// Once the keyboard is found or a line has failed, the lines that follow
/// change nothing.
pub proof fn lemma_scan_is_final(lines: Seq<Seq<char>>, n: int)
    requires
        0 <= n <= lines.len(),
        scan_devices(lines.take(n)).keyboard is Some || scan_devices(lines.take(n)).failed,
    ensures
        scan_devices(lines) == scan_devices(lines.take(n)),
    decreases lines.len() - n,
{
    if n == lines.len() {
        assert(lines.take(n) =~= lines);
    } else {
        assert(lines.take(n + 1).drop_last() =~= lines.take(n));
        lemma_scan_is_final(lines, n + 1);
    }
}

} // verus!
