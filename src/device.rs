//! Recognizing a mounted reading device and tracking its connection.
use vstd::prelude::*;
use crate::models::KoboDevice;
use crate::export::{trim, trim_chars};
use crate::covers::join_path_exec;
use crate::covers::join_path;
use crate::text::{chars_of, string_of, sub_chars};
use crate::extraction::{clone_opt, opt_view};

verus! {

broadcast use vstd::string::group_string_axioms;

/// Looks for reading devices among the volumes mounted under one directory.
pub struct DeviceDetector {
    volumes_path: String,
}

/// Database of a device, relative to the device root.
pub open spec fn database_path_of(device_root: Seq<char>) -> Seq<char> {
    join_path(join_path(device_root, ".kobo"@), "KoboReader.sqlite"@)
}

/// The trailing segment of `p` after its last `/`, ignoring trailing `/`s.
pub open spec fn last_segment(p: Seq<char>) -> Seq<char>
    decreases p.len(),
{
    if p.len() == 0 {
        Seq::empty()
    } else if p.last() == '/' {
        last_segment(p.drop_last())
    } else {
        segment_tail(p)
    }
}

/// The characters of `p` after its last `/`.
pub open spec fn segment_tail(p: Seq<char>) -> Seq<char>
    decreases p.len(),
{
    if p.len() == 0 || p.last() == '/' {
        Seq::empty()
    } else {
        segment_tail(p.drop_last()).push(p.last())
    }
}

/// Name of a volume: its last path segment, or `Unknown` when it has none.
pub open spec fn volume_name(p: Seq<char>) -> Seq<char> {
    let s = last_segment(p);
    if s.len() == 0 || s == "."@ || s == ".."@ {
        "Unknown"@
    } else {
        s
    }
}

/// Serial number held in a device's version file: its trimmed text, when not empty.
pub open spec fn serial_of(content: Seq<char>) -> Option<Seq<char>> {
    if trim(content).len() > 0 {
        Some(trim(content))
    } else {
        None
    }
}

fn last_segment_exec(p: &Vec<char>) -> (r: Vec<char>)
    ensures
        r@ == last_segment(p@),
{
    let mut end: usize = p.len();
    assert(p@.take(end as int) =~= p@);
    while end > 0 && p[end - 1] == '/'
        invariant
            end <= p@.len(),
            last_segment(p@) == last_segment(p@.take(end as int)),
        decreases end,
    {
        assert(p@.take(end as int).drop_last() =~= p@.take(end - 1));
        end -= 1;
    }
    let mut start: usize = end;
    while start > 0 && p[start - 1] != '/'
        invariant
            start <= end <= p@.len(),
            segment_tail(p@.take(end as int)) == segment_tail(p@.take(start as int)) + p@.subrange(
                start as int,
                end as int,
            ),
        decreases start,
    {
        assert(p@.take(start as int).drop_last() =~= p@.take(start - 1));
        assert(p@.subrange(start - 1, end as int) =~= seq![p@[start - 1]] + p@.subrange(
            start as int,
            end as int,
        ));
        assert(segment_tail(p@.take(start as int)) == segment_tail(p@.take(start - 1)).push(
            p@[start - 1],
        ));
        assert(segment_tail(p@.take(start - 1)).push(p@[start - 1]) + p@.subrange(
            start as int,
            end as int,
        ) =~= segment_tail(p@.take(start - 1)) + p@.subrange(start - 1, end as int));
        start -= 1;
    }
    assert(segment_tail(p@.take(start as int)) =~= Seq::<char>::empty());
    assert(segment_tail(p@.take(end as int)) =~= p@.subrange(start as int, end as int));
    sub_chars(p, start, end)
}

/// Name of the volume mounted at `path`.
pub fn volume_name_exec(path: &str) -> (r: String)
    ensures
        r@ == volume_name(path@),
{
    let s = last_segment_exec(&chars_of(path));
    proof {
        reveal_strlit(".");
        reveal_strlit("..");
    }
    let is_dot = s.len() == 1 && s[0] == '.';
    let is_dots = s.len() == 2 && s[0] == '.' && s[1] == '.';
    proof {
        if is_dot {
            assert(s@ =~= "."@);
        }
        if is_dots {
            assert(s@ =~= ".."@);
        }
        if s@ == "."@ {
            assert(s@[0] == '.');
        }
        if s@ == ".."@ {
            assert(s@[0] == '.' && s@[1] == '.');
        }
    }
    if s.len() == 0 || is_dot || is_dots {
        "Unknown".to_string()
    } else {
        string_of(&s)
    }
}

/// Serial number held in a device's version file.
pub fn read_serial_number(content: &str) -> (r: Option<String>)
    ensures
        match r {
            Some(s) => serial_of(content@) == Some(s@),
            None => serial_of(content@) is None,
        },
{
    let t = trim_chars(&chars_of(content));
    if t.len() > 0 {
        Some(string_of(&t))
    } else {
        None
    }
}

impl DeviceDetector {
    pub closed spec fn root(&self) -> Seq<char> {
        self.volumes_path@
    }

    pub fn new(volumes_path: String) -> (r: DeviceDetector)
        ensures
            r.root() == volumes_path@,
    {
        DeviceDetector { volumes_path }
    }

    pub fn volumes_path(&self) -> (r: &str)
        ensures
            r@ == self.root(),
    {
        self.volumes_path.as_str()
    }

    /// Where the device's database lies (whether it exists is for the caller to check).
    pub fn get_database_path(&self, device: &KoboDevice) -> (r: String)
        ensures
            r@ == database_path_of(device.path@),
    {
        let kobo_dir = join_path_exec(device.path.as_str(), ".kobo");
        join_path_exec(kobo_dir.as_str(), "KoboReader.sqlite")
    }

    /// The device mounted at `volume_path`, from what probing it found: whether it has a
    /// `.kobo` directory, whether its database opens and answers a query, and the text of its
    /// version file, if any.
    pub fn check_kobo_device(
        &self,
        volume_path: &str,
        has_kobo_dir: bool,
        database_ok: bool,
        version_file: Option<String>,
    ) -> (r: Option<KoboDevice>)
        ensures
            !has_kobo_dir ==> r is None,
            has_kobo_dir ==> (r matches Some(d) && d.name@ == volume_name(volume_path@) && d.path@
                == volume_path@ && d.is_valid == database_ok && match version_file {
                Some(v) => match d.serial_number {
                    Some(s) => serial_of(v@) == Some(s@),
                    None => serial_of(v@) is None,
                },
                None => d.serial_number is None,
            }),
    {
        if !has_kobo_dir {
            return None;
        }
        let serial_number = match &version_file {
            Some(v) => read_serial_number(v.as_str()),
            None => None,
        };
        Some(
            KoboDevice {
                name: volume_name_exec(volume_path),
                path: volume_path.to_string(),
                is_valid: database_ok,
                serial_number,
            },
        )
    }
}

/// Event sent when a device appears or changes.
#[derive(Debug, Clone, PartialEq)]
pub struct DeviceDetectedEvent {
    pub device: KoboDevice,
}

/// Event sent when the device goes away.
#[derive(Debug, Clone, Copy, PartialEq, Eq, Structural)]
pub struct DeviceDisconnectedEvent;

/// What one poll of the mounted volumes calls for.
#[derive(Debug, Clone, PartialEq)]
pub enum MonitorEvent {
    Detected(DeviceDetectedEvent),
    Disconnected(DeviceDisconnectedEvent),
    Unchanged,
}

/// Two scans show the same device: same mount path and serial number.
pub open spec fn same_device(a: KoboDevice, b: KoboDevice) -> bool {
    a.path@ == b.path@ && opt_view(a.serial_number) == opt_view(b.serial_number)
}

fn same_serial(a: &Option<String>, b: &Option<String>) -> (r: bool)
    ensures
        r == (opt_view(*a) == opt_view(*b)),
{
    match (a, b) {
        (Some(x), Some(y)) => *x == *y,
        (None, None) => true,
        _ => false,
    }
}

/// An owned copy of a device record.
pub fn clone_device(d: &KoboDevice) -> (r: KoboDevice)
    ensures
        r == *d,
{
    KoboDevice {
        name: d.name.clone(),
        path: d.path.clone(),
        is_valid: d.is_valid,
        serial_number: clone_opt(&d.serial_number),
    }
}

/// The monitor's decision after one poll: the device to remember and the event to send. A
/// device appearing, or a different one replacing it, is announced; its leaving is announced;
/// the same device still present is not.
pub fn monitor_step(last: Option<KoboDevice>, current: Option<KoboDevice>) -> (r: (
    Option<KoboDevice>,
    MonitorEvent,
))
    ensures
        match (last, current) {
            (None, Some(d)) => r.0 == Some(d) && r.1 == MonitorEvent::Detected(
                DeviceDetectedEvent { device: d },
            ),
            (Some(_), None) => r.0 is None && r.1 == MonitorEvent::Disconnected(
                DeviceDisconnectedEvent,
            ),
            (Some(l), Some(c)) => if same_device(l, c) {
                r.0 == Some(l) && r.1 == MonitorEvent::Unchanged
            } else {
                r.0 == Some(c) && r.1 == MonitorEvent::Detected(DeviceDetectedEvent { device: c })
            },
            (None, None) => r.0 is None && r.1 == MonitorEvent::Unchanged,
        },
{
    match (last, current) {
        (None, Some(d)) => {
            let e = clone_device(&d);
            (Some(d), MonitorEvent::Detected(DeviceDetectedEvent { device: e }))
        },
        (Some(_), None) => (None, MonitorEvent::Disconnected(DeviceDisconnectedEvent)),
        (Some(l), Some(c)) => {
            if l.path == c.path && same_serial(&l.serial_number, &c.serial_number) {
                (Some(l), MonitorEvent::Unchanged)
            } else {
                let e = clone_device(&c);
                (Some(c), MonitorEvent::Detected(DeviceDetectedEvent { device: e }))
            }
        },
        (None, None) => (None, MonitorEvent::Unchanged),
    }
}

} // verus!
