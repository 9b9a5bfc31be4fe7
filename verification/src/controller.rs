//! Devices: reading the device list `adb devices` prints, choosing the device a serial
//! setting names, and the errors of connecting.
use vstd::prelude::*;

use crate::config::CaptureBackendKind;
use crate::model::{max_int, min_int};
use crate::text::{
    eq_ignore_ascii_case, split_words, str_eq_ignore_ascii_case, trim, trim_str, words,
};

verus! {

/// A device the runner can connect to.
#[derive(Debug)]
pub struct DeviceInfo {
    pub serial: String,
    pub name: String,
    pub source: String,
    pub supports_emulator_extras: bool,
}

/// Why a device could not be chosen or used.
#[derive(Debug)]
pub enum ControllerError {
    /// No device was found to pick automatically.
    NoDevice,
    /// MaaFramework found no device with this serial.
    DeviceNotFound { serial: String },
    /// The device does not support MaaFramework's EmulatorExtras capture.
    EmulatorExtrasUnsupported { serial: String },
    /// A file the runner needs is missing.
    MissingFile { label: String, path: String },
}

/// The message an error is shown with.
pub open spec fn error_text(e: ControllerError) -> Seq<char> {
    match e {
        ControllerError::NoDevice => "没有检测到可用设备"@,
        ControllerError::DeviceNotFound { serial } => "MAA 未找到指定设备："@ + serial@,
        ControllerError::EmulatorExtrasUnsupported { serial } => "当前设备不支持 MAA EmulatorExtras："@ + serial@,
        ControllerError::MissingFile { label, path } => label@ + "不存在："@ + path@,
    }
}

impl ControllerError {
    /// The message this error is shown with.
    pub fn message(&self) -> (s: String)
        ensures
            s@ == error_text(*self),
    {
        match self {
            ControllerError::NoDevice => String::from_str("没有检测到可用设备"),
            ControllerError::DeviceNotFound { serial } => {
                let mut s = String::from_str("MAA 未找到指定设备：");
                s.append(serial.as_str());
                s
            },
            ControllerError::EmulatorExtrasUnsupported { serial } => {
                let mut s = String::from_str("当前设备不支持 MAA EmulatorExtras：");
                s.append(serial.as_str());
                s
            },
            ControllerError::MissingFile { label, path } => {
                let mut s = String::from_str(label.as_str());
                s.append("不存在：");
                s.append(path.as_str());
                s
            },
        }
    }
}

/// Returns `Ok` when the file exists, else the missing-file error naming it by
/// `label` and `path`.
pub fn ensure_file(exists: bool, label: &str, path: &str) -> (r: Result<(), ControllerError>)
    ensures
        exists <==> r is Ok,
        r matches Err(ControllerError::MissingFile { label: l, path: p }) ==> l@ == label@ && p@ == path@,
        r matches Err(e) ==> e is MissingFile,
{
    if exists {
        Ok(())
    } else {
        Err(ControllerError::MissingFile { label: String::from_str(label), path: String::from_str(path) })
    }
}

/// How a controller is connected for a capture backend.
#[derive(Debug, Clone, Copy, PartialEq, Eq, Structural)]
pub enum ConnectPlan {
    /// Connect through MaaFramework; if that fails, connect through adb instead.
    MaaThenAdb,
    /// Connect through MaaFramework; a failure is the error.
    MaaOnly,
    /// Connect through adb.
    AdbOnly,
}

/// The way a controller is connected: the MaaFramework backend falls back to adb when
/// the settings allow it; the adb backend uses adb.
pub open spec fn connect_plan_for(backend: CaptureBackendKind, fallback_to_adb: bool) -> ConnectPlan {
    match backend {
        CaptureBackendKind::MaaEmulatorExtras => if fallback_to_adb {
            ConnectPlan::MaaThenAdb
        } else {
            ConnectPlan::MaaOnly
        },
        CaptureBackendKind::AdbScreencap => ConnectPlan::AdbOnly,
    }
}

/// Returns how a controller is connected for `backend`.
pub fn connect_plan(backend: CaptureBackendKind, fallback_to_adb: bool) -> (p: ConnectPlan)
    ensures
        p == connect_plan_for(backend, fallback_to_adb),
{
    match backend {
        CaptureBackendKind::MaaEmulatorExtras => if fallback_to_adb {
            ConnectPlan::MaaThenAdb
        } else {
            ConnectPlan::MaaOnly
        },
        CaptureBackendKind::AdbScreencap => ConnectPlan::AdbOnly,
    }
}

/// The serial setting asks for the first device found: it is empty or `auto`, in any
/// case, once trimmed.
pub open spec fn asks_auto(requested: Seq<char>) -> bool {
    trim(requested).len() == 0 || eq_ignore_ascii_case(trim(requested), "auto"@)
}

/// Returns the serial a setting names: the trimmed setting itself, or for an automatic
/// one the serial of the first device, or `NoDevice` when there is none.
pub fn resolve_serial(requested: &str, devices: &[DeviceInfo]) -> (r: Result<String, ControllerError>)
    ensures
        !asks_auto(requested@) ==> (r matches Ok(s) && s@ == trim(requested@)),
        asks_auto(requested@) && devices@.len() > 0 ==> (r matches Ok(s) && s@ == devices@[0].serial@),
        asks_auto(requested@) && devices@.len() == 0 ==> (r matches Err(e) && e is NoDevice),
{
    let requested = trim_str(requested);
    let auto = "auto";
    if requested.unicode_len() == 0 || str_eq_ignore_ascii_case(requested, auto) {
        if devices.len() > 0 {
            Ok(devices[0].serial.clone())
        } else {
            Err(ControllerError::NoDevice)
        }
    } else {
        Ok(String::from_str(requested))
    }
}

/// Whether a runner started with serial setting `requested` keeps the connection to
/// the device `connected`: it does when the setting names that device exactly or asks
/// for the first device found (`auto`, in any case).
pub fn reuse_connection(connected: &str, requested: &str) -> (r: bool)
    ensures
        r == (connected@ == requested@ || eq_ignore_ascii_case(requested@, "auto"@)),
{
    let n = connected.unicode_len();
    let mut same = n == requested.unicode_len();
    let mut i: usize = 0;
    while same && i < n
        invariant
            n == connected@.len(),
            i <= n,
            same ==> n == requested@.len(),
            same ==> forall|j: int| 0 <= j < i ==> connected@[j] == requested@[j],
            !same ==> connected@ != requested@,
        decreases n - i,
    {
        if connected.get_char(i) != requested.get_char(i) {
            same = false;
        }
        i += 1;
    }
    proof {
        if same {
            assert(connected@ =~= requested@);
        }
    }
    same || str_eq_ignore_ascii_case(requested, "auto")
}

/// Returns the index of the device MaaFramework should connect to: the first with the
/// serial the setting names, which must support EmulatorExtras.
pub fn choose_maa_device(requested: &str, devices: &[DeviceInfo]) -> (r: Result<usize, ControllerError>)
    ensures
        asks_auto(requested@) && devices@.len() == 0 <==> (r matches Err(e) && e is NoDevice),
        r matches Ok(i) ==> {
            &&& i < devices@.len()
            &&& devices@[i as int].supports_emulator_extras
            &&& (if asks_auto(requested@) { i == 0 } else {
                devices@[i as int].serial@ == trim(requested@)
                    && forall|j: int| 0 <= j < i ==> devices@[j].serial@ != trim(requested@)
            })
        },
        r matches Err(ControllerError::DeviceNotFound { serial }) ==> {
            &&& !asks_auto(requested@)
            &&& serial@ == trim(requested@)
            &&& forall|j: int| 0 <= j < devices@.len() ==> devices@[j].serial@ != trim(requested@)
        },
        r matches Err(ControllerError::EmulatorExtrasUnsupported { serial }) ==> (exists|i: int|
            0 <= i < devices@.len() && devices@[i].serial@ == serial@ && !devices@[i].supports_emulator_extras
            && forall|j: int| 0 <= j < i ==> devices@[j].serial@ != serial@),
        r matches Err(ControllerError::EmulatorExtrasUnsupported { serial }) ==> serial@ == (if asks_auto(requested@) {
            devices@[0].serial@
        } else {
            trim(requested@)
        }),
        r is Err ==> !(r matches Err(ControllerError::MissingFile { .. })),
        !asks_auto(requested@) && (forall|j: int| 0 <= j < devices@.len() ==> devices@[j].serial@ != trim(requested@))
            ==> r matches Err(ControllerError::DeviceNotFound { .. }),
        (exists|i: int| 0 <= i < devices@.len() && devices@[i].serial@ == trim(requested@)
            && devices@[i].supports_emulator_extras
            && forall|j: int| 0 <= j < i ==> devices@[j].serial@ != trim(requested@)) && !asks_auto(requested@)
            ==> r is Ok,
        asks_auto(requested@) && devices@.len() > 0 ==> (r is Ok <==> devices@[0].supports_emulator_extras),
{
    let serial = match resolve_serial(requested, devices) {
        Ok(s) => s,
        Err(e) => return Err(e),
    };
    let mut i: usize = 0;
    while i < devices.len()
        invariant
            i <= devices@.len(),
            forall|j: int| 0 <= j < i ==> devices@[j].serial@ != serial@,
            !asks_auto(requested@) ==> serial@ == trim(requested@),
            asks_auto(requested@) ==> devices@.len() > 0 && serial@ == devices@[0].serial@,
        decreases devices@.len() - i,
    {
        if devices[i].serial == serial {
            assert(devices@[i as int].serial@ == serial@);
            if !devices[i].supports_emulator_extras {
                proof {
                    let t = trim(requested@);
                    if exists|k: int| 0 <= k < devices@.len() && devices@[k].serial@ == t
                        && devices@[k].supports_emulator_extras
                        && forall|j: int| 0 <= j < k ==> devices@[j].serial@ != t {
                        let k = choose|k: int| 0 <= k < devices@.len() && devices@[k].serial@ == t
                            && devices@[k].supports_emulator_extras
                            && forall|j: int| 0 <= j < k ==> devices@[j].serial@ != t;
                        if !asks_auto(requested@) {
                            if k < i {
                                assert(devices@[k].serial@ != serial@);
                            } else if k > i {
                                assert(devices@[i as int].serial@ != t);
                            }
                        }
                    }
                }
                return Err(ControllerError::EmulatorExtrasUnsupported { serial });
            }
            return Ok(i);
        }
        i += 1;
    }
    Err(ControllerError::DeviceNotFound { serial })
}

// ---------------------------------------------------------------------------------
// The device list `adb devices` prints.

/// Where the line that starts at `i` ends: the next newline, or the end.
pub open spec fn line_end(s: Seq<char>, i: int) -> int
    decreases s.len() - i,
{
    if i >= s.len() || s[i] == '\n' {
        i
    } else {
        line_end(s, i + 1)
    }
}

/// A line runs from its start to the next newline.
pub proof fn lemma_line_end_bounds(s: Seq<char>, i: int)
    requires
        0 <= i <= s.len(),
    ensures
        i <= line_end(s, i) <= s.len(),
        line_end(s, i) < s.len() ==> s[line_end(s, i)] == '\n',
    decreases s.len() - i,
{
    if i < s.len() && s[i] != '\n' {
        lemma_line_end_bounds(s, i + 1);
    }
}

/// The lines of `s` from `i` on, as `str::lines` gives them: split at each newline,
/// a carriage return before the newline dropped, no line after a final newline.
pub open spec fn lines_from(s: Seq<char>, i: int) -> Seq<Seq<char>>
    decreases s.len() + 1 - i,
{
    if i < 0 || i >= s.len() {
        seq![]
    } else {
        let e = min_int(max_int(line_end(s, i), i), s.len() as int);
        let raw = s.subrange(i, e);
        let line = if e < s.len() && raw.len() > 0 && raw.last() == '\r' { raw.drop_last() } else { raw };
        seq![line] + lines_from(s, e + 1)
    }
}

/// A line of the device list names a device that is ready: its second word is `device`.
pub open spec fn ready_device_line(line: Seq<char>) -> bool {
    words(line).len() >= 2 && words(line)[1] == "device"@
}

/// The serials of the ready devices among `lines`, in order: each the first word of
/// its line.
pub open spec fn ready_serials(lines: Seq<Seq<char>>) -> Seq<Seq<char>>
    decreases lines.len(),
{
    if lines.len() == 0 {
        seq![]
    } else {
        let rest = ready_serials(lines.drop_first());
        if ready_device_line(lines[0]) {
            seq![words(lines[0])[0]] + rest
        } else {
            rest
        }
    }
}

/// Returns the devices `adb devices` lists as ready: for each line whose second word
/// is `device`, a device named by its first word.
pub fn parse_adb_devices(text: &str) -> (v: Vec<DeviceInfo>)
    ensures
        v@.len() == ready_serials(lines_from(text@, 0)).len(),
        forall|i: int| 0 <= i < v@.len() ==> {
            &&& #[trigger] v@[i].serial@ == ready_serials(lines_from(text@, 0))[i]
            &&& v@[i].name@ == ready_serials(lines_from(text@, 0))[i]
            &&& v@[i].source@ == "adb"@
            &&& !v@[i].supports_emulator_extras
        },
{
    let n = text.unicode_len();
    let mut out: Vec<DeviceInfo> = Vec::new();
    let ghost all = ready_serials(lines_from(text@, 0));
    let ghost mut done: Seq<Seq<char>> = seq![];
    let mut i: usize = 0;
    assert(done + ready_serials(lines_from(text@, 0)) =~= all);
    while i < n
        invariant
            n == text@.len(),
            all == ready_serials(lines_from(text@, 0)),
            all == done + ready_serials(lines_from(text@, i as int)),
            out@.len() == done.len(),
            forall|j: int| #![trigger out@[j]] 0 <= j < out@.len() ==> {
                &&& out@[j].serial@ == done[j]
                &&& out@[j].name@ == done[j]
                &&& out@[j].source@ == "adb"@
                &&& !out@[j].supports_emulator_extras
            },
        decreases n - i,
    {
        let mut e = i;
        while e < n && text.get_char(e) != '\n'
            invariant
                n == text@.len(),
                i <= e <= n,
                line_end(text@, e as int) == line_end(text@, i as int),
            decreases n - e,
        {
            e += 1;
        }
        proof {
            lemma_line_end_bounds(text@, i as int);
            assert(min_int(max_int(line_end(text@, i as int), i as int), n as int) == e);
        }
        let raw = text.substring_char(i, e);
        let cut = e < n && e > i && text.get_char(e - 1) == '\r';
        let line = if cut { text.substring_char(i, e - 1) } else { raw };
        proof {
            if cut {
                assert(line@ =~= raw@.drop_last());
            }
            let rest = lines_from(text@, (e + 1) as int);
            assert(lines_from(text@, i as int) == seq![line@] + rest);
            assert((seq![line@] + rest).drop_first() =~= rest);
            assert((seq![line@] + rest)[0] == line@);
        }
        let ws = split_words(line);
        let device = String::from_str("device");
        proof {
            reveal_strlit("device");
        }
        if ws.len() >= 2 && ws[1] == device {
            let serial = ws[0].clone();
            let name = ws[0].clone();
            out.push(DeviceInfo { serial, name, source: String::from_str("adb"), supports_emulator_extras: false });
            proof {
                let old_done = done;
                done = done + seq![words(line@)[0]];
                assert forall|j: int| #![trigger out@[j]] 0 <= j < out@.len() implies {
                    &&& out@[j].serial@ == done[j]
                    &&& out@[j].name@ == done[j]
                    &&& out@[j].source@ == "adb"@
                    &&& !out@[j].supports_emulator_extras
                } by {
                    if j < old_done.len() {
                        assert(done[j] == old_done[j]);
                    }
                }
            }
        }
        if e >= n {
            i = n;
        } else {
            i = e + 1;
        }
    }
    proof {
        assert(lines_from(text@, i as int) == Seq::<Seq<char>>::empty());
        assert(done + Seq::<Seq<char>>::empty() =~= done);
    }
    out
}


// ---------------------------------------------------------------------------------
// The device list shown to the user.

/// `a` sorts before `b`: character by character by code point, a proper prefix first,
/// as `String`s compare.
pub open spec fn serial_less(a: Seq<char>, b: Seq<char>) -> bool
    decreases a.len(),
{
    if a.len() == 0 {
        b.len() > 0
    } else if b.len() == 0 {
        false
    } else if a[0] != b[0] {
        a[0] < b[0]
    } else {
        serial_less(a.drop_first(), b.drop_first())
    }
}

/// No text sorts before itself, and of two texts that differ exactly one sorts first.
pub proof fn lemma_serial_less_total(a: Seq<char>, b: Seq<char>)
    ensures
        !serial_less(a, a),
        serial_less(a, b) ==> !serial_less(b, a),
        a != b ==> serial_less(a, b) || serial_less(b, a),
    decreases a.len(),
{
    if a.len() > 0 {
        lemma_serial_less_total(a.drop_first(), a.drop_first());
        if b.len() > 0 {
            lemma_serial_less_total(a.drop_first(), b.drop_first());
            if a[0] == b[0] && a.drop_first() == b.drop_first() {
                assert(a =~= seq![a[0]] + a.drop_first());
                assert(b =~= seq![b[0]] + b.drop_first());
            }
        }
    } else if b.len() == 0 {
        assert(a =~= b);
    }
}

/// Sorting before is transitive.
pub proof fn lemma_serial_less_transitive(a: Seq<char>, b: Seq<char>, c: Seq<char>)
    requires
        serial_less(a, b),
        serial_less(b, c),
    ensures
        serial_less(a, c),
    decreases a.len(),
{
    if a.len() > 0 && b.len() > 0 && c.len() > 0 && a[0] == b[0] && b[0] == c[0] {
        lemma_serial_less_transitive(a.drop_first(), b.drop_first(), c.drop_first());
    }
}

fn str_less(a: &str, b: &str) -> (r: bool)
    ensures
        r == serial_less(a@, b@),
    decreases a@.len(),
{
    let n = a.unicode_len();
    let m = b.unicode_len();
    if n == 0 {
        return m > 0;
    }
    if m == 0 {
        return false;
    }
    let c = a.get_char(0);
    let d = b.get_char(0);
    if c != d {
        c < d
    } else {
        let ra = a.substring_char(1, n);
        let rb = b.substring_char(1, m);
        assert(ra@ =~= a@.drop_first());
        assert(rb@ =~= b@.drop_first());
        str_less(ra, rb)
    }
}

/// The devices are in strictly increasing order of serial.
pub open spec fn sorted_by_serial(devs: Seq<DeviceInfo>) -> bool {
    forall|i: int, j: int| 0 <= i < j < devs.len() ==> serial_less(#[trigger] devs[i].serial@, #[trigger] devs[j].serial@)
}

/// Some device of `devs` has serial `s`.
pub open spec fn lists_serial(devs: Seq<DeviceInfo>, s: Seq<char>) -> bool {
    exists|k: int| 0 <= k < devs.len() && #[trigger] devs[k].serial@ == s
}

/// `d` is the last device of `devs` with its serial.
pub open spec fn last_with_serial(devs: Seq<DeviceInfo>, d: DeviceInfo) -> bool {
    exists|k: int| 0 <= k < devs.len() && #[trigger] devs[k] == d
        && forall|k2: int| k < k2 < devs.len() ==> devs[k2].serial@ != d.serial@
}

/// `d` is the first device of `devs` with its serial.
pub open spec fn first_of_serial(devs: Seq<DeviceInfo>, d: DeviceInfo) -> bool {
    exists|k: int| 0 <= k < devs.len() && #[trigger] devs[k] == d
        && forall|k2: int| 0 <= k2 < k ==> devs[k2].serial@ != d.serial@
}

/// Puts `d` into the sorted list unless a device with its serial is already there.
fn insert_if_absent(list: &mut Vec<DeviceInfo>, d: DeviceInfo) -> (inserted: bool)
    requires
        sorted_by_serial(old(list)@),
    ensures
        sorted_by_serial(final(list)@),
        inserted <==> !lists_serial(old(list)@, d.serial@),
        inserted ==> exists|p: int| 0 <= p <= old(list)@.len() && final(list)@ == old(list)@.insert(p, d),
        !inserted ==> final(list)@ == old(list)@,
{
    let n = list.len();
    let mut p: usize = 0;
    while p < n && str_less(list[p].serial.as_str(), d.serial.as_str())
        invariant
            n == list@.len(),
            list@ == old(list)@,
            p <= n,
            forall|q: int| 0 <= q < p ==> serial_less(#[trigger] list@[q].serial@, d.serial@),
        decreases n - p,
    {
        p += 1;
    }
    if p < n && list[p].serial == d.serial {
        assert(list@[p as int].serial@ == d.serial@);
        return false;
    }
    proof {
        assert forall|q: int| 0 <= q < n implies #[trigger] list@[q].serial@ != d.serial@ by {
            if q < p {
                lemma_serial_less_total(list@[q].serial@, d.serial@);
            } else if q > p {
                lemma_serial_less_total(list@[p as int].serial@, d.serial@);
                if list@[q].serial@ == d.serial@ {
                    lemma_serial_less_total(list@[p as int].serial@, list@[q].serial@);
                }
            }
        }
        if p < n {
            lemma_serial_less_total(list@[p as int].serial@, d.serial@);
        }
    }
    let ghost before = list@;
    list.insert(p, d);
    proof {
        assert forall|i: int, j: int| 0 <= i < j < list@.len() implies serial_less(#[trigger] list@[i].serial@, #[trigger] list@[j].serial@) by {
            if j < p {
                assert(list@[i] == before[i] && list@[j] == before[j]);
            } else if j == p {
                assert(list@[i] == before[i]);
            } else if i == p {
                assert(list@[j] == before[j - 1]);
                if j - 1 > p {
                    lemma_serial_less_transitive(d.serial@, before[p as int].serial@, before[j - 1].serial@);
                }
            } else if i < p {
                assert(list@[i] == before[i] && list@[j] == before[j - 1]);
            } else {
                assert(list@[i] == before[i - 1] && list@[j] == before[j - 1]);
            }
        }
    }
    true
}

/// Returns the devices found by MaaFramework and by adb as one list, one device per
/// serial, in order of serial: a serial MaaFramework found comes with the last device
/// it found under it, any other with the first device adb found under it.
pub fn merge_devices(maa: Vec<DeviceInfo>, adb: Vec<DeviceInfo>) -> (r: Vec<DeviceInfo>)
    ensures
        sorted_by_serial(r@),
        forall|k: int| 0 <= k < maa@.len() ==> lists_serial(r@, #[trigger] maa@[k].serial@),
        forall|k: int| 0 <= k < adb@.len() ==> lists_serial(r@, #[trigger] adb@[k].serial@),
        forall|i: int| 0 <= i < r@.len() ==> if lists_serial(maa@, #[trigger] r@[i].serial@) {
            last_with_serial(maa@, r@[i])
        } else {
            first_of_serial(adb@, r@[i])
        },
{
    let ghost m0 = maa@;
    let ghost a0 = adb@;
    let mut maa = maa;
    let mut adb = adb;
    let mut out: Vec<DeviceInfo> = Vec::new();
    while maa.len() > 0
        invariant
            maa@ == m0.subrange(0, maa@.len() as int),
            maa@.len() <= m0.len(),
            sorted_by_serial(out@),
            forall|k: int| maa@.len() <= k < m0.len() ==> lists_serial(out@, #[trigger] m0[k].serial@),
            forall|i: int| #![trigger out@[i]] 0 <= i < out@.len() ==> exists|k: int| maa@.len() <= k < m0.len() && #[trigger] m0[k] == out@[i]
                && forall|k2: int| k < k2 < m0.len() ==> m0[k2].serial@ != out@[i].serial@,
        decreases maa@.len(),
    {
        let ghost len = maa@.len();
        let ghost prev = out@;
        let d = maa.pop().unwrap();
        assert(d == m0[len - 1]);
        let inserted = insert_if_absent(&mut out, d);
        proof {
            assert(maa@ =~= m0.subrange(0, maa@.len() as int));
            if inserted {
                let p = choose|p: int| 0 <= p <= prev.len() && out@ == prev.insert(p, d);
                assert(out@[p] == d);
                assert forall|k: int| maa@.len() <= k < m0.len() implies lists_serial(out@, #[trigger] m0[k].serial@) by {
                    if k > len - 1 {
                        let i = choose|i: int| 0 <= i < prev.len() && #[trigger] prev[i].serial@ == m0[k].serial@;
                        if i < p {
                            assert(out@[i] == prev[i]);
                        } else {
                            assert(out@[i + 1] == prev[i]);
                        }
                    }
                }
                assert forall|i: int| #![trigger out@[i]] 0 <= i < out@.len() implies exists|k: int| maa@.len() <= k < m0.len() && #[trigger] m0[k] == out@[i]
                    && forall|k2: int| k < k2 < m0.len() ==> m0[k2].serial@ != out@[i].serial@ by {
                    if i == p {
                        assert forall|k2: int| len - 1 < k2 < m0.len() implies m0[k2].serial@ != d.serial@ by {
                            if m0[k2].serial@ == d.serial@ {
                                assert(lists_serial(prev, m0[k2].serial@));
                            }
                        }
                        assert(m0[len - 1] == out@[i]);
                    } else if i < p {
                        assert(out@[i] == prev[i]);
                    } else {
                        assert(out@[i] == prev[i - 1]);
                    }
                }
            } else {
                assert forall|k: int| maa@.len() <= k < m0.len() implies lists_serial(out@, #[trigger] m0[k].serial@) by {
                    if k == len - 1 {
                        assert(lists_serial(prev, d.serial@));
                    }
                }
            }
        }
    }
    assert(m0.subrange(0, 0) =~= Seq::<DeviceInfo>::empty());
    while adb.len() > 0
        invariant
            adb@ == a0.subrange(a0.len() - adb@.len(), a0.len() as int),
            adb@.len() <= a0.len(),
            sorted_by_serial(out@),
            forall|k: int| 0 <= k < m0.len() ==> lists_serial(out@, #[trigger] m0[k].serial@),
            forall|k: int| 0 <= k < a0.len() - adb@.len() ==> lists_serial(out@, #[trigger] a0[k].serial@),
            forall|i: int| 0 <= i < out@.len() ==> if lists_serial(m0, #[trigger] out@[i].serial@) {
                last_with_serial(m0, out@[i])
            } else {
                exists|k: int| 0 <= k < a0.len() - adb@.len() && #[trigger] a0[k] == out@[i]
                    && forall|k2: int| 0 <= k2 < k ==> a0[k2].serial@ != out@[i].serial@
            },
        decreases adb@.len(),
    {
        let ghost done = a0.len() - adb@.len();
        let ghost prev = out@;
        let d = adb.remove(0);
        assert(d == a0[done]);
        assert(adb@ =~= a0.subrange(a0.len() - adb@.len(), a0.len() as int));
        let inserted = insert_if_absent(&mut out, d);
        proof {
            if inserted {
                let p = choose|p: int| 0 <= p <= prev.len() && out@ == prev.insert(p, d);
                assert(out@[p] == d);
                assert forall|k: int| 0 <= k < m0.len() implies lists_serial(out@, #[trigger] m0[k].serial@) by {
                    let i = choose|i: int| 0 <= i < prev.len() && #[trigger] prev[i].serial@ == m0[k].serial@;
                    if i < p {
                        assert(out@[i] == prev[i]);
                    } else {
                        assert(out@[i + 1] == prev[i]);
                    }
                }
                assert forall|k: int| 0 <= k < a0.len() - adb@.len() implies lists_serial(out@, #[trigger] a0[k].serial@) by {
                    if k < done {
                        let i = choose|i: int| 0 <= i < prev.len() && #[trigger] prev[i].serial@ == a0[k].serial@;
                        if i < p {
                            assert(out@[i] == prev[i]);
                        } else {
                            assert(out@[i + 1] == prev[i]);
                        }
                    } else {
                        assert(out@[p].serial@ == a0[k].serial@);
                    }
                }
                assert forall|i: int| 0 <= i < out@.len() implies (if lists_serial(m0, #[trigger] out@[i].serial@) {
                    last_with_serial(m0, out@[i])
                } else {
                    exists|k: int| 0 <= k < a0.len() - adb@.len() && #[trigger] a0[k] == out@[i]
                        && forall|k2: int| 0 <= k2 < k ==> a0[k2].serial@ != out@[i].serial@
                }) by {
                    if i == p {
                        if lists_serial(m0, d.serial@) {
                            let k = choose|k: int| 0 <= k < m0.len() && #[trigger] m0[k].serial@ == d.serial@;
                            assert(lists_serial(prev, m0[k].serial@));
                        }
                        assert forall|k2: int| 0 <= k2 < done implies a0[k2].serial@ != d.serial@ by {
                            if a0[k2].serial@ == d.serial@ {
                                assert(lists_serial(prev, a0[k2].serial@));
                            }
                        }
                        assert(a0[done] == out@[i]);
                    } else if i < p {
                        assert(out@[i] == prev[i]);
                    } else {
                        assert(out@[i] == prev[i - 1]);
                    }
                }
            } else {
                assert forall|k: int| 0 <= k < a0.len() - adb@.len() implies lists_serial(out@, #[trigger] a0[k].serial@) by {
                    if k == done {
                        assert(lists_serial(prev, d.serial@));
                    }
                }
                assert forall|i: int| 0 <= i < out@.len() implies (if lists_serial(m0, #[trigger] out@[i].serial@) {
                    last_with_serial(m0, out@[i])
                } else {
                    exists|k: int| 0 <= k < a0.len() - adb@.len() && #[trigger] a0[k] == out@[i]
                        && forall|k2: int| 0 <= k2 < k ==> a0[k2].serial@ != out@[i].serial@
                }) by {
                    if !lists_serial(m0, out@[i].serial@) {
                        let k = choose|k: int| 0 <= k < done && #[trigger] a0[k] == out@[i]
                            && forall|k2: int| 0 <= k2 < k ==> a0[k2].serial@ != out@[i].serial@;
                        assert(0 <= k < a0.len() - adb@.len());
                    }
                }
            }
        }
    }
    proof {
        assert forall|i: int| 0 <= i < out@.len() implies (if lists_serial(m0, #[trigger] out@[i].serial@) {
            last_with_serial(m0, out@[i])
        } else {
            first_of_serial(a0, out@[i])
        }) by {
            if !lists_serial(m0, out@[i].serial@) {
                let k = choose|k: int| 0 <= k < a0.len() && #[trigger] a0[k] == out@[i]
                    && forall|k2: int| 0 <= k2 < k ==> a0[k2].serial@ != out@[i].serial@;
                assert(first_of_serial(a0, out@[i]));
            }
        }
    }
    out
}

} // verus!
