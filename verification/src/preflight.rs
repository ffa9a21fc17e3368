//! The preflight rules: a read-only risk assessment before an
//! operation.  The surrounding binary gathers the raw facts (battery
//! text, open-file listing, metadata); the rules here parse and weigh
//! them into blockers and warnings.

use vstd::prelude::*;

use crate::device::parse_u32_spec;
use crate::strutil::{contains_str, contains_sub, is_space, lower_spec, lower_string, str_eq,
    trim_spec};

verus! {

/// The battery state read from the power tool.
pub struct BatteryStatus {
    pub is_laptop: bool,
    pub on_ac: bool,
    pub percent: Option<u32>,
}

/// One process holding files under a mount point.
pub struct ProcessInfo {
    pub pid: u32,
    pub command: String,
}

/// One sidecar requirement and whether it was found.
pub struct SidecarCheck {
    pub name: String,
    pub found: bool,
    pub path: Option<String>,
}


/// The text before the first percent sign, or the whole text.
pub open spec fn before_percent(s: Seq<char>) -> Seq<char>
    decreases s.len(),
{
    if s.len() == 0 {
        s
    } else if s[0] == '%' {
        Seq::empty()
    } else {
        seq![s[0]] + before_percent(s.skip(1))
    }
}

/// The longest non-space suffix of a right-trimmed text: the last
/// whitespace-separated token, if any.
pub open spec fn tail_run(s: Seq<char>) -> Seq<char>
    decreases s.len(),
{
    if s.len() > 0 && !is_space(s.last()) {
        tail_run(s.drop_last()).push(s.last())
    } else {
        Seq::empty()
    }
}

/// The last whitespace-separated token of a text.
pub open spec fn last_token(s: Seq<char>) -> Option<Seq<char>> {
    let t = trim_spec(s);
    if t.len() == 0 {
        None
    } else {
        Some(tail_run(t))
    }
}

/// The charge percentage the power text names: the last token before
/// the first percent sign, as a number.
pub open spec fn battery_percent_spec(text: Seq<char>) -> Option<u32> {
    match last_token(before_percent(text)) {
        Some(tok) => parse_u32_spec(tok),
        None => None,
    }
}

/// The battery status the power text describes: no battery means
/// mains power; otherwise the AC marker and the charge are read out.
pub open spec fn battery_spec(text: Seq<char>) -> BatteryStatusV {
    if contains_sub(lower_spec(text), "no batteries"@) {
        BatteryStatusV { is_laptop: false, on_ac: true, percent: None }
    } else {
        BatteryStatusV {
            is_laptop: true,
            on_ac: contains_sub(text, "AC Power"@),
            percent: battery_percent_spec(text),
        }
    }
}

/// The mathematical shape of a battery status.
pub struct BatteryStatusV {
    pub is_laptop: bool,
    pub on_ac: bool,
    pub percent: Option<u32>,
}

impl View for BatteryStatus {
    type V = BatteryStatusV;

    open spec fn view(&self) -> BatteryStatusV {
        BatteryStatusV { is_laptop: self.is_laptop, on_ac: self.on_ac, percent: self.percent }
    }
}

proof fn lemma_tail_run_at(s: Seq<char>, j: int)
    requires
        0 <= j <= s.len(),
        forall|k: int| j <= k < s.len() ==> !is_space(s[k]),
        j > 0 ==> is_space(s[j - 1]),
    ensures
        tail_run(s) == s.skip(j),
    decreases s.len() - j,
{
    if j == s.len() {
        assert(s.skip(j) =~= Seq::<char>::empty());
        if s.len() > 0 && !is_space(s.last()) {
            assert(false);
        }
    } else {
        assert(!is_space(s.last()));
        lemma_tail_run_at(s.drop_last(), j);
        assert(s.skip(j) =~= s.drop_last().skip(j).push(s.last()));
    }
}

proof fn lemma_before_percent_at(s: Seq<char>, j: int)
    requires
        0 <= j <= s.len(),
        forall|k: int| 0 <= k < j ==> s[k] != '%',
        j < s.len() ==> s[j] == '%',
    ensures
        before_percent(s) == s.take(j),
    decreases j,
{
    if j == 0 {
        assert(s.take(0) =~= Seq::<char>::empty());
        if s.len() > 0 && s[0] != '%' {
            assert(before_percent(s) == seq![s[0]] + before_percent(s.skip(1)));
        }
    } else {
        assert(s[0] != '%');
        assert forall|k: int| 0 <= k < j - 1 implies s.skip(1)[k] != '%' by {
            assert(s.skip(1)[k] == s[k + 1]);
        }
        lemma_before_percent_at(s.skip(1), j - 1);
        assert(seq![s[0]] + s.skip(1).take(j - 1) =~= s.take(j));
    }
}

/// Parse the power tool's text into a battery status.
pub fn parse_battery_status(text: &str) -> (r: BatteryStatus)
    ensures
        r@ == battery_spec(text@),
{
    let low = lower_string(text);
    if contains_str(low.as_str(), "no batteries") {
        return BatteryStatus { is_laptop: false, on_ac: true, percent: None };
    }
    let on_ac = contains_str(text, "AC Power");

    // the prefix before the first percent sign
    let n = text.unicode_len();
    let mut j: usize = 0;
    while j < n && text.get_char(j) != '%'
        invariant
            j <= n,
            n == text@.len(),
            forall|k: int| 0 <= k < j ==> text@[k] != '%',
        decreases n - j,
    {
        j = j + 1;
    }
    let prefix = text.substring_char(0, j);
    proof {
        lemma_before_percent_at(text@, j as int);
        assert(prefix@ =~= text@.take(j as int));
    }

    // its last whitespace-separated token
    let trimmed = crate::strutil::trim(prefix);
    let ts = trimmed.as_str();
    let tn = ts.unicode_len();
    if tn == 0 {
        return BatteryStatus { is_laptop: true, on_ac, percent: None };
    }
    let mut b: usize = tn;
    while b > 0 && !crate::strutil::char_is_space(ts.get_char(b - 1))
        invariant
            b <= tn,
            tn == ts@.len(),
            forall|k: int| b <= k < tn ==> !is_space(ts@[k]),
        decreases b,
    {
        b = b - 1;
    }
    let token = ts.substring_char(b, tn);
    proof {
        lemma_tail_run_at(ts@, b as int);
        assert(token@ =~= ts@.skip(b as int));
    }
    let percent = crate::device::parse_u32(token);
    BatteryStatus { is_laptop: true, on_ac, percent }
}

/// The running fold of the open-files listing: a `p` line carries a
/// process id, a `c` line a command name; a completed pair is recorded
/// once per process id.
pub open spec fn lsof_fold(
    lines: Seq<Seq<char>>,
    pid: Option<u32>,
    cmd: Option<Seq<char>>,
    acc: Seq<(u32, Seq<char>)>,
) -> Seq<(u32, Seq<char>)>
    decreases lines.len(),
{
    if lines.len() == 0 {
        acc
    } else {
        let line = lines[0];
        let pid1 = if line.len() > 0 && line[0] == 'p' {
            parse_u32_spec(line.skip(1))
        } else {
            pid
        };
        let cmd1 = if line.len() > 0 && line[0] == 'c' {
            Some(line.skip(1))
        } else {
            cmd
        };
        if pid1 is Some && cmd1 is Some {
            let p = pid1->0;
            if seen_pid(acc, p) {
                lsof_fold(lines.skip(1), None, None, acc)
            } else {
                lsof_fold(lines.skip(1), None, None, acc.push((p, cmd1->0)))
            }
        } else {
            lsof_fold(lines.skip(1), pid1, cmd1, acc)
        }
    }
}

/// A process id already recorded.
pub open spec fn seen_pid(acc: Seq<(u32, Seq<char>)>, p: u32) -> bool {
    exists|i: int| 0 <= i < acc.len() && acc[i].0 == p
}

/// The shapes of a process list.
pub open spec fn processes_view(v: Seq<ProcessInfo>) -> Seq<(u32, Seq<char>)> {
    Seq::new(v.len(), |i: int| (v[i].pid, v[i].command@))
}

/// Whether a process id is already listed.
fn pid_listed(acc: &Vec<ProcessInfo>, p: u32) -> (r: bool)
    ensures
        r == seen_pid(processes_view(acc@), p),
{
    let n = acc.len();
    let mut i: usize = 0;
    #[verifier::loop_isolation(false)]
    while i < n
        invariant
            i <= n,
            n == acc@.len(),
            forall|k: int| 0 <= k < i ==> processes_view(acc@)[k].0 != p,
        decreases n - i,
    {
        if acc[i].pid == p {
            proof {
                assert(processes_view(acc@)[i as int].0 == p);
            }
            return true;
        }
        i = i + 1;
    }
    false
}

/// Parse the open-files listing into the holder processes, one entry
/// per process id, in order of first appearance.
pub fn parse_lsof_lines(lines: &Vec<String>) -> (r: Vec<ProcessInfo>)
    ensures
        processes_view(r@) == lsof_fold(
            lines.deep_view(),
            None,
            None,
            Seq::<(u32, Seq<char>)>::empty(),
        ),
{
    let ghost lv = lines.deep_view();
    proof {
        assert(lv.skip(0) =~= lv);
    }
    let n = lines.len();
    let mut pid: Option<u32> = None;
    let mut cmd: Option<String> = None;
    let mut acc: Vec<ProcessInfo> = Vec::new();
    proof {
        assert(processes_view(acc@) =~= Seq::<(u32, Seq<char>)>::empty());
    }
    let mut i: usize = 0;
    #[verifier::loop_isolation(false)]
    while i < n
        invariant
            i <= n,
            n == lines@.len(),
            lv.len() == n,
            forall|k: int| 0 <= k < n ==> lv[k] == lines@[k]@,
            lsof_fold(
                lv.skip(i as int),
                pid,
                match cmd {
                    Some(ref c) => Some(c@),
                    None => None,
                },
                processes_view(acc@),
            ) == lsof_fold(lv, None, None, Seq::<(u32, Seq<char>)>::empty()),
        decreases n - i,
    {
        let ghost pid0 = pid;
        let ghost cmd0: Option<Seq<char>> = match cmd {
            Some(ref c) => Some(c@),
            None => None,
        };
        let ghost acc0 = processes_view(acc@);
        proof {
            assert(lv.skip(i as int)[0] == lv[i as int]);
            assert(lv.skip(i as int).skip(1) =~= lv.skip(i + 1));
        }
        let line = lines[i].as_str();
        let ln = line.unicode_len();
        if ln > 0 && line.get_char(0) == 'p' {
            let rest = line.substring_char(1, ln);
            proof {
                assert(rest@ =~= line@.skip(1));
            }
            pid = crate::device::parse_u32(rest);
        } else if ln > 0 && line.get_char(0) == 'c' {
            let rest = line.substring_char(1, ln);
            proof {
                assert(rest@ =~= line@.skip(1));
            }
            cmd = Some(rest.to_owned());
        }
        proof {
            // pid and cmd now hold the spec step's intermediate values
            assert(pid == (if lv[i as int].len() > 0 && lv[i as int][0] == 'p' {
                parse_u32_spec(lv[i as int].skip(1))
            } else {
                pid0
            }));
            assert((match cmd {
                Some(ref c) => Some(c@),
                None => None::<Seq<char>>,
            }) == (if lv[i as int].len() > 0 && lv[i as int][0] == 'c' {
                Some(lv[i as int].skip(1))
            } else {
                cmd0
            }));
        }
        let complete = pid.is_some() && cmd.is_some();
        if complete {
            let p = match pid {
                Some(v) => v,
                None => 0,
            };
            let c = match cmd {
                Some(ref v) => v.clone(),
                None => String::new(),
            };
            if !pid_listed(&acc, p) {
                acc.push(ProcessInfo { pid: p, command: c });
                proof {
                    assert(processes_view(acc@) =~= acc0.push((p, c@)));
                }
            }
            pid = None;
            cmd = None;
        }
        i = i + 1;
    }
    proof {
        assert(lv.skip(n as int).len() == 0);
    }
    acc
}

/// The sidecar names an operation needs for a filesystem: the mkfs
/// binary for wipe, create and format; sgdisk and the resize tool for
/// resize of ext4 or ntfs; sgdisk for move.
pub open spec fn required_names_spec(operation: Seq<char>, fs: Seq<char>) -> Seq<Seq<char>> {
    let base: Seq<Seq<char>> = if operation == "wipe"@ || operation == "create"@ || operation
        == "format"@ {
        match crate::fstype::mkfs_binary_spec(fs) {
            Some(b) => seq![b],
            None => Seq::empty(),
        }
    } else {
        Seq::empty()
    };
    let with_resize: Seq<Seq<char>> = if operation == "resize"@ {
        if fs == "ext4"@ {
            base + seq!["sgdisk"@, "resize2fs"@]
        } else if fs == "ntfs"@ {
            base + seq!["sgdisk"@, "ntfsresize"@]
        } else {
            base
        }
    } else {
        base
    };
    if operation == "move"@ {
        with_resize + seq!["sgdisk"@]
    } else {
        with_resize
    }
}

/// The sidecar names an operation needs.
pub fn required_sidecar_names(operation: &str, fs_type: &str) -> (r: Vec<String>)
    ensures
        r.deep_view() == required_names_spec(operation@, fs_type@),
{
    let mut names: Vec<String> = Vec::new();
    if str_eq(operation, "wipe") || str_eq(operation, "create") || str_eq(operation, "format") {
        match crate::fstype::mkfs_binary_for(fs_type) {
            Some(b) => {
                names.push(b);
            },
            None => {},
        }
    }
    if str_eq(operation, "resize") {
        if str_eq(fs_type, "ext4") {
            names.push(String::from_str("sgdisk"));
            names.push(String::from_str("resize2fs"));
        } else if str_eq(fs_type, "ntfs") {
            names.push(String::from_str("sgdisk"));
            names.push(String::from_str("ntfsresize"));
        }
    }
    if str_eq(operation, "move") {
        names.push(String::from_str("sgdisk"));
    }
    proof {
        assert(names.deep_view() =~= required_names_spec(operation@, fs_type@));
    }
    names
}

/// Pair each required name with the path the search found.
pub fn required_sidecars(names: Vec<String>, paths: &Vec<Option<String>>) -> (r: Vec<
    SidecarCheck,
>)
    requires
        names@.len() == paths@.len(),
    ensures
        r@.len() == names@.len(),
        forall|k: int|
            0 <= k < r@.len() ==> {
                &&& (#[trigger] r@[k]).name == names@[k]
                &&& r@[k].found == (paths@[k] is Some)
                &&& r@[k].path == paths@[k]
            },
{
    let n = names.len();
    let mut r: Vec<SidecarCheck> = Vec::new();
    let mut i: usize = 0;
    let mut rest = names;
    #[verifier::loop_isolation(false)]
    while i < n
        invariant
            i <= n,
            n == rest@.len() == paths@.len(),
            r@.len() == i,
            forall|k: int|
                0 <= k < i ==> {
                    &&& (#[trigger] r@[k]).name == rest@[k]
                    &&& r@[k].found == (paths@[k] is Some)
                    &&& r@[k].path == paths@[k]
                },
        decreases n - i,
    {
        let name = rest[i].clone();
        let path: Option<String> = match &paths[i] {
            Some(p) => Some(p.clone()),
            None => None,
        };
        let found = path.is_some();
        r.push(SidecarCheck { name, found, path });
        i = i + 1;
    }
    r
}

/// The candidate paths of a sidecar, in search order: beside the
/// executable, under the bundled resources, then the system prefixes.
pub fn sidecar_candidates(exe_dir: Option<&String>, exe_parent: Option<&String>, name: &str) -> (r:
    Vec<String>)
    ensures
        ({
            let tail: Seq<Seq<char>> = seq![
                "/usr/local/bin/"@ + name@,
                "/opt/homebrew/bin/"@ + name@,
            ];
            let with_parent: Seq<Seq<char>> = match exe_parent {
                Some(p) => seq![p@ + "/Resources/sidecars/"@ + name@] + tail,
                None => tail,
            };
            r.deep_view() == (match exe_dir {
                Some(d) => seq![d@ + "/"@ + name@] + with_parent,
                None => with_parent,
            })
        }),
{
    let mut r: Vec<String> = Vec::new();
    match exe_dir {
        Some(d) => {
            let mut p = d.clone();
            p.append("/");
            p.append(name);
            r.push(p);
        },
        None => {},
    }
    match exe_parent {
        Some(parent) => {
            let mut p = parent.clone();
            p.append("/Resources/sidecars/");
            p.append(name);
            r.push(p);
        },
        None => {},
    }
    let a = String::from_str("/usr/local/bin/");
    r.push(a.concat(name));
    let b = String::from_str("/opt/homebrew/bin/");
    r.push(b.concat(name));
    proof {
        let tail: Seq<Seq<char>> = seq![
            "/usr/local/bin/"@ + name@,
            "/opt/homebrew/bin/"@ + name@,
        ];
        let with_parent: Seq<Seq<char>> = match exe_parent {
            Some(p) => seq![p@ + "/Resources/sidecars/"@ + name@] + tail,
            None => tail,
        };
        assert(r.deep_view() =~~= (match exe_dir {
            Some(d) => seq![d@ + "/"@ + name@] + with_parent,
            None => with_parent,
        }));
    }
    r
}

/// The quick read-only filesystem check of the preflight: `e2fsck -n`
/// for ext4, `ntfsfix -n` for ntfs, the host verify for the native
/// family, an error otherwise.
pub fn quick_fs_check_command(device: &str, fs: &str) -> (r: Result<
    crate::blockops::Action,
    String,
>)
    ensures
        match r {
            Ok(a) => {
                ||| (fs@ == "ext4"@ && a@ == (crate::blockops::ActionV::Sidecar {
                    binary: "e2fsck"@,
                    args: seq!["-n"@, "-f"@, device@],
                }))
                ||| (fs@ == "ntfs"@ && a@ == (crate::blockops::ActionV::Sidecar {
                    binary: "ntfsfix"@,
                    args: seq!["-n"@, device@],
                }))
                ||| ((fs@ == "apfs"@ || fs@ == "exfat"@ || fs@ == "fat32"@) && a@ == (
                crate::blockops::ActionV::Diskutil { args: seq!["verifyVolume"@, device@] }))
            },
            Err(e) => !(fs@ == "ext4"@ || fs@ == "ntfs"@ || fs@ == "apfs"@ || fs@ == "exfat"@
                || fs@ == "fat32"@) && e@ == "Unsupported filesystem for preflight check"@,
        },
{
    if str_eq(fs, "ext4") {
        let args = vec!["-n".to_owned(), "-f".to_owned(), device.to_owned()];
        proof {
            assert(args.deep_view() =~= seq!["-n"@, "-f"@, device@]);
        }
        Ok(crate::blockops::Action::Sidecar { binary: String::from_str("e2fsck"), args })
    } else if str_eq(fs, "ntfs") {
        let args = vec!["-n".to_owned(), device.to_owned()];
        proof {
            assert(args.deep_view() =~= seq!["-n"@, device@]);
        }
        Ok(crate::blockops::Action::Sidecar { binary: String::from_str("ntfsfix"), args })
    } else if str_eq(fs, "apfs") || str_eq(fs, "exfat") || str_eq(fs, "fat32") {
        let args = vec!["verifyVolume".to_owned(), device.to_owned()];
        proof {
            assert(args.deep_view() =~= seq!["verifyVolume"@, device@]);
        }
        Ok(crate::blockops::Action::Diskutil { args })
    } else {
        Err(String::from_str("Unsupported filesystem for preflight check"))
    }
}

/// The least new size the buffer rule allows: the used bytes plus five
/// percent, rounded up.
pub open spec fn min_required_spec(used: u64) -> int {
    (used * 21 + 19) / 20
}

/// Compute the buffered minimum size, clamped into 64 bits.
pub fn min_required_bytes(used: u64) -> (r: u64)
    ensures
        r == (if min_required_spec(used) > u64::MAX {
            u64::MAX as int
        } else {
            min_required_spec(used)
        }),
        r >= used,
{
    let wide: u128 = (used as u128) * 21 + 19;
    let q = wide / 20;
    proof {
        vstd::arithmetic::div_mod::lemma_div_multiples_vanish(used as int, 20);
        assert(20 * used <= used * 21 + 19) by (nonlinear_arith);
        vstd::arithmetic::div_mod::lemma_div_is_ordered(
            20 * (used as int),
            used * 21 + 19,
            20,
        );
        assert(20 * (used as int) == (used as int) * 20) by (nonlinear_arith);
        vstd::arithmetic::div_mod::lemma_div_by_multiple(used as int, 20);
    }
    if q > u64::MAX as u128 {
        u64::MAX
    } else {
        q as u64
    }
}

/// The raw facts a preflight gathers before the rules weigh them.
pub struct PreflightFacts {
    /// The battery status, when the power tool answered.
    pub battery: Option<BatteryStatus>,
    /// Each required sidecar, and whether the search found it.
    pub sidecars: Vec<SidecarCheck>,
    /// The holder processes, when the volume is mounted and the
    /// open-files listing succeeded.
    pub busy: Option<Vec<ProcessInfo>>,
    /// The open-files listing failed with this error.
    pub lsof_error: Option<String>,
    /// The read-only filesystem check reported a problem.
    pub fs_check_problem: bool,
    /// The requested new size and the known used bytes, when both exist.
    pub new_vs_used: Option<(u64, u64)>,
    /// The volume carries a boot role.
    pub boot_volume: bool,
}

/// The blockers a preflight reports, in their fixed order: battery,
/// missing sidecars, busy volume, too-small size.
pub open spec fn blockers_spec(
    battery_low: bool,
    missing: Seq<Seq<char>>,
    busy: bool,
    too_small: bool,
) -> Seq<Seq<char>> {
    let a: Seq<Seq<char>> = if battery_low {
        seq!["Bitte Netzteil anschliessen (Akkustand zu niedrig)."@]
    } else {
        Seq::empty()
    };
    let b = a + missing;
    let c: Seq<Seq<char>> = if busy {
        b.push("Volume ist noch in Benutzung."@)
    } else {
        b
    };
    if too_small {
        c.push("Zielgroesse ist kleiner als belegter Speicher (mit Puffer)."@)
    } else {
        c
    }
}

/// The warnings a preflight reports, in their fixed order: a failed
/// open-files listing, a filesystem-check problem, a boot volume.
pub open spec fn warnings_spec(
    lsof_error: Option<Seq<char>>,
    fs_check_problem: bool,
    boot_volume: bool,
) -> Seq<Seq<char>> {
    let a: Seq<Seq<char>> = match lsof_error {
        Some(e) => seq!["lsof fehlgeschlagen: "@ + e],
        None => Seq::empty(),
    };
    let b: Seq<Seq<char>> = if fs_check_problem {
        a.push("Dateisystem-Pruefung meldet Fehler. Reparatur empfohlen."@)
    } else {
        a
    };
    if boot_volume {
        b.push("Achtung: Partition gehoert zu einer macOS-Installation."@)
    } else {
        b
    }
}

/// The blocker lines of the missing sidecars, in order.
pub open spec fn missing_names(s: Seq<SidecarCheck>) -> Seq<Seq<char>>
    decreases s.len(),
{
    if s.len() == 0 {
        Seq::empty()
    } else {
        let rest = missing_names(s.drop_last());
        if !s.last().found {
            rest.push("Sidecar fehlt: "@ + s.last().name@)
        } else {
            rest
        }
    }
}

/// The preflight decision: ordered blockers and warnings over the
/// collected facts, and `ok` exactly when nothing blocks.
pub fn preflight_verdict(facts: &PreflightFacts) -> (r: (bool, Vec<String>, Vec<String>))
    ensures
        ({
            let battery_low = match facts.battery {
                Some(info) => info.is_laptop && !info.on_ac && (match info.percent {
                    Some(p) => p < 30,
                    None => false,
                }),
                None => false,
            };
            let busy = match facts.busy {
                Some(ref procs) => procs@.len() > 0,
                None => false,
            };
            let too_small = match facts.new_vs_used {
                Some((new_bytes, used)) => (new_bytes as int) < min_required_spec(used),
                None => false,
            };
            let lsof_err = match facts.lsof_error {
                Some(ref e) => Some(e@),
                None => None::<Seq<char>>,
            };
            &&& r.1.deep_view() == blockers_spec(
                battery_low,
                missing_names(facts.sidecars@),
                busy,
                too_small,
            )
            &&& r.2.deep_view() == warnings_spec(
                lsof_err,
                facts.fs_check_problem,
                facts.boot_volume,
            )
            &&& r.0 == (r.1.deep_view().len() == 0)
        }),
{
    let mut blockers: Vec<String> = Vec::new();
    let mut warnings: Vec<String> = Vec::new();

    let battery_low_now = battery_blocks(&facts.battery);
    if battery_low_now {
        blockers.push(String::from_str("Bitte Netzteil anschliessen (Akkustand zu niedrig)."));
    }
    let ghost after_battery = blockers.deep_view();
    proof {
        if battery_low_now {
            assert(after_battery =~= seq![
                "Bitte Netzteil anschliessen (Akkustand zu niedrig)."@,
            ]);
        } else {
            assert(after_battery =~= Seq::<Seq<char>>::empty());
        }
    }
    let n = facts.sidecars.len();
    let mut i: usize = 0;
    #[verifier::loop_isolation(false)]
    while i < n
        invariant
            i <= n,
            n == facts.sidecars@.len(),
            blockers.deep_view() == after_battery + missing_names(
                facts.sidecars@.subrange(0, i as int),
            ),
        decreases n - i,
    {
        proof {
            let pre1 = facts.sidecars@.subrange(0, i + 1);
            assert(pre1.drop_last() =~= facts.sidecars@.subrange(0, i as int));
            assert(pre1.last() == facts.sidecars@[i as int]);
        }
        if !facts.sidecars[i].found {
            let ghost prev = blockers.deep_view();
            let msg = String::from_str("Sidecar fehlt: ");
            let line = msg.concat(facts.sidecars[i].name.as_str());
            proof {
                assert(line@ == "Sidecar fehlt: "@ + facts.sidecars@[i as int].name@);
            }
            blockers.push(line);
            proof {
                assert(blockers.deep_view() =~= prev.push(
                    "Sidecar fehlt: "@ + facts.sidecars@[i as int].name@,
                ));
                assert(missing_names(facts.sidecars@.subrange(0, i + 1)) =~= missing_names(
                    facts.sidecars@.subrange(0, i as int),
                ).push("Sidecar fehlt: "@ + facts.sidecars@[i as int].name@));
                assert(blockers.deep_view() =~= after_battery + missing_names(
                    facts.sidecars@.subrange(0, i + 1),
                ));
            }
        } else {
            proof {
                assert(blockers.deep_view() =~= after_battery + missing_names(
                    facts.sidecars@.subrange(0, i + 1),
                ));
            }
        }
        i = i + 1;
    }
    proof {
        assert(facts.sidecars@.subrange(0, n as int) =~= facts.sidecars@);
    }

    let ghost after_missing = blockers.deep_view();
    let busy = match &facts.busy {
        Some(procs) => procs.len() > 0,
        None => false,
    };
    if busy {
        blockers.push(String::from_str("Volume ist noch in Benutzung."));
    }
    proof {
        if busy {
            assert(blockers.deep_view() =~= after_missing.push(
                "Volume ist noch in Benutzung."@,
            ));
        }
    }
    let ghost after_busy = blockers.deep_view();
    let too_small = match facts.new_vs_used {
        Some((new_bytes, used)) => size_blocks(new_bytes, Some(used)),
        None => false,
    };
    if too_small {
        blockers.push(
            String::from_str("Zielgroesse ist kleiner als belegter Speicher (mit Puffer)."),
        );
    }
    proof {
        if too_small {
            assert(blockers.deep_view() =~= after_busy.push(
                "Zielgroesse ist kleiner als belegter Speicher (mit Puffer)."@,
            ));
        }
    }

    match &facts.lsof_error {
        Some(e) => {
            let msg = String::from_str("lsof fehlgeschlagen: ");
            warnings.push(msg.concat(e.as_str()));
            proof {
                assert(warnings.deep_view() =~= seq!["lsof fehlgeschlagen: "@ + e@]);
            }
        },
        None => {
            proof {
                assert(warnings.deep_view() =~= Seq::<Seq<char>>::empty());
            }
        },
    }
    let ghost after_lsof = warnings.deep_view();
    if facts.fs_check_problem {
        warnings.push(
            String::from_str("Dateisystem-Pruefung meldet Fehler. Reparatur empfohlen."),
        );
        proof {
            assert(warnings.deep_view() =~= after_lsof.push(
                "Dateisystem-Pruefung meldet Fehler. Reparatur empfohlen."@,
            ));
        }
    }
    let ghost after_fs = warnings.deep_view();
    if facts.boot_volume {
        warnings.push(
            String::from_str("Achtung: Partition gehoert zu einer macOS-Installation."),
        );
        proof {
            assert(warnings.deep_view() =~= after_fs.push(
                "Achtung: Partition gehoert zu einer macOS-Installation."@,
            ));
        }
    }

    proof {
        let battery_low = match facts.battery {
            Some(ref info) => info.is_laptop && !info.on_ac && (match info.percent {
                Some(p) => p < 30,
                None => false,
            }),
            None => false,
        };
        let lsof_err = match facts.lsof_error {
            Some(ref e) => Some(e@),
            None => None::<Seq<char>>,
        };
        assert(blockers.deep_view() =~~= blockers_spec(
            battery_low,
            missing_names(facts.sidecars@),
            busy,
            too_small,
        ));
        assert(warnings.deep_view() =~~= warnings_spec(
            lsof_err,
            facts.fs_check_problem,
            facts.boot_volume,
        ));
    }
    let ok = blockers.len() == 0;
    (ok, blockers, warnings)
}

/// The battery rule: a laptop off mains below thirty percent blocks.
pub fn battery_blocks(battery: &Option<BatteryStatus>) -> (r: bool)
    ensures
        r == (match battery {
            Some(info) => info.is_laptop && !info.on_ac && (match info.percent {
                Some(p) => p < 30,
                None => false,
            }),
            None => false,
        }),
{
    match battery {
        Some(info) => {
            if info.is_laptop && !info.on_ac {
                match info.percent {
                    Some(p) => p < 30,
                    None => false,
                }
            } else {
                false
            }
        },
        None => false,
    }
}

/// The size rule: a known used-byte count blocks a new size below the
/// buffered minimum.
pub fn size_blocks(new_bytes: u64, used_bytes: Option<u64>) -> (r: bool)
    ensures
        r == (match used_bytes {
            Some(u) => (new_bytes as int) < min_required_spec(u),
            None => false,
        }),
{
    match used_bytes {
        Some(u) => {
            let wide: u128 = (u as u128) * 21 + 19;
            (new_bytes as u128) < wide / 20
        },
        None => false,
    }
}

} // verus!
