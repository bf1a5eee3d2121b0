use vstd::prelude::*;
use crate::discovery::{decimal, push_chars, push_decimal};
use crate::engine::PadFlowEngine;
use crate::text::{chars_of, lower_case, string_of, to_lowercase, trim, trim_chars};
use vstd::string::StringExecFns;

verus! {

// ---------------------------------------------------------------------------
// Lightbar requests from the UI
// ---------------------------------------------------------------------------

/// Queues a lightbar colour for a pad. A blank pad id is refused and
/// nothing changes.
pub fn set_led_color<P, S>(engine: &mut PadFlowEngine<P, S>, pad_id: &str, r: u8, g: u8, b: u8) -> (res: Result<
    (),
    String,
>)
    requires
        old(engine).wf(),
    ensures
        final(engine).wf(),
        res is Err <==> trim(pad_id@).len() == 0,
        res matches Err(msg) ==> msg@ == "pad_id must not be empty"@ && final(engine)@ == old(engine)@,
        res is Ok ==> final(engine)@ == old(engine)@.queue_led(pad_id@, [r, g, b]),
{
    let t = trim_chars(pad_id);
    if t.len() == 0 {
        return Err("pad_id must not be empty".to_owned());
    }
    engine.queue_led(pad_id, [r, g, b]);
    Ok(())
}

// ---------------------------------------------------------------------------
// External links
// ---------------------------------------------------------------------------

pub open spec fn https_prefix() -> Seq<char> {
    seq!['h', 't', 't', 'p', 's', ':', '/', '/']
}

pub open spec fn http_prefix() -> Seq<char> {
    seq!['h', 't', 't', 'p', ':', '/', '/']
}

/// `s` starts with `p`.
pub open spec fn starts_with(s: Seq<char>, p: Seq<char>) -> bool {
    s.len() >= p.len() && s.take(p.len() as int) == p
}

fn chars_start_with(s: &[char], p: &[char]) -> (r: bool)
    ensures
        r == starts_with(s@, p@),
{
    if s.len() < p.len() {
        return false;
    }
    let mut i: usize = 0;
    while i < p.len()
        invariant
            p@.len() <= s@.len(),
            i <= p@.len(),
            forall|j: int| 0 <= j < i ==> s@[j] == p@[j],
        decreases p@.len() - i,
    {
        if s[i] != p[i] {
            assert(s@.take(p@.len() as int)[i as int] != p@[i as int]);
            return false;
        }
        i = i + 1;
    }
    assert(s@.take(p@.len() as int) =~= p@);
    true
}

/// Only `http://` and `https://` links are opened in the browser; anything
/// else is refused.
pub fn check_open_url(url: &str) -> (r: Result<(), String>)
    ensures
        r is Ok <==> (starts_with(url@, https_prefix()) || starts_with(url@, http_prefix())),
        r matches Err(msg) ==> msg@ == "invalid URL scheme"@,
{
    let u = chars_of(url);
    let https: Vec<char> = vec!['h', 't', 't', 'p', 's', ':', '/', '/'];
    let http: Vec<char> = vec!['h', 't', 't', 'p', ':', '/', '/'];
    proof {
        assert(https@ =~= https_prefix());
        assert(http@ =~= http_prefix());
    }
    if !chars_start_with(u.as_slice(), https.as_slice()) && !chars_start_with(u.as_slice(), http.as_slice()) {
        return Err("invalid URL scheme".to_owned());
    }
    Ok(())
}

// ---------------------------------------------------------------------------
// Installer command lines
// ---------------------------------------------------------------------------

/// `s` with every `'` doubled, as a PowerShell single-quoted string needs.
pub open spec fn double_quotes(s: Seq<char>) -> Seq<char>
    decreases s.len(),
{
    if s.len() == 0 {
        Seq::empty()
    } else {
        double_quotes(s.drop_last()) + (if s.last() == '\'' {
            seq!['\'', '\'']
        } else {
            seq![s.last()]
        })
    }
}

/// Escapes a path for use inside a PowerShell single-quoted string.
pub fn escape_single_quotes(s: &str) -> (r: String)
    ensures
        r@ == double_quotes(s@),
{
    let c = chars_of(s);
    let mut out: Vec<char> = Vec::new();
    let mut i: usize = 0;
    while i < c.len()
        invariant
            i <= c@.len(),
            c@ == s@,
            out@ == double_quotes(c@.take(i as int)),
        decreases c@.len() - i,
    {
        proof {
            assert(c@.take(i + 1).drop_last() =~= c@.take(i as int));
        }
        if c[i] == '\'' {
            out.push('\'');
            out.push('\'');
        } else {
            out.push(c[i]);
        }
        i = i + 1;
        proof {
            assert(out@ =~= double_quotes(c@.take(i as int)));
        }
    }
    proof {
        assert(c@.take(c@.len() as int) =~= c@);
    }
    string_of(out.as_slice())
}

// ---------------------------------------------------------------------------
// Curve preview
// ---------------------------------------------------------------------------

/// The number of curve segments previewed: the request's, within `8..=512`.
pub fn preview_sample_count(samples: u32) -> (n: u32)
    ensures
        n == (if samples < 8 {
            8
        } else if samples > 512 {
            512
        } else {
            samples
        }),
{
    if samples < 8 {
        8
    } else if samples > 512 {
        512
    } else {
        samples
    }
}


// ---------------------------------------------------------------------------
// Tray tooltip
// ---------------------------------------------------------------------------

/// The tray tooltip: while the engine runs, the first pad's name, its
/// battery (when reported, with a bolt while charging) and the poll rate
/// (at least 1 Hz); otherwise "idle" and the pad's name.
pub open spec fn spec_tray_tooltip(
    running: bool,
    device_name: Option<Seq<char>>,
    battery: i16,
    charging: bool,
    poll_hz: u32,
) -> Seq<char> {
    let name = match device_name {
        Some(n) => n,
        None => "no controller"@,
    };
    let battery_part = if battery >= 0 {
        " \u{b7} "@ + decimal(battery as nat) + "%"@ + (if charging {
            " \u{26a1}"@
        } else {
            Seq::empty()
        })
    } else {
        Seq::empty()
    };
    if running {
        "PadFlow \u{2014} "@ + name + battery_part + " \u{b7} "@ + decimal(
            if poll_hz < 1 {
                1nat
            } else {
                poll_hz as nat
            },
        ) + " Hz"@
    } else {
        "PadFlow \u{2014} idle ("@ + name + ")"@
    }
}

fn push_str(out: &mut Vec<char>, s: &str)
    ensures
        final(out)@ == old(out)@ + s@,
{
    let c = chars_of(s);
    push_chars(out, c.as_slice());
}

/// The tray tooltip text.
pub fn tray_tooltip(running: bool, device_name: Option<&str>, battery: i16, charging: bool, poll_hz: u32) -> (r:
    String)
    ensures
        r@ == spec_tray_tooltip(
            running,
            match device_name {
                Some(n) => Some(n@),
                None => None,
            },
            battery,
            charging,
            poll_hz,
        ),
{
    let mut v: Vec<char> = Vec::new();
    let ghost name = match device_name {
        Some(n) => n@,
        None => "no controller"@,
    };
    if running {
        push_str(&mut v, "PadFlow \u{2014} ");
    } else {
        push_str(&mut v, "PadFlow \u{2014} idle (");
    }
    let ghost head = v@;
    match device_name {
        Some(n) => push_str(&mut v, n),
        None => push_str(&mut v, "no controller"),
    }
    assert(v@ == head + name);
    if !running {
        push_str(&mut v, ")");
        proof {
            assert(v@ =~= "PadFlow \u{2014} idle ("@ + name + ")"@);
        }
        return string_of(v.as_slice());
    }
    let ghost with_name = v@;
    if battery >= 0 {
        push_str(&mut v, " \u{b7} ");
        push_decimal(&mut v, battery as usize);
        push_str(&mut v, "%");
        if charging {
            push_str(&mut v, " \u{26a1}");
        }
    }
    let ghost battery_part = if battery >= 0 {
        " \u{b7} "@ + decimal(battery as nat) + "%"@ + (if charging {
            " \u{26a1}"@
        } else {
            Seq::<char>::empty()
        })
    } else {
        Seq::<char>::empty()
    };
    assert(v@ =~= with_name + battery_part);
    let hz: u32 = if poll_hz < 1 {
        1
    } else {
        poll_hz
    };
    push_str(&mut v, " \u{b7} ");
    push_decimal(&mut v, hz as usize);
    push_str(&mut v, " Hz");
    proof {
        assert(v@ =~= "PadFlow \u{2014} "@ + name + battery_part + " \u{b7} "@ + decimal(hz as nat) + " Hz"@);
    }
    string_of(v.as_slice())
}


// ---------------------------------------------------------------------------
// Where the HidHide installer is looked for
// ---------------------------------------------------------------------------

/// The directory an installer search starts from.
#[derive(Debug, Clone, Copy, PartialEq, Eq, Structural)]
pub enum InstallerBase {
    /// The application's resource directory.
    ResourceDir,
    /// The directory of the running executable.
    ExeDir,
}

/// Where below the base an installer may lie.
#[derive(Debug, Clone, Copy, PartialEq, Eq, Structural)]
pub enum InstallerDir {
    /// `<base>/resources`
    Resources,
    /// `<base>`
    Root,
    /// `<base>/src-tauri/resources`
    SrcTauriResources,
}

/// One place to look for an installer: a base, a directory below it, and
/// the index of a file name (see `hidhide_installer_name`).
#[derive(Debug, Clone, Copy, PartialEq, Eq, Structural)]
pub struct InstallerCandidate {
    pub base: InstallerBase,
    pub dir: InstallerDir,
    pub name: usize,
}

/// How many installer file names are tried.
pub const HIDHIDE_INSTALLER_NAMES: usize = 4;

/// The installer file names, in the order they are tried.
pub fn hidhide_installer_name(i: usize) -> (n: &'static str)
    requires
        i < HIDHIDE_INSTALLER_NAMES,
    ensures
        i == 0 ==> n@ == "HidHide_Setup.exe"@,
        i == 1 ==> n@ == "HidHide_1.5.230_x64.exe"@,
        i == 2 ==> n@ == "HidHideMSI.msi"@,
        i == 3 ==> n@ == "HidHide.exe"@,
{
    if i == 0 {
        "HidHide_Setup.exe"
    } else if i == 1 {
        "HidHide_1.5.230_x64.exe"
    } else if i == 2 {
        "HidHideMSI.msi"
    } else {
        "HidHide.exe"
    }
}

/// The `i`-th place looked at: first, for each name in turn, the resource
/// directory's `resources` folder and the resource directory itself; then,
/// for each name in turn, the executable's directory's `resources` folder,
/// the directory itself and its `src-tauri/resources` folder.
pub open spec fn spec_installer_candidate(i: int) -> InstallerCandidate {
    if i < 2 * HIDHIDE_INSTALLER_NAMES {
        InstallerCandidate {
            base: InstallerBase::ResourceDir,
            dir: if i % 2 == 0 {
                InstallerDir::Resources
            } else {
                InstallerDir::Root
            },
            name: (i / 2) as usize,
        }
    } else {
        let j = i - 2 * HIDHIDE_INSTALLER_NAMES;
        InstallerCandidate {
            base: InstallerBase::ExeDir,
            dir: if j % 3 == 0 {
                InstallerDir::Resources
            } else if j % 3 == 1 {
                InstallerDir::Root
            } else {
                InstallerDir::SrcTauriResources
            },
            name: (j / 3) as usize,
        }
    }
}

/// Every place the HidHide installer is looked for, in order; the first
/// existing one is used.
pub fn hidhide_installer_candidates() -> (r: Vec<InstallerCandidate>)
    ensures
        r@.len() == 5 * HIDHIDE_INSTALLER_NAMES,
        forall|i: int| 0 <= i < r@.len() ==> #[trigger] r@[i] == spec_installer_candidate(i),
{
    let mut r: Vec<InstallerCandidate> = Vec::new();
    let mut n: usize = 0;
    while n < HIDHIDE_INSTALLER_NAMES
        invariant
            n <= HIDHIDE_INSTALLER_NAMES,
            r@.len() == 2 * n,
            forall|i: int| 0 <= i < r@.len() ==> #[trigger] r@[i] == spec_installer_candidate(i),
        decreases HIDHIDE_INSTALLER_NAMES - n,
    {
        r.push(InstallerCandidate { base: InstallerBase::ResourceDir, dir: InstallerDir::Resources, name: n });
        r.push(InstallerCandidate { base: InstallerBase::ResourceDir, dir: InstallerDir::Root, name: n });
        proof {
            assert((2 * n) as int % 2 == 0 && (2 * n) as int / 2 == n);
            assert((2 * n + 1) as int % 2 == 1 && (2 * n + 1) as int / 2 == n);
        }
        n = n + 1;
    }
    let mut m: usize = 0;
    while m < HIDHIDE_INSTALLER_NAMES
        invariant
            m <= HIDHIDE_INSTALLER_NAMES,
            r@.len() == 2 * HIDHIDE_INSTALLER_NAMES + 3 * m,
            forall|i: int| 0 <= i < r@.len() ==> #[trigger] r@[i] == spec_installer_candidate(i),
        decreases HIDHIDE_INSTALLER_NAMES - m,
    {
        r.push(InstallerCandidate { base: InstallerBase::ExeDir, dir: InstallerDir::Resources, name: m });
        r.push(InstallerCandidate { base: InstallerBase::ExeDir, dir: InstallerDir::Root, name: m });
        r.push(InstallerCandidate { base: InstallerBase::ExeDir, dir: InstallerDir::SrcTauriResources, name: m });
        proof {
            assert((3 * m) as int % 3 == 0 && (3 * m) as int / 3 == m);
            assert((3 * m + 1) as int % 3 == 1 && (3 * m + 1) as int / 3 == m);
            assert((3 * m + 2) as int % 3 == 2 && (3 * m + 2) as int / 3 == m);
        }
        m = m + 1;
    }
    r
}


// ---------------------------------------------------------------------------
// Running the HidHide installer
// ---------------------------------------------------------------------------

/// The letters `msi`.
pub open spec fn msi() -> Seq<char> {
    seq!['m', 's', 'i']
}

/// An installer is a Windows Installer package when its file extension,
/// lower-cased, is `msi`; a file without an extension is not.
pub fn installer_is_msi(extension: Option<&str>) -> (r: bool)
    ensures
        r == match extension {
            Some(e) => lower_case(e@) == msi(),
            None => false,
        },
{
    match extension {
        None => false,
        Some(e) => {
            let lower = to_lowercase(e);
            let c = chars_of(lower.as_str());
            let r = c.len() == 3 && c[0] == 'm' && c[1] == 's' && c[2] == 'i';
            proof {
                if r {
                    assert(c@ =~= msi());
                }
            }
            r
        },
    }
}

/// The PowerShell command that runs the installer at `installer_path`
/// elevated and waits for it: through `msiexec` for a Windows Installer
/// package, directly otherwise. The path is quoted for a single-quoted
/// PowerShell string.
pub open spec fn spec_install_command(is_msi: bool, installer_path: Seq<char>) -> Seq<char> {
    if is_msi {
        "Start-Process -FilePath 'msiexec.exe' -ArgumentList '/i', '"@ + double_quotes(installer_path)
            + "', '/norestart' -Verb RunAs -Wait"@
    } else {
        "Start-Process -FilePath '"@ + double_quotes(installer_path) + "' -ArgumentList '/norestart' -Verb RunAs -Wait"@
    }
}

/// Builds the command of `spec_install_command`.
pub fn hidhide_install_command(is_msi: bool, installer_path: &str) -> (r: String)
    ensures
        r@ == spec_install_command(is_msi, installer_path@),
{
    let quoted = escape_single_quotes(installer_path);
    let mut v: Vec<char> = Vec::new();
    if is_msi {
        push_str(&mut v, "Start-Process -FilePath 'msiexec.exe' -ArgumentList '/i', '");
        push_str(&mut v, quoted.as_str());
        push_str(&mut v, "', '/norestart' -Verb RunAs -Wait");
    } else {
        push_str(&mut v, "Start-Process -FilePath '");
        push_str(&mut v, quoted.as_str());
        push_str(&mut v, "' -ArgumentList '/norestart' -Verb RunAs -Wait");
    }
    string_of(v.as_slice())
}

/// What an installer run is answered with: the installer's success, and
/// whether the driver is then found installed, decide the message; an
/// installer that failed (cancelled, or elevation denied) is an error.
pub fn hidhide_install_outcome(installer_succeeded: bool, driver_installed: bool) -> (r: Result<String, String>)
    ensures
        installer_succeeded && driver_installed ==> r is Ok && r->Ok_0@
            == "HidHide driver installed successfully! Anti-double-input protection active."@,
        installer_succeeded && !driver_installed ==> r is Ok && r->Ok_0@
            == "HidHide installation completed. If shielding remains inactive, please restart Windows once to load filter driver."@,
        !installer_succeeded ==> r is Err && r->Err_0@
            == "HidHide installation was cancelled or denied Administrator permissions"@,
{
    if installer_succeeded {
        if driver_installed {
            Ok(String::from_str("HidHide driver installed successfully! Anti-double-input protection active."))
        } else {
            Ok(
                String::from_str(
                    "HidHide installation completed. If shielding remains inactive, please restart Windows once to load filter driver.",
                ),
            )
        }
    } else {
        Err(String::from_str("HidHide installation was cancelled or denied Administrator permissions"))
    }
}

} // verus!
