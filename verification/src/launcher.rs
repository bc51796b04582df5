//! Opening a worktree in external tools: the file explorer and the user's editor
//! (Rider first and foremost — reviewing a merge in a familiar IDE is a core part
//! of the workflow this app orchestrates, not an afterthought).
use crate::error::{is_config, MaestroError};
use crate::text::{
    before, blank, chars_of, ends_with, has_prefix, has_suffix, is_blank, lines, lines_of,
    lower_text, lowered, opt_view, str_starts_with, string_of, text_before, text_of, trim,
    trim_text, views,
};
use vstd::prelude::*;
use vstd::string::*;

verus! {

/// Editor launch command. Empty/absent means "auto-detect Rider".
pub const SETTING_EDITOR_COMMAND: &'static str = "editor_command";

/// Where JetBrains Toolbox puts its stable shim, below the local application data.
pub const RIDER_SHIM: &'static str = "JetBrains/Toolbox/scripts/rider.cmd";

/// Where JetBrains Toolbox installs the application, below the local application data.
pub const RIDER_APP: &'static str = "Programs/Rider/bin/rider64.exe";

/// What the directories of the classic installer are called.
pub const RIDER_PREFIX: &'static str = "JetBrains Rider";

pub const NO_EDITOR: &'static str = "no editor found — set `editor_command` in ~/.maestro/config.toml (e.g. the full path to rider64.exe)";

/// The platforms whose file explorers are called differently.
#[derive(Clone, Copy, Debug, PartialEq, Eq, Structural)]
pub enum Platform {
    Windows,
    MacOs,
    Other,
}

/// A program to start, and its arguments.
#[derive(Debug)]
pub struct Launch {
    pub program: String,
    pub args: Vec<String>,
}

#[verifier::ext_equal]
pub struct LaunchV {
    pub program: Seq<char>,
    pub args: Seq<Seq<char>>,
}

impl View for Launch {
    type V = LaunchV;

    open spec fn view(&self) -> LaunchV {
        LaunchV { program: self.program@, args: views(self.args@) }
    }
}

pub open spec fn explorer(platform: Platform) -> Seq<char> {
    match platform {
        Platform::Windows => "explorer"@,
        Platform::MacOs => "open"@,
        Platform::Other => "xdg-open"@,
    }
}

/// How to open `path` in the OS file explorer. Started and forgotten: explorer.exe is known
/// to return nonzero even on success, so there is no status to meaningfully check.
pub fn open_in_explorer(platform: Platform, path: &str) -> (r: Launch)
    ensures
        r@ == (LaunchV { program: explorer(platform), args: seq![path@] }),
{
    let program: &str = match platform {
        Platform::Windows => "explorer",
        Platform::MacOs => "open",
        Platform::Other => "xdg-open",
    };
    let mut args: Vec<String> = Vec::new();
    args.push(text_of(path));
    assert(views(args@) =~= seq![path@]);
    Launch { program: text_of(program), args }
}

/// What a search for Rider came across.
#[derive(Debug)]
pub struct RiderSearch {
    /// What `where rider` printed, if it succeeded.
    pub on_path: Option<String>,
    /// Of the places below the local application data, those that exist, in order.
    pub toolbox: Vec<String>,
    /// The JetBrains directories whose executable exists.
    pub installed: Vec<InstalledApp>,
}

/// A directory of the classic installer, and the executable in it.
#[derive(Debug)]
pub struct InstalledApp {
    pub name: String,
    pub executable: String,
}

/// The first line of what `where` printed, trimmed; none where that is blank.
pub open spec fn shim_of(printed: Option<Seq<char>>) -> Option<Seq<char>> {
    match printed {
        Some(p) => {
            let ls = lines(p);
            if ls.len() > 0 && !is_blank(ls[0]) {
                Some(trim(ls[0]))
            } else {
                None
            }
        },
        None => None,
    }
}

/// The Rider directory with the greatest name, the last of those called the same.
pub open spec fn newest(apps: Seq<InstalledApp>) -> Option<int>
    decreases apps.len(),
{
    if apps.len() == 0 {
        None
    } else {
        let best = newest(apps.drop_last());
        let a = apps.last();
        if !has_prefix(a.name@, RIDER_PREFIX@) || (best is Some && before(
            a.name@,
            apps[best->0].name@,
        )) {
            best
        } else {
            Some(apps.len() - 1)
        }
    }
}

/// Where Rider was found: on the PATH, in Toolbox's places, or in the newest of the classic
/// installations, in this order.
pub open spec fn rider_of(s: RiderSearch) -> Option<Seq<char>> {
    match shim_of(opt_view(s.on_path)) {
        Some(p) => Some(p),
        None => if s.toolbox@.len() > 0 {
            Some(s.toolbox@[0]@)
        } else {
            match newest(s.installed@) {
                Some(i) => Some(s.installed@[i].executable@),
                None => None,
            }
        },
    }
}

fn find_shim(printed: &Option<String>) -> (r: Option<String>)
    ensures
        opt_view(r) == shim_of(opt_view(*printed)),
{
    match printed {
        Some(p) => {
            let s: Vec<char> = chars_of(p.as_str());
            let ls: Vec<Vec<char>> = lines_of(s.as_slice());
            if ls.len() == 0 {
                return None;
            }
            let first: String = string_of(ls[0].as_slice());
            assert(lines(p@)[0] == first@);
            if blank(first.as_str()) {
                None
            } else {
                Some(trim_text(first.as_str()))
            }
        },
        None => None,
    }
}

fn find_newest(apps: &Vec<InstalledApp>) -> (r: Option<usize>)
    ensures
        match r {
            Some(i) => i < apps@.len() && newest(apps@) == Some(i as int),
            None => newest(apps@) is None,
        },
{
    let mut best: Option<usize> = None;
    let mut i: usize = 0;
    while i < apps.len()
        invariant
            i <= apps@.len(),
            match best {
                Some(b) => b < i && newest(apps@.take(i as int)) == Some(b as int),
                None => newest(apps@.take(i as int)) is None,
            },
        decreases apps@.len() - i,
    {
        assert(apps@.take(i + 1).drop_last() =~= apps@.take(i as int));
        if str_starts_with(apps[i].name.as_str(), RIDER_PREFIX) {
            let older: bool = match best {
                Some(b) => text_before(apps[i].name.as_str(), apps[b].name.as_str()),
                None => false,
            };
            if !older {
                best = Some(i);
            }
        }
        i += 1;
    }
    assert(apps@.take(i as int) =~= apps@);
    best
}

/// Best-effort Rider discovery: PATH shims first (JetBrains Toolbox puts `rider.cmd` in its
/// scripts directory), then the standard install roots.
pub fn detect_rider(search: &RiderSearch) -> (r: Option<String>)
    ensures
        opt_view(r) == rider_of(*search),
{
    match find_shim(&search.on_path) {
        Some(p) => return Some(p),
        None => {},
    }
    if search.toolbox.len() > 0 {
        return Some(text_of(search.toolbox[0].as_str()));
    }
    match find_newest(&search.installed) {
        Some(i) => Some(text_of(search.installed[i].executable.as_str())),
        None => None,
    }
}

/// Whether `r` is the editor to use.
pub open spec fn is_editor(
    r: Result<String, MaestroError>,
    setting: Option<Seq<char>>,
    search: RiderSearch,
) -> bool {
    if setting is Some && !is_blank(setting->0) {
        r matches Ok(e) && e@ == trim(setting->0)
    } else {
        match rider_of(search) {
            Some(p) => r matches Ok(e) && e@ == p,
            None => r matches Err(e) && is_config(e, NO_EDITOR@),
        }
    }
}

/// The editor executable to use: the `editor_command` setting when set, otherwise the first
/// Rider installation found in the usual places.
pub fn resolve_editor(setting: Option<&str>, search: &RiderSearch) -> (r: Result<
    String,
    MaestroError,
>)
    ensures
        is_editor(
            r,
            match setting {
                Some(s) => Some(s@),
                None => None,
            },
            *search,
        ),
{
    match setting {
        Some(configured) => {
            if !blank(configured) {
                return Ok(trim_text(configured));
            }
        },
        None => {},
    }
    match detect_rider(search) {
        Some(p) => Ok(p),
        None => Err(MaestroError::Config { message: text_of(NO_EDITOR) }),
    }
}

/// Whether an editor is a batch shim.
pub open spec fn is_batch(editor: Seq<char>) -> bool {
    has_suffix(lowered(editor), ".cmd"@) || has_suffix(lowered(editor), ".bat"@)
}

pub open spec fn invocation(editor: Seq<char>, path: Seq<char>) -> LaunchV {
    if is_batch(editor) {
        LaunchV { program: "cmd"@, args: seq!["/C"@, editor, path] }
    } else {
        LaunchV { program: editor, args: seq![path] }
    }
}

/// How to invoke `editor` with `path`: batch shims (.cmd/.bat) cannot be spawned directly
/// on Windows — they need `cmd /C`.
pub fn editor_invocation(editor: &str, path: &str) -> (r: Launch)
    ensures
        r@ == invocation(editor@, path@),
{
    let s: Vec<char> = chars_of(editor);
    let l: Vec<char> = lower_text(s.as_slice());
    let mut args: Vec<String> = Vec::new();
    if ends_with(l.as_slice(), chars_of(".cmd").as_slice()) || ends_with(
        l.as_slice(),
        chars_of(".bat").as_slice(),
    ) {
        args.push(text_of("/C"));
        args.push(text_of(editor));
        args.push(text_of(path));
        assert(views(args@) =~= seq!["/C"@, editor@, path@]);
        Launch { program: text_of("cmd"), args }
    } else {
        args.push(text_of(path));
        assert(views(args@) =~= seq![path@]);
        Launch { program: text_of(editor), args }
    }
}

/// How to open `path` in the configured editor, auto-detecting Rider when nothing is
/// configured. The `editor_command` setting holds the executable (path or name); the
/// worktree path is passed as its single argument.
pub fn open_in_editor(setting: Option<&str>, search: &RiderSearch, path: &str) -> (r: Result<
    Launch,
    MaestroError,
>)
    ensures
        ({
            let given = match setting {
                Some(s) => Some(s@),
                None => None,
            };
            if given is Some && !is_blank(given->0) {
                r matches Ok(l) && l@ == invocation(trim(given->0), path@)
            } else {
                match rider_of(*search) {
                    Some(p) => r matches Ok(l) && l@ == invocation(p, path@),
                    None => r matches Err(e) && is_config(e, NO_EDITOR@),
                }
            }
        }),
{
    match resolve_editor(setting, search) {
        Ok(editor) => Ok(editor_invocation(editor.as_str(), path)),
        Err(e) => Err(e),
    }
}

/// The program could not be started.
pub fn launch_failed(program: &str, reason: &str) -> (e: MaestroError)
    ensures
        is_config(e, "failed to launch `"@ + program@ + "`: "@ + reason@),
{
    MaestroError::Config {
        message: text_of("failed to launch `").concat(program).concat("`: ").concat(reason),
    }
}

} // verus!
