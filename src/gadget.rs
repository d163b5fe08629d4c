//! The gadgets: their names, where each looks, and how its result is shown.

use vstd::prelude::*;

use crate::collect::{
    entries_view, git_stats, git_text, lock_count, meminfo_text, memory_usage, opt_view, temperature,
    temperature_text, trim, trimmed, trimmed_entry,
};
use crate::text::decimal;

verus! {

/// The text shown in place of a value that could not be collected.
pub const PLACEHOLDER: &'static str = "???";

/// A metric source.
#[derive(PartialEq, Eq, Structural, Debug, Clone, Copy)]
pub enum Gadget {
    Synchronization,
    Git,
    Thunderbird,
    Memory,
    Temperature,
}

/// The icon of a gadget and what it collected: its value, or why there is none.
#[derive(Debug)]
pub struct GadgetResult {
    pub icon: String,
    pub data: Result<String, String>,
}

/// How the files that a probe names are to be looked at.
#[derive(PartialEq, Eq, Structural, Debug, Clone, Copy)]
pub enum ProbeMode {
    /// Count the paths that match the pattern.
    Count,
    /// Read each file that matches the pattern.
    ReadEach,
    /// Read the one file at the path.
    ReadOne,
}

/// Where a gadget looks: a path, or a glob pattern of paths.
#[derive(Debug)]
pub struct Probe {
    pub pattern: String,
    pub mode: ProbeMode,
}

/// The gadget that an identifier names, matched exactly.
pub open spec fn gadget_named(s: Seq<char>) -> Option<Gadget> {
    if s == "synchronization"@ {
        Some(Gadget::Synchronization)
    } else if s == "git"@ {
        Some(Gadget::Git)
    } else if s == "thunderbird"@ {
        Some(Gadget::Thunderbird)
    } else if s == "memory"@ {
        Some(Gadget::Memory)
    } else if s == "temperature"@ {
        Some(Gadget::Temperature)
    } else {
        None
    }
}

pub open spec fn icon_of(g: Gadget) -> Seq<char> {
    match g {
        Gadget::Synchronization => "\u{f021}"@,
        Gadget::Git => "\u{f126}"@,
        Gadget::Thunderbird => "\u{f2b7}"@,
        Gadget::Memory => "\u{f1c0}"@,
        Gadget::Temperature => "\u{f2c7}"@,
    }
}

fn same_text(a: &str, b: &str) -> (r: bool)
    ensures
        r == (a@ == b@),
{
    let n = a.unicode_len();
    if n != b.unicode_len() {
        return false;
    }
    let mut i: usize = 0;
    while i < n
        invariant
            n == a@.len(),
            n == b@.len(),
            i <= n,
            a@.subrange(0, i as int) == b@.subrange(0, i as int),
        decreases n - i,
    {
        if a.get_char(i) != b.get_char(i) {
            return false;
        }
        assert(a@.subrange(0, i + 1) =~= a@.subrange(0, i as int).push(a@[i as int]));
        assert(b@.subrange(0, i + 1) =~= b@.subrange(0, i as int).push(b@[i as int]));
        i = i + 1;
    }
    assert(a@.subrange(0, n as int) =~= a@);
    assert(b@.subrange(0, n as int) =~= b@);
    true
}

impl Gadget {
    /// The gadget named by `input`.
    pub fn try_from(input: &str) -> (r: Result<Gadget, String>)
        ensures
            r is Ok <==> gadget_named(input@) is Some,
            r matches Ok(g) ==> gadget_named(input@) == Some(g),
    {
        if same_text(input, "synchronization") {
            Ok(Gadget::Synchronization)
        } else if same_text(input, "git") {
            Ok(Gadget::Git)
        } else if same_text(input, "thunderbird") {
            Ok(Gadget::Thunderbird)
        } else if same_text(input, "memory") {
            Ok(Gadget::Memory)
        } else if same_text(input, "temperature") {
            Ok(Gadget::Temperature)
        } else {
            Err(String::from_str("invalid gadget"))
        }
    }

    /// The icon shown before the gadget's value.
    pub fn icon(&self) -> (r: &'static str)
        ensures
            r@ == icon_of(*self),
    {
        match self {
            Gadget::Synchronization => "\u{f021}",
            Gadget::Git => "\u{f126}",
            Gadget::Thunderbird => "\u{f2b7}",
            Gadget::Memory => "\u{f1c0}",
            Gadget::Temperature => "\u{f2c7}",
        }
    }
}

/// Checks a gadget identifier given on the command line.
pub fn validate_gadget(gadget: &str) -> (r: Result<Gadget, String>)
    ensures
        r is Ok <==> gadget_named(gadget@) is Some,
        r matches Ok(g) ==> gadget_named(gadget@) == Some(g),
{
    Gadget::try_from(gadget)
}

/// What a probe found: the reason it could not look, or one entry per path
/// (a matching path for `Count`; a file's contents, or none where it could not
/// be read, for `ReadEach` and `ReadOne`).
pub type Findings = Result<Vec<Option<String>>, String>;

pub open spec fn found_view(found: &Findings) -> Option<Seq<Option<Seq<char>>>> {
    match found {
        Ok(v) => Some(entries_view(v@)),
        Err(_) => None,
    }
}

pub open spec fn data_view(data: &Result<String, String>) -> Option<Seq<char>> {
    match data {
        Ok(t) => Some(t@),
        Err(_) => None,
    }
}

/// The one text that was read, if exactly one file was.
pub open spec fn sole(es: Seq<Option<Seq<char>>>) -> Option<Seq<char>> {
    if es.len() == 1 {
        es[0]
    } else {
        None
    }
}

/// The value a gadget makes of what its probe found, before the check for blank values.
pub open spec fn collected(g: Gadget, es: Seq<Option<Seq<char>>>) -> Option<Seq<char>> {
    match g {
        Gadget::Synchronization => Some(decimal(es.len())),
        Gadget::Git => match sole(es) {
            Some(t) => git_text(t),
            None => None,
        },
        Gadget::Thunderbird => sole(es),
        Gadget::Memory => match sole(es) {
            Some(t) => meminfo_text(t),
            None => None,
        },
        Gadget::Temperature => temperature_text(es.map_values(|e| trimmed_entry(e))),
    }
}

/// The value of a gadget: none where the probe failed, the value could not be
/// made, or it is blank once trimmed.
pub open spec fn outcome(g: Gadget, found: Option<Seq<Option<Seq<char>>>>) -> Option<Seq<char>> {
    match found {
        Some(es) => match collected(g, es) {
            Some(t) => if trimmed(t).len() > 0 {
                Some(t)
            } else {
                None
            },
            None => None,
        },
        None => None,
    }
}

pub open spec fn spaces(n: nat) -> Seq<char> {
    Seq::new(n, |_i: int| ' ')
}

/// What stands after the gap: the trimmed value, or the placeholder.
pub open spec fn shown(value: Option<Seq<char>>, placeholder: Seq<char>) -> Seq<char> {
    match value {
        Some(t) => trimmed(t),
        None => placeholder,
    }
}

/// The fragment of the status line that a gadget renders for what its probe found.
pub open spec fn rendered(
    g: Gadget,
    found: Option<Seq<Option<Seq<char>>>>,
    space_size: nat,
    placeholder: Seq<char>,
) -> Seq<char> {
    icon_of(g) + spaces(space_size) + shown(outcome(g, found), placeholder)
}

fn sole_entry(v: &Vec<Option<String>>) -> (r: Option<&str>)
    ensures
        match r {
            Some(s) => sole(entries_view(v@)) == Some(s@),
            None => sole(entries_view(v@)) is None,
        },
{
    if v.len() == 1 {
        match &v[0] {
            Some(s) => Some(s.as_str()),
            None => None,
        }
    } else {
        None
    }
}

fn push_spaces(out: &mut String, n: usize)
    ensures
        final(out)@ == old(out)@ + spaces(n as nat),
{
    let sp = " ";
    proof {
        reveal_strlit(" ");
    }
    let mut i: usize = 0;
    while i < n
        invariant
            i <= n,
            sp@ == seq![' '],
            out@ == old(out)@ + spaces(i as nat),
        decreases n - i,
    {
        out.append(sp);
        assert(spaces((i + 1) as nat) =~= spaces(i as nat).push(' '));
        i = i + 1;
    }
}

/// An icon, `space_size` spaces, then the text.
pub fn fragment(icon: &str, space_size: usize, text: &str) -> (r: String)
    ensures
        r@ == icon@ + spaces(space_size as nat) + text@,
{
    let mut out = String::from_str(icon);
    push_spaces(&mut out, space_size);
    out.append(text);
    out
}

impl Gadget {
    /// Collects the gadget's value from what its probe found.
    pub fn run(&self, found: &Findings) -> (r: GadgetResult)
        ensures
            r.icon@ == icon_of(*self),
            data_view(&r.data) == outcome(*self, found_view(found)),
    {
        let data = match found {
            Err(e) => Err(e.clone()),
            Ok(v) => match self {
                Gadget::Synchronization => Ok(lock_count(v.len())),
                Gadget::Git => match sole_entry(v) {
                    Some(t) => git_stats(t),
                    None => Err(String::from_str("unable to read the statistics file of git repositories")),
                },
                Gadget::Thunderbird => match sole_entry(v) {
                    Some(t) => Ok(String::from_str(t)),
                    None => Err(String::from_str("unable to read the unread count file")),
                },
                Gadget::Memory => match sole_entry(v) {
                    Some(t) => memory_usage(t),
                    None => Err(String::from_str("unable to read the meminfo file")),
                },
                Gadget::Temperature => temperature(v),
            },
        };
        let data = match data {
            Ok(t) => {
                if trim(t.as_str()).unicode_len() > 0 {
                    Ok(t)
                } else {
                    Err(String::from_str("the value is blank"))
                }
            },
            Err(e) => Err(e),
        };
        GadgetResult { icon: String::from_str(self.icon()), data }
    }
}

impl GadgetResult {
    /// The icon, `space_size` spaces, then the trimmed value, or `placeholder`
    /// where there is none.
    pub fn print(&self, space_size: usize, placeholder: &str) -> (r: String)
        ensures
            r@ == self.icon@ + spaces(space_size as nat) + shown(data_view(&self.data), placeholder@),
            self.data is Err ==> r@ == self.icon@ + spaces(space_size as nat) + placeholder@,
    {
        let shown = match &self.data {
            Ok(d) => trim(d.as_str()),
            Err(_) => placeholder,
        };
        fragment(self.icon.as_str(), space_size, shown)
    }
}

/// Runs a gadget on what its probe found and appends its fragment, with the
/// placeholder for a failure, to `results`.
pub fn process_gadget(gadget: Gadget, found: &Findings, space: usize, results: &mut Vec<String>) -> (r:
    GadgetResult)
    ensures
        final(results)@.len() == old(results)@.len() + 1,
        final(results)@.subrange(0, old(results)@.len() as int) == old(results)@,
        final(results)@.last()@ == rendered(gadget, found_view(found), space as nat, PLACEHOLDER@),
        data_view(&r.data) == outcome(gadget, found_view(found)),
{
    let result = gadget.run(found);
    results.push(result.print(space, PLACEHOLDER));
    assert(results@.subrange(0, old(results)@.len() as int) =~= old(results)@);
    result
}

/// Renders every requested gadget, in request order, each on what its probe found.
pub fn render_all(gadgets: &Vec<Gadget>, found: &Vec<Findings>, space: usize) -> (r: Vec<String>)
    requires
        gadgets@.len() == found@.len(),
    ensures
        r@.len() == gadgets@.len(),
        forall|i: int|
            0 <= i < r@.len() ==> (#[trigger] r@[i])@ == rendered(
                gadgets@[i],
                found_view(&found@[i]),
                space as nat,
                PLACEHOLDER@,
            ),
{
    let mut results: Vec<String> = Vec::new();
    let mut i: usize = 0;
    while i < gadgets.len()
        invariant
            gadgets@.len() == found@.len(),
            i <= gadgets@.len(),
            results@.len() == i,
            forall|k: int|
                0 <= k < i ==> (#[trigger] results@[k])@ == rendered(
                    gadgets@[k],
                    found_view(&found@[k]),
                    space as nat,
                    PLACEHOLDER@,
                ),
        decreases gadgets.len() - i,
    {
        process_gadget(gadgets[i], &found[i], space, &mut results);
        assert forall|k: int| 0 <= k < i + 1 implies (#[trigger] results@[k])@ == rendered(
                    gadgets@[k],
                    found_view(&found@[k]),
                    space as nat,
                    PLACEHOLDER@,
                ) by {
            if k < i {
                assert(results@.subrange(0, i as int)[k] == results@[k]);
            }
        }
        i = i + 1;
    }
    results
}

/// The fragments joined, each two apart by the separator.
pub open spec fn joined(parts: Seq<Seq<char>>, separator: Seq<char>) -> Seq<char>
    decreases parts.len(),
{
    if parts.len() == 0 {
        Seq::empty()
    } else if parts.len() == 1 {
        parts[0]
    } else {
        joined(parts.drop_last(), separator) + separator + parts.last()
    }
}

pub open spec fn strings_view(v: Seq<String>) -> Seq<Seq<char>> {
    v.map_values(|s: String| s@)
}

/// The status line: the fragments, `separator_width` spaces apart.
pub fn status_line(fragments: &Vec<String>, separator_width: usize) -> (r: String)
    ensures
        r@ == joined(strings_view(fragments@), spaces(separator_width as nat)),
{
    let mut out = String::new();
    let mut i: usize = 0;
    while i < fragments.len()
        invariant
            i <= fragments@.len(),
            out@ == joined(strings_view(fragments@.subrange(0, i as int)), spaces(separator_width as nat)),
        decreases fragments.len() - i,
    {
        let ghost parts = strings_view(fragments@.subrange(0, i + 1));
        assert(parts.drop_last() =~= strings_view(fragments@.subrange(0, i as int)));
        assert(parts.last() == fragments@[i as int]@);
        if i > 0 {
            push_spaces(&mut out, separator_width);
        } else {
            assert(parts =~= seq![fragments@[0]@]);
        }
        out.append(fragments[i].as_str());
        i = i + 1;
    }
    assert(fragments@.subrange(0, i as int) =~= fragments@);
    out
}

/// Where a gadget looks, given the user's data and home directories.
pub open spec fn probe_spec(g: Gadget, data_dir: Option<Seq<char>>, home_dir: Option<Seq<char>>) -> Option<
    (Seq<char>, ProbeMode),
> {
    match g {
        Gadget::Synchronization => match data_dir {
            Some(d) => Some((d + "/sync-*.lock"@, ProbeMode::Count)),
            None => None,
        },
        Gadget::Git => match home_dir {
            Some(h) => Some((h + "/git/.statistics"@, ProbeMode::ReadOne)),
            None => None,
        },
        Gadget::Thunderbird => match data_dir {
            Some(d) => Some((d + "/tbunread/count"@, ProbeMode::ReadOne)),
            None => None,
        },
        Gadget::Memory => Some(("/proc/meminfo"@, ProbeMode::ReadOne)),
        Gadget::Temperature => Some(("/sys/class/hwmon/hwmon*/temp*_input"@, ProbeMode::ReadEach)),
    }
}

pub open spec fn probe_view(r: &Result<Probe, String>) -> Option<(Seq<char>, ProbeMode)> {
    match r {
        Ok(p) => Some((p.pattern@, p.mode)),
        Err(_) => None,
    }
}

/// Relies on directories' `BaseDirs::new` and `BaseDirs::data_dir`: the user's
/// data directory, where a home directory can be found.
#[verifier::external_body]
fn user_data_dir() -> (r: Option<String>) {
    directories::BaseDirs::new().map(|d| d.data_dir().display().to_string())
}

/// Relies on directories' `BaseDirs::new` and `BaseDirs::home_dir`: the user's
/// home directory, where one can be found.
#[verifier::external_body]
fn user_home_dir() -> (r: Option<String>) {
    directories::BaseDirs::new().map(|d| d.home_dir().display().to_string())
}

fn under(dir: &String, rest: &str) -> (r: String)
    ensures
        r@ == dir@ + rest@,
{
    let mut out = dir.clone();
    out.append(rest);
    out
}

impl Gadget {
    /// Where the gadget looks, given the user's data and home directories.
    pub fn probe_in(&self, data_dir: &Option<String>, home_dir: &Option<String>) -> (r: Result<Probe, String>)
        ensures
            probe_view(&r) == probe_spec(*self, opt_view(data_dir), opt_view(home_dir)),
    {
        match self {
            Gadget::Synchronization => match data_dir {
                Some(d) => Ok(Probe { pattern: under(d, "/sync-*.lock"), mode: ProbeMode::Count }),
                None => Err(String::from_str("unable to get the data directory")),
            },
            Gadget::Git => match home_dir {
                Some(h) => Ok(Probe { pattern: under(h, "/git/.statistics"), mode: ProbeMode::ReadOne }),
                None => Err(String::from_str("unable to get the home directory")),
            },
            Gadget::Thunderbird => match data_dir {
                Some(d) => Ok(Probe { pattern: under(d, "/tbunread/count"), mode: ProbeMode::ReadOne }),
                None => Err(String::from_str("unable to get the data directory")),
            },
            Gadget::Memory => Ok(Probe { pattern: String::from_str("/proc/meminfo"), mode: ProbeMode::ReadOne }),
            Gadget::Temperature => Ok(
                Probe {
                    pattern: String::from_str("/sys/class/hwmon/hwmon*/temp*_input"),
                    mode: ProbeMode::ReadEach,
                },
            ),
        }
    }

    /// Where the gadget looks, under the directories of the user who runs it.
    pub fn probe(&self) -> (r: Result<Probe, String>)
        ensures
            exists|d: Option<Seq<char>>, h: Option<Seq<char>>| probe_view(&r) == probe_spec(*self, d, h),
    {
        let data_dir = user_data_dir();
        let home_dir = user_home_dir();
        self.probe_in(&data_dir, &home_dir)
    }
}

/// Collection is repeatable: a gadget renders the same fragment each time its
/// probe finds the same files with the same contents.
pub proof fn lemma_rendering_repeatable(
    g: Gadget,
    first: Findings,
    second: Findings,
    space_size: nat,
    placeholder: Seq<char>,
)
    requires
        found_view(&first) == found_view(&second),
    ensures
        rendered(g, found_view(&first), space_size, placeholder) == rendered(
            g,
            found_view(&second),
            space_size,
            placeholder,
        ),
{
}

/// A failed gadget shows the placeholder after its icon and gap, and nothing
/// of why it failed.
pub proof fn lemma_failure_shows_placeholder(
    g: Gadget,
    found: Findings,
    space_size: nat,
    placeholder: Seq<char>,
)
    requires
        outcome(g, found_view(&found)) is None,
    ensures
        rendered(g, found_view(&found), space_size, placeholder) == icon_of(g) + spaces(space_size)
            + placeholder,
{
}

} // verus!
