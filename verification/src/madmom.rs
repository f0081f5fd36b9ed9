//! Launch configuration of the Madmom beat-tracker sidecar.
use vstd::prelude::*;

use crate::scan::{matches_at, occurs_at, slice_chars, trim_chars, trimmed};
use crate::text::{chars_of, decimal, push_decimal, string_from_chars};
use vstd::string::StrSliceExecFns;

verus! {

/// The final component of a path, as `Path::file_name` gives it on the
/// target platform (lossless here: the path comes from a `str`).
pub uninterp spec fn path_file_name(p: Seq<char>) -> Option<Seq<char>>;

/// The path without its final component, as `Path::parent` gives it on
/// the target platform.
pub uninterp spec fn path_parent(p: Seq<char>) -> Option<Seq<char>>;

/// The number of components `Path::components` yields on the target platform.
pub uninterp spec fn path_component_count(p: Seq<char>) -> nat;

/// `Path::join` of two paths on the target platform.
pub uninterp spec fn path_join(base: Seq<char>, tail: Seq<char>) -> Seq<char>;

/// `std::path::Path::file_name`; the contract claims only that the result
/// is the named function of the path.
#[verifier::external_body]
fn file_name_of(p: &str) -> (r: Option<String>)
    ensures
        r matches Some(s) ==> path_file_name(p@) == Some(s@),
        r is None ==> path_file_name(p@) is None,
{
    match std::path::Path::new(p).file_name() {
        Some(name) => Some(name.to_string_lossy().into_owned()),
        None => None,
    }
}

/// `std::path::Path::parent`; the contract claims only that the result is
/// the named function of the path.
#[verifier::external_body]
fn parent_of(p: &str) -> (r: Option<String>)
    ensures
        r matches Some(s) ==> path_parent(p@) == Some(s@),
        r is None ==> path_parent(p@) is None,
{
    match std::path::Path::new(p).parent() {
        Some(parent) => Some(parent.to_string_lossy().into_owned()),
        None => None,
    }
}

/// `std::path::Path::components` counted; the contract claims only that the
/// result is the named function of the path.
#[verifier::external_body]
fn component_count_of(p: &str) -> (r: usize)
    ensures
        r == path_component_count(p@),
{
    std::path::Path::new(p).components().count()
}

/// `std::path::Path::join`; the contract claims only that the result is the
/// named function of both paths.
#[verifier::external_body]
fn join_paths(base: &str, tail: &str) -> (r: String)
    ensures
        r@ == path_join(base@, tail@),
{
    std::path::Path::new(base).join(tail).to_string_lossy().into_owned()
}

/// `std::path::Path::exists`. It consults the file system, so nothing is
/// claimed of its result.
#[verifier::external_body]
fn path_exists(p: &str) -> bool {
    std::path::Path::new(p).exists()
}

/// Lower-case code of a character: ASCII capitals map to small letters.
pub open spec fn lower_code(c: char) -> u32 {
    if 'A' <= c && c <= 'Z' {
        (c as u32 + 32) as u32
    } else {
        c as u32
    }
}

/// Whether `s`, ASCII-lower-cased, equals `t`.
pub open spec fn lower_equals(s: Seq<char>, t: Seq<char>) -> bool {
    s.len() == t.len() && forall|i: int| 0 <= i < s.len() ==> lower_code(#[trigger] s[i]) == t[i] as u32
}

fn lower_eq(s: &[char], t: &str) -> (r: bool)
    ensures
        r == lower_equals(s@, t@),
{
    let tc = chars_of(t);
    if s.len() != tc.len() {
        return false;
    }
    let mut i: usize = 0;
    while i < s.len()
        invariant
            s@.len() == tc@.len(),
            tc@ == t@,
            i <= s@.len(),
            forall|k: int| 0 <= k < i ==> lower_code(#[trigger] s@[k]) == tc@[k] as u32,
        decreases s@.len() - i,
    {
        let c = s[i];
        let code: u32 = if 'A' <= c && c <= 'Z' {
            c as u32 + 32
        } else {
            c as u32
        };
        if code != tc[i] as u32 {
            return false;
        }
        i = i + 1;
    }
    true
}

/// Whether a Python interpreter runs the tracker script: the file name,
/// lower-cased, is `python`, `python.exe` or `python3`.
pub open spec fn is_python_name(name: Seq<char>) -> bool {
    lower_equals(name, "python"@) || lower_equals(name, "python.exe"@) || lower_equals(
        name,
        "python3"@,
    )
}

/// The launch arguments: the tracker (if any), then `--host_api`,
/// `--audio_input=<index>` (index 0 when unset) and `online`.
pub open spec fn launch_args(tracker: Option<Seq<char>>, audio_input_index: Option<u32>) -> Seq<
    Seq<char>,
> {
    let index = match audio_input_index {
        Some(i) => i,
        None => 0u32,
    };
    let tail = seq!["--host_api"@, "--audio_input="@ + decimal(index as nat), "online"@];
    match tracker {
        Some(t) => seq![t] + tail,
        None => tail,
    }
}

/// The working directory of a Python launch: with a tracker script and a
/// Python interpreter command, the command's nonempty parent directory.
pub open spec fn working_directory_spec(has_tracker: bool, command: Seq<char>) -> Option<Seq<char>> {
    if !has_tracker {
        None
    } else {
        match path_file_name(command) {
            None => None,
            Some(name) => if !is_python_name(name) {
                None
            } else {
                match path_parent(command) {
                    Some(d) => if d.len() > 0 {
                        Some(d)
                    } else {
                        None
                    },
                    None => None,
                }
            },
        }
    }
}

/// The PYTHONPATH entry of a source-tree launch: for a tracker command in a
/// directory named `bin`, that directory's parent.
pub open spec fn python_path_spec(command: Seq<char>) -> Option<Seq<char>> {
    match path_file_name(command) {
        None => None,
        Some(name) => if !is_tracker_name(name) {
            None
        } else {
            match path_parent(command) {
                None => None,
                Some(bin) => if path_file_name(bin) != Some("bin"@) {
                    None
                } else {
                    path_parent(bin)
                },
            }
        },
    }
}

/// The tracker names that run from a source-tree `bin` directory.
pub open spec fn is_tracker_name(name: Seq<char>) -> bool {
    name == "DBNBeatTracker"@ || name == "TorchBeatTracker"@
}

/// Config needed to launch the Madmom sidecar.
#[derive(Debug)]
pub struct MadmomLaunchConfig {
    /// Sidecar executable or command name.
    pub command: String,
    /// Optional tracker/script argument, e.g. `DBNBeatTracker` when command is Python.
    pub tracker: Option<String>,
    /// Audio input index passed to `DBNBeatTracker`.
    pub audio_input_index: Option<u32>,
}

/// The tracker argument as characters.
pub open spec fn tracker_chars(t: Option<String>) -> Option<Seq<char>> {
    match t {
        Some(s) => Some(s@),
        None => None,
    }
}

/// The relative paths under which a sibling Madmom checkout is searched.
pub open spec fn candidate_tails() -> Seq<Seq<char>> {
    seq!["Madmom/bin/DBNBeatTracker"@, "spectrum/Madmom/bin/DBNBeatTracker"@]
}

/// The directory whose sibling checkouts are searched besides `base`:
/// its parent, or `base` itself when it has none.
pub open spec fn resolve_parent(base: Seq<char>) -> Seq<char> {
    match path_parent(base) {
        Some(p) => p,
        None => base,
    }
}

/// The four places a sibling Madmom checkout is looked for, in order:
/// `Madmom/bin/DBNBeatTracker` under `base`, then under its parent, then
/// `spectrum/Madmom/bin/DBNBeatTracker` under `base`, then under its parent.
pub open spec fn madmom_candidates_spec(base: Seq<char>) -> Seq<Seq<char>> {
    seq![
        path_join(base, candidate_tails()[0]),
        path_join(resolve_parent(base), candidate_tails()[0]),
        path_join(base, candidate_tails()[1]),
        path_join(resolve_parent(base), candidate_tails()[1]),
    ]
}

/// The first position from `i` on whose answer is yes.
pub open spec fn first_yes_from(answers: Seq<bool>, i: int) -> Option<int>
    decreases answers.len() - i,
{
    if i < 0 || i >= answers.len() {
        None
    } else if answers[i] {
        Some(i)
    } else {
        first_yes_from(answers, i + 1)
    }
}

/// The command chosen from `candidates` given whether each exists: the
/// first that does, else `fallback`.
pub open spec fn chosen_command(
    candidates: Seq<Seq<char>>,
    answers: Seq<bool>,
    fallback: Seq<char>,
) -> Seq<char> {
    match first_yes_from(answers, 0) {
        Some(k) => candidates[k],
        None => fallback,
    }
}

/// The first yes from `i` on is a yes, after only noes.
pub proof fn lemma_first_yes(answers: Seq<bool>, i: int)
    requires
        0 <= i,
    ensures
        first_yes_from(answers, i) matches Some(k) ==> {
            &&& i <= k < answers.len()
            &&& answers[k]
            &&& forall|j: int| i <= j < k ==> !answers[j]
        },
        first_yes_from(answers, i) is None ==> forall|j: int| i <= j < answers.len() ==> !answers[j],
    decreases answers.len() - i,
{
    if i < answers.len() && !answers[i] {
        lemma_first_yes(answers, i + 1);
    }
}

proof fn lemma_no_answer_keeps(candidates: Seq<Seq<char>>, fallback: Seq<char>)
    ensures
        chosen_command(candidates, seq![false, false, false, false], fallback) == fallback,
{
    let a = seq![false, false, false, false];
    assert(first_yes_from(a, 4) is None);
    assert(first_yes_from(a, 3) is None);
    assert(first_yes_from(a, 2) is None);
    assert(first_yes_from(a, 1) is None);
    assert(first_yes_from(a, 0) is None);
}

/// The four places a sibling Madmom checkout is looked for, in order.
pub fn madmom_candidates(base: &str) -> (r: Vec<String>)
    ensures
        r@.map_values(|c: String| c@) == madmom_candidates_spec(base@),
{
    let parent = match parent_of(base) {
        Some(p) => p,
        None => base.to_owned(),
    };
    assert(parent@ == resolve_parent(base@));
    let near = "Madmom/bin/DBNBeatTracker";
    let far = "spectrum/Madmom/bin/DBNBeatTracker";
    assert(near@ == candidate_tails()[0]);
    assert(far@ == candidate_tails()[1]);
    let r = vec![
        join_paths(base, near),
        join_paths(parent.as_str(), near),
        join_paths(base, far),
        join_paths(parent.as_str(), far),
    ];
    assert(r@.map_values(|c: String| c@) =~= madmom_candidates_spec(base@));
    r
}

/// Choose the beat tracker command from the candidate paths, given for
/// each whether it exists: the first that exists, else `command` itself.
pub fn choose_madmom_command(command: &str, candidates: &[String], exists: &[bool]) -> (r: String)
    requires
        candidates@.len() == exists@.len(),
    ensures
        r@ == chosen_command(candidates@.map_values(|c: String| c@), exists@, command@),
{
    let ghost views = candidates@.map_values(|c: String| c@);
    let mut i: usize = 0;
    while i < exists.len()
        invariant
            i <= exists@.len(),
            candidates@.len() == exists@.len(),
            views == candidates@.map_values(|c: String| c@),
            first_yes_from(exists@, 0) == first_yes_from(exists@, i as int),
        decreases exists@.len() - i,
    {
        if exists[i] {
            assert(views[i as int] == candidates@[i as int]@);
            return candidates[i].clone();
        }
        i = i + 1;
    }
    command.to_owned()
}

impl MadmomLaunchConfig {
    /// A copy of the config.
    pub fn duplicate(&self) -> (r: MadmomLaunchConfig)
        ensures
            r.command@ == self.command@,
            tracker_chars(r.tracker) == tracker_chars(self.tracker),
            r.audio_input_index == self.audio_input_index,
    {
        let tracker = match &self.tracker {
            Some(t) => Some(t.clone()),
            None => None,
        };
        MadmomLaunchConfig {
            command: self.command.clone(),
            tracker,
            audio_input_index: self.audio_input_index,
        }
    }

    /// Resolve a bare `DBNBeatTracker` command to a Madmom checkout next to
    /// `base` or its parent. The four `madmom_candidates` of `base` are asked
    /// in order whether they exist, until one does, and `choose_madmom_command`
    /// takes the first that does; other commands, and a command that names an
    /// existing file, are kept. What the file system answers is not known
    /// here, so the result is stated for the answers that came back.
    pub fn resolve_from(&self, base: &str) -> (r: MadmomLaunchConfig)
        ensures
            tracker_chars(r.tracker) == tracker_chars(self.tracker),
            r.audio_input_index == self.audio_input_index,
            (path_component_count(self.command@) > 1 || self.command@ != "DBNBeatTracker"@)
                ==> r.command@ == self.command@,
            exists|answers: Seq<bool>|
                answers.len() == 4 && r.command@ == #[trigger] chosen_command(
                    madmom_candidates_spec(base@),
                    answers,
                    self.command@,
                ),
    {
        proof {
            lemma_no_answer_keeps(madmom_candidates_spec(base@), self.command@);
        }
        let dbn = "DBNBeatTracker".to_owned();
        if component_count_of(self.command.as_str()) > 1 || path_exists(self.command.as_str())
            || self.command != dbn {
            return self.duplicate();
        }
        let candidates = madmom_candidates(base);
        assert(candidates@.map_values(|c: String| c@).len() == candidates@.len());
        let mut answers: Vec<bool> = Vec::new();
        let mut found = false;
        let mut i: usize = 0;
        while i < 4
            invariant
                i <= 4,
                candidates@.len() == 4,
                answers@.len() == i,
            decreases 4 - i,
        {
            let answer = if found {
                false
            } else {
                path_exists(candidates[i].as_str())
            };
            if answer {
                found = true;
            }
            answers.push(answer);
            i = i + 1;
        }
        let mut resolved = self.duplicate();
        resolved.command = choose_madmom_command(
            self.command.as_str(),
            candidates.as_slice(),
            answers.as_slice(),
        );
        assert(resolved.command@ == chosen_command(
            madmom_candidates_spec(base@),
            answers@,
            self.command@,
        ));
        resolved
    }

    /// The beat tracker's command arguments.
    pub fn args(&self) -> (r: Vec<String>)
        ensures
            r@.map_values(|s: String| s@) == launch_args(
                tracker_chars(self.tracker),
                self.audio_input_index,
            ),
    {
        let audio_input_index = match self.audio_input_index {
            Some(i) => i,
            None => 0,
        };
        let mut args: Vec<String> = Vec::new();
        match &self.tracker {
            Some(t) => {
                args.push(t.clone());
            },
            None => {},
        }
        args.push("--host_api".to_owned());
        let mut input = "--audio_input=".to_owned();
        push_decimal(&mut input, audio_input_index as u64);
        args.push(input);
        args.push("online".to_owned());
        let ghost tail = seq![
            "--host_api"@,
            "--audio_input="@ + decimal(audio_input_index as nat),
            "online"@,
        ];
        assert(args@.map_values(|s: String| s@) == match tracker_chars(self.tracker) {
            Some(t) => seq![t] + tail,
            None => tail,
        });
        args
    }

    /// The working directory for Python launches: the interpreter's
    /// directory, when the command is a Python interpreter running a
    /// tracker script and has a nonempty parent.
    pub fn working_directory(&self) -> (r: Option<String>)
        ensures
            r matches Some(d) ==> working_directory_spec(self.tracker is Some, self.command@) == Some(
                d@,
            ),
            r is None ==> working_directory_spec(self.tracker is Some, self.command@) is None,
    {
        if self.tracker.is_none() {
            return None;
        }
        let name = match file_name_of(self.command.as_str()) {
            Some(n) => n,
            None => {
                return None;
            },
        };
        let chars = chars_of(name.as_str());
        if !(lower_eq(&chars, "python") || lower_eq(&chars, "python.exe") || lower_eq(
            &chars,
            "python3",
        )) {
            return None;
        }
        match parent_of(self.command.as_str()) {
            Some(p) => {
                if p.as_str().unicode_len() == 0 {
                    None
                } else {
                    Some(p)
                }
            },
            None => None,
        }
    }

    /// The PYTHONPATH entry for source-tree Madmom launches: for a tracker
    /// command inside a `bin` directory, that directory's parent.
    pub fn python_path(&self) -> (r: Option<String>)
        ensures
            r matches Some(p) ==> python_path_spec(self.command@) == Some(p@),
            r is None ==> python_path_spec(self.command@) is None,
    {
        let name = match file_name_of(self.command.as_str()) {
            Some(n) => n,
            None => {
                return None;
            },
        };
        let dbn = "DBNBeatTracker".to_owned();
        let torch = "TorchBeatTracker".to_owned();
        if !(name == dbn || name == torch) {
            return None;
        }
        let bin_dir = match parent_of(self.command.as_str()) {
            Some(b) => b,
            None => {
                return None;
            },
        };
        let bin_name = match file_name_of(bin_dir.as_str()) {
            Some(n) => n,
            None => {
                return None;
            },
        };
        let bin = "bin".to_owned();
        if bin_name != bin {
            return None;
        }
        parent_of(bin_dir.as_str())
    }
}

/// The seconds field of a sidecar output line: the text after a leading
/// `BEAT:`, trimmed; `None` for a line without that prefix.
pub open spec fn beat_line_value_spec(line: Seq<char>) -> Option<Seq<char>> {
    if occurs_at(line, "BEAT:"@, 0) {
        Some(trimmed(line.subrange("BEAT:"@.len() as int, line.len() as int)))
    } else {
        None
    }
}

/// The seconds field of a sidecar output line such as `BEAT:12.345`.
pub fn beat_line_value(line: &str) -> (r: Option<String>)
    ensures
        r matches Some(v) ==> beat_line_value_spec(line@) == Some(v@),
        r is None ==> beat_line_value_spec(line@) is None,
{
    let chars = chars_of(line);
    let prefix = chars_of("BEAT:");
    if !matches_at(chars.as_slice(), prefix.as_slice(), 0) {
        return None;
    }
    let rest = slice_chars(chars.as_slice(), prefix.len(), chars.len());
    let value = trim_chars(rest.as_slice());
    Some(string_from_chars(value.as_slice()))
}

} // verus!
