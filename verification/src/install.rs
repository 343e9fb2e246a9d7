//! The rules by which scripts and their shell completions are installed:
//! what a link is called, which completion belongs to which script, where
//! the completions of a shell go, and what is done at a place that is
//! already taken. Touching the file system is left to the caller.

use vstd::prelude::*;
use vstd::string::*;
use crate::text::{find_char, find_char_from, same_text, texts_view, to_chars};

verus! {

/// The text without one occurrence of `suffix` at its end, where it ends
/// with it.
pub open spec fn strip_suffix_once(text: Seq<char>, suffix: Seq<char>) -> Seq<char> {
    if suffix.is_suffix_of(text) {
        text.take(text.len() - suffix.len())
    } else {
        text
    }
}

/// The text without the occurrences of `suffix` at its end, however many
/// follow one another there.
pub open spec fn strip_suffix_all(text: Seq<char>, suffix: Seq<char>) -> Seq<char>
    decreases text.len(),
{
    if suffix.len() > 0 && suffix.is_suffix_of(text) {
        strip_suffix_all(text.take(text.len() - suffix.len()), suffix)
    } else {
        text
    }
}

/// The ending of the completion files of a shell: a dot and the shell's
/// name.
pub open spec fn shell_suffix(shell: Seq<char>) -> Seq<char> {
    seq!['.'] + shell
}

/// The name under which a script is linked: its file name without the
/// ending `.rs`.
pub open spec fn link_name_of(file_name: Seq<char>) -> Seq<char> {
    strip_suffix_once(file_name, seq!['.', 'r', 's'])
}

/// The name of the script that a completion file is for: the file's name
/// without the endings of the shell.
pub open spec fn completion_script(file_name: Seq<char>, shell: Seq<char>) -> Seq<char> {
    strip_suffix_all(file_name, shell_suffix(shell))
}

/// Whether a completion file of the given shell is for the script with this
/// file name: the script is called as the completion says, with or without
/// the ending `.rs`.
pub open spec fn completes(file_name: Seq<char>, shell: Seq<char>, script_file: Seq<char>) -> bool {
    shell_suffix(shell).is_suffix_of(file_name) && (script_file == completion_script(
        file_name,
        shell,
    ) || script_file == completion_script(file_name, shell) + seq!['.', 'r', 's'])
}

/// Whether the first `end` characters end with `suffix`.
fn ends_with_chars(text: &[char], end: usize, suffix: &[char]) -> (ends: bool)
    requires
        end <= text@.len(),
    ensures
        ends == suffix@.is_suffix_of(text@.take(end as int)),
{
    if suffix.len() > end {
        return false;
    }
    let start = end - suffix.len();
    let mut k: usize = 0;
    while k < suffix.len()
        invariant
            k <= suffix@.len(),
            end <= text@.len(),
            start == end - suffix@.len(),
            forall|n: int| 0 <= n < k ==> suffix@[n] == text@[start + n],
        decreases suffix@.len() - k,
    {
        if suffix[k] != text[start + k] {
            return false;
        }
        k += 1;
    }
    true
}

/// The characters of the ending of a shell's completion files.
fn shell_suffix_chars(shell: &str) -> (suffix: Vec<char>)
    ensures
        suffix@ == shell_suffix(shell@),
{
    let name = to_chars(shell);
    let mut suffix: Vec<char> = Vec::new();
    suffix.push('.');
    let mut k: usize = 0;
    while k < name.len()
        invariant
            k <= name@.len(),
            suffix@ == seq!['.'] + name@.take(k as int),
        decreases name@.len() - k,
    {
        suffix.push(name[k]);
        k += 1;
    }
    suffix
}

/// The characters `.rs`.
fn script_suffix_chars() -> (suffix: Vec<char>)
    ensures
        suffix@ == seq!['.', 'r', 's'],
{
    let mut suffix: Vec<char> = Vec::new();
    suffix.push('.');
    suffix.push('r');
    suffix.push('s');
    suffix
}

/// Names the link of a script.
pub fn link_name(file_name: &str) -> (name: String)
    ensures
        name@ == link_name_of(file_name@),
{
    let chars = to_chars(file_name);
    let suffix = script_suffix_chars();
    if ends_with_chars(&chars, chars.len(), &suffix) {
        file_name.substring_char(0, chars.len() - 3).to_owned()
    } else {
        file_name.to_owned()
    }
}

/// The length of the text once the occurrences of `suffix` at its end are
/// cut off.
fn strip_all_len(chars: &[char], suffix: &[char]) -> (end: usize)
    ensures
        end <= chars@.len(),
        chars@.take(end as int) == strip_suffix_all(chars@, suffix@),
{
    let mut end = chars.len();
    assert(chars@.take(end as int) =~= chars@);
    if suffix.len() == 0 {
        return end;
    }
    while ends_with_chars(chars, end, suffix)
        invariant
            end <= chars@.len(),
            suffix@.len() > 0,
            strip_suffix_all(chars@, suffix@) == strip_suffix_all(chars@.take(end as int), suffix@),
        decreases end,
    {
        assert(chars@.take(end as int).take(end - suffix@.len()) =~= chars@.take(
            end - suffix@.len(),
        ));
        end -= suffix.len();
    }
    end
}

/// Names the script that a completion file is for.
pub fn completion_script_name(file_name: &str, shell: &str) -> (name: String)
    ensures
        name@ == completion_script(file_name@, shell@),
{
    let chars = to_chars(file_name);
    let suffix = shell_suffix_chars(shell);
    let end = strip_all_len(&chars, &suffix);
    file_name.substring_char(0, end).to_owned()
}

/// Whether a completion file of the given shell is for one of the scripts
/// with these file names.
pub fn is_completion_for(file_name: &str, shell: &str, script_files: &[String]) -> (found: bool)
    ensures
        found == exists|i: int|
            0 <= i < script_files@.len() && completes(
                file_name@,
                shell@,
                (#[trigger] script_files@[i])@,
            ),
{
    let chars = to_chars(file_name);
    let suffix = shell_suffix_chars(shell);
    if !ends_with_chars(&chars, chars.len(), &suffix) {
        return false;
    }
    let script = completion_script_name(file_name, shell);
    let mut with_ending = script.clone();
    with_ending.append(".rs");
    proof {
        reveal_strlit(".rs");
    }
    let mut i: usize = 0;
    while i < script_files.len()
        invariant
            i <= script_files@.len(),
            shell_suffix(shell@).is_suffix_of(file_name@),
            script@ == completion_script(file_name@, shell@),
            with_ending@ == script@ + seq!['.', 'r', 's'],
            forall|k: int|
                0 <= k < i ==> !completes(file_name@, shell@, (#[trigger] script_files@[k])@),
        decreases script_files@.len() - i,
    {
        if script_files[i] == script || script_files[i] == with_ending {
            return true;
        }
        i += 1;
    }
    false
}

/// The directory from which the completions of a shell start.
#[derive(Clone, Copy, Debug, PartialEq, Eq)]
pub enum BaseDir {
    /// The user's home directory.
    Home,
    /// The user's local data directory.
    DataLocal,
}

/// Where the completions of a shell go: the components of the path below the
/// base directory. `None` for a shell that is not known.
pub open spec fn completion_place(shell: Seq<char>) -> Option<(BaseDir, Seq<Seq<char>>)> {
    if shell == "fish"@ {
        Some((BaseDir::Home, seq![".config"@, "fish"@, "completions"@]))
    } else if shell == "bash"@ {
        Some((BaseDir::DataLocal, seq!["bash-completion"@, "completions"@]))
    } else if shell == "zsh"@ {
        Some((BaseDir::DataLocal, seq!["zsh"@, "site-functions"@]))
    } else {
        None
    }
}

/// Tells where the completions of a shell go.
pub fn get_shell_completion_dir(shell: &str) -> (place: Option<(BaseDir, Vec<String>)>)
    ensures
        match place {
            Some((base, below)) => completion_place(shell@) == Some((base, texts_view(below@))),
            None => completion_place(shell@) is None,
        },
{
    let mut below: Vec<String> = Vec::new();
    if same_text(shell, "fish") {
        below.push(".config".to_owned());
        below.push("fish".to_owned());
        below.push("completions".to_owned());
        Some((BaseDir::Home, below))
    } else if same_text(shell, "bash") {
        below.push("bash-completion".to_owned());
        below.push("completions".to_owned());
        Some((BaseDir::DataLocal, below))
    } else if same_text(shell, "zsh") {
        below.push("zsh".to_owned());
        below.push("site-functions".to_owned());
        Some((BaseDir::DataLocal, below))
    } else {
        None
    }
}

/// What of a path is meant below the home directory: the rest of a path that
/// begins with `~/`, and `None` of any other path.
pub open spec fn below_home(path: Seq<char>) -> Option<Seq<char>> {
    if seq!['~', '/'].is_prefix_of(path) {
        Some(path.skip(2))
    } else {
        None
    }
}

/// Tells what of a path is meant below the home directory.
pub fn expand_tilde(path: &str) -> (rest: Option<String>)
    ensures
        match rest {
            Some(text) => below_home(path@) == Some(text@),
            None => below_home(path@) is None,
        },
{
    let chars = to_chars(path);
    if chars.len() >= 2 && chars[0] == '~' && chars[1] == '/' {
        Some(path.substring_char(2, chars.len()).to_owned())
    } else {
        None
    }
}

/// Whether one of the pieces of a search path, from position `from` on, is
/// `dir`. The pieces are what stands between the colons.
pub open spec fn lists_dir_from(search_path: Seq<char>, dir: Seq<char>, from: int) -> bool
    decreases search_path.len() + 1 - from,
{
    if from < 0 || from > search_path.len() {
        false
    } else {
        let end = find_char(search_path, ':', from);
        proof {
            crate::text::lemma_find_char_bounds(search_path, ':', from);
        }
        search_path.subrange(from, end) == dir || lists_dir_from(search_path, dir, end + 1)
    }
}

/// Whether a search path lists the directory.
pub fn path_lists_dir(search_path: &str, dir: &str) -> (listed: bool)
    ensures
        listed == lists_dir_from(search_path@, dir@, 0),
{
    let chars = to_chars(search_path);
    let mut from: usize = 0;
    loop
        invariant
            from <= chars@.len(),
            chars@ == search_path@,
            lists_dir_from(search_path@, dir@, 0) == lists_dir_from(
                search_path@,
                dir@,
                from as int,
            ),
        decreases chars@.len() - from,
    {
        let end = find_char_from(&chars, ':', from);
        if same_text(search_path.substring_char(from, end), dir) {
            return true;
        }
        if end == chars.len() {
            assert(!lists_dir_from(search_path@, dir@, end + 1));
            return false;
        }
        from = end + 1;
    }
}

/// Whether a file mode lets somebody execute the file.
pub open spec fn executable_mode(mode: u32) -> bool {
    mode & 0o111 != 0
}

/// Whether a file mode lets somebody execute the file.
pub fn is_executable(mode: u32) -> (executable: bool)
    ensures
        executable == executable_mode(mode),
{
    mode & 0o111 != 0
}

/// Whether a file name is that of a script: it has the extension `rs`, which
/// takes a name of at least one character before the ending `.rs`.
pub open spec fn script_file_name(file_name: Seq<char>) -> bool {
    seq!['.', 'r', 's'].is_suffix_of(file_name) && file_name.len() > 3
}

/// Whether a file name is that of a script.
pub fn has_script_ending(file_name: &str) -> (script: bool)
    ensures
        script == script_file_name(file_name@),
{
    let chars = to_chars(file_name);
    let suffix = script_suffix_chars();
    chars.len() > 3 && ends_with_chars(&chars, chars.len(), &suffix)
}

/// Which file a script asked for by name is.
#[derive(Clone, Copy, Debug, PartialEq, Eq)]
pub enum ScriptChoice {
    /// The file called as the name with the ending `.rs`.
    WithEnding,
    /// The file called as the name itself.
    AsNamed,
}

/// Why a script asked for by name is not installed.
#[derive(Clone, Copy, Debug, PartialEq, Eq)]
pub enum ScriptProblem {
    /// Neither the name with the ending `.rs` nor the name itself, being a
    /// script's, is there.
    NotFound,
    /// What is there is not a file.
    NotAFile,
    /// The file may not be executed.
    NotExecutable,
}

/// Decides which file a script asked for by `name` is: the one called as the
/// name with the ending `.rs` where that is there, else the one called as
/// the name where that is there and the name is a script's.
pub fn select_script(name: &str, with_ending_exists: bool, as_named_exists: bool) -> (choice:
    Result<ScriptChoice, ScriptProblem>)
    ensures
        choice == if with_ending_exists {
            Ok::<ScriptChoice, ScriptProblem>(ScriptChoice::WithEnding)
        } else if as_named_exists && script_file_name(name@) {
            Ok(ScriptChoice::AsNamed)
        } else {
            Err(ScriptProblem::NotFound)
        },
{
    if with_ending_exists {
        Ok(ScriptChoice::WithEnding)
    } else if as_named_exists && has_script_ending(name) {
        Ok(ScriptChoice::AsNamed)
    } else {
        Err(ScriptProblem::NotFound)
    }
}

/// Decides whether the file chosen for a script asked for by name is
/// installed. `mode` is the file's mode where it could be read; a file whose
/// mode could not be read is let through.
pub fn accept_script(is_file: bool, mode: Option<u32>) -> (accepted: Result<(), ScriptProblem>)
    ensures
        accepted == if !is_file {
            Err::<(), ScriptProblem>(ScriptProblem::NotAFile)
        } else if mode matches Some(bits) && !executable_mode(bits) {
            Err(ScriptProblem::NotExecutable)
        } else {
            Ok(())
        },
{
    if !is_file {
        return Err(ScriptProblem::NotAFile);
    }
    match mode {
        Some(bits) => if is_executable(bits) {
            Ok(())
        } else {
            Err(ScriptProblem::NotExecutable)
        },
        None => Ok(()),
    }
}

/// Decides whether a directory entry is one of the scripts that are
/// installed when none is asked for by name: a file with a script's name
/// whose mode could be read and lets somebody execute it.
pub fn is_installable(file_name: &str, is_file: bool, mode: Option<u32>) -> (installable: bool)
    ensures
        installable == (is_file && script_file_name(file_name@) && (mode matches Some(bits)
            && executable_mode(bits))),
{
    is_file && has_script_ending(file_name) && match mode {
        Some(bits) => is_executable(bits),
        None => false,
    }
}

/// What is done to link a script.
#[derive(Clone, Copy, Debug, PartialEq, Eq)]
pub enum LinkPlan {
    /// A link to the script is in place: nothing to do.
    AlreadyInstalled,
    /// A link to something else is in place: it is removed and made anew.
    Update,
    /// The place is free: the link is made.
    Create,
}

/// The place of a link is taken by something that is not a link.
#[derive(Clone, Copy, Debug, PartialEq, Eq)]
pub struct PlaceTaken;

/// Decides what is done to link a script, from what stands at the link's
/// place: whether it is a link, whether that link leads to the script, and
/// whether anything is there at all.
pub fn install_script(is_link: bool, leads_to_script: bool, taken: bool) -> (plan: Result<
    LinkPlan,
    PlaceTaken,
>)
    ensures
        plan == if is_link && leads_to_script {
            Ok::<LinkPlan, PlaceTaken>(LinkPlan::AlreadyInstalled)
        } else if is_link {
            Ok(LinkPlan::Update)
        } else if taken {
            Err(PlaceTaken)
        } else {
            Ok(LinkPlan::Create)
        },
{
    if is_link {
        if leads_to_script {
            Ok(LinkPlan::AlreadyInstalled)
        } else {
            Ok(LinkPlan::Update)
        }
    } else if taken {
        Err(PlaceTaken)
    } else {
        Ok(LinkPlan::Create)
    }
}

/// What is done to install a completion file.
#[derive(Clone, Copy, Debug, PartialEq, Eq)]
pub enum CopyPlan {
    /// The file is in place: nothing to do.
    AlreadyInstalled,
    /// The file is copied to its place.
    Copy,
}

/// Decides what is done to install a completion file. A file that is in
/// place is left alone when it holds what the source holds; a dry run does
/// not look into it and leaves it alone in any case.
pub fn install_completion(in_place: bool, same_content: bool, dry_run: bool) -> (plan: CopyPlan)
    ensures
        plan == if in_place && (dry_run || same_content) {
            CopyPlan::AlreadyInstalled
        } else {
            CopyPlan::Copy
        },
{
    if in_place && (dry_run || same_content) {
        CopyPlan::AlreadyInstalled
    } else {
        CopyPlan::Copy
    }
}

} // verus!
