//! Finding the executor binary.
use crate::os_text::{byte_strings, display_text, opt_ref_bytes, OsText};
use crate::path_step_laws::{law_join_appends_a_name, lemma_name_text};
use crate::paths::{
    components, glued, joined_path, law_split_undoes_glue, pieces, sibling_path, split, unbroken,
    vec_views, Component,
};
use crate::service::EXEC_BIN_NAME;
use crate::text_laws::{holds_text, lemma_holds_between};
use vstd::prelude::*;
use vstd::string::*;
use vstd::utf8::*;

verus! {

/// The byte between the directories of a search path.
pub const PATH_LIST_SEPARATOR: u8 = 58;

/// How the executor was found.
#[derive(Debug, Clone, Copy, PartialEq, Eq, Structural)]
pub enum ExecOrigin {
    /// The environment variable names it.
    Override,
    /// It lies beside the daemon.
    Sibling,
    /// It lies in a directory of the search path.
    SearchPath,
}

impl ExecOrigin {
    /// The origin as it is shown.
    pub open spec fn text(self) -> Seq<char> {
        match self {
            ExecOrigin::Override => "WARP_INSIGHT_EXEC_BIN"@,
            ExecOrigin::Sibling => "current executable sibling"@,
            ExecOrigin::SearchPath => "PATH"@,
        }
    }

    /// The origin as it is shown.
    pub fn as_str(self) -> (out: &'static str)
        ensures
            out@ == self.text(),
    {
        match self {
            ExecOrigin::Override => "WARP_INSIGHT_EXEC_BIN",
            ExecOrigin::Sibling => "current executable sibling",
            ExecOrigin::SearchPath => "PATH",
        }
    }
}

/// An executor and how it was found.
#[derive(Debug, PartialEq, Eq)]
pub struct ExecChoice {
    pub path: OsText,
    pub origin: ExecOrigin,
}

/// What a choice says.
#[verifier::ext_equal]
pub struct ExecChoiceView {
    pub path: Seq<u8>,
    pub origin: ExecOrigin,
}

impl View for ExecChoice {
    type V = ExecChoiceView;

    open spec fn view(&self) -> ExecChoiceView {
        ExecChoiceView { path: self.path@, origin: self.origin }
    }
}

/// The places where the executor may lie, in the order in which they are tried: beside
/// the daemon, then in each directory of the search path.
pub open spec fn exec_places(current_exe: Seq<u8>, path_env: Option<Seq<u8>>) -> Seq<Seq<u8>> {
    seq![sibling_path(current_exe, encode_utf8(EXEC_BIN_NAME@))] + (match path_env {
        Some(list) => pieces(list, PATH_LIST_SEPARATOR).map_values(
            |dir: Seq<u8>| joined_path(dir, encode_utf8(EXEC_BIN_NAME@)),
        ),
        None => Seq::empty(),
    })
}

/// The places where the executor may lie, in the order in which they are tried.
pub fn exec_candidates(current_exe: &OsText, path_env: Option<&OsText>) -> (out: Vec<OsText>)
    ensures
        byte_strings(out@) == exec_places(current_exe@, opt_ref_bytes(path_env)),
{
    let name = OsText::from_text(EXEC_BIN_NAME);
    let ghost wanted = exec_places(current_exe@, opt_ref_bytes(path_env));
    let mut out: Vec<OsText> = Vec::new();
    out.push(current_exe.with_file_name(&name));
    assert(byte_strings(out@) =~= wanted.take(1));
    if let Some(list) = path_env {
        let dirs = split(list.bytes.as_slice(), PATH_LIST_SEPARATOR);
        for i in 0..dirs.len()
            invariant
                name@ == encode_utf8(EXEC_BIN_NAME@),
                wanted == exec_places(current_exe@, Some(list@)),
                vec_views(dirs@) == pieces(list@, PATH_LIST_SEPARATOR),
                byte_strings(out@) == wanted.take(i + 1),
        {
            let ghost before = byte_strings(out@);
            let dir = OsText { bytes: vstd::slice::slice_to_vec(dirs[i].as_slice()) };
            let place = dir.join(&name);
            let ghost shown = place@;
            out.push(place);
            proof {
                assert(dir@ == vec_views(dirs@)[i as int]);
                assert(wanted[i + 1] == shown);
                assert(byte_strings(out@) =~= before.push(shown));
                assert(byte_strings(out@) =~= wanted.take(i + 2));
            }
        }
    }
    proof {
        assert(wanted.take(wanted.len() as int) =~= wanted);
    }
    out
}

/// Whether the place at an index is there.
pub open spec fn is_there(present: Seq<bool>, at: int) -> bool {
    0 <= at < present.len() && present[at]
}

/// The first place that is there, from an index on.
pub open spec fn first_there(present: Seq<bool>, from: int, count: int) -> Option<int>
    decreases count - from,
{
    if from >= count {
        None
    } else if is_there(present, from) {
        Some(from)
    } else {
        first_there(present, from + 1, count)
    }
}

/// The executor to use. An override is taken as it is; otherwise the first place that is
/// there counts, and the one beside the daemon where none is.
pub open spec fn exec_choice(
    current_exe: Seq<u8>,
    env_override: Option<Seq<u8>>,
    path_env: Option<Seq<u8>>,
    present: Seq<bool>,
) -> ExecChoiceView {
    let places = exec_places(current_exe, path_env);
    match env_override {
        Some(path) => ExecChoiceView { path, origin: ExecOrigin::Override },
        None => match first_there(present, 0, places.len() as int) {
            Some(at) => ExecChoiceView {
                path: places[at],
                origin: if at == 0 {
                    ExecOrigin::Sibling
                } else {
                    ExecOrigin::SearchPath
                },
            },
            None => ExecChoiceView { path: places[0], origin: ExecOrigin::Sibling },
        },
    }
}

/// Chooses the executor. `present` says of each candidate whether it is there; a
/// candidate beyond its end is not.
pub fn resolve_exec_bin_from(
    current_exe: &OsText,
    env_override: Option<&OsText>,
    path_env: Option<&OsText>,
    present: &Vec<bool>,
) -> (choice: ExecChoice)
    ensures
        choice@ == exec_choice(
            current_exe@,
            opt_ref_bytes(env_override),
            opt_ref_bytes(path_env),
            present@,
        ),
{
    if let Some(path) = env_override {
        return ExecChoice { path: path.clone(), origin: ExecOrigin::Override };
    }
    let candidates = exec_candidates(current_exe, path_env);
    let ghost places = exec_places(current_exe@, opt_ref_bytes(path_env));
    let mut at: usize = 0;
    while at < candidates.len()
        invariant
            at <= candidates@.len(),
            byte_strings(candidates@) == places,
            places == exec_places(current_exe@, opt_ref_bytes(path_env)),
            env_override is None,
            first_there(present@, 0, places.len() as int) == first_there(
                present@,
                at as int,
                places.len() as int,
            ),
        decreases candidates@.len() - at,
    {
        if at < present.len() && present[at] {
            proof {
                assert(places[at as int] == candidates@[at as int]@);
            }
            return ExecChoice {
                path: candidates[at].clone(),
                origin: if at == 0 {
                    ExecOrigin::Sibling
                } else {
                    ExecOrigin::SearchPath
                },
            };
        }
        at = at + 1;
    }
    proof {
        assert(places[0] == candidates@[0]@);
    }
    ExecChoice { path: candidates[0].clone(), origin: ExecOrigin::Sibling }
}

/// What is found at the path of an executor.
#[derive(Debug, PartialEq, Eq)]
pub enum ExecProbe {
    /// Nothing can be found out, and why.
    Unreadable(String),
    /// Something is there: whether it is a file, and its permission bits.
    Found { is_file: bool, mode: u32 },
}

/// Why an executor cannot be used.
#[derive(Debug, PartialEq, Eq)]
pub enum ExecBinError {
    NotFound { path: OsText, origin: ExecOrigin, cause: String },
    NotAFile(OsText),
    NotExecutable(OsText),
}

/// What such an error says.
#[verifier::ext_equal]
pub enum ExecBinErrorView {
    NotFound { path: Seq<u8>, origin: ExecOrigin, cause: Seq<char> },
    NotAFile(Seq<u8>),
    NotExecutable(Seq<u8>),
}

impl View for ExecBinError {
    type V = ExecBinErrorView;

    open spec fn view(&self) -> ExecBinErrorView {
        match self {
            ExecBinError::NotFound { path, origin, cause } => ExecBinErrorView::NotFound {
                path: path@,
                origin: *origin,
                cause: cause@,
            },
            ExecBinError::NotAFile(path) => ExecBinErrorView::NotAFile(path@),
            ExecBinError::NotExecutable(path) => ExecBinErrorView::NotExecutable(path@),
        }
    }
}

/// The sentence that tells the user of such an error.
pub open spec fn exec_bin_error_text(err: ExecBinErrorView) -> Seq<char> {
    match err {
        ExecBinErrorView::NotFound { path, origin, cause } => "wist-exec was not found via "@
            + origin.text() + ": "@ + display_text(path) + " ("@ + cause + ")"@,
        ExecBinErrorView::NotAFile(path) => "wist-exec path is not a file: "@ + display_text(path),
        ExecBinErrorView::NotExecutable(path) => "wist-exec is not executable: "@ + display_text(
            path,
        ),
    }
}

impl ExecBinError {
    /// The sentence that tells the user of the error.
    pub fn message(&self) -> (out: String)
        ensures
            out@ == exec_bin_error_text(self@),
    {
        match self {
            ExecBinError::NotFound { path, origin, cause } => {
                let mut out = "wist-exec was not found via ".to_string();
                out.append(origin.as_str());
                out.append(": ");
                out.append(path.display().as_str());
                out.append(" (");
                out.append(cause.as_str());
                out.append(")");
                out
            },
            ExecBinError::NotAFile(path) => {
                let mut out = "wist-exec path is not a file: ".to_string();
                out.append(path.display().as_str());
                out
            },
            ExecBinError::NotExecutable(path) => {
                let mut out = "wist-exec is not executable: ".to_string();
                out.append(path.display().as_str());
                out
            },
        }
    }
}

/// The permission bits of which an executable file has at least one.
pub const EXECUTE_BITS: u32 = 0o111;

/// Why a choice cannot be used: nothing is there, it is no file, or no one may execute
/// it.
pub open spec fn exec_refusal(choice: ExecChoiceView, probe: ExecProbe) -> Option<
    ExecBinErrorView,
> {
    match probe {
        ExecProbe::Unreadable(cause) => Some(
            ExecBinErrorView::NotFound {
                path: choice.path,
                origin: choice.origin,
                cause: cause@,
            },
        ),
        ExecProbe::Found { is_file, mode } => if !is_file {
            Some(ExecBinErrorView::NotAFile(choice.path))
        } else if mode & EXECUTE_BITS == 0 {
            Some(ExecBinErrorView::NotExecutable(choice.path))
        } else {
            None
        },
    }
}

/// The path of a choice that can be used.
pub fn validate_exec_bin(choice: ExecChoice, probe: ExecProbe) -> (out: Result<
    OsText,
    ExecBinError,
>)
    ensures
        match out {
            Ok(path) => exec_refusal(choice@, probe) is None && path@ == choice@.path,
            Err(e) => exec_refusal(choice@, probe) == Some(e@),
        },
{
    match probe {
        ExecProbe::Unreadable(cause) => Err(
            ExecBinError::NotFound { path: choice.path, origin: choice.origin, cause },
        ),
        ExecProbe::Found { is_file, mode } => {
            if !is_file {
                Err(ExecBinError::NotAFile(choice.path))
            } else if mode & EXECUTE_BITS == 0 {
                Err(ExecBinError::NotExecutable(choice.path))
            } else {
                Ok(choice.path)
            }
        },
    }
}

/// An override is used whatever else is there; without one the executor beside the
/// daemon comes before the search path.
pub proof fn law_exec_bin_preference(
    current_exe: Seq<u8>,
    env_override: Option<Seq<u8>>,
    path_env: Option<Seq<u8>>,
    present: Seq<bool>,
)
    ensures
        ({
            let choice = exec_choice(current_exe, env_override, path_env, present);
            &&& env_override matches Some(path) ==> choice.path == path && choice.origin
                == ExecOrigin::Override
            &&& env_override is None && is_there(present, 0) ==> choice.origin
                == ExecOrigin::Sibling && choice.path == sibling_path(
                current_exe,
                encode_utf8(EXEC_BIN_NAME@),
            )
        }),
{
}

/// The places of the executor are beside the daemon and then in the directories of the
/// search path, in their order: where the search path is made of directories with colons
/// between them, the place in each is the executor below it.
pub proof fn law_the_search_path_is_tried_in_order(
    current_exe: Seq<u8>,
    dirs: Seq<Seq<u8>>,
    at: int,
)
    requires
        0 <= at < dirs.len(),
        forall|i: int| 0 <= i < dirs.len() ==> !(#[trigger] dirs[i]).contains(58u8),
    ensures
        ({
            let places = exec_places(current_exe, Some(glued(dirs, 58u8)));
            let name = encode_utf8("wist-exec"@);
            &&& places.len() == 1 + dirs.len()
            &&& places[0] == sibling_path(current_exe, name)
            &&& places[1 + at] == joined_path(dirs[at], name)
            &&& components(places[1 + at]) == components(dirs[at]).push(Component::Normal(name))
            &&& exec_places(current_exe, None) == seq![places[0]]
        }),
{
    assert forall|i: int| 0 <= i < dirs.len() implies unbroken(#[trigger] dirs[i], 58u8) by {
        assert(!dirs[i].contains(58u8));
    }
    law_split_undoes_glue(dirs, 58u8);
    reveal_strlit("wist-exec");
    lemma_name_text("wist-exec"@);
    law_join_appends_a_name(dirs[at], encode_utf8("wist-exec"@));
    let sibling = sibling_path(current_exe, encode_utf8(EXEC_BIN_NAME@));
    assert(seq![sibling] + Seq::<Seq<u8>>::empty() =~= seq![sibling]);
}

proof fn lemma_first_there(present: Seq<bool>, from: int, count: int, at: int)
    requires
        0 <= from <= at < count,
        is_there(present, at),
        forall|i: int| from <= i < at ==> !(#[trigger] is_there(present, i)),
    ensures
        first_there(present, from, count) == Some(at),
    decreases at - from,
{
    if from < at {
        assert(!is_there(present, from));
        lemma_first_there(present, from + 1, count, at);
    }
}

proof fn lemma_none_there(present: Seq<bool>, from: int, count: int)
    requires
        0 <= from,
        forall|i: int| from <= i < count ==> !(#[trigger] is_there(present, i)),
    ensures
        first_there(present, from, count) is None,
    decreases count - from,
{
    if from < count {
        assert(!is_there(present, from));
        lemma_none_there(present, from + 1, count);
    }
}

/// Without an override the first place that is there is taken, and told as what it is; where
/// none is there, the place beside the daemon is.
pub proof fn law_the_first_place_that_is_there_is_taken(
    current_exe: Seq<u8>,
    path_env: Option<Seq<u8>>,
    present: Seq<bool>,
    at: int,
)
    ensures
        ({
            let places = exec_places(current_exe, path_env);
            let choice = exec_choice(current_exe, None, path_env, present);
            &&& 0 <= at < places.len() && is_there(present, at) && (forall|i: int|
                0 <= i < at ==> !(#[trigger] is_there(present, i))) ==> choice.path == places[at]
                && (choice.origin == ExecOrigin::Sibling <==> at == 0) && (choice.origin
                == ExecOrigin::SearchPath <==> at > 0)
            &&& (forall|i: int| 0 <= i < places.len() ==> !(#[trigger] is_there(present, i)))
                ==> choice.path == places[0] && choice.origin == ExecOrigin::Sibling
        }),
{
    let places = exec_places(current_exe, path_env);
    let n = places.len() as int;
    if 0 <= at < n && is_there(present, at) && (forall|i: int|
        0 <= i < at ==> !(#[trigger] is_there(present, i))) {
        lemma_first_there(present, 0, n, at);
    }
    if forall|i: int| 0 <= i < n ==> !(#[trigger] is_there(present, i)) {
        lemma_none_there(present, 0, n);
    }
}

/// An executor can be used exactly if it is a file that its owner, its group or anybody may
/// execute. Otherwise the error tells of its path what is wrong: that nothing was found
/// there, how it was looked for and why; that it is no file; or that nobody may execute it.
pub proof fn law_executors_can_be_executed(choice: ExecChoiceView, probe: ExecProbe)
    ensures
        match probe {
            ExecProbe::Unreadable(cause) => exec_refusal(choice, probe) matches Some(
                ExecBinErrorView::NotFound { path, origin, cause: told },
            ) && path == choice.path && origin == choice.origin && told == cause@,
            ExecProbe::Found { is_file, mode } => if !is_file {
                exec_refusal(choice, probe) == Some(ExecBinErrorView::NotAFile(choice.path))
            } else if mode & 0o100 != 0 || mode & 0o010 != 0 || mode & 0o001 != 0 {
                exec_refusal(choice, probe) is None
            } else {
                exec_refusal(choice, probe) == Some(ExecBinErrorView::NotExecutable(choice.path))
            },
        },
{
    if let ExecProbe::Found { is_file, mode } = probe {
        assert(mode & 0o111 == 0 <==> mode & 0o100 == 0 && mode & 0o010 == 0 && mode & 0o001 == 0)
            by (bit_vector);
    }
}

/// The sentence of such an error names the path, and for one that was not found also the
/// place that was looked at and the cause.
pub proof fn law_executor_errors_name_the_path(err: ExecBinErrorView)
    ensures
        match err {
            ExecBinErrorView::NotFound { path, origin, cause } => holds_text(
                exec_bin_error_text(err),
                display_text(path),
            ) && holds_text(exec_bin_error_text(err), cause) && holds_text(
                exec_bin_error_text(err),
                match origin {
                    ExecOrigin::Override => "WARP_INSIGHT_EXEC_BIN"@,
                    ExecOrigin::Sibling => "current executable sibling"@,
                    ExecOrigin::SearchPath => "PATH"@,
                },
            ),
            ExecBinErrorView::NotAFile(path) | ExecBinErrorView::NotExecutable(path) => holds_text(
                exec_bin_error_text(err),
                display_text(path),
            ),
        },
{
    let text = exec_bin_error_text(err);
    let none = Seq::<char>::empty();
    match err {
        ExecBinErrorView::NotFound { path, origin, cause } => {
            let shown = display_text(path);
            let a = "wist-exec was not found via "@;
            assert(text =~= a + origin.text() + (": "@ + shown + " ("@ + cause + ")"@));
            lemma_holds_between(a, origin.text(), ": "@ + shown + " ("@ + cause + ")"@);
            let b = a + origin.text() + ": "@;
            assert(text =~= b + shown + (" ("@ + cause + ")"@));
            lemma_holds_between(b, shown, " ("@ + cause + ")"@);
            lemma_holds_between(b + shown + " ("@, cause, ")"@);
        },
        ExecBinErrorView::NotAFile(path) => {
            let a = "wist-exec path is not a file: "@;
            assert(text =~= a + display_text(path) + none);
            lemma_holds_between(a, display_text(path), none);
        },
        ExecBinErrorView::NotExecutable(path) => {
            let a = "wist-exec is not executable: "@;
            assert(text =~= a + display_text(path) + none);
            lemma_holds_between(a, display_text(path), none);
        },
    }
}

} // verus!
