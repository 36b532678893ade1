//! Where the configuration file is looked for.

use vstd::prelude::*;
use vstd::string::*;

verus! {

/// The name of the configuration file where no path is given.
pub const CONFIG_NAME: &'static str = "keyence-collector.conf";

/// A place where the configuration file may be.
#[derive(Debug)]
pub struct Candidate {
    pub path: String,
    /// There is a file at `path`.
    pub is_file: bool,
}

/// The contents of a `Candidate`.
pub struct CandidateView {
    pub path: Seq<char>,
    pub is_file: bool,
}

impl View for Candidate {
    type V = CandidateView;

    open spec fn view(&self) -> CandidateView {
        CandidateView { path: self.path@, is_file: self.is_file }
    }
}

/// Why there is no configuration file.
#[derive(Debug)]
pub enum LocateError {
    /// There is no file at the path that was given.
    ExplicitMissing { path: String },
    /// There is none in the places that were searched.
    NotFound { searched: Vec<String> },
}

/// The contents of a `LocateError`.
pub enum LocateFault {
    ExplicitMissing { path: Seq<char> },
    NotFound { searched: Seq<Seq<char>> },
}

/// `paths` with a semicolon and a space between them.
pub open spec fn joined(paths: Seq<Seq<char>>) -> Seq<char>
    decreases paths.len(),
{
    if paths.len() == 0 {
        Seq::empty()
    } else if paths.len() == 1 {
        paths[0]
    } else {
        joined(paths.drop_last()) + "; "@ + paths.last()
    }
}

/// The contents of each path.
pub open spec fn path_views(paths: Seq<String>) -> Seq<Seq<char>> {
    paths.map_values(|path: String| path@)
}

impl LocateFault {
    /// The error in the collector's words.
    pub open spec fn text(self) -> Seq<char> {
        match self {
            LocateFault::ExplicitMissing { path } => "Konfigurační soubor nebyl nalezen: "@ + path,
            LocateFault::NotFound { searched } => "Konfigurační soubor '"@ + CONFIG_NAME@
                + "' nebyl nalezen. Hledáno v: "@ + joined(searched)
                + ". Použijte například: cargo run -- .\\keyence-collector.conf"@,
        }
    }
}

impl View for LocateError {
    type V = LocateFault;

    open spec fn view(&self) -> LocateFault {
        match self {
            LocateError::ExplicitMissing { path } => LocateFault::ExplicitMissing { path: path@ },
            LocateError::NotFound { searched } => LocateFault::NotFound {
                searched: path_views(searched@),
            },
        }
    }
}

fn join_paths(paths: &Vec<String>) -> (text: String)
    ensures
        text@ == joined(path_views(paths@)),
{
    let mut text: String = String::new();
    let ghost all = path_views(paths@);
    assert(all.take(0) =~= Seq::<Seq<char>>::empty());
    for i in 0..paths.len()
        invariant
            all == path_views(paths@),
            text@ == joined(all.take(i as int)),
    {
        assert(all.take(i + 1).drop_last() =~= all.take(i as int));
        assert(all.take(i + 1).last() == paths[i as int]@);
        if i > 0 {
            text.append("; ");
        }
        text.append(paths[i].as_str());
        assert(text@ =~= joined(all.take(i + 1)));
    }
    assert(all.take(all.len() as int) =~= all);
    text
}

impl LocateError {
    /// The error in the collector's words.
    pub fn message(&self) -> (m: String)
        ensures
            m@ == self@.text(),
    {
        match self {
            LocateError::ExplicitMissing { path } => {
                let mut m: String = "Konfigurační soubor nebyl nalezen: ".to_owned();
                m.append(path.as_str());
                m
            },
            LocateError::NotFound { searched } => {
                let mut m: String = "Konfigurační soubor '".to_owned();
                m.append(CONFIG_NAME);
                m.append("' nebyl nalezen. Hledáno v: ");
                m.append(join_paths(searched).as_str());
                m.append(". Použijte například: cargo run -- .\\keyence-collector.conf");
                m
            },
        }
    }

    /// The error in the validation client's words.
    pub fn validator_message(&self) -> (m: String)
        ensures
            m@
                == "Konfigurační soubor keyence-collector.conf nebyl nalezen. Předejte jeho cestu jako první argument."@,
    {
        "Konfigurační soubor keyence-collector.conf nebyl nalezen. Předejte jeho cestu jako první argument.".to_owned()
    }
}

/// An optional candidate, by its contents.
pub open spec fn candidate_view(candidate: Option<Candidate>) -> Option<CandidateView> {
    match candidate {
        Some(c) => Some(c@),
        None => None,
    }
}

/// The contents of each candidate.
pub open spec fn candidate_views(candidates: Seq<Candidate>) -> Seq<CandidateView> {
    candidates.map_values(|c: Candidate| c@)
}

/// The places that are searched: the current directory, then the directory of the
/// executable unless it is the same path.
pub open spec fn search_list(
    in_current_dir: Option<CandidateView>,
    beside_executable: Option<CandidateView>,
    same_path: bool,
) -> Seq<CandidateView> {
    match (in_current_dir, beside_executable) {
        (Some(first), Some(second)) => if same_path {
            seq![first]
        } else {
            seq![first, second]
        },
        (Some(only), None) => seq![only],
        (None, Some(only)) => seq![only],
        (None, None) => Seq::empty(),
    }
}

/// A path that was given explicitly always has priority over the search.
pub proof fn explicit_path_has_priority(
    explicit: CandidateView,
    in_current_dir: Option<CandidateView>,
    beside_executable: Option<CandidateView>,
    same_path: bool,
)
    ensures
        located(Some(explicit), in_current_dir, beside_executable, same_path) == located(
            Some(explicit),
            None,
            None,
            false,
        ),
{
}

/// The path of the first candidate that is a file.
pub open spec fn first_file(candidates: Seq<CandidateView>) -> Option<Seq<char>>
    decreases candidates.len(),
{
    if candidates.len() == 0 {
        None
    } else if candidates.first().is_file {
        Some(candidates.first().path)
    } else {
        first_file(candidates.drop_first())
    }
}

/// The path of the configuration file. A path that was given explicitly is the only
/// candidate.
pub open spec fn located(
    explicit: Option<CandidateView>,
    in_current_dir: Option<CandidateView>,
    beside_executable: Option<CandidateView>,
    same_path: bool,
) -> Result<Seq<char>, LocateFault> {
    match explicit {
        Some(candidate) => if candidate.is_file {
            Ok(candidate.path)
        } else {
            Err(LocateFault::ExplicitMissing { path: candidate.path })
        },
        None => {
            let candidates = search_list(in_current_dir, beside_executable, same_path);
            match first_file(candidates) {
                Some(path) => Ok(path),
                None => Err(
                    LocateFault::NotFound {
                        searched: candidates.map_values(|c: CandidateView| c.path),
                    },
                ),
            }
        },
    }
}

/// The result of a search, by its contents.
pub open spec fn search_outcome(res: Result<String, LocateError>) -> Result<Seq<char>, LocateFault> {
    match res {
        Ok(path) => Ok(path@),
        Err(e) => Err(e@),
    }
}

/// Tells that `same` is what the standard library answers, on the platform at hand, when it
/// compares the paths `a` and `b`.
pub closed spec fn platform_compares(a: Seq<char>, b: Seq<char>, same: bool) -> bool {
    exists|x: &str, y: &str|
        x@ == a && y@ == b && #[trigger] call_ensures(same_path, (x, y), same)
}

/// The platform compares the two paths themselves, and has the last word.
proof fn lemma_platform_is_asked(a: Seq<char>, b: Seq<char>, same: bool)
    requires
        platform_compares(a, b, same),
    ensures
        exists|x: &str, y: &str|
            x@ == a && y@ == b && #[trigger] call_ensures(same_path, (x, y), same),
{
}

/// A path is not told apart from itself.
pub proof fn path_is_the_same_as_itself(path: Seq<char>, same: bool)
    requires
        platform_compares(path, path, same),
    ensures
        same,
{
    lemma_platform_is_asked(path, path, same);
}

/// Tells that `same` is the answer to whether two candidates are the same path. Two are
/// compared, and those with the same text are the same; where one is absent they are not.
pub open spec fn compared(
    first: Option<CandidateView>,
    second: Option<CandidateView>,
    same: bool,
) -> bool {
    match (first, second) {
        (Some(a), Some(b)) => platform_compares(a.path, b.path, same) && (a.path == b.path
            ==> same),
        _ => !same,
    }
}

/// Finds the configuration file. Of the two places to search the second is left out where it
/// is the same path as the first.
pub fn find_config_path(
    explicit: Option<Candidate>,
    in_current_dir: Option<Candidate>,
    beside_executable: Option<Candidate>,
) -> (res: Result<String, LocateError>)
    ensures
        exists|same: bool|
            {
                &&& #[trigger] compared(
                    candidate_view(in_current_dir),
                    candidate_view(beside_executable),
                    same,
                )
                &&& search_outcome(res) == located(
                    candidate_view(explicit),
                    candidate_view(in_current_dir),
                    candidate_view(beside_executable),
                    same,
                )
            },
{
    let same: bool = match (&in_current_dir, &beside_executable) {
        (Some(first), Some(second)) => {
            let same: bool = same_path(first.path.as_str(), second.path.as_str());
            assert(platform_compares(first.path@, second.path@, same));
            same
        },
        _ => false,
    };
    assert(compared(candidate_view(in_current_dir), candidate_view(beside_executable), same));
    choose_config_path(explicit, in_current_dir, beside_executable, same)
}

/// Calls `PartialEq::eq` of `std::path::Path`, which compares the components of two paths.
/// Which texts have the same components depends on the platform; all that is claimed is that
/// a path equals itself.
#[verifier::external_body]
fn same_path(a: &str, b: &str) -> (same: bool)
    ensures
        a@ == b@ ==> same,
{
    std::path::Path::new(a) == std::path::Path::new(b)
}

/// Finds the configuration file, where `same_path` tells whether `in_current_dir` and
/// `beside_executable` are the same path.
pub fn choose_config_path(
    explicit: Option<Candidate>,
    in_current_dir: Option<Candidate>,
    beside_executable: Option<Candidate>,
    same_path: bool,
) -> (res: Result<String, LocateError>)
    ensures
        search_outcome(res) == located(
            candidate_view(explicit),
            candidate_view(in_current_dir),
            candidate_view(beside_executable),
            same_path,
        ),
{
    if let Some(candidate) = explicit {
        if candidate.is_file {
            return Ok(candidate.path);
        }
        return Err(LocateError::ExplicitMissing { path: candidate.path });
    }
    let ghost listed = search_list(
        candidate_view(in_current_dir),
        candidate_view(beside_executable),
        same_path,
    );
    let mut candidates: Vec<Candidate> = Vec::new();
    match in_current_dir {
        Some(first) => {
            candidates.push(first);
            if let Some(second) = beside_executable {
                if !same_path {
                    candidates.push(second);
                }
            }
        },
        None => {
            if let Some(only) = beside_executable {
                candidates.push(only);
            }
        },
    }
    let ghost all = candidate_views(candidates@);
    assert(all =~= listed);
    let mut searched: Vec<String> = Vec::new();
    assert(all.skip(0) =~= all);
    for i in 0..candidates.len()
        invariant
            explicit is None,
            all == candidate_views(candidates@),
            all == search_list(
                candidate_view(in_current_dir),
                candidate_view(beside_executable),
                same_path,
            ),
            first_file(all) == first_file(all.skip(i as int)),
            path_views(searched@) =~= all.take(i as int).map_values(|c: CandidateView| c.path),
    {
        let path: String = candidates[i].path.clone();
        assert(all.skip(i as int).first() == candidates[i as int]@);
        if candidates[i].is_file {
            return Ok(path);
        }
        assert(all.skip(i as int).drop_first() =~= all.skip(i + 1));
        let ghost before = searched@;
        searched.push(path);
        assert(path_views(searched@) =~= path_views(before).push(path@));
        assert(all.take(i + 1) =~= all.take(i as int).push(candidates[i as int]@));
    }
    assert(all.take(all.len() as int) =~= all);
    Err(LocateError::NotFound { searched })
}

} // verus!
