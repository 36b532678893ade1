//! Which configuration file is found.

use vstd::prelude::*;
use vstd::string::*;

use crate::locate::{
    candidate_view, compared, joined, located, path_views, platform_compares, search_outcome, Candidate,
    CandidateView, LocateError, LocateFault, CONFIG_NAME,
};

verus! {

/// A path that was given is taken where there is a file, and told to be missing otherwise.
pub proof fn given_path_is_taken_or_missing(
    given: CandidateView,
    here: Option<CandidateView>,
    beside: Option<CandidateView>,
    same: bool,
)
    ensures
        located(Some(given), here, beside, same) == if given.is_file {
            Ok::<Seq<char>, LocateFault>(given.path)
        } else {
            Err::<Seq<char>, LocateFault>(LocateFault::ExplicitMissing { path: given.path })
        },
{
}

/// Without a given path, the file in the current directory is taken before the one beside the
/// executable. Where neither is there, the places that were searched are told, each once.
pub proof fn current_directory_is_searched_first(
    here: CandidateView,
    beside: CandidateView,
    same: bool,
)
    ensures
        here.is_file ==> located(None, Some(here), Some(beside), same) == Ok::<
            Seq<char>,
            LocateFault,
        >(here.path),
        !here.is_file && beside.is_file && !same ==> located(None, Some(here), Some(beside), same)
            == Ok::<Seq<char>, LocateFault>(beside.path),
        !here.is_file && !beside.is_file && !same ==> located(None, Some(here), Some(beside), same)
            == Err::<Seq<char>, LocateFault>(
            LocateFault::NotFound { searched: seq![here.path, beside.path] },
        ),
        !here.is_file && same ==> located(None, Some(here), Some(beside), same) == Err::<
            Seq<char>,
            LocateFault,
        >(LocateFault::NotFound { searched: seq![here.path] }),
{
    let both = seq![here, beside];
    assert(both.drop_first() =~= seq![beside]);
    assert(seq![beside].drop_first() =~= Seq::<CandidateView>::empty());
    assert(seq![here].drop_first() =~= Seq::<CandidateView>::empty());
    assert(both.map_values(|c: CandidateView| c.path) =~= seq![here.path, beside.path]);
    assert(seq![here].map_values(|c: CandidateView| c.path) =~= seq![here.path]);
    reveal_with_fuel(crate::locate::first_file, 3);
}

/// A single place is searched alone. Where there is no place at all, nothing was searched.
pub proof fn single_place_is_searched_alone(only: CandidateView, same: bool)
    ensures
        ({
            let found = if only.is_file {
                Ok::<Seq<char>, LocateFault>(only.path)
            } else {
                Err::<Seq<char>, LocateFault>(LocateFault::NotFound { searched: seq![only.path] })
            };
            &&& located(None, Some(only), None, same) == found
            &&& located(None, None, Some(only), same) == found
        }),
        located(None, None, None, same) == Err::<Seq<char>, LocateFault>(
            LocateFault::NotFound { searched: Seq::empty() },
        ),
{
    assert(seq![only].drop_first() =~= Seq::<CandidateView>::empty());
    assert(seq![only].map_values(|c: CandidateView| c.path) =~= seq![only.path]);
    assert(Seq::<CandidateView>::empty().map_values(|c: CandidateView| c.path) =~= Seq::<
        Seq<char>,
    >::empty());
    reveal_with_fuel(crate::locate::first_file, 2);
}

/// Two places are compared by their paths, and those with the same text are the same; a place that is absent is the same as no other.
pub proof fn places_are_compared(
    here: Option<CandidateView>,
    beside: Option<CandidateView>,
    same: bool,
)
    requires
        compared(here, beside, same),
    ensures
        here is None || beside is None ==> !same,
        here is Some && beside is Some ==> platform_compares(here->0.path, beside->0.path, same),
        here is Some && beside is Some && here->0.path == beside->0.path ==> same,
{
}

/// The places are written with a semicolon and a space between them, in their order.
pub proof fn places_are_written_in_order(paths: Seq<Seq<char>>, path: Seq<char>)
    ensures
        joined(Seq::<Seq<char>>::empty()) == Seq::<char>::empty(),
        joined(seq![path]) == path,
        paths.len() > 0 ==> joined(paths.push(path)) == joined(paths) + "; "@ + path,
{
    assert(paths.push(path).drop_last() =~= paths);
}

/// The reasons why no configuration file is found, in words.
pub proof fn locate_errors_in_words(path: Seq<char>, searched: Seq<Seq<char>>)
    ensures
        (LocateFault::ExplicitMissing { path }).text() == "Konfigurační soubor nebyl nalezen: "@
            + path,
        (LocateFault::NotFound { searched }).text() == "Konfigurační soubor '"@
            + "keyence-collector.conf"@ + "' nebyl nalezen. Hledáno v: "@ + joined(searched)
            + ". Použijte například: cargo run -- .\\keyence-collector.conf"@,
        CONFIG_NAME@ == "keyence-collector.conf"@,
{
}

/// Candidates and errors hold what their parts hold.
pub proof fn locate_values_hold_their_parts(
    candidate: Candidate,
    error: LocateError,
    res: Result<String, LocateError>,
)
    ensures
        candidate@ == (CandidateView { path: candidate.path@, is_file: candidate.is_file }),
        candidate_view(Some(candidate)) == Some(candidate@),
        candidate_view(None::<Candidate>) == None::<CandidateView>,
        match error {
            LocateError::ExplicitMissing { path } => error@ == (LocateFault::ExplicitMissing {
                path: path@,
            }),
            LocateError::NotFound { searched } => error@ matches LocateFault::NotFound {
                searched: paths,
            } && paths.len() == searched@.len() && forall|i: int|
                0 <= i < paths.len() ==> #[trigger] paths[i] == searched@[i]@,
        },
        match res {
            Ok(path) => search_outcome(res) == Ok::<Seq<char>, LocateFault>(path@),
            Err(e) => search_outcome(res) == Err::<Seq<char>, LocateFault>(e@),
        },
{
    if let LocateError::NotFound { searched } = error {
        assert(path_views(searched@).len() == searched@.len());
    }
}

} // verus!
