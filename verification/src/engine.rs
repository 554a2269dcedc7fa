//! The selection engine: resolves a request into one of three mutually
//! exclusive modes and decides which records match, in which order.
//!
//! Mode precedence: a search pattern, when present, wins; otherwise the list
//! flag selects every record; otherwise the requested names are looked up in
//! request order. A request with no pattern, no list flag and no names has
//! nothing to act on and is a usage error.

use vstd::prelude::*;

use crate::loader::{load_store, spec_load, LoadError};
use crate::record::{Crate, CrateModel};
use crate::regexio::{regex_compiles, regex_is_match, regex_match, regex_ok};

verus! {

/// A command intent, as the external dispatcher hands it over.
#[derive(Debug)]
pub struct Request {
    pub packages: Vec<String>,
    pub info: bool,
    pub list: bool,
    pub quiet: bool,
    pub search: Option<String>,
}

/// The mathematical model of a request.
pub ghost struct RequestModel {
    pub packages: Seq<Seq<char>>,
    pub info: bool,
    pub list: bool,
    pub quiet: bool,
    pub search: Option<Seq<char>>,
}

impl View for Request {
    type V = RequestModel;

    open spec fn view(&self) -> RequestModel {
        RequestModel {
            packages: self.packages.deep_view(),
            info: self.info,
            list: self.list,
            quiet: self.quiet,
            search: self.search.deep_view(),
        }
    }
}

/// Why a command failed.
#[derive(Clone, Copy, PartialEq, Eq, Structural, Debug)]
pub enum SyncError {
    /// The store could not be loaded.
    Load(LoadError),
    /// The search pattern is not a valid regular expression.
    Pattern,
    /// The request carries no names, no pattern and no list flag.
    Usage,
}

/// Whether a record matches a search pattern: on its name, or on its
/// description when one is present. A record without a description never
/// matches on description.
pub open spec fn spec_matches(pat: Seq<char>, m: CrateModel) -> bool {
    regex_match(pat, m.name) || match m.description {
        Some(d) => regex_match(pat, d),
        None => false,
    }
}

/// The search results: the store's matching records, in store order.
pub open spec fn spec_search(store: Seq<CrateModel>, pat: Seq<char>) -> Seq<CrateModel> {
    store.filter(|m: CrateModel| spec_matches(pat, m))
}

/// The name-to-record index of the store. When two records share a name, the
/// later one in store order silently replaces the earlier: a defined, if
/// surprising, tie-break.
pub open spec fn name_index(store: Seq<CrateModel>) -> Map<Seq<char>, CrateModel>
    decreases store.len(),
{
    if store.len() == 0 {
        Map::empty()
    } else {
        name_index(store.drop_last()).insert(store.last().name, store.last())
    }
}

/// What looking up one requested name yields: the indexed record, or nothing
/// when the store has no record of that name (a tolerated miss, not an error).
pub open spec fn lookup_one(store: Seq<CrateModel>, name: Seq<char>) -> Seq<CrateModel> {
    if name_index(store).contains_key(name) {
        seq![name_index(store)[name]]
    } else {
        Seq::empty()
    }
}

/// The lookup results: for each requested name, in request order, the
/// matching record when there is one; absent names are silently skipped.
pub open spec fn spec_lookup(store: Seq<CrateModel>, names: Seq<Seq<char>>) -> Seq<CrateModel>
    decreases names.len(),
{
    if names.len() == 0 {
        Seq::empty()
    } else {
        spec_lookup(store, names.drop_last()) + lookup_one(store, names.last())
    }
}

/// What selection yields on an already loaded store, by mode precedence.
pub open spec fn spec_select(store: Seq<CrateModel>, req: RequestModel) -> Result<
    Seq<CrateModel>,
    SyncError,
> {
    match req.search {
        Some(pat) => if regex_ok(pat) {
            Ok(spec_search(store, pat))
        } else {
            Err(SyncError::Pattern)
        },
        None => if req.list {
            Ok(store)
        } else if req.packages.len() > 0 {
            Ok(spec_lookup(store, req.packages))
        } else {
            Err(SyncError::Usage)
        },
    }
}

/// What a whole command yields from the raw database bytes: usage and
/// pattern errors are raised before the store is read; then the store loads
/// strictly; then the resolved mode selects.
pub open spec fn spec_run(data: Seq<u8>, req: RequestModel) -> Result<Seq<CrateModel>, SyncError> {
    match req.search {
        Some(pat) => if !regex_ok(pat) {
            Err(SyncError::Pattern)
        } else {
            match spec_load(data) {
                Ok(store) => Ok(spec_search(store, pat)),
                Err(e) => Err(SyncError::Load(e)),
            }
        },
        None => if !req.list && req.packages.len() == 0 {
            Err(SyncError::Usage)
        } else {
            match spec_load(data) {
                Ok(store) => Ok(
                    if req.list {
                        store
                    } else {
                        spec_lookup(store, req.packages)
                    },
                ),
                Err(e) => Err(SyncError::Load(e)),
            }
        },
    }
}

/// A selection result, seen in the model.
pub open spec fn select_result_model(r: Result<Vec<Crate>, SyncError>) -> Result<
    Seq<CrateModel>,
    SyncError,
> {
    match r {
        Ok(v) => Ok(v.deep_view()),
        Err(e) => Err(e),
    }
}

/// Whether a record matches the pattern, decided through the regular
/// expression engine.
fn crate_matches(pat: &str, c: &Crate) -> (r: bool)
    requires
        regex_ok(pat@),
    ensures
        r == spec_matches(pat@, c@),
{
    let on_name = match regex_is_match(pat, c.name.as_str()) {
        Some(b) => b,
        None => {
            proof {
                assert(false);
            }
            false
        },
    };
    if on_name {
        return true;
    }
    match &c.description {
        Some(d) => match regex_is_match(pat, d.as_str()) {
            Some(b) => b,
            None => {
                proof {
                    assert(false);
                }
                false
            },
        },
        None => false,
    }
}

/// Copies the whole store, in store order.
fn copy_all(store: &Vec<Crate>) -> (r: Vec<Crate>)
    ensures
        r.deep_view() == store.deep_view(),
{
    let ghost sdv = store.deep_view();
    let mut out: Vec<Crate> = Vec::new();
    let mut i: usize = 0;
    while i < store.len()
        invariant
            0 <= i <= store@.len(),
            sdv == store.deep_view(),
            sdv.len() == store@.len(),
            out.deep_view() == sdv.subrange(0, i as int),
        decreases store@.len() - i,
    {
        let ghost old_dv = out.deep_view();
        out.push(store[i].duplicate());
        proof {
            assert(out.deep_view() =~= old_dv.push(sdv[i as int]));
            assert(out.deep_view() =~= sdv.subrange(0, i + 1));
        }
        i += 1;
    }
    proof {
        assert(sdv.subrange(0, sdv.len() as int) =~= sdv);
    }
    out
}

/// Streams the store once and keeps the records the pattern matches, in
/// store order.
fn search_records(store: &Vec<Crate>, pat: &str) -> (r: Vec<Crate>)
    requires
        regex_ok(pat@),
    ensures
        r.deep_view() == spec_search(store.deep_view(), pat@),
{
    let ghost sdv = store.deep_view();
    let mut out: Vec<Crate> = Vec::new();
    let mut i: usize = 0;
    while i < store.len()
        invariant
            0 <= i <= store@.len(),
            regex_ok(pat@),
            sdv == store.deep_view(),
            sdv.len() == store@.len(),
            out.deep_view() == spec_search(sdv.subrange(0, i as int), pat@),
        decreases store@.len() - i,
    {
        let ghost old_dv = out.deep_view();
        proof {
            assert(sdv[i as int] == store@[i as int].deep_view());
        }
        let hit = crate_matches(pat, &store[i]);
        if hit {
            out.push(store[i].duplicate());
        }
        proof {
            reveal(Seq::filter);
            assert(sdv.subrange(0, i + 1).drop_last() =~= sdv.subrange(0, i as int));
            assert(sdv.subrange(0, i + 1).last() == sdv[i as int]);
            if hit {
                assert(out.deep_view() =~= old_dv.push(sdv[i as int]));
            }
            assert(out.deep_view() =~= spec_search(sdv.subrange(0, i + 1), pat@));
        }
        i += 1;
    }
    proof {
        assert(sdv.subrange(0, sdv.len() as int) =~= sdv);
    }
    out
}

/// The later of two same-named records wins: the record a downward scan
/// finds first is the one the name index holds.
pub proof fn lemma_name_index_hit(store: Seq<CrateModel>, j: int, n: Seq<char>)
    requires
        0 <= j < store.len(),
        store[j].name == n,
        forall|t: int| j < t < store.len() ==> (#[trigger] store[t]).name != n,
    ensures
        name_index(store).contains_key(n),
        name_index(store)[n] == store[j],
    decreases store.len(),
{
    if j == store.len() - 1 {
    } else {
        assert(store.drop_last()[j] == store[j]);
        assert(forall|t: int|
            j < t < store.drop_last().len() ==> (#[trigger] store.drop_last()[t]).name != n);
        lemma_name_index_hit(store.drop_last(), j, n);
        assert(store.last().name != n);
    }
}

/// A name no record carries is not in the name index.
pub proof fn lemma_name_index_miss(store: Seq<CrateModel>, n: Seq<char>)
    requires
        forall|t: int| 0 <= t < store.len() ==> (#[trigger] store[t]).name != n,
    ensures
        !name_index(store).contains_key(n),
    decreases store.len(),
{
    if store.len() > 0 {
        assert(forall|t: int|
            0 <= t < store.drop_last().len() ==> (#[trigger] store.drop_last()[t]).name != n);
        lemma_name_index_miss(store.drop_last(), n);
    }
}

/// Scans the store downward for the last record carrying the name.
fn find_last(store: &Vec<Crate>, name: &String) -> (r: Option<usize>)
    ensures
        match r {
            Some(k) => k < store@.len() && name_index(store.deep_view()).contains_key(name@)
                && name_index(store.deep_view())[name@] == store.deep_view()[k as int],
            None => !name_index(store.deep_view()).contains_key(name@),
        },
{
    let ghost sdv = store.deep_view();
    let mut k = store.len();
    while k > 0
        invariant
            k <= store@.len(),
            sdv == store.deep_view(),
            sdv.len() == store@.len(),
            forall|t: int| k <= t < sdv.len() ==> (#[trigger] sdv[t]).name != name@,
        decreases k,
    {
        k -= 1;
        proof {
            assert(sdv[k as int] == store@[k as int].deep_view());
        }
        if store[k].name.eq(name) {
            proof {
                lemma_name_index_hit(sdv, k as int, name@);
            }
            return Some(k);
        }
    }
    proof {
        lemma_name_index_miss(sdv, name@);
    }
    None
}

/// Looks up each requested name in request order, silently skipping names
/// the store does not hold.
fn lookup_records(store: &Vec<Crate>, names: &Vec<String>) -> (r: Vec<Crate>)
    ensures
        r.deep_view() == spec_lookup(store.deep_view(), names.deep_view()),
{
    let ghost sdv = store.deep_view();
    let ghost ndv = names.deep_view();
    let mut out: Vec<Crate> = Vec::new();
    let mut j: usize = 0;
    while j < names.len()
        invariant
            0 <= j <= names@.len(),
            sdv == store.deep_view(),
            ndv == names.deep_view(),
            ndv.len() == names@.len(),
            out.deep_view() == spec_lookup(sdv, ndv.subrange(0, j as int)),
        decreases names@.len() - j,
    {
        let ghost old_dv = out.deep_view();
        proof {
            assert(ndv[j as int] == names@[j as int].deep_view());
        }
        let found = find_last(store, &names[j]);
        match found {
            Some(k) => {
                out.push(store[k].duplicate());
                proof {
                    assert(out.deep_view() =~= old_dv.push(sdv[k as int]));
                    assert(lookup_one(sdv, ndv[j as int]) =~= seq![sdv[k as int]]);
                }
            },
            None => {
                proof {
                    assert(lookup_one(sdv, ndv[j as int]) =~= Seq::<CrateModel>::empty());
                }
            },
        }
        proof {
            assert(ndv.subrange(0, j + 1).drop_last() =~= ndv.subrange(0, j as int));
            assert(ndv.subrange(0, j + 1).last() == ndv[j as int]);
            assert(out.deep_view() =~= spec_lookup(sdv, ndv.subrange(0, j + 1)));
        }
        j += 1;
    }
    proof {
        assert(ndv.subrange(0, ndv.len() as int) =~= ndv);
    }
    out
}

/// Resolves the request's mode and selects from an already loaded store.
///
/// The dispatcher guarantees the mutual exclusions (`info` with a pattern,
/// the list flag with a pattern); the engine takes them as a precondition
/// and resolves by precedence: pattern, then list, then names.
pub fn select_records(store: &Vec<Crate>, req: &Request) -> (r: Result<Vec<Crate>, SyncError>)
    requires
        req@.info ==> req@.search is None,
        req@.list ==> req@.search is None,
    ensures
        select_result_model(r) == spec_select(store.deep_view(), req@),
{
    match &req.search {
        Some(pat) => {
            if !regex_compiles(pat.as_str()) {
                return Err(SyncError::Pattern);
            }
            Ok(search_records(store, pat.as_str()))
        },
        None => {
            if req.list {
                Ok(copy_all(store))
            } else if req.packages.len() > 0 {
                Ok(lookup_records(store, &req.packages))
            } else {
                Err(SyncError::Usage)
            }
        },
    }
}

/// Runs one whole command against the raw database bytes: validates the
/// request, loads the store strictly, selects by the resolved mode.
///
/// Usage and pattern errors are raised before any record is read; a load
/// error aborts the command with no partial results.
pub fn run_sync(data: &[u8], req: &Request) -> (r: Result<Vec<Crate>, SyncError>)
    requires
        req@.info ==> req@.search is None,
        req@.list ==> req@.search is None,
    ensures
        select_result_model(r) == spec_run(data@, req@),
{
    match &req.search {
        Some(pat) => {
            if !regex_compiles(pat.as_str()) {
                return Err(SyncError::Pattern);
            }
        },
        None => {
            if !req.list && req.packages.len() == 0 {
                return Err(SyncError::Usage);
            }
        },
    }
    let store = match load_store(data) {
        Ok(v) => v,
        Err(e) => {
            return Err(SyncError::Load(e));
        },
    };
    match select_records(&store, req) {
        Ok(v) => Ok(v),
        Err(e) => {
            proof {
                assert(false);
            }
            Err(e)
        },
    }
}

} // verus!
