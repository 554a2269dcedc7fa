//! The laws of the library, each stated over the models and proved once and
//! for all: strict decoding, list-all completeness, search correctness,
//! lookup order and tolerance, the duplicate-name tie-break, and idempotence.

use vstd::prelude::*;

use crate::csvio::csv_parse;
use crate::engine::{
    lemma_name_index_hit, name_index, spec_lookup, spec_matches, spec_run, spec_search,
    spec_select, RequestModel, SyncError,
};
use crate::loader::{
    expected_header, lemma_decode_rows_bad, spec_decode_row, spec_load,
};
use crate::record::CrateModel;

verus! {

/// Law: decoding is strict. One data row that fails to decode fails the
/// whole load; no records are returned alongside the failure.
pub proof fn lemma_strict_decoding(data: Seq<u8>, rows: Seq<Seq<Seq<char>>>, k: int)
    requires
        csv_parse(data) == Some(rows),
        1 <= k < rows.len(),
        spec_decode_row(rows[k]) is None,
    ensures
        spec_load(data) is Err,
{
    if rows[0] == expected_header() {
        assert(rows.subrange(1, rows.len() as int)[k - 1] == rows[k]);
        lemma_decode_rows_bad(rows.subrange(1, rows.len() as int), k - 1);
    }
}

/// Law: list-all is complete. On a store of N records a list request yields
/// exactly those N records, unfiltered, in store order.
pub proof fn lemma_list_all_complete(store: Seq<CrateModel>, req: RequestModel)
    requires
        req.list,
        req.search is None,
    ensures
        spec_select(store, req) == Ok::<Seq<CrateModel>, SyncError>(store),
        spec_select(store, req).unwrap().len() == store.len(),
{
}

/// Law: search is correct. A record stands in the search results exactly
/// when the pattern matches its name, or it has a description the pattern
/// matches; and the results are the store's filtered subsequence, so store
/// order is preserved.
pub proof fn lemma_search_correct(store: Seq<CrateModel>, pat: Seq<char>, m: CrateModel)
    ensures
        spec_search(store, pat).contains(m) <==> (store.contains(m) && spec_matches(pat, m)),
    decreases store.len(),
{
    reveal(Seq::filter);
    if store.len() == 0 {
        assert(spec_search(store, pat).len() == 0);
    } else {
        lemma_search_correct(store.drop_last(), pat, m);
        let f = spec_search(store, pat);
        let fd = spec_search(store.drop_last(), pat);
        let last = store.last();
        if store.contains(m) && spec_matches(pat, m) {
            let i = choose|i: int| 0 <= i < store.len() && store[i] == m;
            if i < store.len() - 1 {
                assert(store.drop_last()[i] == m);
                assert(store.drop_last().contains(m));
                let j = choose|j: int| 0 <= j < fd.len() && fd[j] == m;
                if spec_matches(pat, last) {
                    assert(fd.push(last)[j] == m);
                }
                assert(f.contains(m));
            } else {
                assert(m == last);
                assert(f == fd.push(m));
                assert(f[f.len() - 1] == m);
                assert(f.contains(m));
            }
        }
        if f.contains(m) {
            let j = choose|j: int| 0 <= j < f.len() && f[j] == m;
            if spec_matches(pat, last) {
                assert(f == fd.push(last));
                if j == f.len() - 1 {
                    assert(m == last);
                    assert(store[store.len() - 1] == m);
                    assert(store.contains(m));
                } else {
                    assert(fd[j] == m);
                    assert(fd.contains(m));
                    let i = choose|i: int|
                        0 <= i < store.drop_last().len() && store.drop_last()[i] == m;
                    assert(store[i] == m);
                    assert(store.contains(m));
                }
            } else {
                assert(f == fd);
                assert(fd[j] == m);
                assert(fd.contains(m));
                let i = choose|i: int|
                    0 <= i < store.drop_last().len() && store.drop_last()[i] == m;
                assert(store[i] == m);
                assert(store.contains(m));
            }
        }
    }
}

/// Law: lookup keeps request order and tolerates misses. For requested names
/// `[n1, n2, n3]` with n2 absent from the store, lookup yields the records
/// of n1 and n3 in that order, skipping n2 without error.
pub proof fn lemma_lookup_order_tolerance(
    store: Seq<CrateModel>,
    n1: Seq<char>,
    n2: Seq<char>,
    n3: Seq<char>,
)
    requires
        name_index(store).contains_key(n1),
        !name_index(store).contains_key(n2),
        name_index(store).contains_key(n3),
    ensures
        spec_lookup(store, seq![n1, n2, n3]) == seq![
            name_index(store)[n1],
            name_index(store)[n3],
        ],
{
    reveal_with_fuel(spec_lookup, 5);
    let names = seq![n1, n2, n3];
    assert(seq![n1].drop_last() =~= Seq::<Seq<char>>::empty());
    assert(names.drop_last() =~= seq![n1, n2]);
    assert(seq![n1, n2].drop_last() =~= seq![n1]);
    assert(spec_lookup(store, seq![n1]) =~= seq![name_index(store)[n1]]);
    assert(spec_lookup(store, seq![n1, n2]) =~= seq![name_index(store)[n1]]);
    assert(spec_lookup(store, names) =~= seq![name_index(store)[n1], name_index(store)[n3]]);
}

/// Law: the duplicate-name tie-break. When two records at positions i < j
/// carry the same name and no later record does, looking that name up yields
/// the record at position j: the later one silently replaced the earlier.
pub proof fn lemma_duplicate_tie_break(store: Seq<CrateModel>, i: int, j: int)
    requires
        0 <= i < j < store.len(),
        store[i].name == store[j].name,
        forall|k: int| j < k < store.len() ==> (#[trigger] store[k]).name != store[j].name,
    ensures
        spec_lookup(store, seq![store[j].name]) == seq![store[j]],
{
    reveal_with_fuel(spec_lookup, 3);
    lemma_name_index_hit(store, j, store[j].name);
    assert(seq![store[j].name].drop_last() =~= Seq::<Seq<char>>::empty());
    assert(spec_lookup(store, seq![store[j].name]) =~= seq![store[j]]);
}

/// Law: a command is idempotent. The whole pipeline is a function of the
/// database bytes and the request alone, so running the same list or search
/// request twice against an unchanged store yields identical ordered
/// results.
pub proof fn lemma_run_idempotent(
    data: Seq<u8>,
    req: RequestModel,
    r1: Result<Seq<CrateModel>, SyncError>,
    r2: Result<Seq<CrateModel>, SyncError>,
)
    requires
        r1 == spec_run(data, req),
        r2 == spec_run(data, req),
    ensures
        r1 == r2,
{
}

} // verus!
