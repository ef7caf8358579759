//! A model of the catalog, the store of records keyed by path that the
//! host keeps, and what follows from it for an import that is run again.

use vstd::prelude::*;
use vstd::seq_lib::*;
use crate::import::{
    Lookup, found_record, found_records, is_unfound, lemma_all_found, lemma_found_is_kept,
    lemma_unfound_ignores_rest, present, unfound_paths,
};
use crate::media::MediaRecord;

verus! {

/// What the catalog answers when asked for the record of `path`.
pub open spec fn answer(catalog: Map<Seq<char>, MediaRecord>, path: Seq<char>) -> Lookup {
    if catalog.contains_key(path) {
        Lookup::Found(catalog[path])
    } else {
        Lookup::NotFound
    }
}

/// The catalog's answers for `paths`, one for each.
pub open spec fn answers(catalog: Map<Seq<char>, MediaRecord>, paths: Seq<String>) -> Seq<Lookup> {
    Seq::new(paths.len(), |i: int| answer(catalog, paths[i]@))
}

/// The catalog after `records` were saved one after the other, each in
/// place of what the catalog held for its path.
pub open spec fn saved(catalog: Map<Seq<char>, MediaRecord>, records: Seq<MediaRecord>) -> Map<
    Seq<char>,
    MediaRecord,
>
    decreases records.len(),
{
    if records.len() == 0 {
        catalog
    } else {
        saved(catalog, records.drop_last()).insert(records.last().path@, records.last())
    }
}

/// No path occurs twice.
pub open spec fn distinct_paths(paths: Seq<String>) -> bool {
    forall|i: int, j: int| 0 <= i < j < paths.len() ==> (#[trigger] paths[i])@ != (#[trigger] paths[j])@
}

/// A record was made for each of `paths`, under that path.
pub open spec fn made_for(records: Seq<Option<MediaRecord>>, paths: Seq<String>) -> bool {
    &&& records.len() == paths.len()
    &&& forall|i: int|
        0 <= i < records.len() ==> ((#[trigger] records[i]) matches Some(r) && r.path@ == paths[i]@)
}

proof fn lemma_present_all<T>(items: Seq<Option<T>>)
    requires
        forall|i: int| 0 <= i < items.len() ==> (#[trigger] items[i]).is_some(),
    ensures
        present(items).len() == items.len(),
        forall|i: int| 0 <= i < items.len() ==> Some(#[trigger] present(items)[i]) == items[i],
    decreases items.len(),
{
    if items.len() > 0 {
        let fewer = items.drop_last();
        lemma_present_all(fewer);
        assert(items.last().is_some());
        assert(present(items) == present(fewer) + seq![items.last().unwrap()]);
        assert forall|i: int| 0 <= i < items.len() implies Some(#[trigger] present(items)[i])
            == items[i] by {
            if i < fewer.len() {
                assert(present(fewer)[i] == present(items)[i]);
                assert(fewer[i] == items[i]);
            }
        }
    }
}

/// What the catalog holds after records with distinct paths were saved:
/// under the path of each of them that record, and under any other path
/// what it held before.
proof fn lemma_saved(catalog: Map<Seq<char>, MediaRecord>, records: Seq<MediaRecord>)
    requires
        forall|i: int, j: int|
            0 <= i < j < records.len() ==> (#[trigger] records[i]).path@ != (#[trigger] records[j]).path@,
    ensures
        forall|i: int|
            0 <= i < records.len() ==> saved(catalog, records).contains_key(
                (#[trigger] records[i]).path@,
            ) && saved(catalog, records)[records[i].path@] == records[i],
        forall|p: Seq<char>|
            (forall|i: int| 0 <= i < records.len() ==> (#[trigger] records[i]).path@ != p) ==> (
            #[trigger] saved(catalog, records).contains_key(p) == catalog.contains_key(p)) && (
            catalog.contains_key(p) ==> saved(catalog, records)[p] == catalog[p]),
    decreases records.len(),
{
    if records.len() > 0 {
        let fewer = records.drop_last();
        assert forall|i: int, j: int| 0 <= i < j < fewer.len() implies (#[trigger] fewer[i]).path@ != (
        #[trigger] fewer[j]).path@ by {
            assert(fewer[i] == records[i] && fewer[j] == records[j]);
        }
        lemma_saved(catalog, fewer);
        let all = saved(catalog, records);
        assert forall|i: int| 0 <= i < records.len() implies all.contains_key(
            (#[trigger] records[i]).path@,
        ) && all[records[i].path@] == records[i] by {
            if i < fewer.len() {
                assert(fewer[i] == records[i]);
                assert(records[i].path@ != records[records.len() - 1].path@);
            }
        }
        assert forall|p: Seq<char>|
            (forall|i: int| 0 <= i < records.len() ==> (#[trigger] records[i]).path@ != p) implies (
        #[trigger] all.contains_key(p) == catalog.contains_key(p)) && (catalog.contains_key(p)
            ==> all[p] == catalog[p]) by {
            assert(records[records.len() - 1].path@ != p);
            assert forall|i: int| 0 <= i < fewer.len() implies (#[trigger] fewer[i]).path@ != p by {
                assert(fewer[i] == records[i]);
            }
            assert(saved(catalog, fewer).contains_key(p) == catalog.contains_key(p));
        }
    }
}

/// Every candidate for which the catalog had no record is left to process.
proof fn lemma_unfound_is_pending(paths: Seq<String>, lookups: Seq<Lookup>, i: int)
    requires
        0 <= i < paths.len(),
        is_unfound(lookups, i),
    ensures
        unfound_paths(paths, lookups).contains(paths[i]),
    decreases paths.len(),
{
    let all = unfound_paths(paths, lookups);
    if i == paths.len() - 1 {
        assert(all[all.len() - 1] == paths[i]);
    } else {
        lemma_unfound_is_pending(paths.drop_last(), lookups, i);
        let before = unfound_paths(paths.drop_last(), lookups);
        let at = choose|k: int| 0 <= k < before.len() && before[k] == paths.drop_last()[i];
        assert(all[at] == paths[i]);
    }
}

/// The paths left to process are candidates in the order of the
/// candidates: each comes from a place behind that of the one before it.
proof fn lemma_pending_places(paths: Seq<String>, lookups: Seq<Lookup>) -> (places: Seq<int>)
    ensures
        places.len() == unfound_paths(paths, lookups).len(),
        forall|k: int|
            0 <= k < places.len() ==> 0 <= #[trigger] places[k] < paths.len() && is_unfound(
                lookups,
                places[k],
            ) && paths[places[k]] == unfound_paths(paths, lookups)[k],
        forall|k: int, l: int| 0 <= k < l < places.len() ==> #[trigger] places[k] < #[trigger] places[l],
    decreases paths.len(),
{
    if paths.len() == 0 {
        Seq::empty()
    } else {
        let before = lemma_pending_places(paths.drop_last(), lookups);
        if is_unfound(lookups, paths.len() - 1) {
            before.push(paths.len() - 1)
        } else {
            before
        }
    }
}

/// The two parts into which the catalog's answers split the candidates
/// make up the candidates.
proof fn lemma_split_sizes(paths: Seq<String>, lookups: Seq<Lookup>)
    requires
        lookups.len() == paths.len(),
    ensures
        found_records(lookups).len() + unfound_paths(paths, lookups).len() == paths.len(),
    decreases paths.len(),
{
    if paths.len() > 0 {
        let fewer = lookups.drop_last();
        lemma_split_sizes(paths.drop_last(), fewer);
        lemma_unfound_ignores_rest(paths.drop_last(), lookups, fewer);
        let pick = |l: Lookup| found_record(l);
        assert(found_records(lookups) == match found_record(lookups.last()) {
            Some(r) => fewer.filter_map(pick) + seq![r],
            None => fewer.filter_map(pick),
        });
    }
}

/// An import run twice. Take candidates with distinct paths and a catalog.
/// The first import makes a record for every candidate that the catalog
/// does not hold, and saves them. Then for a second import of the same
/// candidates the catalog has a record for every one of them, so nothing
/// is left to process; and the records that it finds are, one for one,
/// records that the first import handed back: those that the catalog held
/// before, unchanged, and those that the first import made.
pub proof fn lemma_import_twice(
    catalog: Map<Seq<char>, MediaRecord>,
    candidates: Seq<String>,
    made: Seq<Option<MediaRecord>>,
)
    requires
        distinct_paths(candidates),
        made_for(made, unfound_paths(candidates, answers(catalog, candidates))),
    ensures
        ({
            let first = answers(catalog, candidates);
            let handed_back = found_records(first) + present(made);
            let second = answers(saved(catalog, present(made)), candidates);
            &&& unfound_paths(candidates, second).len() == 0
            &&& found_records(second).len() == handed_back.len()
            &&& forall|i: int|
                0 <= i < found_records(second).len() ==> handed_back.contains(
                    #[trigger] found_records(second)[i],
                )
        }),
{
    let first = answers(catalog, candidates);
    let pending = unfound_paths(candidates, first);
    let fresh = present(made);
    let after = saved(catalog, fresh);
    let second = answers(after, candidates);
    let handed_back = found_records(first) + fresh;
    lemma_present_all(made);
    let places = lemma_pending_places(candidates, first);
    assert forall|k: int, l: int| 0 <= k < l < fresh.len() implies (#[trigger] fresh[k]).path@ != (
    #[trigger] fresh[l]).path@ by {
        assert(made[k] == Some(fresh[k]) && made[l] == Some(fresh[l]));
        assert(places[k] < places[l]);
        assert(candidates[places[k]]@ != candidates[places[l]]@);
    }
    lemma_saved(catalog, fresh);
    assert forall|i: int| 0 <= i < candidates.len() implies (#[trigger] second[i]) is Found
        && handed_back.contains(second[i]->Found_0) by {
        let path = candidates[i]@;
        if first[i] is Found {
            assert forall|k: int| 0 <= k < fresh.len() implies (#[trigger] fresh[k]).path@ != path by {
                assert(made[k] == Some(fresh[k]));
                assert(candidates[places[k]]@ == pending[k]@);
                if places[k] != i {
                    if places[k] < i {
                        assert(candidates[places[k]]@ != candidates[i]@);
                    } else {
                        assert(candidates[i]@ != candidates[places[k]]@);
                    }
                }
            }
            assert(after.contains_key(path) == catalog.contains_key(path));
            assert(after[path] == catalog[path]);
            lemma_found_is_kept(first, i);
            let at = choose|k: int|
                0 <= k < found_records(first).len() && found_records(first)[k] == first[i]->Found_0;
            assert(handed_back[at] == second[i]->Found_0);
        } else {
            lemma_unfound_is_pending(candidates, first, i);
            let k = choose|k: int| 0 <= k < pending.len() && pending[k] == candidates[i];
            assert(made[k] == Some(fresh[k]));
            assert(fresh[k].path@ == path);
            assert(after.contains_key(fresh[k].path@) && after[fresh[k].path@] == fresh[k]);
            assert(handed_back[found_records(first).len() + k] == fresh[k]);
        }
    }
    lemma_all_found(candidates, second);
    lemma_split_sizes(candidates, first);
    assert forall|i: int| 0 <= i < found_records(second).len() implies handed_back.contains(
        #[trigger] found_records(second)[i],
    ) by {
        assert(found_records(second)[i] == second[i]->Found_0);
    }
}

} // verus!
