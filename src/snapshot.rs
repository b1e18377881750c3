//! What each kind of snapshot write stores, and what a read shows.
use vstd::prelude::*;

use crate::icon::{icon_from_file, icon_resolution, lookup_theme_icon, populate_icon_data};
use crate::merge::{dedup_by_appid, first_of_each, match_stored, merge_snapshot, merged_from, stored_for};
use crate::order::{is_ranked, sort_snapshot};
use crate::record::{describes, stores, AppDescriptor, CachedAppDescriptor};

verus! {

broadcast use {
    vstd::seq_lib::group_to_multiset_ensures,
    vstd::multiset::group_multiset_axioms,
    vstd::multiset::lemma_multiset_empty_len,
};

/// `r` is the record stored for `app`: the descriptor as given, with the payload
/// of the stored record of its id where that has one, else what the
/// descriptor's icon file gives.
pub open spec fn stored_entry<R: Fn(&String) -> Option<Vec<u8>>>(
    r: CachedAppDescriptor,
    app: AppDescriptor,
    stored: Option<CachedAppDescriptor>,
    read_file: R,
) -> bool {
    &&& stores(r, app, r.icon_data)
    &&& match stored {
        Some(c) if c.icon_data is Some => r.icon_data == c.icon_data,
        _ => match app.icon_path {
            None => r.icon_data is None,
            Some(p) => icon_from_file(read_file, p, r.icon_data),
        },
    }
}

/// The records for a list of descriptors stored as they are, one per id,
/// reusing the stored payload of each id.
pub fn store_records<R: Fn(&String) -> Option<Vec<u8>>>(
    apps: Vec<AppDescriptor>,
    cached: Vec<CachedAppDescriptor>,
    read_file: &R,
) -> (r: Vec<CachedAppDescriptor>)
    requires
        forall|p: &String| read_file.requires((p,)),
    ensures
        r@.len() == first_of_each(apps@).len(),
        forall|i: int|
            0 <= i < r@.len() ==> stored_entry(
                #[trigger] r@[i],
                first_of_each(apps@)[i],
                stored_for(cached@, first_of_each(apps@)[i].appid@),
                *read_file,
            ),
{
    let firsts = dedup_by_appid(apps);
    let ghost fs = firsts@;
    let found = match_stored(&firsts, cached);
    let mut rest = firsts;
    let mut matches = found;
    let mut out: Vec<CachedAppDescriptor> = Vec::new();
    while rest.len() > 0
        invariant
            out@.len() + rest@.len() == fs.len(),
            rest@ == fs.skip(out@.len() as int),
            matches@ == found@.skip(out@.len() as int),
            found@.len() == fs.len(),
            forall|m: int| 0 <= m < fs.len() ==> #[trigger] found@[m] == stored_for(cached@, fs[m].appid@),
            forall|p: &String| read_file.requires((p,)),
            forall|m: int|
                0 <= m < out@.len() ==> stored_entry(
                    #[trigger] out@[m],
                    fs[m],
                    stored_for(cached@, fs[m].appid@),
                    *read_file,
                ),
        decreases rest.len(),
    {
        let ghost n = out@.len() as int;
        let app = rest.remove(0);
        let stored = matches.remove(0);
        assert(app == fs[n]);
        assert(stored == found@[n]);
        let icon = match stored {
            Some(c) => c.icon_data,
            None => None,
        };
        let record = CachedAppDescriptor::from_app_descriptor(app, icon, read_file);
        out.push(record);
        assert(rest@ =~= fs.skip(out@.len() as int));
        assert(matches@ =~= found@.skip(out@.len() as int));
    }
    out
}

/// `r` is the record built for `app` with its icon resolved: the descriptor
/// as given with the payload of its icon file, then one resolution step.
pub open spec fn built_entry<L: Fn(&String) -> Option<String>, R: Fn(&String) -> Option<Vec<u8>>>(
    r: CachedAppDescriptor,
    app: AppDescriptor,
    lookup: L,
    read_file: R,
) -> bool {
    exists|base: CachedAppDescriptor, changed: bool|
        #[trigger] stored_entry(base, app, None, read_file) && #[trigger] icon_resolution(
            base,
            r,
            changed,
            lookup,
            read_file,
        )
}

/// The records for a list of descriptors, one per id, each with its icon
/// resolved where it can be. A record whose icon cannot be resolved is kept
/// without a payload.
pub fn build_records<L, R>(apps: Vec<AppDescriptor>, lookup: &L, read_file: &R) -> (r: Vec<
    CachedAppDescriptor,
>) where L: Fn(&String) -> Option<String>, R: Fn(&String) -> Option<Vec<u8>>,

    requires
        forall|n: &String| lookup.requires((n,)),
        forall|p: &String| read_file.requires((p,)),
    ensures
        r@.len() == first_of_each(apps@).len(),
        forall|i: int|
            0 <= i < r@.len() ==> built_entry(
                #[trigger] r@[i],
                first_of_each(apps@)[i],
                *lookup,
                *read_file,
            ),
{
    let firsts = dedup_by_appid(apps);
    let ghost fs = firsts@;
    let mut rest = firsts;
    let mut out: Vec<CachedAppDescriptor> = Vec::new();
    while rest.len() > 0
        invariant
            out@.len() + rest@.len() == fs.len(),
            rest@ == fs.skip(out@.len() as int),
            forall|n: &String| lookup.requires((n,)),
            forall|p: &String| read_file.requires((p,)),
            forall|m: int|
                0 <= m < out@.len() ==> built_entry(#[trigger] out@[m], fs[m], *lookup, *read_file),
        decreases rest.len(),
    {
        let ghost n = out@.len() as int;
        let app = rest.remove(0);
        assert(app == fs[n]);
        let mut record = CachedAppDescriptor::from_app_descriptor(app, None, read_file);
        let ghost base = record;
        let changed = populate_icon_data(&mut record, lookup, read_file);
        assert(stored_entry(base, fs[n], None, *read_file));
        assert(icon_resolution(base, record, changed, *lookup, *read_file));
        out.push(record);
        assert(rest@ =~= fs.skip(out@.len() as int));
    }
    out
}

/// The snapshot after a refresh: the loader's list merged with the stored
/// records, in stored order.
pub fn refresh_snapshot(latest: Vec<AppDescriptor>, cached: Vec<CachedAppDescriptor>) -> (r: Vec<
    CachedAppDescriptor,
>)
    ensures
        is_ranked(r@),
        exists|m: Seq<CachedAppDescriptor>|
            merged_from(m, latest@, cached@, None) && r@.to_multiset() == #[trigger] m.to_multiset(),
{
    let merged = merge_snapshot(latest, cached, None);
    sort_snapshot(merged)
}

/// The snapshot after `selected` was launched: as after a refresh, with the
/// launch count of the selected id raised by one.
pub fn update_snapshot(
    latest: Vec<AppDescriptor>,
    cached: Vec<CachedAppDescriptor>,
    selected: &AppDescriptor,
) -> (r: Vec<CachedAppDescriptor>)
    ensures
        is_ranked(r@),
        exists|m: Seq<CachedAppDescriptor>|
            merged_from(m, latest@, cached@, Some(selected.appid@)) && r@.to_multiset()
                == #[trigger] m.to_multiset(),
{
    let merged = merge_snapshot(latest, cached, Some(&selected.appid));
    sort_snapshot(merged)
}

/// The snapshot of a list of descriptors stored as they are, in stored order.
pub fn store_snapshot<R: Fn(&String) -> Option<Vec<u8>>>(
    apps: Vec<AppDescriptor>,
    cached: Vec<CachedAppDescriptor>,
    read_file: &R,
) -> (r: Vec<CachedAppDescriptor>)
    requires
        forall|p: &String| read_file.requires((p,)),
    ensures
        is_ranked(r@),
        exists|m: Seq<CachedAppDescriptor>|
            #![trigger m.to_multiset()]
            {
                &&& m.len() == first_of_each(apps@).len()
                &&& forall|i: int|
                    0 <= i < m.len() ==> stored_entry(
                        #[trigger] m[i],
                        first_of_each(apps@)[i],
                        stored_for(cached@, first_of_each(apps@)[i].appid@),
                        *read_file,
                    )
                &&& r@.to_multiset() == m.to_multiset()
            },
{
    let records = store_records(apps, cached, read_file);
    sort_snapshot(records)
}

/// The snapshot of a list of descriptors with their icons resolved, in stored order.
pub fn build_snapshot_with_icons<L, R>(apps: Vec<AppDescriptor>, lookup: &L, read_file: &R) -> (r:
    Vec<CachedAppDescriptor>) where L: Fn(&String) -> Option<String>, R: Fn(&String) -> Option<Vec<u8>>,

    requires
        forall|n: &String| lookup.requires((n,)),
        forall|p: &String| read_file.requires((p,)),
    ensures
        is_ranked(r@),
        exists|m: Seq<CachedAppDescriptor>|
            #![trigger m.to_multiset()]
            {
                &&& m.len() == first_of_each(apps@).len()
                &&& forall|i: int|
                    0 <= i < m.len() ==> built_entry(
                        #[trigger] m[i],
                        first_of_each(apps@)[i],
                        *lookup,
                        *read_file,
                    )
                &&& r@.to_multiset() == m.to_multiset()
            },
{
    let records = build_records(apps, lookup, read_file);
    sort_snapshot(records)
}

/// The snapshot of a list of descriptors with their icons resolved through the
/// installed icon themes, in stored order.
pub fn build_snapshot_from_theme<R: Fn(&String) -> Option<Vec<u8>>>(
    apps: Vec<AppDescriptor>,
    read_file: &R,
) -> (r: Vec<CachedAppDescriptor>)
    requires
        forall|p: &String| read_file.requires((p,)),
    ensures
        is_ranked(r@),
        exists|m: Seq<CachedAppDescriptor>|
            #![trigger m.to_multiset()]
            {
                &&& m.len() == first_of_each(apps@).len()
                &&& forall|i: int|
                    0 <= i < m.len() ==> built_entry(
                        #[trigger] m[i],
                        first_of_each(apps@)[i],
                        lookup_theme_icon,
                        *read_file,
                    )
                &&& r@.to_multiset() == m.to_multiset()
            },
{
    build_snapshot_with_icons(apps, &lookup_theme_icon, read_file)
}

/// The descriptors that the first `limit` stored records read back as.
pub fn listing(records: Vec<CachedAppDescriptor>, limit: usize) -> (r: Vec<AppDescriptor>)
    ensures
        r@.len() == if limit < records@.len() {
            limit as int
        } else {
            records@.len() as int
        },
        forall|i: int| 0 <= i < r@.len() ==> describes(#[trigger] r@[i], records@[i]),
{
    let ghost orig = records@;
    let mut rest = records;
    let mut out: Vec<AppDescriptor> = Vec::new();
    while rest.len() > 0 && out.len() < limit
        invariant
            out@.len() + rest@.len() == orig.len(),
            out@.len() <= limit,
            rest@ == orig.skip(out@.len() as int),
            forall|m: int| 0 <= m < out@.len() ==> describes(#[trigger] out@[m], orig[m]),
        decreases rest.len(),
    {
        let record = rest.remove(0);
        assert(record == orig[out@.len() as int]);
        out.push(record.into_app_descriptor());
        assert(rest@ =~= orig.skip(out@.len() as int));
    }
    out
}


/// What a read of the first `count` stored records shows, given the records
/// read and whether the store holds nothing: their descriptors where anything
/// is stored, nothing where nothing is asked for; `None` where the store is
/// empty and the loader has to be asked.
pub fn cached_listing(records: Vec<CachedAppDescriptor>, store_empty: bool, count: usize) -> (r:
    Option<Vec<AppDescriptor>>)
    ensures
        records@.len() > 0 || !store_empty ==> (r matches Some(v) && v@.len() == (if count
            < records@.len() {
            count as int
        } else {
            records@.len() as int
        }) && forall|i: int| 0 <= i < v@.len() ==> describes(#[trigger] v@[i], records@[i])),
        records@.len() == 0 && store_empty && count == 0 ==> (r matches Some(v) && v@.len() == 0),
        records@.len() == 0 && store_empty && count > 0 ==> r is None,
{
    if records.len() > 0 || !store_empty {
        Some(listing(records, count))
    } else if count == 0 {
        Some(Vec::new())
    } else {
        None
    }
}

/// The first `count` descriptors that the loader gave, shown as they are
/// where they could not be stored.
pub fn loader_listing(apps: Vec<AppDescriptor>, count: usize) -> (r: Vec<AppDescriptor>)
    ensures
        r@ == apps@.take(if count < apps@.len() {
            count as int
        } else {
            apps@.len() as int
        }),
{
    let ghost orig = apps@;
    let mut rest = apps;
    let mut out: Vec<AppDescriptor> = Vec::new();
    while rest.len() > 0 && out.len() < count
        invariant
            out@.len() + rest@.len() == orig.len(),
            out@.len() <= count,
            rest@ == orig.skip(out@.len() as int),
            out@ == orig.take(out@.len() as int),
        decreases rest.len(),
    {
        let app = rest.remove(0);
        assert(app == orig[out@.len() as int]);
        out.push(app);
        assert(rest@ =~= orig.skip(out@.len() as int));
        assert(out@ =~= orig.take(out@.len() as int));
    }
    out
}

} // verus!
