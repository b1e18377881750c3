//! Merging a fresh application list with the stored records, by id.
use vstd::prelude::*;

use crate::record::{normal_lower_title, AppDescriptor, CachedAppDescriptor};

verus! {

broadcast use {
    vstd::seq_lib::group_to_multiset_ensures,
    vstd::multiset::group_multiset_axioms,
    vstd::multiset::lemma_multiset_empty_len,
};

/// Some entry of `apps` has the id `id`.
pub open spec fn has_id(apps: Seq<AppDescriptor>, id: Seq<char>) -> bool {
    exists|k: int| 0 <= k < apps.len() && (#[trigger] apps[k]).appid@ == id
}

/// The first entry of each id in `apps`, in their order: duplicates of an id
/// collapse to the first.
pub open spec fn first_of_each(apps: Seq<AppDescriptor>) -> Seq<AppDescriptor>
    decreases apps.len(),
{
    if apps.len() == 0 {
        Seq::empty()
    } else if has_id(apps.drop_last(), apps.last().appid@) {
        first_of_each(apps.drop_last())
    } else {
        first_of_each(apps.drop_last()).push(apps.last())
    }
}

/// `cached[j]` is the first stored record with the id `id`.
pub open spec fn first_match(cached: Seq<CachedAppDescriptor>, id: Seq<char>, j: int) -> bool {
    &&& 0 <= j < cached.len()
    &&& cached[j].appid@ == id
    &&& forall|k: int| 0 <= k < j ==> (#[trigger] cached[k]).appid@ != id
}

/// The stored record for an id, if there is one.
pub open spec fn stored_for(cached: Seq<CachedAppDescriptor>, id: Seq<char>) -> Option<
    CachedAppDescriptor,
> {
    if exists|j: int| first_match(cached, id, j) {
        Some(cached[choose|j: int| first_match(cached, id, j)])
    } else {
        None
    }
}

/// A launch count raised by one for the selected application.
pub open spec fn bumped(count: usize, selected: bool) -> usize {
    if selected && count < usize::MAX {
        (count + 1) as usize
    } else {
        count
    }
}

/// `r` is the merged record for the loader entry `app`: the entry's own
/// fields, the launch count carried over from the stored record (0 for a new
/// id) and raised by one where `app` is the selected application, and the
/// stored icon path and payload where the entry brings no path of its own.
pub open spec fn carried(
    r: CachedAppDescriptor,
    app: AppDescriptor,
    stored: Option<CachedAppDescriptor>,
    selected: Option<Seq<char>>,
) -> bool {
    let count = match stored {
        Some(c) => c.exec_count,
        None => 0,
    };
    &&& r.appid == app.appid
    &&& r.title == app.title
    &&& r.lower_title@ == normal_lower_title(app.title@, app.lower_title@)
    &&& r.command == app.command
    &&& r.icon_name == app.icon_name
    &&& r.exec_count == bumped(count, selected == Some(app.appid@))
    &&& if app.icon_path is Some {
        r.icon_path == app.icon_path && r.icon_data is None
    } else {
        match stored {
            Some(c) => r.icon_path == c.icon_path && r.icon_data == c.icon_data,
            None => r.icon_path is None && r.icon_data is None,
        }
    }
}

/// `merged` is the loader list `latest` merged with the stored records: one
/// record for each id of `latest`, in loader order; ids that the loader no
/// longer returns are gone.
pub open spec fn merged_from(
    merged: Seq<CachedAppDescriptor>,
    latest: Seq<AppDescriptor>,
    cached: Seq<CachedAppDescriptor>,
    selected: Option<Seq<char>>,
) -> bool {
    let firsts = first_of_each(latest);
    &&& merged.len() == firsts.len()
    &&& forall|i: int|
        0 <= i < merged.len() ==> carried(
            #[trigger] merged[i],
            firsts[i],
            stored_for(cached, firsts[i].appid@),
            selected,
        )
}

proof fn lemma_first_of_each_ids(apps: Seq<AppDescriptor>)
    ensures
        forall|id: Seq<char>|
            has_id(apps, id) <==> has_id(#[trigger] first_of_each(apps), id),
        forall|k: int|
            0 <= k < first_of_each(apps).len() ==> has_id(apps, (#[trigger] first_of_each(apps)[k]).appid@),
    decreases apps.len(),
{
    if apps.len() > 0 {
        let prev = apps.drop_last();
        lemma_first_of_each_ids(prev);
        assert forall|id: Seq<char>| has_id(apps, id) <==> has_id(#[trigger] first_of_each(apps), id) by {
            if has_id(apps, id) {
                let k = choose|k: int| 0 <= k < apps.len() && (#[trigger] apps[k]).appid@ == id;
                if k < apps.len() - 1 {
                    assert(prev[k] == apps[k]);
                    assert(has_id(prev, id));
                    let f = choose|f: int| 0 <= f < first_of_each(prev).len() && (#[trigger] first_of_each(prev)[f]).appid@ == id;
                    assert(first_of_each(apps)[f] == first_of_each(prev)[f]);
                } else if has_id(prev, apps.last().appid@) {
                    let f = choose|f: int| 0 <= f < first_of_each(prev).len() && (#[trigger] first_of_each(prev)[f]).appid@ == id;
                } else {
                    let n = first_of_each(prev).len() as int;
                    assert(first_of_each(apps)[n] == apps.last());
                }
            }
            if has_id(first_of_each(apps), id) {
                let f = choose|f: int| 0 <= f < first_of_each(apps).len() && (#[trigger] first_of_each(apps)[f]).appid@ == id;
                if f < first_of_each(prev).len() {
                    assert(first_of_each(apps)[f] == first_of_each(prev)[f]);
                    assert(has_id(prev, id));
                    let k = choose|k: int| 0 <= k < prev.len() && (#[trigger] prev[k]).appid@ == id;
                    assert(apps[k] == prev[k]);
                } else {
                    assert(apps[apps.len() - 1].appid@ == id);
                }
            }
        }
        assert forall|k: int| 0 <= k < first_of_each(apps).len() implies has_id(apps, (#[trigger] first_of_each(apps)[k]).appid@) by {
            let id = first_of_each(apps)[k].appid@;
            assert(has_id(first_of_each(apps), id));
        }
    }
}

proof fn lemma_first_match_unique(cached: Seq<CachedAppDescriptor>, id: Seq<char>, j: int)
    requires
        first_match(cached, id, j),
    ensures
        stored_for(cached, id) == Some(cached[j]),
{
    let c = choose|c: int| first_match(cached, id, c);
    if c < j {
        assert(cached[c].appid@ != id);
    } else if c > j {
        assert(cached[j].appid@ != id);
    }
}

/// Merges the loader's list with the stored records by id: each id keeps its
/// stored launch count and, where the loader gives no path, its stored icon;
/// the selected id's count is raised by one; duplicate loader entries of an id
/// collapse to the first; stored ids that the loader no longer returns are
/// dropped.
pub fn merge_snapshot(
    latest: Vec<AppDescriptor>,
    cached: Vec<CachedAppDescriptor>,
    selected: Option<&String>,
) -> (r: Vec<CachedAppDescriptor>)
    ensures
        merged_from(
            r@,
            latest@,
            cached@,
            match selected {
                Some(s) => Some(s@),
                None => None,
            },
        ),
{
    let ghost sel: Option<Seq<char>> = match selected {
        Some(s) => Some(s@),
        None => None,
    };
    let firsts = dedup_by_appid(latest);
    let ghost fs = firsts@;
    let found = match_stored(&firsts, cached);
    let mut rest = firsts;
    let mut matches = found;
    let mut out: Vec<CachedAppDescriptor> = Vec::new();
    while rest.len() > 0
        invariant
            out@.len() + rest@.len() == fs.len(),
            fs == first_of_each(latest@),
            rest@ == fs.skip(out@.len() as int),
            matches@ == found@.skip(out@.len() as int),
            found@.len() == fs.len(),
            forall|m: int| 0 <= m < fs.len() ==> #[trigger] found@[m] == stored_for(cached@, fs[m].appid@),
            sel == match selected {
                Some(s) => Some(s@),
                None => None,
            },
            forall|m: int|
                0 <= m < out@.len() ==> carried(
                    #[trigger] out@[m],
                    fs[m],
                    stored_for(cached@, fs[m].appid@),
                    sel,
                ),
        decreases rest.len(),
    {
        let ghost n = out@.len() as int;
        let app = rest.remove(0);
        let stored = matches.remove(0);
        assert(app == fs[n]);
        assert(stored == found@[n]);
        let (count, old_path, old_data) = match stored {
            Some(c) => (c.exec_count, c.icon_path, c.icon_data),
            None => (0, None, None),
        };
        let is_selected = match selected {
            Some(s) => app.appid == *s,
            None => false,
        };
        let exec_count = if is_selected && count < usize::MAX {
            count + 1
        } else {
            count
        };
        let AppDescriptor { appid, title, lower_title, command, icon_name, icon_path, .. } = app;
        // a path from the loader wins over the stored icon
        let (icon_path, icon_data) = if icon_path.is_some() {
            (icon_path, None)
        } else {
            (old_path, old_data)
        };
        let record = CachedAppDescriptor {
            appid,
            title,
            lower_title,
            command,
            exec_count,
            icon_name,
            icon_path,
            icon_data,
        }.normalize();
        out.push(record);
        assert(rest@ =~= fs.skip(out@.len() as int));
        assert(matches@ =~= found@.skip(out@.len() as int));
    }
    out
}

/// No two entries share an id.
pub open spec fn distinct_ids(apps: Seq<AppDescriptor>) -> bool {
    forall|i: int, j: int|
        0 <= i < j < apps.len() ==> (#[trigger] apps[i]).appid@ != (#[trigger] apps[j]).appid@
}

proof fn lemma_first_of_each_distinct(apps: Seq<AppDescriptor>)
    ensures
        distinct_ids(first_of_each(apps)),
    decreases apps.len(),
{
    if apps.len() > 0 {
        let prev = apps.drop_last();
        lemma_first_of_each_distinct(prev);
        lemma_first_of_each_ids(prev);
        if !has_id(prev, apps.last().appid@) {
            let f = first_of_each(apps);
            assert forall|i: int, j: int| 0 <= i < j < f.len() implies (#[trigger] f[i]).appid@
                != (#[trigger] f[j]).appid@ by {
                if j == f.len() - 1 {
                    assert(f[i] == first_of_each(prev)[i]);
                    if f[i].appid@ == f[j].appid@ {
                        assert(has_id(first_of_each(prev), apps.last().appid@));
                    }
                } else {
                    assert(f[i] == first_of_each(prev)[i]);
                    assert(f[j] == first_of_each(prev)[j]);
                }
            }
        }
    }
}

/// Keeps the first entry of each id, in order.
pub fn dedup_by_appid(apps: Vec<AppDescriptor>) -> (r: Vec<AppDescriptor>)
    ensures
        r@ == first_of_each(apps@),
        distinct_ids(r@),
{
    let ghost orig = apps@;
    let mut rest = apps;
    let mut out: Vec<AppDescriptor> = Vec::new();
    let ghost mut done: int = 0;
    while rest.len() > 0
        invariant
            0 <= done <= orig.len(),
            rest@ == orig.skip(done),
            out@ == first_of_each(orig.take(done)),
        decreases rest.len(),
    {
        let app = rest.remove(0);
        let ghost prefix = orig.take(done);
        assert(app == orig[done]);
        proof {
            lemma_first_of_each_ids(prefix);
        }
        let mut seen = false;
        let mut k: usize = 0;
        while k < out.len()
            invariant
                0 <= k <= out@.len(),
                out@ == first_of_each(prefix),
                seen == exists|i: int| 0 <= i < k && (#[trigger] out@[i]).appid@ == app.appid@,
            decreases out@.len() - k,
        {
            if out[k].appid == app.appid {
                seen = true;
            }
            k = k + 1;
        }
        assert(seen == has_id(first_of_each(prefix), app.appid@));
        let ghost next = orig.take(done + 1);
        assert(next.drop_last() =~= prefix);
        assert(next.last() == app);
        if !seen {
            out.push(app);
        }
        proof {
            done = done + 1;
        }
    }
    assert(orig.take(done) =~= orig);
    proof {
        lemma_first_of_each_distinct(orig);
    }
    out
}

/// For each entry of `apps`, the stored record of its id, if any.
pub fn match_stored(apps: &Vec<AppDescriptor>, cached: Vec<CachedAppDescriptor>) -> (r: Vec<
    Option<CachedAppDescriptor>,
>)
    requires
        distinct_ids(apps@),
    ensures
        r@.len() == apps@.len(),
        forall|i: int|
            0 <= i < apps@.len() ==> #[trigger] r@[i] == stored_for(cached@, apps@[i].appid@),
{
    let ghost stored = cached@;
    let mut slots: Vec<Option<CachedAppDescriptor>> = Vec::new();
    let mut rest = cached;
    assert(rest@ =~= stored.skip(0));
    while rest.len() > 0
        invariant
            slots@.len() + rest@.len() == stored.len(),
            forall|k: int| 0 <= k < slots@.len() ==> slots@[k] == Some(#[trigger] stored[k]),
            rest@ == stored.skip(slots@.len() as int),
        decreases rest.len(),
    {
        let c = rest.remove(0);
        assert(c == stored[slots@.len() as int]);
        slots.push(Some(c));
        assert(rest@ =~= stored.skip(slots@.len() as int));
    }
    let mut out: Vec<Option<CachedAppDescriptor>> = Vec::new();
    let mut i: usize = 0;
    while i < apps.len()
        invariant
            0 <= i <= apps@.len(),
            distinct_ids(apps@),
            slots@.len() == stored.len(),
            out@.len() == i,
            forall|k: int|
                0 <= k < stored.len() ==> match #[trigger] slots@[k] {
                    Some(c) => c == stored[k],
                    None => exists|m: int| 0 <= m < i && apps@[m].appid@ == stored[k].appid@,
                },
            forall|m: int| 0 <= m < i ==> #[trigger] out@[m] == stored_for(stored, apps@[m].appid@),
        decreases apps@.len() - i,
    {
        let id = &apps[i].appid;
        let mut j: usize = 0;
        let mut found = false;
        while j < slots.len() && !found
            invariant
                0 <= i < apps@.len(),
                id == apps@[i as int].appid,
                distinct_ids(apps@),
                slots@.len() == stored.len(),
                0 <= j <= slots@.len(),
                forall|k: int| 0 <= k < j ==> (#[trigger] stored[k]).appid@ != id@,
                forall|k: int|
                    0 <= k < stored.len() ==> match #[trigger] slots@[k] {
                        Some(c) => c == stored[k],
                        None => exists|m: int| 0 <= m < i && apps@[m].appid@ == stored[k].appid@,
                    },
                found ==> j < slots@.len() && first_match(stored, id@, j as int) && slots@[j as int]
                    == Some(stored[j as int]),
            decreases slots@.len() - j + (if found { 0int } else { 1int }),
        {
            let hit = match &slots[j] {
                Some(c) => c.appid == *id,
                None => false,
            };
            proof {
                if slots@[j as int] is None {
                    let m = choose|m: int| 0 <= m < i && apps@[m].appid@ == stored[j as int].appid@;
                    assert(apps@[m].appid@ != apps@[i as int].appid@);
                }
            }
            if hit {
                found = true;
            } else {
                j = j + 1;
            }
        }
        if found {
            let taken = slots.remove(j);
            slots.insert(j, None);
            proof {
                lemma_first_match_unique(stored, id@, j as int);
            }
            out.push(taken);
        } else {
            assert(!exists|x: int| first_match(stored, id@, x));
            out.push(None);
        }
        i = i + 1;
    }
    out
}

/// The launch count of a stored record, 0 where there is none.
pub open spec fn count_of(stored: Option<CachedAppDescriptor>) -> usize {
    match stored {
        Some(c) => c.exec_count,
        None => 0,
    }
}

proof fn lemma_snapshot_member(
    r: Seq<CachedAppDescriptor>,
    m: Seq<CachedAppDescriptor>,
    i: int,
) -> (j: int)
    requires
        r.to_multiset() == m.to_multiset(),
        0 <= i < r.len(),
    ensures
        0 <= j < m.len(),
        m[j] == r[i],
{
    assert(r.contains(r[i]));
    assert(r.to_multiset().count(r[i]) > 0);
    assert(m.contains(r[i]));
    choose|j: int| 0 <= j < m.len() && m[j] == r[i]
}

/// A launch of the id `x` raises the stored launch count of `x` by one and
/// leaves every other id at its stored count (0 for an id not stored before);
/// `x` stays in the snapshot where the loader still returns it.
pub proof fn lemma_update_counts(
    r: Seq<CachedAppDescriptor>,
    merged: Seq<CachedAppDescriptor>,
    latest: Seq<AppDescriptor>,
    cached: Seq<CachedAppDescriptor>,
    x: Seq<char>,
)
    requires
        merged_from(merged, latest, cached, Some(x)),
        r.to_multiset() == merged.to_multiset(),
    ensures
        forall|i: int|
            0 <= i < r.len() ==> (#[trigger] r[i]).exec_count == bumped(
                count_of(stored_for(cached, r[i].appid@)),
                r[i].appid@ == x,
            ),
        has_id(latest, x) ==> exists|i: int| 0 <= i < r.len() && (#[trigger] r[i]).appid@ == x,
{
    let firsts = first_of_each(latest);
    assert forall|i: int| 0 <= i < r.len() implies (#[trigger] r[i]).exec_count == bumped(
        count_of(stored_for(cached, r[i].appid@)),
        r[i].appid@ == x,
    ) by {
        let j = lemma_snapshot_member(r, merged, i);
        assert(carried(merged[j], firsts[j], stored_for(cached, firsts[j].appid@), Some(x)));
    }
    if has_id(latest, x) {
        lemma_first_of_each_ids(latest);
        let j = choose|j: int| 0 <= j < firsts.len() && (#[trigger] firsts[j]).appid@ == x;
        assert(carried(merged[j], firsts[j], stored_for(cached, firsts[j].appid@), Some(x)));
        assert(merged.contains(merged[j]));
        assert(r.to_multiset().count(merged[j]) > 0);
        assert(r.contains(merged[j]));
        let i = choose|i: int| 0 <= i < r.len() && r[i] == merged[j];
        assert(r[i].appid@ == x);
    }
}

/// After a merge, the snapshot holds no record of an id that the loader no
/// longer returns, and at most one record of each id.
pub proof fn lemma_merge_purges(
    r: Seq<CachedAppDescriptor>,
    merged: Seq<CachedAppDescriptor>,
    latest: Seq<AppDescriptor>,
    cached: Seq<CachedAppDescriptor>,
    selected: Option<Seq<char>>,
    gone: Seq<char>,
)
    requires
        merged_from(merged, latest, cached, selected),
        r.to_multiset() == merged.to_multiset(),
        !has_id(latest, gone),
    ensures
        forall|i: int| 0 <= i < r.len() ==> (#[trigger] r[i]).appid@ != gone,
{
    let firsts = first_of_each(latest);
    lemma_first_of_each_ids(latest);
    assert forall|i: int| 0 <= i < r.len() implies (#[trigger] r[i]).appid@ != gone by {
        let j = lemma_snapshot_member(r, merged, i);
        assert(carried(merged[j], firsts[j], stored_for(cached, firsts[j].appid@), selected));
        assert(has_id(latest, firsts[j].appid@));
    }
}

/// A merge gives one record per id.
pub proof fn lemma_merge_one_per_id(
    merged: Seq<CachedAppDescriptor>,
    latest: Seq<AppDescriptor>,
    cached: Seq<CachedAppDescriptor>,
    selected: Option<Seq<char>>,
)
    requires
        merged_from(merged, latest, cached, selected),
    ensures
        forall|i: int, j: int|
            0 <= i < j < merged.len() ==> (#[trigger] merged[i]).appid@ != (#[trigger] merged[j]).appid@,
{
    let firsts = first_of_each(latest);
    lemma_first_of_each_distinct(latest);
    assert forall|i: int, j: int| 0 <= i < j < merged.len() implies (#[trigger] merged[i]).appid@
        != (#[trigger] merged[j]).appid@ by {
        assert(carried(merged[i], firsts[i], stored_for(cached, firsts[i].appid@), selected));
        assert(carried(merged[j], firsts[j], stored_for(cached, firsts[j].appid@), selected));
    }
}


} // verus!
