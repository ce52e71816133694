//! What holds of the lifecycle of collections and indexes, whatever the catalog.

use crate::catalog::{in_collection, is_collection, is_index, lemma_run_one, CatalogV};
use crate::conn::{
    create_collection_steps, create_index_outcome, drop_collection_steps, drop_index_steps,
    drop_indexes_from, id_index, new_index_steps, rename_outcome, reserved,
};
use crate::error::{Error, ErrorKind};
use crate::index::IndexInfoV;
use crate::plan::StepV;
use crate::seqs::{
    count, lemma_count_none, lemma_first_where, lemma_first_where_exists, lemma_without, without,
};
use crate::text::name_parts;
use crate::value::Val;
use vstd::prelude::*;

verus! {

/// How many records the catalog has of a collection.
pub open spec fn records_of(c: CatalogV, db: Seq<char>, coll: Seq<char>) -> nat {
    count(c.collections, is_collection(db, coll))
}

/// Steps that make an index leave the records of the collections as they are.
proof fn lemma_new_index_keeps_collections(c: CatalogV, info: IndexInfoV)
    ensures
        c.run(new_index_steps(info)).collections == c.collections,
{
    let s = new_index_steps(info);
    assert(s.drop_last().drop_last() =~= seq![s[0]]);
    lemma_run_one(c, s[0]);
    assert(s.drop_last().last() == s[1]);
    assert(c.run(s.drop_last()) == c.run(s.drop_last().drop_last()).apply(s[1]));
}

/// The catalog after a collection was made sure of: it has the records it had and, where
/// the collection was missing, one for it at the end.
pub proof fn lemma_create_collection_records(
    c: CatalogV,
    db: Seq<char>,
    coll: Seq<char>,
    options: Val,
)
    ensures
        c.run(create_collection_steps(c, db, coll, options)).collections == if c.has_collection(
            db,
            coll,
        ) {
            c.collections
        } else {
            c.collections.push(crate::catalog::CollectionV { db, coll, options })
        },
{
    let s = create_collection_steps(c, db, coll, options);
    if !c.has_collection(db, coll) {
        let head = seq![StepV::InsertCollection { db, coll, options }, StepV::CreateDocs { db, coll }];
        assert(head.drop_last() =~= seq![head[0]]);
        lemma_run_one(c, head[0]);
        assert(c.run(head) == c.run(head.drop_last()).apply(head[1]));
        if auto_index_wanted(c, db, coll, options) {
            crate::catalog::lemma_run_concat(c, head, new_index_steps(id_index(db, coll)));
            lemma_new_index_keeps_collections(c.run(head), id_index(db, coll));
        } else {
            assert(head + Seq::<StepV>::empty() =~= head);
        }
    }
}

/// Whether making the collection makes its index on `_id` too.
pub open spec fn auto_index_wanted(c: CatalogV, db: Seq<char>, coll: Seq<char>, options: Val) -> bool {
    crate::conn::auto_index(options) && !c.has_index(db, coll, "_id_"@)
}

/// Creating a collection is idempotent. Once a collection that was missing has been
/// created, the catalog has exactly one record of it, and creating it again, with whatever
/// options, finds it there: the second creation answers that nothing was made, takes no
/// step, and leaves the catalog as it is.
pub proof fn lemma_create_collection_twice(
    c: CatalogV,
    db: Seq<char>,
    coll: Seq<char>,
    options: Val,
    again: Val,
)
    requires
        !c.has_collection(db, coll),
    ensures
        ({
            let c1 = c.run(create_collection_steps(c, db, coll, options));
            &&& c1.has_collection(db, coll)
            &&& records_of(c1, db, coll) == 1
            &&& create_collection_steps(c1, db, coll, again) == Seq::<StepV>::empty()
            &&& c1.run(create_collection_steps(c1, db, coll, again)) == c1
        }),
{
    let c1 = c.run(create_collection_steps(c, db, coll, options));
    lemma_create_collection_records(c, db, coll, options);
    let row = crate::catalog::CollectionV { db, coll, options };
    let p = is_collection(db, coll);
    assert(c1.collections.drop_last() =~= c.collections);
    assert(c1.collections.last() == row);
    assert(p(row));
    lemma_first_where(c.collections, p);
    lemma_count_none(c.collections, p);
    lemma_first_where(c1.collections, p);
    assert(c1.collections[c1.collections.len() - 1] == row);
}

/// A conflict leaves everything as it is. Where the collection is there and has an index
/// of the given name with other keys, creating the index fails as a conflict, takes no
/// step, and leaves the catalog as it is: neither the record nor the table of the index
/// that is there is touched.
pub proof fn lemma_conflict_changes_nothing(c: CatalogV, info: IndexInfoV, rows: Seq<(i64, Val)>)
    requires
        c.has_collection(info.db, info.coll),
        c.has_index(info.db, info.coll, info.name),
        c.index(info.db, info.coll, info.name).spec != info.spec,
    ensures
        create_index_outcome(c, info, rows).0 == Err::<bool, Error>(Error::IndexConflict),
        Error::IndexConflict.spec_kind() == ErrorKind::Conflict,
        create_index_outcome(c, info, rows).1 == Seq::<StepV>::empty(),
        c.run(create_index_outcome(c, info, rows).1) == c,
{
}

/// An index of the given name with the same keys is left as it is: creating it again
/// answers that nothing was made and takes no step.
pub proof fn lemma_same_index_again(c: CatalogV, info: IndexInfoV, rows: Seq<(i64, Val)>)
    requires
        c.has_collection(info.db, info.coll),
        c.has_index(info.db, info.coll, info.name),
        c.index(info.db, info.coll, info.name).spec == info.spec,
    ensures
        create_index_outcome(c, info, rows).0 == Ok::<bool, Error>(false),
        create_index_outcome(c, info, rows).1 == Seq::<StepV>::empty(),
{
}

/// Dropping one index leaves the records of the collections and of all other indexes.
proof fn lemma_drop_index_effect(c: CatalogV, db: Seq<char>, coll: Seq<char>, name: Seq<char>)
    ensures
        c.run(drop_index_steps(c, db, coll, name)).collections == c.collections,
        c.run(drop_index_steps(c, db, coll, name)).indexes == if c.has_index(db, coll, name) {
            without(c.indexes, is_index(db, coll, name))
        } else {
            c.indexes
        },
{
    let s = drop_index_steps(c, db, coll, name);
    if c.has_index(db, coll, name) {
        assert(s.drop_last() =~= seq![s[0]]);
        lemma_run_one(c, s[0]);
        assert(c.run(s) == c.run(s.drop_last()).apply(s[1]));
    }
}

/// Dropping the indexes of a collection leaves the records of the collections, and drops
/// the table of every index of the collection that is listed and recorded.
proof fn lemma_drop_indexes(
    c: CatalogV,
    list: Seq<IndexInfoV>,
    i: nat,
    db: Seq<char>,
    coll: Seq<char>,
)
    ensures
        c.run(drop_indexes_from(c, list, i, db, coll)).collections == c.collections,
        forall|j: int|
            i <= j < list.len() && list[j].db == db && list[j].coll == coll && c.has_index(
                db,
                coll,
                list[j].name,
            ) ==> drop_indexes_from(c, list, i, db, coll).contains(
                StepV::DropIndexTable { db, coll, name: #[trigger] list[j].name },
            ),
    decreases list.len() - i,
{
    if i < list.len() {
        let x = list[i as int];
        let s = if x.db == db && x.coll == coll {
            drop_index_steps(c, x.db, x.coll, x.name)
        } else {
            Seq::empty()
        };
        let c1 = c.run(s);
        let rest = drop_indexes_from(c1, list, i + 1, db, coll);
        let all = drop_indexes_from(c, list, i, db, coll);
        assert(all == s + rest);
        lemma_drop_index_effect(c, x.db, x.coll, x.name);
        lemma_drop_indexes(c1, list, i + 1, db, coll);
        crate::catalog::lemma_run_concat(c, s, rest);
        assert forall|j: int|
            i <= j < list.len() && list[j].db == db && list[j].coll == coll && c.has_index(
                db,
                coll,
                list[j].name,
            ) implies all.contains(
            StepV::DropIndexTable { db, coll, name: #[trigger] list[j].name },
        ) by {
            let want = StepV::DropIndexTable { db, coll, name: list[j].name };
            if x.db == db && x.coll == coll && x.name == list[j].name {
                assert(s[1] == want);
                assert(all[1] == want);
            } else {
                if x.db == db && x.coll == coll && c.has_index(db, coll, x.name) {
                    let p = is_index(db, coll, list[j].name);
                    lemma_first_where_exists(c.indexes, p);
                    let k = choose|k: int| 0 <= k < c.indexes.len() && p(#[trigger] c.indexes[k]);
                    let y = c.indexes[k];
                    assert(c.indexes.contains(y));
                    assert(!is_index(db, coll, x.name)(y));
                    lemma_without(c.indexes, is_index(db, coll, x.name));
                    assert(c1.indexes.contains(y));
                    let m = choose|m: int| 0 <= m < c1.indexes.len() && c1.indexes[m] == y;
                    assert(p(c1.indexes[m]));
                    lemma_first_where_exists(c1.indexes, p);
                }
                assert(c1.has_index(db, coll, list[j].name));
                assert(rest.contains(want));
                let m = choose|m: int| 0 <= m < rest.len() && rest[m] == want;
                assert(all[s.len() + m] == want);
            }
        }
    }
}

/// Dropping a collection takes its indexes along. After a collection was dropped, the
/// catalog has no record of it and no record of an index of it. The steps end with the
/// drop of its documents table, and before that drop the table of every index that the
/// collection had.
pub proof fn lemma_drop_cascades(c: CatalogV, db: Seq<char>, coll: Seq<char>)
    requires
        c.has_collection(db, coll),
    ensures
        ({
            let steps = drop_collection_steps(c, db, coll);
            let after = c.run(steps);
            &&& !after.has_collection(db, coll)
            &&& forall|name: Seq<char>| !#[trigger] after.has_index(db, coll, name)
            &&& forall|i: int|
                0 <= i < after.indexes.len() ==> !((#[trigger] after.indexes[i]).db == db
                    && after.indexes[i].coll == coll)
            &&& steps.last() == StepV::DropDocs { db, coll }
            &&& forall|name: Seq<char>| #[trigger]
                c.has_index(db, coll, name) ==> steps.drop_last().contains(
                    StepV::DropIndexTable { db, coll, name },
                )
        }),
{
    let drops = drop_indexes_from(c, c.indexes, 0, db, coll);
    let tail = seq![StepV::DeleteCollection { db, coll }, StepV::DropDocs { db, coll }];
    let steps = drop_collection_steps(c, db, coll);
    let after = c.run(steps);
    assert(steps == drops + tail);
    let mid = c.run(drops);
    crate::catalog::lemma_run_concat(c, drops, tail);
    assert(tail.drop_last() =~= seq![tail[0]]);
    lemma_run_one(mid, tail[0]);
    assert(mid.run(tail) == mid.run(tail.drop_last()).apply(tail[1]));
    assert(after.collections == without(mid.collections, is_collection(db, coll)));
    assert(after.indexes == without(mid.indexes, in_collection(db, coll)));
    lemma_without(mid.collections, is_collection(db, coll));
    lemma_without(mid.indexes, in_collection(db, coll));
    assert forall|i: int| 0 <= i < after.indexes.len() implies !((#[trigger] after.indexes[i]).db
        == db && after.indexes[i].coll == coll) by {
        assert(after.indexes.contains(after.indexes[i]));
        assert(!in_collection(db, coll)(after.indexes[i]));
    }
    assert forall|name: Seq<char>| !#[trigger] after.has_index(db, coll, name) by {
        lemma_first_where_exists(after.indexes, is_index(db, coll, name));
    }
    lemma_drop_indexes(c, c.indexes, 0, db, coll);
    assert forall|name: Seq<char>| #[trigger]
        c.has_index(db, coll, name) implies steps.drop_last().contains(
        StepV::DropIndexTable { db, coll, name },
    ) by {
        let p = is_index(db, coll, name);
        lemma_first_where_exists(c.indexes, p);
        let k = choose|k: int| 0 <= k < c.indexes.len() && p(#[trigger] c.indexes[k]);
        let want = StepV::DropIndexTable { db, coll, name: c.indexes[k].name };
        assert(drops.contains(want));
        let m = choose|m: int| 0 <= m < drops.len() && drops[m] == want;
        assert(steps.drop_last()[m] == want);
    }
}

/// A rename to or from a reserved system collection is refused as a conflict and takes no
/// step; `system.users` is exempt.
pub proof fn lemma_system_rename(
    c: CatalogV,
    old_name: Seq<char>,
    new_name: Seq<char>,
    drop_target: bool,
)
    requires
        name_parts(old_name) is Some,
        name_parts(new_name) is Some,
    ensures
        (reserved((name_parts(old_name)->0).1) || reserved((name_parts(new_name)->0).1)) ==> {
            &&& rename_outcome(c, old_name, new_name, drop_target).0 == Err::<bool, Error>(
                Error::SystemRename,
            )
            &&& rename_outcome(c, old_name, new_name, drop_target).1 == Seq::<StepV>::empty()
        },
        !(reserved((name_parts(old_name)->0).1) || reserved((name_parts(new_name)->0).1))
            ==> rename_outcome(c, old_name, new_name, drop_target).0 is Ok,
        Error::SystemRename.spec_kind() == ErrorKind::Conflict,
{
}

} // verus!
