//! What holds of the store across operations, stated over the [`Disk`] model
//! and the plans that save and delete hand out.
use vstd::prelude::*;
use vstd::set::axiom_set_remove_len;
use vstd::utf8::{decode_utf8, encode_utf8, encode_utf8_decode_utf8};

use crate::codec::record_bytes;
use crate::engine::{
    apply, apply_all, delete_steps, indexed, is_first_match, loaded, located, save_steps,
    target_dir, Disk, Step,
};
use crate::layout::{
    cluster_dir, decimal, index_dir, index_path, join, metadata_name, ordinal_name, vectors_dir,
};

verus! {

/// The cluster directory that the index entry of `id` names.
pub open spec fn entry_dir(d: Disk, root: Seq<char>, id: Seq<char>) -> Seq<char> {
    decode_utf8(d.files[index_path(root, id)])
}

/// Whether `p` is a member file: a file other than the representative in a
/// cluster directory.
pub open spec fn is_member_path(root: Seq<char>, p: Seq<char>) -> bool {
    exists|dir: Seq<char>, leaf: Seq<char>|
        in_vectors(root, dir) && p == #[trigger] join(dir, leaf) && leaf != metadata_name()
}

/// The member files of the store.
pub open spec fn members(d: Disk, root: Seq<char>) -> Set<Seq<char>> {
    d.files.dom().filter(|p: Seq<char>| is_member_path(root, p))
}

/// Whether a step writes or removes the file `q`.
pub open spec fn touches(s: Step, q: Seq<char>) -> bool {
    match s {
        Step::CreateDir(_) => false,
        Step::WriteFile(p, _) => p == q,
        Step::RemoveFile(p) => p == q,
        Step::RemoveIfPresent(p) => p == q,
    }
}

/// Whether `dir` is a directory right inside the clusters' directory.
pub open spec fn in_vectors(root: Seq<char>, dir: Seq<char>) -> bool {
    exists|name: Seq<char>| dir == join(vectors_dir(root), name)
}

proof fn lemma_apply_all_push(d: Disk, s: Seq<Step>, x: Step)
    ensures
        apply_all(d, s.push(x)) == apply(apply_all(d, s), x),
{
    assert(s.push(x).drop_last() =~= s);
}

/// A file inside a cluster directory is never an index entry.
proof fn lemma_cluster_file_not_entry(root: Seq<char>, dir: Seq<char>, leaf: Seq<char>, id: Seq<char>)
    requires
        in_vectors(root, dir),
    ensures
        join(dir, leaf) != index_path(root, id),
{
    let name = choose|name: Seq<char>| dir == join(vectors_dir(root), name);
    let k = root.len() as int + 1;
    let v = vectors_dir(root);
    assert(v[k] == 'v');
    assert(dir[k] == 'v');
    assert(join(dir, leaf)[k] == 'v');
    assert(index_dir(root)[k] == 'i');
    assert(index_path(root, id)[k] == 'i');
}

/// Index entries of distinct ids are distinct files.
proof fn lemma_entry_injective(root: Seq<char>, a: Seq<char>, b: Seq<char>)
    requires
        index_path(root, a) == index_path(root, b),
    ensures
        a == b,
{
    let n = index_dir(root).len() as int + 1;
    assert(a =~= index_path(root, a).subrange(n, index_path(root, a).len() as int));
    assert(b =~= index_path(root, b).subrange(n, index_path(root, b).len() as int));
}

/// Saving a record and then loading its id: the id is indexed, its entry
/// points into the cluster the save chose, and the bytes read back are the
/// record's encoding, which `decode_vector` turns back into the same id and
/// the same elements, bit for bit.
pub proof fn lemma_save_then_load(
    d: Disk,
    root: Seq<char>,
    id: Seq<char>,
    data: Seq<u32>,
    found: Option<Seq<char>>,
    count: nat,
    prior: Option<Seq<char>>,
)
    requires
        found matches Some(f) ==> in_vectors(root, f),
    ensures
        ({
            let after = apply_all(d, save_steps(root, id, data, found, count, prior));
            &&& indexed(after, root, id)
            &&& entry_dir(after, root, id) == target_dir(root, found, count)
            &&& located(after, root, id) == Some(join(target_dir(root, found, count), id))
            &&& loaded(after, root, id) == Some(record_bytes(id, data))
        }),
{
    let steps = save_steps(root, id, data, found, count, prior);
    let dir = target_dir(root, found, count);
    let bytes = record_bytes(id, data);
    let wm = Step::WriteFile(join(dir, id), bytes);
    let wi = Step::WriteFile(index_path(root, id), encode_utf8(dir));
    let pre = steps.subrange(0, steps.len() - 2);
    assert(steps =~= pre.push(wm).push(wi));
    lemma_apply_all_push(d, pre.push(wm), wi);
    lemma_apply_all_push(d, pre, wm);
    if found is None {
        assert(dir == join(vectors_dir(root), crate::layout::ordinal_name(count)));
    }
    assert(in_vectors(root, dir));
    lemma_cluster_file_not_entry(root, dir, id, id);
    encode_utf8_decode_utf8(dir);
    let after = apply_all(d, steps);
    assert(after.files[index_path(root, id)] == encode_utf8(dir));
    assert(after.files[join(dir, id)] == bytes);
}

/// Saving an id a second time, with the earlier copy as the index placed it:
/// the id stays indexed, and loading it reads the encoding of the second
/// record only.
pub proof fn lemma_overwrite(
    d: Disk,
    root: Seq<char>,
    id: Seq<char>,
    first: Seq<u32>,
    second: Seq<u32>,
    found1: Option<Seq<char>>,
    count1: nat,
    prior1: Option<Seq<char>>,
    found2: Option<Seq<char>>,
    count2: nat,
)
    requires
        found1 matches Some(f) ==> in_vectors(root, f),
        found2 matches Some(f) ==> in_vectors(root, f),
    ensures
        ({
            let mid = apply_all(d, save_steps(root, id, first, found1, count1, prior1));
            let after = apply_all(
                mid,
                save_steps(root, id, second, found2, count2, located(mid, root, id)),
            );
            &&& indexed(after, root, id)
            &&& loaded(after, root, id) == Some(record_bytes(id, second))
        }),
{
    lemma_save_then_load(d, root, id, first, found1, count1, prior1);
    let mid = apply_all(d, save_steps(root, id, first, found1, count1, prior1));
    lemma_save_then_load(mid, root, id, second, found2, count2, located(mid, root, id));
}

/// Deleting an id as the index places it: afterwards it is not indexed and
/// loading it finds nothing; every other file stays as it was.
pub proof fn lemma_delete_clears(d: Disk, root: Seq<char>, id: Seq<char>)
    ensures
        ({
            let after = apply_all(d, delete_steps(root, id, located(d, root, id)));
            &&& !indexed(after, root, id)
            &&& loaded(after, root, id) is None
            &&& located(d, root, id) matches Some(m) ==> after.files == d.files.remove(m).remove(
                index_path(root, id),
            )
            &&& located(d, root, id) is None ==> after == d
        }),
{
    let steps = delete_steps(root, id, located(d, root, id));
    match located(d, root, id) {
        Some(m) => {
            let r1 = Step::RemoveFile(m);
            let r2 = Step::RemoveIfPresent(index_path(root, id));
            assert(steps =~= Seq::<Step>::empty().push(r1).push(r2));
            lemma_apply_all_push(d, Seq::<Step>::empty().push(r1), r2);
            lemma_apply_all_push(d, Seq::<Step>::empty(), r1);
        },
        None => {},
    }
}

/// A store with no files holds no id.
pub proof fn lemma_empty_store(d: Disk, root: Seq<char>, id: Seq<char>)
    requires
        d.files.dom() == Set::<Seq<char>>::empty(),
    ensures
        !indexed(d, root, id),
        located(d, root, id) is None,
        loaded(d, root, id) is None,
{
}

proof fn lemma_untouched(d: Disk, s: Seq<Step>, q: Seq<char>)
    requires
        forall|i: int| 0 <= i < s.len() ==> !touches(#[trigger] s[i], q),
    ensures
        apply_all(d, s).files.contains_key(q) == d.files.contains_key(q),
        d.files.contains_key(q) ==> apply_all(d, s).files[q] == d.files[q],
    decreases s.len(),
{
    if s.len() > 0 {
        assert(!touches(s[s.len() - 1], q));
        lemma_untouched(d, s.drop_last(), q);
    }
}

/// A save of an id the index does not hold yet leaves the index entries of
/// other ids as they were.
proof fn lemma_save_keeps_entries(
    d: Disk,
    root: Seq<char>,
    id: Seq<char>,
    data: Seq<u32>,
    found: Option<Seq<char>>,
    count: nat,
    other: Seq<char>,
)
    requires
        found matches Some(f) ==> in_vectors(root, f),
        other != id,
    ensures
        ({
            let after = apply_all(d, save_steps(root, id, data, found, count, None));
            let q = index_path(root, other);
            &&& after.files.contains_key(q) == d.files.contains_key(q)
            &&& d.files.contains_key(q) ==> after.files[q] == d.files[q]
        }),
{
    let steps = save_steps(root, id, data, found, count, None);
    let dir = target_dir(root, found, count);
    let q = index_path(root, other);
    if found is None {
        assert(dir == join(vectors_dir(root), ordinal_name(count)));
    }
    assert(in_vectors(root, dir));
    lemma_cluster_file_not_entry(root, dir, id, other);
    lemma_cluster_file_not_entry(root, dir, metadata_name(), other);
    if index_path(root, id) == q {
        lemma_entry_injective(root, id, other);
    }
    assert forall|i: int| 0 <= i < steps.len() implies !touches(#[trigger] steps[i], q) by {}
    lemma_untouched(d, steps, q);
}

/// Two records saved in turn into a store with no files, the second routed by
/// the policy: with `exceeds` telling whether the second is more similar to
/// the first than the threshold, the two share a cluster exactly when it
/// holds; otherwise the second starts the next one.
pub proof fn lemma_clustering(
    d: Disk,
    root: Seq<char>,
    id1: Seq<char>,
    data1: Seq<u32>,
    id2: Seq<char>,
    data2: Seq<u32>,
    exceeds: bool,
    choice: Option<usize>,
)
    requires
        d.files.dom() == Set::<Seq<char>>::empty(),
        id1 != id2,
        is_first_match(seq![exceeds], choice),
    ensures
        ({
            let mid = apply_all(d, save_steps(root, id1, data1, None, 0, None));
            let found = match choice {
                Some(_) => Some(cluster_dir(root, 0)),
                None => None,
            };
            let after = apply_all(
                mid,
                save_steps(root, id2, data2, found, 1, located(mid, root, id2)),
            );
            &&& indexed(after, root, id1)
            &&& indexed(after, root, id2)
            &&& entry_dir(after, root, id1) == cluster_dir(root, 0)
            &&& exceeds ==> entry_dir(after, root, id2) == entry_dir(after, root, id1)
            &&& !exceeds ==> entry_dir(after, root, id2) != entry_dir(after, root, id1)
        }),
{
    let dir0 = cluster_dir(root, 0);
    let mid = apply_all(d, save_steps(root, id1, data1, None, 0, None));
    lemma_save_then_load(d, root, id1, data1, None, 0, None);
    lemma_save_keeps_entries(d, root, id1, data1, None, 0, id2);
    assert(!d.files.contains_key(index_path(root, id2)));
    assert(located(mid, root, id2) is None);
    let found = match choice {
        Some(_) => Some(dir0),
        None => None,
    };
    if choice is Some {
        assert(in_vectors(root, dir0));
    }
    lemma_save_then_load(mid, root, id2, data2, found, 1, None);
    lemma_save_keeps_entries(mid, root, id2, data2, found, 1, id1);
    assert(seq![exceeds][0] == exceeds);
    if exceeds {
        assert(choice is Some);
    } else {
        assert(choice is None);
        let v = vectors_dir(root);
        assert(decimal(0) == seq!['0']);
        assert(decimal(1) == seq!['1']);
        let a = cluster_dir(root, 0);
        let b = cluster_dir(root, 1);
        assert(a.len() == b.len());
        assert(a[a.len() - 1] == '0');
        assert(b[b.len() - 1] == '1');
    }
}

/// Deleting an id as the index places it changes the number of member files
/// by exactly one where its copy was a member file, and not at all otherwise.
pub proof fn lemma_delete_size(d: Disk, root: Seq<char>, id: Seq<char>)
    requires
        d.files.dom().finite(),
    ensures
        ({
            let after = apply_all(d, delete_steps(root, id, located(d, root, id)));
            &&& members(after, root).finite()
            &&& located(d, root, id) matches Some(m) ==> members(after, root) == members(
                d,
                root,
            ).remove(m)
            &&& (located(d, root, id) matches Some(m) && members(d, root).contains(m)) ==> members(
                after,
                root,
            ).len() + 1 == members(d, root).len()
            &&& (located(d, root, id) matches Some(m) && members(d, root).contains(m)) || members(
                after,
                root,
            ).len() == members(d, root).len()
        }),
{
    lemma_delete_clears(d, root, id);
    let after = apply_all(d, delete_steps(root, id, located(d, root, id)));
    let f = |p: Seq<char>| is_member_path(root, p);
    d.files.dom().lemma_len_filter(f);
    match located(d, root, id) {
        Some(m) => {
            let ip = index_path(root, id);
            assert forall|p: Seq<char>| is_member_path(root, p) implies p != ip by {
                let (dir, leaf) = choose|dir: Seq<char>, leaf: Seq<char>|
                    in_vectors(root, dir) && p == #[trigger] join(dir, leaf) && leaf
                        != metadata_name();
                lemma_cluster_file_not_entry(root, dir, leaf, id);
            }
            assert(members(after, root) =~= members(d, root).remove(m));
            axiom_set_remove_len(members(d, root), m);
        },
        None => {},
    }
}

} // verus!
