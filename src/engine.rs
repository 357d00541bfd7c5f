//! The store's decisions. Each operation is computed here from what the
//! caller read on disk and handed back as the ordered list of file
//! operations to perform; [`Disk`] models the directory tree those operations
//! act on.
use vstd::prelude::*;
use vstd::utf8::{decode_utf8, encode_utf8, valid_utf8};

use crate::codec::{encode_vector, record_bytes};
use crate::error::PineError;
use crate::layout::{
    metadata_name,
    cluster_dir, cluster_dir_text, index_path, index_path_text, join, join_path, metadata_path,
    metadata_path_text,
};
use crate::vector::Vector;

verus! {

/// One file-system operation, to be performed in order with the others of
/// its plan.
#[derive(Debug, Clone, PartialEq, Eq)]
pub enum Action {
    /// Create the directory and any missing parents.
    CreateDir { path: String },
    /// Create or truncate the file and write these bytes to it.
    WriteFile { path: String, bytes: Vec<u8> },
    /// Remove the file; failing where it does not exist.
    RemoveFile { path: String },
    /// Remove the file where it exists.
    RemoveIfPresent { path: String },
}

/// An [`Action`] over text and bytes.
pub ghost enum Step {
    CreateDir(Seq<char>),
    WriteFile(Seq<char>, Seq<u8>),
    RemoveFile(Seq<char>),
    RemoveIfPresent(Seq<char>),
}

impl View for Action {
    type V = Step;

    open spec fn view(&self) -> Step {
        match self {
            Action::CreateDir { path } => Step::CreateDir(path@),
            Action::WriteFile { path, bytes } => Step::WriteFile(path@, bytes@),
            Action::RemoveFile { path } => Step::RemoveFile(path@),
            Action::RemoveIfPresent { path } => Step::RemoveIfPresent(path@),
        }
    }
}

pub open spec fn steps_of(acts: Seq<Action>) -> Seq<Step> {
    acts.map_values(|a: Action| a@)
}

/// The directory tree: the directories that exist and each file's contents.
pub ghost struct Disk {
    pub dirs: Set<Seq<char>>,
    pub files: Map<Seq<char>, Seq<u8>>,
}

/// The tree after one step that succeeds.
pub open spec fn apply(d: Disk, s: Step) -> Disk {
    match s {
        Step::CreateDir(p) => Disk { dirs: d.dirs.insert(p), ..d },
        Step::WriteFile(p, b) => Disk { files: d.files.insert(p, b), ..d },
        Step::RemoveFile(p) => Disk { files: d.files.remove(p), ..d },
        Step::RemoveIfPresent(p) => Disk { files: d.files.remove(p), ..d },
    }
}

/// The tree after a plan whose steps all succeed.
pub open spec fn apply_all(d: Disk, steps: Seq<Step>) -> Disk
    decreases steps.len(),
{
    if steps.len() == 0 {
        d
    } else {
        apply(apply_all(d, steps.drop_last()), steps.last())
    }
}

/// Whether the index holds an entry for `id`.
pub open spec fn indexed(d: Disk, root: Seq<char>, id: Seq<char>) -> bool {
    d.files.contains_key(index_path(root, id))
}

/// Where the index says the copy of `id` lies.
pub open spec fn located(d: Disk, root: Seq<char>, id: Seq<char>) -> Option<Seq<char>> {
    if indexed(d, root, id) {
        Some(join(decode_utf8(d.files[index_path(root, id)]), id))
    } else {
        None
    }
}

/// The bytes that loading `id` reads, where its entry and its copy exist.
pub open spec fn loaded(d: Disk, root: Seq<char>, id: Seq<char>) -> Option<Seq<u8>> {
    match located(d, root, id) {
        Some(m) => if d.files.contains_key(m) {
            Some(d.files[m])
        } else {
            None
        },
        None => None,
    }
}

/// Whether `i` is the first position in `flags` that holds `true`, or, for
/// `None`, whether no position does.
pub open spec fn is_first_match(flags: Seq<bool>, r: Option<usize>) -> bool {
    match r {
        Some(i) => i < flags.len() && flags[i as int] && forall|j: int| 0 <= j < i ==> !flags[j],
        None => forall|j: int| 0 <= j < flags.len() ==> !flags[j],
    }
}

/// The cluster-assignment policy. `exceeds[i]` tells whether the
/// representative of the `i`-th cluster directory, in listing order, is more
/// similar to the new record than the threshold; the first such cluster is
/// chosen, and `None` asks for a new one.
pub fn find_cluster(exceeds: &Vec<bool>) -> (r: Option<usize>)
    ensures
        is_first_match(exceeds@, r),
{
    let mut i: usize = 0;
    while i < exceeds.len()
        invariant
            i <= exceeds.len(),
            forall|j: int| 0 <= j < i ==> !exceeds@[j],
        decreases exceeds.len() - i,
    {
        if exceeds[i] {
            return Some(i);
        }
        i = i + 1;
    }
    None
}

/// The plan of a save, over text and bytes: with a new cluster (`found` is
/// `None`), create its directory, numbered by `count`, and write the record
/// as its representative; remove the earlier copy of the id and its entry,
/// where the index had one (`prior`); write the record into the cluster; point
/// the index at the cluster.
pub open spec fn save_steps(
    root: Seq<char>,
    id: Seq<char>,
    data: Seq<u32>,
    found: Option<Seq<char>>,
    count: nat,
    prior: Option<Seq<char>>,
) -> Seq<Step> {
    let bytes = record_bytes(id, data);
    let dir = target_dir(root, found, count);
    let create = match found {
        Some(_) => Seq::empty(),
        None => seq![Step::CreateDir(dir), Step::WriteFile(metadata_path(dir), bytes)],
    };
    let clear = match prior {
        Some(m) => seq![Step::RemoveFile(m), Step::RemoveIfPresent(index_path(root, id))],
        None => Seq::empty(),
    };
    create + clear + seq![
        Step::WriteFile(join(dir, id), bytes),
        Step::WriteFile(index_path(root, id), encode_utf8(dir)),
    ]
}

/// The cluster directory a save writes into.
pub open spec fn target_dir(root: Seq<char>, found: Option<Seq<char>>, count: nat) -> Seq<char> {
    match found {
        Some(d) => d,
        None => cluster_dir(root, count),
    }
}

/// The plan of a delete: where the index had an entry (`member`), remove the
/// copy and the entry.
pub open spec fn delete_steps(root: Seq<char>, id: Seq<char>, member: Option<Seq<char>>) -> Seq<
    Step,
> {
    match member {
        Some(m) => seq![Step::RemoveFile(m), Step::RemoveIfPresent(index_path(root, id))],
        None => Seq::empty(),
    }
}

pub open spec fn opt_view(o: Option<String>) -> Option<Seq<char>> {
    match o {
        Some(s) => Some(s@),
        None => None,
    }
}

/// The plan that saves `v` under `root`. `found` is the directory of the
/// cluster that [`find_cluster`] chose, or `None` for a new cluster, which
/// then takes the ordinal `count`, the number of entries under the clusters'
/// directory; `prior` is where the index placed an earlier copy of the id.
/// Always succeeds.
pub fn save_plan(
    root: &String,
    v: &Vector,
    found: Option<String>,
    count: usize,
    prior: Option<String>,
) -> (r: Result<Vec<Action>, PineError>)
    ensures
        r is Ok,
        r matches Ok(acts) ==> steps_of(acts@) == save_steps(
            root@,
            v.id@,
            v.data@,
            opt_view(found),
            count as nat,
            opt_view(prior),
        ),
{
    let bytes = match encode_vector(v) {
        Ok(b) => b,
        Err(e) => {
            return Err(e);
        },
    };
    let mut acts: Vec<Action> = Vec::new();
    let dir = match found {
        Some(d) => d,
        None => {
            let d = cluster_dir_text(root.as_str(), count);
            acts.push(Action::CreateDir { path: d.clone() });
            acts.push(Action::WriteFile { path: metadata_path_text(d.as_str()), bytes: bytes.clone() });
            d
        },
    };
    let index = index_path_text(root.as_str(), v.id.as_str());
    match prior {
        Some(m) => {
            acts.push(Action::RemoveFile { path: m });
            acts.push(Action::RemoveIfPresent { path: index.clone() });
        },
        None => {},
    }
    acts.push(Action::WriteFile { path: join_path(dir.as_str(), v.id.as_str()), bytes });
    acts.push(Action::WriteFile { path: index, bytes: dir.as_str().as_bytes_vec() });
    assert(steps_of(acts@) =~= save_steps(
        root@,
        v.id@,
        v.data@,
        opt_view(found),
        count as nat,
        opt_view(prior),
    ));
    Ok(acts)
}

/// The plan that deletes `id`, given where the index placed its copy.
pub fn delete_plan(root: &String, id: &String, member: Option<String>) -> (r: Vec<Action>)
    ensures
        steps_of(r@) == delete_steps(root@, id@, opt_view(member)),
{
    let mut acts: Vec<Action> = Vec::new();
    match member {
        Some(m) => {
            acts.push(Action::RemoveFile { path: m });
            acts.push(Action::RemoveIfPresent { path: index_path_text(root.as_str(), id.as_str()) });
        },
        None => {},
    }
    assert(steps_of(acts@) =~= delete_steps(root@, id@, opt_view(member)));
    acts
}

/// Relies on `String::from_utf8`: it succeeds exactly on valid UTF-8, and
/// the string then holds the characters those bytes encode.
#[verifier::external_body]
fn text_from_utf8(bytes: Vec<u8>) -> (r: Option<String>)
    ensures
        r is Some <==> valid_utf8(bytes@),
        r matches Some(t) ==> t@ == decode_utf8(bytes@),
{
    String::from_utf8(bytes).ok()
}

/// Where the copy of `id` lies, given the contents of its index entry
/// (`None` where there is no entry). Fails where the entry is not UTF-8 text.
pub fn locate(id: &String, entry: Option<Vec<u8>>) -> (r: Result<Option<String>, PineError>)
    ensures
        entry is None ==> r == Ok::<Option<String>, PineError>(None),
        entry matches Some(b) ==> (valid_utf8(b@) <==> r is Ok),
        entry matches Some(b) ==> (r matches Ok(m) ==> m matches Some(p) && p@ == join(
            decode_utf8(b@),
            id@,
        )),
        r matches Err(e) ==> e == PineError::Utf8,
{
    match entry {
        None => Ok(None),
        Some(b) => match text_from_utf8(b) {
            Some(dir) => Ok(Some(join_path(dir.as_str(), id.as_str()))),
            None => Err(PineError::Utf8),
        },
    }
}

/// How many of `names` name a member file, that is, anything but a
/// representative.
pub open spec fn member_count(names: Seq<String>) -> nat
    decreases names.len(),
{
    if names.len() == 0 {
        0
    } else {
        member_count(names.drop_last()) + if names.last()@ == metadata_name() {
            0nat
        } else {
            1nat
        }
    }
}

/// Counts the member files among the names of the files listed in the
/// cluster directories.
pub fn count_members(names: &Vec<String>) -> (r: usize)
    ensures
        r == member_count(names@),
{
    proof {
        reveal_strlit("metadata");
    }
    let meta = String::from_str("metadata");
    assert(meta@ =~= metadata_name());
    let mut n: usize = 0;
    let mut i: usize = 0;
    while i < names.len()
        invariant
            i <= names.len(),
            meta@ == metadata_name(),
            n == member_count(names@.take(i as int)),
            n <= i,
        decreases names.len() - i,
    {
        assert(names@.take(i + 1).drop_last() =~= names@.take(i as int));
        if names[i] != meta {
            n = n + 1;
        }
        i = i + 1;
    }
    assert(names@.take(i as int) =~= names@);
    n
}

} // verus!
