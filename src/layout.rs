//! Where the store keeps things under its root directory:
//!
//! ```text
//! <root>/vectors/<ordinal>/metadata   the cluster's representative record
//! <root>/vectors/<ordinal>/<id>       the current copy of record <id>
//! <root>/index/<id>                   the cluster directory of <id>, as UTF-8 text
//! ```
use vstd::prelude::*;

verus! {

pub open spec fn digit_chars() -> Seq<char> {
    seq!['0', '1', '2', '3', '4', '5', '6', '7', '8', '9']
}

/// The decimal digits of `n`, most significant first, without leading zeros.
pub open spec fn decimal(n: nat) -> Seq<char>
    decreases n,
{
    if n < 10 {
        seq![digit_chars()[n as int]]
    } else {
        decimal(n / 10).push(digit_chars()[(n % 10) as int])
    }
}

/// The name of the cluster directory with ordinal `n`: its decimal digits,
/// left-padded with zeros to three characters.
pub open spec fn ordinal_name(n: nat) -> Seq<char> {
    if n < 10 {
        seq!['0', '0'] + decimal(n)
    } else if n < 100 {
        seq!['0'] + decimal(n)
    } else {
        decimal(n)
    }
}

pub open spec fn vectors_name() -> Seq<char> {
    seq!['v', 'e', 'c', 't', 'o', 'r', 's']
}

pub open spec fn index_name() -> Seq<char> {
    seq!['i', 'n', 'd', 'e', 'x']
}

/// The file name of a cluster's representative.
pub open spec fn metadata_name() -> Seq<char> {
    seq!['m', 'e', 't', 'a', 'd', 'a', 't', 'a']
}

/// `name` inside the directory `base`.
pub open spec fn join(base: Seq<char>, name: Seq<char>) -> Seq<char> {
    base + seq!['/'] + name
}

pub open spec fn vectors_dir(root: Seq<char>) -> Seq<char> {
    join(root, vectors_name())
}

pub open spec fn index_dir(root: Seq<char>) -> Seq<char> {
    join(root, index_name())
}

/// The index entry of `id`.
pub open spec fn index_path(root: Seq<char>, id: Seq<char>) -> Seq<char> {
    join(index_dir(root), id)
}

/// The directory of the cluster with ordinal `n`.
pub open spec fn cluster_dir(root: Seq<char>, n: nat) -> Seq<char> {
    join(vectors_dir(root), ordinal_name(n))
}

/// The representative file of the cluster directory `dir`.
pub open spec fn metadata_path(dir: Seq<char>) -> Seq<char> {
    join(dir, metadata_name())
}

/// The single digit `d` as text.
fn digit_text(d: usize) -> (r: &'static str)
    requires
        d < 10,
    ensures
        r@ == seq![digit_chars()[d as int]],
{
    proof {
        reveal_strlit("0");
        reveal_strlit("1");
        reveal_strlit("2");
        reveal_strlit("3");
        reveal_strlit("4");
        reveal_strlit("5");
        reveal_strlit("6");
        reveal_strlit("7");
        reveal_strlit("8");
        reveal_strlit("9");
    }
    let r = match d {
        0 => "0",
        1 => "1",
        2 => "2",
        3 => "3",
        4 => "4",
        5 => "5",
        6 => "6",
        7 => "7",
        8 => "8",
        _ => "9",
    };
    assert(r@ =~= seq![digit_chars()[d as int]]);
    r
}

/// The directory name of the cluster with ordinal `n`, such as `007`.
pub fn ordinal_text(n: usize) -> (r: String)
    ensures
        r@ == ordinal_name(n as nat),
{
    let mut s = String::from_str(digit_text(n % 10));
    let mut m: usize = n / 10;
    assert(s@ =~= seq![digit_chars()[(n % 10) as int]]);
    while m > 0
        invariant
            m > 0 ==> decimal(n as nat) == decimal(m as nat) + s@,
            m == 0 ==> decimal(n as nat) == s@,
            n < 10 ==> m == 0,
            10 <= n < 100 ==> (m == 0 ==> s@.len() == 2) && (m > 0 ==> m < 10 && s@.len() == 1),
            n >= 100 ==> (m == 0 ==> s@.len() >= 3) && (m > 0 ==> (m < 10 ==> s@.len() >= 2) && (
            m >= 10 ==> s@.len() >= 1)),
        decreases m,
    {
        let d = digit_text(m % 10);
        let ghost old_s = s@;
        s = String::from_str(d).concat(s.as_str());
        proof {
            if m >= 10 {
                assert(decimal(m as nat) == decimal((m / 10) as nat).push(
                    digit_chars()[(m % 10) as int],
                ));
                assert(decimal(m as nat) + old_s =~= decimal((m / 10) as nat) + s@);
            } else {
                assert(decimal(m as nat) + old_s =~= s@);
            }
        }
        m = m / 10;
    }
    if n < 10 {
        let z = String::from_str("00");
        proof {
            reveal_strlit("00");
        }
        let r = z.concat(s.as_str());
        assert(r@ =~= ordinal_name(n as nat));
        r
    } else if n < 100 {
        let z = String::from_str("0");
        proof {
            reveal_strlit("0");
        }
        let r = z.concat(s.as_str());
        assert(r@ =~= ordinal_name(n as nat));
        r
    } else {
        s
    }
}

/// `name` inside the directory `base`.
pub fn join_path(base: &str, name: &str) -> (r: String)
    ensures
        r@ == join(base@, name@),
{
    proof {
        reveal_strlit("/");
    }
    let r = String::from_str(base).concat("/").concat(name);
    assert(r@ =~= join(base@, name@));
    r
}

/// The directory that holds the clusters.
pub fn vectors_dir_text(root: &str) -> (r: String)
    ensures
        r@ == vectors_dir(root@),
{
    proof {
        reveal_strlit("vectors");
    }
    assert("vectors"@ =~= vectors_name());
    join_path(root, "vectors")
}

/// The directory that holds the index entries.
pub fn index_dir_text(root: &str) -> (r: String)
    ensures
        r@ == index_dir(root@),
{
    proof {
        reveal_strlit("index");
    }
    assert("index"@ =~= index_name());
    join_path(root, "index")
}

/// The index entry of `id`.
pub fn index_path_text(root: &str, id: &str) -> (r: String)
    ensures
        r@ == index_path(root@, id@),
{
    let dir = index_dir_text(root);
    join_path(dir.as_str(), id)
}

/// The directory of the cluster with ordinal `n`.
pub fn cluster_dir_text(root: &str, n: usize) -> (r: String)
    ensures
        r@ == cluster_dir(root@, n as nat),
{
    let dir = vectors_dir_text(root);
    let name = ordinal_text(n);
    join_path(dir.as_str(), name.as_str())
}

/// The representative file of the cluster directory `dir`.
pub fn metadata_path_text(dir: &str) -> (r: String)
    ensures
        r@ == metadata_path(dir@),
{
    proof {
        reveal_strlit("metadata");
    }
    assert("metadata"@ =~= metadata_name());
    join_path(dir, "metadata")
}

} // verus!
