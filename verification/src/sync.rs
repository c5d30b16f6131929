use vstd::prelude::*;

verus! {

use vstd::string::{StrSliceExecFns, StringExecFns};

/// A remote key under a prefix: the prefix and the relative path joined
/// by exactly one separator; an empty prefix leaves the path alone.
pub open spec fn joined_key(prefix: Seq<char>, rel: Seq<char>) -> Seq<char> {
    if prefix.len() == 0 {
        rel
    } else if prefix[prefix.len() - 1] == '/' {
        prefix + rel
    } else {
        prefix + "/"@ + rel
    }
}

/// Joins a target prefix and a path relative to the sync root into the
/// remote key for that file, preserving the relative structure.
pub fn sync_key(target_dir: &str, rel: &str) -> (r: String)
    ensures
        r@ == joined_key(target_dir@, rel@),
{
    let n = target_dir.unicode_len();
    if n == 0 {
        return rel.to_owned();
    }
    let mut s = target_dir.to_owned();
    if target_dir.get_char(n - 1) != '/' {
        s.append("/");
    }
    s.append(rel);
    s
}

/// One file seen under the sync source tree: its path relative to the
/// root, and whether an object already exists at its remote key.
#[derive(Debug)]
pub struct SyncEntry {
    pub rel_path: String,
    pub exists: bool,
}

/// The relative paths whose remote key does not exist yet, in walk
/// order: existence alone gates re-upload.
pub open spec fn pending(entries: Seq<SyncEntry>) -> Seq<Seq<char>>
    decreases entries.len(),
{
    if entries.len() == 0 {
        Seq::empty()
    } else {
        let rest = pending(entries.drop_last());
        if entries.last().exists {
            rest
        } else {
            rest.push(entries.last().rel_path@)
        }
    }
}

/// Picks the files a sync run transfers: exactly those whose remote key
/// does not exist, in walk order. Files already present remotely are
/// skipped entirely, without any content comparison.
pub fn plan_sync(entries: &Vec<SyncEntry>) -> (r: Vec<String>)
    ensures
        r.deep_view() == pending(entries@),
{
    let mut picked: Vec<String> = Vec::new();
    let mut i: usize = 0;
    while i < entries.len()
        invariant
            i <= entries@.len(),
            picked.deep_view() == pending(entries@.take(i as int)),
        decreases entries@.len() - i,
    {
        let ghost before = picked.deep_view();
        if !entries[i].exists {
            picked.push(entries[i].rel_path.clone());
            proof {
                assert(picked.deep_view() =~= before.push(entries@[i as int].rel_path@));
            }
        }
        proof {
            assert(entries@.take(i + 1).drop_last() =~= entries@.take(i as int));
            assert(entries@.take(i + 1).last() == entries@[i as int]);
        }
        i = i + 1;
    }
    proof {
        assert(entries@.take(entries@.len() as int) =~= entries@);
    }
    picked
}

} // verus!
