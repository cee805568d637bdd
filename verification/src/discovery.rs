//! How the rings of a site are named, and how an observer tells from the
//! entries of the queue directory which sites there are.

use crate::text::{find, first_occurrence};
use vstd::prelude::*;
use vstd::string::{StrSliceExecFns, StringExecFns};

verus! {

/// The number of records in each ring.
pub const QUEUE_SIZE: usize = 131072;

/// What the file name of a latency ring begins with.
pub open spec fn latency_prefix() -> Seq<char> {
    "latency-"@
}

/// What the file name of a business ring begins with.
pub open spec fn timing_prefix() -> Seq<char> {
    "timing-"@
}

/// The site that a directory entry belongs to, if it is the path of a latency
/// ring: what follows the first `latency-` in it.
pub open spec fn queue_name(path: Seq<char>) -> Option<Seq<char>> {
    match first_occurrence(path, latency_prefix(), 0) {
        Some(i) => Some(path.subrange(i + latency_prefix().len(), path.len() as int)),
        None => None,
    }
}

/// The sites known after one directory entry is looked at: the site of a
/// latency ring is added at the end unless it is known already.
pub open spec fn scan_entry(names: Seq<Seq<char>>, path: Seq<char>) -> Seq<Seq<char>> {
    match queue_name(path) {
        Some(name) => if names.contains(name) {
            names
        } else {
            names.push(name)
        },
        None => names,
    }
}

/// The sites known after the entries `paths` are looked at one by one.
pub open spec fn scan(names: Seq<Seq<char>>, paths: Seq<Seq<char>>) -> Seq<Seq<char>>
    decreases paths.len(),
{
    if paths.len() == 0 {
        names
    } else {
        scan_entry(scan(names, paths.drop_last()), paths.last())
    }
}

/// A scan keeps what was known, in place, and knows the site of every
/// latency ring among the entries afterwards.
proof fn lemma_scan_grows(names: Seq<Seq<char>>, paths: Seq<Seq<char>>)
    ensures
        names.len() <= scan(names, paths).len(),
        scan(names, paths).subrange(0, names.len() as int) == names,
        forall|i: int|
            0 <= i < paths.len() ==> (#[trigger] queue_name(paths[i]) matches Some(name) ==> scan(
                names,
                paths,
            ).contains(name)),
    decreases paths.len(),
{
    if paths.len() == 0 {
        assert(names.subrange(0, names.len() as int) =~= names);
    } else {
        let before = paths.drop_last();
        let known = scan(names, before);
        let after = scan(names, paths);
        lemma_scan_grows(names, before);
        assert(after.subrange(0, names.len() as int) =~= known.subrange(0, names.len() as int));
        assert forall|i: int| 0 <= i < paths.len() implies (#[trigger] queue_name(
            paths[i],
        ) matches Some(name) ==> after.contains(name)) by {
            if let Some(name) = queue_name(paths[i]) {
                if i < paths.len() - 1 {
                    assert(paths[i] == before[i]);
                    assert(known.contains(name));
                    let j = choose|j: int| 0 <= j < known.len() && known[j] == name;
                    assert(after[j] == name);
                } else {
                    if known.contains(name) {
                    } else {
                        assert(after[known.len() as int] == name);
                    }
                }
            }
        }
    }
}

/// No scan makes a second entry for a site: where no site is known twice
/// before a scan, none is afterwards.
pub proof fn lemma_scan_no_duplicates(names: Seq<Seq<char>>, paths: Seq<Seq<char>>)
    requires
        names.no_duplicates(),
    ensures
        scan(names, paths).no_duplicates(),
    decreases paths.len(),
{
    if paths.len() > 0 {
        lemma_scan_no_duplicates(names, paths.drop_last());
    }
}

/// A scan of entries that were scanned already finds nothing new.
proof fn lemma_rescan(known: Seq<Seq<char>>, paths: Seq<Seq<char>>)
    requires
        forall|i: int|
            0 <= i < paths.len() ==> (#[trigger] queue_name(paths[i]) matches Some(name)
                ==> known.contains(name)),
    ensures
        scan(known, paths) == known,
    decreases paths.len(),
{
    if paths.len() > 0 {
        let before = paths.drop_last();
        assert forall|i: int| 0 <= i < before.len() implies (#[trigger] queue_name(
            before[i],
        ) matches Some(name) ==> known.contains(name)) by {
            assert(before[i] == paths[i]);
        }
        lemma_rescan(known, before);
        assert(paths.last() == paths[paths.len() - 1]);
    }
}

/// Scanning is idempotent: a second scan of the same entries changes
/// nothing.
pub proof fn lemma_scan_idempotent(names: Seq<Seq<char>>, paths: Seq<Seq<char>>)
    ensures
        scan(scan(names, paths), paths) == scan(names, paths),
{
    lemma_scan_grows(names, paths);
    lemma_rescan(scan(names, paths), paths);
}

/// The site that a directory entry belongs to, if the entry is the path of a
/// latency ring; `None` for any other entry.
pub fn latency_queue_name(path: &str) -> (r: Option<String>)
    ensures
        match r {
            Some(name) => queue_name(path@) == Some(name@),
            None => queue_name(path@) is None,
        },
{
    let prefix = "latency-";
    match find(path, prefix) {
        Some(i) => {
            let n = path.unicode_len();
            let m = prefix.unicode_len();
            Some(path.substring_char(i + m, n).to_owned())
        },
        None => None,
    }
}

/// The path of the latency ring of the site `name` in the directory `dir`.
pub fn latency_queue_path(dir: &str, name: &str) -> (r: String)
    ensures
        r@ == dir@ + "/"@ + latency_prefix() + name@,
{
    dir.to_owned().concat("/").concat("latency-").concat(name)
}

/// The path of the business ring of the site `name` in the directory `dir`.
pub fn timing_queue_path(dir: &str, name: &str) -> (r: String)
    ensures
        r@ == dir@ + "/"@ + timing_prefix() + name@,
{
    dir.to_owned().concat("/").concat("timing-").concat(name)
}

} // verus!
