//! Candidate scanning: which paths become candidate projects, and in what
//! order. Reading a directory itself happens outside the library; the
//! scanner here works on the listings it is handed, one per parent
//! directory, each entry carrying the path and whether it is a directory.

use vstd::prelude::*;

verus! {

/// Direct project paths become candidates verbatim, in argument order:
/// no existence check, no filtering.
pub fn get_project_directories(directories: Vec<String>) -> (paths: Vec<String>)
    ensures
        paths.deep_view() == directories.deep_view(),
{
    let mut paths: Vec<String> = Vec::new();
    let mut i: usize = 0;
    while i < directories.len()
        invariant
            i <= directories.len(),
            paths@.len() == i,
            forall|j: int| 0 <= j < i ==> paths@[j] == directories@[j],
        decreases directories.len() - i,
    {
        paths.push(directories[i].clone());
        i += 1;
    }
    proof {
        assert(paths.deep_view() =~= directories.deep_view());
    }
    paths
}

/// One entry of a parent directory's listing: the entry's path and whether
/// the filesystem reports it as a directory.
pub struct DirEntry {
    pub path: String,
    pub is_directory: bool,
}

/// The paths of the directory entries of one listing, in listing order:
/// entries that are not directories are dropped, nothing else changes.
pub open spec fn directory_paths(entries: Seq<DirEntry>) -> Seq<Seq<char>>
    decreases entries.len(),
{
    if entries.len() == 0 {
        Seq::empty()
    } else {
        let init = directory_paths(entries.drop_last());
        if entries.last().is_directory {
            init.push(entries.last().path@)
        } else {
            init
        }
    }
}

/// The scanner's output over all parent listings: each listing's directory
/// paths in listing order, listings concatenated in argument order.
pub open spec fn scanned_paths(listings: Seq<Seq<DirEntry>>) -> Seq<Seq<char>>
    decreases listings.len(),
{
    if listings.len() == 0 {
        Seq::empty()
    } else {
        scanned_paths(listings.drop_last()) + directory_paths(listings.last())
    }
}

/// Keeps the directory entries of every parent listing, in order: exactly
/// the directories of each parent, duplicates kept, listing order kept,
/// parents in argument order.
pub fn get_directories(listings: Vec<Vec<DirEntry>>) -> (paths: Vec<String>)
    ensures
        paths.deep_view() == scanned_paths(
            listings@.map_values(|listing: Vec<DirEntry>| listing@),
        ),
{
    let ghost all = listings@.map_values(|listing: Vec<DirEntry>| listing@);
    let mut paths: Vec<String> = Vec::new();
    let mut i: usize = 0;
    proof {
        assert(all.subrange(0, 0) =~= Seq::<Seq<DirEntry>>::empty());
        assert(paths.deep_view() =~~= scanned_paths(all.subrange(0, 0)));
    }
    while i < listings.len()
        invariant
            i <= listings@.len(),
            all == listings@.map_values(|listing: Vec<DirEntry>| listing@),
            paths.deep_view() == scanned_paths(all.subrange(0, i as int)),
        decreases listings@.len() - i,
    {
        let entries = &listings[i];
        let mut j: usize = 0;
        proof {
            assert(entries@.subrange(0, 0) =~= Seq::<DirEntry>::empty());
            assert(paths.deep_view() =~~= scanned_paths(all.subrange(0, i as int))
                + directory_paths(entries@.subrange(0, 0)));
        }
        while j < entries.len()
            invariant
                j <= entries@.len(),
                i < listings@.len(),
                all == listings@.map_values(|listing: Vec<DirEntry>| listing@),
                entries == &listings@[i as int],
                paths.deep_view() == scanned_paths(all.subrange(0, i as int)) + directory_paths(
                    entries@.subrange(0, j as int),
                ),
            decreases entries@.len() - j,
        {
            let ghost front = scanned_paths(all.subrange(0, i as int));
            let ghost before = directory_paths(entries@.subrange(0, j as int));
            if entries[j].is_directory {
                paths.push(entries[j].path.clone());
                proof {
                    let e = entries@[j as int].path@;
                    assert(paths.deep_view() =~~= (front + before).push(e));
                    assert((front + before).push(e) =~= front + before.push(e));
                }
            }
            j += 1;
            proof {
                let seen = entries@.subrange(0, j as int);
                assert(seen.drop_last() =~= entries@.subrange(0, j - 1));
                assert(seen.last() == entries@[j - 1]);
                if entries@[j - 1].is_directory {
                    assert(directory_paths(seen) == before.push(entries@[j - 1].path@));
                } else {
                    assert(directory_paths(seen) == before);
                }
                assert(paths.deep_view() == front + directory_paths(seen));
            }
        }
        i += 1;
        proof {
            assert(entries@.subrange(0, entries@.len() as int) =~= entries@);
            let seen = all.subrange(0, i as int);
            assert(seen.drop_last() =~= all.subrange(0, i - 1));
            assert(seen.last() == entries@);
            assert(paths.deep_view() =~~= scanned_paths(seen));
        }
    }
    proof {
        assert(all.subrange(0, all.len() as int) =~= all);
    }
    paths
}

/// All candidate paths in pick order: the directly given project paths
/// first, in argument order, then the scanned paths.
pub fn candidate_paths(projects: Vec<String>, scanned: Vec<String>) -> (all: Vec<String>)
    ensures
        all.deep_view() == projects.deep_view() + scanned.deep_view(),
{
    let mut all: Vec<String> = Vec::new();
    let mut i: usize = 0;
    while i < projects.len()
        invariant
            i <= projects@.len(),
            all@.len() == i,
            forall|j: int| 0 <= j < i ==> all@[j] == projects@[j],
        decreases projects@.len() - i,
    {
        all.push(projects[i].clone());
        i += 1;
    }
    let mut k: usize = 0;
    while k < scanned.len()
        invariant
            k <= scanned@.len(),
            all@.len() == projects@.len() + k,
            forall|j: int| 0 <= j < projects@.len() ==> all@[j] == projects@[j],
            forall|j: int| 0 <= j < k ==> all@[projects@.len() + j] == scanned@[j],
        decreases scanned@.len() - k,
    {
        all.push(scanned[k].clone());
        k += 1;
    }
    proof {
        assert(all.deep_view() =~~= projects.deep_view() + scanned.deep_view());
    }
    all
}

} // verus!
