//! Filtered uploads: the archive command that selects files by name
//! patterns, and what an upload would change in a sandbox (`--dry-run`),
//! local files compared with the sandbox's by path and content hash.

use vstd::prelude::*;
use crate::text::{push_str_chars, shell_quote, shell_quoted, str_eq, to_owned_string};

verus! {

/// A file on one side of an upload: its path relative to the upload root,
/// a hash of its contents, and its size in bytes.
#[derive(Debug, Clone, PartialEq, Eq)]
pub struct FileEntry {
    /// Path relative to the upload root.
    pub path: String,
    /// Hash of the contents.
    pub hash: String,
    /// Size in bytes.
    pub size: u64,
}

/// A file present on both sides with different contents.
#[derive(Debug, Clone, PartialEq, Eq)]
pub struct ModifiedEntry {
    /// Path relative to the upload root.
    pub path: String,
    /// Size of the local file.
    pub local_size: u64,
    /// Size of the sandbox's file.
    pub remote_size: u64,
}

/// The changes an upload would make.
#[derive(Debug, Clone, PartialEq, Eq)]
pub struct UploadDiff {
    /// Local files the sandbox lacks, in local order.
    pub added: Vec<FileEntry>,
    /// Files whose contents differ, in local order.
    pub modified: Vec<ModifiedEntry>,
    /// Sandbox files with no local counterpart, in sandbox order.
    pub deleted: Vec<FileEntry>,
    /// Files identical on both sides, in local order.
    pub unchanged: Vec<FileEntry>,
}

/// The first entry of `files` at `path`.
pub open spec fn entry_at(files: Seq<FileEntry>, path: Seq<char>) -> Option<FileEntry>
    decreases files.len(),
{
    if files.len() == 0 {
        None
    } else if files[0].path@ == path {
        Some(files[0])
    } else {
        entry_at(files.drop_first(), path)
    }
}

/// How a local file compares with the sandbox's files.
pub enum Change {
    Added,
    Modified(u64),
    Unchanged,
}

/// The change of one local file.
pub open spec fn change_of(f: FileEntry, remote: Seq<FileEntry>) -> Change {
    match entry_at(remote, f.path@) {
        None => Change::Added,
        Some(r) => if r.hash@ == f.hash@ {
            Change::Unchanged
        } else {
            Change::Modified(r.size)
        },
    }
}

/// The local files the sandbox lacks, in order.
pub open spec fn added_files(local: Seq<FileEntry>, remote: Seq<FileEntry>) -> Seq<FileEntry>
    decreases local.len(),
{
    if local.len() == 0 {
        Seq::empty()
    } else {
        let rest = added_files(local.drop_last(), remote);
        if change_of(local.last(), remote) is Added {
            rest.push(local.last())
        } else {
            rest
        }
    }
}

/// The local files identical in the sandbox, in order.
pub open spec fn unchanged_files(local: Seq<FileEntry>, remote: Seq<FileEntry>) -> Seq<FileEntry>
    decreases local.len(),
{
    if local.len() == 0 {
        Seq::empty()
    } else {
        let rest = unchanged_files(local.drop_last(), remote);
        if change_of(local.last(), remote) is Unchanged {
            rest.push(local.last())
        } else {
            rest
        }
    }
}

/// The files whose contents differ, in local order.
pub open spec fn modified_files(local: Seq<FileEntry>, remote: Seq<FileEntry>) -> Seq<ModifiedEntry>
    decreases local.len(),
{
    if local.len() == 0 {
        Seq::empty()
    } else {
        let rest = modified_files(local.drop_last(), remote);
        match change_of(local.last(), remote) {
            Change::Modified(remote_size) => rest.push(
                ModifiedEntry {
                    path: local.last().path,
                    local_size: local.last().size,
                    remote_size,
                },
            ),
            _ => rest,
        }
    }
}

/// The sandbox files no local file has the path of, in order.
pub open spec fn deleted_files(local: Seq<FileEntry>, remote: Seq<FileEntry>) -> Seq<FileEntry>
    decreases remote.len(),
{
    if remote.len() == 0 {
        Seq::empty()
    } else {
        let rest = deleted_files(local, remote.drop_last());
        if entry_at(local, remote.last().path@) is None {
            rest.push(remote.last())
        } else {
            rest
        }
    }
}

/// A copy of a file entry.
fn copy_entry(f: &FileEntry) -> (r: FileEntry)
    ensures
        r == *f,
{
    FileEntry { path: f.path.clone(), hash: f.hash.clone(), size: f.size }
}

/// The first entry of `files` at `path`, with its index.
fn find_entry(files: &Vec<FileEntry>, path: &str) -> (r: Option<usize>)
    ensures
        match r {
            Some(i) => i < files@.len() && entry_at(files@, path@) == Some(files@[i as int]),
            None => entry_at(files@, path@) is None,
        },
{
    let mut i: usize = 0;
    assert(files@.skip(0) =~= files@);
    while i < files.len()
        invariant
            i <= files@.len(),
            entry_at(files@, path@) == entry_at(files@.skip(i as int), path@),
        decreases files.len() - i,
    {
        proof {
            assert(files@.skip(i as int)[0] == files@[i as int]);
            assert(files@.skip(i as int).drop_first() =~= files@.skip(i + 1));
        }
        if str_eq(files[i].path.as_str(), path) {
            return Some(i);
        }
        i = i + 1;
    }
    proof {
        assert(files@.skip(i as int).len() == 0);
    }
    None
}

/// Compare local files with the sandbox's: a local file is added when no
/// sandbox file has its path, unchanged when the first one that does has
/// the same hash, modified otherwise; a sandbox file is deleted when no
/// local file has its path.
pub fn compute_upload_diff(local: &Vec<FileEntry>, remote: &Vec<FileEntry>) -> (r: UploadDiff)
    ensures
        r.added@ == added_files(local@, remote@),
        r.modified@ == modified_files(local@, remote@),
        r.unchanged@ == unchanged_files(local@, remote@),
        r.deleted@ == deleted_files(local@, remote@),
{
    let mut added: Vec<FileEntry> = Vec::new();
    let mut modified: Vec<ModifiedEntry> = Vec::new();
    let mut unchanged: Vec<FileEntry> = Vec::new();
    let mut i: usize = 0;
    while i < local.len()
        invariant
            i <= local@.len(),
            added@ == added_files(local@.take(i as int), remote@),
            modified@ == modified_files(local@.take(i as int), remote@),
            unchanged@ == unchanged_files(local@.take(i as int), remote@),
        decreases local.len() - i,
    {
        proof {
            let t = local@.take(i + 1);
            assert(t.drop_last() =~= local@.take(i as int));
            assert(t.last() == local@[i as int]);
        }
        let f = &local[i];
        match find_entry(remote, f.path.as_str()) {
            None => added.push(copy_entry(f)),
            Some(k) => {
                if str_eq(remote[k].hash.as_str(), f.hash.as_str()) {
                    unchanged.push(copy_entry(f));
                } else {
                    modified.push(
                        ModifiedEntry {
                            path: f.path.clone(),
                            local_size: f.size,
                            remote_size: remote[k].size,
                        },
                    );
                }
            },
        }
        i = i + 1;
    }
    assert(local@.take(i as int) =~= local@);
    let mut deleted: Vec<FileEntry> = Vec::new();
    let mut j: usize = 0;
    while j < remote.len()
        invariant
            j <= remote@.len(),
            deleted@ == deleted_files(local@, remote@.take(j as int)),
        decreases remote.len() - j,
    {
        proof {
            let t = remote@.take(j + 1);
            assert(t.drop_last() =~= remote@.take(j as int));
            assert(t.last() == remote@[j as int]);
        }
        if find_entry(local, remote[j].path.as_str()).is_none() {
            deleted.push(copy_entry(&remote[j]));
        }
        j = j + 1;
    }
    assert(remote@.take(j as int) =~= remote@);
    UploadDiff { added, modified, deleted, unchanged }
}

/// Every local file lands in exactly one of added, modified and unchanged.
pub proof fn lemma_local_files_partitioned(local: Seq<FileEntry>, remote: Seq<FileEntry>)
    ensures
        added_files(local, remote).len() + modified_files(local, remote).len() + unchanged_files(
            local,
            remote,
        ).len() == local.len(),
    decreases local.len(),
{
    if local.len() > 0 {
        lemma_local_files_partitioned(local.drop_last(), remote);
    }
}

/// Nothing is deleted when the sandbox has no files, and nothing is added,
/// modified or unchanged when there are no local files.
pub proof fn lemma_empty_sides(files: Seq<FileEntry>)
    ensures
        deleted_files(files, Seq::empty()).len() == 0,
        added_files(Seq::empty(), files).len() == 0,
        added_files(files, Seq::empty()) == files,
        deleted_files(Seq::empty(), files) == files,
    decreases files.len(),
{
    if files.len() > 0 {
        lemma_empty_sides(files.drop_last());
        assert(files.drop_last().push(files.last()) =~= files);
    }
}


// ---------------------------------------------------------------------------
// Filtered archives
// ---------------------------------------------------------------------------

/// `-name '<p1>' -o -name '<p2>' ...` for a list of patterns.
pub open spec fn name_tests(patterns: Seq<String>) -> Seq<char>
    decreases patterns.len(),
{
    if patterns.len() == 0 {
        Seq::empty()
    } else if patterns.len() == 1 {
        "-name "@ + shell_quoted(patterns[0]@)
    } else {
        name_tests(patterns.drop_last()) + " -o -name "@ + shell_quoted(patterns.last()@)
    }
}

fn push_name_tests(r: &mut String, patterns: &Vec<String>)
    ensures
        final(r)@ == old(r)@ + name_tests(patterns@),
{
    let ghost start = r@;
    let mut i: usize = 0;
    while i < patterns.len()
        invariant
            i <= patterns@.len(),
            r@ == start + name_tests(patterns@.take(i as int)),
        decreases patterns.len() - i,
    {
        proof {
            let t = patterns@.take(i + 1);
            assert(t.drop_last() =~= patterns@.take(i as int));
            assert(t.last() == patterns@[i as int]);
            if i == 0 {
                assert(patterns@.take(0) =~= Seq::<String>::empty());
            }
        }
        let ghost before = r@;
        if i == 0 {
            push_str_chars(r, "-name ");
        } else {
            push_str_chars(r, " -o -name ");
        }
        let q = shell_quote(patterns[i].as_str());
        push_str_chars(r, q.as_str());
        proof {
            if i == 0 {
                assert(r@ =~= start + name_tests(patterns@.take(1)));
            } else {
                assert(r@ =~= start + name_tests(patterns@.take(i + 1)));
            }
        }
        i = i + 1;
    }
    assert(patterns@.take(i as int) =~= patterns@);
}

/// The remote shell command that archives `dir` to stdout: the whole
/// directory without filters; with filters, the files found under it whose
/// names match an include pattern (when there are any) and no exclude
/// pattern, the include tests coming first.
pub open spec fn filtered_tar_text(dir: Seq<char>, includes: Seq<String>, excludes: Seq<String>) -> Seq<char> {
    if includes.len() == 0 && excludes.len() == 0 {
        "tar cf - -C "@ + shell_quoted(dir) + " ."@
    } else {
        "cd "@ + shell_quoted(dir) + " && find . -type f"@ + (if includes.len() > 0 {
            " \\( "@ + name_tests(includes) + " \\)"@
        } else {
            Seq::empty()
        }) + (if excludes.len() > 0 {
            " ! \\( "@ + name_tests(excludes) + " \\)"@
        } else {
            Seq::empty()
        }) + " -print0 | tar cf - --null -T -"@
    }
}

/// Build the archive command of a filtered upload.
pub fn build_filtered_tar_command(dir: &str, includes: &Vec<String>, excludes: &Vec<String>) -> (r: String)
    ensures
        r@ == filtered_tar_text(dir@, includes@, excludes@),
{
    let q = shell_quote(dir);
    if includes.len() == 0 && excludes.len() == 0 {
        let mut r = to_owned_string("tar cf - -C ");
        push_str_chars(&mut r, q.as_str());
        push_str_chars(&mut r, " .");
        return r;
    }
    let mut r = to_owned_string("cd ");
    push_str_chars(&mut r, q.as_str());
    push_str_chars(&mut r, " && find . -type f");
    let ghost head = r@;
    if includes.len() > 0 {
        push_str_chars(&mut r, " \\( ");
        push_name_tests(&mut r, includes);
        push_str_chars(&mut r, " \\)");
    }
    let ghost mid = r@;
    if excludes.len() > 0 {
        push_str_chars(&mut r, " ! \\( ");
        push_name_tests(&mut r, excludes);
        push_str_chars(&mut r, " \\)");
    }
    push_str_chars(&mut r, " -print0 | tar cf - --null -T -");
    proof {
        if includes@.len() == 0 {
            assert(mid == head);
        }
    }
    assert(r@ =~= filtered_tar_text(dir@, includes@, excludes@));
    r
}

} // verus!
