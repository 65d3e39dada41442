use vstd::prelude::*;
use vstd::multiset::Multiset;
use vstd::seq_lib::{to_multiset_build, to_multiset_insert};
use vstd::string::StrSliceExecFns;

verus! {

/// One file or directory found under a source path.
#[derive(Debug)]
pub struct FileEntry {
    /// Where the entry is on the sender's disk.
    pub path: String,
    /// Its path below the source root, components joined by `/`.
    pub relative_path: String,
    pub is_dir: bool,
    /// Its length in bytes; 0 for a directory.
    pub size: u64,
}

/// The rank of a character in path order: the separator comes before every
/// other character, so paths compare component by component.
pub open spec fn char_rank(c: char) -> int {
    if c == '/' {
        0
    } else {
        c as int + 1
    }
}

/// Whether path `a` sorts before or equal to path `b`.
pub open spec fn path_le(a: Seq<char>, b: Seq<char>) -> bool
    decreases a.len(),
{
    if a.len() == 0 {
        true
    } else if b.len() == 0 {
        false
    } else if char_rank(a[0]) != char_rank(b[0]) {
        char_rank(a[0]) < char_rank(b[0])
    } else {
        path_le(a.drop_first(), b.drop_first())
    }
}

/// Entry order: directories before files, then by relative path.
pub open spec fn entry_le(a: FileEntry, b: FileEntry) -> bool {
    (a.is_dir && !b.is_dir) || (a.is_dir == b.is_dir && path_le(a.relative_path@, b.relative_path@))
}

pub open spec fn entries_ordered(s: Seq<FileEntry>) -> bool {
    forall|i: int, j: int| 0 <= i < j < s.len() ==> entry_le(#[trigger] s[i], #[trigger] s[j])
}

proof fn lemma_path_le_total(a: Seq<char>, b: Seq<char>)
    ensures
        path_le(a, b) || path_le(b, a),
    decreases a.len(),
{
    if a.len() > 0 && b.len() > 0 && char_rank(a[0]) == char_rank(b[0]) {
        lemma_path_le_total(a.drop_first(), b.drop_first());
    }
}

proof fn lemma_path_le_trans(a: Seq<char>, b: Seq<char>, c: Seq<char>)
    requires
        path_le(a, b),
        path_le(b, c),
    ensures
        path_le(a, c),
    decreases a.len(),
{
    if a.len() > 0 && b.len() > 0 && c.len() > 0 && char_rank(a[0]) == char_rank(b[0])
        && char_rank(b[0]) == char_rank(c[0]) {
        lemma_path_le_trans(a.drop_first(), b.drop_first(), c.drop_first());
    }
}

proof fn lemma_entry_le_total(a: FileEntry, b: FileEntry)
    ensures
        entry_le(a, b) || entry_le(b, a),
{
    lemma_path_le_total(a.relative_path@, b.relative_path@);
}

proof fn lemma_entry_le_trans(a: FileEntry, b: FileEntry, c: FileEntry)
    requires
        entry_le(a, b),
        entry_le(b, c),
    ensures
        entry_le(a, c),
{
    if a.is_dir == b.is_dir && b.is_dir == c.is_dir {
        lemma_path_le_trans(a.relative_path@, b.relative_path@, c.relative_path@);
    }
}

fn rank(c: char) -> (r: u64)
    ensures
        r == char_rank(c),
{
    if c == '/' {
        0
    } else {
        c as u64 + 1
    }
}

/// Whether path `a` sorts before or equal to path `b`.
pub fn path_precedes(a: &str, b: &str) -> (r: bool)
    ensures
        r == path_le(a@, b@),
{
    let la = a.unicode_len();
    let lb = b.unicode_len();
    let mut i: usize = 0;
    assert(a@.subrange(0, la as int) =~= a@);
    assert(b@.subrange(0, lb as int) =~= b@);
    while i < la && i < lb
        invariant
            la == a@.len(),
            lb == b@.len(),
            i <= la,
            i <= lb,
            path_le(a@, b@) == path_le(a@.subrange(i as int, la as int), b@.subrange(i as int, lb as int)),
        decreases la - i,
    {
        let x = rank(a.get_char(i));
        let y = rank(b.get_char(i));
        let ghost sa = a@.subrange(i as int, la as int);
        let ghost sb = b@.subrange(i as int, lb as int);
        assert(sa[0] == a@[i as int]);
        assert(sb[0] == b@[i as int]);
        if x != y {
            return x < y;
        }
        assert(sa.drop_first() =~= a@.subrange(i + 1, la as int));
        assert(sb.drop_first() =~= b@.subrange(i + 1, lb as int));
        i = i + 1;
    }
    i == la
}

fn entry_precedes(a: &FileEntry, b: &FileEntry) -> (r: bool)
    ensures
        r == entry_le(*a, *b),
{
    (a.is_dir && !b.is_dir) || (a.is_dir == b.is_dir && path_precedes(
        a.relative_path.as_str(),
        b.relative_path.as_str(),
    ))
}

/// Puts entries in transfer order: every directory before every file, each
/// group by relative path. A directory thus comes before all it contains.
pub fn order_entries(entries: Vec<FileEntry>) -> (r: Vec<FileEntry>)
    ensures
        entries_ordered(r@),
        r@.to_multiset() == entries@.to_multiset(),
{
    let mut rest = entries;
    let mut out: Vec<FileEntry> = Vec::new();
    proof {
        out@.to_multiset_ensures();
        vstd::multiset::lemma_multiset_empty_len(out@.to_multiset());
        assert(out@.to_multiset().add(rest@.to_multiset()) =~= entries@.to_multiset());
    }
    while rest.len() > 0
        invariant
            entries_ordered(out@),
            out@.to_multiset().add(rest@.to_multiset()) == entries@.to_multiset(),
        decreases rest@.len(),
    {
        let ghost before = rest@;
        let e = rest.pop().unwrap();
        proof {
            assert(before =~= rest@.push(e));
            to_multiset_build(rest@, e);
        }
        let mut pos: usize = 0;
        while pos < out.len() && entry_precedes(&out[pos], &e)
            invariant
                pos <= out@.len(),
                forall|k: int| 0 <= k < pos ==> entry_le(#[trigger] out@[k], e),
            decreases out@.len() - pos,
        {
            pos = pos + 1;
        }
        let ghost old_out = out@;
        proof {
            if pos < old_out.len() {
                lemma_entry_le_total(old_out[pos as int], e);
                assert forall|k: int| pos <= k < old_out.len() implies entry_le(
                    e,
                    #[trigger] old_out[k],
                ) by {
                    if k > pos {
                        assert(entry_le(old_out[pos as int], old_out[k]));
                        lemma_entry_le_trans(e, old_out[pos as int], old_out[k]);
                    }
                }
            }
            to_multiset_insert(old_out, pos as int, e);
        }
        out.insert(pos, e);
        proof {
            assert forall|i: int, j: int| 0 <= i < j < out@.len() implies entry_le(
                #[trigger] out@[i],
                #[trigger] out@[j],
            ) by {
                if j < pos {
                    assert(out@[i] == old_out[i] && out@[j] == old_out[j]);
                } else if j == pos {
                    assert(out@[i] == old_out[i]);
                } else if i == pos {
                    assert(out@[j] == old_out[j - 1]);
                } else if i < pos {
                    assert(out@[i] == old_out[i] && out@[j] == old_out[j - 1]);
                } else {
                    assert(out@[i] == old_out[i - 1] && out@[j] == old_out[j - 1]);
                }
            }
            assert(out@.to_multiset().add(rest@.to_multiset()) =~= entries@.to_multiset());
        }
    }
    proof {
        rest@.to_multiset_ensures();
        vstd::multiset::lemma_multiset_empty_len(rest@.to_multiset());
        assert(rest@.to_multiset() =~= Multiset::empty());
        assert(out@.to_multiset().add(Multiset::empty()) =~= out@.to_multiset());
    }
    out
}

/// Whether `child` names an entry inside the directory named `dir`.
pub open spec fn is_descendant(child: Seq<char>, dir: Seq<char>) -> bool {
    &&& child.len() > dir.len()
    &&& child.subrange(0, dir.len() as int) == dir
    &&& (dir.len() == 0 || child[dir.len() as int] == '/')
}

proof fn lemma_longer_not_le(child: Seq<char>, dir: Seq<char>)
    requires
        child.len() > dir.len(),
        child.subrange(0, dir.len() as int) == dir,
    ensures
        !path_le(child, dir),
    decreases dir.len(),
{
    if dir.len() > 0 {
        assert(child[0] == dir[0]);
        assert(child.drop_first().subrange(0, dir.drop_first().len() as int) =~= dir.drop_first());
        lemma_longer_not_le(child.drop_first(), dir.drop_first());
    }
}

/// In transfer order a directory comes before every entry inside it.
pub proof fn lemma_directory_precedes_descendants(s: Seq<FileEntry>, i: int, j: int)
    requires
        entries_ordered(s),
        0 <= i < s.len(),
        0 <= j < s.len(),
        s[i].is_dir,
        is_descendant(s[j].relative_path@, s[i].relative_path@),
    ensures
        i < j,
{
    if j < i {
        assert(entry_le(s[j], s[i]));
        lemma_longer_not_le(s[j].relative_path@, s[i].relative_path@);
    } else if j == i {
        assert(s[j].relative_path@.len() > s[i].relative_path@.len());
    }
}

/// The bytes a transfer moves: the sizes of the files, directories adding
/// nothing.
pub open spec fn total_size(entries: Seq<FileEntry>) -> nat
    decreases entries.len(),
{
    if entries.len() == 0 {
        0
    } else {
        total_size(entries.drop_last()) + if entries.last().is_dir {
            0nat
        } else {
            entries.last().size as nat
        }
    }
}

/// The bytes a transfer moves, saturating at the largest `u64`.
pub fn calculate_total_size(entries: &Vec<FileEntry>) -> (r: u64)
    ensures
        r == if total_size(entries@) > u64::MAX {
            u64::MAX as nat
        } else {
            total_size(entries@)
        },
{
    let mut sum: u64 = 0;
    let mut saturated = false;
    let mut i: usize = 0;
    while i < entries.len()
        invariant
            i <= entries@.len(),
            saturated ==> sum == u64::MAX && total_size(entries@.subrange(0, i as int)) > u64::MAX,
            !saturated ==> sum == total_size(entries@.subrange(0, i as int)),
        decreases entries@.len() - i,
    {
        let ghost prefix = entries@.subrange(0, i + 1);
        assert(prefix.drop_last() =~= entries@.subrange(0, i as int));
        let add: u64 = if entries[i].is_dir {
            0
        } else {
            entries[i].size
        };
        if !saturated {
            match sum.checked_add(add) {
                Some(v) => sum = v,
                None => {
                    sum = u64::MAX;
                    saturated = true;
                },
            }
        }
        i = i + 1;
    }
    assert(entries@.subrange(0, i as int) =~= entries@);
    sum
}

} // verus!
