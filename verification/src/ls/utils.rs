//! Filtering and ordering of directory entries, and the text of a
//! permission mode.

use vstd::prelude::*;
use vstd::string::StrSliceExecFns;
use vstd::string::StringExecFns;
use crate::ls::{Cli, FileEntry};

verus! {

/// Every entry of a directory has a name.
pub open spec fn all_named(entries: Seq<FileEntry>) -> bool {
    forall|i: int| 0 <= i < entries.len() ==> (#[trigger] entries[i]).name@.len() > 0
}

/// The two kinds of entries that a listing can leave out.
#[derive(Clone, Copy, Debug, PartialEq, Eq, Structural)]
pub enum Hidden {
    /// Names that start with a dot.
    DotFiles,
    /// Names that end in `~`.
    Backups,
}

/// Whether `entry` is of the kind `which`.
pub open spec fn is_hidden(which: Hidden, entry: FileEntry) -> bool {
    match which {
        Hidden::DotFiles => entry.name@.len() > 0 && entry.name@.first() == '.',
        Hidden::Backups => entry.name@.len() > 0 && entry.name@.last() == '~',
    }
}

/// The entries that stay when those of kind `which` are left out.
pub open spec fn shown(which: Hidden) -> spec_fn(FileEntry) -> bool {
    |entry: FileEntry| !is_hidden(which, entry)
}

fn entry_is_hidden(which: Hidden, entry: &FileEntry) -> (hidden: bool)
    requires
        entry.name@.len() > 0,
    ensures
        hidden == is_hidden(which, *entry),
{
    let name = entry.name.as_str();
    match which {
        Hidden::DotFiles => name.get_char(0) == '.',
        Hidden::Backups => {
            let n = name.unicode_len();
            name.get_char(n - 1) == '~'
        },
    }
}

fn remove_hidden(contents: &mut Vec<FileEntry>, which: Hidden)
    requires
        all_named(old(contents)@),
    ensures
        final(contents)@ == old(contents)@.filter(shown(which)),
{
    let ghost orig = contents@;
    let ghost mut done: int = 0;
    let mut i: usize = 0;
    while i < contents.len()
        invariant
            orig == old(contents)@,
            all_named(orig),
            0 <= done <= orig.len(),
            i == orig.take(done).filter(shown(which)).len(),
            contents@ == orig.take(done).filter(shown(which)) + orig.skip(done),
        decreases orig.len() - done,
    {
        proof {
            assert(orig.take(done + 1) == orig.take(done).push(orig[done]));
            orig.take(done).lemma_filter_push(orig[done], shown(which));
            assert(contents@[i as int] == orig.skip(done)[0]);
        }
        if entry_is_hidden(which, &contents[i]) {
            let _ = contents.remove(i);
        } else {
            i = i + 1;
        }
        proof {
            done = done + 1;
            assert(contents@ =~= orig.take(done).filter(shown(which)) + orig.skip(done));
        }
    }
    proof {
        assert(orig.take(done) == orig);
        assert(contents@ =~= orig.filter(shown(which)));
    }
}

/// Leaves out the entries whose names start with a dot. The others keep
/// their order.
pub fn remove_dot_files(contents: &mut Vec<FileEntry>)
    requires
        all_named(old(contents)@),
    ensures
        final(contents)@ == old(contents)@.filter(shown(Hidden::DotFiles)),
{
    remove_hidden(contents, Hidden::DotFiles)
}

/// Leaves out the entries whose names end in `~`. The others keep their
/// order.
pub fn remove_backups(contents: &mut Vec<FileEntry>)
    requires
        all_named(old(contents)@),
    ensures
        final(contents)@ == old(contents)@.filter(shown(Hidden::Backups)),
{
    remove_hidden(contents, Hidden::Backups)
}

/// Time of last modification of an entry.
pub fn get_modified_time(elem: &FileEntry) -> (time: i128)
    ensures
        time == elem.modified,
{
    elem.modified
}

/// Size of an entry in bytes.
pub fn get_file_size(elem: &FileEntry) -> (size: u64)
    ensures
        size == elem.size,
{
    elem.size
}

/// One for a directory, zero for anything else.
pub fn convert_file_type_to_val(elem: &FileEntry) -> (val: i32)
    ensures
        val == if elem.is_dir {
            1int
        } else {
            0int
        },
{
    if elem.is_dir {
        1
    } else {
        0
    }
}

/// Whether an entry is a directory.
pub fn file_is_dir(file: &FileEntry) -> (dir: bool)
    ensures
        dir == file.is_dir,
{
    file.is_dir
}

/// The orders in which a listing can be arranged.
#[derive(Clone, Copy, Debug, PartialEq, Eq, Structural)]
pub enum SortOrder {
    /// By time of last modification, newest first.
    NewestFirst,
    /// By size, largest first.
    LargestFirst,
    /// Newest first; among entries of one time, largest first.
    NewestThenLargest,
    /// Directories before everything else.
    DirectoriesFirst,
}

/// Whether `a` has to stand before `b` in the given order.
pub open spec fn outranks(order: SortOrder, a: FileEntry, b: FileEntry) -> bool {
    match order {
        SortOrder::NewestFirst => a.modified > b.modified,
        SortOrder::LargestFirst => a.size > b.size,
        SortOrder::NewestThenLargest => a.modified > b.modified || (a.modified == b.modified
            && a.size > b.size),
        SortOrder::DirectoriesFirst => a.is_dir && !b.is_dir,
    }
}

/// Entries between which the order does not decide.
pub open spec fn same_rank(order: SortOrder, a: FileEntry, b: FileEntry) -> bool {
    !outranks(order, a, b) && !outranks(order, b, a)
}

/// The entries that the order does not tell apart from `entry`.
pub open spec fn rank_class(order: SortOrder, entry: FileEntry) -> spec_fn(FileEntry) -> bool {
    |other: FileEntry| same_rank(order, other, entry)
}

/// No entry stands behind one that it outranks.
pub open spec fn is_ranked(order: SortOrder, entries: Seq<FileEntry>) -> bool {
    forall|i: int, j: int|
        0 <= i < j < entries.len() ==> !outranks(order, #[trigger] entries[j], #[trigger] entries[i])
}

/// Where `entry` goes in an arranged sequence: in front of the trailing
/// run of entries that it outranks, and so behind every entry of its own
/// rank.
pub open spec fn rank_position(order: SortOrder, ranked: Seq<FileEntry>, entry: FileEntry) -> int
    decreases ranked.len(),
{
    if ranked.len() == 0 {
        0
    } else if outranks(order, entry, ranked.last()) {
        rank_position(order, ranked.drop_last(), entry)
    } else {
        ranked.len() as int
    }
}

/// `entries` arranged in the given order, entries of one rank staying in
/// the order in which they came.
pub open spec fn stable_sort(order: SortOrder, entries: Seq<FileEntry>) -> Seq<FileEntry>
    decreases entries.len(),
{
    if entries.len() == 0 {
        entries
    } else {
        let front = stable_sort(order, entries.drop_last());
        front.insert(rank_position(order, front, entries.last()), entries.last())
    }
}

/// The position of an entry is the one place that has only outranked
/// entries behind it and an entry that is not outranked just before it.
pub proof fn lemma_rank_position(
    order: SortOrder,
    ranked: Seq<FileEntry>,
    entry: FileEntry,
    at: int,
)
    requires
        0 <= at <= ranked.len(),
        forall|k: int| at <= k < ranked.len() ==> outranks(order, entry, #[trigger] ranked[k]),
        at > 0 ==> !outranks(order, entry, ranked[at - 1]),
    ensures
        rank_position(order, ranked, entry) == at,
    decreases ranked.len(),
{
    if ranked.len() > 0 && at < ranked.len() {
        let front = ranked.drop_last();
        assert(outranks(order, entry, ranked[ranked.len() - 1]));
        assert forall|k: int| at <= k < front.len() implies outranks(
            order,
            entry,
            #[trigger] front[k],
        ) by {
            assert(front[k] == ranked[k]);
        }
        lemma_rank_position(order, front, entry, at);
    }
}

/// What holds at the position of an entry.
pub proof fn lemma_rank_position_bounds(order: SortOrder, ranked: Seq<FileEntry>, entry: FileEntry)
    ensures
        0 <= rank_position(order, ranked, entry) <= ranked.len(),
        forall|k: int|
            rank_position(order, ranked, entry) <= k < ranked.len() ==> outranks(
                order,
                entry,
                #[trigger] ranked[k],
            ),
        rank_position(order, ranked, entry) > 0 ==> !outranks(
            order,
            entry,
            ranked[rank_position(order, ranked, entry) - 1],
        ),
    decreases ranked.len(),
{
    if ranked.len() > 0 && outranks(order, entry, ranked.last()) {
        let front = ranked.drop_last();
        lemma_rank_position_bounds(order, front, entry);
        let at = rank_position(order, front, entry);
        assert forall|k: int| at <= k < ranked.len() implies outranks(
            order,
            entry,
            #[trigger] ranked[k],
        ) by {
            if k < front.len() {
                assert(front[k] == ranked[k]);
            }
        }
        if at > 0 {
            assert(front[at - 1] == ranked[at - 1]);
        }
    }
}

/// Sorting arranges: in the result no entry stands behind one that it
/// outranks.
pub proof fn lemma_stable_sort_is_ranked(order: SortOrder, entries: Seq<FileEntry>)
    ensures
        is_ranked(order, stable_sort(order, entries)),
    decreases entries.len(),
{
    if entries.len() > 0 {
        let front = stable_sort(order, entries.drop_last());
        let entry = entries.last();
        let at = rank_position(order, front, entry);
        lemma_stable_sort_is_ranked(order, entries.drop_last());
        lemma_rank_position_bounds(order, front, entry);
        let result = front.insert(at, entry);
        assert forall|i: int, j: int| 0 <= i < j < result.len() implies !outranks(
            order,
            #[trigger] result[j],
            #[trigger] result[i],
        ) by {
            if j < at {
                assert(result[i] == front[i] && result[j] == front[j]);
            } else if j == at {
                assert(result[i] == front[i]);
                if i < at - 1 {
                    assert(!outranks(order, front[at - 1], front[i]));
                }
            } else if i == at {
                assert(result[j] == front[j - 1]);
            } else if i < at {
                assert(result[i] == front[i] && result[j] == front[j - 1]);
            } else {
                assert(result[i] == front[i - 1] && result[j] == front[j - 1]);
            }
        }
    }
}

/// Sorting neither adds nor drops an entry.
pub proof fn lemma_stable_sort_is_permutation(order: SortOrder, entries: Seq<FileEntry>)
    ensures
        stable_sort(order, entries).to_multiset() == entries.to_multiset(),
        stable_sort(order, entries).len() == entries.len(),
    decreases entries.len(),
{
    if entries.len() > 0 {
        let front = stable_sort(order, entries.drop_last());
        let entry = entries.last();
        let at = rank_position(order, front, entry);
        lemma_stable_sort_is_permutation(order, entries.drop_last());
        lemma_rank_position_bounds(order, front, entry);
        let result = front.insert(at, entry);
        assert(result.remove(at) == front);
        assert(result[at] == entry);
        result.to_multiset_ensures();
        entries.drop_last().to_multiset_ensures();
        assert(entries.drop_last().push(entry) == entries);
        assert(result.to_multiset() =~= front.to_multiset().insert(entry));
    }
}

/// Sorting is stable: the entries of any one rank come out in the order in
/// which they went in.
pub proof fn lemma_stable_sort_is_stable(
    order: SortOrder,
    entries: Seq<FileEntry>,
    entry: FileEntry,
)
    ensures
        stable_sort(order, entries).filter(rank_class(order, entry)) == entries.filter(
            rank_class(order, entry),
        ),
    decreases entries.len(),
{
    let class = rank_class(order, entry);
    if entries.len() > 0 {
        let before = entries.drop_last();
        let front = stable_sort(order, before);
        let last = entries.last();
        let at = rank_position(order, front, last);
        lemma_stable_sort_is_stable(order, before, entry);
        lemma_rank_position_bounds(order, front, last);
        let head = front.take(at);
        let tail = front.skip(at);
        assert(front == head + tail);
        assert(front.insert(at, last) == head.push(last) + tail);
        Seq::filter_distributes_over_add(head, tail, class);
        Seq::filter_distributes_over_add(head.push(last), tail, class);
        head.lemma_filter_push(last, class);
        before.lemma_filter_push(last, class);
        assert(before.push(last) == entries);
        if class(last) {
            assert forall|k: int| 0 <= k < tail.len() implies !class(#[trigger] tail[k]) by {
                assert(tail[k] == front[at + k]);
            }
            assert(tail.all(|x: FileEntry| !class(x)));
            tail.lemma_all_neg_filter_empty(class);
            assert(tail.filter(class) =~= Seq::<FileEntry>::empty());
            assert(head.push(last).filter(class) + tail.filter(class) =~= (head.filter(class)
                + tail.filter(class)).push(last));
        }
    } else {
        assert(stable_sort(order, entries) == entries);
    }
}

fn entry_outranks(order: SortOrder, a: &FileEntry, b: &FileEntry) -> (result: bool)
    ensures
        result == outranks(order, *a, *b),
{
    match order {
        SortOrder::NewestFirst => a.modified > b.modified,
        SortOrder::LargestFirst => a.size > b.size,
        SortOrder::NewestThenLargest => a.modified > b.modified || (a.modified == b.modified
            && a.size > b.size),
        SortOrder::DirectoriesFirst => a.is_dir && !b.is_dir,
    }
}

/// Arranges `contents` in the given order. Entries of one rank stay in
/// the order in which they came.
pub fn sort_by_rank(contents: &mut Vec<FileEntry>, order: SortOrder)
    ensures
        final(contents)@ == stable_sort(order, old(contents)@),
{
    let ghost orig = contents@;
    let mut i: usize = 0;
    while i < contents.len()
        invariant
            orig == old(contents)@,
            contents.len() == orig.len(),
            i <= contents.len(),
            contents@ == stable_sort(order, orig.take(i as int)) + orig.skip(i as int),
            stable_sort(order, orig.take(i as int)).len() == i,
        decreases contents.len() - i,
    {
        let ghost front = stable_sort(order, orig.take(i as int));
        let ghost entry = orig[i as int];
        proof {
            assert(contents@[i as int] == orig.skip(i as int)[0]);
            assert(contents@.take(i as int) == front);
        }
        let mut j: usize = i;
        while j > 0 && entry_outranks(order, &contents[i], &contents[j - 1])
            invariant
                j <= i < contents.len(),
                contents@[i as int] == entry,
                contents@.take(i as int) == front,
                forall|k: int| j <= k < i ==> outranks(order, entry, #[trigger] front[k]),
            decreases j,
        {
            proof {
                assert(front[j - 1] == contents@[j - 1]);
            }
            j = j - 1;
        }
        proof {
            if j > 0 {
                assert(front[j - 1] == contents@[j - 1]);
            }
            lemma_rank_position(order, front, entry, j as int);
            assert(orig.take(i + 1).drop_last() == orig.take(i as int));
            assert(orig.take(i + 1).last() == entry);
        }
        let moved = contents.remove(i);
        contents.insert(j, moved);
        proof {
            assert(contents@ =~= front.insert(j as int, entry) + orig.skip(i + 1));
        }
        i = i + 1;
    }
    proof {
        assert(orig.take(i as int) == orig);
        assert(contents@ =~= stable_sort(order, orig));
    }
}

/// The entries in the order that the options ask for: by time, by size or
/// by both where asked, and then, where asked, directories first.
pub open spec fn sorted_files(config: Cli, entries: Seq<FileEntry>) -> Seq<FileEntry> {
    let by_key = if config.sort_by_time && config.sort_by_size {
        stable_sort(SortOrder::NewestThenLargest, entries)
    } else if config.sort_by_time {
        stable_sort(SortOrder::NewestFirst, entries)
    } else if config.sort_by_size {
        stable_sort(SortOrder::LargestFirst, entries)
    } else {
        entries
    };
    if config.directory_order {
        stable_sort(SortOrder::DirectoriesFirst, by_key)
    } else {
        by_key
    }
}

/// Arranges `contents` as the options ask.
pub fn sort_files(config: &Cli, contents: &mut Vec<FileEntry>)
    ensures
        final(contents)@ == sorted_files(*config, old(contents)@),
{
    if config.sort_by_time && config.sort_by_size {
        sort_by_rank(contents, SortOrder::NewestThenLargest);
    } else if config.sort_by_time {
        sort_by_rank(contents, SortOrder::NewestFirst);
    } else if config.sort_by_size {
        sort_by_rank(contents, SortOrder::LargestFirst);
    }
    if config.directory_order {
        sort_by_rank(contents, SortOrder::DirectoriesFirst);
    }
}

/// The symbol of a permission where the bit `mask` is set in `mode`, a
/// dash where it is not.
pub open spec fn permission(mode: u32, mask: u32, symbol: char) -> char {
    if mode & mask > 0 {
        symbol
    } else {
        '-'
    }
}

/// The ten characters that show the kind and the permissions of an entry:
/// `d` or a dash, then read, write and execute for the owner, the group
/// and everyone else.
pub open spec fn mode_text(is_dir: bool, mode: u32) -> Seq<char> {
    seq![
        if is_dir {
            'd'
        } else {
            '-'
        },
        permission(mode, 0o400, 'r'),
        permission(mode, 0o200, 'w'),
        permission(mode, 0o100, 'x'),
        permission(mode, 0o40, 'r'),
        permission(mode, 0o20, 'w'),
        permission(mode, 0o10, 'x'),
        permission(mode, 0o4, 'r'),
        permission(mode, 0o2, 'w'),
        permission(mode, 0o1, 'x'),
    ]
}

fn push_permission(out: &mut String, mode: u32, mask: u32, symbol: &str)
    requires
        symbol@.len() == 1,
    ensures
        final(out)@ == old(out)@.push(permission(mode, mask, symbol@[0])),
{
    if mode & mask > 0 {
        out.append(symbol);
        assert(out@ =~= old(out)@.push(symbol@[0]));
    } else {
        proof {
            reveal_strlit("-");
        }
        out.append("-");
        assert(out@ =~= old(out)@.push('-'));
    }
}

/// Writes the kind and the permissions of an entry as ten characters.
pub fn get_mode_string(entry: &FileEntry) -> (mode_string: String)
    ensures
        mode_string@ == mode_text(entry.is_dir, entry.mode),
{
    proof {
        reveal_strlit("d");
        reveal_strlit("-");
        reveal_strlit("r");
        reveal_strlit("w");
        reveal_strlit("x");
    }
    let mode = entry.mode;
    let mut mode_string = String::new();
    if file_is_dir(entry) {
        mode_string.append("d");
    } else {
        mode_string.append("-");
    }
    push_permission(&mut mode_string, mode, 0o400, "r");
    push_permission(&mut mode_string, mode, 0o200, "w");
    push_permission(&mut mode_string, mode, 0o100, "x");
    push_permission(&mut mode_string, mode, 0o40, "r");
    push_permission(&mut mode_string, mode, 0o20, "w");
    push_permission(&mut mode_string, mode, 0o10, "x");
    push_permission(&mut mode_string, mode, 0o4, "r");
    push_permission(&mut mode_string, mode, 0o2, "w");
    push_permission(&mut mode_string, mode, 0o1, "x");
    assert(mode_string@ =~= mode_text(entry.is_dir, entry.mode));
    mode_string
}

} // verus!
