//! The rules of `ls`: which entries of a directory are listed, in what
//! order, and how each line of the listing is laid out.
//!
//! Reading the directory is the caller's. It hands over one `FileEntry`
//! per directory entry, holding what the file system said about it.

use vstd::prelude::*;
use crate::ls::list::{
    long_listing,
    long_listing_display,
    short_listing,
    short_listing_display,
    texts_of,
    ListingError,
};
use crate::ls::utils::{
    all_named,
    remove_backups,
    remove_dot_files,
    shown,
    sort_files,
    sorted_files,
    Hidden,
};

pub mod list;
pub mod utils;

verus! {

/// The options of `ls`.
#[derive(Clone, Debug)]
pub struct Cli {
    /// The directory to list; the working directory when absent.
    pub dir_path: Option<String>,
    /// Include entries whose names start with a dot.
    pub all: bool,
    /// Leave out the implied `.` and `..`.
    pub almost_all: bool,
    /// Include the author of each file.
    pub author: bool,
    /// Leave out entries whose names end in `~`.
    pub ignore_backups: bool,
    /// Give each file type its own colour.
    pub color: Option<String>,
    /// Directories before everything else.
    pub directory_order: bool,
    /// Append an indicator to entries.
    pub classify: bool,
    /// In the long listing, leave out group names.
    pub no_group: bool,
    /// Print sizes in short form.
    pub human_readable: bool,
    /// Leave out entries that match this pattern.
    pub ignore: Option<String>,
    /// Separate entries by commas.
    pub fill_width: bool,
    /// Append a slash to directories.
    pub indicator_style: bool,
    /// Newest first.
    pub sort_by_time: bool,
    /// Largest first.
    pub sort_by_size: bool,
    /// Use the long listing.
    pub long_listing: bool,
}

/// What the file system knows about one entry of a directory.
#[derive(Clone, Debug)]
pub struct FileEntry {
    pub name: String,
    pub is_dir: bool,
    /// Permission bits.
    pub mode: u32,
    /// Number of hard links.
    pub link_count: u64,
    /// Name of the owner, where it can be written as text.
    pub user: Option<String>,
    /// Name of the owning group, where it can be written as text.
    pub group: Option<String>,
    /// Size in bytes.
    pub size: u64,
    /// Time of last modification, in nanoseconds since the epoch.
    pub modified: i128,
    /// Time of last status change, in seconds since the epoch.
    pub status_changed: i64,
}

impl Default for Cli {
    /// No directory, no pattern, every switch off.
    fn default() -> (config: Cli)
        ensures
            config == (Cli {
                dir_path: None,
                all: false,
                almost_all: false,
                author: false,
                ignore_backups: false,
                color: None,
                directory_order: false,
                classify: false,
                no_group: false,
                human_readable: false,
                ignore: None,
                fill_width: false,
                indicator_style: false,
                sort_by_time: false,
                sort_by_size: false,
                long_listing: false,
            }),
    {
        Cli {
            dir_path: None,
            all: false,
            almost_all: false,
            author: false,
            ignore_backups: false,
            color: None,
            directory_order: false,
            classify: false,
            no_group: false,
            human_readable: false,
            ignore: None,
            fill_width: false,
            indicator_style: false,
            sort_by_time: false,
            sort_by_size: false,
            long_listing: false,
        }
    }
}

/// Filtering keeps every entry named.
pub proof fn lemma_filter_keeps_names(entries: Seq<FileEntry>, which: Hidden)
    requires
        all_named(entries),
    ensures
        all_named(entries.filter(shown(which))),
    decreases entries.len(),
{
    reveal(Seq::filter);
    if entries.len() > 0 {
        let front = entries.drop_last();
        assert forall|i: int| 0 <= i < front.len() implies (#[trigger] front[i]).name@.len()
            > 0 by {
            assert(front[i] == entries[i]);
        }
        lemma_filter_keeps_names(front, which);
    }
}

/// Whether the long listing is used: where it was asked for, and where an
/// option was given that only the long listing can show.
pub open spec fn wants_long(config: Cli) -> bool {
    config.long_listing || config.human_readable || config.no_group || config.author
}

impl Cli {
    /// Whether these options lead to the long listing.
    pub fn uses_long_listing(&self) -> (long: bool)
        ensures
            long == wants_long(*self),
    {
        self.long_listing || self.human_readable || self.no_group || self.author
    }
}

/// The entries that are listed, in the order in which they are listed:
/// without dot files unless all entries were asked for, without backups
/// where asked, and arranged as the options say.
pub open spec fn preprocessed(config: Cli, entries: Seq<FileEntry>) -> Seq<FileEntry> {
    let visible = if config.all {
        entries
    } else {
        entries.filter(shown(Hidden::DotFiles))
    };
    let kept = if config.ignore_backups {
        visible.filter(shown(Hidden::Backups))
    } else {
        visible
    };
    sorted_files(config, kept)
}

/// The lines of the listing of `entries`.
pub open spec fn listing(config: Cli, entries: Seq<FileEntry>, utc_offset: i32) -> Result<
    Seq<Seq<char>>,
    ListingError,
> {
    let listed = preprocessed(config, entries);
    if wants_long(config) {
        long_listing(listed, config.no_group, utc_offset)
    } else {
        Ok(seq![short_listing(listed, config.classify, config.fill_width)])
    }
}

/// Filters and arranges the entries as the options say.
pub fn preprocess_entries(contents: &mut Vec<FileEntry>, config: &Cli)
    requires
        all_named(old(contents)@),
    ensures
        final(contents)@ == preprocessed(*config, old(contents)@),
{
    if !config.all {
        proof {
            lemma_filter_keeps_names(contents@, Hidden::DotFiles);
        }
        remove_dot_files(contents);
    }
    if config.ignore_backups {
        remove_backups(contents);
    }
    if config.sort_by_time || config.sort_by_size || config.directory_order {
        sort_files(config, contents);
    }
}

/// Lists the entries of a directory: the lines to print, in order.
///
/// Reading the directory and printing are the caller's. `utc_offset` is
/// what local time is ahead of UTC, in seconds; only the long listing
/// uses it.
pub fn run(config: &Cli, contents: Vec<FileEntry>, utc_offset: i32) -> (lines: Result<
    Vec<String>,
    ListingError,
>)
    requires
        all_named(contents@),
    ensures
        match (lines, listing(*config, contents@, utc_offset)) {
            (Ok(out), Ok(expected)) => texts_of(out@) == expected,
            (Err(e), Err(f)) => e == f,
            _ => false,
        },
{
    let mut contents = contents;
    preprocess_entries(&mut contents, config);
    if config.uses_long_listing() {
        long_listing_display(&contents, config, utc_offset)
    } else {
        let line = short_listing_display(&contents, &config.classify, &config.fill_width);
        let mut lines: Vec<String> = Vec::new();
        lines.push(line);
        assert(texts_of(lines@) =~= seq![line@]);
        Ok(lines)
    }
}

} // verus!
