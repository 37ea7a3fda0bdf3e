//! The table of vanilla server jars: one line for each version of the
//! game, with the address of its server jar.

use vstd::prelude::*;
use vstd::string::StringExecFns;
use crate::network::fabric_meta::PrintVersionMode;
use crate::seqs::{first_index, lemma_filter_step, lemma_first_index_is, lemma_first_index_none};
use crate::text::{
    chars_of,
    copy_range,
    join_strings,
    joined,
    lines,
    lines_of,
    piece_views,
    seq_eq,
    split,
    split_on,
    string_from_chars,
    trim,
    trimmed,
};
use crate::tokenizer::word_views;

verus! {

/// Why a server jar cannot be fetched.
#[derive(Clone, Copy, Debug, PartialEq, Eq, Structural)]
pub enum DownloadError {
    /// The table has no server jar for the version.
    VersionNotFound,
}

impl DownloadError {
    /// The words shown to the user.
    pub fn message(&self) -> (r: &'static str)
        ensures
            r@ == "Version not found"@,
    {
        "Version not found"
    }
}

/// What a line of the table says: the version, in the second of the columns
/// between bars, and the address in the third, both without the blanks
/// around them. A line with fewer columns, or with `Not found` for an
/// address, says nothing.
pub open spec fn table_row(line: Seq<char>) -> Option<(Seq<char>, Seq<char>)> {
    let columns = split_on(line, '|');
    if columns.len() >= 3 && trimmed(columns[2]) != "Not found"@ {
        Some((trimmed(columns[1]), trimmed(columns[2])))
    } else {
        None
    }
}

/// The lines of the table below its two lines of heading.
pub open spec fn table_body(content: Seq<char>) -> Seq<Seq<char>> {
    let all = lines_of(content);
    if all.len() >= 2 {
        all.skip(2)
    } else {
        Seq::empty()
    }
}

/// The versions of the table with the addresses of their server jars, in
/// the order of the table.
pub open spec fn table_entries(content: Seq<char>) -> Seq<(Seq<char>, Seq<char>)> {
    table_body(content).filter_map(|line: Seq<char>| table_row(line))
}

/// The pairs of texts that a list of pairs of strings holds.
pub open spec fn pair_views(pairs: Seq<(String, String)>) -> Seq<(Seq<char>, Seq<char>)> {
    Seq::new(pairs.len(), |i: int| (pairs[i].0@, pairs[i].1@))
}

/// Whether a version is a snapshot or a pre-release: its name holds a dash
/// or a `w`.
pub open spec fn is_unstable(version: Seq<char>) -> bool {
    version.contains('-') || version.contains('w')
}

/// Holds of an entry that a listing in `mode` shows.
pub open spec fn is_listed(mode: PrintVersionMode) -> spec_fn((Seq<char>, Seq<char>)) -> bool {
    |entry: (Seq<char>, Seq<char>)| !(mode == PrintVersionMode::StableOnly && is_unstable(entry.0))
}

/// Holds of an entry for a stable version.
pub open spec fn is_stable_row() -> spec_fn((Seq<char>, Seq<char>)) -> bool {
    |entry: (Seq<char>, Seq<char>)| !is_unstable(entry.0)
}

/// Holds of an entry for the version `version`.
pub open spec fn is_version(version: Seq<char>) -> spec_fn((Seq<char>, Seq<char>)) -> bool {
    |entry: (Seq<char>, Seq<char>)| entry.0 == version
}

fn has_char(s: &[char], c: char) -> (b: bool)
    ensures
        b == s@.contains(c),
{
    let mut i: usize = 0;
    while i < s.len()
        invariant
            i <= s@.len(),
            forall|j: int| 0 <= j < i ==> s@[j] != c,
        decreases s@.len() - i,
    {
        if s[i] == c {
            return true;
        }
        i += 1;
    }
    false
}

/// Whether a version is a snapshot or a pre-release.
pub fn is_unstable_version(version: &str) -> (b: bool)
    ensures
        b == is_unstable(version@),
{
    let chars = chars_of(version);
    has_char(chars.as_slice(), '-') || has_char(chars.as_slice(), 'w')
}

/// Whether a version is a release.
pub fn is_stable_version(version: &str) -> (b: bool)
    ensures
        b == !is_unstable(version@),
{
    !is_unstable_version(version)
}

fn read_row(line: &[char]) -> (r: Option<(String, String)>)
    ensures
        match r {
            Some(pair) => table_row(line@) == Some((pair.0@, pair.1@)),
            None => table_row(line@) is None,
        },
{
    let columns = split(line, '|');
    if columns.len() < 3 {
        return None;
    }
    let (from, to) = trim(columns[2].as_slice());
    let url = copy_range(columns[2].as_slice(), from, to);
    let missing = chars_of("Not found");
    if seq_eq(url.as_slice(), missing.as_slice()) {
        return None;
    }
    let (start, end) = trim(columns[1].as_slice());
    let name = copy_range(columns[1].as_slice(), start, end);
    Some((string_from_chars(name.as_slice()), string_from_chars(url.as_slice())))
}

/// Reads the table: the versions with the addresses of their server jars.
pub fn versions_and_download_links(content: &str) -> (r: Vec<(String, String)>)
    ensures
        pair_views(r@) == table_entries(content@),
{
    let chars = chars_of(content);
    let all = lines(chars.as_slice());
    let mut out: Vec<(String, String)> = Vec::new();
    if all.len() < 2 {
        assert(pair_views(out@) =~= table_entries(content@));
        return out;
    }
    let ghost body = table_body(content@);
    let ghost row = |line: Seq<char>| table_row(line);
    let mut i: usize = 2;
    assert(body.take(0) =~= Seq::<Seq<char>>::empty());
    assert(pair_views(out@) =~= body.take(0).filter_map(row));
    while i < all.len()
        invariant
            2 <= i <= all@.len(),
            piece_views(all@) == lines_of(content@),
            body == table_body(content@),
            row == (|line: Seq<char>| table_row(line)),
            pair_views(out@) == body.take(i - 2).filter_map(row),
        decreases all@.len() - i,
    {
        proof {
            body.lemma_filter_map_take_succ(row, i - 2);
            assert(body[i - 2] == piece_views(all@)[i as int]);
            assert(piece_views(all@)[i as int] == all@[i as int]@);
        }
        match read_row(all[i].as_slice()) {
            Some(pair) => {
                assert(pair_views(out@.push(pair)) =~= pair_views(out@) + seq![(pair.0@, pair.1@)]);
                out.push(pair);
            },
            None => {
                assert(pair_views(out@) + Seq::<(Seq<char>, Seq<char>)>::empty() =~= pair_views(
                    out@,
                ));
            },
        }
        i += 1;
    }
    assert(body.take(i - 2) =~= body);
    out
}

/// The versions that a listing in `print_mode` shows, one to a line.
pub fn versions(content: &str, print_mode: PrintVersionMode) -> (r: String)
    ensures
        r@ == joined(
            table_entries(content@).filter(is_listed(print_mode)).map_values(
                |entry: (Seq<char>, Seq<char>)| entry.0,
            ),
            "\n"@,
        ),
{
    let entries = versions_and_download_links(content);
    let ghost views = pair_views(entries@);
    let ghost listed = is_listed(print_mode);
    let ghost name = |entry: (Seq<char>, Seq<char>)| entry.0;
    let mut names: Vec<String> = Vec::new();
    let mut i: usize = 0;
    assert(word_views(names@) =~= views.take(0).filter(listed).map_values(name)) by {
        reveal(Seq::filter);
    }
    while i < entries.len()
        invariant
            i <= entries@.len(),
            views == pair_views(entries@),
            listed == is_listed(print_mode),
            name == (|entry: (Seq<char>, Seq<char>)| entry.0),
            word_views(names@) == views.take(i as int).filter(listed).map_values(name),
        decreases entries@.len() - i,
    {
        let version = &entries[i].0;
        let stable_only = match print_mode {
            PrintVersionMode::StableOnly => true,
            PrintVersionMode::All => false,
        };
        let skip = stable_only && is_unstable_version(version.as_str());
        proof {
            lemma_filter_step(views, listed, i as int);
        }
        if !skip {
            proof {
                assert(word_views(names@.push(*version)) =~= word_views(names@).push(version@));
            }
            names.push(version.clone());
        }
        i += 1;
    }
    assert(views.take(i as int) =~= views);
    join_strings(names.as_slice(), "\n")
}

/// The newest release: the first stable version of the table.
pub fn fetch_latest_stable_version(content: &str) -> (r: Option<String>)
    ensures
        match first_index(table_entries(content@), is_stable_row()) {
            Some(i) => r matches Some(version) && version@ == table_entries(content@)[i].0,
            None => r is None,
        },
{
    let entries = versions_and_download_links(content);
    let ghost views = pair_views(entries@);
    let ghost stable = is_stable_row();
    let mut i: usize = 0;
    while i < entries.len()
        invariant
            i <= entries@.len(),
            views == pair_views(entries@),
            views == table_entries(content@),
            stable == is_stable_row(),
            forall|j: int| 0 <= j < i ==> !stable(#[trigger] views[j]),
        decreases entries@.len() - i,
    {
        if is_stable_version(entries[i].0.as_str()) {
            proof {
                lemma_first_index_is(views, stable, i as int);
            }
            return Some(entries[i].0.clone());
        }
        i += 1;
    }
    proof {
        lemma_first_index_none(views, stable);
    }
    None
}

/// The address of the server jar of a version and the name of the file to
/// save it under.
pub fn download_server(content: &str, version: &str) -> (r: Result<(String, String), DownloadError>)
    ensures
        match first_index(table_entries(content@), is_version(version@)) {
            Some(i) => r matches Ok(found) && found.0@ == table_entries(content@)[i].1 && found.1@
                == "vanilla-"@ + version@ + ".jar"@,
            None => r == Err::<(String, String), DownloadError>(DownloadError::VersionNotFound),
        },
{
    let entries = versions_and_download_links(content);
    let wanted = version.to_owned();
    let ghost views = pair_views(entries@);
    let ghost same = is_version(version@);
    let mut i: usize = 0;
    while i < entries.len()
        invariant
            i <= entries@.len(),
            views == pair_views(entries@),
            views == table_entries(content@),
            same == is_version(version@),
            wanted@ == version@,
            forall|j: int| 0 <= j < i ==> !same(#[trigger] views[j]),
        decreases entries@.len() - i,
    {
        if entries[i].0 == wanted {
            proof {
                lemma_first_index_is(views, same, i as int);
            }
            let filename = String::from_str("vanilla-").concat(version).concat(".jar");
            return Ok((entries[i].1.clone(), filename));
        }
        i += 1;
    }
    proof {
        lemma_first_index_none(views, same);
    }
    Err(DownloadError::VersionNotFound)
}

} // verus!
