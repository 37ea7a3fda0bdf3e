//! What is asked of the Modrinth service, and what follows from its
//! answers: which mods have an update, and what a batch of downloads
//! leaves to do.

use vstd::prelude::*;
use vstd::string::StringExecFns;
use crate::text::{join_strings, joined};
use crate::tokenizer::word_views;

verus! {

/// The order in which search results come.
#[derive(Clone, Copy, Debug, PartialEq, Eq, Structural)]
pub enum SearchIndex {
    Relevance,
    Downloads,
    Follows,
    Newest,
}

impl SearchIndex {
    /// The name of the order as the service knows it.
    pub fn to_string(&self) -> (r: String)
        ensures
            r@ == match *self {
                SearchIndex::Relevance => "relevance"@,
                SearchIndex::Downloads => "downloads"@,
                SearchIndex::Follows => "follows"@,
                SearchIndex::Newest => "newest"@,
            },
    {
        match self {
            SearchIndex::Relevance => String::from_str("relevance"),
            SearchIndex::Downloads => String::from_str("downloads"),
            SearchIndex::Follows => String::from_str("follows"),
            SearchIndex::Newest => String::from_str("newest"),
        }
    }
}

/// One version of a mod, as the service describes it.
#[derive(Debug, PartialEq, Eq)]
pub struct ModVersion {
    pub project_id: String,
    pub version_name: String,
    pub hash: String,
    pub file_url: String,
    pub file_name: String,
}

/// A version of a mod, with its texts as characters.
pub ghost struct ModVersionView {
    pub project_id: Seq<char>,
    pub version_name: Seq<char>,
    pub hash: Seq<char>,
    pub file_url: Seq<char>,
    pub file_name: Seq<char>,
}

impl View for ModVersion {
    type V = ModVersionView;

    open spec fn view(&self) -> ModVersionView {
        ModVersionView {
            project_id: self.project_id@,
            version_name: self.version_name@,
            hash: self.hash@,
            file_url: self.file_url@,
            file_name: self.file_name@,
        }
    }
}

impl Clone for ModVersion {
    fn clone(&self) -> (r: ModVersion)
        ensures
            r@ == self@,
    {
        ModVersion {
            project_id: self.project_id.clone(),
            version_name: self.version_name.clone(),
            hash: self.hash.clone(),
            file_url: self.file_url.clone(),
            file_name: self.file_name.clone(),
        }
    }
}

/// The facets of a search as the service takes them: the two that keep to
/// mods for servers, and one clause for each facet given.
pub open spec fn facets_text(facets: Seq<Seq<char>>) -> Seq<char> {
    "[[\"server_side:required\",\"server_side:optional\"]"@ + facet_clauses(facets) + "]"@
}

/// One clause for each facet.
pub open spec fn facet_clauses(facets: Seq<Seq<char>>) -> Seq<char>
    decreases facets.len(),
{
    if facets.len() == 0 {
        Seq::empty()
    } else {
        facet_clauses(facets.drop_last()) + ",[\""@ + facets.last() + "\"]"@
    }
}

/// The facets of a search as the service takes them.
pub fn facets_query(facets: &[String]) -> (r: String)
    ensures
        r@ == facets_text(word_views(facets@)),
{
    let ghost views = word_views(facets@);
    let mut r = String::from_str("[[\"server_side:required\",\"server_side:optional\"]");
    let mut i: usize = 0;
    while i < facets.len()
        invariant
            i <= facets@.len(),
            views == word_views(facets@),
            r@ == "[[\"server_side:required\",\"server_side:optional\"]"@ + facet_clauses(
                views.take(i as int),
            ),
        decreases facets@.len() - i,
    {
        proof {
            assert(views.take(i + 1).drop_last() =~= views.take(i as int));
        }
        r = r.concat(",[\"").concat(facets[i].as_str()).concat("\"]");
        i += 1;
    }
    assert(views.take(i as int) =~= views);
    r.concat("]")
}

/// A list of project ids as the service takes it.
pub open spec fn ids_text(ids: Seq<Seq<char>>) -> Seq<char> {
    "["@ + joined(ids.map_values(|id: Seq<char>| "\""@ + id + "\""@), ","@) + "]"@
}

/// A list of project ids as the service takes it: each in quotes, with
/// commas between them, in brackets.
pub fn ids_query(project_ids: &[String]) -> (r: String)
    ensures
        r@ == ids_text(word_views(project_ids@)),
{
    let ghost quote = |id: Seq<char>| "\""@ + id + "\""@;
    let mut quoted: Vec<String> = Vec::new();
    let mut i: usize = 0;
    while i < project_ids.len()
        invariant
            i <= project_ids@.len(),
            quoted@.len() == i,
            forall|j: int|
                0 <= j < i ==> (#[trigger] quoted@[j])@ == "\""@ + project_ids@[j]@ + "\""@,
        decreases project_ids@.len() - i,
    {
        quoted.push(String::from_str("\"").concat(project_ids[i].as_str()).concat("\""));
        i += 1;
    }
    proof {
        assert(Seq::new(quoted@.len(), |i: int| quoted@[i]@) =~= word_views(
            project_ids@,
        ).map_values(quote));
    }
    String::from_str("[").concat(join_strings(quoted.as_slice(), ",").as_str()).concat("]")
}

/// The address that lists the versions of a project.
pub fn project_versions_url(project_slug: &str) -> (r: String)
    ensures
        r@ == "https://api.modrinth.com/v2/project/"@ + project_slug@ + "/version"@,
{
    String::from_str("https://api.modrinth.com/v2/project/").concat(project_slug).concat(
        "/version",
    )
}

/// The address that describes one version of a mod.
pub fn version_url(version_id: &str) -> (r: String)
    ensures
        r@ == "https://api.modrinth.com/v2/version/"@ + version_id@,
{
    String::from_str("https://api.modrinth.com/v2/version/").concat(version_id)
}

/// A mod that has a newer version: the jar that is installed, and the
/// version to put in its place.
#[derive(Debug, PartialEq, Eq)]
pub struct Update {
    pub jar_path: String,
    pub version: ModVersion,
}

/// An update, with its texts as characters.
pub ghost struct UpdateView {
    pub jar_path: Seq<char>,
    pub version: ModVersionView,
}

impl View for Update {
    type V = UpdateView;

    open spec fn view(&self) -> UpdateView {
        UpdateView { jar_path: self.jar_path@, version: self.version@ }
    }
}

/// The updates that a list of `Update` stands for.
pub open spec fn update_views(updates: Seq<Update>) -> Seq<UpdateView> {
    Seq::new(updates.len(), |i: int| updates[i]@)
}

/// The smallest of three lengths.
pub open spec fn shortest(a: int, b: int, c: int) -> int {
    if a <= b && a <= c {
        a
    } else if b <= c {
        b
    } else {
        c
    }
}

/// The updates among the first `n` mods: a mod has one where the hash of
/// its latest version differs from the hash of the installed one.
pub open spec fn pending_among(
    latest: Seq<ModVersion>,
    old: Seq<ModVersion>,
    jar_paths: Seq<String>,
    n: int,
) -> Seq<UpdateView>
    decreases n,
{
    if n <= 0 {
        Seq::empty()
    } else {
        let before = pending_among(latest, old, jar_paths, n - 1);
        if latest[n - 1].hash@ != old[n - 1].hash@ {
            before.push(UpdateView { jar_path: jar_paths[n - 1]@, version: latest[n - 1]@ })
        } else {
            before
        }
    }
}

/// The mods that have a newer version. The three lists go together entry by
/// entry: the latest version of a mod, the installed version, and the path
/// of the installed jar; what one list has more than another is left out.
pub fn available_updates(latest: &[ModVersion], old: &[ModVersion], jar_paths: &[String]) -> (r:
    Vec<Update>)
    ensures
        update_views(r@) == pending_among(
            latest@,
            old@,
            jar_paths@,
            shortest(latest@.len() as int, old@.len() as int, jar_paths@.len() as int),
        ),
{
    let mut count = latest.len();
    if old.len() < count {
        count = old.len();
    }
    if jar_paths.len() < count {
        count = jar_paths.len();
    }
    let mut out: Vec<Update> = Vec::new();
    let mut i: usize = 0;
    while i < count
        invariant
            i <= count,
            count <= latest@.len(),
            count <= old@.len(),
            count <= jar_paths@.len(),
            update_views(out@) == pending_among(latest@, old@, jar_paths@, i as int),
        decreases count - i,
    {
        if latest[i].hash != old[i].hash {
            let update = Update { jar_path: jar_paths[i].clone(), version: latest[i].clone() };
            out.push(update);
        }
        i += 1;
    }
    out
}

/// What a listing says of one mod: its name and installed version, and
/// either that it is up to date or the version that it can be updated to.
pub fn status_line(project_slug: &str, old: &ModVersion, latest: &ModVersion) -> (r: String)
    ensures
        r@ == project_slug@ + ": `"@ + old.version_name@ + "` "@ + if latest.hash@ == old.hash@ {
            "[OK] up-to-date"@
        } else {
            "-> `"@ + latest.version_name@ + "`"@
        },
{
    let head = String::from_str(project_slug).concat(": `").concat(
        old.version_name.as_str(),
    ).concat("` ");
    if latest.hash == old.hash {
        head.concat("[OK] up-to-date")
    } else {
        let r = head.concat("-> `").concat(latest.version_name.as_str()).concat("`");
        r
    }
}

/// Where the file of an update is fetched from and where it is saved: in
/// the directory of mods, under the name that the service gives it.
pub fn download_of(update: &Update, mods_dir: &str) -> (r: (String, String))
    ensures
        r.0@ == update.version.file_url@,
        r.1@ == mods_dir@ + "/"@ + update.version.file_name@,
{
    (
        update.version.file_url.clone(),
        String::from_str(mods_dir).concat("/").concat(update.version.file_name.as_str()),
    )
}

/// What a batch of downloads leaves to do.
#[derive(Debug, PartialEq, Eq)]
pub struct Settlement {
    /// The installed jars that a finished download has superseded: they are
    /// to be deleted.
    pub superseded: Vec<String>,
    /// What went wrong with each download that failed.
    pub failures: Vec<String>,
}

/// The jars superseded among the first `n` updates: those whose download
/// succeeded.
pub open spec fn superseded_among(
    updates: Seq<Update>,
    outcomes: Seq<Result<(), String>>,
    n: int,
) -> Seq<Seq<char>>
    decreases n,
{
    if n <= 0 {
        Seq::empty()
    } else {
        let before = superseded_among(updates, outcomes, n - 1);
        match outcomes[n - 1] {
            Ok(_) => before.push(updates[n - 1].jar_path@),
            Err(_) => before,
        }
    }
}

/// The failures among the first `n` downloads.
pub open spec fn failures_among(outcomes: Seq<Result<(), String>>, n: int) -> Seq<Seq<char>>
    decreases n,
{
    if n <= 0 {
        Seq::empty()
    } else {
        let before = failures_among(outcomes, n - 1);
        match outcomes[n - 1] {
            Ok(_) => before,
            Err(message) => before.push(message@),
        }
    }
}

/// The smaller of two lengths.
pub open spec fn shorter(a: int, b: int) -> int {
    if a <= b {
        a
    } else {
        b
    }
}

/// Settles a batch of downloads, of which each has succeeded or failed by
/// itself. The outcomes go with the updates entry by entry. The jar of
/// every update whose download succeeded is superseded, and is to be
/// deleted; that of an update whose download failed stays. Every failure is
/// kept for the report, so that each download is either among the
/// superseded or among the failures.
pub fn settle(updates: &[Update], outcomes: &[Result<(), String>]) -> (r: Settlement)
    ensures
        word_views(r.superseded@) == superseded_among(
            updates@,
            outcomes@,
            shorter(updates@.len() as int, outcomes@.len() as int),
        ),
        word_views(r.failures@) == failures_among(
            outcomes@,
            shorter(updates@.len() as int, outcomes@.len() as int),
        ),
        r.superseded@.len() + r.failures@.len() == shorter(
            updates@.len() as int,
            outcomes@.len() as int,
        ),
{
    let count = if updates.len() <= outcomes.len() {
        updates.len()
    } else {
        outcomes.len()
    };
    let mut superseded: Vec<String> = Vec::new();
    let mut failures: Vec<String> = Vec::new();
    let mut i: usize = 0;
    while i < count
        invariant
            i <= count,
            count <= updates@.len(),
            count <= outcomes@.len(),
            superseded@.len() + failures@.len() == i,
            word_views(superseded@) == superseded_among(updates@, outcomes@, i as int),
            word_views(failures@) == failures_among(outcomes@, i as int),
        decreases count - i,
    {
        match &outcomes[i] {
            Ok(_) => {
                let path = updates[i].jar_path.clone();
                superseded.push(path);
            },
            Err(message) => {
                let text = message.clone();
                failures.push(text);
            },
        }
        i += 1;
    }
    Settlement { superseded, failures }
}

impl Settlement {
    /// What the user is told of the batch: nothing where every download
    /// succeeded, and otherwise every failure.
    pub fn report(&self) -> (r: Result<(), String>)
        ensures
            match r {
                Ok(_) => self.failures@.len() == 0,
                Err(message) => self.failures@.len() > 0 && message@
                    == "Failed to download updates: "@ + joined(
                    word_views(self.failures@),
                    ", "@,
                ),
            },
    {
        if self.failures.len() == 0 {
            Ok(())
        } else {
            Err(
                String::from_str("Failed to download updates: ").concat(
                    join_strings(self.failures.as_slice(), ", ").as_str(),
                ),
            )
        }
    }
}

/// What is logged of a jar that could not be deleted. The batch goes on.
pub fn deletion_failure(error: &str) -> (r: String)
    ensures
        r@ == "Failed to delete old jar file: "@ + error@,
{
    String::from_str("Failed to delete old jar file: ").concat(error)
}

/// How many of the mods checked have a version for the game version asked
/// for, and how many have not. A mod has one where the service lists at
/// least one version; a check that failed counts as none.
pub fn support_counts(checks: &[Result<usize, String>]) -> (r: (usize, usize))
    ensures
        r.0 == checks@.filter(|check: Result<usize, String>| check matches Ok(n) && n > 0).len(),
        r.0 + r.1 == checks@.len(),
{
    let ghost supported = |check: Result<usize, String>| check matches Ok(n) && n > 0;
    let mut yes: usize = 0;
    let mut no: usize = 0;
    let mut i: usize = 0;
    assert(checks@.take(0).filter(supported).len() == 0) by {
        reveal(Seq::filter);
    }
    while i < checks.len()
        invariant
            i <= checks@.len(),
            supported == (|check: Result<usize, String>| check matches Ok(n) && n > 0),
            yes == checks@.take(i as int).filter(supported).len(),
            yes + no == i,
        decreases checks@.len() - i,
    {
        proof {
            crate::seqs::lemma_filter_step(checks@, supported, i as int);
        }
        let found = match &checks[i] {
            Ok(n) => *n > 0,
            Err(_) => false,
        };
        if found {
            yes += 1;
        } else {
            no += 1;
        }
        i += 1;
    }
    assert(checks@.take(i as int) =~= checks@);
    (yes, no)
}

/// What a listing says of one mod that was checked.
pub fn support_line(project_slug: &str, check: &Result<usize, String>) -> (r: String)
    ensures
        r@ == project_slug@ + match *check {
            Ok(n) => if n > 0 {
                ": [OK] supported"@
            } else {
                ": unsupported"@
            },
            Err(e) => ": failed to check support: "@ + e@,
        },
{
    let head = String::from_str(project_slug);
    match check {
        Ok(n) => if *n > 0 {
            head.concat(": [OK] supported")
        } else {
            head.concat(": unsupported")
        },
        Err(e) => {
            let r = head.concat(": failed to check support: ").concat(e.as_str());
            r
        },
    }
}

/// The last line of a check of mods: how many have a version and how many
/// have not.
pub fn support_summary(supported: &str, unsupported: &str) -> (r: String)
    ensures
        r@ == "Supported mods: "@ + supported@ + ", Unsupported mods: "@ + unsupported@,
{
    String::from_str("Supported mods: ").concat(supported).concat(", Unsupported mods: ").concat(
        unsupported,
    )
}

/// One field of an answer of the service, as it is shown: the key and the
/// value, or `N/A` where the answer has no such key.
pub fn display_value(key: &str, value: Option<&String>) -> (r: String)
    ensures
        r@ == key@ + ": "@ + match value {
            Some(text) => text@,
            None => "N/A"@,
        },
{
    let head = String::from_str(key).concat(": ");
    match value {
        Some(text) => head.concat(text.as_str()),
        None => head.concat("N/A"),
    }
}

/// The line that ends an entry of a listing.
pub open spec fn entry_end() -> Seq<char> {
    "=======================================\n"@
}

/// The lines of the fields of an entry, each with a line feed after it.
pub open spec fn field_lines(fields: Seq<(String, Option<String>)>) -> Seq<char>
    decreases fields.len(),
{
    if fields.len() == 0 {
        Seq::empty()
    } else {
        field_lines(fields.drop_last()) + fields.last().0@ + ": "@ + match fields.last().1 {
            Some(text) => text@,
            None => "N/A"@,
        } + "\n"@
    }
}

/// One entry of a listing as it is shown: a line for each field, and a
/// line that ends the entry.
pub fn entry_text(fields: &[(String, Option<String>)]) -> (r: String)
    ensures
        r@ == field_lines(fields@) + entry_end(),
{
    let mut r = String::new();
    let mut i: usize = 0;
    while i < fields.len()
        invariant
            i <= fields@.len(),
            r@ == field_lines(fields@.take(i as int)),
        decreases fields@.len() - i,
    {
        proof {
            assert(fields@.take(i + 1).drop_last() =~= fields@.take(i as int));
        }
        let line = display_value(fields[i].0.as_str(), fields[i].1.as_ref());
        r = r.concat(line.as_str()).concat("\n");
        assert(r@ =~= field_lines(fields@.take(i + 1)));
        i += 1;
    }
    assert(fields@.take(i as int) =~= fields@);
    r.concat("=======================================\n")
}

/// The fields that are shown of a project that a search has found.
pub fn search_fields() -> (r: Vec<&'static str>)
    ensures
        r@.len() == 8,
        r@[0]@ == "title"@,
        r@[1]@ == "slug"@,
        r@[2]@ == "project_id"@,
        r@[3]@ == "author"@,
        r@[4]@ == "downloads"@,
        r@[5]@ == "description"@,
        r@[6]@ == "categories"@,
        r@[7]@ == "versions"@,
{
    let mut r: Vec<&'static str> = Vec::new();
    r.push("title");
    r.push("slug");
    r.push("project_id");
    r.push("author");
    r.push("downloads");
    r.push("description");
    r.push("categories");
    r.push("versions");
    r
}

/// The fields that are shown of a version of a project.
pub fn version_fields() -> (r: Vec<&'static str>)
    ensures
        r@.len() == 6,
        r@[0]@ == "version_number"@,
        r@[1]@ == "id"@,
        r@[2]@ == "dependencies"@,
        r@[3]@ == "game_versions"@,
        r@[4]@ == "version_type"@,
        r@[5]@ == "loaders"@,
{
    let mut r: Vec<&'static str> = Vec::new();
    r.push("version_number");
    r.push("id");
    r.push("dependencies");
    r.push("game_versions");
    r.push("version_type");
    r.push("loaders");
    r
}

/// A file of a version, as the service describes it.
#[derive(Debug, PartialEq, Eq)]
pub struct FileRecord {
    pub sha1: String,
    pub url: String,
    pub filename: String,
}

/// A version of a mod with all its files, as the service describes it.
#[derive(Debug, PartialEq, Eq)]
pub struct VersionRecord {
    pub project_id: String,
    pub name: Option<String>,
    pub files: Vec<FileRecord>,
}

impl ModVersion {
    /// The version that a record of the service stands for: its name, or
    /// `N/A` where it has none, and the first of its files. A record
    /// without files stands for nothing.
    pub fn from_record(record: &VersionRecord) -> (r: Option<ModVersion>)
        ensures
            match r {
                Some(version) => record.files@.len() > 0 && version@ == (ModVersionView {
                    project_id: record.project_id@,
                    version_name: match record.name {
                        Some(name) => name@,
                        None => "N/A"@,
                    },
                    hash: record.files@[0].sha1@,
                    file_url: record.files@[0].url@,
                    file_name: record.files@[0].filename@,
                }),
                None => record.files@.len() == 0,
            },
    {
        if record.files.len() == 0 {
            return None;
        }
        let file = &record.files[0];
        Some(
            ModVersion {
                project_id: record.project_id.clone(),
                version_name: match &record.name {
                    Some(name) => name.clone(),
                    None => String::from_str("N/A"),
                },
                hash: file.sha1.clone(),
                file_url: file.url.clone(),
                file_name: file.filename.clone(),
            },
        )
    }
}

/// Holds of an answer that is filed under the hash `hash`.
pub open spec fn is_filed_under(hash: Seq<char>) -> spec_fn((String, VersionRecord)) -> bool {
    |answer: (String, VersionRecord)| answer.0@ == hash
}

/// The version that the answers of the service give for a hash: that of
/// the first answer filed under it, where that answer has a file.
pub open spec fn version_for(answers: Seq<(String, VersionRecord)>, hash: Seq<char>) -> Option<
    ModVersionView,
> {
    match crate::seqs::first_index(answers, is_filed_under(hash)) {
        Some(i) => if answers[i].1.files@.len() > 0 {
            Some(
                ModVersionView {
                    project_id: answers[i].1.project_id@,
                    version_name: match answers[i].1.name {
                        Some(name) => name@,
                        None => "N/A"@,
                    },
                    hash: answers[i].1.files@[0].sha1@,
                    file_url: answers[i].1.files@[0].url@,
                    file_name: answers[i].1.files@[0].filename@,
                },
            )
        } else {
            None
        },
        None => None,
    }
}

fn find_answer(answers: &[(String, VersionRecord)], hash: &String) -> (r: Option<usize>)
    ensures
        match r {
            Some(i) => crate::seqs::first_index(answers@, is_filed_under(hash@)) == Some(
                i as int,
            ) && i < answers@.len(),
            None => crate::seqs::first_index(answers@, is_filed_under(hash@)) is None,
        },
{
    let ghost filed = is_filed_under(hash@);
    let mut i: usize = 0;
    while i < answers.len()
        invariant
            i <= answers@.len(),
            filed == is_filed_under(hash@),
            forall|j: int| 0 <= j < i ==> !filed(#[trigger] answers@[j]),
        decreases answers@.len() - i,
    {
        if answers[i].0 == *hash {
            proof {
                crate::seqs::lemma_first_index_is(answers@, filed, i as int);
            }
            return Some(i);
        }
        i += 1;
    }
    proof {
        crate::seqs::lemma_first_index_none(answers@, filed);
    }
    None
}

/// The versions of the jars with the hashes `jar_hashes`, in the order of
/// the hashes, given the answers of the service, each filed under the hash
/// that it answers. The position of the first hash for which the service
/// gives no version is the error.
pub fn versions_by_hash(answers: &[(String, VersionRecord)], jar_hashes: &[String]) -> (r: Result<
    Vec<ModVersion>,
    usize,
>)
    ensures
        match r {
            Ok(versions) => versions@.len() == jar_hashes@.len() && forall|k: int|
                0 <= k < jar_hashes@.len() ==> version_for(answers@, jar_hashes@[k]@) == Some(
                    (#[trigger] versions@[k])@,
                ),
            Err(k) => k < jar_hashes@.len() && version_for(answers@, jar_hashes@[k as int]@)
                is None && forall|j: int|
                0 <= j < k ==> version_for(answers@, (#[trigger] jar_hashes@[j])@) is Some,
        },
{
    let mut versions: Vec<ModVersion> = Vec::new();
    let mut k: usize = 0;
    while k < jar_hashes.len()
        invariant
            k <= jar_hashes@.len(),
            versions@.len() == k,
            forall|j: int|
                0 <= j < k ==> version_for(answers@, jar_hashes@[j]@) == Some(
                    (#[trigger] versions@[j])@,
                ),
        decreases jar_hashes@.len() - k,
    {
        let found = match find_answer(answers, &jar_hashes[k]) {
            Some(i) => ModVersion::from_record(&answers[i].1),
            None => None,
        };
        match found {
            Some(version) => {
                versions.push(version);
            },
            None => {
                assert forall|j: int| 0 <= j < k implies version_for(
                    answers@,
                    (#[trigger] jar_hashes@[j])@,
                ) is Some by {
                    assert(version_for(answers@, jar_hashes@[j]@) == Some(versions@[j]@));
                }
                return Err(k);
            },
        }
        k += 1;
    }
    Ok(versions)
}

} // verus!
