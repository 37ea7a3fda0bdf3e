//! What the handlers of the shell read from the words of a line before
//! they act: their arguments, and the words they answer with where an
//! argument is missing or wrong.

use vstd::prelude::*;
use vstd::string::StringExecFns;
use crate::config::Platform;
use crate::network::fabric_meta::PrintVersionMode;
use crate::options::{
    get_option_value,
    has_flag,
    has_option,
    option_value,
    OptionError,
};
use crate::text::{
    chars_of,
    copy_range,
    matches_at,
    occurs_at,
    option_view,
    piece_views,
    split,
    split_on,
    str_eq,
    string_from_chars,
    trim,
    trimmed,
};
use crate::tokenizer::word_views;

verus! {

/// Whether a word begins with a dash.
pub open spec fn is_dashed(word: Seq<char>) -> bool {
    word.len() > 0 && word[0] == '-'
}

/// The argument at `index`: the word there, unless it begins with a dash.
pub open spec fn argument_at(tokens: Seq<Seq<char>>, index: int) -> Option<Seq<char>> {
    if 0 <= index < tokens.len() && !is_dashed(tokens[index]) {
        Some(tokens[index])
    } else {
        None
    }
}

/// The word at `index`.
pub fn positional<'a>(tokens: &'a [String], index: usize) -> (r: Option<&'a String>)
    ensures
        match r {
            Some(word) => index < tokens@.len() && *word == tokens@[index as int],
            None => index >= tokens@.len(),
        },
{
    if index < tokens.len() {
        Some(&tokens[index])
    } else {
        None
    }
}

/// Whether the word begins with a dash.
pub fn begins_with_dash(word: &str) -> (b: bool)
    ensures
        b == is_dashed(word@),
{
    let chars = chars_of(word);
    chars.len() > 0 && chars[0] == '-'
}

/// The argument at `index`: the word there, unless it begins with a dash.
pub fn argument<'a>(tokens: &'a [String], index: usize) -> (r: Option<&'a String>)
    ensures
        match r {
            Some(word) => index < tokens@.len() && *word == tokens@[index as int] && argument_at(
                word_views(tokens@),
                index as int,
            ) == Some(word@),
            None => argument_at(word_views(tokens@), index as int) is None,
        },
{
    if index < tokens.len() {
        if begins_with_dash(tokens[index].as_str()) {
            None
        } else {
            Some(&tokens[index])
        }
    } else {
        None
    }
}

/// The mode that the words ask a listing of versions for. Only stable
/// versions are listed unless `--all` is given; `--all` and `--stable-only`
/// together are refused.
pub open spec fn listing_mode(tokens: Seq<Seq<char>>) -> Option<PrintVersionMode> {
    if has_flag("stable-only"@, tokens) && has_flag("all"@, tokens) {
        None
    } else if has_flag("all"@, tokens) {
        Some(PrintVersionMode::All)
    } else {
        Some(PrintVersionMode::StableOnly)
    }
}

/// The mode that the words ask a listing of versions for.
pub fn version_mode(tokens: &[String]) -> (r: Result<PrintVersionMode, String>)
    ensures
        match listing_mode(word_views(tokens@)) {
            Some(mode) => r matches Ok(found) && found == mode,
            None => r matches Err(message) && message@
                == "--stable-only and --all are mutually exclusive."@,
        },
{
    let stable_only = has_option("stable-only", tokens);
    let all = has_option("all", tokens);
    if stable_only && all {
        Err(String::from_str("--stable-only and --all are mutually exclusive."))
    } else if all {
        Ok(PrintVersionMode::All)
    } else {
        Ok(PrintVersionMode::StableOnly)
    }
}

/// The words that tell of an option without its value.
pub open spec fn missing_value(name: Seq<char>) -> Seq<char> {
    "Missing --"@ + name + " option value."@
}

/// The value of an option that may be left out: `None` where the option is
/// not on the line, and a complaint where it is there without a value.
pub fn optional_value<'a>(option_name: &str, tokens: &'a [String]) -> (r: Result<
    Option<&'a String>,
    String,
>)
    ensures
        match option_value(option_name@, word_views(tokens@)) {
            Ok(value) => r matches Ok(Some(found)) && found@ == value,
            Err(OptionError::InvalidOption) => r matches Ok(None),
            Err(OptionError::MissingValue) => r matches Err(message) && message@ == missing_value(
                option_name@,
            ),
        },
{
    match get_option_value(option_name, tokens) {
        Ok(value) => Ok(Some(value)),
        Err(OptionError::InvalidOption) => Ok(None),
        Err(OptionError::MissingValue) => Err(
            String::from_str("Missing --").concat(option_name).concat(" option value."),
        ),
    }
}

/// What `--featured` asks for: featured versions only, the others only, or
/// nothing where the option is left out.
pub open spec fn featured_choice(tokens: Seq<Seq<char>>) -> Result<Option<bool>, Seq<char>> {
    match option_value("featured"@, tokens) {
        Ok(value) => if value == "true"@ {
            Ok(Some(true))
        } else if value == "false"@ {
            Ok(Some(false))
        } else {
            Err("Invalid value for --featured option."@)
        },
        Err(OptionError::InvalidOption) => Ok(None),
        Err(OptionError::MissingValue) => Err(missing_value("featured"@)),
    }
}

/// What `--featured` asks for.
pub fn featured_filter(tokens: &[String]) -> (r: Result<Option<bool>, String>)
    ensures
        match featured_choice(word_views(tokens@)) {
            Ok(choice) => r matches Ok(found) && found == choice,
            Err(complaint) => r matches Err(message) && message@ == complaint,
        },
{
    match optional_value("featured", tokens) {
        Err(message) => Err(message),
        Ok(None) => Ok(None),
        Ok(Some(value)) => {
            if str_eq(value.as_str(), "true") {
                Ok(Some(true))
            } else if str_eq(value.as_str(), "false") {
                Ok(Some(false))
            } else {
                Err(String::from_str("Invalid value for --featured option."))
            }
        },
    }
}

/// The facets of a search for mods: those given with `--facets`, between
/// commas and without the blanks around them, then the game version of the
/// server, then Fabric.
pub open spec fn facets_of(given: Option<Seq<char>>, game_version: Seq<char>) -> Seq<Seq<char>> {
    given_facets(given) + seq!["versions:"@ + game_version, "categories:fabric"@]
}

/// The facets given with `--facets`: the parts of its value between commas,
/// without the blanks around them.
pub open spec fn given_facets(given: Option<Seq<char>>) -> Seq<Seq<char>> {
    match given {
        Some(text) => split_on(text, ',').map_values(|part: Seq<char>| trimmed(part)),
        None => Seq::empty(),
    }
}

/// The facets of a search for mods.
pub fn search_facets(given: Option<&String>, game_version: &str) -> (r: Vec<String>)
    ensures
        word_views(r@) == facets_of(
            match given {
                Some(text) => Some(text@),
                None => None,
            },
            game_version@,
        ),
{
    let mut out: Vec<String> = Vec::new();
    match given {
        Some(text) => {
            let chars = chars_of(text.as_str());
            let parts = split(chars.as_slice(), ',');
            let ghost views = piece_views(parts@);
            let ghost strip = |part: Seq<char>| trimmed(part);
            let mut i: usize = 0;
            assert(word_views(out@) =~= views.take(0).map_values(strip));
            while i < parts.len()
                invariant
                    i <= parts@.len(),
                    views == piece_views(parts@),
                    strip == (|part: Seq<char>| trimmed(part)),
                    word_views(out@) == views.take(i as int).map_values(strip),
                decreases parts@.len() - i,
            {
                let (from, to) = trim(parts[i].as_slice());
                let word = string_from_chars(copy_range(parts[i].as_slice(), from, to).as_slice());
                proof {
                    assert(views[i as int] == parts@[i as int]@);
                    assert(word@ == strip(views[i as int]));
                    assert(views.take(i + 1) =~= views.take(i as int).push(views[i as int]));
                    assert(views.take(i as int).push(views[i as int]).map_values(strip)
                        =~= views.take(i as int).map_values(strip).push(word@));
                    assert(word_views(out@.push(word)) =~= word_views(out@).push(word@));
                }
                out.push(word);
                i += 1;
            }
            assert(views.take(i as int) =~= views);
        },
        None => {
            assert(word_views(out@) =~= Seq::<Seq<char>>::empty());
        },
    }
    let ghost before = word_views(out@);
    let version = String::from_str("versions:").concat(game_version);
    let fabric = String::from_str("categories:fabric");
    out.push(version);
    out.push(fabric);
    assert(word_views(out@) =~= before + seq!["versions:"@ + game_version@, "categories:fabric"@]);
    out
}

/// What a search for mods is to ask the service.
#[derive(Debug, PartialEq, Eq)]
pub struct SearchRequest {
    pub query: String,
    pub facets: Vec<String>,
    pub index: Option<String>,
    pub limit: Option<String>,
}

/// A search request, with its texts as characters.
pub ghost struct SearchRequestView {
    pub query: Seq<char>,
    pub facets: Seq<Seq<char>>,
    pub index: Option<Seq<char>>,
    pub limit: Option<Seq<char>>,
}

impl View for SearchRequest {
    type V = SearchRequestView;

    open spec fn view(&self) -> SearchRequestView {
        SearchRequestView {
            query: self.query@,
            facets: word_views(self.facets@),
            index: option_view(self.index),
            limit: option_view(self.limit),
        }
    }
}

/// The value of an option that may be left out, or `None` for both a
/// missing option and a complaint.
pub open spec fn value_or_none(name: Seq<char>, tokens: Seq<Seq<char>>) -> Option<Seq<char>> {
    match option_value(name, tokens) {
        Ok(value) => Some(value),
        Err(_) => None,
    }
}

/// Whether an option is on the line without its value.
pub open spec fn lacks_value(name: Seq<char>, tokens: Seq<Seq<char>>) -> bool {
    option_value(name, tokens) == Err::<Seq<char>, OptionError>(OptionError::MissingValue)
}

/// What a search for mods is to ask: the query is the third word, and the
/// options `--facets`, `--index` and `--limit` may follow. The first thing
/// wrong is complained of, in this order: the query, the facets, the index,
/// the limit.
pub open spec fn search_of(tokens: Seq<Seq<char>>, game_version: Seq<char>) -> Result<
    SearchRequestView,
    Seq<char>,
> {
    match argument_at(tokens, 2) {
        None => Err("No query provided."@),
        Some(query) => if lacks_value("facets"@, tokens) {
            Err(missing_value("facets"@))
        } else if lacks_value("index"@, tokens) {
            Err(missing_value("index"@))
        } else if lacks_value("limit"@, tokens) {
            Err(missing_value("limit"@))
        } else {
            Ok(
                SearchRequestView {
                    query,
                    facets: facets_of(value_or_none("facets"@, tokens), game_version),
                    index: value_or_none("index"@, tokens),
                    limit: value_or_none("limit"@, tokens),
                },
            )
        },
    }
}

/// What a search for mods is to ask the service.
pub fn search_request(tokens: &[String], game_version: &str) -> (r: Result<SearchRequest, String>)
    ensures
        match search_of(word_views(tokens@), game_version@) {
            Ok(request) => r matches Ok(found) && found@ == request,
            Err(complaint) => r matches Err(message) && message@ == complaint,
        },
{
    let query = match argument(tokens, 2) {
        Some(query) => query,
        None => {
            return Err(String::from_str("No query provided."));
        },
    };
    let given = match optional_value("facets", tokens) {
        Ok(given) => given,
        Err(message) => {
            return Err(message);
        },
    };
    let facets = search_facets(given, game_version);
    let index = match optional_value("index", tokens) {
        Ok(Some(value)) => Some(value.clone()),
        Ok(None) => None,
        Err(message) => {
            return Err(message);
        },
    };
    let limit = match optional_value("limit", tokens) {
        Ok(Some(value)) => Some(value.clone()),
        Ok(None) => None,
        Err(message) => {
            return Err(message);
        },
    };
    Ok(SearchRequest { query: query.clone(), facets, index, limit })
}

/// One of the three versions of a Fabric server: the value of its option
/// where that is given, else the latest stable version where that is
/// known.
pub open spec fn version_choice(
    name: Seq<char>,
    tokens: Seq<Seq<char>>,
    latest: Option<Seq<char>>,
) -> Option<Seq<char>> {
    match option_value(name, tokens) {
        Ok(value) => Some(value),
        Err(_) => latest,
    }
}

/// The texts of three strings that may be missing together.
pub open spec fn triple_view(latest: Option<(String, String, String)>) -> Option<
    (Seq<char>, Seq<char>, Seq<char>),
> {
    match latest {
        Some(triple) => Some((triple.0@, triple.1@, triple.2@)),
        None => None,
    }
}

/// The versions of the game, the loader and the installer that the words
/// ask for, or the complaint about the first that is missing.
pub open spec fn versions_of(
    tokens: Seq<Seq<char>>,
    latest: Option<(Seq<char>, Seq<char>, Seq<char>)>,
) -> Result<(Seq<char>, Seq<char>, Seq<char>), Seq<char>> {
    match version_choice(
        "game"@,
        tokens,
        match latest {
            Some(triple) => Some(triple.0),
            None => None,
        },
    ) {
        None => Err("Missing or invalid --game option"@),
        Some(game) => match version_choice(
            "loader"@,
            tokens,
            match latest {
                Some(triple) => Some(triple.1),
                None => None,
            },
        ) {
            None => Err("Missing or invalid --loader option"@),
            Some(loader) => match version_choice(
                "installer"@,
                tokens,
                match latest {
                    Some(triple) => Some(triple.2),
                    None => None,
                },
            ) {
                None => Err("Missing or invalid --installer option"@),
                Some(installer) => Ok((game, loader, installer)),
            },
        },
    }
}

/// Whether the words ask for the latest stable versions, which then have to
/// be fetched before `get_versions` is called.
pub fn wants_latest_stable(tokens: &[String]) -> (b: bool)
    ensures
        b == has_flag("latest-stable"@, word_views(tokens@)),
{
    has_option("latest-stable", tokens)
}

fn choose_version(name: &str, tokens: &[String], latest: Option<&String>) -> (r: Option<String>)
    ensures
        option_view(r) == version_choice(
            name@,
            word_views(tokens@),
            match latest {
                Some(text) => Some(text@),
                None => None,
            },
        ),
{
    match get_option_value(name, tokens) {
        Ok(value) => Some(value.clone()),
        Err(_) => match latest {
            Some(text) => Some(text.clone()),
            None => None,
        },
    }
}

/// The versions of the game, the loader and the installer to install. Each
/// is the value of its option, `--game`, `--loader` or `--installer`;
/// where that is left out, it is the latest stable version, given in
/// `latest` where `--latest-stable` has had them fetched.
pub fn get_versions(tokens: &[String], latest: &Option<(String, String, String)>) -> (r: Result<
    (String, String, String),
    String,
>)
    ensures
        match versions_of(word_views(tokens@), triple_view(*latest)) {
            Ok(versions) => r matches Ok(found) && found.0@ == versions.0 && found.1@
                == versions.1 && found.2@ == versions.2,
            Err(complaint) => r matches Err(message) && message@ == complaint,
        },
{
    let (latest_game, latest_loader, latest_installer) = match latest {
        Some(triple) => (Some(&triple.0), Some(&triple.1), Some(&triple.2)),
        None => (None, None, None),
    };
    let game = match choose_version("game", tokens, latest_game) {
        Some(version) => version,
        None => {
            return Err(String::from_str("Missing or invalid --game option"));
        },
    };
    let loader = match choose_version("loader", tokens, latest_loader) {
        Some(version) => version,
        None => {
            return Err(String::from_str("Missing or invalid --loader option"));
        },
    };
    let installer = match choose_version("installer", tokens, latest_installer) {
        Some(version) => version,
        None => {
            return Err(String::from_str("Missing or invalid --installer option"));
        },
    };
    Ok((game, loader, installer))
}

/// The directory of a server instance, from where the shell runs.
pub fn instance_dir(server_name: &str) -> (r: String)
    ensures
        r@ == "instances/"@ + server_name@,
{
    String::from_str("instances/").concat(server_name)
}

/// The file called `file_name` in the directory of a server instance.
pub fn instance_file(server_name: &str, file_name: &str) -> (r: String)
    ensures
        r@ == "instances/"@ + server_name@ + "/"@ + file_name@,
{
    String::from_str("instances/").concat(server_name).concat("/").concat(file_name)
}

/// The name of the start script for a platform.
pub open spec fn script_name(platform: Platform) -> Seq<char> {
    match platform {
        Platform::Windows => "start_script.bat"@,
        Platform::Unix => "start_script.sh"@,
    }
}

/// The name of the start script for a platform.
pub fn start_script_name(platform: Platform) -> (r: &'static str)
    ensures
        r@ == script_name(platform),
{
    match platform {
        Platform::Windows => "start_script.bat",
        Platform::Unix => "start_script.sh",
    }
}

/// The start script of a server instance for `platform`.
pub fn start_script_path(server_name: &str, platform: Platform) -> (r: String)
    ensures
        r@ == "instances/"@ + server_name@ + "/"@ + script_name(platform),
{
    instance_file(server_name, start_script_name(platform))
}

/// The directory of programs below a Java home, and the sign that parts
/// the entries of a search path.
pub open spec fn programs_dir(platform: Platform) -> Seq<char> {
    match platform {
        Platform::Windows => "\\bin;"@,
        Platform::Unix => "/bin:"@,
    }
}

/// The search path for a server started with its own Java: the programs of
/// that Java first, then the path that was.
pub fn java_path(java_home: &str, default_path: &str, platform: Platform) -> (r: String)
    ensures
        r@ == java_home@ + programs_dir(platform) + default_path@,
{
    let head = String::from_str(java_home);
    match platform {
        Platform::Windows => head.concat("\\bin;").concat(default_path),
        Platform::Unix => head.concat("/bin:").concat(default_path),
    }
}

/// The text with every occurrence of `from` replaced by `to`, taken from
/// the left and not overlapping. An empty `from` leaves the text as it is.
pub open spec fn replaced(s: Seq<char>, from: Seq<char>, to: Seq<char>) -> Seq<char>
    decreases s.len(),
{
    if from.len() == 0 || s.len() < from.len() {
        s
    } else if occurs_at(s, from, 0) {
        to + replaced(s.skip(from.len() as int), from, to)
    } else {
        seq![s[0]] + replaced(s.skip(1), from, to)
    }
}

/// Replaces every occurrence of `from` in `s` by `to`.
pub fn replace(s: &[char], from: &[char], to: &[char]) -> (r: Vec<char>)
    ensures
        r@ == replaced(s@, from@, to@),
{
    let mut out: Vec<char> = Vec::new();
    if from.len() == 0 {
        let r = copy_range(s, 0, s.len());
        assert(s@.subrange(0, s@.len() as int) =~= s@);
        return r;
    }
    let mut i: usize = 0;
    assert(s@.skip(0) =~= s@);
    assert(out@ + replaced(s@.skip(0), from@, to@) =~= replaced(s@, from@, to@));
    while i < s.len()
        invariant
            i <= s@.len(),
            from@.len() > 0,
            replaced(s@, from@, to@) == out@ + replaced(s@.skip(i as int), from@, to@),
        decreases s@.len() - i,
    {
        let ghost rest = s@.skip(i as int);
        let ghost before = out@;
        let found = matches_at(s, from, i);
        proof {
            if i + from@.len() <= s@.len() {
                assert(rest.subrange(0, from@.len() as int) =~= s@.subrange(
                    i as int,
                    i + from@.len(),
                ));
            }
            assert(found == (rest.len() >= from@.len() && occurs_at(rest, from@, 0)));
        }
        if found {
            let mut k: usize = 0;
            while k < to.len()
                invariant
                    k <= to@.len(),
                    out@ == before + to@.take(k as int),
                decreases to@.len() - k,
            {
                out.push(to[k]);
                assert(to@.take(k + 1) =~= to@.take(k as int).push(to@[k as int]));
                assert(before + to@.take(k as int).push(to@[k as int]) =~= (before + to@.take(
                    k as int,
                )).push(to@[k as int]));
                k += 1;
            }
            proof {
                assert(to@.take(to@.len() as int) =~= to@);
                assert(rest.skip(from@.len() as int) =~= s@.skip(i + from@.len()));
                assert(before + (to@ + replaced(rest.skip(from@.len() as int), from@, to@))
                    =~= (before + to@) + replaced(s@.skip(i + from@.len()), from@, to@));
            }
            i += from.len();
        } else {
            out.push(s[i]);
            proof {
                if rest.len() >= from@.len() {
                    assert(rest.skip(1) =~= s@.skip(i + 1));
                    assert(before + (seq![rest[0]] + replaced(rest.skip(1), from@, to@))
                        =~= before.push(s@[i as int]) + replaced(s@.skip(i + 1), from@, to@));
                } else {
                    let tail = s@.skip(i + 1);
                    assert(tail.len() < from@.len());
                    assert(replaced(tail, from@, to@) == tail);
                    assert(before + rest =~= before.push(s@[i as int]) + tail);
                }
            }
            i += 1;
        }
    }
    proof {
        assert(s@.skip(s@.len() as int) =~= Seq::<char>::empty());
        assert(out@ + Seq::<char>::empty() =~= out@);
    }
    out
}

/// The text of an EULA file once the EULA is accepted.
pub fn accept_eula(content: &str) -> (r: String)
    ensures
        r@ == replaced(content@, "eula=false"@, "eula=true"@),
{
    let chars = chars_of(content);
    let from = chars_of("eula=false");
    let to = chars_of("eula=true");
    string_from_chars(replace(chars.as_slice(), from.as_slice(), to.as_slice()).as_slice())
}

/// The text of an EULA file written for a user who has agreed to the EULA.
pub fn eula_accept_file() -> (r: &'static str)
    ensures
        r@
            == "# This file is generated by mcerv and is generated because the user agreed to the Minecraft EULA (https://aka.ms/MinecraftEULA).\neula=true"@,
{
    "# This file is generated by mcerv and is generated because the user agreed to the Minecraft EULA (https://aka.ms/MinecraftEULA).\neula=true"
}

/// The lines that list the known servers: their names, or one line that
/// says that there are none.
pub fn server_list(server_names: &[String]) -> (r: Vec<String>)
    ensures
        word_views(r@) == if server_names@.len() == 0 {
            seq!["Server list is empty."@]
        } else {
            word_views(server_names@)
        },
{
    let mut out: Vec<String> = Vec::new();
    if server_names.len() == 0 {
        out.push(String::from_str("Server list is empty."));
        return out;
    }
    let mut i: usize = 0;
    while i < server_names.len()
        invariant
            i <= server_names@.len(),
            out@.len() == i,
            forall|j: int| 0 <= j < i ==> (#[trigger] out@[j])@ == server_names@[j]@,
        decreases server_names@.len() - i,
    {
        out.push(server_names[i].clone());
        i += 1;
    }
    out
}

} // verus!
