//! What the files of a server directory and of a server jar say.

use sha1::Digest;
use vstd::prelude::*;
use crate::text::{
    chars_of,
    copy_range,
    find_first,
    lines,
    lines_of,
    piece_views,
    split_once,
    string_from_chars,
};

verus! {

/// Why a server directory gives no single jar.
#[derive(Clone, Copy, Debug, PartialEq, Eq, Structural)]
pub enum InvalidServerDirError {
    /// More than one `.jar` file lies in the directory.
    MultipleJars,
    /// No `.jar` file lies in the directory.
    NoJar,
}

impl InvalidServerDirError {
    /// The words shown to the user.
    pub fn message(&self) -> (r: &'static str)
        ensures
            r@ == match *self {
                InvalidServerDirError::MultipleJars =>
                    "multiple .jar files found in server directory"@,
                InvalidServerDirError::NoJar => "no .jar file found in server directory"@,
            },
    {
        match self {
            InvalidServerDirError::MultipleJars => "multiple .jar files found in server directory",
            InvalidServerDirError::NoJar => "no .jar file found in server directory",
        }
    }
}

/// The one jar of a server directory, given the jars found in it.
pub fn single_jar(jars: &[String]) -> (r: Result<&String, InvalidServerDirError>)
    ensures
        match r {
            Ok(jar) => jars@.len() == 1 && *jar == jars@[0],
            Err(InvalidServerDirError::NoJar) => jars@.len() == 0,
            Err(InvalidServerDirError::MultipleJars) => jars@.len() > 1,
        },
{
    if jars.len() > 1 {
        Err(InvalidServerDirError::MultipleJars)
    } else if jars.len() == 1 {
        Ok(&jars[0])
    } else {
        Err(InvalidServerDirError::NoJar)
    }
}

/// The jar that a server instance runs, given the jars found in its
/// directory: the first of them. The flag says whether there are others,
/// which the user is warned of.
pub fn first_jar(jars: &[String]) -> (r: Result<(&String, bool), InvalidServerDirError>)
    ensures
        match r {
            Ok((jar, several)) => jars@.len() > 0 && *jar == jars@[0] && several == (jars@.len()
                > 1),
            Err(e) => jars@.len() == 0 && e == InvalidServerDirError::NoJar,
        },
{
    if jars.len() == 0 {
        Err(InvalidServerDirError::NoJar)
    } else {
        Ok((&jars[0], jars.len() > 1))
    }
}

/// Whether a file name has the extension `jar`: it ends in `.jar` and has
/// at least one character before that.
pub open spec fn is_jar_name(name: Seq<char>) -> bool {
    name.len() > 4 && name.skip(name.len() - 4) == seq!['.', 'j', 'a', 'r']
}

/// Whether the file called `name` is a jar, by its extension.
pub fn has_jar_extension(name: &str) -> (b: bool)
    ensures
        b == is_jar_name(name@),
{
    let chars = chars_of(name);
    let n = chars.len();
    if n <= 4 {
        return false;
    }
    let b = chars[n - 4] == '.' && chars[n - 3] == 'j' && chars[n - 2] == 'a' && chars[n - 1]
        == 'r';
    proof {
        let tail = name@.skip(name@.len() - 4);
        if b {
            assert(tail =~= seq!['.', 'j', 'a', 'r']);
        }
    }
    b
}

/// The names among `names` that are jars, in their order.
pub fn jar_files(names: &[String]) -> (r: Vec<String>)
    ensures
        crate::tokenizer::word_views(r@) == crate::tokenizer::word_views(names@).filter(
            |name: Seq<char>| is_jar_name(name),
        ),
{
    let ghost views = crate::tokenizer::word_views(names@);
    let ghost test = |name: Seq<char>| is_jar_name(name);
    let mut out: Vec<String> = Vec::new();
    let mut i: usize = 0;
    assert(views.take(0).filter(test) =~= crate::tokenizer::word_views(out@)) by {
        reveal(Seq::filter);
    }
    while i < names.len()
        invariant
            i <= names@.len(),
            views == crate::tokenizer::word_views(names@),
            test == (|name: Seq<char>| is_jar_name(name)),
            crate::tokenizer::word_views(out@) == views.take(i as int).filter(test),
        decreases names@.len() - i,
    {
        proof {
            crate::seqs::lemma_filter_step(views, test, i as int);
        }
        if has_jar_extension(names[i].as_str()) {
            out.push(names[i].clone());
        }
        i += 1;
    }
    assert(views.take(i as int) =~= views);
    out
}

/// The SHA-1 digest of a sequence of bytes, as 40 hexadecimal digits in
/// lower case.
pub uninterp spec fn sha1_hex(content: Seq<u8>) -> Seq<char>;

/// `Sha1::digest` of the `sha1` crate, shown in lower-case hexadecimal: the
/// hash by which a jar is known to the mod service. It is a function of the
/// bytes alone.
#[verifier::external_body]
pub fn calculate_hash(content: &[u8]) -> (r: String)
    ensures
        r@ == sha1_hex(content@),
{
    format!("{:x}", sha1::Sha1::digest(content))
}

/// A list of keys with their values, each key once.
pub struct Properties {
    entries: Vec<(String, String)>,
}

/// The value that a list of entries gives to `key`: that of the first
/// entry with that key.
pub open spec fn lookup(entries: Seq<(String, String)>, key: Seq<char>) -> Option<Seq<char>>
    decreases entries.len(),
{
    if entries.len() == 0 {
        None
    } else if entries.first().0@ == key {
        Some(entries.first().1@)
    } else {
        lookup(entries.drop_first(), key)
    }
}

/// Whether no key occurs twice among the entries.
pub open spec fn distinct_keys(entries: Seq<(String, String)>) -> bool {
    forall|i: int, j: int|
        0 <= i < j < entries.len() ==> (#[trigger] entries[i]).0@ != (#[trigger] entries[j]).0@
}

proof fn lemma_lookup(entries: Seq<(String, String)>, key: Seq<char>)
    ensures
        match lookup(entries, key) {
            Some(value) => exists|i: int|
                0 <= i < entries.len() && (#[trigger] entries[i]).0@ == key && entries[i].1@
                    == value && forall|j: int| 0 <= j < i ==> (#[trigger] entries[j]).0@ != key,
            None => forall|i: int| 0 <= i < entries.len() ==> (#[trigger] entries[i]).0@ != key,
        },
    decreases entries.len(),
{
    if entries.len() == 0 {
    } else if entries.first().0@ == key {
        assert(entries[0].0@ == key);
    } else {
        let rest = entries.drop_first();
        lemma_lookup(rest, key);
        match lookup(rest, key) {
            Some(value) => {
                let i = choose|i: int|
                    0 <= i < rest.len() && (#[trigger] rest[i]).0@ == key && rest[i].1@ == value
                        && forall|j: int| 0 <= j < i ==> (#[trigger] rest[j]).0@ != key;
                assert(entries[i + 1] == rest[i]);
                assert forall|j: int| 0 <= j < i + 1 implies (#[trigger] entries[j]).0@ != key by {
                    if j > 0 {
                        assert(entries[j] == rest[j - 1]);
                    }
                }
            },
            None => {
                assert forall|i: int| 0 <= i < entries.len() implies (#[trigger] entries[i]).0@
                    != key by {
                    if i > 0 {
                        assert(entries[i] == rest[i - 1]);
                    }
                }
            },
        }
    }
}

proof fn lemma_lookup_at(entries: Seq<(String, String)>, i: int)
    requires
        distinct_keys(entries),
        0 <= i < entries.len(),
    ensures
        lookup(entries, entries[i].0@) == Some(entries[i].1@),
{
    let key = entries[i].0@;
    lemma_lookup(entries, key);
    match lookup(entries, key) {
        Some(value) => {
            let j = choose|j: int|
                0 <= j < entries.len() && (#[trigger] entries[j]).0@ == key && entries[j].1@
                    == value && forall|k: int| 0 <= k < j ==> (#[trigger] entries[k]).0@ != key;
            if j < i {
                assert(entries[j].0@ != entries[i].0@);
            } else if i < j {
                assert(entries[i].0@ != entries[j].0@);
            }
        },
        None => {
            assert(entries[i].0@ != key);
        },
    }
}

proof fn lemma_lookup_absent(entries: Seq<(String, String)>, key: Seq<char>)
    requires
        forall|i: int| 0 <= i < entries.len() ==> (#[trigger] entries[i]).0@ != key,
    ensures
        lookup(entries, key) is None,
{
    lemma_lookup(entries, key);
    match lookup(entries, key) {
        Some(value) => {
            let j = choose|j: int|
                0 <= j < entries.len() && (#[trigger] entries[j]).0@ == key && entries[j].1@
                    == value && forall|k: int| 0 <= k < j ==> (#[trigger] entries[k]).0@ != key;
            assert(entries[j].0@ != key);
        },
        None => {},
    }
}

/// Looking up in a list that differs from `before` at most in the entry for
/// `key`, whose value is now `value`.
proof fn lemma_lookup_after(
    before: Seq<(String, String)>,
    after: Seq<(String, String)>,
    at: int,
    key: Seq<char>,
    value: Seq<char>,
)
    requires
        distinct_keys(after),
        0 <= at < after.len(),
        after[at].0@ == key,
        after[at].1@ == value,
        after.len() == before.len() || (after.len() == before.len() + 1 && at == before.len()),
        forall|i: int| 0 <= i < before.len() && i != at ==> #[trigger] after[i] == before[i],
        at < before.len() ==> before[at].0@ == key,
    ensures
        forall|k: Seq<char>| #[trigger]
            lookup(after, k) == if k == key {
                Some(value)
            } else {
                lookup(before, k)
            },
{
    assert forall|k: Seq<char>| #[trigger]
        lookup(after, k) == if k == key {
            Some(value)
        } else {
            lookup(before, k)
        } by {
        if k == key {
            lemma_lookup_at(after, at);
        } else {
            lemma_lookup(before, k);
            match lookup(before, k) {
                Some(v) => {
                    let j = choose|j: int|
                        0 <= j < before.len() && (#[trigger] before[j]).0@ == k && before[j].1@
                            == v && forall|m: int| 0 <= m < j ==> (#[trigger] before[m]).0@ != k;
                    lemma_lookup_at(after, j);
                },
                None => {
                    lemma_lookup_absent(after, k);
                },
            }
        }
    }
}

impl View for Properties {
    type V = Map<Seq<char>, Seq<char>>;

    closed spec fn view(&self) -> Map<Seq<char>, Seq<char>> {
        Map::new(
            |key: Seq<char>| lookup(self.entries@, key) is Some,
            |key: Seq<char>| lookup(self.entries@, key)->0,
        )
    }
}

impl Properties {
    /// Whether the list is as it must be: no key occurs twice.
    pub closed spec fn wf(&self) -> bool {
        distinct_keys(self.entries@)
    }

    /// The empty list.
    pub fn new() -> (r: Properties)
        ensures
            r.wf(),
            r@ == Map::<Seq<char>, Seq<char>>::empty(),
    {
        let r = Properties { entries: Vec::new() };
        r
    }

    fn position(&self, key: &String) -> (r: Option<usize>)
        ensures
            match r {
                Some(i) => i < self.entries@.len() && self.entries@[i as int].0@ == key@
                    && lookup(self.entries@, key@) == Some(self.entries@[i as int].1@),
                None => lookup(self.entries@, key@) is None,
            },
    {
        let mut i: usize = 0;
        while i < self.entries.len()
            invariant
                i <= self.entries@.len(),
                forall|j: int| 0 <= j < i ==> (#[trigger] self.entries@[j]).0@ != key@,
            decreases self.entries@.len() - i,
        {
            if self.entries[i].0 == *key {
                proof {
                    lemma_lookup(self.entries@, key@);
                }
                return Some(i);
            }
            i += 1;
        }
        proof {
            lemma_lookup(self.entries@, key@);
        }
        None
    }

    /// The value of `key`.
    pub fn get(&self, key: &str) -> (r: Option<&String>)
        ensures
            match r {
                Some(value) => self@.contains_key(key@) && self@[key@] == value@,
                None => !self@.contains_key(key@),
            },
    {
        let owned = key.to_owned();
        match self.position(&owned) {
            Some(i) => Some(&self.entries[i].1),
            None => None,
        }
    }

    /// Gives `key` the value `value`, in place of the one it had.
    pub fn insert(&mut self, key: String, value: String)
        requires
            old(self).wf(),
        ensures
            final(self).wf(),
            final(self)@ == old(self)@.insert(key@, value@),
    {
        let ghost before = self.entries@;
        let ghost key_view = key@;
        let ghost value_view = value@;
        match self.position(&key) {
            Some(i) => {
                self.entries.set(i, (key, value));
                proof {
                    let after = self.entries@;
                    lemma_lookup_after(before, after, i as int, key_view, value_view);
                }
            },
            None => {
                self.entries.push((key, value));
                proof {
                    let after = self.entries@;
                    lemma_lookup(before, key_view);
                    lemma_lookup_after(
                        before,
                        after,
                        before.len() as int,
                        key_view,
                        value_view,
                    );
                }
            },
        }
    }
}

/// The entries that a list of lines gives: each line that holds `sep` makes
/// the text before its first `sep` a key, with the text after it as value,
/// and a later line wins over an earlier one with the same key.
pub open spec fn entries_of(lines: Seq<Seq<char>>, sep: Seq<char>) -> Map<Seq<char>, Seq<char>>
    decreases lines.len(),
{
    if lines.len() == 0 {
        Map::empty()
    } else {
        let before = entries_of(lines.drop_last(), sep);
        match split_once(lines.last(), sep) {
            Some((key, value)) => before.insert(key, value),
            None => before,
        }
    }
}

fn parse_entries(content: &str, sep: &str) -> (r: Properties)
    ensures
        r.wf(),
        r@ == entries_of(lines_of(content@), sep@),
{
    let chars = chars_of(content);
    let sep_chars = chars_of(sep);
    let all = lines(chars.as_slice());
    let ghost views = piece_views(all@);
    let mut map = Properties::new();
    let mut i: usize = 0;
    while i < all.len()
        invariant
            i <= all@.len(),
            views == piece_views(all@),
            sep_chars@ == sep@,
            map.wf(),
            map@ == entries_of(views.take(i as int), sep@),
        decreases all@.len() - i,
    {
        let line = &all[i];
        let width = line.len();
        proof {
            assert(views.take(i + 1).drop_last() =~= views.take(i as int));
        }
        match find_first(line.as_slice(), sep_chars.as_slice()) {
            Some(at) => {
                let key = string_from_chars(copy_range(line.as_slice(), 0, at).as_slice());
                let value = string_from_chars(
                    copy_range(line.as_slice(), at + sep_chars.len(), width).as_slice(),
                );
                map.insert(key, value);
            },
            None => {},
        }
        i += 1;
    }
    assert(views.take(i as int) =~= views);
    map
}

/// Reads a properties file: every line of the form `key=value`.
pub fn parse_properties(content: &str) -> (r: Properties)
    ensures
        r.wf(),
        r@ == entries_of(lines_of(content@), "="@),
{
    parse_entries(content, "=")
}

/// Reads a jar manifest: every line of the form `key: value`.
pub fn parse_manifest(content: &str) -> (r: Properties)
    ensures
        r.wf(),
        r@ == entries_of(lines_of(content@), ": "@),
{
    parse_entries(content, ": ")
}

} // verus!
