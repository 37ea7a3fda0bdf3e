//! Splitting an input line into shell-style words, and joining words back
//! into a line.

use vstd::prelude::*;
use crate::text::chars_of;

verus! {

/// Why a line could not be split into words.
#[derive(Clone, Copy, Debug, PartialEq, Eq, Structural)]
pub enum ParseError {
    /// The line ends inside a single- or double-quoted span.
    UnterminatedQuote,
    /// The line ends right after an unquoted backslash.
    DanglingEscape,
}

/// Why a list of words could not be joined into a line.
#[derive(Clone, Copy, Debug, PartialEq, Eq, Structural)]
pub enum JoinError {
    /// No line splits into these words again. So it is where one of them
    /// holds a nul character, which no quoting can carry.
    Unquotable,
}

/// The error of `shlex::try_join`. Nothing is known of what it holds.
#[verifier::external_type_specification]
#[verifier::external_body]
pub struct ExQuoteError(shlex::QuoteError);

/// The words of a sequence of strings, each as its characters.
pub open spec fn word_views(words: Seq<String>) -> Seq<Seq<char>> {
    Seq::new(words.len(), |i: int| words[i]@)
}

/// Whether some word holds a nul character.
pub open spec fn has_nul(words: Seq<Seq<char>>) -> bool {
    exists|i: int| 0 <= i < words.len() && (#[trigger] words[i]).contains('\0')
}

/// What `shlex::split` makes of a line: its words, or `None` where the line
/// is malformed.
pub uninterp spec fn shlex_split(line: Seq<char>) -> Option<Seq<Seq<char>>>;

/// The line that `shlex::try_join` builds from a list of words, or `None`
/// where it refuses them.
pub uninterp spec fn shlex_join(words: Seq<Seq<char>>) -> Option<Seq<char>>;

/// `shlex::split`. The result is a function of the line alone; it is `None`
/// exactly where the outside function reports an erroneous line.
#[verifier::external_body]
fn split_words(line: &str) -> (r: Option<Vec<String>>)
    ensures
        match r {
            Some(words) => shlex_split(line@) == Some(word_views(words@)),
            None => shlex_split(line@) is None,
        },
{
    shlex::split(line)
}

/// `shlex::try_join`. The result is a function of the words alone; it is
/// `None` exactly where the outside function refuses the words.
#[verifier::external_body]
fn join_words(words: &[String]) -> (r: Result<String, shlex::QuoteError>)
    ensures
        match r {
            Ok(line) => shlex_join(word_views(words@)) == Some(line@),
            Err(_) => shlex_join(word_views(words@)) is None,
        },
{
    shlex::try_join(words.iter().map(|w| w.as_str()))
}

/// Where the scan of a line stands after some of its characters.
#[derive(Clone, Copy, Debug, PartialEq, Eq, Structural)]
pub enum LexState {
    /// Between words.
    Gap,
    /// Inside a `#` comment, which runs to the end of its line.
    Comment,
    /// Inside a word, outside any quotes.
    Word,
    /// Inside a single-quoted span.
    Single,
    /// Inside a double-quoted span.
    Double,
    /// Right after an unquoted backslash.
    Escape,
    /// Right after a backslash inside a double-quoted span.
    DoubleEscape,
}

/// The state after reading `c` inside a word, outside any quotes.
pub open spec fn word_step(c: char) -> LexState {
    if c == ' ' || c == '\t' || c == '\n' {
        LexState::Gap
    } else if c == '\'' {
        LexState::Single
    } else if c == '"' {
        LexState::Double
    } else if c == '\\' {
        LexState::Escape
    } else {
        LexState::Word
    }
}

/// The state after reading `c` in state `st`.
pub open spec fn lex_step(st: LexState, c: char) -> LexState {
    match st {
        LexState::Gap => if c == '#' {
            LexState::Comment
        } else {
            word_step(c)
        },
        LexState::Comment => if c == '\n' {
            LexState::Gap
        } else {
            LexState::Comment
        },
        LexState::Word => word_step(c),
        LexState::Single => if c == '\'' {
            LexState::Word
        } else {
            LexState::Single
        },
        LexState::Double => if c == '"' {
            LexState::Word
        } else if c == '\\' {
            LexState::DoubleEscape
        } else {
            LexState::Double
        },
        LexState::Escape => LexState::Word,
        LexState::DoubleEscape => LexState::Double,
    }
}

/// The state after reading a whole line, starting between words.
pub open spec fn lex_state(line: Seq<char>) -> LexState {
    line.fold_left(LexState::Gap, |st: LexState, c: char| lex_step(st, c))
}

/// The error that a malformed line is reported with: a dangling escape where
/// the line ends right after a backslash, an unterminated quote otherwise.
pub open spec fn failure_kind(line: Seq<char>) -> ParseError {
    match lex_state(line) {
        LexState::Escape | LexState::DoubleEscape => ParseError::DanglingEscape,
        _ => ParseError::UnterminatedQuote,
    }
}

fn step(st: LexState, c: char) -> (r: LexState)
    ensures
        r == lex_step(st, c),
{
    match st {
        LexState::Gap | LexState::Word => {
            if c == ' ' || c == '\t' || c == '\n' {
                LexState::Gap
            } else if c == '#' && st == LexState::Gap {
                LexState::Comment
            } else if c == '\'' {
                LexState::Single
            } else if c == '"' {
                LexState::Double
            } else if c == '\\' {
                LexState::Escape
            } else {
                LexState::Word
            }
        },
        LexState::Comment => if c == '\n' {
            LexState::Gap
        } else {
            LexState::Comment
        },
        LexState::Single => if c == '\'' {
            LexState::Word
        } else {
            LexState::Single
        },
        LexState::Double => if c == '"' {
            LexState::Word
        } else if c == '\\' {
            LexState::DoubleEscape
        } else {
            LexState::Double
        },
        LexState::Escape => LexState::Word,
        LexState::DoubleEscape => LexState::Double,
    }
}

/// Scans `line` and says where the scan ends.
pub fn scan(line: &str) -> (st: LexState)
    ensures
        st == lex_state(line@),
{
    let chars = chars_of(line);
    let mut st = LexState::Gap;
    let mut i: usize = 0;
    let ghost f = |st: LexState, c: char| lex_step(st, c);
    while i < chars.len()
        invariant
            i <= chars@.len(),
            chars@ == line@,
            f == (|st: LexState, c: char| lex_step(st, c)),
            st == chars@.take(i as int).fold_left(LexState::Gap, f),
        decreases chars@.len() - i,
    {
        assert(chars@.take(i + 1).drop_last() =~= chars@.take(i as int));
        st = step(st, chars[i]);
        i += 1;
    }
    st
}

/// Splits a line into its words, as the `shlex` crate does: words are
/// separated by unquoted blanks, single and double quotes group, and a
/// backslash escapes. A line that cannot be split is reported with the
/// fault that a scan of it finds.
pub fn tokenize(line: &str) -> (r: Result<Vec<String>, ParseError>)
    ensures
        match r {
            Ok(tokens) => shlex_split(line@) == Some(word_views(tokens@)),
            Err(e) => shlex_split(line@) is None && e == failure_kind(line@),
        },
{
    match split_words(line) {
        Some(tokens) => Ok(tokens),
        None => {
            match scan(line) {
                LexState::Escape | LexState::DoubleEscape => Err(ParseError::DanglingEscape),
                _ => Err(ParseError::UnterminatedQuote),
            }
        },
    }
}

/// The line that a list of words is joined into: the one that the quoting
/// gives, provided that it splits into the same words again. Words of
/// which one holds a nul character have none.
pub open spec fn joined_line(words: Seq<Seq<char>>) -> Option<Seq<char>> {
    if has_nul(words) {
        None
    } else {
        match shlex_join(words) {
            Some(line) => if shlex_split(line) == Some(words) {
                Some(line)
            } else {
                None
            },
            None => None,
        }
    }
}

/// Joining and splitting again gives the words back: whenever a list of
/// words is joined into a line, that line splits into exactly those words.
pub proof fn lemma_join_round_trip(words: Seq<Seq<char>>)
    ensures
        joined_line(words) matches Some(line) ==> shlex_split(line) == Some(words),
{
}

/// Splitting, joining and splitting again gives what the first splitting
/// gave: the line that the words of a line are joined into has the same
/// words.
pub proof fn lemma_split_join_split(line: Seq<char>)
    ensures
        shlex_split(line) matches Some(words) ==> (joined_line(words) matches Some(again)
            ==> shlex_split(again) == shlex_split(line)),
{
}

/// Whether two lists hold the same words.
pub fn same_words(a: &[String], b: &[String]) -> (r: bool)
    ensures
        r == (word_views(a@) == word_views(b@)),
{
    if a.len() != b.len() {
        assert(word_views(a@).len() != word_views(b@).len());
        return false;
    }
    let mut i: usize = 0;
    while i < a.len()
        invariant
            a@.len() == b@.len(),
            i <= a@.len(),
            forall|j: int| 0 <= j < i ==> a@[j]@ == b@[j]@,
        decreases a@.len() - i,
    {
        if a[i] != b[i] {
            assert(word_views(a@)[i as int] != word_views(b@)[i as int]);
            return false;
        }
        i += 1;
    }
    assert(word_views(a@) =~= word_views(b@));
    true
}

/// Whether one of the words holds a nul character.
pub fn holds_nul(words: &[String]) -> (b: bool)
    ensures
        b == has_nul(word_views(words@)),
{
    let mut i: usize = 0;
    while i < words.len()
        invariant
            i <= words@.len(),
            forall|j: int| 0 <= j < i ==> !(#[trigger] word_views(words@)[j]).contains('\0'),
        decreases words@.len() - i,
    {
        let word = chars_of(words[i].as_str());
        let mut k: usize = 0;
        while k < word.len()
            invariant
                i < words@.len(),
                word@ == word_views(words@)[i as int],
                k <= word@.len(),
                forall|m: int| 0 <= m < k ==> word@[m] != '\0',
            decreases word@.len() - k,
        {
            if word[k] == '\0' {
                return true;
            }
            k += 1;
        }
        i += 1;
    }
    false
}

/// Joins words into one line, quoting each word that needs it and putting
/// one space between neighbours. Words of which one holds a nul character,
/// which no quoting can carry, are refused. The line is split again before
/// it is handed out, and refused unless it gives the words back: what
/// `join` returns, `tokenize` undoes.
pub fn join(tokens: &[String]) -> (r: Result<String, JoinError>)
    ensures
        match r {
            Ok(line) => joined_line(word_views(tokens@)) == Some(line@),
            Err(_) => joined_line(word_views(tokens@)) is None,
        },
{
    if holds_nul(tokens) {
        return Err(JoinError::Unquotable);
    }
    let line = match join_words(tokens) {
        Ok(line) => line,
        Err(_) => {
            return Err(JoinError::Unquotable);
        },
    };
    match split_words(line.as_str()) {
        Some(words) => {
            if same_words(words.as_slice(), tokens) {
                Ok(line)
            } else {
                Err(JoinError::Unquotable)
            }
        },
        None => Err(JoinError::Unquotable),
    }
}

} // verus!
