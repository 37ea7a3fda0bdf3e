//! Reading the options of a command from the words of a line.

use vstd::prelude::*;
use vstd::string::StringExecFns;
use crate::completion::{flag, option_flag};
use crate::seqs::{first_index, lemma_first_index_is, lemma_first_index_none};
use crate::text::{chars_of, matches_at};
use crate::tokenizer::word_views;

verus! {

/// Why an option gives no value.
#[derive(Clone, Copy, Debug, PartialEq, Eq, Structural)]
pub enum OptionError {
    /// The option is on the line, but no value follows it: the line ends
    /// there, or the next word is itself an option.
    MissingValue,
    /// The option is not on the line.
    InvalidOption,
}

impl OptionError {
    /// The words shown to the user.
    pub fn message(&self) -> (r: String)
        ensures
            r@ == match *self {
                OptionError::MissingValue => "Missing value for option."@,
                OptionError::InvalidOption => "Invalid option."@,
            },
    {
        match self {
            OptionError::MissingValue => String::from_str("Missing value for option."),
            OptionError::InvalidOption => String::from_str("Invalid option."),
        }
    }
}

/// Holds of the word `word`.
pub open spec fn is_word(word: Seq<char>) -> spec_fn(Seq<char>) -> bool {
    |token: Seq<char>| token == word
}

/// Whether a word begins with two dashes, as an option does.
pub open spec fn looks_like_option(word: Seq<char>) -> bool {
    seq!['-', '-'].is_prefix_of(word)
}

/// The value of the option `name`: the word after the first `--name`,
/// unless that word is missing or is itself an option.
pub open spec fn option_value(name: Seq<char>, tokens: Seq<Seq<char>>) -> Result<
    Seq<char>,
    OptionError,
> {
    match first_index(tokens, is_word(flag(name))) {
        None => Err(OptionError::InvalidOption),
        Some(i) => if i + 1 < tokens.len() && !looks_like_option(tokens[i + 1]) {
            Ok(tokens[i + 1])
        } else {
            Err(OptionError::MissingValue)
        },
    }
}

/// Whether the option `name` is on the line.
pub open spec fn has_flag(name: Seq<char>, tokens: Seq<Seq<char>>) -> bool {
    tokens.contains(flag(name))
}

/// The position of the first word equal to `word`.
pub fn position(tokens: &[String], word: &String) -> (r: Option<usize>)
    ensures
        match r {
            Some(i) => first_index(word_views(tokens@), is_word(word@)) == Some(i as int) && i
                < tokens@.len(),
            None => first_index(word_views(tokens@), is_word(word@)) is None,
        },
{
    let ghost words = word_views(tokens@);
    let ghost same = is_word(word@);
    let mut i: usize = 0;
    while i < tokens.len()
        invariant
            i <= tokens@.len(),
            words == word_views(tokens@),
            same == is_word(word@),
            forall|j: int| 0 <= j < i ==> !same(#[trigger] words[j]),
        decreases tokens@.len() - i,
    {
        if tokens[i] == *word {
            proof {
                lemma_first_index_is(words, same, i as int);
            }
            return Some(i);
        }
        i += 1;
    }
    proof {
        lemma_first_index_none(words, same);
    }
    None
}

/// Whether the word begins with two dashes.
pub fn is_option_like(word: &str) -> (b: bool)
    ensures
        b == looks_like_option(word@),
{
    let chars = chars_of(word);
    let mut dashes: Vec<char> = Vec::new();
    dashes.push('-');
    dashes.push('-');
    let r = matches_at(chars.as_slice(), dashes.as_slice(), 0);
    assert(r == looks_like_option(word@)) by {
        if 2 <= chars@.len() {
            assert(chars@.subrange(0, 2) == dashes@ <==> dashes@ =~= chars@.subrange(0, 2));
        }
    }
    r
}

/// The value given to the option `option_name` on the line.
pub fn get_option_value<'a>(option_name: &str, tokens: &'a [String]) -> (r: Result<
    &'a String,
    OptionError,
>)
    ensures
        match r {
            Ok(value) => option_value(option_name@, word_views(tokens@)) == Ok::<
                Seq<char>,
                OptionError,
            >(value@),
            Err(e) => option_value(option_name@, word_views(tokens@)) == Err::<
                Seq<char>,
                OptionError,
            >(e),
        },
{
    let word = option_flag(option_name);
    match position(tokens, &word) {
        None => Err(OptionError::InvalidOption),
        Some(i) => {
            if i < tokens.len() - 1 {
                let value = &tokens[i + 1];
                if is_option_like(value.as_str()) {
                    Err(OptionError::MissingValue)
                } else {
                    Ok(value)
                }
            } else {
                Err(OptionError::MissingValue)
            }
        },
    }
}

/// Whether the option `option_name` is on the line.
pub fn has_option(option_name: &str, tokens: &[String]) -> (b: bool)
    ensures
        b == has_flag(option_name@, word_views(tokens@)),
{
    let word = option_flag(option_name);
    crate::completion::has_token(tokens, &word)
}

} // verus!
