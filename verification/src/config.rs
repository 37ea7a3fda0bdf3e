//! The configuration of a server instance that is kept as one start
//! command, and the start scripts written from it.

use vstd::prelude::*;
use vstd::string::StringExecFns;
use crate::seqs::{first_index, lemma_filter_step, lemma_first_index_is, lemma_first_index_none};
use crate::text::{chars_of, contains, has_infix, option_view};
use crate::tokenizer::{join, joined_line, shlex_split, tokenize, word_views};

verus! {

/// What is wrong with a start command.
#[derive(Clone, Copy, Debug, PartialEq, Eq, Structural)]
pub enum ConfigError {
    /// The words that hold `.jar` are not exactly one.
    InvalidJarNumber,
    /// The words that hold `-Xmx` are not exactly one.
    InvalidXmxNumber,
    /// The words that hold `-Xms` are not exactly one.
    InvalidXmsNumber,
    /// The changed words cannot be joined into a line that splits into them
    /// again.
    Unquotable,
}

impl ConfigError {
    /// The name of the error, as it is shown.
    pub fn message(&self) -> (r: &'static str)
        ensures
            r@ == match *self {
                ConfigError::InvalidJarNumber => "InvalidJarNumber"@,
                ConfigError::InvalidXmxNumber => "InvalidXmxNumber"@,
                ConfigError::InvalidXmsNumber => "InvalidXmsNumber"@,
                ConfigError::Unquotable => "Unquotable"@,
            },
    {
        match self {
            ConfigError::InvalidJarNumber => "InvalidJarNumber",
            ConfigError::InvalidXmxNumber => "InvalidXmxNumber",
            ConfigError::InvalidXmsNumber => "InvalidXmsNumber",
            ConfigError::Unquotable => "Unquotable",
        }
    }
}

/// The system that a start script is written for.
#[derive(Clone, Copy, Debug, PartialEq, Eq, Structural)]
pub enum Platform {
    Windows,
    Unix,
}

/// A start script, by the system that runs it.
#[derive(Clone, Debug, PartialEq, Eq)]
pub enum StartScript {
    Windows(String),
    Unix(String),
}

/// The configuration of a server instance: the command that starts it, and
/// the Java home to run it with where that is not the system's.
#[derive(Clone, Debug, PartialEq, Eq)]
pub struct Config {
    pub start_command: String,
    pub java_home: Option<String>,
}

/// The words of a start command; a command that cannot be split has none.
pub open spec fn command_words(command: Seq<char>) -> Seq<Seq<char>> {
    match shlex_split(command) {
        Some(words) => words,
        None => Seq::empty(),
    }
}

/// Holds of a word in which `pattern` occurs.
pub open spec fn holds(pattern: Seq<char>) -> spec_fn(Seq<char>) -> bool {
    |word: Seq<char>| has_infix(word, pattern)
}

/// The number of words in which `pattern` occurs.
pub open spec fn count_holding(words: Seq<Seq<char>>, pattern: Seq<char>) -> nat {
    words.filter(holds(pattern)).len()
}

/// The verdict on a start command: it must hold exactly one jar, one
/// maximum and one minimum memory setting.
pub open spec fn verdict(command: Seq<char>) -> Result<(), ConfigError> {
    let words = command_words(command);
    if count_holding(words, ".jar"@) != 1 {
        Err(ConfigError::InvalidJarNumber)
    } else if count_holding(words, "-Xmx"@) != 1 {
        Err(ConfigError::InvalidXmxNumber)
    } else if count_holding(words, "-Xms"@) != 1 {
        Err(ConfigError::InvalidXmsNumber)
    } else {
        Ok(())
    }
}

/// The start command with the first word that holds `pattern` replaced by
/// `word`, or the reason why it cannot be had: `missing` where no word
/// holds the pattern.
pub open spec fn with_word(
    command: Seq<char>,
    pattern: Seq<char>,
    word: Seq<char>,
    missing: ConfigError,
) -> Result<Seq<char>, ConfigError> {
    let words = command_words(command);
    match first_index(words, holds(pattern)) {
        None => Err(missing),
        Some(i) => match joined_line(words.update(i, word)) {
            Some(line) => Ok(line),
            None => Err(ConfigError::Unquotable),
        },
    }
}

/// The start command that runs the jar `jar_name`, and whether it differs
/// from `command`: a command that runs that jar already stays as it is.
pub open spec fn following(command: Seq<char>, jar_name: Seq<char>) -> Result<
    (bool, Seq<char>),
    ConfigError,
> {
    match first_index(command_words(command), holds(".jar"@)) {
        None => Err(ConfigError::InvalidJarNumber),
        Some(i) => if command_words(command)[i] == jar_name {
            Ok((false, command))
        } else {
            match with_word(command, ".jar"@, jar_name, ConfigError::InvalidJarNumber) {
                Ok(line) => Ok((true, line)),
                Err(e) => Err(e),
            }
        },
    }
}

/// The lines of a script that set the Java home, empty where none is set.
pub open spec fn java_home_lines(platform: Platform, java_home: Option<Seq<char>>) -> Seq<char> {
    match java_home {
        None => Seq::empty(),
        Some(home) => match platform {
            Platform::Windows => "set JAVA_HOME="@ + home + "\nset PATH=%JAVA_HOME%\\bin;%PATH%"@,
            Platform::Unix => "export JAVA_HOME=\""@ + home
                + "\"\nexport PATH=\"$JAVA_HOME/bin:$PATH\""@,
        },
    }
}

/// The first line of a script.
pub open spec fn script_head(platform: Platform) -> Seq<char> {
    match platform {
        Platform::Windows => "@echo off\n"@,
        Platform::Unix => "#!/usr/bin/env bash\n"@,
    }
}

/// The text of the start script.
pub open spec fn script_text(
    platform: Platform,
    java_home: Option<Seq<char>>,
    start_command: Seq<char>,
) -> Seq<char> {
    script_head(platform) + java_home_lines(platform, java_home)
        + "\n\necho Using Java: %JAVA_HOME%\njava --version\n"@ + start_command
}

/// The words of a line; a line that cannot be split has none.
fn words_of(command: &str) -> (r: Vec<String>)
    ensures
        word_views(r@) == command_words(command@),
{
    match tokenize(command) {
        Ok(words) => words,
        Err(_) => {
            let words: Vec<String> = Vec::new();
            words
        },
    }
}

/// Whether `pattern` occurs in `word`.
pub fn word_holds(word: &str, pattern: &str) -> (b: bool)
    ensures
        b == has_infix(word@, pattern@),
{
    let w = chars_of(word);
    let p = chars_of(pattern);
    contains(w.as_slice(), p.as_slice())
}

fn count_words(words: &[String], pattern: &str) -> (n: usize)
    ensures
        n == count_holding(word_views(words@), pattern@),
{
    let ghost views = word_views(words@);
    let ghost test = holds(pattern@);
    let mut n: usize = 0;
    let mut i: usize = 0;
    assert(views.take(0).filter(test).len() == 0) by {
        reveal(Seq::filter);
    }
    while i < words.len()
        invariant
            i <= words@.len(),
            views == word_views(words@),
            test == holds(pattern@),
            n == views.take(i as int).filter(test).len(),
            n <= i,
        decreases words@.len() - i,
    {
        proof {
            lemma_filter_step(views, test, i as int);
        }
        if word_holds(words[i].as_str(), pattern) {
            n += 1;
        }
        i += 1;
    }
    assert(views.take(i as int) =~= views);
    n
}

fn find_word(words: &[String], pattern: &str) -> (r: Option<usize>)
    ensures
        match r {
            Some(i) => first_index(word_views(words@), holds(pattern@)) == Some(i as int) && i
                < words@.len(),
            None => first_index(word_views(words@), holds(pattern@)) is None,
        },
{
    let ghost views = word_views(words@);
    let ghost test = holds(pattern@);
    let mut i: usize = 0;
    while i < words.len()
        invariant
            i <= words@.len(),
            views == word_views(words@),
            test == holds(pattern@),
            forall|j: int| 0 <= j < i ==> !test(#[trigger] views[j]),
        decreases words@.len() - i,
    {
        if word_holds(words[i].as_str(), pattern) {
            proof {
                lemma_first_index_is(views, test, i as int);
            }
            return Some(i);
        }
        i += 1;
    }
    proof {
        lemma_first_index_none(views, test);
    }
    None
}

impl Config {
    /// A configuration that starts `jar_file_name` with at most 2G and at
    /// least 1G of memory.
    pub fn new(jar_file_name: &str) -> (r: Config)
        ensures
            r.start_command@ == "java -Xmx2G -Xms1G -jar "@ + jar_file_name@ + " nogui"@,
            r.java_home is None,
    {
        Config {
            start_command: String::from_str("java -Xmx2G -Xms1G -jar ").concat(
                jar_file_name,
            ).concat(" nogui"),
            java_home: None,
        }
    }

    /// The start script for `platform`.
    pub fn create_start_script(&self, platform: Platform) -> (r: Result<StartScript, ConfigError>)
        ensures
            match r {
                Ok(StartScript::Windows(text)) => platform == Platform::Windows && text@
                    == script_text(
                    platform,
                    option_view(self.java_home),
                    self.start_command@,
                ),
                Ok(StartScript::Unix(text)) => platform == Platform::Unix && text@ == script_text(
                    platform,
                    option_view(self.java_home),
                    self.start_command@,
                ),
                Err(_) => false,
            },
    {
        let tail = "\n\necho Using Java: %JAVA_HOME%\njava --version\n";
        match platform {
            Platform::Windows => {
                let mut text = String::from_str("@echo off\n");
                match &self.java_home {
                    Some(home) => {
                        text = text.concat("set JAVA_HOME=").concat(home.as_str()).concat(
                            "\nset PATH=%JAVA_HOME%\\bin;%PATH%",
                        );
                    },
                    None => {},
                }
                text = text.concat(tail).concat(self.start_command.as_str());
                Ok(StartScript::Windows(text))
            },
            Platform::Unix => {
                let mut text = String::from_str("#!/usr/bin/env bash\n");
                match &self.java_home {
                    Some(home) => {
                        text = text.concat("export JAVA_HOME=\"").concat(home.as_str()).concat(
                            "\"\nexport PATH=\"$JAVA_HOME/bin:$PATH\"",
                        );
                    },
                    None => {},
                }
                text = text.concat(tail).concat(self.start_command.as_str());
                Ok(StartScript::Unix(text))
            },
        }
    }

    /// Whether the configuration can be used.
    pub fn check_validity(&self) -> (r: Result<(), ConfigError>)
        ensures
            r == verdict(self.start_command@),
    {
        self.check_start_command()
    }

    /// Whether the start command holds exactly one jar, one maximum and one
    /// minimum memory setting.
    pub fn check_start_command(&self) -> (r: Result<(), ConfigError>)
        ensures
            r == verdict(self.start_command@),
    {
        let words = words_of(self.start_command.as_str());
        if count_words(words.as_slice(), ".jar") != 1 {
            return Err(ConfigError::InvalidJarNumber);
        }
        if count_words(words.as_slice(), "-Xmx") != 1 {
            return Err(ConfigError::InvalidXmxNumber);
        }
        if count_words(words.as_slice(), "-Xms") != 1 {
            return Err(ConfigError::InvalidXmsNumber);
        }
        Ok(())
    }

    /// The first word of the start command that holds `.jar`.
    pub fn get_jar_name(&self) -> (r: Result<String, ConfigError>)
        ensures
            match first_index(command_words(self.start_command@), holds(".jar"@)) {
                Some(i) => r matches Ok(name) && name@ == command_words(self.start_command@)[i],
                None => r == Err::<String, ConfigError>(ConfigError::InvalidJarNumber),
            },
    {
        let words = words_of(self.start_command.as_str());
        match find_word(words.as_slice(), ".jar") {
            Some(i) => {
                Ok(words[i].clone())
            },
            None => Err(ConfigError::InvalidJarNumber),
        }
    }

    /// Puts `word` in place of the first word of the start command that
    /// holds `pattern`. On an error nothing changes.
    fn replace_word(&mut self, pattern: &str, word: String, missing: ConfigError) -> (r: Result<
        (),
        ConfigError,
    >)
        ensures
            final(self).java_home == old(self).java_home,
            match with_word(old(self).start_command@, pattern@, word@, missing) {
                Ok(line) => r is Ok && final(self).start_command@ == line,
                Err(e) => r == Err::<(), ConfigError>(e) && final(self).start_command == old(
                    self,
                ).start_command,
            },
    {
        let mut words = words_of(self.start_command.as_str());
        let index = match find_word(words.as_slice(), pattern) {
            Some(i) => i,
            None => {
                return Err(missing);
            },
        };
        let ghost before = word_views(words@);
        let ghost word_view = word@;
        words.set(index, word);
        assert(word_views(words@) =~= before.update(index as int, word_view));
        match join(words.as_slice()) {
            Ok(line) => {
                self.start_command = line;
                Ok(())
            },
            Err(_) => Err(ConfigError::Unquotable),
        }
    }

    /// Makes `jar_name` the jar that the start command runs.
    pub fn set_jar(&mut self, jar_name: String) -> (r: Result<(), ConfigError>)
        ensures
            final(self).java_home == old(self).java_home,
            match with_word(
                old(self).start_command@,
                ".jar"@,
                jar_name@,
                ConfigError::InvalidJarNumber,
            ) {
                Ok(line) => r is Ok && final(self).start_command@ == line,
                Err(e) => r == Err::<(), ConfigError>(e) && final(self).start_command == old(
                    self,
                ).start_command,
            },
    {
        self.replace_word(".jar", jar_name, ConfigError::InvalidJarNumber)
    }

    /// Brings the start command in line with the jar that lies in the
    /// directory of the instance: where the command runs another jar,
    /// `jar_name` takes its place. Says whether the command has changed.
    pub fn follow_jar(&mut self, jar_name: &String) -> (r: Result<bool, ConfigError>)
        ensures
            final(self).java_home == old(self).java_home,
            match following(old(self).start_command@, jar_name@) {
                Ok((changed, line)) => r == Ok::<bool, ConfigError>(changed)
                    && final(self).start_command@ == line,
                Err(e) => r == Err::<bool, ConfigError>(e) && final(self).start_command == old(
                    self,
                ).start_command,
            },
    {
        match self.get_jar_name() {
            Ok(current) => {
                if current == *jar_name {
                    Ok(false)
                } else {
                    match self.set_jar(jar_name.clone()) {
                        Ok(_) => Ok(true),
                        Err(e) => Err(e),
                    }
                }
            },
            Err(e) => Err(e),
        }
    }

    /// Sets the most memory that the server may take, as in `4G`.
    pub fn set_max_memory(&mut self, max_memory: &str) -> (r: Result<(), ConfigError>)
        ensures
            final(self).java_home == old(self).java_home,
            match with_word(
                old(self).start_command@,
                "-Xmx"@,
                "-Xmx"@ + max_memory@,
                ConfigError::InvalidXmxNumber,
            ) {
                Ok(line) => r is Ok && final(self).start_command@ == line,
                Err(e) => r == Err::<(), ConfigError>(e) && final(self).start_command == old(
                    self,
                ).start_command,
            },
    {
        let word = String::from_str("-Xmx").concat(max_memory);
        self.replace_word("-Xmx", word, ConfigError::InvalidXmxNumber)
    }

    /// Sets the memory that the server starts with, as in `1G`.
    pub fn set_min_memory(&mut self, min_memory: &str) -> (r: Result<(), ConfigError>)
        ensures
            final(self).java_home == old(self).java_home,
            match with_word(
                old(self).start_command@,
                "-Xms"@,
                "-Xms"@ + min_memory@,
                ConfigError::InvalidXmsNumber,
            ) {
                Ok(line) => r is Ok && final(self).start_command@ == line,
                Err(e) => r == Err::<(), ConfigError>(e) && final(self).start_command == old(
                    self,
                ).start_command,
            },
    {
        let word = String::from_str("-Xms").concat(min_memory);
        self.replace_word("-Xms", word, ConfigError::InvalidXmsNumber)
    }
}

} // verus!
