//! The configuration of a server instance: its memory limits, its jar and
//! the Java that runs it.

use vstd::prelude::*;
use vstd::string::StringExecFns;
use crate::config::{java_home_lines, script_head, Platform};
use crate::system::jar_parser::InvalidServerDirError;
use crate::text::option_view;

verus! {

/// The configuration of a server instance.
#[derive(Clone, Debug, PartialEq, Eq)]
pub struct Config {
    pub min_memory: String,
    pub max_memory: String,
    pub jar_name: String,
    pub java_home: Option<String>,
}

/// The command that starts a server.
pub open spec fn start_command(max_memory: Seq<char>, min_memory: Seq<char>, jar_name: Seq<char>) -> Seq<
    char,
> {
    "java -Xmx"@ + max_memory + " -Xms"@ + min_memory + " -jar "@ + jar_name + " nogui"@
}

/// The lines of a start script that report the Java in use.
pub open spec fn report_lines(platform: Platform) -> Seq<char> {
    match platform {
        Platform::Windows => "\n\necho Using Java: %JAVA_HOME%\njava --version\n"@,
        Platform::Unix => "\n\necho Using Java: $JAVA_HOME\njava --version\n"@,
    }
}

/// The text of the start script.
pub open spec fn start_script(
    platform: Platform,
    java_home: Option<Seq<char>>,
    command: Seq<char>,
) -> Seq<char> {
    script_head(platform) + java_home_lines(platform, java_home) + report_lines(platform) + command
}

impl Config {
    /// A configuration for the jar `jar_name`, with the most and the least
    /// memory both set to 4G and no Java home.
    pub fn new_4gb(jar_name: String) -> (r: Config)
        ensures
            r.min_memory@ == "4G"@,
            r.max_memory@ == "4G"@,
            r.jar_name == jar_name,
            r.java_home is None,
    {
        Config {
            min_memory: String::from_str("4G"),
            max_memory: String::from_str("4G"),
            jar_name,
            java_home: None,
        }
    }

    /// The configuration to work with, given the one read from the server
    /// directory, if there was one, and the names of the jars that lie in
    /// the directory. The flag says whether the configuration differs from
    /// the one read and has to be written back.
    ///
    /// Without a stored configuration the directory must hold exactly one
    /// jar, which becomes the jar of a new configuration. With one, a single
    /// jar of another name replaces the stored name; several jars leave the
    /// stored name as it is; no jar at all is an error.
    pub fn load_or_create(stored: Option<Config>, jars: &[String]) -> (r: Result<
        (Config, bool),
        InvalidServerDirError,
    >)
        ensures
            match r {
                Ok((config, changed)) => match stored {
                    None => jars@.len() == 1 && !changed && config.jar_name@ == jars@[0]@
                        && config.min_memory@ == "4G"@ && config.max_memory@ == "4G"@
                        && config.java_home is None,
                    Some(old) => {
                        &&& jars@.len() >= 1
                        &&& config.min_memory == old.min_memory
                        &&& config.max_memory == old.max_memory
                        &&& config.java_home == old.java_home
                        &&& changed == (jars@.len() == 1 && jars@[0]@ != old.jar_name@)
                        &&& config.jar_name@ == if jars@.len() == 1 {
                            jars@[0]@
                        } else {
                            old.jar_name@
                        }
                    },
                },
                Err(InvalidServerDirError::NoJar) => jars@.len() == 0,
                Err(InvalidServerDirError::MultipleJars) => jars@.len() > 1 && stored is None,
            },
    {
        match stored {
            None => {
                if jars.len() == 0 {
                    Err(InvalidServerDirError::NoJar)
                } else if jars.len() > 1 {
                    Err(InvalidServerDirError::MultipleJars)
                } else {
                    Ok((Config::new_4gb(jars[0].clone()), false))
                }
            },
            Some(old) => {
                if jars.len() == 0 {
                    Err(InvalidServerDirError::NoJar)
                } else if jars.len() == 1 && jars[0] != old.jar_name {
                    let mut config = old;
                    config.jar_name = jars[0].clone();
                    Ok((config, true))
                } else {
                    Ok((old, false))
                }
            },
        }
    }

    /// The command that starts the server.
    pub fn create_start_command(&self) -> (r: String)
        ensures
            r@ == start_command(self.max_memory@, self.min_memory@, self.jar_name@),
    {
        let r = String::from_str("java -Xmx").concat(self.max_memory.as_str()).concat(
            " -Xms",
        ).concat(self.min_memory.as_str()).concat(" -jar ").concat(self.jar_name.as_str()).concat(
            " nogui",
        );
        r
    }

    /// The start script for `platform`.
    pub fn create_start_script(&self, platform: Platform) -> (r: String)
        ensures
            r@ == start_script(
                platform,
                option_view(self.java_home),
                start_command(self.max_memory@, self.min_memory@, self.jar_name@),
            ),
    {
        let command = self.create_start_command();
        let mut text = match platform {
            Platform::Windows => String::from_str("@echo off\n"),
            Platform::Unix => String::from_str("#!/usr/bin/env bash\n"),
        };
        match &self.java_home {
            Some(home) => {
                text = match platform {
                    Platform::Windows => text.concat("set JAVA_HOME=").concat(
                        home.as_str(),
                    ).concat("\nset PATH=%JAVA_HOME%\\bin;%PATH%"),
                    Platform::Unix => text.concat("export JAVA_HOME=\"").concat(
                        home.as_str(),
                    ).concat("\"\nexport PATH=\"$JAVA_HOME/bin:$PATH\""),
                };
            },
            None => {},
        }
        text = match platform {
            Platform::Windows => text.concat("\n\necho Using Java: %JAVA_HOME%\njava --version\n"),
            Platform::Unix => text.concat("\n\necho Using Java: $JAVA_HOME\njava --version\n"),
        };
        text = text.concat(command.as_str());
        text
    }

    /// The configuration in words, one setting to a line.
    pub fn describe(&self) -> (r: String)
        ensures
            r@ == "Max Memory: "@ + self.max_memory@ + "\nMin Memory: "@ + self.min_memory@
                + "\nExecutable Jar: "@ + self.jar_name@ + "\nJava Home: "@
                + match self.java_home {
                Some(home) => home@,
                None => "Not Set"@,
            } + "\n"@,
    {
        let home: &str = match &self.java_home {
            Some(home) => home.as_str(),
            None => "Not Set",
        };
        let r = String::from_str("Max Memory: ").concat(self.max_memory.as_str()).concat(
            "\nMin Memory: ",
        ).concat(self.min_memory.as_str()).concat("\nExecutable Jar: ").concat(
            self.jar_name.as_str(),
        ).concat("\nJava Home: ").concat(home).concat("\n");
        r
    }
}

/// Changes the settings that are given, and leaves the others as they are.
pub fn set_config(
    config: &mut Config,
    max_mem: Option<String>,
    min_mem: Option<String>,
    java_home: Option<String>,
)
    ensures
        final(config).jar_name == old(config).jar_name,
        final(config).max_memory == match max_mem {
            Some(value) => value,
            None => old(config).max_memory,
        },
        final(config).min_memory == match min_mem {
            Some(value) => value,
            None => old(config).min_memory,
        },
        final(config).java_home == match java_home {
            Some(value) => Some(value),
            None => old(config).java_home,
        },
{
    if let Some(value) = max_mem {
        config.max_memory = value;
    }
    if let Some(value) = min_mem {
        config.min_memory = value;
    }
    if let Some(value) = java_home {
        config.java_home = Some(value);
    }
}

} // verus!
