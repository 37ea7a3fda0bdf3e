use mcerv::config::{Config, ConfigError, Platform, StartScript};

#[test]
fn test_set_jar() {
    let mut config = Config {
        start_command: String::from("java -Xmx2G -Xms1G -jar \"some-server.jar\" nogui"),
        java_home: None,
    };

    config
        .set_jar("a server with spaces in the name.jar".to_string())
        .unwrap();

    assert_eq!(
        config.start_command,
        String::from("java -Xmx2G -Xms1G -jar 'a server with spaces in the name.jar' nogui")
    );

    config.set_jar("nospaces.jar".to_string()).unwrap();
    assert_eq!(
        config.start_command,
        String::from("java -Xmx2G -Xms1G -jar nospaces.jar nogui")
    );
}

#[test]
fn test_set_max_memory() {
    let mut config = Config {
        start_command: String::from("java -Xmx2G -Xms1G -jar some-server.jar nogui"),
        java_home: None,
    };

    config.set_max_memory("3G").unwrap();

    assert_eq!(
        config.start_command,
        String::from("java -Xmx3G -Xms1G -jar some-server.jar nogui")
    );
}

#[test]
fn test_set_min_memory() {
    let mut config = Config {
        start_command: String::from("java -Xmx2G -Xms1G -jar some-server.jar nogui"),
        java_home: None,
    };

    config.set_min_memory("3G").unwrap();

    assert_eq!(
        config.start_command,
        String::from("java -Xmx2G -Xms3G -jar some-server.jar nogui")
    );
}

#[test]
fn test_invalid_start_commands() {
    // invalid jar number
    let config = Config {
        start_command: String::from("java -Xmx2G -Xms1G -jar some-server.jar two.jar nogui"),
        java_home: None,
    };
    assert!(config.check_start_command().is_err());

    let config = Config {
        start_command: String::from("java -Xmx2G -Xms1G -jar nogui"),
        java_home: None,
    };
    assert!(config.check_start_command().is_err());

    // invalid Xmx number
    let config = Config {
        start_command: String::from("java -Xmx2G -Xms1G -jar some-server.jar nogui -Xmx1G"),
        java_home: None,
    };
    assert!(config.check_start_command().is_err());

    let config = Config {
        start_command: String::from("java -Xms1G -jar some-server.jar nogui"),
        java_home: None,
    };
    assert!(config.check_start_command().is_err());

    // invalid Xms number
    let config = Config {
        start_command: String::from("java -Xmx2G -Xms1G -jar some-server.jar nogui -Xms1G"),
        java_home: None,
    };
    assert!(config.check_start_command().is_err());

    let config = Config {
        start_command: String::from("java -Xmx2G -jar some-server.jar nogui"),
        java_home: None,
    };
    assert!(config.check_start_command().is_err());
}

#[test]
fn new_config_is_valid() {
    let config = Config::new("fabric-server.jar");
    assert_eq!(
        config.start_command,
        "java -Xmx2G -Xms1G -jar fabric-server.jar nogui"
    );
    assert_eq!(config.java_home, None);
    assert_eq!(config.check_validity(), Ok(()));
    assert_eq!(config.get_jar_name(), Ok("fabric-server.jar".to_string()));
}

#[test]
fn each_fault_of_a_start_command_has_its_error() {
    let check = |command: &str| {
        Config {
            start_command: command.to_string(),
            java_home: None,
        }
        .check_validity()
    };
    assert_eq!(
        check("java -Xmx2G -Xms1G -jar nogui"),
        Err(ConfigError::InvalidJarNumber)
    );
    assert_eq!(
        check("java -Xms1G -jar some-server.jar nogui"),
        Err(ConfigError::InvalidXmxNumber)
    );
    assert_eq!(
        check("java -Xmx2G -jar some-server.jar nogui"),
        Err(ConfigError::InvalidXmsNumber)
    );
    assert_eq!(
        check("java -Xmx2G -Xms1G -jar 'some-server.jar nogui"),
        Err(ConfigError::InvalidJarNumber)
    );
}

#[test]
fn setters_refuse_what_they_cannot_change() {
    let mut config = Config {
        start_command: String::from("java -jar nogui"),
        java_home: Some("/opt/java".to_string()),
    };
    assert_eq!(
        config.set_jar("server.jar".to_string()),
        Err(ConfigError::InvalidJarNumber)
    );
    assert_eq!(
        config.set_max_memory("3G"),
        Err(ConfigError::InvalidXmxNumber)
    );
    assert_eq!(
        config.set_min_memory("3G"),
        Err(ConfigError::InvalidXmsNumber)
    );
    assert_eq!(config.get_jar_name(), Err(ConfigError::InvalidJarNumber));
    assert_eq!(config.start_command, "java -jar nogui");

    let mut config = Config::new("server.jar");
    assert_eq!(
        config.set_jar("bad\0name.jar".to_string()),
        Err(ConfigError::Unquotable)
    );
    assert_eq!(
        config.start_command,
        "java -Xmx2G -Xms1G -jar server.jar nogui"
    );
}

#[test]
fn start_script_for_each_platform() {
    let config = Config {
        start_command: String::from("java -Xmx2G -Xms1G -jar server.jar nogui"),
        java_home: Some("/path/to/java".to_string()),
    };
    assert_eq!(
        config.create_start_script(Platform::Unix),
        Ok(StartScript::Unix(
            "#!/usr/bin/env bash\nexport JAVA_HOME=\"/path/to/java\"\nexport PATH=\"$JAVA_HOME/bin:$PATH\"\n\necho Using Java: %JAVA_HOME%\njava --version\njava -Xmx2G -Xms1G -jar server.jar nogui"
                .to_string()
        ))
    );
    assert_eq!(
        config.create_start_script(Platform::Windows),
        Ok(StartScript::Windows(
            "@echo off\nset JAVA_HOME=/path/to/java\nset PATH=%JAVA_HOME%\\bin;%PATH%\n\necho Using Java: %JAVA_HOME%\njava --version\njava -Xmx2G -Xms1G -jar server.jar nogui"
                .to_string()
        ))
    );
    let plain = Config::new("server.jar");
    assert_eq!(
        plain.create_start_script(Platform::Unix),
        Ok(StartScript::Unix(
            "#!/usr/bin/env bash\n\n\necho Using Java: %JAVA_HOME%\njava --version\njava -Xmx2G -Xms1G -jar server.jar nogui"
                .to_string()
        ))
    );
}

#[test]
fn config_follows_the_jar_on_disk() {
    let mut config = Config::new("old.jar");
    assert_eq!(config.follow_jar(&"old.jar".to_string()), Ok(false));
    assert_eq!(
        config.start_command,
        "java -Xmx2G -Xms1G -jar old.jar nogui"
    );
    assert_eq!(config.follow_jar(&"new server.jar".to_string()), Ok(true));
    assert_eq!(
        config.start_command,
        "java -Xmx2G -Xms1G -jar 'new server.jar' nogui"
    );
    assert_eq!(config.follow_jar(&"new server.jar".to_string()), Ok(false));

    let mut none = Config {
        start_command: "java -jar".to_string(),
        java_home: None,
    };
    assert_eq!(
        none.follow_jar(&"new.jar".to_string()),
        Err(ConfigError::InvalidJarNumber)
    );
    assert_eq!(none.start_command, "java -jar");
}

#[test]
fn config_errors_are_shown_by_name() {
    assert_eq!(ConfigError::InvalidJarNumber.message(), "InvalidJarNumber");
    assert_eq!(ConfigError::InvalidXmxNumber.message(), "InvalidXmxNumber");
    assert_eq!(ConfigError::InvalidXmsNumber.message(), "InvalidXmsNumber");
    assert_eq!(ConfigError::Unquotable.message(), "Unquotable");
    assert_eq!(
        format!("{:?}", ConfigError::InvalidJarNumber),
        ConfigError::InvalidJarNumber.message()
    );
}
