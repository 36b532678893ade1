use keyence_collector::config::{optional, parse, required, Config, ConfigError, HostFacts, Values};

const EXAMPLE: &str = "ftp_bind=0.0.0.0
ftp_advertise=192.168.1.50
ftp_port=2121
ftp_user=keyence
ftp_password=zmenit-heslo
parent_socket=/run/keyence-collector/parent.sock
tmp_dir=/dev/shm/keyence-collector
";

const HOST: HostFacts =
    HostFacts { windows: false, bind_is_ipv6: false, parent_is_ipv6: false };

fn read(text: &str) -> Result<Config, ConfigError> {
    Config::from_file("test.conf", Ok(text.to_string()))
}

fn refusal(text: &str) -> String {
    read(text).unwrap_err().message()
}

fn values(pairs: &[(&str, &str)]) -> Values {
    let mut values = Values::new();
    for (key, value) in pairs {
        values.insert(key.to_string(), value.to_string());
    }
    values
}

#[test]
fn example_is_read() {
    let config = read(EXAMPLE).unwrap();
    assert_eq!(config.ftp_bind, "0.0.0.0");
    assert_eq!(config.ftp_advertise, "192.168.1.50");
    assert_eq!(config.ftp_port, 2121);
    assert_eq!(config.ftp_user, "keyence");
    assert_eq!(config.ftp_password, "zmenit-heslo");
    assert_eq!(config.parent_socket, "/run/keyence-collector/parent.sock");
    assert_eq!(config.tmp_dir, "/dev/shm/keyence-collector");
    assert!(config.validate(HOST).is_ok());
}

#[test]
fn backslashes_are_kept() {
    let text = EXAMPLE.replace("/dev/shm/keyence-collector", "C:\\\\ProgramData\\\\tmp");
    assert_eq!(read(&text).unwrap().tmp_dir, "C:\\\\ProgramData\\\\tmp");
}

#[test]
fn comments_blank_lines_and_line_endings_are_ignored() {
    let text = format!("# heading\r\n\r\n   \n{}", EXAMPLE.replace('\n', " # note = x\r\n"));
    let config = read(&text).unwrap();
    assert_eq!(config.ftp_bind, "0.0.0.0");
    assert_eq!(config.tmp_dir, "/dev/shm/keyence-collector");
    assert_eq!(refusal("\n# x\nbroken\n"), "test.conf:3: očekáváno key=value");
}

#[test]
fn white_space_around_keys_and_values_is_dropped() {
    let config = read(&EXAMPLE.replace("ftp_user=keyence", " ftp_user \t=  key ence\u{a0}")).unwrap();
    assert_eq!(config.ftp_user, "key ence");
}

#[test]
fn last_value_of_a_key_counts() {
    let config = read(&format!("{}ftp_port=21\nftp_port=22", EXAMPLE)).unwrap();
    assert_eq!(config.ftp_port, 22);
    let emptied = format!("{}ftp_user=", EXAMPLE);
    assert_eq!(refusal(&emptied), "chybí konfigurace ftp_user");
}

#[test]
fn value_may_hold_equals_signs() {
    let config = read(&EXAMPLE.replace("zmenit-heslo", "a=b=c")).unwrap();
    assert_eq!(config.ftp_password, "a=b=c");
}

#[test]
fn advertise_falls_back_to_bind() {
    let config = read(&EXAMPLE.replace("ftp_advertise=192.168.1.50", "ftp_advertise=")).unwrap();
    assert_eq!(config.ftp_advertise, "0.0.0.0");
}

#[test]
fn written_config_is_read_back() {
    let config = read(&EXAMPLE.replace("keyence\n", "  a=b ; c \t# note\r\n")).unwrap();
    assert_eq!(config.ftp_user, "a=b ; c");
    let text = format!(
        "ftp_bind={}\nftp_advertise={}\nftp_port={}\nftp_user={}\nftp_password={}\nparent_socket={}\ntmp_dir={}\n",
        config.ftp_bind,
        config.ftp_advertise,
        config.ftp_port,
        config.ftp_user,
        config.ftp_password,
        config.parent_socket,
        config.tmp_dir
    );
    assert_eq!(format!("{:?}", read(&text).unwrap()), format!("{:?}", config));
}

#[test]
fn missing_settings_are_named_in_order() {
    assert_eq!(refusal(""), "chybí konfigurace ftp_bind");
    for key in ["ftp_bind", "ftp_port", "ftp_user", "ftp_password", "parent_socket", "tmp_dir"] {
        let text = EXAMPLE.replace(&format!("{}=", key), "other=");
        assert_eq!(refusal(&text), format!("chybí konfigurace {}", key));
    }
}

#[test]
fn invalid_port_is_refused() {
    let text = EXAMPLE.replace("2121", "70000");
    assert_eq!(
        refusal(&text),
        "neplatná hodnota ftp_port: number too large to fit in target type"
    );
    let text = EXAMPLE.replace("2121", "21x");
    assert_eq!(refusal(&text), "neplatná hodnota ftp_port: invalid digit found in string");
}

#[test]
fn unreadable_file_is_reported() {
    let error = Config::from_file("a.conf", Err("denied".to_string())).unwrap_err();
    assert_eq!(error.message(), "nelze načíst konfigurační soubor 'a.conf': denied");
}

#[test]
fn required_and_optional_values() {
    let values = values(&[("a", "1"), ("b", ""), ("a", "2")]);
    assert_eq!(required(&values, "a").unwrap(), "2");
    assert_eq!(required(&values, "b").unwrap_err().message(), "chybí konfigurace b");
    assert_eq!(required(&values, "c").unwrap_err().message(), "chybí konfigurace c");
    assert_eq!(optional(&values, "a"), Some("2".to_string()));
    assert_eq!(optional(&values, "b"), None);
    assert_eq!(optional(&values, "c"), None);
    assert_eq!(values.get("b"), Some(""));
    assert_eq!(values.get("c"), None);
}

#[test]
fn numbers_are_parsed() {
    let values = values(&[("port", "2121"), ("bad", "x"), ("scale", "1.5"), ("empty", "")]);
    let number = |text: &str| text.parse::<u16>().map_err(|error| error.to_string());
    assert_eq!(parse(&values, "port", number).unwrap(), 2121);
    assert_eq!(
        parse(&values, "bad", number).unwrap_err().message(),
        "neplatná hodnota bad: invalid digit found in string"
    );
    assert!(matches!(parse(&values, "none", number), Err(ConfigError::Missing { .. })));
    assert!(matches!(parse(&values, "empty", number), Err(ConfigError::Missing { .. })));
    let float = |text: &str| text.parse::<f64>().map_err(|error| error.to_string());
    assert_eq!(parse(&values, "scale", float).unwrap(), 1.5);
    assert_eq!(
        parse(&values, "bad", float).unwrap_err().message(),
        "neplatná hodnota bad: invalid float literal"
    );
}

#[test]
fn checks_come_in_order() {
    let config = read(EXAMPLE).unwrap();
    let refused = |config: &Config, host: HostFacts, absolute: bool| {
        config.check(host, absolute).unwrap_err().message()
    };
    let mut other = config.clone();
    other.ftp_bind = "::".to_string();
    assert_eq!(refused(&other, HOST, false), "ftp_bind musí být IP adresa");
    assert!(other.check(HostFacts { bind_is_ipv6: true, ..HOST }, true).is_ok());
    let mut other = config.clone();
    other.ftp_advertise = "::1".to_string();
    assert_eq!(refused(&other, HOST, false), "ftp_advertise musí být IPv4 adresa");
    let mut other = config.clone();
    other.ftp_password = String::new();
    assert_eq!(refused(&other, HOST, false), "ftp_user a ftp_password nesmí být prázdné");
    let mut other = config.clone();
    other.ftp_user = String::new();
    assert_eq!(refused(&other, HOST, true), "ftp_user a ftp_password nesmí být prázdné");
    assert_eq!(refused(&config, HOST, false), "tmp_dir musí být absolutní cesta");
    let windows = HostFacts { windows: true, ..HOST };
    assert_eq!(
        refused(&config, windows, true),
        "parent_socket musí být TCP adresa ve tvaru IP:port"
    );
    assert!(config.check(HostFacts { parent_is_ipv6: true, ..windows }, true).is_ok());
    let mut other = config.clone();
    for address in ["127.0.0.1:9100", "0.0.0.0:0", "10.0.0.1:65535", "10.0.0.1:09100"] {
        other.parent_socket = address.to_string();
        assert!(other.check(windows, true).is_ok());
    }
    for address in ["127.0.0.1", "127.0.0.1:", "1.2.3:4", "1.2.3.4:65536", "1.2.3.4:+5", "1.2.3.4:5:6"] {
        other.parent_socket = address.to_string();
        assert!(other.check(windows, true).is_err());
    }
    assert!(config.check(HOST, true).is_ok());
}

#[test]
fn absolute_paths_on_windows() {
    let host = HostFacts { windows: true, ..HOST };
    let mut config = read(EXAMPLE).unwrap();
    config.parent_socket = "127.0.0.1:9100".to_string();
    for path in ["C:\\ProgramData\\tmp", "c:/tmp", "//server/share/tmp"] {
        config.tmp_dir = path.to_string();
        assert!(config.validate(host).is_ok());
    }
    for path in ["C:tmp", "tmp\\x", "\\tmp", "C:", "1:x", "a/b"] {
        config.tmp_dir = path.to_string();
        assert_eq!(config.validate(host).unwrap_err().message(), "tmp_dir musí být absolutní cesta");
    }
    config.tmp_dir = "C:\\tmp".to_string();
    assert!(config.validate(HOST).is_err());
}

#[test]
fn relative_tmp_dir_is_refused() {
    let mut config = read(EXAMPLE).unwrap();
    config.tmp_dir = "tmp/collector".to_string();
    assert_eq!(config.validate(HOST).unwrap_err().message(), "tmp_dir musí být absolutní cesta");
}
