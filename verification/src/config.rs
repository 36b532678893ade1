//! The configuration: lines of the form `key=value`, with comments after `#`.

use vstd::prelude::*;
use vstd::string::*;

use crate::decimal::{decimal, decimal_of, number, parse_number, NumberError};
use crate::ipv4::{ipv4, ipv4_socket_address, is_ipv4_socket_address, parse_ipv4};
use crate::text::{
    after, before, begins_with, chars_of, find, lemma_find, lines, lines_of, same_text,
    split_at_char, starts_with, trim, trimmed, views,
};

verus! {

/// What the collector is told by its configuration file.
#[derive(Clone, Debug)]
pub struct Config {
    /// The local address that the FTP server listens on.
    pub ftp_bind: String,
    /// The IPv4 address that the answer to `PASV` announces.
    pub ftp_advertise: String,
    pub ftp_port: u16,
    pub ftp_user: String,
    pub ftp_password: String,
    /// The path of a Unix socket; on Windows a TCP address.
    pub parent_socket: String,
    pub tmp_dir: String,
}

/// The contents of a `Config`.
pub struct ConfigView {
    pub ftp_bind: Seq<char>,
    pub ftp_advertise: Seq<char>,
    pub ftp_port: u16,
    pub ftp_user: Seq<char>,
    pub ftp_password: Seq<char>,
    pub parent_socket: Seq<char>,
    pub tmp_dir: Seq<char>,
}

impl View for Config {
    type V = ConfigView;

    open spec fn view(&self) -> ConfigView {
        ConfigView {
            ftp_bind: self.ftp_bind@,
            ftp_advertise: self.ftp_advertise@,
            ftp_port: self.ftp_port,
            ftp_user: self.ftp_user@,
            ftp_password: self.ftp_password@,
            parent_socket: self.parent_socket@,
            tmp_dir: self.tmp_dir@,
        }
    }
}

/// Why a configuration is refused.
#[derive(Debug)]
pub enum ConfigError {
    /// The file could not be read.
    Unreadable { path: String, reason: String },
    /// A line, counted from 1, is not of the form `key=value`.
    NotKeyValue { path: String, line: usize },
    /// A required value is absent or empty.
    Missing { key: String },
    /// A value cannot be converted.
    Invalid { key: String, cause: String },
    BindNotIp,
    AdvertiseNotIpv4,
    EmptyCredentials,
    TmpDirNotAbsolute,
    ParentNotSocketAddress,
}

/// The contents of a `ConfigError`.
pub enum Fault {
    Unreadable { path: Seq<char>, reason: Seq<char> },
    NotKeyValue { path: Seq<char>, line: nat },
    Missing { key: Seq<char> },
    Invalid { key: Seq<char>, cause: Seq<char> },
    BindNotIp,
    AdvertiseNotIpv4,
    EmptyCredentials,
    TmpDirNotAbsolute,
    ParentNotSocketAddress,
}

impl Fault {
    /// The error in words.
    pub open spec fn text(self) -> Seq<char> {
        match self {
            Fault::Unreadable { path, reason } => "nelze načíst konfigurační soubor '"@ + path
                + "': "@ + reason,
            Fault::NotKeyValue { path, line } => path + ":"@ + decimal(line)
                + ": očekáváno key=value"@,
            Fault::Missing { key } => "chybí konfigurace "@ + key,
            Fault::Invalid { key, cause } => "neplatná hodnota "@ + key + ": "@ + cause,
            Fault::BindNotIp => "ftp_bind musí být IP adresa"@,
            Fault::AdvertiseNotIpv4 => "ftp_advertise musí být IPv4 adresa"@,
            Fault::EmptyCredentials => "ftp_user a ftp_password nesmí být prázdné"@,
            Fault::TmpDirNotAbsolute => "tmp_dir musí být absolutní cesta"@,
            Fault::ParentNotSocketAddress => "parent_socket musí být TCP adresa ve tvaru IP:port"@,
        }
    }
}

impl View for ConfigError {
    type V = Fault;

    open spec fn view(&self) -> Fault {
        match self {
            ConfigError::Unreadable { path, reason } => Fault::Unreadable {
                path: path@,
                reason: reason@,
            },
            ConfigError::NotKeyValue { path, line } => Fault::NotKeyValue {
                path: path@,
                line: *line as nat,
            },
            ConfigError::Missing { key } => Fault::Missing { key: key@ },
            ConfigError::Invalid { key, cause } => Fault::Invalid { key: key@, cause: cause@ },
            ConfigError::BindNotIp => Fault::BindNotIp,
            ConfigError::AdvertiseNotIpv4 => Fault::AdvertiseNotIpv4,
            ConfigError::EmptyCredentials => Fault::EmptyCredentials,
            ConfigError::TmpDirNotAbsolute => Fault::TmpDirNotAbsolute,
            ConfigError::ParentNotSocketAddress => Fault::ParentNotSocketAddress,
        }
    }
}

impl ConfigError {
    /// The error in words.
    pub fn message(&self) -> (m: String)
        ensures
            m@ == self@.text(),
    {
        let mut m: String = String::new();
        match self {
            ConfigError::Unreadable { path, reason } => {
                m.append("nelze načíst konfigurační soubor '");
                m.append(path.as_str());
                m.append("': ");
                m.append(reason.as_str());
            },
            ConfigError::NotKeyValue { path, line } => {
                m.append(path.as_str());
                m.append(":");
                m.append(decimal_of(*line).as_str());
                m.append(": očekáváno key=value");
            },
            ConfigError::Missing { key } => {
                m.append("chybí konfigurace ");
                m.append(key.as_str());
            },
            ConfigError::Invalid { key, cause } => {
                m.append("neplatná hodnota ");
                m.append(key.as_str());
                m.append(": ");
                m.append(cause.as_str());
            },
            ConfigError::BindNotIp => m.append("ftp_bind musí být IP adresa"),
            ConfigError::AdvertiseNotIpv4 => m.append("ftp_advertise musí být IPv4 adresa"),
            ConfigError::EmptyCredentials => m.append("ftp_user a ftp_password nesmí být prázdné"),
            ConfigError::TmpDirNotAbsolute => m.append("tmp_dir musí být absolutní cesta"),
            ConfigError::ParentNotSocketAddress => m.append(
                "parent_socket musí být TCP adresa ve tvaru IP:port",
            ),
        }
        assert(m@ =~= self@.text());
        m
    }
}

/// The values that a configuration file gives to its keys. A key has one value, the last
/// one that was inserted.
#[derive(Debug)]
pub struct Values {
    entries: Vec<(String, String)>,
}

/// The map that inserting `entries` one after the other makes.
spec fn inserted(entries: Seq<(String, String)>) -> Map<Seq<char>, Seq<char>>
    decreases entries.len(),
{
    if entries.len() == 0 {
        Map::empty()
    } else {
        inserted(entries.drop_last()).insert(entries.last().0@, entries.last().1@)
    }
}

impl View for Values {
    type V = Map<Seq<char>, Seq<char>>;

    closed spec fn view(&self) -> Map<Seq<char>, Seq<char>> {
        inserted(self.entries@)
    }
}

impl Values {
    /// No values.
    pub fn new() -> (values: Values)
        ensures
            values@ == Map::<Seq<char>, Seq<char>>::empty(),
    {
        Values { entries: Vec::new() }
    }

    /// Gives `key` the value `value`, in place of the one it may have had.
    pub fn insert(&mut self, key: String, value: String)
        ensures
            final(self)@ == old(self)@.insert(key@, value@),
    {
        let ghost before = self.entries@;
        self.entries.push((key, value));
        assert(self.entries@.drop_last() =~= before);
    }

    /// The value of `key`.
    pub fn get(&self, key: &str) -> (value: Option<&str>)
        ensures
            value is Some <==> self@.contains_key(key@),
            value matches Some(v) ==> v@ == self@[key@],
    {
        let mut i: usize = self.entries.len();
        assert(self.entries@.take(i as int) =~= self.entries@);
        while i > 0
            invariant
                i <= self.entries.len(),
                self@.contains_key(key@) == inserted(self.entries@.take(i as int)).contains_key(
                    key@,
                ),
                self@.contains_key(key@) ==> self@[key@] == inserted(
                    self.entries@.take(i as int),
                )[key@],
            decreases i,
        {
            assert(self.entries@.take(i as int).drop_last() =~= self.entries@.take(i - 1));
            i = i - 1;
            if same_text(self.entries[i].0.as_str(), key) {
                return Some(self.entries[i].1.as_str());
            }
        }
        assert(self.entries@.take(0) =~= Seq::<(String, String)>::empty());
        None
    }
}

/// The value of `key` where it has one that is not empty.
pub open spec fn setting(values: Map<Seq<char>, Seq<char>>, key: Seq<char>) -> Option<Seq<char>> {
    if values.contains_key(key) && values[key].len() > 0 {
        Some(values[key])
    } else {
        None
    }
}

/// The value of `key`, which must not be absent or empty.
pub open spec fn required_setting(values: Map<Seq<char>, Seq<char>>, key: Seq<char>) -> Result<
    Seq<char>,
    Fault,
> {
    match setting(values, key) {
        Some(value) => Ok(value),
        None => Err(Fault::Missing { key }),
    }
}

/// The value of `key` as a number.
pub open spec fn number_setting(values: Map<Seq<char>, Seq<char>>, key: Seq<char>) -> Result<
    u16,
    Fault,
> {
    match required_setting(values, key) {
        Ok(value) => match number(value) {
            Ok(n) => Ok(n),
            Err(cause) => Err(Fault::Invalid { key, cause: cause.text() }),
        },
        Err(fault) => Err(fault),
    }
}

/// What a line of a configuration file is.
pub enum Line {
    Blank,
    Malformed,
    Pair { key: Seq<char>, value: Seq<char> },
}

/// What `line` is: the part before the first `#` counts, without the white space around
/// it; a pair is split at its first `=`.
pub open spec fn read_line(line: Seq<char>) -> Line {
    let body = trim(before(line, '#'));
    if body.len() == 0 {
        Line::Blank
    } else if find(body, '=') == body.len() {
        Line::Malformed
    } else {
        Line::Pair { key: trim(before(body, '=')), value: trim(after(body, '=')) }
    }
}

/// The values that `lines` give, or the number of the first malformed line, counted from 1.
pub open spec fn read_lines(lines: Seq<Seq<char>>) -> Result<Map<Seq<char>, Seq<char>>, nat>
    decreases lines.len(),
{
    if lines.len() == 0 {
        Ok(Map::empty())
    } else {
        match read_lines(lines.drop_last()) {
            Ok(values) => match read_line(lines.last()) {
                Line::Blank => Ok(values),
                Line::Malformed => Err(lines.len()),
                Line::Pair { key, value } => Ok(values.insert(key, value)),
            },
            Err(line) => Err(line),
        }
    }
}

/// The configuration that `values` make. A missing `ftp_advertise` is the `ftp_bind`.
pub open spec fn from_values(values: Map<Seq<char>, Seq<char>>) -> Result<ConfigView, Fault> {
    match required_setting(values, "ftp_bind"@) {
        Err(fault) => Err(fault),
        Ok(ftp_bind) => match number_setting(values, "ftp_port"@) {
            Err(fault) => Err(fault),
            Ok(ftp_port) => match required_setting(values, "ftp_user"@) {
                Err(fault) => Err(fault),
                Ok(ftp_user) => match required_setting(values, "ftp_password"@) {
                    Err(fault) => Err(fault),
                    Ok(ftp_password) => match required_setting(values, "parent_socket"@) {
                        Err(fault) => Err(fault),
                        Ok(parent_socket) => match required_setting(values, "tmp_dir"@) {
                            Err(fault) => Err(fault),
                            Ok(tmp_dir) => Ok(
                                ConfigView {
                                    ftp_bind,
                                    ftp_advertise: match setting(values, "ftp_advertise"@) {
                                        Some(ftp_advertise) => ftp_advertise,
                                        None => ftp_bind,
                                    },
                                    ftp_port,
                                    ftp_user,
                                    ftp_password,
                                    parent_socket,
                                    tmp_dir,
                                },
                            ),
                        },
                    },
                },
            },
        },
    }
}

/// The configuration in a file at `path` of which reading gave `read`: its text, or the
/// reason why it could not be read.
pub open spec fn from_read(path: Seq<char>, read: Result<Seq<char>, Seq<char>>) -> Result<
    ConfigView,
    Fault,
> {
    match read {
        Err(reason) => Err(Fault::Unreadable { path, reason }),
        Ok(text) => match read_lines(lines(text)) {
            Err(line) => Err(Fault::NotKeyValue { path, line }),
            Ok(values) => from_values(values),
        },
    }
}

/// What reading a file gave, by its contents.
pub open spec fn read_view(read: Result<String, String>) -> Result<Seq<char>, Seq<char>> {
    match read {
        Ok(text) => Ok(text@),
        Err(reason) => Err(reason@),
    }
}

/// The value of `key`, which must not be absent or empty.
pub fn required(values: &Values, key: &str) -> (res: Result<String, ConfigError>)
    ensures
        match res {
            Ok(value) => required_setting(values@, key@) == Ok::<Seq<char>, Fault>(value@),
            Err(e) => required_setting(values@, key@) == Err::<Seq<char>, Fault>(e@),
        },
{
    match optional(values, key) {
        Some(value) => Ok(value),
        None => Err(ConfigError::Missing { key: key.to_owned() }),
    }
}

/// The value of `key` where it has one that is not empty.
pub fn optional(values: &Values, key: &str) -> (value: Option<String>)
    ensures
        value is Some <==> setting(values@, key@) is Some,
        value matches Some(v) ==> setting(values@, key@) == Some(v@),
{
    match values.get(key) {
        Some(value) => if value.is_empty() {
            None
        } else {
            Some(value.to_owned())
        },
        None => None,
    }
}

/// Tells that `res` is what comes of the value of `key`, given what converting it gave: the
/// converted value, or an error that holds the cause in words.
pub open spec fn converted<T>(
    key: Seq<char>,
    conversion: Result<T, String>,
    res: Result<T, ConfigError>,
) -> bool {
    match conversion {
        Ok(value) => res == Ok::<T, ConfigError>(value),
        Err(cause) => res matches Err(e) && e@ == (Fault::Invalid { key, cause: cause@ }),
    }
}

/// The value of `key`, which must not be absent or empty, converted by `convert`.
pub fn parse<T, F: Fn(&str) -> Result<T, String>>(values: &Values, key: &str, convert: F) -> (res:
    Result<T, ConfigError>)
    requires
        forall|text: &str|
            setting(values@, key@) == Some(text@) ==> #[trigger] call_requires(convert, (text,)),
    ensures
        match required_setting(values@, key@) {
            Ok(value) => exists|text: &str, conversion: Result<T, String>|
                {
                    &&& text@ == value
                    &&& #[trigger] call_ensures(convert, (text,), conversion)
                    &&& converted(key@, conversion, res)
                },
            Err(fault) => res matches Err(e) && e@ == fault,
        },
{
    match required(values, key) {
        Ok(value) => {
            let text: &str = value.as_str();
            let conversion: Result<T, String> = convert(text);
            assert(call_ensures(convert, (text,), conversion));
            match conversion {
                Ok(value) => Ok(value),
                Err(cause) => Err(ConfigError::Invalid { key: key.to_owned(), cause }),
            }
        },
        Err(e) => Err(e),
    }
}

/// The number that `text` denotes, or the reason in words why it denotes none.
fn port_number(text: &str) -> (res: Result<u16, String>)
    ensures
        match res {
            Ok(n) => number(text@) == Ok::<u16, NumberError>(n),
            Err(cause) => number(text@) matches Err(e) && cause@ == e.text(),
        },
{
    match parse_number(text) {
        Ok(n) => Ok(n),
        Err(e) => Err(e.message()),
    }
}

/// A malformed line stays the first one, whatever follows it.
proof fn lemma_malformed_stays(lines: Seq<Seq<char>>, n: int)
    requires
        0 <= n <= lines.len(),
        read_lines(lines.take(n)) is Err,
    ensures
        read_lines(lines) == read_lines(lines.take(n)),
    decreases lines.len(),
{
    if n < lines.len() {
        assert(lines.drop_last().take(n) =~= lines.take(n));
        lemma_malformed_stays(lines.drop_last(), n);
    } else {
        assert(lines.take(n) =~= lines);
    }
}

/// The values in the text of a configuration file, or the number of the first malformed
/// line.
fn read_values(text: &str) -> (res: Result<Values, usize>)
    ensures
        match res {
            Ok(values) => read_lines(lines(text@)) == Ok::<Map<Seq<char>, Seq<char>>, nat>(values@),
            Err(line) => read_lines(lines(text@)) == Err::<Map<Seq<char>, Seq<char>>, nat>(
                line as nat,
            ),
        },
{
    let found: Vec<&str> = lines_of(text);
    let ghost all = views(found@);
    let mut values: Values = Values::new();
    let mut i: usize = 0;
    assert(all.take(0) =~= Seq::<Seq<char>>::empty());
    while i < found.len()
        invariant
            i <= found.len(),
            all == views(found@),
            all == lines(text@),
            read_lines(all.take(i as int)) == Ok::<Map<Seq<char>, Seq<char>>, nat>(values@),
        decreases found.len() - i,
    {
        let ghost seen = all.take(i + 1);
        assert(seen.drop_last() =~= all.take(i as int));
        assert(seen.last() == found[i as int]@);
        let (body, _) = split_at_char(found[i], '#');
        let body: &str = trimmed(body);
        if !body.is_empty() {
            let (key, value) = split_at_char(body, '=');
            proof {
                lemma_find(body@, '=');
            }
            match value {
                Some(value) => {
                    values.insert(trimmed(key).to_owned(), trimmed(value).to_owned());
                },
                None => {
                    proof {
                        lemma_malformed_stays(all, i + 1);
                    }
                    return Err(i + 1);
                },
            }
        }
        i = i + 1;
    }
    assert(all.take(i as int) =~= all);
    Ok(values)
}

impl Config {
    /// The configuration in a file at `path` of which reading gave `read`: its text, or the
    /// reason why it could not be read.
    pub fn from_file(path: &str, read: Result<String, String>) -> (res: Result<Config, ConfigError>)
        ensures
            match res {
                Ok(config) => from_read(path@, read_view(read)) == Ok::<ConfigView, Fault>(config@),
                Err(e) => from_read(path@, read_view(read)) == Err::<ConfigView, Fault>(e@),
            },
    {
        let text: String = match read {
            Ok(text) => text,
            Err(reason) => return Err(ConfigError::Unreadable { path: path.to_owned(), reason }),
        };
        let values: Values = match read_values(text.as_str()) {
            Ok(values) => values,
            Err(line) => return Err(ConfigError::NotKeyValue { path: path.to_owned(), line }),
        };
        let ftp_bind: String = match required(&values, "ftp_bind") {
            Ok(value) => value,
            Err(e) => return Err(e),
        };
        let ftp_advertise: String = match optional(&values, "ftp_advertise") {
            Some(value) => value,
            None => ftp_bind.clone(),
        };
        let ftp_port: u16 = match parse(&values, "ftp_port", port_number) {
            Ok(n) => n,
            Err(e) => return Err(e),
        };
        let ftp_user: String = match required(&values, "ftp_user") {
            Ok(value) => value,
            Err(e) => return Err(e),
        };
        let ftp_password: String = match required(&values, "ftp_password") {
            Ok(value) => value,
            Err(e) => return Err(e),
        };
        let parent_socket: String = match required(&values, "parent_socket") {
            Ok(value) => value,
            Err(e) => return Err(e),
        };
        let tmp_dir: String = match required(&values, "tmp_dir") {
            Ok(value) => value,
            Err(e) => return Err(e),
        };
        Ok(
            Config {
                ftp_bind,
                ftp_advertise,
                ftp_port,
                ftp_user,
                ftp_password,
                parent_socket,
                tmp_dir,
            },
        )
    }

    /// Checks that the values make sense, where `absolute` tells whether `tmp_dir` is an
    /// absolute path.
    pub fn check(&self, host: HostFacts, absolute: bool) -> (res: Result<(), ConfigError>)
        ensures
            outcome(res) == verdict(self@, host, absolute),
    {
        if parse_ipv4(self.ftp_bind.as_str()).is_none() && !host.bind_is_ipv6 {
            return Err(ConfigError::BindNotIp);
        }
        if parse_ipv4(self.ftp_advertise.as_str()).is_none() {
            return Err(ConfigError::AdvertiseNotIpv4);
        }
        if self.ftp_user.as_str().is_empty() || self.ftp_password.as_str().is_empty() {
            return Err(ConfigError::EmptyCredentials);
        }
        if !absolute {
            return Err(ConfigError::TmpDirNotAbsolute);
        }
        if host.windows && !ipv4_socket_address(self.parent_socket.as_str())
            && !host.parent_is_ipv6 {
            return Err(ConfigError::ParentNotSocketAddress);
        }
        Ok(())
    }

    /// Checks that the values make sense, before anything relies on them. Away from Windows
    /// an absolute path is one that starts with the root. On Windows one that starts with the
    /// root of a drive is absolute; of any other the standard library decides.
    pub fn validate(&self, host: HostFacts) -> (res: Result<(), ConfigError>)
        ensures
            !host.windows ==> outcome(res) == verdict(
                self@,
                host,
                starts_with(self.tmp_dir@, "/"@),
            ),
            host.windows && has_drive_root(self.tmp_dir@) ==> outcome(res) == verdict(
                self@,
                host,
                true,
            ),
            host.windows && !has_drive_root(self.tmp_dir@) ==> exists|absolute: bool|
                {
                    &&& #[trigger] platform_says(self.tmp_dir@, absolute)
                    &&& absolute ==> may_be_absolute(self.tmp_dir@)
                    &&& outcome(res) == verdict(self@, host, absolute)
                },
    {
        let path: &str = self.tmp_dir.as_str();
        if !host.windows {
            self.check(host, begins_with(path, "/"))
        } else if drive_root(path) {
            self.check(host, true)
        } else {
            let absolute: bool = path_is_absolute(path);
            assert(platform_says(self.tmp_dir@, absolute));
            self.check(host, absolute)
        }
    }
}

/// What the host tells about a configuration.
#[derive(Clone, Copy, Debug, PartialEq, Eq, Structural)]
pub struct HostFacts {
    /// The collector runs on Windows, where `parent_socket` is a TCP address.
    pub windows: bool,
    /// `ftp_bind` is an IP address of version 6.
    pub bind_is_ipv6: bool,
    /// `parent_socket` is an IP address of version 6 with a port.
    pub parent_is_ipv6: bool,
}

/// What checking a configuration gives. The first fault in this order counts.
pub open spec fn verdict(config: ConfigView, host: HostFacts, absolute: bool) -> Result<(), Fault> {
    if ipv4(config.ftp_bind) is None && !host.bind_is_ipv6 {
        Err(Fault::BindNotIp)
    } else if ipv4(config.ftp_advertise) is None {
        Err(Fault::AdvertiseNotIpv4)
    } else if config.ftp_user.len() == 0 || config.ftp_password.len() == 0 {
        Err(Fault::EmptyCredentials)
    } else if !absolute {
        Err(Fault::TmpDirNotAbsolute)
    } else if host.windows && !is_ipv4_socket_address(config.parent_socket)
        && !host.parent_is_ipv6 {
        Err(Fault::ParentNotSocketAddress)
    } else {
        Ok(())
    }
}

/// The result of a check, by its contents.
pub open spec fn outcome(res: Result<(), ConfigError>) -> Result<(), Fault> {
    match res {
        Ok(()) => Ok(()),
        Err(e) => Err(e@),
    }
}

/// Tells that `c` can separate the parts of a path.
pub open spec fn is_separator(c: char) -> bool {
    c == '/' || c == '\\'
}

/// Tells that `path` starts with the root of a drive, as in `C:\`.
pub open spec fn has_drive_root(path: Seq<char>) -> bool {
    &&& path.len() >= 3
    &&& 'a' <= path[0] <= 'z' || 'A' <= path[0] <= 'Z'
    &&& path[1] == ':'
    &&& is_separator(path[2])
}

/// Tells that `path` starts with a root: a slash, two separators, or what stands for a drive
/// followed by a separator. On Unix and on Windows no other path is absolute.
pub open spec fn may_be_absolute(path: Seq<char>) -> bool {
    ||| path.len() >= 1 && path[0] == '/'
    ||| path.len() >= 2 && is_separator(path[0]) && is_separator(path[1])
    ||| path.len() >= 3 && path[1] == ':' && is_separator(path[2])
}

/// Tells that `absolute` is what the standard library answers, on the platform at hand, when
/// it is asked whether `path` is absolute.
pub closed spec fn platform_says(path: Seq<char>, absolute: bool) -> bool {
    exists|asked: &str| asked@ == path && #[trigger] call_ensures(path_is_absolute, (asked,), absolute)
}

/// The platform is asked about the path itself, and has the last word.
proof fn lemma_platform_is_asked(path: Seq<char>, absolute: bool)
    requires
        platform_says(path, absolute),
    ensures
        exists|asked: &str|
            asked@ == path && #[trigger] call_ensures(path_is_absolute, (asked,), absolute),
{
}

/// What the platform says is absolute starts with a root.
pub proof fn absolute_path_starts_with_a_root(path: Seq<char>)
    requires
        platform_says(path, true),
    ensures
        may_be_absolute(path),
{
    lemma_platform_is_asked(path, true);
}

fn separator(c: char) -> (b: bool)
    ensures
        b == is_separator(c),
{
    c == '/' || c == '\\'
}

fn drive_root(path: &str) -> (b: bool)
    ensures
        b == has_drive_root(path@),
{
    let chars: Vec<char> = chars_of(path);
    if chars.len() < 3 {
        return false;
    }
    let letter: char = chars[0];
    ('a' <= letter && letter <= 'z' || 'A' <= letter && letter <= 'Z') && chars[1] == ':'
        && separator(chars[2])
}

/// Calls `std::path::Path::is_absolute`. What an absolute path is depends on the platform:
/// one that starts with the root on Unix, one that has a prefix and starts with the root on
/// Windows, where a prefix is a drive or begins with two separators. All that is claimed is
/// what holds on both: an absolute path starts in one of these ways. Which of the paths that do
/// are absolute is left unsaid, since it differs between the two.
#[verifier::external_body]
fn path_is_absolute(path: &str) -> (absolute: bool)
    ensures
        absolute ==> may_be_absolute(path@),
{
    std::path::Path::new(path).is_absolute()
}

} // verus!
