//! What each line of a configuration file means, and which configuration the lines make.

use vstd::prelude::*;
use vstd::string::*;

use crate::config::{
    converted, from_read, from_values, has_drive_root, is_separator, may_be_absolute,
    number_setting, outcome, read_line, read_lines, read_view, required_setting, setting, verdict,
    Config, ConfigError, ConfigView, Fault, HostFacts, Line,
};
use crate::config_laws::comments_are_ignored;
use crate::decimal::{decimal, number};
use crate::ipv4::{
    address_has_one_notation, address_is_read_back, dotted, ipv4, is_ipv4_socket_address, Ipv4,
};
use crate::text::{find, is_white_space, lemma_find, lemma_lacks, lines, trim};
use crate::text_laws::{
    all_white_space, has_bare_ends, text_has_a_core, text_is_split_at_the_character,
    white_space_around_is_dropped,
};

verus! {

/// A line without a comment is blank where it is white space only, a pair where it holds an
/// equals sign, and malformed otherwise.
pub proof fn lines_are_of_three_kinds(line: Seq<char>)
    requires
        !line.contains('#'),
    ensures
        read_line(line) is Blank <==> all_white_space(line),
        read_line(line) is Pair <==> line.contains('='),
        read_line(line) is Malformed <==> !all_white_space(line) && !line.contains('='),
{
    text_is_split_at_the_character(line, '#', line);
    let body = trim(line);
    text_has_a_core(line);
    let (start, ending) = choose|start: Seq<char>, ending: Seq<char>|
        {
            &&& all_white_space(start)
            &&& all_white_space(ending)
            &&& line == #[trigger] (start + body + ending)
            &&& has_bare_ends(body)
        };
    assert(!is_white_space('='));
    lemma_find(body, '=');
    if body.len() == 0 {
        assert forall|i: int| 0 <= i < line.len() implies is_white_space(#[trigger] line[i]) by {
            if i < start.len() {
                assert(line[i] == start[i]);
            } else {
                assert(line[i] == ending[i - start.len()]);
            }
        }
        if line.contains('=') {
            let i = choose|i: int| 0 <= i < line.len() && line[i] == '=';
            assert(is_white_space(line[i]));
        }
    } else {
        assert(line[start.len() as int] == body[0]);
        if find(body, '=') < body.len() {
            assert(line[(start.len() + find(body, '=')) as int] == '=');
        } else if line.contains('=') {
            let i = choose|i: int| 0 <= i < line.len() && line[i] == '=';
            if i < start.len() {
                assert(is_white_space(start[i]));
            } else if i < start.len() + body.len() {
                assert(body[i - start.len()] == '=');
            } else {
                assert(is_white_space(ending[i - start.len() - body.len()]));
            }
        }
    }
}

/// A line gives a key its value where the two stand with an equals sign between them, with
/// white space around them or without. The value may hold further equals signs.
pub proof fn pair_has_its_key_and_value(
    start: Seq<char>,
    key: Seq<char>,
    after_key: Seq<char>,
    before_value: Seq<char>,
    value: Seq<char>,
    ending: Seq<char>,
)
    requires
        all_white_space(start),
        all_white_space(after_key),
        all_white_space(before_value),
        all_white_space(ending),
        has_bare_ends(key),
        has_bare_ends(value),
        !key.contains('='),
        !key.contains('#'),
        !value.contains('#'),
    ensures
        read_line(start + key + after_key + seq!['='] + before_value + value + ending) == (
            Line::Pair { key, value }),
{
    let none = Seq::<char>::empty();
    let line = start + key + after_key + seq!['='] + before_value + value + ending;
    let left = if key.len() > 0 {
        key + after_key
    } else {
        none
    };
    let right = if value.len() > 0 {
        before_value + value
    } else {
        none
    };
    let outer_start = if key.len() > 0 {
        start
    } else {
        start + after_key
    };
    let outer_ending = if value.len() > 0 {
        ending
    } else {
        before_value + ending
    };
    let core = left.push('=') + right;
    assert(line =~= outer_start + core + outer_ending);
    lemma_white_space_lacks(start, '#');
    lemma_white_space_lacks(after_key, '#');
    lemma_white_space_lacks(before_value, '#');
    lemma_white_space_lacks(ending, '#');
    lemma_white_space_lacks(after_key, '=');
    lemma_joined_white_space(start, after_key);
    lemma_joined_white_space(before_value, ending);
    assert(!seq!['='].contains('#'));
    lemma_lacks(start, key, '#');
    lemma_lacks(start + key, after_key, '#');
    lemma_lacks(start + key + after_key, seq!['='], '#');
    lemma_lacks(start + key + after_key + seq!['='], before_value, '#');
    lemma_lacks(start + key + after_key + seq!['='] + before_value, value, '#');
    lemma_lacks(start + key + after_key + seq!['='] + before_value + value, ending, '#');
    text_is_split_at_the_character(line, '#', none);
    assert(!is_white_space('='));
    assert(core[0] == if key.len() > 0 {
        key[0]
    } else {
        '='
    });
    assert(core[core.len() - 1] == if value.len() > 0 {
        value[value.len() - 1]
    } else {
        '='
    });
    white_space_around_is_dropped(outer_start, core, outer_ending);
    if key.len() > 0 {
        lemma_lacks(key, after_key, '=');
    }
    assert(!left.contains('='));
    text_is_split_at_the_character(left, '=', right);
    white_space_around_is_dropped(none, key, if key.len() > 0 {
        after_key
    } else {
        none
    });
    assert(none + key + (if key.len() > 0 {
        after_key
    } else {
        none
    }) =~= left);
    white_space_around_is_dropped(if value.len() > 0 {
        before_value
    } else {
        none
    }, value, none);
    assert((if value.len() > 0 {
        before_value
    } else {
        none
    }) + value + none =~= right);
}

proof fn lemma_white_space_lacks(s: Seq<char>, c: char)
    requires
        all_white_space(s),
        !is_white_space(c),
    ensures
        !s.contains(c),
{
    if s.contains(c) {
        let i = choose|i: int| 0 <= i < s.len() && s[i] == c;
        assert(is_white_space(s[i]));
    }
}

proof fn lemma_joined_white_space(a: Seq<char>, b: Seq<char>)
    requires
        all_white_space(a),
        all_white_space(b),
    ensures
        all_white_space(a + b),
{
    assert forall|i: int| 0 <= i < (a + b).len() implies is_white_space(#[trigger] (a + b)[i]) by {
        if i < a.len() {
            assert(is_white_space(a[i]));
        } else {
            assert(is_white_space(b[i - a.len()]));
        }
    }
}

/// Reading stops at the first line that is neither blank nor a pair, and tells its number,
/// counted from 1. Where there is none, reading succeeds.
pub proof fn first_malformed_line_is_told(lines: Seq<Seq<char>>, at: int)
    ensures
        0 <= at < lines.len() && read_line(lines[at]) is Malformed && (forall|i: int|
            0 <= i < at ==> !(#[trigger] read_line(lines[i]) is Malformed)) ==> read_lines(lines)
            == Err::<Map<Seq<char>, Seq<char>>, nat>((at + 1) as nat),
        (forall|i: int| 0 <= i < lines.len() ==> !(#[trigger] read_line(lines[i]) is Malformed))
            ==> read_lines(lines) is Ok,
    decreases lines.len(),
{
    if lines.len() > 0 {
        let front = lines.drop_last();
        let last = lines.len() - 1;
        first_malformed_line_is_told(front, at);
        if forall|i: int| 0 <= i < lines.len() ==> !(#[trigger] read_line(lines[i]) is Malformed) {
            assert forall|i: int| 0 <= i < front.len() implies !(#[trigger] read_line(
                front[i],
            ) is Malformed) by {
                assert(!(read_line(lines[i]) is Malformed));
            }
            assert(!(read_line(lines[last]) is Malformed));
        }
        if 0 <= at < lines.len() && read_line(lines[at]) is Malformed && (forall|i: int|
            0 <= i < at ==> !(#[trigger] read_line(lines[i]) is Malformed)) {
            assert forall|i: int| 0 <= i < at && i < front.len() implies !(#[trigger] read_line(
                front[i],
            ) is Malformed) by {
                assert(!(read_line(lines[i]) is Malformed));
            }
            if at < last {
                assert(front[at] == lines[at]);
            }
        }
    }
}

/// A key has a value only where a line gives it one.
pub proof fn keys_come_from_lines(lines: Seq<Seq<char>>, key: Seq<char>)
    requires
        read_lines(lines) is Ok,
    ensures
        read_lines(lines)->Ok_0.contains_key(key) ==> exists|i: int|
            0 <= i < lines.len() && (#[trigger] read_line(lines[i]) matches Line::Pair {
                key: given,
                ..
            } && given == key),
    decreases lines.len(),
{
    if lines.len() > 0 && read_lines(lines)->Ok_0.contains_key(key) {
        let front = lines.drop_last();
        let last = lines.len() - 1;
        keys_come_from_lines(front, key);
        if read_line(lines[last]) matches Line::Pair { key: given, .. } && given == key {
        } else {
            let i = choose|i: int|
                0 <= i < front.len() && (#[trigger] read_line(front[i]) matches Line::Pair {
                    key: given,
                    ..
                } && given == key);
            assert(read_line(lines[i]) == read_line(front[i]));
        }
    } else if lines.len() == 0 {
        assert(read_lines(lines)->Ok_0 =~= Map::<Seq<char>, Seq<char>>::empty());
    }
}

/// A line whose part before the comment is not blank and holds no equals sign makes reading
/// the file fail, with the number of the first such line.
pub proof fn malformed_line_is_refused(
    path: Seq<char>,
    text: Seq<char>,
    at: int,
    body: Seq<char>,
    comment: Seq<char>,
)
    requires
        0 <= at < lines(text).len(),
        lines(text)[at] == body || lines(text)[at] == body + seq!['#'] + comment,
        !body.contains('#'),
        !all_white_space(body),
        !body.contains('='),
        forall|i: int| 0 <= i < at ==> !(#[trigger] read_line(lines(text)[i]) is Malformed),
    ensures
        from_read(path, Ok(text)) == Err::<ConfigView, Fault>(
            Fault::NotKeyValue { path, line: (at + 1) as nat },
        ),
{
    lines_are_of_three_kinds(body);
    comments_are_ignored(body, comment);
    assert(body + seq!['#'] + comment =~= body.push('#') + comment);
    first_malformed_line_is_told(lines(text), at);
}

/// A file that cannot be read is refused with the reason; one that can gives the configuration
/// of its lines.
pub proof fn file_gives_the_configuration_of_its_lines(
    path: Seq<char>,
    text: Seq<char>,
    reason: Seq<char>,
)
    ensures
        from_read(path, Err(reason)) == Err::<ConfigView, Fault>(
            Fault::Unreadable { path, reason },
        ),
        read_lines(lines(text)) matches Ok(values) ==> from_read(path, Ok(text)) == from_values(
            values,
        ),
{
}

/// Tells that `values` give `key` a value that is not empty.
pub open spec fn is_set(values: Map<Seq<char>, Seq<char>>, key: Seq<char>) -> bool {
    values.contains_key(key) && values[key].len() > 0
}

/// A setting is the value of its key; an empty value counts as none. A required setting that
/// is not there is told by its key.
pub proof fn empty_value_counts_as_none(values: Map<Seq<char>, Seq<char>>, key: Seq<char>)
    ensures
        is_set(values, key) ==> setting(values, key) == Some(values[key]),
        !is_set(values, key) ==> setting(values, key) is None,
        is_set(values, key) ==> required_setting(values, key) == Ok::<Seq<char>, Fault>(
            values[key],
        ),
        !is_set(values, key) ==> required_setting(values, key) == Err::<Seq<char>, Fault>(
            Fault::Missing { key },
        ),
        !is_set(values, key) ==> number_setting(values, key) == Err::<u16, Fault>(
            Fault::Missing { key },
        ),
        is_set(values, key) ==> number_setting(values, key) == (match number(values[key]) {
            Ok(n) => Ok::<u16, Fault>(n),
            Err(cause) => Err::<u16, Fault>(Fault::Invalid { key, cause: cause.text() }),
        }),
{
}

/// Each setting comes from the key of its name. The first one that is required and not there,
/// or not a number, is told.
pub proof fn settings_make_the_configuration(values: Map<Seq<char>, Seq<char>>)
    ensures
        ({
            let bind = is_set(values, "ftp_bind"@);
            let port = is_set(values, "ftp_port"@);
            let user = is_set(values, "ftp_user"@);
            let password = is_set(values, "ftp_password"@);
            let socket = is_set(values, "parent_socket"@);
            let tmp = is_set(values, "tmp_dir"@);
            let made = from_values(values);
            &&& !bind ==> made == Err::<ConfigView, Fault>(Fault::Missing { key: "ftp_bind"@ })
            &&& bind && !port ==> made == Err::<ConfigView, Fault>(
                Fault::Missing { key: "ftp_port"@ },
            )
            &&& bind && port ==> match number(values["ftp_port"@]) {
                Err(cause) => made == Err::<ConfigView, Fault>(
                    Fault::Invalid { key: "ftp_port"@, cause: cause.text() },
                ),
                Ok(n) => {
                    &&& !user ==> made == Err::<ConfigView, Fault>(
                        Fault::Missing { key: "ftp_user"@ },
                    )
                    &&& user && !password ==> made == Err::<ConfigView, Fault>(
                        Fault::Missing { key: "ftp_password"@ },
                    )
                    &&& user && password && !socket ==> made == Err::<ConfigView, Fault>(
                        Fault::Missing { key: "parent_socket"@ },
                    )
                    &&& user && password && socket && !tmp ==> made == Err::<ConfigView, Fault>(
                        Fault::Missing { key: "tmp_dir"@ },
                    )
                    &&& user && password && socket && tmp ==> made == Ok::<ConfigView, Fault>(
                        ConfigView {
                            ftp_bind: values["ftp_bind"@],
                            ftp_advertise: if is_set(values, "ftp_advertise"@) {
                                values["ftp_advertise"@]
                            } else {
                                values["ftp_bind"@]
                            },
                            ftp_port: n,
                            ftp_user: values["ftp_user"@],
                            ftp_password: values["ftp_password"@],
                            parent_socket: values["parent_socket"@],
                            tmp_dir: values["tmp_dir"@],
                        },
                    )
                },
            }
        }),
{
}

/// Tells that `s` is an IPv4 address in dotted notation.
pub open spec fn is_dotted(s: Seq<char>) -> bool {
    exists|ip: Ipv4| s == #[trigger] dotted(ip)
}

/// A configuration is sound where `ftp_bind` is an IP address, `ftp_advertise` an IPv4
/// address, the user and the password are there, `tmp_dir` is absolute, and on Windows
/// `parent_socket` is an IP address with a port. The first of these that fails is told.
pub proof fn sound_configuration_is_accepted(config: ConfigView, host: HostFacts, absolute: bool)
    ensures
        ({
            let bind = is_dotted(config.ftp_bind) || host.bind_is_ipv6;
            let advertise = is_dotted(config.ftp_advertise);
            let login = config.ftp_user.len() > 0 && config.ftp_password.len() > 0;
            let parent = !host.windows || is_ipv4_socket_address(config.parent_socket)
                || host.parent_is_ipv6;
            let checked = verdict(config, host, absolute);
            &&& !bind ==> checked == Err::<(), Fault>(Fault::BindNotIp)
            &&& bind && !advertise ==> checked == Err::<(), Fault>(Fault::AdvertiseNotIpv4)
            &&& bind && advertise && !login ==> checked == Err::<(), Fault>(
                Fault::EmptyCredentials,
            )
            &&& bind && advertise && login && !absolute ==> checked == Err::<(), Fault>(
                Fault::TmpDirNotAbsolute,
            )
            &&& bind && advertise && login && absolute && !parent ==> checked == Err::<(), Fault>(
                Fault::ParentNotSocketAddress,
            )
            &&& bind && advertise && login && absolute && parent ==> checked == Ok::<(), Fault>(())
        }),
{
    lemma_is_dotted(config.ftp_bind);
    lemma_is_dotted(config.ftp_advertise);
}

proof fn lemma_is_dotted(s: Seq<char>)
    ensures
        is_dotted(s) <==> ipv4(s) is Some,
{
    if is_dotted(s) {
        address_is_read_back(choose|ip: Ipv4| s == #[trigger] dotted(ip));
    }
    if let Some(ip) = ipv4(s) {
        address_has_one_notation(s, ip);
    }
}

/// The root of a drive is a letter, a colon and a separator, whatever follows, and nothing
/// else.
pub proof fn drive_has_a_root(
    letter: char,
    separator: char,
    rest: Seq<char>,
    path: Seq<char>,
)
    ensures
        ('a' <= letter <= 'z' || 'A' <= letter <= 'Z') && (separator == '/' || separator == '\\')
            ==> has_drive_root(seq![letter, ':', separator] + rest),
        has_drive_root(path) ==> {
            &&& path.len() >= 3
            &&& 'a' <= path[0] <= 'z' || 'A' <= path[0] <= 'Z'
            &&& path[1] == ':'
            &&& path[2] == '/' || path[2] == '\\'
        },
        may_be_absolute(path) <==> {
            ||| path.len() >= 1 && path[0] == '/'
            ||| path.len() >= 2 && (path[0] == '/' || path[0] == '\\') && (path[1] == '/'
                || path[1] == '\\')
            ||| path.len() >= 3 && path[1] == ':' && (path[2] == '/' || path[2] == '\\')
        },
        is_separator(separator) <==> separator == '/' || separator == '\\',
{
}

/// The reasons why a configuration is refused, in words.
pub proof fn config_errors_in_words(
    path: Seq<char>,
    reason: Seq<char>,
    line: nat,
    key: Seq<char>,
)
    ensures
        (Fault::Unreadable { path, reason }).text() == "nelze načíst konfigurační soubor '"@ + path
            + "': "@ + reason,
        (Fault::NotKeyValue { path, line }).text() == path + ":"@ + decimal(line)
            + ": očekáváno key=value"@,
        (Fault::Missing { key }).text() == "chybí konfigurace "@ + key,
        (Fault::Invalid { key, cause: reason }).text() == "neplatná hodnota "@ + key + ": "@ + reason,
        Fault::BindNotIp.text() == "ftp_bind musí být IP adresa"@,
        Fault::AdvertiseNotIpv4.text() == "ftp_advertise musí být IPv4 adresa"@,
        Fault::EmptyCredentials.text() == "ftp_user a ftp_password nesmí být prázdné"@,
        Fault::TmpDirNotAbsolute.text() == "tmp_dir musí být absolutní cesta"@,
        Fault::ParentNotSocketAddress.text()
            == "parent_socket musí být TCP adresa ve tvaru IP:port"@,
{
}

/// A configuration and its errors hold what their parts hold.
pub proof fn config_values_hold_their_parts(
    config: Config,
    error: ConfigError,
    read: Result<String, String>,
    res: Result<(), ConfigError>,
)
    ensures
        config@ == (ConfigView {
            ftp_bind: config.ftp_bind@,
            ftp_advertise: config.ftp_advertise@,
            ftp_port: config.ftp_port,
            ftp_user: config.ftp_user@,
            ftp_password: config.ftp_password@,
            parent_socket: config.parent_socket@,
            tmp_dir: config.tmp_dir@,
        }),
        match error {
            ConfigError::Unreadable { path, reason } => error@ == (Fault::Unreadable {
                path: path@,
                reason: reason@,
            }),
            ConfigError::NotKeyValue { path, line } => error@ == (Fault::NotKeyValue {
                path: path@,
                line: line as nat,
            }),
            ConfigError::Missing { key } => error@ == (Fault::Missing { key: key@ }),
            ConfigError::Invalid { key, cause } => error@ == (Fault::Invalid {
                key: key@,
                cause: cause@,
            }),
            ConfigError::BindNotIp => error@ == Fault::BindNotIp,
            ConfigError::AdvertiseNotIpv4 => error@ == Fault::AdvertiseNotIpv4,
            ConfigError::EmptyCredentials => error@ == Fault::EmptyCredentials,
            ConfigError::TmpDirNotAbsolute => error@ == Fault::TmpDirNotAbsolute,
            ConfigError::ParentNotSocketAddress => error@ == Fault::ParentNotSocketAddress,
        },
        match read {
            Ok(text) => read_view(read) == Ok::<Seq<char>, Seq<char>>(text@),
            Err(reason) => read_view(read) == Err::<Seq<char>, Seq<char>>(reason@),
        },
        match res {
            Ok(()) => outcome(res) == Ok::<(), Fault>(()),
            Err(e) => outcome(res) == Err::<(), Fault>(e@),
        },
{
}

/// A value that is converted is what the conversion gives; where the conversion fails, the
/// error tells the key and the cause.
pub proof fn conversion_decides<T>(
    key: Seq<char>,
    conversion: Result<T, String>,
    res: Result<T, ConfigError>,
)
    requires
        converted(key, conversion, res),
    ensures
        match (conversion, res) {
            (Ok(value), Ok(given)) => value == given,
            (Err(cause), Err(e)) => e@ == (Fault::Invalid { key, cause: cause@ }),
            _ => false,
        },
{
}

} // verus!
