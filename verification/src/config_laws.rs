//! What holds of every configuration file.

use vstd::prelude::*;
use vstd::string::*;

use crate::config::{
    from_read, from_values, read_line, read_lines, setting, ConfigView, Fault, Line,
};
use crate::decimal::{all_digits, decimal, decimal_is_read_back, is_digit, lemma_decimal};
use crate::ipv4::lemma_digits_lack;
use crate::text::{
    after, before, find, lemma_around_lacks, lemma_find, lemma_find_is, lemma_lacks_between,
    lemma_lines_lack, lemma_split_joined, lemma_split_single, lemma_trim, lemma_trim_lacks,
    lemma_trim_push, lines, strip_carriage_return, trim,
};

verus! {

/// A comment makes no difference: what follows the first `#` of a line is ignored.
pub proof fn comments_are_ignored(body: Seq<char>, comment: Seq<char>)
    requires
        !body.contains('#'),
    ensures
        read_line(body.push('#') + comment) == read_line(body),
{
    lemma_split_joined(body, '#', comment);
    lemma_split_single(body, '#');
    assert(before(body, '#') =~= body);
}

/// A line reads the same whether or not a carriage return ends it.
pub proof fn carriage_returns_are_ignored(line: Seq<char>)
    ensures
        read_line(line.push('\r')) == read_line(line),
        read_line(strip_carriage_return(line)) == read_line(line),
{
    lemma_pushed_carriage_return(line);
    if line.len() > 0 && line.last() == '\r' {
        lemma_pushed_carriage_return(line.drop_last());
        assert(line.drop_last().push('\r') =~= line);
    }
}

proof fn lemma_pushed_carriage_return(line: Seq<char>)
    ensures
        read_line(line.push('\r')) == read_line(line),
{
    let longer = line.push('\r');
    let at = find(line, '#') as int;
    lemma_find(line, '#');
    if at < line.len() {
        lemma_find_is(longer, '#', at);
        assert(before(longer, '#') =~= before(line, '#'));
    } else {
        lemma_find_is(longer, '#', longer.len() as int);
        assert(before(longer, '#') =~= longer);
        assert(before(line, '#') =~= line);
        lemma_trim_push(line, '\r');
    }
}

/// A line that is blank, or holds a comment only, makes no difference to the values. It
/// counts only in the number of a malformed line after it.
pub proof fn blank_lines_are_ignored(earlier: Seq<Seq<char>>, blank: Seq<char>, later: Seq<Seq<char>>)
    requires
        read_line(blank) == Line::Blank,
    ensures
        match read_lines(earlier + later) {
            Ok(values) => read_lines(earlier.push(blank) + later) == Ok::<
                Map<Seq<char>, Seq<char>>,
                nat,
            >(values),
            Err(line) => read_lines(earlier.push(blank) + later) == Err::<
                Map<Seq<char>, Seq<char>>,
                nat,
            >(
                if line <= earlier.len() {
                    line
                } else {
                    line + 1
                },
            ),
        },
    decreases later.len(),
{
    let without = earlier + later;
    let with = earlier.push(blank) + later;
    if later.len() == 0 {
        assert(without =~= earlier);
        assert(with =~= earlier.push(blank));
        assert(with.drop_last() =~= earlier);
        lemma_line_number(earlier);
    } else {
        blank_lines_are_ignored(earlier, blank, later.drop_last());
        assert(without.drop_last() =~= earlier + later.drop_last());
        assert(with.drop_last() =~= earlier.push(blank) + later.drop_last());
    }
}

proof fn lemma_line_number(lines: Seq<Seq<char>>)
    ensures
        read_lines(lines) matches Err(line) ==> 1 <= line <= lines.len(),
    decreases lines.len(),
{
    if lines.len() > 0 {
        lemma_line_number(lines.drop_last());
    }
}

/// A key that occurs more than once has the value of its last line.
pub proof fn last_value_counts(lines: Seq<Seq<char>>, at: int, key: Seq<char>, value: Seq<char>)
    requires
        0 <= at < lines.len(),
        read_line(lines[at]) == (Line::Pair { key, value }),
        forall|i: int|
            at < i < lines.len() ==> !(#[trigger] read_line(lines[i]) matches Line::Pair {
                key: other,
                ..
            } && other == key),
        read_lines(lines) is Ok,
    ensures
        read_lines(lines)->Ok_0.contains_key(key),
        read_lines(lines)->Ok_0[key] == value,
    decreases lines.len(),
{
    let front = lines.drop_last();
    if at < lines.len() - 1 {
        assert forall|i: int| at < i < front.len() implies !(#[trigger] read_line(
            front[i],
        ) matches Line::Pair { key: other, .. } && other == key) by {
            assert(front[i] == lines[i]);
            assert(!(read_line(lines[i]) matches Line::Pair { key: other, .. } && other == key));
        }
        last_value_counts(front, at, key, value);
        assert(!(read_line(lines[lines.len() - 1]) matches Line::Pair { key: other, .. } && other
            == key));
    }
}

proof fn lemma_values_are_plain(lines: Seq<Seq<char>>, key: Seq<char>)
    requires
        forall|i: int| 0 <= i < lines.len() ==> !(#[trigger] lines[i]).contains('\n'),
    ensures
        read_lines(lines) matches Ok(values) ==> (values.contains_key(key) ==> is_plain(
            values[key],
        )),
    decreases lines.len(),
{
    if lines.len() > 0 {
        let front = lines.drop_last();
        assert forall|i: int| 0 <= i < front.len() implies !(#[trigger] front[i]).contains(
            '\n',
        ) by {
            assert(front[i] == lines[i]);
        }
        lemma_values_are_plain(front, key);
        let last = lines[lines.len() - 1];
        let body = trim(before(last, '#'));
        lemma_around_lacks(last, '#', '\n');
        lemma_trim_lacks(before(last, '#'), '#');
        lemma_trim_lacks(before(last, '#'), '\n');
        lemma_around_lacks(body, '=', '#');
        lemma_around_lacks(body, '=', '\n');
        lemma_trim_lacks(after(body, '='), '#');
        lemma_trim_lacks(after(body, '='), '\n');
        lemma_trim(after(body, '='));
    }
}

/// Every setting of a configuration that was read is there, stands on one line, has no white
/// space around it, and holds no part of a comment.
pub proof fn settings_are_plain(path: Seq<char>, read: Result<Seq<char>, Seq<char>>)
    ensures
        from_read(path, read) matches Ok(config) ==> {
            &&& config.ftp_bind.len() > 0 && is_plain(config.ftp_bind)
            &&& config.ftp_advertise.len() > 0 && is_plain(config.ftp_advertise)
            &&& config.ftp_user.len() > 0 && is_plain(config.ftp_user)
            &&& config.ftp_password.len() > 0 && is_plain(config.ftp_password)
            &&& config.parent_socket.len() > 0 && is_plain(config.parent_socket)
            &&& config.tmp_dir.len() > 0 && is_plain(config.tmp_dir)
        },
{
    if let Ok(text) = read {
        lemma_lines_lack(text);
        lemma_values_are_plain(lines(text), "ftp_bind"@);
        lemma_values_are_plain(lines(text), "ftp_advertise"@);
        lemma_values_are_plain(lines(text), "ftp_user"@);
        lemma_values_are_plain(lines(text), "ftp_password"@);
        lemma_values_are_plain(lines(text), "parent_socket"@);
        lemma_values_are_plain(lines(text), "tmp_dir"@);
    }
}

/// Without a setting of its own, the announced address is the one that the server listens
/// on.
pub proof fn advertise_defaults_to_bind(values: Map<Seq<char>, Seq<char>>)
    requires
        setting(values, "ftp_advertise"@) is None,
    ensures
        from_values(values) matches Ok(config) ==> config.ftp_advertise == config.ftp_bind,
{
}

/// Text that a line of a configuration file can hold as a key or a value: on one line,
/// without a comment and without white space around it.
pub open spec fn is_plain(s: Seq<char>) -> bool {
    trim(s) == s && !s.contains('#') && !s.contains('\n')
}

/// The line that gives `key` the value `value`.
pub open spec fn pair_line(key: Seq<char>, value: Seq<char>) -> Seq<char> {
    key.push('=') + value
}

/// A pair that is written as a line is read back as it was. The value may hold further
/// equals signs.
pub proof fn pair_is_read_back(key: Seq<char>, value: Seq<char>)
    requires
        is_plain(key),
        is_plain(value),
        !key.contains('='),
    ensures
        read_line(pair_line(key, value)) == (Line::Pair { key, value }),
{
    let line = pair_line(key, value);
    lemma_lacks_between(key, '=', value, '#');
    lemma_split_single(line, '#');
    assert(before(line, '#') =~= line);
    lemma_trim(key);
    lemma_trim(value);
    assert(line.first() == if key.len() > 0 {
        key.first()
    } else {
        '='
    });
    assert(line.last() == if value.len() > 0 {
        value.last()
    } else {
        '='
    });
    assert(trim(line) == line);
    lemma_split_joined(key, '=', value);
}

/// A key and its value.
pub type Pair = (Seq<char>, Seq<char>);

/// The text of a file that gives values to keys, one pair to a line.
pub open spec fn pairs_text(pairs: Seq<Pair>) -> Seq<char>
    decreases pairs.len(),
{
    if pairs.len() == 0 {
        Seq::empty()
    } else {
        pair_line(pairs.first().0, pairs.first().1).push('\n') + pairs_text(pairs.drop_first())
    }
}

/// The values that `pairs` give to their keys. The last value of a key counts.
pub open spec fn pairs_map(pairs: Seq<Pair>) -> Map<Seq<char>, Seq<char>>
    decreases pairs.len(),
{
    if pairs.len() == 0 {
        Map::empty()
    } else {
        pairs_map(pairs.drop_last()).insert(pairs.last().0, pairs.last().1)
    }
}

/// Tells that `pair` can be written as a line.
pub open spec fn is_writable(pair: Pair) -> bool {
    is_plain(pair.0) && is_plain(pair.1) && pair.1.len() > 0 && !pair.0.contains('=')
}

spec fn pair_lines(pairs: Seq<Pair>) -> Seq<Seq<char>> {
    pairs.map_values(|pair: Pair| pair_line(pair.0, pair.1))
}

proof fn lemma_pair_lines(pairs: Seq<Pair>)
    requires
        forall|i: int| 0 <= i < pairs.len() ==> is_writable(#[trigger] pairs[i]),
    ensures
        lines(pairs_text(pairs)) == pair_lines(pairs),
    decreases pairs.len(),
{
    if pairs.len() > 0 {
        let rest = pairs.drop_first();
        assert forall|i: int| 0 <= i < rest.len() implies is_writable(#[trigger] rest[i]) by {
            assert(rest[i] == pairs[i + 1]);
        }
        lemma_pair_lines(rest);
        assert(is_writable(pairs[0]));
        lemma_first_line(pairs[0].0, pairs[0].1, pairs_text(rest));
        assert(pair_lines(pairs) =~= seq![pair_line(pairs[0].0, pairs[0].1)] + pair_lines(rest));
    } else {
        assert(pair_lines(pairs) =~= Seq::<Seq<char>>::empty());
    }
}

proof fn lemma_pairs_map(pairs: Seq<Pair>)
    requires
        forall|i: int| 0 <= i < pairs.len() ==> is_writable(#[trigger] pairs[i]),
    ensures
        read_lines(pair_lines(pairs)) == Ok::<Map<Seq<char>, Seq<char>>, nat>(pairs_map(pairs)),
    decreases pairs.len(),
{
    if pairs.len() > 0 {
        let front = pairs.drop_last();
        assert forall|i: int| 0 <= i < front.len() implies is_writable(#[trigger] front[i]) by {
            assert(front[i] == pairs[i]);
        }
        lemma_pairs_map(front);
        let last = pairs[pairs.len() - 1];
        assert(is_writable(last));
        pair_is_read_back(last.0, last.1);
        assert(pair_lines(pairs).drop_last() =~= pair_lines(front));
    }
}

/// Pairs that are written to a file are read back, with the last value of each key.
pub proof fn pairs_are_read_back(pairs: Seq<Pair>)
    requires
        forall|i: int| 0 <= i < pairs.len() ==> is_writable(#[trigger] pairs[i]),
    ensures
        read_lines(lines(pairs_text(pairs))) == Ok::<Map<Seq<char>, Seq<char>>, nat>(
            pairs_map(pairs),
        ),
{
    lemma_pair_lines(pairs);
    lemma_pairs_map(pairs);
}

/// The pairs that set every key of `config`.
pub open spec fn config_pairs(config: ConfigView) -> Seq<Pair> {
    seq![
        ("ftp_bind"@, config.ftp_bind),
        ("ftp_advertise"@, config.ftp_advertise),
        ("ftp_port"@, decimal(config.ftp_port as nat)),
        ("ftp_user"@, config.ftp_user),
        ("ftp_password"@, config.ftp_password),
        ("parent_socket"@, config.parent_socket),
        ("tmp_dir"@, config.tmp_dir),
    ]
}

/// A configuration that is written to a file is read back as it was.
pub proof fn config_is_read_back(path: Seq<char>, config: ConfigView)
    requires
        is_plain(config.ftp_bind) && config.ftp_bind.len() > 0,
        is_plain(config.ftp_advertise) && config.ftp_advertise.len() > 0,
        is_plain(config.ftp_user) && config.ftp_user.len() > 0,
        is_plain(config.ftp_password) && config.ftp_password.len() > 0,
        is_plain(config.parent_socket) && config.parent_socket.len() > 0,
        is_plain(config.tmp_dir) && config.tmp_dir.len() > 0,
    ensures
        from_read(path, Ok(pairs_text(config_pairs(config)))) == Ok::<ConfigView, Fault>(config),
{
    let pairs = config_pairs(config);
    let port = decimal(config.ftp_port as nat);
    lemma_decimal(config.ftp_port as nat);
    decimal_is_read_back(config.ftp_port);
    lemma_digits_are_plain(port);
    lemma_keys();
    pairs_are_read_back(pairs);
    lemma_config_pairs_map(config);
}

proof fn lemma_config_pairs_map(config: ConfigView)
    ensures
        ({
            let values = pairs_map(config_pairs(config));
            &&& values.contains_key("ftp_bind"@) && values["ftp_bind"@] == config.ftp_bind
            &&& values.contains_key("ftp_advertise"@) && values["ftp_advertise"@] == config.ftp_advertise
            &&& values.contains_key("ftp_port"@) && values["ftp_port"@] == decimal(config.ftp_port as nat)
            &&& values.contains_key("ftp_user"@) && values["ftp_user"@] == config.ftp_user
            &&& values.contains_key("ftp_password"@) && values["ftp_password"@] == config.ftp_password
            &&& values.contains_key("parent_socket"@) && values["parent_socket"@] == config.parent_socket
            &&& values.contains_key("tmp_dir"@) && values["tmp_dir"@] == config.tmp_dir
        }),
{
    let pairs = config_pairs(config);
    lemma_keys();
    assert(pairs.take(0) =~= Seq::<Pair>::empty());
    assert(pairs.take(1).drop_last() =~= pairs.take(0));
    assert(pairs.take(2).drop_last() =~= pairs.take(1));
    assert(pairs.take(3).drop_last() =~= pairs.take(2));
    assert(pairs.take(4).drop_last() =~= pairs.take(3));
    assert(pairs.take(5).drop_last() =~= pairs.take(4));
    assert(pairs.take(6).drop_last() =~= pairs.take(5));
    assert(pairs.take(7).drop_last() =~= pairs.take(6));
    assert(pairs.take(7) =~= pairs);
    assert(pairs_map(pairs.take(1)) == pairs_map(pairs.take(0)).insert(
        "ftp_bind"@,
        config.ftp_bind,
    ));
    assert(pairs_map(pairs.take(2)) == pairs_map(pairs.take(1)).insert(
        "ftp_advertise"@,
        config.ftp_advertise,
    ));
    assert(pairs_map(pairs.take(3)) == pairs_map(pairs.take(2)).insert(
        "ftp_port"@,
        decimal(config.ftp_port as nat),
    ));
    assert(pairs_map(pairs.take(4)) == pairs_map(pairs.take(3)).insert(
        "ftp_user"@,
        config.ftp_user,
    ));
    assert(pairs_map(pairs.take(5)) == pairs_map(pairs.take(4)).insert(
        "ftp_password"@,
        config.ftp_password,
    ));
    assert(pairs_map(pairs.take(6)) == pairs_map(pairs.take(5)).insert(
        "parent_socket"@,
        config.parent_socket,
    ));
    assert(pairs_map(pairs.take(7)) == pairs_map(pairs.take(6)).insert(
        "tmp_dir"@,
        config.tmp_dir,
    ));
}

/// A configuration that was read from one file and is written to another is read back from
/// there as it was.
pub proof fn read_config_is_read_back(
    path: Seq<char>,
    read: Result<Seq<char>, Seq<char>>,
    other_path: Seq<char>,
)
    ensures
        from_read(path, read) matches Ok(config) ==> from_read(
            other_path,
            Ok(pairs_text(config_pairs(config))),
        ) == Ok::<ConfigView, Fault>(config),
{
    settings_are_plain(path, read);
    if let Ok(config) = from_read(path, read) {
        config_is_read_back(other_path, config);
    }
}

/// Digits are plain text.
proof fn lemma_digits_are_plain(s: Seq<char>)
    requires
        all_digits(s),
    ensures
        is_plain(s),
{
    if s.len() > 0 {
        assert(is_digit(s[0]) && is_digit(s[s.len() - 1]));
    }
    lemma_digits_lack(s, '#');
    lemma_digits_lack(s, '\n');
}

/// The line that gives a key its value is the first line of a text that begins with it.
proof fn lemma_first_line(key: Seq<char>, value: Seq<char>, rest: Seq<char>)
    requires
        is_plain(key),
        is_plain(value),
        value.len() > 0,
        !key.contains('='),
    ensures
        lines(pair_line(key, value).push('\n') + rest) == seq![pair_line(key, value)] + lines(rest),
        read_line(pair_line(key, value)) == (Line::Pair { key, value }),
{
    let line = pair_line(key, value);
    lemma_lacks_between(key, '=', value, '\n');
    lemma_split_joined(line, '\n', rest);
    lemma_trim(value);
    assert(line.last() == value.last());
    pair_is_read_back(key, value);
}

/// The keys are plain text without an equals sign, and they all differ.
proof fn lemma_keys()
    ensures
        is_plain("ftp_bind"@) && !"ftp_bind"@.contains('='),
        is_plain("ftp_advertise"@) && !"ftp_advertise"@.contains('='),
        is_plain("ftp_port"@) && !"ftp_port"@.contains('='),
        is_plain("ftp_user"@) && !"ftp_user"@.contains('='),
        is_plain("ftp_password"@) && !"ftp_password"@.contains('='),
        is_plain("parent_socket"@) && !"parent_socket"@.contains('='),
        is_plain("tmp_dir"@) && !"tmp_dir"@.contains('='),
        "ftp_bind"@ != "ftp_advertise"@,
        "ftp_bind"@ != "ftp_port"@,
        "ftp_bind"@ != "ftp_user"@,
        "ftp_bind"@ != "ftp_password"@,
        "ftp_bind"@ != "parent_socket"@,
        "ftp_bind"@ != "tmp_dir"@,
        "ftp_advertise"@ != "ftp_port"@,
        "ftp_advertise"@ != "ftp_user"@,
        "ftp_advertise"@ != "ftp_password"@,
        "ftp_advertise"@ != "parent_socket"@,
        "ftp_advertise"@ != "tmp_dir"@,
        "ftp_port"@ != "ftp_user"@,
        "ftp_port"@ != "ftp_password"@,
        "ftp_port"@ != "parent_socket"@,
        "ftp_port"@ != "tmp_dir"@,
        "ftp_user"@ != "ftp_password"@,
        "ftp_user"@ != "parent_socket"@,
        "ftp_user"@ != "tmp_dir"@,
        "ftp_password"@ != "parent_socket"@,
        "ftp_password"@ != "tmp_dir"@,
        "parent_socket"@ != "tmp_dir"@,
{
    reveal_strlit("ftp_bind");
    reveal_strlit("ftp_advertise");
    reveal_strlit("ftp_port");
    reveal_strlit("ftp_user");
    reveal_strlit("ftp_password");
    reveal_strlit("parent_socket");
    reveal_strlit("tmp_dir");
    assert("ftp_bind"@.len() != "ftp_advertise"@.len());
    assert("ftp_bind"@[4] != "ftp_port"@[4]);
    assert("ftp_bind"@[4] != "ftp_user"@[4]);
    assert("ftp_bind"@.len() != "ftp_password"@.len());
    assert("ftp_bind"@.len() != "parent_socket"@.len());
    assert("ftp_bind"@.len() != "tmp_dir"@.len());
    assert("ftp_advertise"@.len() != "ftp_port"@.len());
    assert("ftp_advertise"@.len() != "ftp_user"@.len());
    assert("ftp_advertise"@.len() != "ftp_password"@.len());
    assert("ftp_advertise"@[0] != "parent_socket"@[0]);
    assert("ftp_advertise"@.len() != "tmp_dir"@.len());
    assert("ftp_port"@[4] != "ftp_user"@[4]);
    assert("ftp_port"@.len() != "ftp_password"@.len());
    assert("ftp_port"@.len() != "parent_socket"@.len());
    assert("ftp_port"@.len() != "tmp_dir"@.len());
    assert("ftp_user"@.len() != "ftp_password"@.len());
    assert("ftp_user"@.len() != "parent_socket"@.len());
    assert("ftp_user"@.len() != "tmp_dir"@.len());
    assert("ftp_password"@.len() != "parent_socket"@.len());
    assert("ftp_password"@.len() != "tmp_dir"@.len());
    assert("parent_socket"@.len() != "tmp_dir"@.len());
}

} // verus!
