//! What each command line means to the FTP server, and what it is answered.

use vstd::prelude::*;
use vstd::string::*;

use crate::config::ConfigView;
use crate::decimal::{decimal, number};
use crate::ipv4::{
    address_has_one_notation, address_is_read_back, dotted, ipv4, octets_are_joined, Ipv4,
};
use crate::session::{
    announce, command_argument, command_name, fresh, passive_reply, port_argument, respond,
    within_limit, Action, ActionView, DataChannel, Session, SessionError, GREETING,
    IO_TIMEOUT_SECONDS, MAX_UPLOAD_BYTES, TRANSFER_COMPLETE, TRANSFER_STARTED,
};
use crate::session_laws::lemma_commands_differ;
use crate::text::{ends_with, find, is_white_space, lemma_find, lower, split, upper};
use crate::text_laws::{
    all_white_space, lemma_ending, text_is_split_at_the_character,
    white_space_at_the_end_is_dropped,
};

verus! {

/// A line of a word, a space and an argument, ended by white space of any kind, is the command
/// of that word in upper case with exactly that argument.
pub proof fn command_has_the_argument(word: Seq<char>, argument: Seq<char>, ending: Seq<char>)
    requires
        !word.contains(' '),
        argument.len() > 0,
        !is_white_space(argument[argument.len() - 1]),
        all_white_space(ending),
    ensures
        command_name(word + seq![' '] + argument + ending) == upper(word),
        command_argument(word + seq![' '] + argument + ending) == argument,
{
    let text = word.push(' ') + argument;
    assert(word + seq![' '] + argument + ending =~= text + ending);
    assert(text[text.len() - 1] == argument[argument.len() - 1]);
    white_space_at_the_end_is_dropped(text, ending);
    text_is_split_at_the_character(word, ' ', argument);
}

/// A line of a word alone, ended by white space of any kind, is the command of that word in
/// upper case without an argument.
pub proof fn bare_command_has_no_argument(word: Seq<char>, ending: Seq<char>)
    requires
        !word.contains(' '),
        word.len() > 0 ==> !is_white_space(word[word.len() - 1]),
        all_white_space(ending),
    ensures
        command_name(word + ending) == upper(word),
        command_argument(word + ending) == Seq::<char>::empty(),
{
    white_space_at_the_end_is_dropped(word, ending);
    text_is_split_at_the_character(word, ' ', Seq::empty());
}

/// Every line is of one of these two kinds.
pub proof fn every_line_is_a_command(line: Seq<char>)
    ensures
        (exists|word: Seq<char>, ending: Seq<char>|
            {
                &&& line == #[trigger] (word + ending)
                &&& !word.contains(' ')
                &&& word.len() > 0 ==> !is_white_space(word[word.len() - 1])
                &&& all_white_space(ending)
            }) || (exists|word: Seq<char>, argument: Seq<char>, ending: Seq<char>|
            {
                &&& line == #[trigger] (word + seq![' '] + argument + ending)
                &&& !word.contains(' ')
                &&& argument.len() > 0
                &&& !is_white_space(argument[argument.len() - 1])
                &&& all_white_space(ending)
            }),
{
    let (text, ending) = lemma_ending(line);
    lemma_find(text, ' ');
    let at = find(text, ' ') as int;
    if at == text.len() {
        assert(!text.contains(' '));
        assert(line == text + ending);
    } else {
        let word = text.take(at);
        let argument = text.skip(at + 1);
        assert(!word.contains(' '));
        assert(text =~= word + seq![' '] + argument);
        assert(is_white_space(' '));
        assert(argument.len() > 0);
        assert(argument[argument.len() - 1] == text[text.len() - 1]);
        assert(line == word + seq![' '] + argument + ending);
    }
}

/// Tells that a file name ends in `.bmp`, in any case of letters.
pub open spec fn names_a_bmp(name: Seq<char>) -> bool {
    let n = name.len() as int;
    &&& n >= 4
    &&& name[n - 4] == '.'
    &&& name[n - 3] == 'b' || name[n - 3] == 'B'
    &&& name[n - 2] == 'm' || name[n - 2] == 'M'
    &&& name[n - 1] == 'p' || name[n - 1] == 'P'
}

proof fn lemma_names_a_bmp(name: Seq<char>)
    ensures
        ends_with(lower(name), ".bmp"@) <==> names_a_bmp(name),
{
    reveal_strlit(".bmp");
    let n = name.len() as int;
    if n >= 4 {
        let tail = lower(name).skip(n - 4);
        assert(tail[0] == lower(name)[n - 4]);
        assert(tail[1] == lower(name)[n - 3]);
        assert(tail[2] == lower(name)[n - 2]);
        assert(tail[3] == lower(name)[n - 1]);
        if names_a_bmp(name) {
            assert(tail =~= ".bmp"@);
        }
    }
}

/// Tells that for `line` the server does `action` and goes over to the session `next`.
pub open spec fn leads_to(
    session: Session,
    config: ConfigView,
    line: Seq<char>,
    next: Session,
    action: ActionView,
) -> bool {
    respond(session, config, line) == (next, action)
}

/// What is answered to a command with an argument. The user and the password are those of the
/// configuration, letter for letter; `STOR` takes the name as it stands.
pub proof fn command_with_argument_is_answered(
    session: Session,
    config: ConfigView,
    word: Seq<char>,
    argument: Seq<char>,
    ending: Seq<char>,
)
    requires
        !word.contains(' '),
        argument.len() > 0,
        !is_white_space(argument[argument.len() - 1]),
        all_white_space(ending),
    ensures
        ({
            let line = word + seq![' '] + argument + ending;
            let name = upper(word);
            let refusal = ActionView::Reply {
                text: if session.authenticated {
                    "502 Command not implemented"@
                } else {
                    "530 Not logged in"@
                },
            };
            &&& name == "USER"@ && argument == config.ftp_user ==> leads_to(
                session,
                config,
                line,
                session,
                ActionView::Reply { text: "331 Password required"@ },
            )
            &&& name == "USER"@ && argument != config.ftp_user ==> leads_to(
                session,
                config,
                line,
                session,
                refusal,
            )
            &&& name == "PASS"@ && argument == config.ftp_password ==> leads_to(
                session,
                config,
                line,
                Session { authenticated: true, channel: session.channel },
                ActionView::Reply { text: "230 Logged in"@ },
            )
            &&& name == "PASS"@ && argument != config.ftp_password ==> leads_to(
                session,
                config,
                line,
                session,
                refusal,
            )
            &&& name == "PORT"@ && session.authenticated ==> (match port_argument(argument) {
                Some((ip, port)) => leads_to(
                    session,
                    config,
                    line,
                    Session { authenticated: true, channel: DataChannel::Active { ip, port } },
                    ActionView::Reply { text: "200 Port set"@ },
                ),
                None => leads_to(
                    session,
                    config,
                    line,
                    session,
                    ActionView::Reply { text: "501 Invalid port"@ },
                ),
            })
            &&& name == "STOR"@ && session.authenticated && names_a_bmp(argument)
                && session.channel != DataChannel::Closed ==> leads_to(
                session,
                config,
                line,
                Session { authenticated: true, channel: DataChannel::Closed },
                ActionView::Receive {
                    channel: session.channel,
                    name: argument,
                    limit: 104857600,
                },
            )
            &&& name == "STOR"@ && session.authenticated && names_a_bmp(argument)
                && session.channel == DataChannel::Closed ==> leads_to(
                session,
                config,
                line,
                session,
                ActionView::Fail { error: SessionError::NoDataChannel },
            )
            &&& name == "STOR"@ && !(session.authenticated && names_a_bmp(argument)) ==> leads_to(
                session,
                config,
                line,
                session,
                refusal,
            )
        }),
{
    command_has_the_argument(word, argument, ending);
    lemma_commands_differ();
    lemma_names_a_bmp(argument);
}

/// What is answered to the commands that need no argument, whether one follows or not.
pub proof fn general_command_is_answered(
    session: Session,
    config: ConfigView,
    word: Seq<char>,
    argument: Seq<char>,
    ending: Seq<char>,
    line: Seq<char>,
)
    requires
        !word.contains(' '),
        all_white_space(ending),
        line == word + ending && (word.len() > 0 ==> !is_white_space(word[word.len() - 1])) || line
            == word + seq![' '] + argument + ending && argument.len() > 0 && !is_white_space(
            argument[argument.len() - 1],
        ),
    ensures
        ({
            let name = upper(word);
            let refusal = ActionView::Reply {
                text: if session.authenticated {
                    "502 Command not implemented"@
                } else {
                    "530 Not logged in"@
                },
            };
            &&& name == "SYST"@ ==> leads_to(
                session,
                config,
                line,
                session,
                ActionView::Reply { text: "215 UNIX Type: L8"@ },
            )
            &&& name == "TYPE"@ ==> leads_to(
                session,
                config,
                line,
                session,
                ActionView::Reply { text: "200 Type set"@ },
            )
            &&& name == "PWD"@ ==> leads_to(
                session,
                config,
                line,
                session,
                ActionView::Reply { text: "257 \"/\" is current directory"@ },
            )
            &&& name == "PASV"@ && session.authenticated ==> leads_to(
                session,
                config,
                line,
                session,
                ActionView::OpenPassive,
            )
            &&& name == "QUIT"@ ==> leads_to(
                session,
                config,
                line,
                session,
                ActionView::Quit { text: "221 Goodbye"@ },
            )
            &&& (name == "PASV"@ || name == "PORT"@) && !session.authenticated ==> leads_to(
                session,
                config,
                line,
                session,
                refusal,
            )
            &&& !(name == "USER"@ || name == "PASS"@ || name == "SYST"@ || name == "TYPE"@ || name
                == "PWD"@ || name == "PASV"@ || name == "PORT"@ || name == "STOR"@ || name
                == "QUIT"@) ==> leads_to(session, config, line, session, refusal)
        }),
{
    if line == word + ending && (word.len() > 0 ==> !is_white_space(word[word.len() - 1])) {
        bare_command_has_no_argument(word, ending);
    } else {
        command_has_the_argument(word, argument, ending);
    }
    lemma_commands_differ();
}

/// What is answered where the argument of a command that needs one is left out: that counts as
/// an empty one.
pub proof fn missing_argument_is_answered(
    session: Session,
    config: ConfigView,
    word: Seq<char>,
    ending: Seq<char>,
)
    requires
        !word.contains(' '),
        word.len() > 0 ==> !is_white_space(word[word.len() - 1]),
        all_white_space(ending),
    ensures
        ({
            let line = word + ending;
            let name = upper(word);
            let refusal = ActionView::Reply {
                text: if session.authenticated {
                    "502 Command not implemented"@
                } else {
                    "530 Not logged in"@
                },
            };
            &&& name == "USER"@ ==> leads_to(
                session,
                config,
                line,
                session,
                if config.ftp_user.len() == 0 {
                    ActionView::Reply { text: "331 Password required"@ }
                } else {
                    refusal
                },
            )
            &&& name == "PASS"@ && config.ftp_password.len() == 0 ==> leads_to(
                session,
                config,
                line,
                Session { authenticated: true, channel: session.channel },
                ActionView::Reply { text: "230 Logged in"@ },
            )
            &&& name == "PASS"@ && config.ftp_password.len() > 0 ==> leads_to(
                session,
                config,
                line,
                session,
                refusal,
            )
            &&& name == "STOR"@ ==> leads_to(session, config, line, session, refusal)
            &&& name == "PORT"@ && session.authenticated ==> leads_to(
                session,
                config,
                line,
                session,
                ActionView::Reply { text: "501 Invalid port"@ },
            )
        }),
{
    bare_command_has_no_argument(word, ending);
    lemma_commands_differ();
    let none = Seq::<char>::empty();
    lemma_names_a_bmp(none);
    text_is_split_at_the_character(none, ',', none);
    assert(config.ftp_user.len() == 0 ==> config.ftp_user =~= none);
    assert(config.ftp_password.len() == 0 ==> config.ftp_password =~= none);
}

/// `PORT` takes six numbers of at most 255 with commas between them: the four octets of the
/// address, then the port, whose high byte counts 256 times. It takes nothing else.
pub proof fn port_takes_six_numbers(
    a: Seq<char>,
    b: Seq<char>,
    c: Seq<char>,
    d: Seq<char>,
    e: Seq<char>,
    f: Seq<char>,
)
    requires
        !a.contains(','),
        !b.contains(','),
        !c.contains(','),
        !d.contains(','),
        !e.contains(','),
        !f.contains(','),
    ensures
        ({
            let argument = a + seq![','] + b + seq![','] + c + seq![','] + d + seq![','] + e
                + seq![','] + f;
            match (number(a), number(b), number(c), number(d), number(e), number(f)) {
                (Ok(a), Ok(b), Ok(c), Ok(d), Ok(high), Ok(low)) => if a <= 255 && b <= 255 && c
                    <= 255 && d <= 255 && high <= 255 && low <= 255 {
                    port_argument(argument) matches Some((ip, port)) && {
                        &&& ip.a == a && ip.b == b && ip.c == c && ip.d == d
                        &&& port == high * 256 + low
                    }
                } else {
                    port_argument(argument) is None
                },
                _ => port_argument(argument) is None,
            }
        }),
{
    lemma_six_parts(a, b, c, d, e, f);
}

/// Six texts with commas between them.
pub open spec fn six_joined(
    a: Seq<char>,
    b: Seq<char>,
    c: Seq<char>,
    d: Seq<char>,
    e: Seq<char>,
    f: Seq<char>,
) -> Seq<char> {
    a + seq![','] + b + seq![','] + c + seq![','] + d + seq![','] + e + seq![','] + f
}

pub proof fn lemma_six_parts(
    a: Seq<char>,
    b: Seq<char>,
    c: Seq<char>,
    d: Seq<char>,
    e: Seq<char>,
    f: Seq<char>,
)
    requires
        !a.contains(','),
        !b.contains(','),
        !c.contains(','),
        !d.contains(','),
        !e.contains(','),
        !f.contains(','),
    ensures
        split(six_joined(a, b, c, d, e, f), ',') == seq![a, b, c, d, e, f],
{
    let s5 = e.push(',') + f;
    let s4 = d.push(',') + s5;
    let s3 = c.push(',') + s4;
    let s2 = b.push(',') + s3;
    lemma_six_joined(a, b, c, d, e, f);
    lemma_only_part(f);
    lemma_first_part(e, f);
    lemma_first_part(d, s5);
    lemma_first_part(c, s4);
    lemma_first_part(b, s3);
    lemma_first_part(a, s2);
    assert(seq![a] + (seq![b] + (seq![c] + (seq![d] + (seq![e] + seq![f])))) =~= seq![
        a,
        b,
        c,
        d,
        e,
        f,
    ]);
}

proof fn lemma_six_joined(
    a: Seq<char>,
    b: Seq<char>,
    c: Seq<char>,
    d: Seq<char>,
    e: Seq<char>,
    f: Seq<char>,
)
    ensures
        six_joined(a, b, c, d, e, f) == a.push(',') + (b.push(',') + (c.push(',') + (d.push(',') + (
        e.push(',') + f)))),
{
    assert(six_joined(a, b, c, d, e, f) =~= a.push(',') + (b.push(',') + (c.push(',') + (d.push(
        ',',
    ) + (e.push(',') + f)))));
}

proof fn lemma_only_part(part: Seq<char>)
    requires
        !part.contains(','),
    ensures
        split(part, ',') == seq![part],
{
    text_is_split_at_the_character(part, ',', part);
}

proof fn lemma_first_part(part: Seq<char>, rest: Seq<char>)
    requires
        !part.contains(','),
    ensures
        split(part.push(',') + rest, ',') == seq![part] + split(rest, ','),
{
    text_is_split_at_the_character(part, ',', rest);
}

/// An argument of `PORT` with fewer parts than six, or with more, is refused.
pub proof fn port_takes_no_other_count(argument: Seq<char>)
    requires
        split(argument, ',').len() != 6,
    ensures
        port_argument(argument) is None,
{
}

/// The listener is announced at the address of the configuration: the four octets and the two
/// bytes of the port, with commas between them. What is no IPv4 address is not announced.
pub proof fn listener_is_announced(session: Session, config: ConfigView, ip: Ipv4, port: u16)
    ensures
        config.ftp_advertise == dotted(ip) ==> announce(session, config, port) == (
            Session { authenticated: session.authenticated, channel: DataChannel::Passive },
            Ok::<Seq<char>, SessionError>(
                "227 Entering Passive Mode ("@ + decimal(ip.a as nat) + seq![','] + decimal(
                    ip.b as nat,
                ) + seq![','] + decimal(ip.c as nat) + seq![','] + decimal(ip.d as nat) + seq![',']
                    + decimal((port / 256) as nat) + seq![','] + decimal((port % 256) as nat)
                    + seq![')'],
            ),
        ),
        (forall|other: Ipv4| config.ftp_advertise != #[trigger] dotted(other)) ==> announce(
            session,
            config,
            port,
        ) == (session, Err::<Seq<char>, SessionError>(SessionError::AdvertiseNotIpv4)),
{
    address_is_read_back(ip);
    octets_are_joined(ip, ',');
    reveal_strlit(",");
    reveal_strlit(")");
    assert(passive_reply(ip, port) =~= "227 Entering Passive Mode ("@ + decimal(ip.a as nat)
        + seq![','] + decimal(ip.b as nat) + seq![','] + decimal(ip.c as nat) + seq![',']
        + decimal(ip.d as nat) + seq![','] + decimal((port / 256) as nat) + seq![','] + decimal(
        (port % 256) as nat,
    ) + seq![')']);
    if let Some(other) = ipv4(config.ftp_advertise) {
        address_has_one_notation(config.ftp_advertise, other);
    }
}

/// An upload of at most 104857600 bytes is taken over whole. Of a longer one that many bytes
/// are, from its start on, each as it was sent.
pub proof fn upload_is_taken_over(data: Seq<u8>, i: int)
    ensures
        data.len() <= 104857600 ==> within_limit(data, MAX_UPLOAD_BYTES) == data,
        data.len() > 104857600 ==> within_limit(data, MAX_UPLOAD_BYTES).len() == 104857600,
        data.len() > 104857600 && 0 <= i < 104857600 ==> within_limit(data, MAX_UPLOAD_BYTES)[i]
            == data[i],
{
}

/// A client that has just connected is not logged in and has no data channel.
pub proof fn session_starts_without_a_login()
    ensures
        !fresh().authenticated,
        fresh().channel == DataChannel::Closed,
{
}

/// What the server says of its own accord, and how long it waits.
pub proof fn server_speaks_in_these_words()
    ensures
        GREETING@ == "220 keyence-collector FTP ready"@,
        TRANSFER_STARTED@ == "150 Opening data connection"@,
        TRANSFER_COMPLETE@ == "226 Transfer complete"@,
        IO_TIMEOUT_SECONDS == 30,
        MAX_UPLOAD_BYTES == 104857600,
        SessionError::NoDataChannel.text() == "PASV required before STOR"@,
        SessionError::AdvertiseNotIpv4.text() == "invalid IPv4 address syntax"@,
{
}

/// An action holds what its parts hold.
pub proof fn action_holds_its_parts(action: Action)
    ensures
        match action {
            Action::Reply { text } => action@ == (ActionView::Reply { text: text@ }),
            Action::OpenPassive => action@ == ActionView::OpenPassive,
            Action::Receive { channel, name, limit } => action@ == (ActionView::Receive {
                channel,
                name: name@,
                limit,
            }),
            Action::Quit { text } => action@ == (ActionView::Quit { text: text@ }),
            Action::Fail { error } => action@ == (ActionView::Fail { error }),
        },
{
}

} // verus!
