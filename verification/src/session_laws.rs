//! What holds of every FTP session.

use vstd::prelude::*;

use crate::config::{verdict, ConfigView, HostFacts};
use crate::decimal::{decimal, is_digit, lemma_decimal};
use crate::ipv4::{
    address_has_one_notation, dotted, ipv4, lemma_digits_lack, octets_joined, Ipv4,
};
use crate::session::{
    announce, command_argument, command_name, fresh, passive_reply, port_argument, respond,
    ActionView, DataChannel, Session, SessionError, GREETING, MAX_UPLOAD_BYTES, TRANSFER_COMPLETE,
    TRANSFER_STARTED,
};
use crate::text::{ends_with, lemma_lacks, lemma_lacks_between, lower};

verus! {

/// What happens in a session.
pub enum Event {
    /// A command is received.
    Command { line: Seq<char> },
    /// The listener for `PASV` has been opened.
    PassiveOpened { port: u16 },
}

/// The session after an event.
pub open spec fn after_event(session: Session, config: ConfigView, event: Event) -> Session {
    match event {
        Event::Command { line } => respond(session, config, line).0,
        Event::PassiveOpened { port } => announce(session, config, port).0,
    }
}

/// The session after a sequence of events that begins when the client connects.
pub open spec fn after_events(config: ConfigView, events: Seq<Event>) -> Session
    decreases events.len(),
{
    if events.len() == 0 {
        fresh()
    } else {
        after_event(after_events(config, events.drop_last()), config, events.last())
    }
}

/// Tells that `line` is `PASS` with the right password.
pub open spec fn is_login(config: ConfigView, line: Seq<char>) -> bool {
    command_name(line) == "PASS"@ && command_argument(line) == config.ftp_password
}

/// Tells that a login is among `events`.
pub open spec fn has_login(config: ConfigView, events: Seq<Event>) -> bool {
    exists|i: int|
        0 <= i < events.len() && (#[trigger] events[i] matches Event::Command { line } && is_login(
            config,
            line,
        ))
}

/// Tells that `line` is `STOR` of an image.
pub open spec fn is_upload(line: Seq<char>) -> bool {
    command_name(line) == "STOR"@ && ends_with(lower(command_argument(line)), ".bmp"@)
}

/// The names of the commands all differ.
pub proof fn lemma_commands_differ()
    ensures
        "USER"@ != "PASS"@,
        "USER"@ != "SYST"@,
        "USER"@ != "TYPE"@,
        "USER"@ != "PWD"@,
        "USER"@ != "PASV"@,
        "USER"@ != "PORT"@,
        "USER"@ != "STOR"@,
        "USER"@ != "QUIT"@,
        "PASS"@ != "SYST"@,
        "PASS"@ != "TYPE"@,
        "PASS"@ != "PWD"@,
        "PASS"@ != "PASV"@,
        "PASS"@ != "PORT"@,
        "PASS"@ != "STOR"@,
        "PASS"@ != "QUIT"@,
        "SYST"@ != "TYPE"@,
        "SYST"@ != "PWD"@,
        "SYST"@ != "PASV"@,
        "SYST"@ != "PORT"@,
        "SYST"@ != "STOR"@,
        "SYST"@ != "QUIT"@,
        "TYPE"@ != "PWD"@,
        "TYPE"@ != "PASV"@,
        "TYPE"@ != "PORT"@,
        "TYPE"@ != "STOR"@,
        "TYPE"@ != "QUIT"@,
        "PWD"@ != "PASV"@,
        "PWD"@ != "PORT"@,
        "PWD"@ != "STOR"@,
        "PWD"@ != "QUIT"@,
        "PASV"@ != "PORT"@,
        "PASV"@ != "STOR"@,
        "PASV"@ != "QUIT"@,
        "PORT"@ != "STOR"@,
        "PORT"@ != "QUIT"@,
        "STOR"@ != "QUIT"@,
{
    reveal_strlit("USER");
    reveal_strlit("PASS");
    reveal_strlit("SYST");
    reveal_strlit("TYPE");
    reveal_strlit("PWD");
    reveal_strlit("PASV");
    reveal_strlit("PORT");
    reveal_strlit("STOR");
    reveal_strlit("QUIT");
    assert("USER"@[0] != "PASS"@[0]);
    assert("USER"@[0] != "SYST"@[0]);
    assert("USER"@[0] != "TYPE"@[0]);
    assert("USER"@.len() != "PWD"@.len());
    assert("USER"@[0] != "PASV"@[0]);
    assert("USER"@[0] != "PORT"@[0]);
    assert("USER"@[0] != "STOR"@[0]);
    assert("USER"@[0] != "QUIT"@[0]);
    assert("PASS"@[0] != "SYST"@[0]);
    assert("PASS"@[0] != "TYPE"@[0]);
    assert("PASS"@.len() != "PWD"@.len());
    assert("PASS"@[3] != "PASV"@[3]);
    assert("PASS"@[1] != "PORT"@[1]);
    assert("PASS"@[0] != "STOR"@[0]);
    assert("PASS"@[0] != "QUIT"@[0]);
    assert("SYST"@[0] != "TYPE"@[0]);
    assert("SYST"@.len() != "PWD"@.len());
    assert("SYST"@[0] != "PASV"@[0]);
    assert("SYST"@[0] != "PORT"@[0]);
    assert("SYST"@[1] != "STOR"@[1]);
    assert("SYST"@[0] != "QUIT"@[0]);
    assert("TYPE"@.len() != "PWD"@.len());
    assert("TYPE"@[0] != "PASV"@[0]);
    assert("TYPE"@[0] != "PORT"@[0]);
    assert("TYPE"@[0] != "STOR"@[0]);
    assert("TYPE"@[0] != "QUIT"@[0]);
    assert("PWD"@.len() != "PASV"@.len());
    assert("PWD"@.len() != "PORT"@.len());
    assert("PWD"@.len() != "STOR"@.len());
    assert("PWD"@.len() != "QUIT"@.len());
    assert("PASV"@[1] != "PORT"@[1]);
    assert("PASV"@[0] != "STOR"@[0]);
    assert("PASV"@[0] != "QUIT"@[0]);
    assert("PORT"@[0] != "STOR"@[0]);
    assert("PORT"@[0] != "QUIT"@[0]);
    assert("STOR"@[0] != "QUIT"@[0]);
}

/// A client is logged in exactly when it has sent the right password at some time, whatever
/// else it has sent.
pub proof fn login_takes_the_password(config: ConfigView, events: Seq<Event>)
    ensures
        after_events(config, events).authenticated <==> has_login(config, events),
    decreases events.len(),
{
    if events.len() > 0 {
        let front = events.drop_last();
        login_takes_the_password(config, front);
        lemma_commands_differ();
        if has_login(config, front) {
            let i = choose|i: int|
                0 <= i < front.len() && (#[trigger] front[i] matches Event::Command { line }
                    && is_login(config, line));
            assert(events[i] == front[i]);
        }
        if has_login(config, events) {
            let i = choose|i: int|
                0 <= i < events.len() && (#[trigger] events[i] matches Event::Command { line }
                    && is_login(config, line));
            if i < front.len() {
                assert(front[i] == events[i]);
            }
        }
        assert(events.last() == events[events.len() - 1]);
    }
}

/// Nothing is uploaded, and no listener is opened, for a client that has not sent the right
/// password.
pub proof fn uploads_take_a_login(config: ConfigView, events: Seq<Event>, line: Seq<char>)
    ensures
        ({
            let action = respond(after_events(config, events), config, line).1;
            (action is Receive || action is OpenPassive) ==> has_login(config, events)
        }),
{
    login_takes_the_password(config, events);
}

/// A client that has not logged in changes nothing unless it sends the right password, and
/// a command that needs a login is answered that it is not logged in.
pub proof fn strangers_are_refused(session: Session, config: ConfigView, line: Seq<char>)
    requires
        !session.authenticated,
        !is_login(config, line),
    ensures
        respond(session, config, line).0 == session,
        command_name(line) == "PASV"@ || command_name(line) == "PORT"@ || command_name(line)
            == "STOR"@ ==> respond(session, config, line).1 == (ActionView::Reply {
            text: "530 Not logged in"@,
        }),
{
    lemma_commands_differ();
}

/// Only a file whose name ends in `.bmp`, in any case of letters, is received; its name is
/// the argument of `STOR`, the data come from the channel that was prepared, and the channel
/// serves that one upload only.
pub proof fn upload_uses_up_the_channel(session: Session, config: ConfigView, line: Seq<char>)
    ensures
        respond(session, config, line).1 matches ActionView::Receive { channel, name, limit } ==> {
            &&& is_upload(line)
            &&& name == command_argument(line)
            &&& channel == session.channel
            &&& channel != DataChannel::Closed
            &&& limit == MAX_UPLOAD_BYTES
            &&& respond(session, config, line).0.channel == DataChannel::Closed
        },
{
}

/// Without a data channel `STOR` of an image ends the session.
pub proof fn upload_needs_a_channel(session: Session, config: ConfigView, line: Seq<char>)
    requires
        session.authenticated,
        session.channel == DataChannel::Closed,
    ensures
        !(respond(session, config, line).1 is Receive),
        is_upload(line) ==> respond(session, config, line).1 == (ActionView::Fail {
            error: SessionError::NoDataChannel,
        }),
{
    lemma_commands_differ();
}

/// Passive mode leads to an upload: once the listener has been announced, `STOR` of an
/// image takes its data from there.
pub proof fn passive_mode_leads_to_an_upload(
    session: Session,
    config: ConfigView,
    port: u16,
    line: Seq<char>,
)
    requires
        session.authenticated,
        ipv4(config.ftp_advertise) is Some,
        is_upload(line),
    ensures
        respond(announce(session, config, port).0, config, line).1 == (ActionView::Receive {
            channel: DataChannel::Passive,
            name: command_argument(line),
            limit: MAX_UPLOAD_BYTES,
        }),
{
    lemma_commands_differ();
}

/// Active mode leads to an upload: after `PORT` with an address, `STOR` of an image takes
/// its data from that address.
pub proof fn active_mode_leads_to_an_upload(
    session: Session,
    config: ConfigView,
    port_line: Seq<char>,
    ip: Ipv4,
    port: u16,
    line: Seq<char>,
)
    requires
        session.authenticated,
        command_name(port_line) == "PORT"@,
        port_argument(command_argument(port_line)) == Some((ip, port)),
        is_upload(line),
    ensures
        respond(respond(session, config, port_line).0, config, line).1 == (ActionView::Receive {
            channel: DataChannel::Active { ip, port },
            name: command_argument(line),
            limit: MAX_UPLOAD_BYTES,
        }),
{
    lemma_commands_differ();
}

/// With a configuration that passed its check the answer to `PASV` never fails: it
/// announces the very address that `ftp_advertise` gives.
pub proof fn checked_config_is_announced(
    session: Session,
    config: ConfigView,
    host: HostFacts,
    absolute: bool,
    port: u16,
)
    requires
        verdict(config, host, absolute) is Ok,
    ensures
        exists|ip: Ipv4|
            {
                &&& config.ftp_advertise == dotted(ip)
                &&& announce(session, config, port).1 == Ok::<Seq<char>, SessionError>(
                    #[trigger] passive_reply(ip, port),
                )
            },
        announce(session, config, port).0.channel == DataChannel::Passive,
{
    let ip = ipv4(config.ftp_advertise).unwrap();
    address_has_one_notation(config.ftp_advertise, ip);
    assert(announce(session, config, port).1 == Ok::<Seq<char>, SessionError>(
        passive_reply(ip, port),
    ));
}

/// Tells that `text` is one line that begins with a three-digit code and a space.
pub open spec fn is_reply(text: Seq<char>) -> bool {
    &&& text.len() >= 4
    &&& is_digit(text[0]) && is_digit(text[1]) && is_digit(text[2])
    &&& text[3] == ' '
    &&& !text.contains('\n')
}

proof fn lemma_literal_replies()
    ensures
        is_reply("331 Password required"@),
        is_reply("230 Logged in"@),
        is_reply("215 UNIX Type: L8"@),
        is_reply("200 Type set"@),
        is_reply("257 \"/\" is current directory"@),
        is_reply("200 Port set"@),
        is_reply("501 Invalid port"@),
        is_reply("221 Goodbye"@),
        is_reply("530 Not logged in"@),
        is_reply("502 Command not implemented"@),
{
    reveal_strlit("331 Password required");
    reveal_strlit("230 Logged in");
    reveal_strlit("215 UNIX Type: L8");
    reveal_strlit("200 Type set");
    reveal_strlit("257 \"/\" is current directory");
    reveal_strlit("200 Port set");
    reveal_strlit("501 Invalid port");
    reveal_strlit("221 Goodbye");
    reveal_strlit("530 Not logged in");
    reveal_strlit("502 Command not implemented");
}

/// Whatever a client sends, an answer is one line that begins with a three-digit code.
pub proof fn answers_are_replies(session: Session, config: ConfigView, line: Seq<char>, port: u16)
    ensures
        respond(session, config, line).1 matches ActionView::Reply { text } ==> is_reply(text),
        respond(session, config, line).1 matches ActionView::Quit { text } ==> is_reply(text),
        announce(session, config, port).1 matches Ok(text) ==> is_reply(text),
{
    lemma_literal_replies();
    if let Some(ip) = ipv4(config.ftp_advertise) {
        lemma_passive_reply(ip, port);
    }
}

proof fn lemma_passive_reply(ip: Ipv4, port: u16)
    ensures
        is_reply(passive_reply(ip, port)),
{
    let text = passive_reply(ip, port);
    reveal_strlit("227 Entering Passive Mode (");
    reveal_strlit(",");
    reveal_strlit(")");
    let a = decimal(ip.a as nat);
    let b = decimal(ip.b as nat);
    let c = decimal(ip.c as nat);
    let d = decimal(ip.d as nat);
    let high = decimal((port / 256) as nat);
    let low = decimal((port % 256) as nat);
    lemma_decimal_is_one_line(ip.a as nat);
    lemma_decimal_is_one_line(ip.b as nat);
    lemma_decimal_is_one_line(ip.c as nat);
    lemma_decimal_is_one_line(ip.d as nat);
    lemma_decimal_is_one_line((port / 256) as nat);
    lemma_decimal_is_one_line((port % 256) as nat);
    lemma_lacks_between(c, ',', d, '\n');
    lemma_lacks_between(b, ',', c.push(',') + d, '\n');
    lemma_lacks_between(a, ',', b.push(',') + (c.push(',') + d), '\n');
    let t1 = "227 Entering Passive Mode ("@;
    let t2 = t1 + octets_joined(ip, ',');
    assert(!t1.contains('\n'));
    lemma_lacks(t1, octets_joined(ip, ','), '\n');
    lemma_lacks(t2, ","@, '\n');
    lemma_lacks(t2 + ","@, high, '\n');
    lemma_lacks(t2 + ","@ + high, ","@, '\n');
    lemma_lacks(t2 + ","@ + high + ","@, low, '\n');
    lemma_lacks(t2 + ","@ + high + ","@ + low, ")"@, '\n');
    assert(text[0] == t1[0] && text[1] == t1[1] && text[2] == t1[2] && text[3] == t1[3]);
}

proof fn lemma_decimal_is_one_line(n: nat)
    ensures
        !decimal(n).contains('\n'),
{
    lemma_decimal(n);
    lemma_digits_lack(decimal(n), '\n');
}

/// A line that the server reads, and the port at which the listener is opened where the line
/// asks for one.
pub struct Read {
    pub line: Seq<char>,
    pub port: u16,
}

/// The replies to a line. An upload is answered when it starts and when it is complete; a
/// line that ends the session with an error is not answered.
pub open spec fn answers(session: Session, config: ConfigView, read: Read) -> Seq<Seq<char>> {
    match respond(session, config, read.line).1 {
        ActionView::Reply { text } => seq![text],
        ActionView::OpenPassive => match announce(session, config, read.port).1 {
            Ok(text) => seq![text],
            Err(_) => Seq::empty(),
        },
        ActionView::Receive { .. } => seq![TRANSFER_STARTED@, TRANSFER_COMPLETE@],
        ActionView::Quit { text } => seq![text],
        ActionView::Fail { .. } => Seq::empty(),
    }
}

/// How a line ends the session, where it does.
pub open spec fn ending(session: Session, config: ConfigView, read: Read) -> Option<
    Result<(), SessionError>,
> {
    match respond(session, config, read.line).1 {
        ActionView::OpenPassive => match announce(session, config, read.port).1 {
            Ok(_) => None,
            Err(error) => Some(Err(error)),
        },
        ActionView::Quit { .. } => Some(Ok(())),
        ActionView::Fail { error } => Some(Err(error)),
        _ => None,
    }
}

/// The session after a line.
pub open spec fn after_line(session: Session, config: ConfigView, read: Read) -> Session {
    match respond(session, config, read.line) {
        (session, ActionView::OpenPassive) => announce(session, config, read.port).0,
        (session, _) => session,
    }
}

/// What has come of a connection so far.
pub struct Talk {
    pub session: Session,
    /// The replies that have been sent.
    pub replies: Seq<Seq<char>>,
    /// How the session has ended, where a line has ended it.
    pub end: Option<Result<(), SessionError>>,
}

/// What comes of a connection on which `reads` arrive and nothing goes wrong with the
/// connection itself.
pub open spec fn talk(config: ConfigView, reads: Seq<Read>) -> Talk
    decreases reads.len(),
{
    if reads.len() == 0 {
        Talk { session: fresh(), replies: seq![GREETING@], end: None }
    } else {
        let earlier = talk(config, reads.drop_last());
        let read = reads.last();
        if earlier.end is Some {
            earlier
        } else {
            Talk {
                session: after_line(earlier.session, config, read),
                replies: earlier.replies + answers(earlier.session, config, read),
                end: ending(earlier.session, config, read),
            }
        }
    }
}

/// What a session gives when no further line arrives.
pub open spec fn result(talk: Talk) -> Result<(), SessionError> {
    match talk.end {
        Some(end) => end,
        None => Ok(()),
    }
}

/// The replies to each of `reads` up to the one that ends the session.
pub open spec fn answered_lines(config: ConfigView, reads: Seq<Read>) -> Seq<Seq<Seq<char>>>
    decreases reads.len(),
{
    if reads.len() == 0 {
        Seq::empty()
    } else {
        let earlier = talk(config, reads.drop_last());
        if earlier.end is Some {
            answered_lines(config, reads.drop_last())
        } else {
            answered_lines(config, reads.drop_last()).push(
                answers(earlier.session, config, reads.last()),
            )
        }
    }
}

/// The action that the line at `i` leads to.
pub open spec fn action_at(config: ConfigView, reads: Seq<Read>, i: int) -> ActionView {
    respond(talk(config, reads.take(i)).session, config, reads[i].line).1
}

/// A session begins with the greeting. Then the lines are answered in their order, each by
/// one reply but for an upload, which gets two: one when it starts and one when it is
/// complete. Where the input ends, the session ends well and nothing more is sent.
pub proof fn lines_are_answered_in_order(config: ConfigView, reads: Seq<Read>)
    requires
        !(talk(config, reads).end matches Some(Err(_))),
    ensures
        talk(config, reads).replies == seq![GREETING@] + answered_lines(config, reads).flatten_alt(),
        talk(config, reads).end is None ==> answered_lines(config, reads).len() == reads.len(),
        answered_lines(config, reads).len() <= reads.len(),
        forall|i: int|
            0 <= i < answered_lines(config, reads).len() ==> if action_at(
                config,
                reads,
                i,
            ) is Receive {
                #[trigger] answered_lines(config, reads)[i] == seq![
                    TRANSFER_STARTED@,
                    TRANSFER_COMPLETE@,
                ]
            } else {
                answered_lines(config, reads)[i].len() == 1
            },
        result(talk(config, reads)) is Ok,
    decreases reads.len(),
{
    let lines = answered_lines(config, reads);
    if reads.len() == 0 {
        assert(talk(config, reads).replies =~= seq![GREETING@] + lines.flatten_alt());
    } else {
        let front = reads.drop_last();
        let earlier = talk(config, front);
        lines_are_answered_in_order(config, front);
        let before = answered_lines(config, front);
        assert forall|i: int| 0 <= i < before.len() implies action_at(config, reads, i)
            == action_at(config, front, i) by {
            assert(front.take(i) =~= reads.take(i));
        }
        if earlier.end is None {
            assert(lines.drop_last() =~= before);
            assert(talk(config, reads).replies =~= seq![GREETING@] + lines.flatten_alt());
            assert(reads.take(reads.len() - 1) =~= front);
        }
        assert forall|i: int| 0 <= i < lines.len() implies if action_at(config, reads, i) is Receive {
            #[trigger] lines[i] == seq![TRANSFER_STARTED@, TRANSFER_COMPLETE@]
        } else {
            lines[i].len() == 1
        } by {
            if i < before.len() {
                assert(lines[i] == before[i]);
            }
        }
    }
}

/// The greeting is the first reply of every session, also of one that ends with an error.
pub proof fn greeting_comes_first(config: ConfigView, reads: Seq<Read>)
    ensures
        talk(config, reads).replies.len() > 0,
        talk(config, reads).replies[0] == GREETING@,
    decreases reads.len(),
{
    if reads.len() > 0 {
        greeting_comes_first(config, reads.drop_last());
    }
}

/// `QUIT` is answered in every session that has not ended, whoever sends it, and ends the
/// session well.
pub proof fn quit_ends_the_session(config: ConfigView, reads: Seq<Read>, quit: Read)
    requires
        talk(config, reads).end is None,
        command_name(quit.line) == "QUIT"@,
    ensures
        talk(config, reads.push(quit)).replies == talk(config, reads).replies.push("221 Goodbye"@),
        talk(config, reads.push(quit)).end == Some(Ok::<(), SessionError>(())),
{
    lemma_commands_differ();
    assert(reads.push(quit).drop_last() =~= reads);
    assert(talk(config, reads.push(quit)).replies =~= talk(config, reads).replies.push(
        "221 Goodbye"@,
    ));
}

/// Once a session has ended, no line that arrives later is answered or changes anything.
pub proof fn nothing_follows_the_end(config: ConfigView, reads: Seq<Read>, later: Seq<Read>)
    requires
        talk(config, reads).end is Some,
    ensures
        talk(config, reads + later) == talk(config, reads),
    decreases later.len(),
{
    if later.len() == 0 {
        assert(reads + later =~= reads);
    } else {
        nothing_follows_the_end(config, reads, later.drop_last());
        assert((reads + later).drop_last() =~= reads + later.drop_last());
    }
}

/// With a configuration that passed its check, a session fails only where an upload has no
/// data channel.
pub proof fn only_a_missing_channel_fails(
    config: ConfigView,
    host: HostFacts,
    absolute: bool,
    reads: Seq<Read>,
)
    requires
        verdict(config, host, absolute) is Ok,
    ensures
        result(talk(config, reads)) matches Err(error) ==> error == SessionError::NoDataChannel,
    decreases reads.len(),
{
    if reads.len() > 0 {
        only_a_missing_channel_fails(config, host, absolute, reads.drop_last());
    }
}

/// Every reply of a session is one line that begins with a three-digit code.
pub proof fn sessions_consist_of_replies(config: ConfigView, reads: Seq<Read>)
    ensures
        forall|i: int|
            0 <= i < talk(config, reads).replies.len() ==> is_reply(
                #[trigger] talk(config, reads).replies[i],
            ),
    decreases reads.len(),
{
    reveal_strlit("220 keyence-collector FTP ready");
    reveal_strlit("150 Opening data connection");
    reveal_strlit("226 Transfer complete");
    if reads.len() > 0 {
        let earlier = talk(config, reads.drop_last());
        let read = reads.last();
        sessions_consist_of_replies(config, reads.drop_last());
        answers_are_replies(earlier.session, config, read.line, read.port);
        let new = answers(earlier.session, config, read);
        assert(forall|i: int| 0 <= i < new.len() ==> is_reply(#[trigger] new[i]));
    }
}

} // verus!
