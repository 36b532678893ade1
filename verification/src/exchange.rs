//! The validation client and the FTP server against each other.

use vstd::prelude::*;
use vstd::string::*;
use vstd::utf8::*;

use crate::config::{from_read, verdict, ConfigView, Fault, HostFacts};
use crate::config_laws::settings_are_plain;
use crate::decimal::{decimal, decimal_is_read_back, lemma_decimal, number, NumberError};
use crate::frame::{first_frame, MAX_PAYLOAD};
use crate::ipv4::{address_has_one_notation, ipv4, lemma_digits_lack, octets_joined, Ipv4};
use crate::line::{first_line, sent, sent_line_is_read_back};
use crate::pipeline::{has_bmp_signature, message, processed, BmpError, InputView};
use crate::pipeline_laws::message_is_read_back;
use crate::session::{
    announce, byte, command_argument, command_name, fresh, passive_reply, port_argument, respond,
    within_limit, ActionView, DataChannel, Session, GREETING, MAX_UPLOAD_BYTES,
    TRANSFER_COMPLETE, TRANSFER_STARTED,
};
use crate::session_laws::lemma_commands_differ;
use crate::text::{
    before, is_white_space, lemma_lacks_between, lemma_split_joined, lemma_split_single, lemma_trim,
    lemma_trim_push, lower, split, starts_with, trim_end, upper,
};
use crate::validator::{
    advance, confirmed, numbers, pasv_address, pasv_port_fits, pasv_values, replied, socket_address,
    success_text, test_image, ClientActionView, ClientFault, PasvError, Stage,
};

verus! {

/// The validation client reads out of the reply to `PASV` the address and the port that the
/// server announced.
pub proof fn announced_address_is_read_back(ip: Ipv4, port: u16, rest: Seq<char>)
    ensures
        pasv_port_fits(passive_reply(ip, port) + rest),
        pasv_address(passive_reply(ip, port) + rest) == Ok::<Seq<char>, PasvError>(
            socket_address(ip, port as nat),
        ),
{
    let reply = passive_reply(ip, port) + rest;
    let inner = six_joined(ip, port);
    lemma_reply_shape(ip, port, rest);
    lemma_split_joined("227 Entering Passive Mode "@, '(', inner.push(')') + rest);
    lemma_six_joined(ip, port);
    lemma_split_joined(inner, ')', rest);
    lemma_six_numbers(six_parts(ip, port), six_values(ip, port));
    assert(pasv_values(reply) == Ok::<Seq<u16>, PasvError>(six_values(ip, port)));
}

/// The server takes up from `PORT` the address and the port that the client wrote.
pub proof fn port_argument_is_read_back(ip: Ipv4, port: u16)
    ensures
        port_argument(
            octets_joined(ip, ',') + ","@ + decimal((port / 256) as nat) + ","@ + decimal(
                (port % 256) as nat,
            ),
        ) == Some((ip, port)),
{
    reveal_strlit(",");
    lemma_six_joined(ip, port);
    assert(six_joined(ip, port) =~= octets_joined(ip, ',') + ","@ + decimal((port / 256) as nat)
        + ","@ + decimal((port % 256) as nat));
    let parts = six_parts(ip, port);
    assert(byte(parts[0]) == Some(ip.a) && byte(parts[1]) == Some(ip.b));
    assert(byte(parts[2]) == Some(ip.c) && byte(parts[3]) == Some(ip.d));
    assert(byte(parts[4]) == Some((port / 256) as u8) && byte(parts[5]) == Some((port % 256) as u8));
}

/// A reply that the server sends is what the client reads, whatever the server sends after
/// it.
pub proof fn reply_is_read_back(message: Seq<char>, rest: Seq<char>)
    requires
        !message.contains('\n'),
    ensures
        replied(first_line(decode_utf8(sent(message) + encode_utf8(rest)))) == Ok::<
            Seq<char>,
            ClientFault,
        >(message.push('\n')),
{
    sent_line_is_read_back(message, rest);
}

spec fn six_values(ip: Ipv4, port: u16) -> Seq<u16> {
    seq![ip.a as u16, ip.b as u16, ip.c as u16, ip.d as u16, port / 256, port % 256]
}

spec fn six_parts(ip: Ipv4, port: u16) -> Seq<Seq<char>> {
    seq![
        decimal(ip.a as nat),
        decimal(ip.b as nat),
        decimal(ip.c as nat),
        decimal(ip.d as nat),
        decimal((port / 256) as nat),
        decimal((port % 256) as nat),
    ]
}

/// What stands between the parentheses of the reply to `PASV`.
spec fn six_joined(ip: Ipv4, port: u16) -> Seq<char> {
    decimal(ip.a as nat).push(',') + (decimal(ip.b as nat).push(',') + (decimal(ip.c as nat).push(
        ',',
    ) + (decimal(ip.d as nat).push(',') + (decimal((port / 256) as nat).push(',') + decimal(
        (port % 256) as nat,
    )))))
}

proof fn lemma_reply_shape(ip: Ipv4, port: u16, rest: Seq<char>)
    ensures
        passive_reply(ip, port) + rest == "227 Entering Passive Mode "@.push('(') + (six_joined(
            ip,
            port,
        ).push(')') + rest),
        !"227 Entering Passive Mode "@.contains('('),
{
    reveal_strlit("227 Entering Passive Mode (");
    reveal_strlit("227 Entering Passive Mode ");
    reveal_strlit(",");
    reveal_strlit(")");
    let intro = "227 Entering Passive Mode "@;
    assert("227 Entering Passive Mode ("@ =~= intro.push('('));
    let octets = octets_joined(ip, ',');
    let high = decimal((port / 256) as nat);
    let low = decimal((port % 256) as nat);
    assert(six_joined(ip, port) =~= octets + ","@ + high + ","@ + low);
    assert(passive_reply(ip, port) + rest =~= intro.push('(') + ((octets + ","@ + high + ","@
        + low).push(')') + rest));
}

proof fn lemma_six_joined(ip: Ipv4, port: u16)
    ensures
        !six_joined(ip, port).contains(')'),
        split(six_joined(ip, port), ',') == six_parts(ip, port),
        forall|i: int|
            0 <= i < 6 ==> number(#[trigger] six_parts(ip, port)[i]) == Ok::<u16, NumberError>(
                six_values(ip, port)[i],
            ),
{
    lemma_part(ip.a as u16);
    lemma_part(ip.b as u16);
    lemma_part(ip.c as u16);
    lemma_part(ip.d as u16);
    lemma_part(port / 256);
    lemma_part(port % 256);
    lemma_six_split(
        decimal(ip.a as nat),
        decimal(ip.b as nat),
        decimal(ip.c as nat),
        decimal(ip.d as nat),
        decimal((port / 256) as nat),
        decimal((port % 256) as nat),
    );
}

/// Six parts with commas between them are split into what they were.
proof fn lemma_six_split(
    a: Seq<char>,
    b: Seq<char>,
    c: Seq<char>,
    d: Seq<char>,
    e: Seq<char>,
    f: Seq<char>,
)
    requires
        !a.contains(',') && !a.contains(')'),
        !b.contains(',') && !b.contains(')'),
        !c.contains(',') && !c.contains(')'),
        !d.contains(',') && !d.contains(')'),
        !e.contains(',') && !e.contains(')'),
        !f.contains(',') && !f.contains(')'),
    ensures
        ({
            let s = a.push(',') + (b.push(',') + (c.push(',') + (d.push(',') + (e.push(',') + f))));
            !s.contains(')') && split(s, ',') == seq![a, b, c, d, e, f]
        }),
{
    let s5 = e.push(',') + f;
    let s4 = d.push(',') + s5;
    let s3 = c.push(',') + s4;
    let s2 = b.push(',') + s3;
    lemma_split_single(f, ',');
    lemma_first_part(e, f);
    lemma_first_part(d, s5);
    lemma_first_part(c, s4);
    lemma_first_part(b, s3);
    lemma_first_part(a, s2);
    assert(seq![a] + (seq![b] + (seq![c] + (seq![d] + (seq![e] + seq![f])))) =~= seq![
        a,
        b,
        c,
        d,
        e,
        f,
    ]);
}

/// A part that is put before others with a comma is the first of the parts.
proof fn lemma_first_part(part: Seq<char>, rest: Seq<char>)
    requires
        !part.contains(',') && !part.contains(')'),
        !rest.contains(')'),
    ensures
        !(part.push(',') + rest).contains(')'),
        split(part.push(',') + rest, ',') == seq![part] + split(rest, ','),
{
    lemma_lacks_between(part, ',', rest, ')');
    lemma_split_joined(part, ',', rest);
}

/// A number in decimal notation holds no separator and is read back.
proof fn lemma_part(n: u16)
    ensures
        !decimal(n as nat).contains(','),
        !decimal(n as nat).contains(')'),
        number(decimal(n as nat)) == Ok::<u16, NumberError>(n),
{
    lemma_decimal(n as nat);
    lemma_digits_lack(decimal(n as nat), ',');
    lemma_digits_lack(decimal(n as nat), ')');
    decimal_is_read_back(n);
}

proof fn lemma_six_numbers(parts: Seq<Seq<char>>, values: Seq<u16>)
    requires
        parts.len() == 6,
        values.len() == 6,
        forall|i: int|
            0 <= i < 6 ==> number(#[trigger] parts[i]) == Ok::<u16, NumberError>(
                values[i],
            ),
    ensures
        numbers(parts) == Ok::<Seq<u16>, NumberError>(values),
{
    lemma_numbers_prefix(parts, values, 6);
    assert(parts.take(6) =~= parts);
    assert(values.take(6) =~= values);
}

proof fn lemma_numbers_prefix(parts: Seq<Seq<char>>, values: Seq<u16>, n: int)
    requires
        0 <= n <= parts.len(),
        parts.len() == values.len(),
        forall|i: int|
            0 <= i < parts.len() ==> number(#[trigger] parts[i]) == Ok::<
                u16,
                NumberError,
            >(values[i]),
    ensures
        numbers(parts.take(n)) == Ok::<Seq<u16>, NumberError>(values.take(n)),
    decreases n,
{
    if n == 0 {
        assert(values.take(0) =~= Seq::<u16>::empty());
    } else {
        lemma_numbers_prefix(parts, values, n - 1);
        assert(parts.take(n).drop_last() =~= parts.take(n - 1));
        assert(parts.take(n).last() == parts[n - 1]);
        assert(values.take(n) =~= values.take(n - 1).push(values[n - 1]));
    }
}

/// How far the client and the server have come with each other.
pub struct Exchange {
    pub stage: Stage,
    pub session: Session,
    /// The line that the client reads next.
    pub reply: Seq<char>,
    /// Where the client has opened the data connection to.
    pub connected_to: Seq<char>,
    /// The file name under which the server receives the upload.
    pub name: Seq<char>,
    /// What has been sent over the data connection.
    pub uploaded: Seq<u8>,
}

/// The exchange after the client has sent `command`. The listener that the server opens for
/// `PASV` is at `port`. There is none where the server ends the session without an answer.
pub open spec fn answered(exchange: Exchange, config: ConfigView, port: u16, command: Seq<char>) -> Option<
    Exchange,
> {
    let (session, action) = respond(exchange.session, config, command.push('\n'));
    match action {
        ActionView::Reply { text } => Some(
            Exchange { session, reply: text.push('\n'), ..exchange },
        ),
        ActionView::OpenPassive => match announce(session, config, port) {
            (session, Ok(text)) => Some(Exchange { session, reply: text.push('\n'), ..exchange }),
            (_, Err(_)) => None,
        },
        ActionView::Receive { name, .. } => Some(
            Exchange { session, reply: TRANSFER_STARTED@.push('\n'), name, ..exchange },
        ),
        ActionView::Quit { text } => Some(Exchange { session, reply: text.push('\n'), ..exchange }),
        ActionView::Fail { .. } => None,
    }
}

/// The exchange after the client has read the reply that it waits for. There is none where
/// the client gives up or the server ends the session without an answer.
pub open spec fn continued(exchange: Exchange, config: ConfigView, port: u16) -> Option<Exchange> {
    match advance(exchange.stage, config.ftp_user, config.ftp_password, exchange.reply) {
        Err(_) => None,
        Ok((stage, action)) => match action {
            ClientActionView::Send { command } => answered(
                Exchange { stage, ..exchange },
                config,
                port,
                command,
            ),
            ClientActionView::Connect { address, command } => answered(
                Exchange { stage, connected_to: address, ..exchange },
                config,
                port,
                command,
            ),
            ClientActionView::Transfer { data } => Some(
                Exchange {
                    stage,
                    uploaded: data,
                    reply: TRANSFER_COMPLETE@.push('\n'),
                    ..exchange
                },
            ),
            ClientActionView::Finish { command } => answered(
                Exchange { stage, ..exchange },
                config,
                port,
                command,
            ),
        },
    }
}

/// The exchange after `replies` replies.
pub open spec fn exchange(config: ConfigView, port: u16, replies: nat) -> Option<Exchange>
    decreases replies,
{
    if replies == 0 {
        Some(
            Exchange {
                stage: Stage::Connected,
                session: fresh(),
                reply: GREETING@.push('\n'),
                connected_to: Seq::empty(),
                name: Seq::empty(),
                uploaded: Seq::empty(),
            },
        )
    } else {
        match exchange(config, port, (replies - 1) as nat) {
            Some(exchange) => continued(exchange, config, port),
            None => None,
        }
    }
}

/// A validation of a collector that runs with the same configuration succeeds: with every
/// configuration that was read from a file and passed its check, the client and the server
/// get to the end of the upload, over the address that `ftp_advertise` gives.
pub proof fn validation_succeeds(
    path: Seq<char>,
    text: Seq<char>,
    config: ConfigView,
    host: HostFacts,
    absolute: bool,
    port: u16,
)
    requires
        from_read(path, Ok(text)) == Ok::<ConfigView, Fault>(config),
        verdict(config, host, absolute) is Ok,
    ensures
        exchange(config, port, 6) matches Some(end) && {
            &&& end.stage == Stage::Finished
            &&& end.connected_to == config.ftp_advertise + ":"@ + decimal(port as nat)
            &&& end.name == "validator.bmp"@
            &&& end.uploaded == test_image()
            &&& has_bmp_signature(end.uploaded)
        },
{
    settings_are_plain(path, Ok(text));
    lemma_trim(config.ftp_user);
    lemma_trim(config.ftp_password);
    let ip = ipv4(config.ftp_advertise).unwrap();
    address_has_one_notation(config.ftp_advertise, ip);
    let user = config.ftp_user;
    let password = config.ftp_password;
    let none = Seq::<char>::empty();
    let idle = fresh();
    let open = Session { authenticated: true, channel: DataChannel::Closed };
    let ready = Session { authenticated: true, channel: DataChannel::Passive };
    let address = config.ftp_advertise + ":"@ + decimal(port as nat);
    let x0 = Exchange {
        stage: Stage::Connected,
        session: idle,
        reply: GREETING@.push('\n'),
        connected_to: none,
        name: none,
        uploaded: Seq::empty(),
    };
    let x1 = Exchange {
        stage: Stage::UserSent,
        reply: "331 Password required"@.push('\n'),
        ..x0
    };
    let x2 = Exchange {
        stage: Stage::PasswordSent,
        session: open,
        reply: "230 Logged in"@.push('\n'),
        ..x1
    };
    let x3 = Exchange {
        stage: Stage::PasvSent,
        session: ready,
        reply: passive_reply(ip, port).push('\n'),
        ..x2
    };
    let x4 = Exchange {
        stage: Stage::StorSent,
        session: open,
        reply: TRANSFER_STARTED@.push('\n'),
        connected_to: address,
        name: "validator.bmp"@,
        ..x3
    };
    let x5 = Exchange {
        stage: Stage::DataSent,
        reply: TRANSFER_COMPLETE@.push('\n'),
        uploaded: test_image(),
        ..x4
    };
    lemma_codes();
    lemma_user(idle, config);
    lemma_password(idle, config);
    lemma_pasv(open, config);
    lemma_stor(ready, config);
    lemma_quit(open, config);
    announced_address_is_read_back(ip, port, seq!['\n']);
    assert(passive_reply(ip, port) + seq!['\n'] =~= passive_reply(ip, port).push('\n'));
    assert(exchange(config, port, 0) == Some(x0));
    assert(continued(x0, config, port) == Some(x1));
    assert(exchange(config, port, 1) == Some(x1));
    assert(continued(x1, config, port) == Some(x2));
    assert(exchange(config, port, 2) == Some(x2));
    assert(continued(x2, config, port) == Some(x3));
    assert(exchange(config, port, 3) == Some(x3));
    assert(continued(x3, config, port) == Some(x4));
    assert(exchange(config, port, 4) == Some(x4));
    assert(continued(x4, config, port) == Some(x5));
    assert(exchange(config, port, 5) == Some(x5));
    assert(continued(x5, config, port) is Some);
}

/// An image that the collector forwards is confirmed: the client takes the image and the file
/// name out of the message for the parent process, and shows both.
pub proof fn delivery_is_confirmed(input: InputView)
    requires
        has_bmp_signature(input.data),
        input.data.len() <= MAX_PAYLOAD,
        encode_utf8(input.name).len() <= MAX_PAYLOAD,
    ensures
        confirmed_message(message(input)) == Some(
            Ok::<Seq<char>, ClientFault>(success_text(input.data, input.name)),
        ),
{
    message_is_read_back(input);
    encode_utf8_valid_utf8(input.name);
}

/// What comes of the message that the client receives in place of the parent process, where
/// it holds two frames.
pub open spec fn confirmed_message(bytes: Seq<u8>) -> Option<Result<Seq<char>, ClientFault>> {
    match first_frame(bytes) {
        Ok(Some((bmp, taken))) => match first_frame(bytes.skip(taken as int)) {
            Ok(Some((name, _))) => Some(confirmed(bmp, name)),
            _ => None,
        },
        _ => None,
    }
}

/// The whole way is confirmed: with every configuration that was read from a file and passed
/// its check, what the client has uploaded comes back to it in the message for the parent
/// process, and the client shows that all is well.
pub proof fn validation_is_confirmed(
    path: Seq<char>,
    text: Seq<char>,
    config: ConfigView,
    host: HostFacts,
    absolute: bool,
    port: u16,
)
    requires
        from_read(path, Ok(text)) == Ok::<ConfigView, Fault>(config),
        verdict(config, host, absolute) is Ok,
    ensures
        exchange(config, port, 6) matches Some(end) && {
            let input = InputView {
                data: within_limit(end.uploaded, MAX_UPLOAD_BYTES),
                name: end.name,
            };
            &&& processed(input) == Ok::<Seq<u8>, BmpError>(message(input))
            &&& confirmed_message(message(input)) == Some(
                Ok::<Seq<char>, ClientFault>(success_text(test_image(), "validator.bmp"@)),
            )
        },
{
    validation_succeeds(path, text, config, host, absolute, port);
    let input = InputView { data: test_image(), name: "validator.bmp"@ };
    reveal_strlit("validator.bmp");
    is_ascii_chars_encode_utf8("validator.bmp"@);
    delivery_is_confirmed(input);
}

/// The server's replies begin with the codes that the client expects.
proof fn lemma_codes()
    ensures
        starts_with(GREETING@.push('\n'), "220"@),
        starts_with("331 Password required"@.push('\n'), "331"@),
        starts_with("230 Logged in"@.push('\n'), "230"@),
        starts_with(TRANSFER_STARTED@.push('\n'), "150"@),
        starts_with(TRANSFER_COMPLETE@.push('\n'), "226"@),
{
    reveal_strlit("220");
    reveal_strlit("220 keyence-collector FTP ready");
    assert(GREETING@.push('\n').take(3) =~= "220"@);
    reveal_strlit("331");
    reveal_strlit("331 Password required");
    assert("331 Password required"@.push('\n').take(3) =~= "331"@);
    reveal_strlit("230");
    reveal_strlit("230 Logged in");
    assert("230 Logged in"@.push('\n').take(3) =~= "230"@);
    reveal_strlit("150");
    reveal_strlit("150 Opening data connection");
    assert(TRANSFER_STARTED@.push('\n').take(3) =~= "150"@);
    reveal_strlit("226");
    reveal_strlit("226 Transfer complete");
    assert(TRANSFER_COMPLETE@.push('\n').take(3) =~= "226"@);
}

/// A command with an argument, as it is sent, is split into what it was.
proof fn lemma_command(word: Seq<char>, argument: Seq<char>)
    requires
        !word.contains(' '),
        upper(word) == word,
        argument.len() > 0,
        !is_white_space(argument.last()),
    ensures
        command_name((word.push(' ') + argument).push('\n')) == word,
        command_argument((word.push(' ') + argument).push('\n')) == argument,
{
    let line = word.push(' ') + argument;
    lemma_trim_push(line, '\n');
    assert(line.last() == argument.last());
    assert(trim_end(line) == line);
    lemma_split_joined(word, ' ', argument);
}

/// A command without an argument, as it is sent, is its own name.
proof fn lemma_bare_command(word: Seq<char>)
    requires
        !word.contains(' '),
        upper(word) == word,
        word.len() > 0,
        !is_white_space(word.last()),
    ensures
        command_name(word.push('\n')) == word,
{
    lemma_trim_push(word, '\n');
    assert(trim_end(word) == word);
    lemma_split_single(word, ' ');
    assert(before(word, ' ') =~= word);
}

proof fn lemma_user(session: Session, config: ConfigView)
    requires
        config.ftp_user.len() > 0,
        !is_white_space(config.ftp_user.last()),
    ensures
        respond(session, config, ("USER "@ + config.ftp_user).push('\n')) == (
            session,
            ActionView::Reply { text: "331 Password required"@ },
        ),
{
    reveal_strlit("USER");
    reveal_strlit("USER ");
    assert("USER "@ =~= "USER"@.push(' '));
    assert(upper("USER"@) =~= "USER"@);
    lemma_command("USER"@, config.ftp_user);
}

proof fn lemma_password(session: Session, config: ConfigView)
    requires
        config.ftp_password.len() > 0,
        !is_white_space(config.ftp_password.last()),
    ensures
        respond(session, config, ("PASS "@ + config.ftp_password).push('\n')) == (
            Session { authenticated: true, channel: session.channel },
            ActionView::Reply { text: "230 Logged in"@ },
        ),
{
    reveal_strlit("PASS ");
    lemma_commands_differ();
    reveal_strlit("PASS");
    assert("PASS "@ =~= "PASS"@.push(' '));
    assert(upper("PASS"@) =~= "PASS"@);
    lemma_command("PASS"@, config.ftp_password);
}

proof fn lemma_pasv(session: Session, config: ConfigView)
    requires
        session.authenticated,
    ensures
        respond(session, config, "PASV"@.push('\n')) == (session, ActionView::OpenPassive),
{
    lemma_commands_differ();
    reveal_strlit("PASV");
    assert(upper("PASV"@) =~= "PASV"@);
    lemma_bare_command("PASV"@);
}

proof fn lemma_stor(session: Session, config: ConfigView)
    requires
        session.authenticated,
        session.channel != DataChannel::Closed,
    ensures
        respond(session, config, "STOR validator.bmp"@.push('\n')) == (
            Session { authenticated: true, channel: DataChannel::Closed },
            ActionView::Receive {
                channel: session.channel,
                name: "validator.bmp"@,
                limit: MAX_UPLOAD_BYTES,
            },
        ),
{
    reveal_strlit("STOR validator.bmp");
    reveal_strlit("validator.bmp");
    reveal_strlit(".bmp");
    lemma_commands_differ();
    reveal_strlit("STOR");
    assert("STOR validator.bmp"@ =~= "STOR"@.push(' ') + "validator.bmp"@);
    assert(upper("STOR"@) =~= "STOR"@);
    assert(lower("validator.bmp"@) =~= "validator.bmp"@);
    assert("validator.bmp"@.skip(9) =~= ".bmp"@);
    lemma_command("STOR"@, "validator.bmp"@);
}

proof fn lemma_quit(session: Session, config: ConfigView)
    ensures
        respond(session, config, "QUIT"@.push('\n')) == (
            session,
            ActionView::Quit { text: "221 Goodbye"@ },
        ),
{
    lemma_commands_differ();
    reveal_strlit("QUIT");
    assert(upper("QUIT"@) =~= "QUIT"@);
    lemma_bare_command("QUIT"@);
}

} // verus!
