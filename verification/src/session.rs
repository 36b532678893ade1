//! The FTP server's side of a session: what each command is answered and what it does.

use vstd::prelude::*;
use vstd::string::*;

use crate::config::{Config, ConfigView};
use crate::decimal::{decimal, decimal_of, number, parse_number};
use crate::ipv4::{ipv4, join_octets, octets_joined, parse_ipv4, Ipv4};
use crate::line::{sent, sent_line};
use crate::pipeline::{Input, InputView};
use crate::text::{
    after, before, ends_with, lower, lower_ends_with, same_text, split, split_at_char, split_text,
    trim_end, trimmed_end, upper, upper_is, views,
};

verus! {

/// How long the server waits on a control or a data connection.
pub const IO_TIMEOUT_SECONDS: u64 = 30;

/// How much of an upload is read. What a client sends beyond this is left out.
pub const MAX_UPLOAD_BYTES: u64 = 100 * 1024 * 1024;

/// Sent when a client has connected.
pub const GREETING: &'static str = "220 keyence-collector FTP ready";

/// Sent before the data connection of an upload is used.
pub const TRANSFER_STARTED: &'static str = "150 Opening data connection";

/// Sent when an upload has been handed to the pipeline.
pub const TRANSFER_COMPLETE: &'static str = "226 Transfer complete";

/// Where the data of the next upload comes from.
#[derive(Clone, Copy, Debug, PartialEq, Eq, Structural)]
pub enum DataChannel {
    /// Nowhere yet.
    Closed,
    /// A client that connects to the listener opened for `PASV`.
    Passive,
    /// The address that the client gave with `PORT`.
    Active { ip: Ipv4, port: u16 },
}

/// What the server remembers of a session.
#[derive(Clone, Copy, Debug, PartialEq, Eq, Structural)]
pub struct Session {
    pub authenticated: bool,
    pub channel: DataChannel,
}

/// Why a session ends without an answer.
#[derive(Clone, Copy, Debug, PartialEq, Eq, Structural)]
pub enum SessionError {
    /// `STOR` came before `PASV` or `PORT`.
    NoDataChannel,
    /// The address to announce is not an IPv4 address.
    AdvertiseNotIpv4,
}

impl SessionError {
    /// The error in words.
    pub open spec fn text(self) -> Seq<char> {
        match self {
            SessionError::NoDataChannel => "PASV required before STOR"@,
            SessionError::AdvertiseNotIpv4 => "invalid IPv4 address syntax"@,
        }
    }

    /// The error in words.
    pub fn message(&self) -> (m: String)
        ensures
            m@ == self.text(),
    {
        match self {
            SessionError::NoDataChannel => "PASV required before STOR".to_owned(),
            SessionError::AdvertiseNotIpv4 => "invalid IPv4 address syntax".to_owned(),
        }
    }
}

/// What the server does for a command.
#[derive(Debug)]
pub enum Action {
    /// Sends a reply.
    Reply { text: String },
    /// Opens a listener on `ftp_bind`, then announces its port.
    OpenPassive,
    /// Sends `TRANSFER_STARTED`, reads at most `limit` bytes from `channel`, hands them to
    /// the pipeline under `name`, then sends `TRANSFER_COMPLETE`.
    Receive { channel: DataChannel, name: String, limit: u64 },
    /// Sends a reply and ends the session.
    Quit { text: String },
    /// Ends the session.
    Fail { error: SessionError },
}

/// The contents of an `Action`.
pub enum ActionView {
    Reply { text: Seq<char> },
    OpenPassive,
    Receive { channel: DataChannel, name: Seq<char>, limit: u64 },
    Quit { text: Seq<char> },
    Fail { error: SessionError },
}

impl View for Action {
    type V = ActionView;

    open spec fn view(&self) -> ActionView {
        match self {
            Action::Reply { text } => ActionView::Reply { text: text@ },
            Action::OpenPassive => ActionView::OpenPassive,
            Action::Receive { channel, name, limit } => ActionView::Receive {
                channel: *channel,
                name: name@,
                limit: *limit,
            },
            Action::Quit { text } => ActionView::Quit { text: text@ },
            Action::Fail { error } => ActionView::Fail { error: *error },
        }
    }
}

/// The name of the command in `line`, in upper case.
pub open spec fn command_name(line: Seq<char>) -> Seq<char> {
    upper(before(trim_end(line), ' '))
}

/// The argument of the command in `line`: all that follows the first space.
pub open spec fn command_argument(line: Seq<char>) -> Seq<char> {
    after(trim_end(line), ' ')
}

/// The number up to 255 that `s` denotes.
pub open spec fn byte(s: Seq<char>) -> Option<u8> {
    match number(s) {
        Ok(n) => if n <= 255 {
            Some(n as u8)
        } else {
            None
        },
        Err(_) => None,
    }
}

/// The port that a high and a low byte denote.
pub open spec fn port_of(high: u8, low: u8) -> u16 {
    (high as int * 256 + low as int) as u16
}

/// The address in the argument of `PORT`: six numbers up to 255 with commas between them,
/// the octets of the address, then the two bytes of the port.
pub open spec fn port_argument(argument: Seq<char>) -> Option<(Ipv4, u16)> {
    let parts = split(argument, ',');
    if parts.len() == 6 {
        match (byte(parts[0]), byte(parts[1]), byte(parts[2]), byte(parts[3]), byte(parts[4]), byte(
            parts[5],
        )) {
            (Some(a), Some(b), Some(c), Some(d), Some(high), Some(low)) => Some(
                (Ipv4 { a, b, c, d }, port_of(high, low)),
            ),
            _ => None,
        }
    } else {
        None
    }
}

/// A session in which nobody has logged in.
pub open spec fn fresh() -> Session {
    Session { authenticated: false, channel: DataChannel::Closed }
}

/// The session and the action that follow when `line` is received.
pub open spec fn respond(session: Session, config: ConfigView, line: Seq<char>) -> (
    Session,
    ActionView,
) {
    let name = command_name(line);
    let argument = command_argument(line);
    let authenticated = session.authenticated;
    if name == "USER"@ && argument == config.ftp_user {
        (session, ActionView::Reply { text: "331 Password required"@ })
    } else if name == "PASS"@ && argument == config.ftp_password {
        (
            Session { authenticated: true, channel: session.channel },
            ActionView::Reply { text: "230 Logged in"@ },
        )
    } else if name == "SYST"@ {
        (session, ActionView::Reply { text: "215 UNIX Type: L8"@ })
    } else if name == "TYPE"@ {
        (session, ActionView::Reply { text: "200 Type set"@ })
    } else if name == "PWD"@ {
        (session, ActionView::Reply { text: "257 \"/\" is current directory"@ })
    } else if name == "PASV"@ && authenticated {
        (session, ActionView::OpenPassive)
    } else if name == "PORT"@ && authenticated {
        match port_argument(argument) {
            Some((ip, port)) => (
                Session { authenticated, channel: DataChannel::Active { ip, port } },
                ActionView::Reply { text: "200 Port set"@ },
            ),
            None => (session, ActionView::Reply { text: "501 Invalid port"@ }),
        }
    } else if name == "STOR"@ && authenticated && ends_with(lower(argument), ".bmp"@) {
        if session.channel == DataChannel::Closed {
            (session, ActionView::Fail { error: SessionError::NoDataChannel })
        } else {
            (
                Session { authenticated, channel: DataChannel::Closed },
                ActionView::Receive {
                    channel: session.channel,
                    name: argument,
                    limit: MAX_UPLOAD_BYTES,
                },
            )
        }
    } else if name == "QUIT"@ {
        (session, ActionView::Quit { text: "221 Goodbye"@ })
    } else if !authenticated {
        (session, ActionView::Reply { text: "530 Not logged in"@ })
    } else {
        (session, ActionView::Reply { text: "502 Command not implemented"@ })
    }
}

/// The reply that announces a listener at `ip` and `port`.
pub open spec fn passive_reply(ip: Ipv4, port: u16) -> Seq<char> {
    "227 Entering Passive Mode ("@ + octets_joined(ip, ',') + ","@ + decimal((port / 256) as nat)
        + ","@ + decimal((port % 256) as nat) + ")"@
}

/// The session and the reply that follow when the listener for `PASV` has been opened.
pub open spec fn announce(session: Session, config: ConfigView, port: u16) -> (
    Session,
    Result<Seq<char>, SessionError>,
) {
    match ipv4(config.ftp_advertise) {
        Some(ip) => (
            Session { authenticated: session.authenticated, channel: DataChannel::Passive },
            Ok(passive_reply(ip, port)),
        ),
        None => (session, Err(SessionError::AdvertiseNotIpv4)),
    }
}

fn answer(text: &str) -> (action: Action)
    ensures
        action@ == (ActionView::Reply { text: text@ }),
{
    Action::Reply { text: text.to_owned() }
}

fn parse_byte(s: &str) -> (res: Option<u8>)
    ensures
        res == byte(s@),
{
    match parse_number(s) {
        Ok(n) => if n <= 255 {
            Some(n as u8)
        } else {
            None
        },
        Err(_) => None,
    }
}

fn parse_port_argument(argument: &str) -> (res: Option<(Ipv4, u16)>)
    ensures
        res == port_argument(argument@),
{
    let parts: Vec<&str> = split_text(argument, ',');
    let ghost found = views(parts@);
    if parts.len() != 6 {
        return None;
    }
    assert(forall|i: int| 0 <= i < 6 ==> #[trigger] found[i] == parts[i]@);
    match (
        parse_byte(parts[0]),
        parse_byte(parts[1]),
        parse_byte(parts[2]),
        parse_byte(parts[3]),
        parse_byte(parts[4]),
        parse_byte(parts[5]),
    ) {
        (Some(a), Some(b), Some(c), Some(d), Some(high), Some(low)) => {
            let port: u16 = high as u16 * 256 + low as u16;
            Some((Ipv4 { a, b, c, d }, port))
        },
        _ => None,
    }
}

impl Session {
    /// A session in which nobody has logged in.
    pub fn new() -> (session: Session)
        ensures
            session == fresh(),
    {
        Session { authenticated: false, channel: DataChannel::Closed }
    }

    /// Decides what to do for the command in `line`.
    pub fn handle_command(&mut self, config: &Config, line: &str) -> (action: Action)
        ensures
            (*final(self), action@) == respond(*old(self), config@, line@),
    {
        let (name, rest) = split_at_char(trimmed_end(line), ' ');
        let argument: &str = match rest {
            Some(argument) => argument,
            None => "",
        };
        proof {
            reveal_strlit("");
            assert(argument@ =~= command_argument(line@));
        }
        if upper_is(name, "USER") && same_text(argument, config.ftp_user.as_str()) {
            answer("331 Password required")
        } else if upper_is(name, "PASS") && same_text(argument, config.ftp_password.as_str()) {
            self.authenticated = true;
            answer("230 Logged in")
        } else if upper_is(name, "SYST") {
            answer("215 UNIX Type: L8")
        } else if upper_is(name, "TYPE") {
            answer("200 Type set")
        } else if upper_is(name, "PWD") {
            answer("257 \"/\" is current directory")
        } else if upper_is(name, "PASV") && self.authenticated {
            Action::OpenPassive
        } else if upper_is(name, "PORT") && self.authenticated {
            match parse_port_argument(argument) {
                Some((ip, port)) => {
                    self.channel = DataChannel::Active { ip, port };
                    answer("200 Port set")
                },
                None => answer("501 Invalid port"),
            }
        } else if upper_is(name, "STOR") && self.authenticated && lower_ends_with(argument, ".bmp") {
            let channel: DataChannel = self.channel;
            if channel == DataChannel::Closed {
                Action::Fail { error: SessionError::NoDataChannel }
            } else {
                self.channel = DataChannel::Closed;
                Action::Receive { channel, name: argument.to_owned(), limit: MAX_UPLOAD_BYTES }
            }
        } else if upper_is(name, "QUIT") {
            Action::Quit { text: "221 Goodbye".to_owned() }
        } else if !self.authenticated {
            answer("530 Not logged in")
        } else {
            answer("502 Command not implemented")
        }
    }

    /// Takes up the listener that was opened for `PASV` at `port`: the reply that announces
    /// it, or why there is none.
    pub fn passive_opened(&mut self, config: &Config, port: u16) -> (res: Result<
        String,
        SessionError,
    >)
        ensures
            match res {
                Ok(text) => announce(*old(self), config@, port) == (
                    *final(self),
                    Ok::<Seq<char>, SessionError>(text@),
                ),
                Err(e) => announce(*old(self), config@, port) == (
                    *final(self),
                    Err::<Seq<char>, SessionError>(e),
                ),
            },
    {
        match parse_ipv4(config.ftp_advertise.as_str()) {
            Some(ip) => {
                self.channel = DataChannel::Passive;
                proof {
                    reveal_strlit(",");
                }
                let mut text: String = "227 Entering Passive Mode (".to_owned();
                text.append(join_octets(ip, ",").as_str());
                text.append(",");
                text.append(decimal_of((port / 256) as usize).as_str());
                text.append(",");
                text.append(decimal_of((port % 256) as usize).as_str());
                text.append(")");
                assert(text@ =~= passive_reply(ip, port));
                Ok(text)
            },
            None => Err(SessionError::AdvertiseNotIpv4),
        }
    }
}

/// The first `limit` bytes of `data`.
pub open spec fn within_limit(data: Seq<u8>, limit: u64) -> Seq<u8> {
    if data.len() <= limit {
        data
    } else {
        data.take(limit as int)
    }
}

/// What the pipeline is handed for an upload: the data within the limit, and the file name
/// that came with `STOR`.
pub fn upload_received(name: String, data: Vec<u8>) -> (input: Input)
    ensures
        input@ == (InputView { data: within_limit(data@, MAX_UPLOAD_BYTES), name: name@ }),
        data@.len() <= 104857600 ==> input@.data == data@,
        data@.len() > 104857600 ==> input@.data.len() == 104857600,
        data@.len() > 104857600 ==> forall|i: int|
            0 <= i < 104857600 ==> #[trigger] input@.data[i] == data@[i],
{
    let mut data: Vec<u8> = data;
    if data.len() as u64 > MAX_UPLOAD_BYTES {
        data.truncate(MAX_UPLOAD_BYTES as usize);
    }
    Input::Bmp { data, name }
}

/// A reply as it is sent on the control connection.
pub fn reply(message: &str) -> (bytes: Vec<u8>)
    ensures
        bytes@ == sent(message@),
{
    sent_line(message)
}

} // verus!
