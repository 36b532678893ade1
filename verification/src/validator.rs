//! The validation client: it uploads a small image over FTP and checks what the parent
//! process receives.

use vstd::prelude::*;
use vstd::string::*;
use vstd::utf8::*;

use crate::config::Config;
use crate::decimal::{decimal, decimal_of, number, parse_number, NumberError};
use crate::ipv4::{dotted, join_octets, Ipv4};
use crate::line::{sent, sent_line};
use crate::pipeline::{has_bmp_signature, validate_bmp};
use crate::text::{
    after, before, begins_with, find, lemma_find, same_text, split, split_at_char, split_text,
    starts_with, views,
};

verus! {

/// The host at which the FTP server is reached: the announced one where the server listens
/// on every address.
pub open spec fn connect_host(bind: Seq<char>, advertise: Seq<char>) -> Seq<char> {
    if bind == "0.0.0.0"@ || bind == "::"@ {
        advertise
    } else {
        bind
    }
}

/// The host at which the FTP server is reached.
pub fn ftp_connect_host<'a>(bind: &'a str, advertise: &'a str) -> (host: &'a str)
    ensures
        host@ == connect_host(bind@, advertise@),
{
    if same_text(bind, "0.0.0.0") || same_text(bind, "::") {
        advertise
    } else {
        bind
    }
}

/// The address, host and port, at which the FTP server is reached.
pub fn ftp_address(config: &Config) -> (address: String)
    ensures
        address@ == connect_host(config@.ftp_bind, config@.ftp_advertise) + ":"@ + decimal(
            config@.ftp_port as nat,
        ),
{
    let mut address: String = ftp_connect_host(
        config.ftp_bind.as_str(),
        config.ftp_advertise.as_str(),
    ).to_owned();
    address.append(":");
    address.append(decimal_of(config.ftp_port as usize).as_str());
    address
}

/// The image that is uploaded: the BMP signature, then zeros.
pub open spec fn test_image() -> Seq<u8> {
    seq![0x42u8, 0x4du8] + Seq::new(52, |i: int| 0u8)
}

/// The image that is uploaded.
pub fn test_bmp() -> (bmp: Vec<u8>)
    ensures
        bmp@ == test_image(),
{
    let mut bmp: Vec<u8> = vec![0u8; 54];
    bmp[0] = 0x42;
    bmp[1] = 0x4d;
    assert(bmp@ =~= test_image());
    bmp
}

/// Why a reply to `PASV` is refused.
#[derive(Clone, Copy, Debug, PartialEq, Eq, Structural)]
pub enum PasvError {
    NoAddress,
    NoClosingParenthesis,
    NotANumber { cause: NumberError },
    InvalidFormat,
}

impl PasvError {
    /// The error in words.
    pub open spec fn text(self) -> Seq<char> {
        match self {
            PasvError::NoAddress => "FTP PASV odpověď nemá adresu"@,
            PasvError::NoClosingParenthesis => "FTP PASV odpověď nemá uzavírací závorku"@,
            PasvError::NotANumber { cause } => cause.text(),
            PasvError::InvalidFormat => "FTP PASV odpověď má neplatný formát"@,
        }
    }

    /// The error in words.
    pub fn message(&self) -> (m: String)
        ensures
            m@ == self.text(),
    {
        match self {
            PasvError::NoAddress => "FTP PASV odpověď nemá adresu".to_owned(),
            PasvError::NoClosingParenthesis => {
                "FTP PASV odpověď nemá uzavírací závorku".to_owned()
            },
            PasvError::NotANumber { cause } => cause.message(),
            PasvError::InvalidFormat => "FTP PASV odpověď má neplatný formát".to_owned(),
        }
    }
}

/// The numbers that `parts` denote, or the error of the first part that is no number.
pub open spec fn numbers(parts: Seq<Seq<char>>) -> Result<Seq<u16>, NumberError>
    decreases parts.len(),
{
    if parts.len() == 0 {
        Ok(Seq::empty())
    } else {
        match numbers(parts.drop_last()) {
            Ok(earlier) => match number(parts.last()) {
                Ok(n) => Ok(earlier.push(n)),
                Err(cause) => Err(cause),
            },
            Err(cause) => Err(cause),
        }
    }
}

/// The six numbers between the first parentheses of a reply to `PASV`: four octets up to
/// 255, then the two parts of the port.
pub open spec fn pasv_values(reply: Seq<char>) -> Result<Seq<u16>, PasvError> {
    let body = after(reply, '(');
    if find(reply, '(') == reply.len() {
        Err(PasvError::NoAddress)
    } else if find(body, ')') == body.len() {
        Err(PasvError::NoClosingParenthesis)
    } else {
        match numbers(split(before(body, ')'), ',')) {
            Err(cause) => Err(PasvError::NotANumber { cause }),
            Ok(values) => if values.len() == 6 && values[0] <= 255 && values[1] <= 255 && values[2]
                <= 255 && values[3] <= 255 {
                Ok(values)
            } else {
                Err(PasvError::InvalidFormat)
            },
        }
    }
}

/// Tells that the port in a reply to `PASV`, where the reply has one, is at most 65535.
pub open spec fn pasv_port_fits(reply: Seq<char>) -> bool {
    pasv_values(reply) matches Ok(values) ==> values[4] as int * 256 + values[5] as int <= 65535
}

/// `ip` and `port` as text.
pub open spec fn socket_address(ip: Ipv4, port: nat) -> Seq<char> {
    dotted(ip) + ":"@ + decimal(port)
}

/// The address in a reply to `PASV`.
pub open spec fn pasv_address(reply: Seq<char>) -> Result<Seq<char>, PasvError> {
    match pasv_values(reply) {
        Ok(values) => {
            let ip = Ipv4 {
                a: values[0] as u8,
                b: values[1] as u8,
                c: values[2] as u8,
                d: values[3] as u8,
            };
            Ok(socket_address(ip, (values[4] as int * 256 + values[5] as int) as nat))
        },
        Err(e) => Err(e),
    }
}

proof fn lemma_numbers(parts: Seq<Seq<char>>, n: int)
    requires
        0 <= n <= parts.len(),
    ensures
        numbers(parts.take(n)) is Err ==> numbers(parts) == numbers(parts.take(n)),
        numbers(parts) matches Ok(values) ==> values.len() == parts.len(),
    decreases parts.len(),
{
    if parts.len() > 0 {
        lemma_numbers(parts.drop_last(), if n < parts.len() {
            n
        } else {
            n - 1
        });
        if n < parts.len() {
            assert(parts.drop_last().take(n) =~= parts.take(n));
        }
    }
    if n == parts.len() {
        assert(parts.take(n) =~= parts);
    }
}

fn parse_numbers(s: &str) -> (res: Result<Vec<u16>, NumberError>)
    ensures
        match res {
            Ok(values) => numbers(split(s@, ',')) == Ok::<Seq<u16>, NumberError>(values@),
            Err(cause) => numbers(split(s@, ',')) == Err::<Seq<u16>, NumberError>(cause),
        },
{
    let parts: Vec<&str> = split_text(s, ',');
    let ghost all = views(parts@);
    let mut values: Vec<u16> = Vec::new();
    assert(all.take(0) =~= Seq::<Seq<char>>::empty());
    for i in 0..parts.len()
        invariant
            all == views(parts@),
            all == split(s@, ','),
            numbers(all.take(i as int)) == Ok::<Seq<u16>, NumberError>(values@),
    {
        assert(all.take(i + 1).drop_last() =~= all.take(i as int));
        assert(all.take(i + 1).last() == parts[i as int]@);
        match parse_number(parts[i]) {
            Ok(n) => values.push(n),
            Err(cause) => {
                proof {
                    lemma_numbers(all, i + 1);
                }
                return Err(cause);
            },
        }
    }
    assert(all.take(all.len() as int) =~= all);
    Ok(values)
}

fn parse_pasv_values(reply: &str) -> (res: Result<Vec<u16>, PasvError>)
    ensures
        match res {
            Ok(values) => pasv_values(reply@) == Ok::<Seq<u16>, PasvError>(values@),
            Err(e) => pasv_values(reply@) == Err::<Seq<u16>, PasvError>(e),
        },
{
    proof {
        lemma_find(reply@, '(');
        lemma_find(after(reply@, '('), ')');
    }
    let (_, body) = split_at_char(reply, '(');
    let body: &str = match body {
        Some(body) => body,
        None => return Err(PasvError::NoAddress),
    };
    let (inner, rest) = split_at_char(body, ')');
    if rest.is_none() {
        return Err(PasvError::NoClosingParenthesis);
    }
    match parse_numbers(inner) {
        Err(cause) => Err(PasvError::NotANumber { cause }),
        Ok(values) => if values.len() != 6 || values[0] > 255 || values[1] > 255 || values[2] > 255
            || values[3] > 255 {
            Err(PasvError::InvalidFormat)
        } else {
            Ok(values)
        },
    }
}

/// Tells whether the port in a reply to `PASV`, where the reply has one, is at most 65535.
pub fn pasv_port_in_range(reply: &str) -> (fits: bool)
    ensures
        fits == pasv_port_fits(reply@),
{
    match parse_pasv_values(reply) {
        Ok(values) => values[4] as u32 * 256 + values[5] as u32 <= 65535,
        Err(_) => true,
    }
}

/// The address, host and port, in a reply to `PASV`.
pub fn parse_pasv_address(reply: &str) -> (res: Result<String, PasvError>)
    requires
        pasv_port_fits(reply@),
    ensures
        match res {
            Ok(address) => pasv_address(reply@) == Ok::<Seq<char>, PasvError>(address@),
            Err(e) => pasv_address(reply@) == Err::<Seq<char>, PasvError>(e),
        },
{
    match parse_pasv_values(reply) {
        Ok(values) => {
            let port: u16 = values[4] * 256 + values[5];
            let ip: Ipv4 = Ipv4 {
                a: values[0] as u8,
                b: values[1] as u8,
                c: values[2] as u8,
                d: values[3] as u8,
            };
            proof {
                reveal_strlit(".");
            }
            let mut address: String = join_octets(ip, ".");
            address.append(":");
            address.append(decimal_of(port as usize).as_str());
            Ok(address)
        },
        Err(e) => Err(e),
    }
}

/// How far an upload has come: what the next reply answers.
#[derive(Clone, Copy, Debug, PartialEq, Eq, Structural)]
pub enum Stage {
    Connected,
    UserSent,
    PasswordSent,
    PasvSent,
    StorSent,
    DataSent,
    Finished,
}

/// Why a validation fails.
#[derive(Debug)]
pub enum ClientError {
    /// The server closed the connection instead of replying.
    NoReply,
    /// The reply does not begin with the expected code.
    Unexpected { reply: String, expected: String },
    /// The reply to `PASV` holds no address.
    Pasv { cause: PasvError },
    /// The file name that the parent process received is not UTF-8.
    NameNotUtf8,
    /// The parent process received something else than a BMP image.
    InvalidPayload,
}

/// The contents of a `ClientError`.
pub enum ClientFault {
    NoReply,
    Unexpected { reply: Seq<char>, expected: Seq<char> },
    Pasv { cause: PasvError },
    NameNotUtf8,
    InvalidPayload,
}

impl ClientFault {
    /// The error in words.
    pub open spec fn text(self) -> Seq<char> {
        match self {
            ClientFault::NoReply => "FTP server ukončil spojení bez odpovědi"@,
            ClientFault::Unexpected { reply, expected } => "FTP odpověď '"@ + reply
                + "', očekáváno "@ + expected,
            ClientFault::Pasv { cause } => cause.text(),
            ClientFault::NameNotUtf8 => "invalid utf-8 sequence"@,
            ClientFault::InvalidPayload => "Collector předal neplatný BMP payload"@,
        }
    }
}

impl View for ClientError {
    type V = ClientFault;

    open spec fn view(&self) -> ClientFault {
        match self {
            ClientError::NoReply => ClientFault::NoReply,
            ClientError::Unexpected { reply, expected } => ClientFault::Unexpected {
                reply: reply@,
                expected: expected@,
            },
            ClientError::Pasv { cause } => ClientFault::Pasv { cause: *cause },
            ClientError::NameNotUtf8 => ClientFault::NameNotUtf8,
            ClientError::InvalidPayload => ClientFault::InvalidPayload,
        }
    }
}

impl ClientError {
    /// The error in words.
    pub fn message(&self) -> (m: String)
        ensures
            m@ == self@.text(),
    {
        match self {
            ClientError::NoReply => "FTP server ukončil spojení bez odpovědi".to_owned(),
            ClientError::Unexpected { reply, expected } => {
                let mut m: String = "FTP odpověď '".to_owned();
                m.append(reply.as_str());
                m.append("', očekáváno ");
                m.append(expected.as_str());
                m
            },
            ClientError::Pasv { cause } => cause.message(),
            ClientError::NameNotUtf8 => "invalid utf-8 sequence".to_owned(),
            ClientError::InvalidPayload => "Collector předal neplatný BMP payload".to_owned(),
        }
    }
}

/// What the client does after a reply.
#[derive(Debug)]
pub enum ClientAction {
    /// Sends a command.
    Send { command: String },
    /// Opens the data connection to `address`, then sends a command.
    Connect { address: String, command: String },
    /// Sends `data` over the data connection and closes it.
    Transfer { data: Vec<u8> },
    /// Sends a last command; its reply is not awaited.
    Finish { command: String },
}

/// The contents of a `ClientAction`.
pub enum ClientActionView {
    Send { command: Seq<char> },
    Connect { address: Seq<char>, command: Seq<char> },
    Transfer { data: Seq<u8> },
    Finish { command: Seq<char> },
}

impl View for ClientAction {
    type V = ClientActionView;

    open spec fn view(&self) -> ClientActionView {
        match self {
            ClientAction::Send { command } => ClientActionView::Send { command: command@ },
            ClientAction::Connect { address, command } => ClientActionView::Connect {
                address: address@,
                command: command@,
            },
            ClientAction::Transfer { data } => ClientActionView::Transfer { data: data@ },
            ClientAction::Finish { command } => ClientActionView::Finish { command: command@ },
        }
    }
}

/// The reply in a line that was read: at the end of the connection the line is empty, and
/// there is none.
pub open spec fn replied(line: Seq<char>) -> Result<Seq<char>, ClientFault> {
    if line.len() == 0 {
        Err(ClientFault::NoReply)
    } else {
        Ok(line)
    }
}

/// Tells whether a reply begins with the expected code.
pub open spec fn expected_reply(reply: Seq<char>, expected: Seq<char>) -> Result<(), ClientFault> {
    if reply.len() == 0 {
        Err(ClientFault::NoReply)
    } else if !starts_with(reply, expected) {
        Err(ClientFault::Unexpected { reply, expected })
    } else {
        Ok(())
    }
}

/// The stage and the action that follow when `action` is due after a reply with the code
/// `expected`.
pub open spec fn on_code(
    reply: Seq<char>,
    expected: Seq<char>,
    next: Stage,
    action: ClientActionView,
) -> Result<(Stage, ClientActionView), ClientFault> {
    match expected_reply(reply, expected) {
        Ok(()) => Ok((next, action)),
        Err(fault) => Err(fault),
    }
}

/// The stage and the action that follow when `reply` arrives.
pub open spec fn advance(
    stage: Stage,
    user: Seq<char>,
    password: Seq<char>,
    reply: Seq<char>,
) -> Result<(Stage, ClientActionView), ClientFault>
    recommends
        stage != Stage::Finished,
{
    match stage {
        Stage::Connected => on_code(
            reply,
            "220"@,
            Stage::UserSent,
            ClientActionView::Send { command: "USER "@ + user },
        ),
        Stage::UserSent => on_code(
            reply,
            "331"@,
            Stage::PasswordSent,
            ClientActionView::Send { command: "PASS "@ + password },
        ),
        Stage::PasswordSent => on_code(
            reply,
            "230"@,
            Stage::PasvSent,
            ClientActionView::Send { command: "PASV"@ },
        ),
        Stage::PasvSent => match replied(reply) {
            Err(fault) => Err(fault),
            Ok(reply) => match pasv_address(reply) {
                Err(cause) => Err(ClientFault::Pasv { cause }),
                Ok(address) => Ok(
                    (
                        Stage::StorSent,
                        ClientActionView::Connect { address, command: "STOR validator.bmp"@ },
                    ),
                ),
            },
        },
        Stage::StorSent => on_code(
            reply,
            "150"@,
            Stage::DataSent,
            ClientActionView::Transfer { data: test_image() },
        ),
        Stage::DataSent => on_code(
            reply,
            "226"@,
            Stage::Finished,
            ClientActionView::Finish { command: "QUIT"@ },
        ),
        Stage::Finished => arbitrary(),
    }
}

/// The result of a check, by its contents.
pub open spec fn client_outcome(res: Result<(), ClientError>) -> Result<(), ClientFault> {
    match res {
        Ok(()) => Ok(()),
        Err(e) => Err(e@),
    }
}

/// A command as it is sent on the control connection.
pub fn send_command(command: &str) -> (bytes: Vec<u8>)
    ensures
        bytes@ == sent(command@),
{
    sent_line(command)
}

/// The reply in a line that was read. At the end of the connection the line is empty, and is
/// refused.
pub fn read_reply<'a>(line: &'a str) -> (res: Result<&'a str, ClientError>)
    ensures
        match res {
            Ok(reply) => replied(line@) == Ok::<Seq<char>, ClientFault>(reply@),
            Err(e) => replied(line@) == Err::<Seq<char>, ClientFault>(e@),
        },
{
    if line.is_empty() {
        Err(ClientError::NoReply)
    } else {
        Ok(line)
    }
}

/// Refuses a line that holds no reply, or one that does not begin with the expected code.
pub fn expect_reply(line: &str, expected: &str) -> (res: Result<(), ClientError>)
    ensures
        client_outcome(res) == expected_reply(line@, expected@),
{
    match read_reply(line) {
        Err(e) => Err(e),
        Ok(reply) => if begins_with(reply, expected) {
            Ok(())
        } else {
            Err(
                ClientError::Unexpected { reply: reply.to_owned(), expected: expected.to_owned() },
            )
        },
    }
}

/// Checks the image that the parent process has received.
pub fn check_payload(bmp: &[u8]) -> (res: Result<(), ClientError>)
    ensures
        client_outcome(res) == (if has_bmp_signature(bmp@) {
            Ok::<(), ClientFault>(())
        } else {
            Err::<(), ClientFault>(ClientFault::InvalidPayload)
        }),
{
    match validate_bmp(bmp) {
        Ok(()) => Ok(()),
        Err(_) => Err(ClientError::InvalidPayload),
    }
}

/// What the console shows when a validation has succeeded.
pub open spec fn success_text(bmp: Seq<u8>, name: Seq<char>) -> Seq<char> {
    "OK: collector přijal BMP ("@ + decimal(bmp.len()) + " B), název "@ + name
}

/// What the console shows when a validation has succeeded.
pub fn success_notice(bmp: &[u8], name: &str) -> (text: String)
    ensures
        text@ == success_text(bmp@, name@),
{
    let mut text: String = "OK: collector přijal BMP (".to_owned();
    text.append(decimal_of(bmp.len()).as_str());
    text.append(" B), název ");
    text.append(name);
    text
}

/// What comes of the two payloads that the parent process has received: what the console
/// shows, or why the validation fails. The name counts before the image.
pub open spec fn confirmed(bmp: Seq<u8>, name: Seq<u8>) -> Result<Seq<char>, ClientFault> {
    if !valid_utf8(name) {
        Err(ClientFault::NameNotUtf8)
    } else if !has_bmp_signature(bmp) {
        Err(ClientFault::InvalidPayload)
    } else {
        Ok(success_text(bmp, decode_utf8(name)))
    }
}

/// Checks the two payloads that the parent process has received, the image and the file
/// name: what the console shows, or why the validation fails.
pub fn check_delivery(bmp: &[u8], name: Vec<u8>) -> (res: Result<String, ClientError>)
    ensures
        match res {
            Ok(text) => confirmed(bmp@, name@) == Ok::<Seq<char>, ClientFault>(text@),
            Err(e) => confirmed(bmp@, name@) == Err::<Seq<char>, ClientFault>(e@),
        },
{
    match String::from_utf8(name) {
        Ok(name) => match check_payload(bmp) {
            Ok(()) => Ok(success_notice(bmp, name.as_str())),
            Err(e) => Err(e),
        },
        Err(_) => Err(ClientError::NameNotUtf8),
    }
}

/// The error of `String::from_utf8`.
#[verifier::external_type_specification]
#[verifier::external_body]
pub struct ExFromUtf8Error(std::string::FromUtf8Error);

/// `String::from_utf8` succeeds exactly on valid UTF-8, and gives the text that the bytes
/// encode. What its error tells is left unsaid: nothing reads it.
pub assume_specification[ String::from_utf8 ](vec: Vec<u8>) -> (res: Result<
    String,
    std::string::FromUtf8Error,
>)
    ensures
        res is Ok <==> valid_utf8(vec@),
        res matches Ok(text) ==> text@ == decode_utf8(vec@),
;

/// An upload of the test image over FTP.
pub struct Upload {
    pub stage: Stage,
    pub user: String,
    pub password: String,
}

fn command_with(name: &str, argument: &str) -> (command: String)
    ensures
        command@ == name@ + argument@,
{
    let mut command: String = name.to_owned();
    command.append(argument);
    command
}

impl Upload {
    /// An upload for which the connection has just been made.
    pub fn new(user: &str, password: &str) -> (upload: Upload)
        ensures
            upload.stage == Stage::Connected,
            upload.user@ == user@,
            upload.password@ == password@,
    {
        Upload { stage: Stage::Connected, user: user.to_owned(), password: password.to_owned() }
    }

    fn on_code(&mut self, reply: &str, expected: &str, next: Stage, action: ClientAction) -> (res:
        Result<ClientAction, ClientError>)
        ensures
            final(self).user == old(self).user,
            final(self).password == old(self).password,
            match res {
                Ok(due) => {
                    &&& expected_reply(reply@, expected@) is Ok
                    &&& due == action
                    &&& final(self).stage == next
                },
                Err(e) => {
                    &&& expected_reply(reply@, expected@) == Err::<(), ClientFault>(e@)
                    &&& final(self).stage == old(self).stage
                },
            },
    {
        match expect_reply(reply, expected) {
            Ok(()) => {
                self.stage = next;
                Ok(action)
            },
            Err(e) => Err(e),
        }
    }

    /// Decides what to do after `reply`.
    pub fn handle_reply(&mut self, reply: &str) -> (res: Result<ClientAction, ClientError>)
        requires
            old(self).stage != Stage::Finished,
            old(self).stage == Stage::PasvSent ==> pasv_port_fits(reply@),
        ensures
            final(self).user == old(self).user,
            final(self).password == old(self).password,
            match res {
                Ok(action) => advance(
                    old(self).stage,
                    old(self).user@,
                    old(self).password@,
                    reply@,
                ) == Ok::<(Stage, ClientActionView), ClientFault>((final(self).stage, action@)),
                Err(e) => advance(
                    old(self).stage,
                    old(self).user@,
                    old(self).password@,
                    reply@,
                ) == Err::<(Stage, ClientActionView), ClientFault>(e@) && final(self).stage == old(
                    self,
                ).stage,
            },
    {
        match self.stage {
            Stage::Connected => {
                let command: String = command_with("USER ", self.user.as_str());
                self.on_code(reply, "220", Stage::UserSent, ClientAction::Send { command })
            },
            Stage::UserSent => {
                let command: String = command_with("PASS ", self.password.as_str());
                self.on_code(reply, "331", Stage::PasswordSent, ClientAction::Send { command })
            },
            Stage::PasswordSent => {
                let command: String = "PASV".to_owned();
                self.on_code(reply, "230", Stage::PasvSent, ClientAction::Send { command })
            },
            Stage::PasvSent => match read_reply(reply) {
                Err(e) => Err(e),
                Ok(reply) => match parse_pasv_address(reply) {
                    Err(cause) => Err(ClientError::Pasv { cause }),
                    Ok(address) => {
                        self.stage = Stage::StorSent;
                        let command: String = "STOR validator.bmp".to_owned();
                        Ok(ClientAction::Connect { address, command })
                    },
                },
            },
            Stage::StorSent => {
                self.on_code(
                    reply,
                    "150",
                    Stage::DataSent,
                    ClientAction::Transfer { data: test_bmp() },
                )
            },
            _ => {
                let command: String = "QUIT".to_owned();
                self.on_code(reply, "226", Stage::Finished, ClientAction::Finish { command })
            },
        }
    }
}

} // verus!
