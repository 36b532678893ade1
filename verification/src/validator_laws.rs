//! What the validation client makes of each reply, and of what the parent process receives.

use vstd::prelude::*;
use vstd::string::*;
use vstd::utf8::*;

use crate::decimal::{decimal, number, NumberError};
use crate::ipv4::{octets_are_joined, Ipv4};
use crate::line::sent;
use crate::text::{split, starts_with};
use crate::text_laws::{text_begins_and_ends, text_is_split_at_the_character};
use crate::validator::{
    advance, client_outcome, confirmed, connect_host, expected_reply, numbers,
    pasv_address, pasv_port_fits, pasv_values, replied, socket_address, success_text, test_image,
    ClientAction, ClientActionView, ClientError, ClientFault, PasvError, Stage,
};

verus! {

/// The client connects to the address that the server listens on, unless that stands for
/// every address: then to the announced one.
pub proof fn client_connects_to_a_single_address(bind: Seq<char>, advertise: Seq<char>)
    ensures
        bind != "0.0.0.0"@ && bind != "::"@ ==> connect_host(bind, advertise) == bind,
        connect_host("0.0.0.0"@, advertise) == advertise,
        connect_host("::"@, advertise) == advertise,
{
}

/// The test image is 54 bytes: the letters `BM`, then zeros.
pub proof fn test_image_is_letters_and_zeros(i: int)
    ensures
        test_image().len() == 54,
        test_image()[0] == 0x42,
        test_image()[1] == 0x4d,
        2 <= i < 54 ==> test_image()[i] == 0,
{
}

/// Parts are read as numbers one after the other, up to the first that is none.
pub proof fn numbers_are_read_in_order(parts: Seq<Seq<char>>, part: Seq<char>)
    ensures
        numbers(Seq::<Seq<char>>::empty()) == Ok::<Seq<u16>, NumberError>(Seq::empty()),
        match (numbers(parts), number(part)) {
            (Ok(values), Ok(n)) => numbers(parts.push(part)) == Ok::<Seq<u16>, NumberError>(
                values.push(n),
            ),
            (Ok(_), Err(cause)) => numbers(parts.push(part)) == Err::<Seq<u16>, NumberError>(
                cause,
            ),
            (Err(cause), _) => numbers(parts.push(part)) == Err::<Seq<u16>, NumberError>(cause),
        },
{
    assert(parts.push(part).drop_last() =~= parts);
}

/// A reply to `PASV` needs an opening parenthesis and a closing one after it.
pub proof fn pasv_reply_has_parentheses(intro: Seq<char>, tail: Seq<char>)
    requires
        !intro.contains('('),
        !tail.contains(')'),
    ensures
        pasv_values(intro) == Err::<Seq<u16>, PasvError>(PasvError::NoAddress),
        pasv_values(intro + seq!['('] + tail) == Err::<Seq<u16>, PasvError>(
            PasvError::NoClosingParenthesis,
        ),
{
    assert(intro + seq!['('] + tail =~= intro.push('(') + tail);
    text_is_split_at_the_character(intro, '(', tail);
    text_is_split_at_the_character(tail, ')', tail);
}

/// Between the first parentheses stand six numbers with commas between them, of which the
/// first four are at most 255. Whatever stands before and after makes no difference.
pub proof fn pasv_reply_holds_six_numbers(intro: Seq<char>, body: Seq<char>, rest: Seq<char>)
    requires
        !intro.contains('('),
        !body.contains(')'),
    ensures
        ({
            let reply = intro + seq!['('] + body + seq![')'] + rest;
            match numbers(split(body, ',')) {
                Err(cause) => pasv_values(reply) == Err::<Seq<u16>, PasvError>(
                    PasvError::NotANumber { cause },
                ),
                Ok(values) => if values.len() == 6 && values[0] <= 255 && values[1] <= 255
                    && values[2] <= 255 && values[3] <= 255 {
                    pasv_values(reply) == Ok::<Seq<u16>, PasvError>(values)
                } else {
                    pasv_values(reply) == Err::<Seq<u16>, PasvError>(PasvError::InvalidFormat)
                },
            }
        }),
{
    let tail = body.push(')') + rest;
    assert(intro + seq!['('] + body + seq![')'] + rest =~= intro.push('(') + tail);
    text_is_split_at_the_character(intro, '(', tail);
    text_is_split_at_the_character(body, ')', rest);
}

/// The address in a reply is the first four numbers with dots between them, a colon, and the
/// port, whose first part counts 256 times.
pub proof fn pasv_numbers_make_the_address(reply: Seq<char>)
    ensures
        match pasv_values(reply) {
            Ok(v) => {
                let port = v[4] as int * 256 + v[5] as int;
                &&& pasv_port_fits(reply) <==> port <= 65535
                &&& v[0] <= 255 && v[1] <= 255 && v[2] <= 255 && v[3] <= 255 ==> pasv_address(reply)
                    == Ok::<Seq<char>, PasvError>(
                    decimal(v[0] as nat) + seq!['.'] + decimal(v[1] as nat) + seq!['.'] + decimal(
                        v[2] as nat,
                    ) + seq!['.'] + decimal(v[3] as nat) + ":"@ + decimal(port as nat),
                )
            },
            Err(e) => pasv_port_fits(reply) && pasv_address(reply) == Err::<Seq<char>, PasvError>(e),
        },
{
    if let Ok(v) = pasv_values(reply) {
        let ip = Ipv4 { a: v[0] as u8, b: v[1] as u8, c: v[2] as u8, d: v[3] as u8 };
        octets_are_joined(ip, '.');
    }
}

/// An address with a port is written with a colon between them.
pub proof fn socket_address_has_a_colon(ip: Ipv4, port: nat)
    ensures
        socket_address(ip, port) == decimal(ip.a as nat) + seq!['.'] + decimal(ip.b as nat)
            + seq!['.'] + decimal(ip.c as nat) + seq!['.'] + decimal(ip.d as nat) + ":"@ + decimal(
            port,
        ),
{
    octets_are_joined(ip, '.');
}

/// Tells that `text` begins with `prefix`.
pub open spec fn begins(text: Seq<char>, prefix: Seq<char>) -> bool {
    exists|rest: Seq<char>| text == #[trigger] (prefix + rest)
}

proof fn lemma_begins(text: Seq<char>, prefix: Seq<char>)
    ensures
        begins(text, prefix) <==> starts_with(text, prefix),
{
    text_begins_and_ends(text, prefix, text);
    if begins(text, prefix) {
        let rest = choose|rest: Seq<char>| text == #[trigger] (prefix + rest);
        text_begins_and_ends(text, prefix, rest);
    }
    if starts_with(text, prefix) {
        assert(text == prefix + text.skip(prefix.len() as int));
    }
}

/// A line that is not empty is a reply. It is the expected one where it begins with the code.
pub proof fn reply_begins_with_its_code(reply: Seq<char>, code: Seq<char>)
    ensures
        replied(Seq::<char>::empty()) == Err::<Seq<char>, ClientFault>(ClientFault::NoReply),
        reply.len() > 0 ==> replied(reply) == Ok::<Seq<char>, ClientFault>(reply),
        expected_reply(Seq::<char>::empty(), code) == Err::<(), ClientFault>(ClientFault::NoReply),
        reply.len() > 0 && begins(reply, code) ==> expected_reply(reply, code) == Ok::<
            (),
            ClientFault,
        >(()),
        reply.len() > 0 && !begins(reply, code) ==> expected_reply(reply, code) == Err::<
            (),
            ClientFault,
        >(ClientFault::Unexpected { reply, expected: code }),
{
    lemma_begins(reply, code);
}

/// After the code that it waits for, the client takes the next step: it logs in, asks for a
/// data channel, sends the test image and takes its leave.
pub proof fn client_goes_on_after_the_code(
    user: Seq<char>,
    password: Seq<char>,
    rest: Seq<char>,
    reply: Seq<char>,
)
    ensures
        advance(Stage::Connected, user, password, "220"@ + rest) == Ok::<
            (Stage, ClientActionView),
            ClientFault,
        >((Stage::UserSent, (ClientActionView::Send { command: "USER "@ + user }))),
        advance(Stage::UserSent, user, password, "331"@ + rest) == Ok::<
            (Stage, ClientActionView),
            ClientFault,
        >((Stage::PasswordSent, (ClientActionView::Send { command: "PASS "@ + password }))),
        advance(Stage::PasswordSent, user, password, "230"@ + rest) == Ok::<
            (Stage, ClientActionView),
            ClientFault,
        >((Stage::PasvSent, (ClientActionView::Send { command: "PASV"@ }))),
        advance(Stage::StorSent, user, password, "150"@ + rest) == Ok::<
            (Stage, ClientActionView),
            ClientFault,
        >((Stage::DataSent, (ClientActionView::Transfer { data: test_image() }))),
        advance(Stage::DataSent, user, password, "226"@ + rest) == Ok::<
            (Stage, ClientActionView),
            ClientFault,
        >((Stage::Finished, (ClientActionView::Finish { command: "QUIT"@ }))),
{
    text_begins_and_ends(reply, "220"@, rest);
    reveal_strlit("220");
    text_begins_and_ends(reply, "331"@, rest);
    reveal_strlit("331");
    text_begins_and_ends(reply, "230"@, rest);
    reveal_strlit("230");
    text_begins_and_ends(reply, "150"@, rest);
    reveal_strlit("150");
    text_begins_and_ends(reply, "226"@, rest);
    reveal_strlit("226");
}

/// After another reply, and at the end of the connection, the client gives up.
pub proof fn client_gives_up_otherwise(user: Seq<char>, password: Seq<char>, reply: Seq<char>)
    ensures
        reply.len() > 0 && !begins(reply, "220"@) ==> advance(
            Stage::Connected,
            user,
            password,
            reply,
        ) == Err::<(Stage, ClientActionView), ClientFault>(
            ClientFault::Unexpected { reply, expected: "220"@ },
        ),
        reply.len() > 0 && !begins(reply, "331"@) ==> advance(
            Stage::UserSent,
            user,
            password,
            reply,
        ) == Err::<(Stage, ClientActionView), ClientFault>(
            ClientFault::Unexpected { reply, expected: "331"@ },
        ),
        reply.len() > 0 && !begins(reply, "230"@) ==> advance(
            Stage::PasswordSent,
            user,
            password,
            reply,
        ) == Err::<(Stage, ClientActionView), ClientFault>(
            ClientFault::Unexpected { reply, expected: "230"@ },
        ),
        reply.len() > 0 && !begins(reply, "150"@) ==> advance(
            Stage::StorSent,
            user,
            password,
            reply,
        ) == Err::<(Stage, ClientActionView), ClientFault>(
            ClientFault::Unexpected { reply, expected: "150"@ },
        ),
        reply.len() > 0 && !begins(reply, "226"@) ==> advance(
            Stage::DataSent,
            user,
            password,
            reply,
        ) == Err::<(Stage, ClientActionView), ClientFault>(
            ClientFault::Unexpected { reply, expected: "226"@ },
        ),
        advance(Stage::Connected, user, password, Seq::empty()) == Err::<
            (Stage, ClientActionView),
            ClientFault,
        >(ClientFault::NoReply),
        advance(Stage::UserSent, user, password, Seq::empty()) == Err::<
            (Stage, ClientActionView),
            ClientFault,
        >(ClientFault::NoReply),
        advance(Stage::PasswordSent, user, password, Seq::empty()) == Err::<
            (Stage, ClientActionView),
            ClientFault,
        >(ClientFault::NoReply),
        advance(Stage::PasvSent, user, password, Seq::empty()) == Err::<
            (Stage, ClientActionView),
            ClientFault,
        >(ClientFault::NoReply),
        advance(Stage::StorSent, user, password, Seq::empty()) == Err::<
            (Stage, ClientActionView),
            ClientFault,
        >(ClientFault::NoReply),
        advance(Stage::DataSent, user, password, Seq::empty()) == Err::<
            (Stage, ClientActionView),
            ClientFault,
        >(ClientFault::NoReply),
{
    lemma_begins(reply, "220"@);
    lemma_begins(reply, "331"@);
    lemma_begins(reply, "230"@);
    lemma_begins(reply, "150"@);
    lemma_begins(reply, "226"@);
}

/// After the reply to `PASV` the client connects to the address in it, or gives up where there
/// is none.
pub proof fn client_connects_where_it_is_told(
    user: Seq<char>,
    password: Seq<char>,
    reply: Seq<char>,
)
    requires
        reply.len() > 0,
    ensures
        match pasv_address(reply) {
            Ok(address) => advance(Stage::PasvSent, user, password, reply) == Ok::<
                (Stage, ClientActionView),
                ClientFault,
            >(
                (
                    Stage::StorSent,
                    (ClientActionView::Connect { address, command: "STOR validator.bmp"@ }),
                ),
            ),
            Err(cause) => advance(Stage::PasvSent, user, password, reply) == Err::<
                (Stage, ClientActionView),
                ClientFault,
            >(ClientFault::Pasv { cause }),
        },
{
}

/// The two payloads are confirmed where the first begins with the letters `BM` and the second
/// is UTF-8: the console shows the size of the one and the text of the other.
pub proof fn payloads_are_confirmed(rest: Seq<u8>, text: Seq<char>, bmp: Seq<u8>, name: Seq<u8>)
    ensures
        confirmed(seq![0x42u8, 0x4du8] + rest, encode_utf8(text)) == Ok::<Seq<char>, ClientFault>(
            "OK: collector přijal BMP ("@ + decimal(rest.len() + 2) + " B), název "@ + text,
        ),
        !valid_utf8(name) ==> confirmed(bmp, name) == Err::<Seq<char>, ClientFault>(
            ClientFault::NameNotUtf8,
        ),
        valid_utf8(name) && (bmp.len() < 2 || bmp[0] != 0x42 || bmp[1] != 0x4d) ==> confirmed(
            bmp,
            name,
        ) == Err::<Seq<char>, ClientFault>(ClientFault::InvalidPayload),
{
    encode_utf8_valid_utf8(text);
    encode_utf8_decode_utf8(text);
}

/// What the console shows of a validation that has succeeded.
pub proof fn success_shows_size_and_name(bmp: Seq<u8>, name: Seq<char>)
    ensures
        success_text(bmp, name) == "OK: collector přijal BMP ("@ + decimal(bmp.len())
            + " B), název "@ + name,
{
}

/// What is sent is the text in UTF-8 and one line feed.
pub proof fn line_is_text_and_line_feed(text: Seq<char>)
    ensures
        sent(text) == encode_utf8(text) + seq![0x0au8],
{
    assert(sent(text) =~= encode_utf8(text) + seq![0x0au8]);
}

/// The reasons why a validation fails, in words.
pub proof fn client_errors_in_words(
    reply: Seq<char>,
    expected: Seq<char>,
    pasv: PasvError,
    cause: NumberError,
)
    ensures
        ClientFault::NoReply.text() == "FTP server ukončil spojení bez odpovědi"@,
        (ClientFault::Unexpected { reply, expected }).text() == "FTP odpověď '"@ + reply
            + "', očekáváno "@ + expected,
        (ClientFault::Pasv { cause: pasv }).text() == pasv.text(),
        ClientFault::NameNotUtf8.text() == "invalid utf-8 sequence"@,
        ClientFault::InvalidPayload.text() == "Collector předal neplatný BMP payload"@,
        PasvError::NoAddress.text() == "FTP PASV odpověď nemá adresu"@,
        PasvError::NoClosingParenthesis.text() == "FTP PASV odpověď nemá uzavírací závorku"@,
        (PasvError::NotANumber { cause }).text() == cause.text(),
        PasvError::InvalidFormat.text() == "FTP PASV odpověď má neplatný formát"@,
{
}

/// The client's errors and actions hold what their parts hold.
pub proof fn client_values_hold_their_parts(
    error: ClientError,
    action: ClientAction,
    res: Result<(), ClientError>,
)
    ensures
        match error {
            ClientError::NoReply => error@ == ClientFault::NoReply,
            ClientError::Unexpected { reply, expected } => error@ == (ClientFault::Unexpected {
                reply: reply@,
                expected: expected@,
            }),
            ClientError::Pasv { cause } => error@ == (ClientFault::Pasv { cause }),
            ClientError::NameNotUtf8 => error@ == ClientFault::NameNotUtf8,
            ClientError::InvalidPayload => error@ == ClientFault::InvalidPayload,
        },
        match action {
            ClientAction::Send { command } => action@ == (ClientActionView::Send {
                command: command@,
            }),
            ClientAction::Connect { address, command } => action@ == (ClientActionView::Connect {
                address: address@,
                command: command@,
            }),
            ClientAction::Transfer { data } => action@ == (ClientActionView::Transfer {
                data: data@,
            }),
            ClientAction::Finish { command } => action@ == (ClientActionView::Finish {
                command: command@,
            }),
        },
        match res {
            Ok(()) => client_outcome(res) == Ok::<(), ClientFault>(()),
            Err(e) => client_outcome(res) == Err::<(), ClientFault>(e@),
        },
{
}

} // verus!
