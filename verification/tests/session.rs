use keyence_collector::attempt::{next_attempt, Attempt};
use keyence_collector::config::Config;
use keyence_collector::ipv4::Ipv4;
use keyence_collector::pipeline::{parent_message, process_input, Input};
use keyence_collector::session::{
    reply, upload_received, Action, DataChannel, Session, SessionError, GREETING,
    MAX_UPLOAD_BYTES, TRANSFER_COMPLETE, TRANSFER_STARTED,
};
use keyence_collector::validator::{
    check_delivery, check_payload, expect_reply, ftp_address, ftp_connect_host, parse_pasv_address,
    pasv_port_in_range, read_reply, send_command, success_notice, test_bmp, ClientAction, ClientError, PasvError,
    Stage, Upload,
};

fn config() -> Config {
    Config {
        ftp_bind: "0.0.0.0".to_string(),
        ftp_advertise: "192.168.1.50".to_string(),
        ftp_port: 2121,
        ftp_user: "keyence".to_string(),
        ftp_password: "tajné heslo".to_string(),
        parent_socket: "/run/parent.sock".to_string(),
        tmp_dir: "/tmp".to_string(),
    }
}

fn answer(session: &mut Session, line: &str) -> String {
    match session.handle_command(&config(), line) {
        Action::Reply { text } => text,
        other => panic!("{:?}", other),
    }
}

fn logged_in() -> Session {
    let mut session = Session::new();
    assert_eq!(answer(&mut session, "PASS tajné heslo\r\n"), "230 Logged in");
    session
}

#[test]
fn login_takes_user_and_password() {
    let mut session = Session::new();
    assert_eq!(answer(&mut session, "USER nobody\r\n"), "530 Not logged in");
    assert_eq!(answer(&mut session, "user keyence\r\n"), "331 Password required");
    assert_eq!(answer(&mut session, "PASS wrong\r\n"), "530 Not logged in");
    assert!(!session.authenticated);
    assert_eq!(answer(&mut session, "Pass tajné heslo\n"), "230 Logged in");
    assert!(session.authenticated);
    assert_eq!(answer(&mut session, "PASS wrong\r\n"), "502 Command not implemented");
    assert!(session.authenticated);
}

#[test]
fn password_is_taken_as_it_stands() {
    let mut session = Session::new();
    assert_eq!(answer(&mut session, "PASS  tajné heslo\r\n"), "530 Not logged in");
    assert_eq!(answer(&mut session, "PASS TAJNÉ HESLO\r\n"), "530 Not logged in");
}

#[test]
fn general_commands_need_no_login() {
    let mut session = Session::new();
    assert_eq!(answer(&mut session, "SYST\r\n"), "215 UNIX Type: L8");
    assert_eq!(answer(&mut session, "TYPE I\r\n"), "200 Type set");
    assert_eq!(answer(&mut session, "PWD\r\n"), "257 \"/\" is current directory");
    match session.handle_command(&config(), "QUIT\r\n") {
        Action::Quit { text } => assert_eq!(text, "221 Goodbye"),
        other => panic!("{:?}", other),
    }
}

#[test]
fn strangers_are_refused() {
    let mut session = Session::new();
    for line in ["PASV", "PORT 1,2,3,4,5,6", "STOR a.bmp", "LIST", "", "   "] {
        assert_eq!(answer(&mut session, line), "530 Not logged in");
        assert_eq!(session, Session::new());
    }
    assert_eq!(answer(&mut logged_in(), "LIST"), "502 Command not implemented");
    assert_eq!(answer(&mut logged_in(), ""), "502 Command not implemented");
}

#[test]
fn passive_mode_announces_the_advertised_address() {
    let mut session = logged_in();
    assert!(matches!(session.handle_command(&config(), "PASV\r\n"), Action::OpenPassive));
    assert_eq!(session.channel, DataChannel::Closed);
    assert_eq!(
        session.passive_opened(&config(), 50_001),
        Ok("227 Entering Passive Mode (192,168,1,50,195,81)".to_string())
    );
    assert_eq!(session.channel, DataChannel::Passive);
    let mut broken = config();
    broken.ftp_advertise = "::1".to_string();
    let error = session.passive_opened(&broken, 1).unwrap_err();
    assert_eq!(error, SessionError::AdvertiseNotIpv4);
    assert_eq!(error.message(), "invalid IPv4 address syntax");
}

#[test]
fn active_mode_takes_the_address() {
    let mut session = logged_in();
    assert_eq!(answer(&mut session, "PORT 192,168,210,200,4,1\r\n"), "200 Port set");
    let ip = Ipv4 { a: 192, b: 168, c: 210, d: 200 };
    assert_eq!(session.channel, DataChannel::Active { ip, port: 1025 });
    for argument in ["", "1,2,3,4,5", "1,2,3,4,5,6,7", "256,2,3,4,5,6", "1,2,3,4,5,256", "a,2,3,4,5,6"] {
        assert_eq!(answer(&mut session, &format!("PORT {}", argument)), "501 Invalid port");
        assert_eq!(session.channel, DataChannel::Active { ip, port: 1025 });
    }
}

#[test]
fn upload_uses_up_the_channel() {
    let mut session = logged_in();
    session.passive_opened(&config(), 1).unwrap();
    assert_eq!(answer(&mut session, "STOR image.txt\r\n"), "502 Command not implemented");
    match session.handle_command(&config(), "STOR Run 1_2.BMP\r\n") {
        Action::Receive { channel, name, limit } => {
            assert_eq!(channel, DataChannel::Passive);
            assert_eq!(name, "Run 1_2.BMP");
            assert_eq!(limit, 100 * 1024 * 1024);
        }
        other => panic!("{:?}", other),
    }
    assert_eq!(session.channel, DataChannel::Closed);
    match session.handle_command(&config(), "STOR again.bmp\r\n") {
        Action::Fail { error } => {
            assert_eq!(error, SessionError::NoDataChannel);
            assert_eq!(error.message(), "PASV required before STOR");
        }
        other => panic!("{:?}", other),
    }
}

#[test]
fn upload_comes_from_the_address_of_port() {
    let mut session = logged_in();
    session.passive_opened(&config(), 1).unwrap();
    assert_eq!(answer(&mut session, "PORT 10,0,0,7,0,20\r\n"), "200 Port set");
    match session.handle_command(&config(), "stor a.bmp\r\n") {
        Action::Receive { channel, name, .. } => {
            let ip = Ipv4 { a: 10, b: 0, c: 0, d: 7 };
            assert_eq!(channel, DataChannel::Active { ip, port: 20 });
            assert_eq!(name, "a.bmp");
        }
        other => panic!("{:?}", other),
    }
}

#[test]
fn answers_begin_with_a_code() {
    let mut session = logged_in();
    let mut answers = vec![session.passive_opened(&config(), 65_535).unwrap()];
    for line in ["USER keyence", "SYST", "TYPE A", "PWD", "PORT 1,2,3,4,5,6", "PORT", "NOOP"] {
        answers.push(answer(&mut session, line));
    }
    for text in answers {
        assert!(text.as_bytes()[..3].iter().all(|byte| byte.is_ascii_digit()));
        assert_eq!(text.as_bytes()[3], b' ');
        assert!(!text.contains('\n'));
    }
}

#[test]
fn upload_keeps_its_name_and_data() {
    let Input::Bmp { data, name } = upload_received("a.bmp".to_string(), b"BM\x01".to_vec());
    assert_eq!(data, b"BM\x01");
    assert_eq!(name, "a.bmp");
    let limit = MAX_UPLOAD_BYTES as usize;
    let Input::Bmp { data, .. } = upload_received("b.bmp".to_string(), vec![1; limit + 5]);
    assert_eq!(data.len(), limit);
}

#[test]
fn connect_host_avoids_the_wildcard() {
    assert_eq!(ftp_connect_host("0.0.0.0", "192.168.1.50"), "192.168.1.50");
    assert_eq!(ftp_connect_host("::", "192.168.1.50"), "192.168.1.50");
    assert_eq!(ftp_connect_host("10.0.0.1", "192.168.1.50"), "10.0.0.1");
    assert_eq!(ftp_address(&config()), "192.168.1.50:2121");
}

#[test]
fn test_image_is_a_bmp() {
    let bmp = test_bmp();
    assert_eq!(bmp.len(), 54);
    assert_eq!(bmp[..2], *b"BM");
    assert!(bmp[2..].iter().all(|byte| *byte == 0));
    assert!(check_payload(&bmp).is_ok());
    assert_eq!(
        check_payload(b"xx").unwrap_err().message(),
        "Collector předal neplatný BMP payload"
    );
    assert_eq!(
        success_notice(&bmp, "validator.bmp"),
        "OK: collector přijal BMP (54 B), název validator.bmp"
    );
}

#[test]
fn delivery_is_confirmed() {
    assert_eq!(
        check_delivery(&test_bmp(), "žluť.bmp".as_bytes().to_vec()).unwrap(),
        "OK: collector přijal BMP (54 B), název žluť.bmp"
    );
    let error = check_delivery(b"xx", vec![b'a', 0xff]).unwrap_err();
    assert!(matches!(error, ClientError::NameNotUtf8));
    assert_eq!(error.message(), "invalid utf-8 sequence");
    assert!(matches!(check_delivery(b"xx", vec![]), Err(ClientError::InvalidPayload)));
}

#[test]
fn connection_is_waited_for_within_the_limit() {
    assert_eq!(next_attempt(0, 30_000), Attempt::Retry);
    assert_eq!(next_attempt(29_999, 30_000), Attempt::Retry);
    assert_eq!(next_attempt(30_000, 30_000), Attempt::GiveUp);
    assert_eq!(next_attempt(0, 0), Attempt::GiveUp);
}

#[test]
fn uploads_reach_the_parent_in_order() {
    let config = config();
    let mut session = Session::new();
    let mut messages = Vec::new();
    let lines = [
        ("STOR 0.bmp", "BM0"),
        ("PASS tajné heslo", ""),
        ("PASV", ""),
        ("STOR 1.bmp", "BM1"),
        ("PASV", ""),
        ("STOR 2.bmp", "not an image"),
        ("PASV", ""),
        ("STOR 3.txt", "BM3"),
        ("STOR 4.bmp", "BM4"),
    ];
    for (line, data) in lines {
        match session.handle_command(&config, line) {
            Action::OpenPassive => {
                session.passive_opened(&config, 1).unwrap();
            }
            Action::Receive { name, .. } => {
                if let Ok(message) = process_input(&upload_received(name, data.into())) {
                    messages.push(message);
                }
            }
            _ => {}
        }
    }
    assert_eq!(messages, [parent_message(b"BM1", "1.bmp"), parent_message(b"BM4", "4.bmp")]);
}

#[test]
fn pasv_address_is_parsed() {
    assert_eq!(
        parse_pasv_address("227 Entering Passive Mode (192,168,1,50,195,81)\r\n"),
        Ok("192.168.1.50:50001".to_string())
    );
    assert_eq!(parse_pasv_address("(0,0,0,0,0,0)"), Ok("0.0.0.0:0".to_string()));
    assert_eq!(parse_pasv_address("(1,2,3,4,0,65535)"), Ok("1.2.3.4:65535".to_string()));
    assert_eq!(parse_pasv_address("x(+1,02,3,4,1,2)y)"), Ok("1.2.3.4:258".to_string()));
}

#[test]
fn pasv_errors() {
    let refused = |reply: &str| parse_pasv_address(reply).unwrap_err();
    assert_eq!(refused("227 no address"), PasvError::NoAddress);
    assert_eq!(refused(")("), PasvError::NoClosingParenthesis);
    assert!(matches!(refused("()"), PasvError::NotANumber { .. }));
    assert_eq!(refused("(1,2,3,4,5)"), PasvError::InvalidFormat);
    assert_eq!(refused("(1,2,3,4,5,6,7)"), PasvError::InvalidFormat);
    assert_eq!(refused("(256,2,3,4,5,6)"), PasvError::InvalidFormat);
    assert_eq!(refused("").message(), "FTP PASV odpověď nemá adresu");
    assert_eq!(refused("(").message(), "FTP PASV odpověď nemá uzavírací závorku");
    assert_eq!(refused("(1,x)").message(), "invalid digit found in string");
    assert_eq!(refused("(1, 2,3,4,5,6)").message(), "invalid digit found in string");
    assert_eq!(refused("()").message(), "cannot parse integer from empty string");
    assert_eq!(refused("(1)").message(), "FTP PASV odpověď má neplatný formát");
}

#[test]
fn pasv_port_range() {
    assert!(pasv_port_in_range("(1,2,3,4,255,255)"));
    assert!(!pasv_port_in_range("(1,2,3,4,255,256)"));
    assert!(!pasv_port_in_range("(1,2,3,4,256,0)"));
    assert!(pasv_port_in_range("(1,2,3,400,256,0)"));
    assert!(pasv_port_in_range("nothing"));
}

#[test]
fn replies_are_checked() {
    assert_eq!(read_reply("x\n").unwrap(), "x\n");
    assert!(matches!(read_reply(""), Err(ClientError::NoReply)));
    assert!(expect_reply("220 ready\r\n", "220").is_ok());
    assert_eq!(
        expect_reply("", "220").unwrap_err().message(),
        "FTP server ukončil spojení bez odpovědi"
    );
    assert_eq!(
        expect_reply("530 no", "230").unwrap_err().message(),
        "FTP odpověď '530 no', očekáváno 230"
    );
}

#[test]
fn upload_stops_at_an_unexpected_reply() {
    let mut upload = Upload::new("u", "p");
    assert!(upload.handle_reply("421 busy\n").is_err());
    assert_eq!(upload.stage, Stage::Connected);
    upload.stage = Stage::PasvSent;
    assert_eq!(
        upload.handle_reply("530 Not logged in\n").unwrap_err().message(),
        "FTP PASV odpověď nemá adresu"
    );
    assert!(matches!(upload.handle_reply(""), Err(ClientError::NoReply)));
}

#[test]
fn lines_end_with_a_line_feed() {
    assert_eq!(reply("221 Goodbye"), b"221 Goodbye\n");
    assert_eq!(reply(""), b"\n");
    assert_eq!(send_command("PASS žluť"), "PASS žluť\n".as_bytes());
}

#[test]
fn session_is_answered_line_by_line() {
    let config = config();
    let mut session = Session::new();
    let mut replies = vec![GREETING.to_string()];
    let lines = ["USER keyence", "PASS tajné heslo", "PASV", "STOR a.bmp", "NOOP", "QUIT", "SYST"];
    for line in lines {
        match session.handle_command(&config, line) {
            Action::Reply { text } => replies.push(text),
            Action::OpenPassive => replies.push(session.passive_opened(&config, 258).unwrap()),
            Action::Receive { .. } => {
                replies.push(TRANSFER_STARTED.to_string());
                replies.push(TRANSFER_COMPLETE.to_string());
            }
            Action::Quit { text } => {
                replies.push(text);
                break;
            }
            Action::Fail { error } => panic!("{:?}", error),
        }
    }
    assert_eq!(
        replies,
        [
            "220 keyence-collector FTP ready",
            "331 Password required",
            "230 Logged in",
            "227 Entering Passive Mode (192,168,1,50,1,2)",
            "150 Opening data connection",
            "226 Transfer complete",
            "502 Command not implemented",
            "221 Goodbye",
        ]
    );
}

fn line(bytes: Vec<u8>) -> String {
    String::from_utf8(bytes).unwrap()
}

#[test]
fn validation_against_the_server_succeeds() {
    let config = config();
    let mut session = Session::new();
    let mut upload = Upload::new(&config.ftp_user, &config.ftp_password);
    let mut received = line(reply(GREETING));
    let mut connected_to = String::new();
    let mut received_name = String::new();
    let mut uploaded = Vec::new();
    while upload.stage != Stage::Finished {
        let command = match upload.handle_reply(&received).unwrap() {
            ClientAction::Send { command } => command,
            ClientAction::Connect { address, command } => {
                connected_to = address;
                command
            }
            ClientAction::Transfer { data } => {
                uploaded = data;
                received = line(reply(TRANSFER_COMPLETE));
                continue;
            }
            ClientAction::Finish { command } => command,
        };
        received = match session.handle_command(&config, &line(send_command(&command))) {
            Action::Reply { text } => line(reply(&text)),
            Action::OpenPassive => line(reply(&session.passive_opened(&config, 40_000).unwrap())),
            Action::Receive { name, .. } => {
                received_name = name;
                line(reply(TRANSFER_STARTED))
            }
            Action::Quit { text } => line(reply(&text)),
            Action::Fail { error } => panic!("{:?}", error),
        };
    }
    assert_eq!(connected_to, "192.168.1.50:40000");
    assert_eq!(received_name, "validator.bmp");
    assert_eq!(uploaded, test_bmp());
    assert_eq!(received, "221 Goodbye\n");
}
