use gm_tty::assets::{asset_path, found, serve_file, FileReply, Page};
use gm_tty::config::{agent_env, parse_command, terminal_url, Command, Config, FileRead, LoadStep};
use gm_tty::server::{authorize, Access};
use gm_tty::text::{is_whitespace, parse_comma_list, skip_leading, trim};
use gm_tty::token::{generate_token, token_from_bytes};

#[test]
fn token_is_the_hexadecimal_text_of_its_bytes() {
    let mut bytes = [0u8; 32];
    bytes[0] = 0xf7;
    bytes[1] = 0xd1;
    bytes[31] = 0x0a;
    let token = token_from_bytes(&bytes);
    assert_eq!(token.len(), 64);
    assert!(token.starts_with("f7d100"));
    assert!(token.ends_with("000a"));
}

#[test]
fn every_byte_becomes_two_digits() {
    for value in 0..=255u8 {
        let mut bytes = [0u8; 32];
        bytes[5] = value;
        assert_eq!(token_from_bytes(&bytes)[10..12], format!("{value:02x}"));
    }
}

#[test]
fn generated_tokens_are_hexadecimal_and_differ() {
    let a = generate_token();
    let b = generate_token();
    assert_eq!(a.len(), 64);
    assert!(a.chars().all(|c| matches!(c, '0'..='9' | 'a'..='f')));
    assert_ne!(a, b);
}

#[test]
fn white_space_is_what_the_standard_library_says() {
    for n in 0..=0x10ffffu32 {
        if let Some(c) = char::from_u32(n) {
            assert_eq!(is_whitespace(c), c.is_whitespace(), "{n:x}");
        }
    }
}

#[test]
fn trim_as_the_standard_library_does() {
    for s in ["", " ", "a", " a b ", "\t\u{3000}x\u{a0}\n", "x ", " x", "\u{200b}x"] {
        assert_eq!(trim(s), s.trim());
    }
}

#[test]
fn comma_lists() {
    assert_eq!(parse_comma_list("token1,token2"), ["token1", "token2"]);
    assert_eq!(parse_comma_list(" a , b c ,,\td"), ["a", "b c", "", "d"]);
    assert_eq!(parse_comma_list(""), [""]);
    assert_eq!(parse_comma_list(","), ["", ""]);
    for s in ["", ",", "a,b", " a ,b, ", ",,x", "\u{e9},\u{3000}\u{8d8a},"] {
        let expected: Vec<String> = s.split(',').map(|p| p.trim().to_string()).collect();
        assert_eq!(parse_comma_list(s), expected);
    }
}

#[test]
fn leading_slashes_are_skipped() {
    for s in ["", "/", "//", "/a/b", "a/b", "///x/"] {
        assert_eq!(skip_leading(s, '/'), s.trim_start_matches('/'));
    }
}

#[test]
fn default_settings() {
    let config = Config::default();
    assert_eq!(config.listen_addr, "0.0.0.0:7093");
    assert!(config.tokens.is_empty());
}

#[test]
fn loading_steps() {
    assert!(matches!(
        Config::load(FileRead::Content("x = 1".to_string())),
        LoadStep::Parse(text) if text == "x = 1"
    ));
    match Config::load(FileRead::NotFound) {
        LoadStep::Ready(config) => assert_eq!(config.listen_addr, "0.0.0.0:7093"),
        other => panic!("{other:?}"),
    }
    assert!(matches!(Config::load(FileRead::Failed), LoadStep::Fail));
}

#[test]
fn missing_fields_have_defaults() {
    let config = Config::from_fields(None, Some(vec!["t".to_string()]));
    assert_eq!(config.listen_addr, "0.0.0.0:7093");
    assert_eq!(config.tokens, ["t"]);
    let config = Config::from_fields(Some("127.0.0.1:1".to_string()), None);
    assert_eq!(config.listen_addr, "127.0.0.1:1");
    assert!(config.tokens.is_empty());
}

#[test]
fn environment_takes_the_place_of_the_tokens() {
    let config = Config::from_fields(None, Some(vec!["file".to_string()]));
    let config = config.override_tokens(Some("token1, token2".to_string()));
    assert_eq!(config.tokens, ["token1", "token2"]);
    assert_eq!(authorize(&config.tokens, &"token2".to_string()), Access::Upgrade);
    assert_eq!(authorize(&config.tokens, &"file".to_string()), Access::Deny(401));
    let config = config.override_tokens(None);
    assert_eq!(config.tokens, ["token1", "token2"]);
}

#[test]
fn fallback_token_only_where_there_is_none() {
    let (config, added) = Config::default().with_fallback_token("fresh".to_string());
    assert_eq!(config.tokens, ["fresh"]);
    assert_eq!(added, Some("fresh".to_string()));
    let (config, added) = config.with_fallback_token("other".to_string());
    assert_eq!(config.tokens, ["fresh"]);
    assert_eq!(added, None);
}

#[test]
fn server_without_tokens_gets_a_working_one() {
    let (config, added) = Config::default().ensure_token();
    let token = added.unwrap();
    assert_eq!(token.len(), 64);
    assert_eq!(config.tokens, [token.clone()]);
    assert_eq!(authorize(&config.tokens, &token), Access::Upgrade);
    let (config, added) = config.ensure_token();
    assert_eq!(config.tokens, [token]);
    assert_eq!(added, None);
}

#[test]
fn commands() {
    assert!(matches!(parse_command(Some("gen-token".to_string())), Command::GenToken));
    assert!(matches!(parse_command(Some("my.toml".to_string())), Command::Serve(p) if p == "my.toml"));
    assert!(matches!(parse_command(None), Command::Serve(p) if p == "server.toml"));
}

#[test]
fn addresses_that_are_printed() {
    assert_eq!(
        terminal_url("0.0.0.0:7093", "f7d1ba96"),
        "http://0.0.0.0:7093/terminal/f7d1ba96"
    );
    assert_eq!(
        agent_env("0.0.0.0:7093", "f7d1ba96"),
        "GM_TTY_SERVER=ws://0.0.0.0:7093 GM_TTY_TOKEN=f7d1ba96"
    );
}

#[test]
fn pages_and_files() {
    assert_eq!(asset_path(&Page::Index), "index.html");
    assert_eq!(asset_path(&Page::Terminal("abc".to_string())), "index.html");
    assert_eq!(asset_path(&Page::Path("/css/a.css".to_string())), "css/a.css");
    assert_eq!(asset_path(&Page::Path("//x".to_string())), "x");
}

#[test]
fn files_are_served_with_their_media_type() {
    for (path, media) in [
        ("index.html", "text/html"),
        ("css/style.css", "text/css"),
        ("logo.PNG", "image/png"),
        ("a.html/b", "application/octet-stream"),
        ("noextension", "application/octet-stream"),
        ("strange.qqqq", "application/octet-stream"),
    ] {
        let reply = serve_file(path, Some(vec![1, 2, 3]));
        assert_eq!(reply.status(), 200);
        match reply {
            FileReply::Found { content_type, body } => {
                assert_eq!(content_type, media);
                assert_eq!(body, [1, 2, 3]);
            }
            FileReply::Missing => panic!("missing"),
        }
    }
}

#[test]
fn unknown_files_are_missing() {
    let reply = serve_file("index.html", None);
    assert_eq!(reply.status(), 404);
    assert!(matches!(reply, FileReply::Missing));
}

#[test]
fn found_files_keep_what_they_are_given() {
    match found(vec![7], "text/plain".to_string()) {
        FileReply::Found { content_type, body } => {
            assert_eq!(content_type, "text/plain");
            assert_eq!(body, [7]);
        }
        FileReply::Missing => panic!("missing"),
    }
}

#[test]
fn different_bytes_make_different_tokens() {
    let a = [0x0fu8; 32];
    let mut b = a;
    b[17] = 0xf0;
    assert_ne!(token_from_bytes(&a), token_from_bytes(&b));
}
