//! The server's settings: where it listens and which tokens it accepts.

use crate::text::parse_comma_list;
use crate::token::generate_token;
use vstd::prelude::*;

verus! {

/// What the command line asks of the server.
#[derive(Debug)]
pub enum Command {
    /// Print a new token.
    GenToken,
    /// Run, with the settings in this file.
    Serve(String),
}

/// Reads the first argument: `gen-token`, or the name of the settings file, which is
/// `server.toml` unless it is given.
pub fn parse_command(first: Option<String>) -> (command: Command)
    ensures
        match first {
            Some(arg) => if arg@ == "gen-token"@ {
                command is GenToken
            } else {
                command == Command::Serve(arg)
            },
            None => command matches Command::Serve(path) && path@ == "server.toml"@,
        },
{
    match first {
        Some(arg) => {
            if arg == "gen-token".to_owned() {
                Command::GenToken
            } else {
                Command::Serve(arg)
            }
        },
        None => Command::Serve("server.toml".to_owned()),
    }
}

/// How the reading of the settings file went.
#[derive(Debug)]
pub enum FileRead {
    Content(String),
    NotFound,
    /// Any other failure.
    Failed,
}

/// What follows the reading of the settings file.
#[derive(Debug)]
pub enum LoadStep {
    /// Parse this text.
    Parse(String),
    /// Go on with these settings.
    Ready(Config),
    /// Report the failure.
    Fail,
}

#[derive(Debug)]
pub struct Config {
    /// The address to listen on, as `host:port`.
    pub listen_addr: String,
    /// The tokens that open a session.
    pub tokens: Vec<String>,
}

impl Config {
    /// The settings of a server that was told nothing.
    pub open spec fn is_default(self) -> bool {
        self.listen_addr@ == "0.0.0.0:7093"@ && self.tokens@ == Seq::<String>::empty()
    }
}

impl Default for Config {
    fn default() -> (config: Self)
        ensures
            config.is_default(),
    {
        Config { listen_addr: "0.0.0.0:7093".to_owned(), tokens: Vec::new() }
    }
}

impl Config {
    /// Decides what follows the reading of the settings file: without a file the settings are the
    /// default ones.
    pub fn load(read: FileRead) -> (step: LoadStep)
        ensures
            match read {
                FileRead::Content(text) => step == LoadStep::Parse(text),
                FileRead::NotFound => step matches LoadStep::Ready(config) && config.is_default(),
                FileRead::Failed => step is Fail,
            },
    {
        match read {
            FileRead::Content(text) => LoadStep::Parse(text),
            FileRead::NotFound => LoadStep::Ready(Config::default()),
            FileRead::Failed => LoadStep::Fail,
        }
    }

    /// The settings that a file states. What it leaves out is as in the default settings.
    pub fn from_fields(listen_addr: Option<String>, tokens: Option<Vec<String>>) -> (config: Self)
        ensures
            match listen_addr {
                Some(addr) => config.listen_addr == addr,
                None => config.listen_addr@ == "0.0.0.0:7093"@,
            },
            match tokens {
                Some(list) => config.tokens == list,
                None => config.tokens@ == Seq::<String>::empty(),
            },
    {
        let fallback = Config::default();
        Config {
            listen_addr: match listen_addr {
                Some(addr) => addr,
                None => fallback.listen_addr,
            },
            tokens: match tokens {
                Some(list) => list,
                None => fallback.tokens,
            },
        }
    }

    /// Lets a comma-separated list, where the environment gives one, take the place of the
    /// tokens.
    pub fn override_tokens(self, list: Option<String>) -> (config: Self)
        ensures
            config.listen_addr == self.listen_addr,
            match list {
                Some(text) => crate::text::views(config.tokens@) == crate::text::comma_list(text@),
                None => config.tokens == self.tokens,
            },
    {
        match list {
            Some(text) => Config {
                listen_addr: self.listen_addr,
                tokens: parse_comma_list(text.as_str()),
            },
            None => self,
        }
    }

    /// Adds a token where there is none. The second part is the token that was added.
    pub fn with_fallback_token(self, fresh: String) -> (result: (Self, Option<String>))
        ensures
            result.0.listen_addr == self.listen_addr,
            if self.tokens@.len() == 0 {
                result.0.tokens@ == seq![fresh] && result.1 == Some(fresh)
            } else {
                result.0 == self && result.1 is None
            },
    {
        let mut config = self;
        if config.tokens.len() == 0 {
            config.tokens.push(fresh.clone());
            assert(config.tokens@ =~= seq![fresh]);
            (config, Some(fresh))
        } else {
            (config, None)
        }
    }

    /// Makes sure that there is a token, if need be a new one for this run only, which is the
    /// second part of the result.
    pub fn ensure_token(self) -> (result: (Self, Option<String>))
        ensures
            result.0.listen_addr == self.listen_addr,
            result.0.tokens@.len() > 0,
            result.1 matches Some(token) ==> crate::server::is_valid(result.0.tokens@, token@),
            if self.tokens@.len() == 0 {
                result.1 matches Some(token) && result.0.tokens@ == seq![token] && exists|
                    bytes: Seq<u8>,
                |
                    bytes.len() == 32 && token@ == #[trigger] crate::token::hex_text(bytes)
            } else {
                result.0 == self && result.1 is None
            },
            self.tokens@.len() == 0 ==> exists|drawn: [u8; 32]| #[trigger]
                crate::token::is_drawn(drawn) && result.1->0@ == crate::token::hex_text(drawn@),
    {
        if self.tokens.len() == 0 {
            let result = self.with_fallback_token(generate_token());
            assert(result.0.tokens@[0]@ == result.1->0@);
            result
        } else {
            (self, None)
        }
    }
}

/// The tokens of a comma-separated list are the ones that are accepted: each part between the
/// commas, without the white space around it, and no other token.
pub proof fn overriding_tokens_are_the_valid_ones(tokens: Seq<String>, list: Seq<char>, token: Seq<char>)
    requires
        crate::text::views(tokens) == crate::text::comma_list(list),
    ensures
        crate::server::is_valid(tokens, token) <==> crate::text::comma_list(list).contains(token),
{
    let items = crate::text::views(tokens);
    if crate::server::is_valid(tokens, token) {
        let i = choose|i: int| 0 <= i < tokens.len() && (#[trigger] tokens[i])@ == token;
        assert(items[i] == token);
    }
    if items.contains(token) {
        let i = choose|i: int| 0 <= i < items.len() && items[i] == token;
        assert(tokens[i]@ == token);
    }
}

/// The address at which a browser opens the terminal of a token.
pub fn terminal_url(listen_addr: &str, token: &str) -> (url: String)
    ensures
        url@ == "http://"@ + listen_addr@ + "/terminal/"@ + token@,
{
    let mut url = "http://".to_owned();
    url.append(listen_addr);
    url.append("/terminal/");
    url.append(token);
    url
}

/// The environment in which an agent finds the server under a token.
pub fn agent_env(listen_addr: &str, token: &str) -> (env: String)
    ensures
        env@ == "GM_TTY_SERVER=ws://"@ + listen_addr@ + " GM_TTY_TOKEN="@ + token@,
{
    let mut env = "GM_TTY_SERVER=ws://".to_owned();
    env.append(listen_addr);
    env.append(" GM_TTY_TOKEN=");
    env.append(token);
    env
}

/// `gen-token` asks for a token, every other argument names the settings file, and without an
/// argument that is `server.toml`.
pub proof fn command_of_argument(first: Option<String>, command: Command)
    requires
        call_ensures(parse_command, (first,), command),
    ensures
        command is GenToken <==> (first matches Some(arg) && arg@ == "gen-token"@),
        command matches Command::Serve(path) ==> path@ == match first {
            Some(arg) => arg@,
            None => "server.toml"@,
        },
{
}

/// The default settings listen on port 7093 of every interface and accept no token.
pub proof fn default_settings(config: Config)
    requires
        call_ensures(<Config as Default>::default, (), config),
    ensures
        config.listen_addr@ == "0.0.0.0:7093"@,
        config.tokens@.len() == 0,
{
}

/// The text of a settings file is parsed as it is, without a file the settings are the default
/// ones, and any other failure is reported.
pub proof fn settings_follow_the_file(read: FileRead, step: LoadStep, default: Config)
    requires
        call_ensures(Config::load, (read,), step),
        call_ensures(<Config as Default>::default, (), default),
    ensures
        read is Content <==> step is Parse,
        read is NotFound <==> step is Ready,
        read is Failed <==> step is Fail,
        read matches FileRead::Content(text) ==> (step matches LoadStep::Parse(t) && t@ == text@),
        step matches LoadStep::Ready(config) ==> config.listen_addr@ == default.listen_addr@
            && config.tokens@ == default.tokens@,
{
}

/// What a settings file states is what the settings are, and what it leaves out is as in the
/// default ones.
pub proof fn stated_settings(
    listen_addr: Option<String>,
    tokens: Option<Vec<String>>,
    config: Config,
    default: Config,
)
    requires
        call_ensures(Config::from_fields, (listen_addr, tokens), config),
        call_ensures(<Config as Default>::default, (), default),
    ensures
        listen_addr matches Some(addr) ==> config.listen_addr@ == addr@,
        listen_addr is None ==> config.listen_addr@ == default.listen_addr@,
        tokens matches Some(list) ==> config.tokens@ == list@,
        tokens is None ==> config.tokens@ == default.tokens@,
{
}

/// A list that the environment gives takes the place of the tokens, item by item as it reads; the
/// address stays; and without a list nothing changes.
pub proof fn overridden_settings(
    config: Config,
    list: Option<String>,
    after: Config,
    text: &str,
    items: Vec<String>,
)
    requires
        call_ensures(Config::override_tokens, (config, list), after),
        call_ensures(parse_comma_list, (text,), items),
    ensures
        after.listen_addr@ == config.listen_addr@,
        list is None ==> after.tokens@ == config.tokens@,
        list matches Some(given) && given@ == text@ ==> {
            &&& after.tokens@.len() == items@.len()
            &&& forall|i: int| 0 <= i < items@.len() ==> (#[trigger] after.tokens@[i])@ == items@[i]@
        },
{
    crate::text::views_are_in_place(after.tokens@);
    crate::text::views_are_in_place(items@);
    if list is Some && list->0@ == text@ {
        let a = crate::text::views(after.tokens@);
        let b = crate::text::views(items@);
        assert(a == b);
        assert forall|i: int| 0 <= i < items@.len() implies (#[trigger] after.tokens@[i])@
            == items@[i]@ by {
            assert(a[i] == b[i]);
        }
    }
}

/// A token whose text stands alone in the list of the environment, with nothing but white space
/// around it, is accepted, and no other is.
pub proof fn overriding_token_is_accepted(
    config: Config,
    list: String,
    after: Config,
    front: Seq<char>,
    core: Seq<char>,
    back: Seq<char>,
    token: &String,
    access: crate::server::Access,
)
    requires
        call_ensures(Config::override_tokens, (config, Some(list)), after),
        list@ == front + core + back,
        !list@.contains(','),
        crate::text::all_white(front),
        crate::text::is_bare(core),
        crate::text::all_white(back),
        call_ensures(crate::server::authorize, (&after.tokens, token), access),
    ensures
        access is Upgrade <==> token@ == core,
{
    crate::text::items_are_the_trimmed_parts(list@, front, core, back);
    crate::text::views_are_in_place(after.tokens@);
    let items = crate::text::views(after.tokens@);
    assert(items.len() == 1);
    assert(items[0] == core);
    assert(after.tokens@[0]@ == core);
}

/// The given token is added exactly where there is none, and is then reported.
pub proof fn fallback_token(
    config: Config,
    fresh: String,
    result: (Config, Option<String>),
)
    requires
        call_ensures(Config::with_fallback_token, (config, fresh), result),
    ensures
        result.0.listen_addr@ == config.listen_addr@,
        config.tokens@.len() > 0 ==> result.0.tokens@ == config.tokens@ && result.1 is None,
        config.tokens@.len() == 0 ==> {
            &&& result.0.tokens@.len() == 1
            &&& result.0.tokens@[0]@ == fresh@
            &&& result.1 matches Some(added) && added@ == fresh@
        },
{
}

/// There is always a token afterwards: the ones that there were, or a new one that spells out
/// thirty-two bytes drawn at random. The one that is reported opens a session.
pub proof fn ensured_token(
    config: Config,
    result: (Config, Option<String>),
    token: &String,
    access: crate::server::Access,
)
    requires
        call_ensures(Config::ensure_token, (config,), result),
        call_ensures(crate::server::authorize, (&result.0.tokens, token), access),
    ensures
        result.0.listen_addr@ == config.listen_addr@,
        config.tokens@.len() > 0 ==> result.0.tokens@ == config.tokens@ && result.1 is None,
        config.tokens@.len() == 0 ==> {
            &&& result.1 matches Some(added)
            &&& result.0.tokens@.len() == 1
            &&& added@.len() == 64
            &&& access is Upgrade <==> token@ == added@
            &&& exists|drawn: [u8; 32]| #[trigger]
                crate::token::is_drawn(drawn) && forall|k: int|
                    0 <= k < 32 ==> added@[2 * k] == "0123456789abcdef"@[(
                    #[trigger] drawn@[k]) as int / 16] && added@[2 * k + 1]
                        == "0123456789abcdef"@[drawn@[k] as int % 16]
        },
{
    if config.tokens@.len() == 0 {
        let added = result.1->0;
        let drawn = choose|drawn: [u8; 32]| #[trigger]
            crate::token::is_drawn(drawn) && added@ == crate::token::hex_text(drawn@);
        crate::token::hex_text_digits(drawn@);
        assert(result.0.tokens@[0] == added);
    }
}

/// The lines that tell where to go: the page of a token, and the environment of its agent.
pub proof fn printed_addresses(
    listen_addr: &str,
    token: &str,
    url: String,
    env: String,
)
    requires
        call_ensures(terminal_url, (listen_addr, token), url),
        call_ensures(agent_env, (listen_addr, token), env),
    ensures
        url@ == "http://"@ + listen_addr@ + "/terminal/"@ + token@,
        env@ == "GM_TTY_SERVER=ws://"@ + listen_addr@ + " GM_TTY_TOKEN="@ + token@,
{
}

} // verus!
