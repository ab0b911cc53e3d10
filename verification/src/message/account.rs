use vstd::prelude::*;
use vstd::string::*;
use crate::byte_stream::{block_bytes, int_at, int_bytes, long_at, long_bytes, string_at, string_bytes, text_bytes, ByteStream};
use crate::byte_stream::{lemma_int_inside, lemma_long_inside, lemma_overwrite_at_end, lemma_overwrite_empty, lemma_string_inside, lemma_three_parts, text_fits};
use crate::logic::command::optional_text;
use crate::math::LogicLong;
use crate::network::{MessageView, PiranhaMessage};

verus! {

/// The type of the message by which a client logs in.
pub const LOGIN_MESSAGE: u16 = 10101;

/// The type of the message by which a client shows that it is there.
pub const KEEP_ALIVE_MESSAGE: u16 = 10108;

/// The type of the message that tells the client how to rekey.
pub const EXTENDED_SET_ENCRYPTION_MESSAGE: u16 = 20000;

/// The type of the message that tells the client that it is logged in.
pub const LOGIN_OK_MESSAGE: u16 = 20104;

/// The type of the server's answer to a keep-alive.
pub const KEEP_ALIVE_SERVER_MESSAGE: u16 = 20108;

/// The scrambler method that both sides use: the nonce is scrambled with a
/// generator that the client's seed starts.
pub const SCRAMBLER_METHOD: i32 = 1;

/// What a client sends to log in.
pub struct LoginMessage {
    pub account_id: LogicLong,
    pub pass_token: Option<String>,
    pub scrambler_seed: i32,
}

/// What a login holds, as plain values.
pub struct LoginView {
    pub account_id: LogicLong,
    pub pass_token: Option<Seq<char>>,
    pub scrambler_seed: i32,
}

impl View for LoginMessage {
    type V = LoginView;

    open spec fn view(&self) -> LoginView {
        LoginView {
            account_id: self.account_id,
            pass_token: optional_text(self.pass_token),
            scrambler_seed: self.scrambler_seed,
        }
    }
}

/// The payload of a login: identifier, token, seed.
pub open spec fn login_payload(m: LoginView) -> Seq<u8> {
    long_bytes(m.account_id) + string_bytes(m.pass_token) + int_bytes(m.scrambler_seed)
}

/// The login that a payload holds, if it holds one.
pub open spec fn login_in(payload: Seq<u8>) -> Option<LoginView> {
    let account_id = long_at(payload, 0);
    let pass_token = string_at(payload, 8);
    if account_id is None || pass_token is None {
        None
    } else {
        match int_at(payload, pass_token.unwrap().1) {
            None => None,
            Some(scrambler_seed) => Some(
                LoginView {
                    account_id: account_id.unwrap(),
                    pass_token: pass_token.unwrap().0,
                    scrambler_seed,
                },
            ),
        }
    }
}

/// A login whose token fits is read back from its payload.
pub proof fn lemma_login_round_trip(m: LoginView)
    requires
        m.pass_token is Some ==> text_fits(m.pass_token.unwrap()),
    ensures
        login_in(login_payload(m)) == Some(m),
{
    let id = long_bytes(m.account_id);
    let token = string_bytes(m.pass_token);
    let seed = int_bytes(m.scrambler_seed);
    let e = Seq::<u8>::empty();
    assert(id.len() == 8);
    lemma_three_parts(e, id, token, seed, e);
    lemma_overwrite_empty(login_payload(m));
    assert(e + (id + token + seed) + e == login_payload(m)) by {
        assert(e + (id + token + seed) + e =~= login_payload(m));
    }
    lemma_overwrite_empty(e + (id + token + seed) + e);
    assert(e + id == id && e + id + token == id + token) by {
        assert(e + id =~= id);
    }
    lemma_long_inside(e, 0, e, m.account_id, token + seed + e);
    lemma_string_inside(e, 0, e + id, m.pass_token, seed + e);
    lemma_int_inside(e, 0, e + id + token, m.scrambler_seed, e);
}

impl LoginMessage {
    pub fn new(account_id: LogicLong, pass_token: Option<String>, scrambler_seed: i32) -> (r: Self)
        ensures
            r.account_id == account_id,
            r.pass_token == pass_token,
            r.scrambler_seed == scrambler_seed,
    {
        Self { account_id, pass_token, scrambler_seed }
    }

    pub fn get_account_id(&self) -> (r: &LogicLong)
        ensures
            *r == self.account_id,
    {
        &self.account_id
    }

    pub fn get_pass_token(&self) -> (r: Option<&str>)
        ensures
            match r {
                Some(t) => self@.pass_token == Some(t@),
                None => self@.pass_token is None,
            },
    {
        match &self.pass_token {
            Some(t) => Some(t.as_str()),
            None => None,
        }
    }

    pub fn get_scrambler_seed(&self) -> (r: i32)
        ensures
            r == self.scrambler_seed,
    {
        self.scrambler_seed
    }

    /// Reads a login from the payload of `message`, whatever its type.
    pub fn decode(message: &PiranhaMessage) -> (r: Option<Self>)
        ensures
            match login_in(message@.payload) {
                Some(m) => r is Some && r.unwrap()@ == m,
                None => r is None,
            },
    {
        let mut stream = ByteStream::from(message.payload.as_slice());
        let account_id: LogicLong = match stream.read_long() {
            None => {
                return None;
            },
            Some(v) => v,
        };
        let pass_token: Option<String> = match stream.read_string() {
            None => {
                return None;
            },
            Some(v) => v,
        };
        let scrambler_seed: i32 = match stream.read_int() {
            None => {
                return None;
            },
            Some(v) => v,
        };
        Some(Self { account_id, pass_token, scrambler_seed })
    }

    /// The message that carries this login.
    pub fn encode(&self) -> (r: PiranhaMessage)
        ensures
            r@ == (MessageView {
                message_type: LOGIN_MESSAGE,
                version: 0,
                payload: login_payload(self@),
            }),
    {
        let mut stream = ByteStream::new(16);
        stream.write_long(&self.account_id);
        proof {
            lemma_overwrite_empty(long_bytes(self.account_id));
        }
        let ghost b1 = stream.buffer@;
        match &self.pass_token {
            Some(t) => {
                stream.write_string(Some(t.as_str()));
            },
            None => {
                stream.write_string(None);
            },
        }
        proof {
            lemma_overwrite_at_end(b1, string_bytes(self@.pass_token));
        }
        let ghost b2 = stream.buffer@;
        stream.write_int(self.scrambler_seed);
        proof {
            lemma_overwrite_at_end(b2, int_bytes(self.scrambler_seed));
        }
        PiranhaMessage::new(LOGIN_MESSAGE, 0, stream.buffer)
    }
}

/// What the server sends to start the key rotation: the nonce from which
/// both sides derive the session key, and how to scramble it.
pub struct ExtendedSetEncryptionMessage {
    pub nonce: Vec<u8>,
    pub scrambler_method: i32,
}

/// The payload of a key rotation: nonce, method.
pub open spec fn set_encryption_payload(nonce: Seq<u8>, scrambler_method: i32) -> Seq<u8> {
    block_bytes(Some(nonce)) + int_bytes(scrambler_method)
}

impl ExtendedSetEncryptionMessage {
    /// A key rotation without a nonce, with method zero.
    pub fn new() -> (r: Self)
        ensures
            r.nonce@ == Seq::<u8>::empty(),
            r.scrambler_method == 0,
    {
        Self { nonce: Vec::new(), scrambler_method: 0 }
    }

    pub fn set_nonce(&mut self, nonce: &[u8])
        ensures
            final(self).nonce@ == nonce@,
            final(self).scrambler_method == old(self).scrambler_method,
    {
        let mut copy: Vec<u8> = Vec::with_capacity(nonce.len());
        copy.extend_from_slice(nonce);
        assert(copy@ =~= nonce@);
        self.nonce = copy;
    }

    pub fn set_scrambler_method(&mut self, method: i32)
        ensures
            final(self).nonce == old(self).nonce,
            final(self).scrambler_method == method,
    {
        self.scrambler_method = method;
    }

    /// The message that carries this key rotation.
    pub fn encode(&self) -> (r: PiranhaMessage)
        ensures
            r@ == (MessageView {
                message_type: EXTENDED_SET_ENCRYPTION_MESSAGE,
                version: 0,
                payload: set_encryption_payload(self.nonce@, self.scrambler_method),
            }),
    {
        let mut stream = ByteStream::new(16);
        stream.write_bytes(Some(self.nonce.as_slice()));
        proof {
            lemma_overwrite_empty(block_bytes(Some(self.nonce@)));
        }
        let ghost b1 = stream.buffer@;
        stream.write_int(self.scrambler_method);
        proof {
            lemma_overwrite_at_end(b1, int_bytes(self.scrambler_method));
        }
        PiranhaMessage::new(EXTENDED_SET_ENCRYPTION_MESSAGE, 0, stream.buffer)
    }
}

/// What the server sends once a login has succeeded.
pub struct LoginOkMessage {
    pub account_id: LogicLong,
    pub home_id: LogicLong,
    pub pass_token: String,
    pub server_major_version: i32,
    pub server_build: i32,
    pub content_version: i32,
    pub server_environment: String,
}

/// What a login success holds, as plain values.
pub struct LoginOkView {
    pub account_id: LogicLong,
    pub home_id: LogicLong,
    pub pass_token: Seq<char>,
    pub server_major_version: i32,
    pub server_build: i32,
    pub content_version: i32,
    pub server_environment: Seq<char>,
}

impl View for LoginOkMessage {
    type V = LoginOkView;

    open spec fn view(&self) -> LoginOkView {
        LoginOkView {
            account_id: self.account_id,
            home_id: self.home_id,
            pass_token: self.pass_token@,
            server_major_version: self.server_major_version,
            server_build: self.server_build,
            content_version: self.content_version,
            server_environment: self.server_environment@,
        }
    }
}

/// The payload of a login success: both identifiers, the token, the three
/// version numbers, the environment.
pub open spec fn login_ok_payload(m: LoginOkView) -> Seq<u8> {
    long_bytes(m.account_id) + long_bytes(m.home_id) + text_bytes(m.pass_token) + int_bytes(
        m.server_major_version,
    ) + int_bytes(m.server_build) + int_bytes(m.content_version) + text_bytes(m.server_environment)
}

/// The login success that `LoginOkMessage::new` gives.
pub open spec fn blank_login_ok() -> LoginOkView {
    LoginOkView {
        account_id: LogicLong { higher_int: 0, lower_int: 0 },
        home_id: LogicLong { higher_int: 0, lower_int: 0 },
        pass_token: Seq::empty(),
        server_major_version: 0,
        server_build: 0,
        content_version: 0,
        server_environment: Seq::empty(),
    }
}

impl LoginOkMessage {
    pub fn new() -> (r: Self)
        ensures
            r@ == blank_login_ok(),
    {
        Self {
            account_id: LogicLong::new(0, 0),
            home_id: LogicLong::new(0, 0),
            pass_token: String::new(),
            server_major_version: 0,
            server_build: 0,
            content_version: 0,
            server_environment: String::new(),
        }
    }

    pub fn set_account_id(&mut self, account_id: LogicLong)
        ensures
            final(self)@ == (LoginOkView { account_id, ..old(self)@ }),
    {
        self.account_id = account_id;
    }

    pub fn set_home_id(&mut self, home_id: LogicLong)
        ensures
            final(self)@ == (LoginOkView { home_id, ..old(self)@ }),
    {
        self.home_id = home_id;
    }

    pub fn set_pass_token(&mut self, pass_token: &str)
        ensures
            final(self)@ == (LoginOkView { pass_token: pass_token@, ..old(self)@ }),
    {
        self.pass_token = String::from_str(pass_token);
    }

    pub fn set_server_major_version(&mut self, value: i32)
        ensures
            final(self)@ == (LoginOkView { server_major_version: value, ..old(self)@ }),
    {
        self.server_major_version = value;
    }

    pub fn set_server_build(&mut self, value: i32)
        ensures
            final(self)@ == (LoginOkView { server_build: value, ..old(self)@ }),
    {
        self.server_build = value;
    }

    pub fn set_content_version(&mut self, value: i32)
        ensures
            final(self)@ == (LoginOkView { content_version: value, ..old(self)@ }),
    {
        self.content_version = value;
    }

    pub fn set_server_environment(&mut self, value: &str)
        ensures
            final(self)@ == (LoginOkView { server_environment: value@, ..old(self)@ }),
    {
        self.server_environment = String::from_str(value);
    }

    /// The message that carries this login success.
    pub fn encode(&self) -> (r: PiranhaMessage)
        ensures
            r@ == (MessageView {
                message_type: LOGIN_OK_MESSAGE,
                version: 0,
                payload: login_ok_payload(self@),
            }),
    {
        let mut stream = ByteStream::new(64);
        stream.write_long(&self.account_id);
        proof {
            lemma_overwrite_empty(long_bytes(self.account_id));
        }
        let ghost b1 = stream.buffer@;
        stream.write_long(&self.home_id);
        proof {
            lemma_overwrite_at_end(b1, long_bytes(self.home_id));
        }
        let ghost b2 = stream.buffer@;
        stream.write_text(self.pass_token.as_str());
        proof {
            lemma_overwrite_at_end(b2, text_bytes(self.pass_token@));
        }
        let ghost b3 = stream.buffer@;
        stream.write_int(self.server_major_version);
        proof {
            lemma_overwrite_at_end(b3, int_bytes(self.server_major_version));
        }
        let ghost b4 = stream.buffer@;
        stream.write_int(self.server_build);
        proof {
            lemma_overwrite_at_end(b4, int_bytes(self.server_build));
        }
        let ghost b5 = stream.buffer@;
        stream.write_int(self.content_version);
        proof {
            lemma_overwrite_at_end(b5, int_bytes(self.content_version));
        }
        let ghost b6 = stream.buffer@;
        stream.write_text(self.server_environment.as_str());
        proof {
            lemma_overwrite_at_end(b6, text_bytes(self.server_environment@));
        }
        PiranhaMessage::new(LOGIN_OK_MESSAGE, 0, stream.buffer)
    }
}

/// The server's answer to a keep-alive. It carries nothing.
pub struct KeepAliveServerMessage {}

impl KeepAliveServerMessage {
    pub fn new() -> Self {
        Self {  }
    }

    /// The message that carries this answer.
    pub fn encode(&self) -> (r: PiranhaMessage)
        ensures
            r@ == (MessageView {
                message_type: KEEP_ALIVE_SERVER_MESSAGE,
                version: 0,
                payload: Seq::empty(),
            }),
    {
        PiranhaMessage::new(KEEP_ALIVE_SERVER_MESSAGE, 0, Vec::new())
    }
}

} // verus!
