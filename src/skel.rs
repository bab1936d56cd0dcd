use vstd::prelude::*;
use vstd::string::StringExecFns;

verus! {

/// Status of a response.
#[derive(PartialEq, Eq, Structural, Clone, Copy, Debug)]
pub enum StatCode {
    /// Request carried out.
    AckOk,
    /// Data received and stored.
    AckDr,
    /// Data sent in the response.
    AckDs,
    /// Resource missing or the store failed.
    NoHnd,
    /// The client is not a member of the channel.
    NoPer,
    /// An integrity check failed.
    SecFt,
}

/// The numeric code of each status.
pub open spec fn status_number(c: StatCode) -> u16 {
    match c {
        StatCode::AckOk => 200,
        StatCode::AckDr => 201,
        StatCode::AckDs => 202,
        StatCode::NoPer => 400,
        StatCode::NoHnd => 500,
        StatCode::SecFt => 520,
    }
}

/// The wire text of each status.
pub open spec fn status_text(c: StatCode) -> Seq<char> {
    match c {
        StatCode::AckOk => "200"@,
        StatCode::AckDr => "201"@,
        StatCode::AckDs => "202"@,
        StatCode::NoPer => "400"@,
        StatCode::NoHnd => "500"@,
        StatCode::SecFt => "520"@,
    }
}

impl StatCode {
    pub fn number(&self) -> (r: u16)
        ensures
            r == status_number(*self),
    {
        match self {
            StatCode::AckOk => 200,
            StatCode::AckDr => 201,
            StatCode::AckDs => 202,
            StatCode::NoPer => 400,
            StatCode::NoHnd => 500,
            StatCode::SecFt => 520,
        }
    }

    /// The status as it is written on the wire.
    pub fn render(&self) -> (r: String)
        ensures
            r@ == status_text(*self),
    {
        match self {
            StatCode::AckOk => "200".to_owned(),
            StatCode::AckDr => "201".to_owned(),
            StatCode::AckDs => "202".to_owned(),
            StatCode::NoPer => "400".to_owned(),
            StatCode::NoHnd => "500".to_owned(),
            StatCode::SecFt => "520".to_owned(),
        }
    }
}

/// An integrity hash carried with data.
pub enum Integrity {
    Hash(String),
}

impl Integrity {
    /// The hash itself.
    pub fn render(&self) -> (r: String)
        ensures
            r@ == (match self {
                Integrity::Hash(h) => h@,
            }),
    {
        match self {
            Integrity::Hash(h) => h.clone(),
        }
    }
}

/// Data carried by a response, with its integrity hash.
pub enum Payload {
    Data(String, Integrity),
}

impl Payload {
    /// `data/hash`.
    pub fn render(&self) -> (r: String)
        ensures
            r@ == (match self {
                Payload::Data(d, Integrity::Hash(h)) => d@ + "/"@ + h@,
            }),
    {
        match self {
            Payload::Data(d, Integrity::Hash(h)) => {
                let mut s = d.clone();
                s.append("/");
                s.append(h.as_str());
                s
            },
        }
    }
}

/// A response sent back to the client.
pub enum Responses {
    Code(StatCode),
    Data(StatCode, Payload),
}

/// The wire text of a response: the status, or `status,body/hash`.
pub open spec fn response_text(r: Responses) -> Seq<char> {
    match r {
        Responses::Code(c) => status_text(c),
        Responses::Data(c, Payload::Data(body, Integrity::Hash(h))) => status_text(c) + ","@
            + body@ + "/"@ + h@,
    }
}

impl Responses {
    pub open spec fn status(&self) -> StatCode {
        match self {
            Responses::Code(c) => *c,
            Responses::Data(c, _) => *c,
        }
    }

    /// The response as it is written on the wire.
    pub fn render(&self) -> (r: String)
        ensures
            r@ == response_text(*self),
    {
        match self {
            Responses::Code(c) => c.render(),
            Responses::Data(c, Payload::Data(body, Integrity::Hash(h))) => {
                let mut s = c.render();
                s.append(",");
                s.append(body.as_str());
                s.append("/");
                s.append(h.as_str());
                s
            },
        }
    }
}

/// A request that carries a payload after its command.
pub struct RequestData {
    pub command: String,
    pub data: String,
    pub requestid: String,
    pub integrity: bool,
}

/// A request made of a command alone.
pub struct RequestCode {
    pub command: String,
    pub requestid: String,
    pub integrity: bool,
}

/// A parsed request; `integrity` is computed, never read from the wire.
pub enum Request {
    Code(RequestCode),
    Data(RequestData),
}

pub open spec fn bool_text(b: bool) -> Seq<char> {
    if b {
        "true"@
    } else {
        "false"@
    }
}

fn render_bool(b: bool) -> (r: String)
    ensures
        r@ == bool_text(b),
{
    if b {
        "true".to_owned()
    } else {
        "false".to_owned()
    }
}

impl RequestData {
    /// `command,data,requestid,integrity`.
    pub fn render(&self) -> (r: String)
        ensures
            r@ == self.command@ + ","@ + self.data@ + ","@ + self.requestid@ + ","@ + bool_text(
                self.integrity,
            ),
    {
        let mut s = self.command.clone();
        s.append(",");
        s.append(self.data.as_str());
        s.append(",");
        s.append(self.requestid.as_str());
        s.append(",");
        s.append(render_bool(self.integrity).as_str());
        s
    }
}

impl RequestCode {
    /// `command,requestid,integrity`.
    pub fn render(&self) -> (r: String)
        ensures
            r@ == self.command@ + ","@ + self.requestid@ + ","@ + bool_text(self.integrity),
    {
        let mut s = self.command.clone();
        s.append(",");
        s.append(self.requestid.as_str());
        s.append(",");
        s.append(render_bool(self.integrity).as_str());
        s
    }
}

impl Request {
    /// The request as its variant renders it.
    pub fn render(&self) -> (r: String)
        ensures
            r@ == (match self {
                Request::Code(c) => c.command@ + ","@ + c.requestid@ + ","@ + bool_text(
                    c.integrity,
                ),
                Request::Data(d) => d.command@ + ","@ + d.data@ + ","@ + d.requestid@ + ","@
                    + bool_text(d.integrity),
            }),
    {
        match self {
            Request::Code(c) => c.render(),
            Request::Data(d) => d.render(),
        }
    }

    pub open spec fn integrity_ok(&self) -> bool {
        match self {
            Request::Code(d) => d.integrity,
            Request::Data(d) => d.integrity,
        }
    }
}

/// An e-mail carried as a message body.
pub struct Email {
    pub to: String,
    pub subject: String,
    pub body: String,
}

impl Email {
    /// `To: <to>\nSubject: <subject>\n\n<body>`.
    pub fn render(&self) -> (r: String)
        ensures
            r@ == "To: "@ + self.to@ + "\nSubject: "@ + self.subject@ + "\n\n"@ + self.body@,
    {
        let mut s = "To: ".to_owned();
        s.append(self.to.as_str());
        s.append("\nSubject: ");
        s.append(self.subject.as_str());
        s.append("\n\n");
        s.append(self.body.as_str());
        s
    }
}

/// One message row of a channel; `uuid` is the integrity hash of `message`.
pub struct Message {
    pub uuid: String,
    pub message_type: String,
    pub message: String,
}

/// Credentials of the message store.
pub struct Database {
    pub username: String,
    pub password: String,
    pub hostaddr: String,
    pub database: String,
}

} // verus!
