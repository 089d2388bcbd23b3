//! The publisher: its configuration, connection settings and topic, and
//! the message it publishes for each snapshot.

use vstd::prelude::*;
use crate::payload::{put_all, Entry, Payload};
use vstd::string::StringExecFns;

verus! {

/// A value that can add its named fields to a payload.
pub trait Message: Sized {
    /// The keys and values this value writes, in the order it writes them.
    spec fn fields(&self) -> Seq<Entry>;

    /// Puts each of `fields` into `map`, first to last.
    fn write(&self, map: &mut Payload)
        requires
            old(map).wf(),
        ensures
            final(map).wf(),
            final(map)@ == put_all(old(map)@, self.fields()),
    ;
}


/// The JSON string literal of `s` as the json crate writes it.
pub uninterp spec fn json_string_of(s: Seq<char>) -> Seq<char>;

/// Whether `s` holds no character that a JSON string must escape: no
/// control character, no quote, no backslash.
pub open spec fn needs_no_escape(s: Seq<char>) -> bool {
    forall|i: int| 0 <= i < s.len() ==> (s[i] as u32) >= 0x20 && s[i] != '"' && s[i] != '\\'
}

/// Relies on `json::stringify` on a `&str`: it writes the string as a JSON
/// string literal, a quote, the text with quotes, backslashes and control
/// characters escaped, and a quote; nothing is escaped in other text.
#[verifier::external_body]
fn json_string(s: &str) -> (r: String)
    ensures
        r@ == json_string_of(s@),
        needs_no_escape(s@) ==> r@ == seq!['"'] + s@ + seq!['"'],
{
    json::stringify(s)
}

/// The member text `"key":"value"` of one entry.
pub open spec fn member_text(p: Entry) -> Seq<char> {
    json_string_of(p.0) + seq![':'] + json_string_of(p.1)
}

/// The member texts of `e`, separated by commas.
pub open spec fn members_text(e: Seq<Entry>) -> Seq<char>
    decreases e.len(),
{
    if e.len() == 0 {
        Seq::empty()
    } else if e.len() == 1 {
        member_text(e[0])
    } else {
        members_text(e.drop_last()) + seq![','] + member_text(e.last())
    }
}

/// The JSON object text of `e`, its members in order.
pub open spec fn object_text(e: Seq<Entry>) -> Seq<char> {
    seq!['{'] + members_text(e) + seq!['}']
}

/// The published body for payload `e`: an object whose `action` is
/// `"update"` and whose `values` is the object of `e`.
pub open spec fn envelope_text(e: Seq<Entry>) -> Seq<char> {
    seq!['{'] + member_text(("action"@, "update"@)) + seq![','] + json_string_of("values"@)
        + seq![':'] + object_text(e) + seq!['}']
}

fn push_json_string(out: &mut String, s: &str)
    ensures
        final(out)@ == old(out)@ + json_string_of(s@),
{
    let j = json_string(s);
    out.append(j.as_str());
}

/// The body published for `payload`: `{"action":"update","values":{...}}`
/// with one `"key":"value"` member for each entry, in the payload's order.
pub fn envelope(payload: &Payload) -> (r: String)
    ensures
        r@ == envelope_text(payload@),
        r@ == "{\"action\":\"update\",\"values\":"@ + object_text(payload@) + "}"@,
{
    proof {
        reveal_strlit("{");
        reveal_strlit("}");
        reveal_strlit(":");
        reveal_strlit(",");
        reveal_strlit("action");
        reveal_strlit("update");
        reveal_strlit("values");
        reveal_strlit("{\"action\":\"update\",\"values\":");
    }
    let mut out = String::new();
    out.append("{");
    let action = json_string("action");
    let update = json_string("update");
    let values = json_string("values");
    out.append(action.as_str());
    out.append(":");
    out.append(update.as_str());
    out.append(",");
    out.append(values.as_str());
    out.append(":");
    out.append("{");
    let ghost head = out@;
    assert(head =~= seq!['{'] + member_text(("action"@, "update"@)) + seq![','] + json_string_of("values"@) + seq![':', '{']);
    assert(head =~= "{\"action\":\"update\",\"values\":"@ + seq!['{']);
    let n = payload.len();
    let mut i: usize = 0;
    while i < n
        invariant
            i <= n,
            n == payload@.len(),
            out@ == head + members_text(payload@.take(i as int)),
        decreases n - i,
    {
        let (k, v) = payload.entry(i);
        proof {
            reveal_strlit(",");
            reveal_strlit(":");
        }
        let ghost before = out@;
        if i > 0 {
            out.append(",");
        }
        push_json_string(&mut out, k.as_str());
        out.append(":");
        push_json_string(&mut out, v.as_str());
        proof {
            let t = payload@.take(i + 1);
            assert(t.drop_last() =~= payload@.take(i as int));
            assert(t.last() == payload@[i as int]);
            assert(member_text(payload@[i as int]) == json_string_of(k@) + seq![':'] + json_string_of(v@));
            if i == 0 {
                assert(members_text(payload@.take(0)) =~= Seq::<char>::empty());
                assert(out@ =~= before + member_text(payload@[i as int]));
            } else {
                assert(out@ =~= before + seq![','] + member_text(payload@[i as int]));
            }
            assert(out@ =~= head + members_text(t));
        }
        i = i + 1;
    }
    out.append("}");
    out.append("}");
    assert(payload@.take(n as int) =~= payload@);
    assert(out@ =~= envelope_text(payload@));
    assert(out@ =~= "{\"action\":\"update\",\"values\":"@ + object_text(payload@) + "}"@);
    out
}

/// The payload that writing each of `ms` in turn builds from empty.
pub open spec fn flattened<T: Message>(ms: Seq<T>) -> Seq<Entry>
    decreases ms.len(),
{
    if ms.len() == 0 {
        Seq::empty()
    } else {
        put_all(flattened(ms.drop_last()), ms.last().fields())
    }
}

/// Flattens `messages` into one payload, each writing its fields in turn;
/// a later value for a key replaces an earlier one.
pub fn flatten<T: Message>(messages: &Vec<T>) -> (r: Payload)
    ensures
        r.wf(),
        r@ == flattened(messages@),
{
    let mut data = Payload::new();
    let mut i: usize = 0;
    while i < messages.len()
        invariant
            i <= messages@.len(),
            data.wf(),
            data@ == flattened(messages@.take(i as int)),
        decreases messages@.len() - i,
    {
        messages[i].write(&mut data);
        proof {
            let t = messages@.take(i + 1);
            assert(t.drop_last() =~= messages@.take(i as int));
        }
        i = i + 1;
    }
    assert(messages@.take(messages@.len() as int) =~= messages@);
    data
}


/// QoS level of every publication: at least once.
pub const QOS: i32 = 1;

/// Keep-alive interval of the broker connection, in seconds.
pub const KEEP_ALIVE_SECS: u64 = 15;

/// The view of an optional string.
pub open spec fn opt_view(o: Option<String>) -> Option<Seq<char>> {
    match o {
        Some(s) => Some(s@),
        None => None,
    }
}

fn clone_opt(o: &Option<String>) -> (r: Option<String>)
    ensures
        opt_view(r) == opt_view(*o),
{
    match o {
        Some(s) => Some(s.clone()),
        None => None,
    }
}

/// The device name under which this host reports.
pub open spec fn device_name() -> Seq<char> {
    "raspberrypi"@
}

/// The identifier of this publisher.
pub open spec fn publisher_id() -> Seq<char> {
    "sysinfo2mqtt"@
}

/// Where and as whom to connect to the broker.
pub struct Configuration {
    pub host: String,
    pub username: Option<String>,
    pub password: Option<String>,
}

impl Configuration {
    pub fn new(host: String, username: Option<String>, password: Option<String>) -> (r: Configuration)
        ensures
            r.host@ == host@,
            opt_view(r.username) == opt_view(username),
            opt_view(r.password) == opt_view(password),
    {
        Configuration { host, username, password }
    }

    /// The device name, also the client identifier given to the broker.
    pub fn name(&self) -> (r: String)
        ensures
            r@ == device_name(),
    {
        String::from_str("raspberrypi")
    }

    /// The publisher's identifier, the first segment of the topic.
    pub fn client_id(&self) -> (r: String)
        ensures
            r@ == publisher_id(),
    {
        String::from_str("sysinfo2mqtt")
    }
}

/// The options the broker connection is opened with.
pub struct ConnectOptions {
    pub client_id: String,
    pub server_uri: String,
    pub user_name: Option<String>,
    pub password: Option<String>,
    pub keep_alive_secs: u64,
    /// False: the broker keeps this client's session across reconnects.
    pub clean_session: bool,
}

/// One message to publish.
pub struct Publication {
    pub topic: String,
    pub payload: String,
    pub qos: i32,
    pub retained: bool,
}

/// The publisher's fixed topic and the options its connection is opened with.
pub struct Client {
    pub topic: String,
    pub options: ConnectOptions,
}

impl Client {
    /// Derives the topic `<client-id>/<device-name>` and the connection
    /// options: the configured host and credentials, a keep-alive of 15
    /// seconds and a persistent session.
    pub fn new(config: &Configuration) -> (r: Client)
        ensures
            r.topic@ == publisher_id() + seq!['/'] + device_name(),
            r.options.client_id@ == device_name(),
            r.options.server_uri@ == config.host@,
            opt_view(r.options.user_name) == opt_view(config.username),
            opt_view(r.options.password) == opt_view(config.password),
            r.options.keep_alive_secs == 15,
            !r.options.clean_session,
    {
        proof {
            reveal_strlit("/");
        }
        let mut topic = config.client_id();
        topic.append("/");
        let name = config.name();
        topic.append(name.as_str());
        let options = ConnectOptions {
            client_id: config.name(),
            server_uri: config.host.clone(),
            user_name: clone_opt(&config.username),
            password: clone_opt(&config.password),
            keep_alive_secs: KEEP_ALIVE_SECS,
            clean_session: false,
        };
        Client { topic, options }
    }

    /// The retained QoS 1 message that publishes `messages` on this
    /// client's topic, its body the envelope of their flattened payload.
    pub fn publication<T: Message>(&self, messages: &Vec<T>) -> (r: Publication)
        ensures
            r.topic@ == self.topic@,
            r.payload@ == envelope_text(flattened(messages@)),
            r.payload@ == "{\"action\":\"update\",\"values\":"@ + object_text(flattened(messages@)) + "}"@,
            r.qos == 1,
            r.retained,
    {
        let data = flatten(messages);
        Publication {
            topic: self.topic.clone(),
            payload: envelope(&data),
            qos: QOS,
            retained: true,
        }
    }
}

} // verus!
