//! The service client: where each operation sends its request, what it
//! carries, and how the answer is read.
//!
//! The transport itself lies outside this module: a request is a plain
//! value, and a response comes back as its status and body text.

use vstd::prelude::*;
use vstd::string::{StrSliceExecFns, StringExecFns};
use crate::model::{Bucket, BucketMetadata, Event};

verus! {

/// Why an operation failed.
#[derive(Debug, Clone, Copy, PartialEq, Eq, Structural)]
pub enum ClientError {
    /// The machine's host name could not be read as text.
    Hostname,
    /// The service could not be reached.
    Connection,
    /// The service answered with a status outside 200..=299.
    HttpStatus(u16),
    /// The body did not have the expected shape.
    Decode,
    /// An argument lies outside what the operation accepts.
    InvalidInput,
}

/// Relies on gethostname::gethostname and OsString::into_string: the
/// machine's host name, or `None` when it is not valid UTF-8. Nothing is
/// promised of the name itself, which depends on the machine. (gethostname
/// panics only when the operating system's call fails.)
#[verifier::external_body]
fn local_hostname() -> (r: Option<String>) {
    gethostname::gethostname().into_string().ok()
}

/// HTTP verbs that the service's API uses.
#[derive(Debug, Clone, Copy, PartialEq, Eq, Structural)]
pub enum Method {
    Get,
    Post,
    Delete,
}

/// What a request carries as its JSON body.
#[derive(Debug)]
pub enum Payload {
    Nothing,
    Bucket(Bucket),
    Events(Vec<Event>),
    Event(Event),
}

/// One HTTP request to the service.
#[derive(Debug)]
pub struct Request {
    pub method: Method,
    pub url: String,
    pub payload: Payload,
}

/// The base of every address: `http://{ip}:{port}`.
pub open spec fn base_url(ip: Seq<char>, port: Seq<char>) -> Seq<char> {
    "http://"@ + ip + ":"@ + port
}

/// Address of a bucket.
pub open spec fn bucket_url(base: Seq<char>, bucket: Seq<char>) -> Seq<char> {
    base + "/api/0/buckets/"@ + bucket
}

/// Address of a bucket's events.
pub open spec fn events_url(base: Seq<char>, bucket: Seq<char>) -> Seq<char> {
    bucket_url(base, bucket) + "/events"@
}

/// Decimal text of an integer, with a leading `-` when negative.
pub open spec fn decimal(n: int) -> Seq<char> {
    if n < 0 {
        "-"@ + digits_of(-n)
    } else {
        digits_of(n)
    }
}

/// Decimal digits of a non-negative integer, without leading zeros.
pub open spec fn digits_of(n: int) -> Seq<char>
    decreases n,
{
    if n < 10 {
        seq![digit_char(n)]
    } else {
        digits_of(n / 10) + seq![digit_char(n % 10)]
    }
}

pub open spec fn digit_char(d: int) -> char {
    (d + '0' as int) as char
}

fn append_digit(s: &mut String, d: u64)
    requires
        d < 10,
    ensures
        final(s)@ == old(s)@ + seq![digit_char(d as int)],
{
    proof {
        reveal_strlit("0");
        reveal_strlit("1");
        reveal_strlit("2");
        reveal_strlit("3");
        reveal_strlit("4");
        reveal_strlit("5");
        reveal_strlit("6");
        reveal_strlit("7");
        reveal_strlit("8");
        reveal_strlit("9");
    }
    let t = if d == 0 {
        "0"
    } else if d == 1 {
        "1"
    } else if d == 2 {
        "2"
    } else if d == 3 {
        "3"
    } else if d == 4 {
        "4"
    } else if d == 5 {
        "5"
    } else if d == 6 {
        "6"
    } else if d == 7 {
        "7"
    } else if d == 8 {
        "8"
    } else {
        "9"
    };
    assert(t@ =~= seq![digit_char(d as int)]);
    s.append(t);
}

fn append_digits(s: &mut String, n: u64)
    ensures
        final(s)@ == old(s)@ + digits_of(n as int),
    decreases n,
{
    if n >= 10 {
        append_digits(s, n / 10);
    }
    append_digit(s, n % 10);
    assert(final(s)@ =~= old(s)@ + digits_of(n as int));
}

fn append_decimal(s: &mut String, n: i64)
    ensures
        final(s)@ == old(s)@ + decimal(n as int),
{
    if n < 0 {
        proof {
            reveal_strlit("-");
        }
        s.append("-");
        let m: u64 = (-(n as i128)) as u64;
        append_digits(s, m);
        assert(final(s)@ =~= old(s)@ + decimal(n as int));
    } else {
        append_digits(s, n as u64);
    }
}

/// The status is a success: 200 through 299.
pub open spec fn is_success(status: u16) -> bool {
    200 <= status <= 299
}

/// Turns a response status into success or an `HttpStatus` error.
pub fn check_status(status: u16) -> (r: Result<(), ClientError>)
    ensures
        is_success(status) ==> r is Ok,
        !is_success(status) ==> r == Err::<(), ClientError>(ClientError::HttpStatus(status)),
{
    if 200 <= status && status <= 299 {
        Ok(())
    } else {
        Err(ClientError::HttpStatus(status))
    }
}

pub open spec fn is_digit(c: char) -> bool {
    '0' <= c <= '9'
}

/// Value of a string of decimal digits.
pub open spec fn digits_value(s: Seq<char>) -> int
    decreases s.len(),
{
    if s.len() == 0 {
        0
    } else {
        digits_value(s.drop_last()) * 10 + (s.last() as int - '0' as int)
    }
}

/// Every character is a decimal digit.
pub open spec fn all_digits(s: Seq<char>) -> bool {
    forall|i: int| 0 <= i < s.len() ==> is_digit(#[trigger] s[i])
}

/// The text starts with a sign.
pub open spec fn has_sign(s: Seq<char>) -> bool {
    s.len() > 0 && (s[0] == '+' || s[0] == '-')
}

/// The text after its sign, if any.
pub open spec fn unsigned_part(s: Seq<char>) -> Seq<char> {
    if has_sign(s) {
        s.drop_first()
    } else {
        s
    }
}

/// An optional `+` or `-` followed by one or more decimal digits: its value.
pub open spec fn integer_value(s: Seq<char>) -> Option<int> {
    let signed = has_sign(s);
    let digits = unsigned_part(s);
    if digits.len() > 0 && all_digits(digits) {
        Some(if signed && s[0] == '-' { -digits_value(digits) } else { digits_value(digits) })
    } else {
        None
    }
}

/// The integer that `s` writes, when it writes one that fits in an `i64`.
pub open spec fn i64_value(s: Seq<char>) -> Option<i64> {
    match integer_value(s) {
        Some(v) => if i64::MIN <= v <= i64::MAX {
            Some(v as i64)
        } else {
            None
        },
        None => None,
    }
}

/// One past the largest magnitude an `i64` can have.
const MAGNITUDE_LIMIT: u128 = 0x8000_0000_0000_0000;

/// Reads a decimal integer: an optional sign, then digits only.
pub fn parse_integer(s: &str) -> (r: Option<i64>)
    ensures
        r == i64_value(s@),
{
    let n = s.unicode_len();
    let mut start: usize = 0;
    let mut negative = false;
    if n > 0 {
        let c = s.get_char(0);
        if c == '+' || c == '-' {
            start = 1;
            negative = c == '-';
        }
    }
    let ghost signed = has_sign(s@);
    let ghost digits = unsigned_part(s@);
    assert(digits =~= s@.subrange(start as int, n as int));
    if start == n {
        return None;
    }
    let mut acc: u128 = 0;
    let mut too_big = false;
    let mut i: usize = start;
    while i < n
        invariant
            start <= i <= n == s@.len(),
            start < n,
            digits == s@.subrange(start as int, n as int),
            signed == has_sign(s@),
            digits == unsigned_part(s@),
            forall|j: int| start <= j < i ==> is_digit(#[trigger] s@[j]),
            !too_big ==> acc == digits_value(s@.subrange(start as int, i as int)),
            !too_big ==> acc <= MAGNITUDE_LIMIT,
            too_big ==> digits_value(s@.subrange(start as int, i as int)) > MAGNITUDE_LIMIT,
        decreases n - i,
    {
        let c = s.get_char(i);
        if !('0' <= c && c <= '9') {
            assert(s@[i as int] == c);
            assert(digits[i - start] == s@[i as int]);
            assert(!is_digit(digits[i - start]));
            assert(!(forall|j: int| 0 <= j < digits.len() ==> is_digit(#[trigger] digits[j])));
            assert(integer_value(s@) is None);
            return None;
        }
        let ghost prev = s@.subrange(start as int, i as int);
        let ghost next = s@.subrange(start as int, i + 1);
        assert(next.drop_last() =~= prev);
        assert(digits_value(next) == digits_value(prev) * 10 + (c as int - '0' as int));
        if !too_big {
            acc = acc * 10 + (c as u128 - '0' as u128);
            if acc > MAGNITUDE_LIMIT {
                too_big = true;
            }
        }
        i += 1;
    }
    assert(s@.subrange(start as int, n as int) == digits);
    assert forall|j: int| 0 <= j < digits.len() implies is_digit(#[trigger] digits[j]) by {
        assert(digits[j] == s@[j + start]);
    }
    if too_big {
        return None;
    }
    if negative {
        Some((-(acc as i128)) as i64)
    } else if acc <= i64::MAX as u128 {
        Some(acc as i64)
    } else {
        None
    }
}

/// The event count that `s` writes: a non-negative integer that fits in
/// an `i64`.
pub open spec fn count_value(s: Seq<char>) -> Option<i64> {
    match i64_value(s) {
        Some(n) => if n >= 0 {
            Some(n)
        } else {
            None
        },
        None => None,
    }
}

/// Reads the answer to `get_event_count_request`: the status must be a
/// success and the body a non-negative decimal integer; any other body is a
/// `Decode` error.
pub fn read_event_count(status: u16, body: &str) -> (r: Result<i64, ClientError>)
    ensures
        !is_success(status) ==> r == Err::<i64, ClientError>(ClientError::HttpStatus(status)),
        is_success(status) ==> r == match count_value(body@) {
            Some(n) => Ok(n),
            None => Err(ClientError::Decode),
        },
        r matches Ok(n) ==> n >= 0,
{
    match check_status(status) {
        Err(e) => Err(e),
        Ok(()) => match parse_integer(body) {
            Some(n) if n >= 0 => Ok(n),
            _ => Err(ClientError::Decode),
        },
    }
}

/// A handle on one service instance, bound to a client name and to the
/// local host name.
#[derive(Debug)]
pub struct AwClient {
    pub baseurl: String,
    pub name: String,
    pub hostname: String,
}

impl AwClient {
    /// A client for the service at `ip`:`port`, named `name`, reporting
    /// `hostname` as its host.
    pub fn with_hostname(ip: &str, port: &str, name: &str, hostname: String) -> (r: AwClient)
        ensures
            r.baseurl@ == base_url(ip@, port@),
            r.name@ == name@,
            r.hostname@ == hostname@,
    {
        let mut baseurl = String::from_str("http://");
        baseurl.append(ip);
        baseurl.append(":");
        baseurl.append(port);
        AwClient { baseurl, name: name.to_owned(), hostname }
    }

    /// A client for the service at `ip`:`port`, named `name`, reporting the
    /// machine's host name. Fails when that name is not valid text.
    pub fn new(ip: &str, port: &str, name: &str) -> (r: Result<AwClient, ClientError>)
        ensures
            match r {
                Ok(c) => c.baseurl@ == base_url(ip@, port@) && c.name@ == name@,
                Err(e) => e == ClientError::Hostname,
            },
    {
        match local_hostname() {
            Some(hostname) => Ok(AwClient::with_hostname(ip, port, name, hostname)),
            None => Err(ClientError::Hostname),
        }
    }

    fn url_of(&self, tail: &str) -> (r: String)
        ensures
            r@ == self.baseurl@ + tail@,
    {
        let mut url = self.baseurl.clone();
        url.append(tail);
        url
    }

    fn bucket_url_of(&self, bucketname: &str) -> (r: String)
        ensures
            r@ == bucket_url(self.baseurl@, bucketname@),
    {
        let mut url = self.url_of("/api/0/buckets/");
        url.append(bucketname);
        url
    }

    fn events_url_of(&self, bucketname: &str) -> (r: String)
        ensures
            r@ == events_url(self.baseurl@, bucketname@),
    {
        let mut url = self.bucket_url_of(bucketname);
        url.append("/events");
        url
    }

    /// Fetches one bucket.
    pub fn get_bucket_request(&self, bucketname: &str) -> (r: Request)
        ensures
            r.method == Method::Get,
            r.url@ == bucket_url(self.baseurl@, bucketname@),
            r.payload is Nothing,
    {
        Request { method: Method::Get, url: self.bucket_url_of(bucketname), payload: Payload::Nothing }
    }

    /// Fetches every bucket, keyed by id.
    pub fn get_buckets_request(&self) -> (r: Request)
        ensures
            r.method == Method::Get,
            r.url@ == self.baseurl@ + "/api/0/buckets/"@,
            r.payload is Nothing,
    {
        Request { method: Method::Get, url: self.url_of("/api/0/buckets/"), payload: Payload::Nothing }
    }

    /// The bucket that `create_bucket_request` sends: owned by this client
    /// and host, with no data, empty metadata and no events.
    pub fn new_bucket(&self, bucketname: &str, buckettype: &str) -> (r: Bucket)
        ensures
            r.bid is None,
            r.id@ == bucketname@,
            r._type@ == buckettype@,
            r.client@ == self.name@,
            r.hostname@ == self.hostname@,
            r.created is None,
            r.data@.len() == 0,
            r.metadata.start is None,
            r.metadata.end is None,
            r.events is None,
            r.last_updated is None,
    {
        Bucket {
            bid: None,
            id: bucketname.to_owned(),
            _type: buckettype.to_owned(),
            client: self.name.clone(),
            hostname: self.hostname.clone(),
            created: None,
            data: Vec::new(),
            metadata: BucketMetadata::empty(),
            events: None,
            last_updated: None,
        }
    }

    /// Creates a bucket owned by this client and host.
    pub fn create_bucket_request(&self, bucketname: &str, buckettype: &str) -> (r: Request)
        ensures
            r.method == Method::Post,
            r.url@ == bucket_url(self.baseurl@, bucketname@),
            r.payload matches Payload::Bucket(b) && b.bid is None && b.id@ == bucketname@
                && b._type@ == buckettype@ && b.client@ == self.name@ && b.hostname@
                == self.hostname@ && b.created is None && b.data@.len() == 0
                && b.metadata.start is None && b.metadata.end is None && b.events is None
                && b.last_updated is None,
    {
        let bucket = self.new_bucket(bucketname, buckettype);
        Request {
            method: Method::Post,
            url: self.bucket_url_of(bucketname),
            payload: Payload::Bucket(bucket),
        }
    }

    /// Deletes a bucket and its events.
    pub fn delete_bucket_request(&self, bucketname: &str) -> (r: Request)
        ensures
            r.method == Method::Delete,
            r.url@ == bucket_url(self.baseurl@, bucketname@),
            r.payload is Nothing,
    {
        Request {
            method: Method::Delete,
            url: self.bucket_url_of(bucketname),
            payload: Payload::Nothing,
        }
    }

    /// Fetches a bucket's events.
    pub fn get_events_request(&self, bucketname: &str) -> (r: Request)
        ensures
            r.method == Method::Get,
            r.url@ == events_url(self.baseurl@, bucketname@),
            r.payload is Nothing,
    {
        Request { method: Method::Get, url: self.events_url_of(bucketname), payload: Payload::Nothing }
    }

    /// Appends `event` to a bucket, sent as a batch of one.
    pub fn insert_event_request(&self, bucketname: &str, event: Event) -> (r: Request)
        ensures
            r.method == Method::Post,
            r.url@ == events_url(self.baseurl@, bucketname@),
            r.payload matches Payload::Events(v) && v@ == seq![event],
    {
        let mut batch: Vec<Event> = Vec::new();
        batch.push(event);
        Request {
            method: Method::Post,
            url: self.events_url_of(bucketname),
            payload: Payload::Events(batch),
        }
    }

    /// Sends `event` as a heartbeat; `pulsetime` is the merge window in
    /// seconds, written as decimal text.
    pub fn heartbeat_request(&self, bucketname: &str, event: Event, pulsetime: &str) -> (r: Request)
        ensures
            r.method == Method::Post,
            r.url@ == bucket_url(self.baseurl@, bucketname@) + "/heartbeat?pulsetime="@
                + pulsetime@,
            r.payload == Payload::Event(event),
    {
        let mut url = self.bucket_url_of(bucketname);
        url.append("/heartbeat?pulsetime=");
        url.append(pulsetime);
        Request { method: Method::Post, url, payload: Payload::Event(event) }
    }

    /// Deletes the event with id `event_id` from a bucket.
    pub fn delete_event_request(&self, bucketname: &str, event_id: i64) -> (r: Request)
        ensures
            r.method == Method::Delete,
            r.url@ == events_url(self.baseurl@, bucketname@) + "/"@ + decimal(event_id as int),
            r.payload is Nothing,
    {
        let mut url = self.events_url_of(bucketname);
        url.append("/");
        append_decimal(&mut url, event_id);
        Request { method: Method::Delete, url, payload: Payload::Nothing }
    }

    /// Asks how many events a bucket holds.
    pub fn get_event_count_request(&self, bucketname: &str) -> (r: Request)
        ensures
            r.method == Method::Get,
            r.url@ == events_url(self.baseurl@, bucketname@) + "/count"@,
            r.payload is Nothing,
    {
        let mut url = self.events_url_of(bucketname);
        url.append("/count");
        Request { method: Method::Get, url, payload: Payload::Nothing }
    }

    /// Asks for the service's identity.
    pub fn get_info_request(&self) -> (r: Request)
        ensures
            r.method == Method::Get,
            r.url@ == self.baseurl@ + "/api/0/info"@,
            r.payload is Nothing,
    {
        Request { method: Method::Get, url: self.url_of("/api/0/info"), payload: Payload::Nothing }
    }
}

} // verus!
