//! A profile subscription: the response of the subscription link, and the traffic
//! usage that its `subscription-userinfo` header reports.

use vstd::prelude::*;
use crate::socket_http::{all_visible_ascii, ascii_chars};
use crate::text::{
    chars_of, parse_unsigned, parse_unsigned_chars, split_on, split_on_chars, split_once,
    split_once_chars, string_of, trim, trim_chars,
};

verus! {

/// Traffic of a subscription, in bytes, and its expiry as the provider wrote it.
pub struct Usage {
    pub upload: u64,
    pub download: u64,
    pub total: u64,
    pub expire: Option<String>,
}

/// [`Usage`] as the contracts see it.
pub ghost struct UsageSpec {
    pub upload: nat,
    pub download: nat,
    pub total: nat,
    pub expire: Option<Seq<char>>,
}

impl View for Usage {
    type V = UsageSpec;

    open spec fn view(&self) -> UsageSpec {
        UsageSpec {
            upload: self.upload as nat,
            download: self.download as nat,
            total: self.total as nat,
            expire: match &self.expire {
                Some(e) => Some(e@),
                None => None,
            },
        }
    }
}

/// A `u64` as `value.parse().unwrap_or(0)` reads it.
pub open spec fn number_or_zero(value: Seq<char>) -> nat {
    match parse_unsigned(value, 10, u64::MAX as nat) {
        Ok(v) => v,
        Err(_) => 0,
    }
}

/// The key and value of one `key=value` part: both trimmed; a part without `=` has an
/// empty value.
pub open spec fn key_value(part: Seq<char>) -> (Seq<char>, Seq<char>) {
    let kv = split_once(trim(part), '=');
    (trim(kv.0), match kv.1 {
        Some(v) => trim(v),
        None => Seq::empty(),
    })
}

/// The usage after reading the parts `parts` on top of `u`: `upload`, `download` and
/// `total` take their number (0 when it is no number), `expire` its value when that is
/// not empty; other keys are ignored.
pub open spec fn fold_usage(parts: Seq<Seq<char>>, u: UsageSpec) -> UsageSpec
    decreases parts.len(),
{
    if parts.len() == 0 {
        u
    } else {
        let (k, v) = key_value(parts[0]);
        let next = if k == "upload"@ {
            UsageSpec { upload: number_or_zero(v), ..u }
        } else if k == "download"@ {
            UsageSpec { download: number_or_zero(v), ..u }
        } else if k == "total"@ {
            UsageSpec { total: number_or_zero(v), ..u }
        } else if k == "expire"@ && v.len() > 0 {
            UsageSpec { expire: Some(v), ..u }
        } else {
            u
        };
        fold_usage(parts.drop_first(), next)
    }
}

/// The usage that a `subscription-userinfo` value such as
/// `upload=1; download=2; total=3; expire=4` reports.
pub open spec fn usage_of(value: Seq<char>) -> UsageSpec {
    fold_usage(split_on(value, ';'), UsageSpec { upload: 0, download: 0, total: 0, expire: None })
}

/// The first header called `name` among `hs` (names as the header map stores them,
/// in lower case).
pub open spec fn first_header(hs: Seq<(Seq<char>, Seq<u8>)>, name: Seq<char>) -> Option<Seq<u8>>
    decreases hs.len(),
{
    if hs.len() == 0 {
        None
    } else if hs[0].0 == name {
        Some(hs[0].1)
    } else {
        first_header(hs.drop_first(), name)
    }
}

/// The response of a subscription link: its URL, headers and text, and when it was
/// fetched (of the caller's time type).
pub struct SubscriptionInfo<Time> {
    url: String,
    headers: Vec<(String, Vec<u8>)>,
    config_text: String,
    update_time: Time,
}

impl<Time: Copy> SubscriptionInfo<Time> {
    pub closed spec fn url_spec(&self) -> Seq<char> {
        self.url@
    }

    /// The headers, as name and value bytes, in the order of the header map.
    pub closed spec fn headers_spec(&self) -> Seq<(Seq<char>, Seq<u8>)> {
        self.headers@.map_values(|h: (String, Vec<u8>)| (h.0@, h.1@))
    }

    pub closed spec fn text_spec(&self) -> Seq<char> {
        self.config_text@
    }

    pub closed spec fn time_spec(&self) -> Time {
        self.update_time
    }

    /// A subscription fetched from `url` at `update_time`, whose response had `headers`
    /// and the text `config_text`.
    pub fn new(url: String, headers: Vec<(String, Vec<u8>)>, config_text: String, update_time: Time) -> (r: Self)
        ensures
            r.url_spec() == url@,
            r.headers_spec() == headers@.map_values(|h: (String, Vec<u8>)| (h.0@, h.1@)),
            r.text_spec() == config_text@,
            r.time_spec() == update_time,
    {
        SubscriptionInfo { url, headers, config_text, update_time }
    }

    /// Replaces the response by a newer one fetched from the same URL.
    pub fn update(&mut self, headers: Vec<(String, Vec<u8>)>, config_text: String, update_time: Time)
        ensures
            final(self).url_spec() == old(self).url_spec(),
            final(self).headers_spec() == headers@.map_values(|h: (String, Vec<u8>)| (h.0@, h.1@)),
            final(self).text_spec() == config_text@,
            final(self).time_spec() == update_time,
    {
        self.headers = headers;
        self.config_text = config_text;
        self.update_time = update_time;
    }

    /// The subscription link.
    pub fn url(&self) -> (r: String)
        ensures
            r@ == self.url_spec(),
    {
        self.url.clone()
    }

    /// When the subscription was fetched.
    pub fn get_updatetime(&self) -> (r: Time)
        ensures
            r == self.time_spec(),
    {
        self.update_time
    }

    /// The configuration text of the subscription.
    pub fn get_text(&self) -> (r: String)
        ensures
            r@ == self.text_spec(),
    {
        self.config_text.clone()
    }

    /// The value of the first `subscription-userinfo` header, if any.
    pub fn usage_header(&self) -> (r: Option<Vec<u8>>)
        ensures
            match first_header(self.headers_spec(), "subscription-userinfo"@) {
                Some(v) => r matches Some(x) && x@ == v,
                None => r is None,
            },
    {
        let ghost hs = self.headers_spec();
        let name = chars_of("subscription-userinfo");
        let target = string_of(&name);
        let mut i: usize = 0;
        assert(hs.subrange(0, hs.len() as int) == hs);
        while i < self.headers.len()
            invariant
                i <= self.headers@.len(),
                hs == self.headers_spec(),
                target@ == "subscription-userinfo"@,
                first_header(hs, "subscription-userinfo"@) == first_header(hs.subrange(i as int, hs.len() as int), "subscription-userinfo"@),
            decreases self.headers@.len() - i,
        {
            let ghost rest = hs.subrange(i as int, hs.len() as int);
            assert(rest[0] == hs[i as int]);
            assert(rest.drop_first() == hs.subrange(i + 1, hs.len() as int));
            if self.headers[i].0 == target {
                assert(hs[i as int] == (self.headers@[i as int].0@, self.headers@[i as int].1@));
                return Some(copy_value(&self.headers[i].1));
            }
            i = i + 1;
        }
        None
    }

    /// The traffic usage reported by the `subscription-userinfo` header: `None` when
    /// there is no such header. Its value must be visible ASCII, as a header value that
    /// reads as a string.
    pub fn parse_usage(&self) -> (r: Option<Usage>)
        requires
            first_header(self.headers_spec(), "subscription-userinfo"@) matches Some(v) ==> all_visible_ascii(v),
        ensures
            match first_header(self.headers_spec(), "subscription-userinfo"@) {
                Some(v) => r matches Some(u) && u@ == usage_of(ascii_chars(v)),
                None => r is None,
            },
    {
        let ghost hs = self.headers_spec();
        let name = chars_of("subscription-userinfo");
        let target = string_of(&name);
        let mut i: usize = 0;
        assert(hs.subrange(0, hs.len() as int) == hs);
        while i < self.headers.len()
            invariant
                i <= self.headers@.len(),
                hs == self.headers_spec(),
                first_header(hs, "subscription-userinfo"@) matches Some(v) ==> all_visible_ascii(v),
                target@ == "subscription-userinfo"@,
                first_header(hs, "subscription-userinfo"@) == first_header(hs.subrange(i as int, hs.len() as int), "subscription-userinfo"@),
            decreases self.headers@.len() - i,
        {
            let ghost rest = hs.subrange(i as int, hs.len() as int);
            assert(rest[0] == hs[i as int]);
            assert(rest.drop_first() == hs.subrange(i + 1, hs.len() as int));
            if self.headers[i].0 == target {
                assert(hs[i as int] == (self.headers@[i as int].0@, self.headers@[i as int].1@));
                return Some(usage_from_value(&self.headers[i].1));
            }
            i = i + 1;
        }
        None
    }
}

fn copy_value(v: &Vec<u8>) -> (r: Vec<u8>)
    ensures
        r@ == v@,
{
    let mut r: Vec<u8> = Vec::new();
    for i in 0..v.len()
        invariant
            r@ == v@.take(i as int),
    {
        r.push(v[i]);
        assert(v@.take(i + 1) == v@.take(i as int).push(v@[i as int]));
    }
    assert(v@.take(v.len() as int) == v@);
    r
}

fn ascii_to_chars(v: &Vec<u8>) -> (r: Vec<char>)
    requires
        all_visible_ascii(v@),
    ensures
        r@ == ascii_chars(v@),
{
    let mut r: Vec<char> = Vec::new();
    for i in 0..v.len()
        invariant
            all_visible_ascii(v@),
            r@ == ascii_chars(v@.take(i as int)),
    {
        assert(crate::socket_http::is_visible_ascii(v@[i as int]));
        r.push(v[i] as char);
        assert(ascii_chars(v@.take(i + 1)) == ascii_chars(v@.take(i as int)).push(v@[i as int] as char));
    }
    assert(v@.take(v.len() as int) == v@);
    r
}

fn key_value_of(part: &Vec<char>) -> (r: (Vec<char>, Vec<char>))
    ensures
        (r.0@, r.1@) == key_value(part@),
{
    let (k, rest) = split_once_chars(&trim_chars(part), '=');
    let key = trim_chars(&k);
    let value = match rest {
        Some(v) => trim_chars(&v),
        None => Vec::new(),
    };
    (key, value)
}

fn number_or_zero_of(v: &Vec<char>) -> (r: u64)
    ensures
        r == number_or_zero(v@),
{
    match parse_unsigned_chars(v, 10, u64::MAX) {
        Ok(n) => n,
        Err(_) => 0,
    }
}

/// The usage reported by a `subscription-userinfo` value.
pub fn usage_from_value(value: &Vec<u8>) -> (r: Usage)
    requires
        all_visible_ascii(value@),
    ensures
        r@ == usage_of(ascii_chars(value@)),
{
    let text = ascii_to_chars(value);
    let parts = split_on_chars(&text, ';');
    let ghost ps = crate::text::seqs_of(parts@);
    let mut u = Usage { upload: 0, download: 0, total: 0, expire: None };
    let upload_key = chars_of("upload");
    let download_key = chars_of("download");
    let total_key = chars_of("total");
    let expire_key = chars_of("expire");
    let mut i: usize = 0;
    assert(ps.subrange(0, ps.len() as int) == ps);
    while i < parts.len()
        invariant
            i <= parts@.len(),
            ps == crate::text::seqs_of(parts@),
            ps == split_on(ascii_chars(value@), ';'),
            upload_key@ == "upload"@,
            download_key@ == "download"@,
            total_key@ == "total"@,
            expire_key@ == "expire"@,
            usage_of(ascii_chars(value@)) == fold_usage(ps.subrange(i as int, ps.len() as int), u@),
        decreases parts@.len() - i,
    {
        let ghost rest = ps.subrange(i as int, ps.len() as int);
        assert(rest[0] == parts@[i as int]@);
        assert(rest.drop_first() == ps.subrange(i + 1, ps.len() as int));
        let (k, v) = key_value_of(&parts[i]);
        if chars_eq(&k, &upload_key) {
            u.upload = number_or_zero_of(&v);
        } else if chars_eq(&k, &download_key) {
            u.download = number_or_zero_of(&v);
        } else if chars_eq(&k, &total_key) {
            u.total = number_or_zero_of(&v);
        } else if chars_eq(&k, &expire_key) && v.len() > 0 {
            u.expire = Some(string_of(&v));
        }
        i = i + 1;
    }
    u
}

/// The two character vectors are equal.
pub fn chars_eq(a: &Vec<char>, b: &Vec<char>) -> (r: bool)
    ensures
        r == (a@ == b@),
{
    if a.len() != b.len() {
        return false;
    }
    let mut i: usize = 0;
    while i < a.len()
        invariant
            i <= a@.len(),
            a@.len() == b@.len(),
            forall|k: int| 0 <= k < i ==> a@[k] == b@[k],
        decreases a@.len() - i,
    {
        if a[i] != b[i] {
            return false;
        }
        i = i + 1;
    }
    proof {
        assert(a@ =~= b@);
    }
    true
}

} // verus!
