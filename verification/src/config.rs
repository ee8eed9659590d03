//! The two configuration files the dashboard reads: the Mihomo proxy configuration
//! (its proxy groups) and Akasha's own settings.

use vstd::prelude::*;
use crate::text::string_from;

verus! {

/// A proxy group of the Mihomo configuration.
pub struct ProxyGroup {
    /// The group's name.
    pub name: String,
    /// The group's type, such as `select`.
    pub group_type: String,
    /// The names of the group's proxies, in order.
    pub proxies: Vec<String>,
}

/// The part of the Mihomo configuration that the dashboard uses.
pub struct MihomoConfig {
    /// The proxy groups, in order.
    pub proxy_groups: Vec<ProxyGroup>,
}

fn copy_strings(v: &Vec<String>) -> (r: Vec<String>)
    ensures
        r@ == v@,
{
    let mut r: Vec<String> = Vec::new();
    for i in 0..v.len()
        invariant
            r@ == v@.take(i as int),
    {
        r.push(v[i].clone());
        assert(v@.take(i + 1) == v@.take(i as int).push(v@[i as int]));
    }
    assert(v@.take(v.len() as int) == v@);
    r
}

impl MihomoConfig {
    /// The names of the proxy groups, in order.
    pub fn groups_name(&self) -> (r: Vec<String>)
        ensures
            r@.len() == self.proxy_groups@.len(),
            forall|i: int| 0 <= i < r@.len() ==> r@[i] == self.proxy_groups@[i].name,
    {
        let mut r: Vec<String> = Vec::new();
        for i in 0..self.proxy_groups.len()
            invariant
                r@.len() == i,
                forall|k: int| 0 <= k < i ==> r@[k] == self.proxy_groups@[k].name,
        {
            r.push(self.proxy_groups[i].name.clone());
        }
        r
    }

    /// The proxies of each group, in order.
    pub fn groups_proxies(&self) -> (r: Vec<Vec<String>>)
        ensures
            r@.len() == self.proxy_groups@.len(),
            forall|i: int| 0 <= i < r@.len() ==> r@[i]@ == self.proxy_groups@[i].proxies@,
    {
        let mut r: Vec<Vec<String>> = Vec::new();
        for i in 0..self.proxy_groups.len()
            invariant
                r@.len() == i,
                forall|k: int| 0 <= k < i ==> r@[k]@ == self.proxy_groups@[k].proxies@,
        {
            r.push(copy_strings(&self.proxy_groups[i].proxies));
        }
        r
    }

    /// The number of proxy groups.
    pub fn group_count(&self) -> (r: usize)
        ensures
            r == self.proxy_groups@.len(),
    {
        self.proxy_groups.len()
    }
}

/// Akasha's own settings.
pub struct AkashaConfig {
    subscription_link: String,
    test_url: Option<String>,
}

/// The URL used for delay tests when the settings name none.
pub open spec fn default_test_url() -> Seq<char> {
    "http://cp.cloudflare.com/generate_204"@
}

impl AkashaConfig {
    /// Settings with the given subscription link and, optionally, delay-test URL.
    pub fn new(subscription_link: String, test_url: Option<String>) -> (r: Self)
        ensures
            r.subscription_link_spec() == subscription_link@,
            r.test_url_spec() == match test_url {
                Some(u) => u@,
                None => default_test_url(),
            },
    {
        AkashaConfig { subscription_link, test_url }
    }

    pub closed spec fn subscription_link_spec(&self) -> Seq<char> {
        self.subscription_link@
    }

    /// The delay-test URL: the configured one, or the default.
    pub closed spec fn test_url_spec(&self) -> Seq<char> {
        match &self.test_url {
            Some(u) => u@,
            None => default_test_url(),
        }
    }

    /// The subscription link.
    pub fn subscription_link(&self) -> (r: String)
        ensures
            r@ == self.subscription_link_spec(),
    {
        self.subscription_link.clone()
    }

    /// The delay-test URL: the configured one, or `http://cp.cloudflare.com/generate_204`.
    pub fn test_url(&self) -> (r: String)
        ensures
            r@ == self.test_url_spec(),
    {
        match &self.test_url {
            Some(u) => u.clone(),
            None => string_from("http://cp.cloudflare.com/generate_204"),
        }
    }
}

} // verus!
