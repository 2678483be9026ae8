//! Proxy configuration: the string-to-string configuration table used
//! throughout the launcher, the configured Spark versions, and the proxy's
//! own settings with the derivation of its callback address.

use vstd::prelude::*;
use vstd::string::StrSliceExecFns;
use vstd::string::StringExecFns;

use crate::strutil::spec_dec;
use crate::strutil::str_eq;
use crate::strutil::u64_to_dec;

verus! {

/// The port the proxy binds when none is configured.
pub const DEFAULT_PORT: u16 = 8100;

/// Key-value entries, as plain sequences of characters.
pub type KvEntries = Seq<(Seq<char>, Seq<char>)>;

/// No two entries carry the same key.
pub open spec fn keys_distinct(kvs: KvEntries) -> bool {
    forall|i: int, j: int|
        0 <= i < kvs.len() && 0 <= j < kvs.len() && i != j ==> kvs[i].0 != kvs[j].0
}

/// The mapping a sequence of key-value entries denotes, later entries
/// overriding earlier ones.
pub open spec fn map_of(kvs: KvEntries) -> Map<Seq<char>, Seq<char>>
    decreases kvs.len(),
{
    if kvs.len() == 0 {
        Map::empty()
    } else {
        map_of(kvs.drop_last()).insert(kvs.last().0, kvs.last().1)
    }
}

/// A key is in the denoted mapping exactly when some entry carries it.
pub proof fn lemma_map_of_dom(kvs: KvEntries, k: Seq<char>)
    ensures
        map_of(kvs).dom().contains(k) <==> exists|i: int| 0 <= i < kvs.len() && kvs[i].0 == k,
    decreases kvs.len(),
{
    if kvs.len() > 0 {
        lemma_map_of_dom(kvs.drop_last(), k);
        if kvs.last().0 == k {
            assert(kvs[kvs.len() - 1].0 == k);
        } else if map_of(kvs).dom().contains(k) {
            let i = choose|i: int| 0 <= i < kvs.drop_last().len() && kvs.drop_last()[i].0 == k;
            assert(kvs[i].0 == k);
        } else {
            assert forall|i: int| 0 <= i < kvs.len() implies kvs[i].0 != k by {
                if i < kvs.len() - 1 {
                    assert(kvs.drop_last()[i].0 == kvs[i].0);
                }
            }
        }
    }
}

/// Under distinct keys, the denoted mapping sends each entry's key to that
/// entry's value.
pub proof fn lemma_map_of_get(kvs: KvEntries, i: int)
    requires
        keys_distinct(kvs),
        0 <= i < kvs.len(),
    ensures
        map_of(kvs).dom().contains(kvs[i].0),
        map_of(kvs)[kvs[i].0] == kvs[i].1,
    decreases kvs.len(),
{
    if i == kvs.len() - 1 {
    } else {
        assert(keys_distinct(kvs.drop_last()));
        assert(kvs.drop_last()[i] == kvs[i]);
        lemma_map_of_get(kvs.drop_last(), i);
        assert(kvs.last().0 != kvs[i].0);
    }
}

proof fn lemma_map_of_update(kvs: KvEntries, i: int, k: Seq<char>, v: Seq<char>)
    requires
        keys_distinct(kvs),
        0 <= i < kvs.len(),
        kvs[i].0 == k,
    ensures
        keys_distinct(kvs.update(i, (k, v))),
        map_of(kvs.update(i, (k, v))) == map_of(kvs).insert(k, v),
{
    let s2 = kvs.update(i, (k, v));
    assert(keys_distinct(s2));
    let target = map_of(kvs).insert(k, v);
    assert forall|kk: Seq<char>| map_of(s2).dom().contains(kk) == target.dom().contains(kk) by {
        lemma_map_of_dom(s2, kk);
        lemma_map_of_dom(kvs, kk);
        if exists|j: int| 0 <= j < s2.len() && s2[j].0 == kk {
            let j = choose|j: int| 0 <= j < s2.len() && s2[j].0 == kk;
            assert(kvs[j].0 == kk || kk == k);
        }
        if exists|j: int| 0 <= j < kvs.len() && kvs[j].0 == kk {
            let j = choose|j: int| 0 <= j < kvs.len() && kvs[j].0 == kk;
            assert(s2[j].0 == kk || kk == k);
        }
        if kk == k {
            assert(s2[i].0 == kk);
        }
    }
    assert forall|kk: Seq<char>|
        map_of(s2).dom().contains(kk) implies map_of(s2)[kk] == target[kk] by {
        lemma_map_of_dom(s2, kk);
        let j = choose|j: int| 0 <= j < s2.len() && s2[j].0 == kk;
        lemma_map_of_get(s2, j);
        if kk == k {
            assert(j == i);
        } else {
            assert(j != i);
            assert(kvs[j] == s2[j]);
            lemma_map_of_get(kvs, j);
        }
    }
    assert(map_of(s2) =~= target);
}

/// `base` with every key that `m` also binds extended by a comma and `m`'s
/// value; keys `m` binds that are absent from `base` are ignored.
pub open spec fn merged_with(
    base: Map<Seq<char>, Seq<char>>,
    m: Map<Seq<char>, Seq<char>>,
) -> Map<Seq<char>, Seq<char>> {
    Map::new(
        |k: Seq<char>| base.dom().contains(k),
        |k: Seq<char>|
            if m.dom().contains(k) {
                base[k] + ","@ + m[k]
            } else {
                base[k]
            },
    )
}

/// A string-to-string configuration table: ordered entries with pairwise
/// distinct keys, denoting the mapping `view` gives.
pub struct ConfigTable {
    pairs: Vec<(String, String)>,
}

impl View for ConfigTable {
    type V = Map<Seq<char>, Seq<char>>;

    closed spec fn view(&self) -> Map<Seq<char>, Seq<char>> {
        map_of(self.entries())
    }
}

impl ConfigTable {
    /// The entries, oldest first.
    pub closed spec fn entries(&self) -> KvEntries {
        self.pairs@.map_values(|p: (String, String)| (p.0@, p.1@))
    }

    /// Well-formedness: no two entries carry the same key.
    pub open spec fn wf(&self) -> bool {
        keys_distinct(self.entries())
    }

    /// The denoted mapping is exactly `map_of` over the entries.
    pub proof fn lemma_view_is_entries(&self)
        ensures
            self@ == map_of(self.entries()),
    {
    }

    /// An empty table.
    pub fn new() -> (r: Self)
        ensures
            r.wf(),
            r@ == Map::<Seq<char>, Seq<char>>::empty(),
            r.entries() == Seq::<(Seq<char>, Seq<char>)>::empty(),
    {
        let r = ConfigTable { pairs: Vec::new() };
        proof {
            assert(r.entries() =~= Seq::<(Seq<char>, Seq<char>)>::empty());
        }
        r
    }

    /// How many entries the table holds.
    pub fn len(&self) -> (r: usize)
        ensures
            r == self.entries().len(),
    {
        self.pairs.len()
    }

    /// The entry at position `i`.
    pub fn pair_at(&self, i: usize) -> (r: &(String, String))
        requires
            i < self.entries().len(),
        ensures
            (r.0@, r.1@) == self.entries()[i as int],
    {
        &self.pairs[i]
    }

    /// The value under `key`, if any.
    pub fn get(&self, key: &str) -> (r: Option<&String>)
        requires
            self.wf(),
        ensures
            match r {
                Option::Some(v) => self@.dom().contains(key@) && v@ == self@[key@],
                Option::None => !self@.dom().contains(key@),
            },
    {
        let n = self.pairs.len();
        let mut i: usize = 0;
        while i < n
            invariant
                self.wf(),
                n == self.pairs.len(),
                0 <= i <= n,
                forall|j: int| 0 <= j < i ==> self.entries()[j].0 != key@,
            decreases n - i,
        {
            if str_eq(self.pairs[i].0.as_str(), key) {
                proof {
                    lemma_map_of_get(self.entries(), i as int);
                }
                return Option::Some(&self.pairs[i].1);
            }
            i = i + 1;
        }
        proof {
            lemma_map_of_dom(self.entries(), key@);
        }
        Option::None
    }

    /// Binds `key` to `value`, replacing any earlier binding in place and
    /// appending a new entry otherwise.
    pub fn insert(&mut self, key: String, value: String)
        requires
            old(self).wf(),
        ensures
            final(self).wf(),
            final(self)@ == old(self)@.insert(key@, value@),
            final(self).entries().len() <= old(self).entries().len() + 1,
    {
        let n = self.pairs.len();
        let mut i: usize = 0;
        while i < n
            invariant
                n == self.pairs.len(),
                0 <= i <= n,
                *self == *old(self),
                old(self).wf(),
                forall|j: int| 0 <= j < i ==> self.entries()[j].0 != key@,
            decreases n - i,
        {
            if str_eq(self.pairs[i].0.as_str(), key.as_str()) {
                let kept_key = self.pairs[i].0.clone();
                self.pairs.set(i, (kept_key, value));
                proof {
                    assert(self.entries() =~= old(self).entries().update(
                        i as int,
                        (key@, value@),
                    ));
                    lemma_map_of_update(old(self).entries(), i as int, key@, value@);
                }
                return ;
            }
            i = i + 1;
        }
        self.pairs.push((key, value));
        proof {
            assert(self.entries().drop_last() =~= old(self).entries());
            assert(self.entries().last() == (key@, value@));
            assert(self@ == old(self)@.insert(key@, value@));
            let es = self.entries();
            assert forall|a: int, b: int|
                0 <= a < es.len() && 0 <= b < es.len() && a != b implies es[a].0 != es[b].0 by {
                if a < es.len() - 1 && b < es.len() - 1 {
                    assert(es[a] == old(self).entries()[a]);
                    assert(es[b] == old(self).entries()[b]);
                } else if a == es.len() - 1 {
                    assert(es[b] == old(self).entries()[b]);
                    assert(es[a].0 == key@);
                } else {
                    assert(es[a] == old(self).entries()[a]);
                    assert(es[b].0 == key@);
                }
            }
        }
    }

    /// For each entry of `m` whose key is already bound here, extends the
    /// bound value with a comma and `m`'s value; entries of `m` under absent
    /// keys are ignored.
    pub fn merge_from(&mut self, m: &ConfigTable)
        requires
            old(self).wf(),
            m.wf(),
        ensures
            final(self).wf(),
            final(self)@ == merged_with(old(self)@, m@),
    {
        let n = m.len();
        let mut i: usize = 0;
        while i < n
            invariant
                self.wf(),
                m.wf(),
                old(self).wf(),
                n == m.entries().len(),
                0 <= i <= n,
                self@.dom() == old(self)@.dom(),
                forall|j: int|
                    0 <= j < i && old(self)@.dom().contains(#[trigger] m.entries()[j].0)
                        ==> self@[m.entries()[j].0] == old(self)@[m.entries()[j].0] + ","@
                        + m.entries()[j].1,
                forall|k: Seq<char>|
                    old(self)@.dom().contains(k) && !(exists|j: int|
                        0 <= j < i && #[trigger] m.entries()[j].0 == k) ==> self@[k] == old(
                        self,
                    )@[k],
            decreases n - i,
        {
            let ghost prev = self@;
            let p = m.pair_at(i);
            let cur_opt = match self.get(p.0.as_str()) {
                Option::Some(c) => Option::Some(c.clone()),
                Option::None => Option::None,
            };
            match cur_opt {
                Option::Some(cur) => {
                    proof {
                        let ki = m.entries()[i as int].0;
                        assert forall|j: int| 0 <= j < i implies m.entries()[j].0 != ki by {}
                        assert(prev[ki] == old(self)@[ki]);
                    }
                    let mut joined = cur;
                    joined.append(",");
                    joined.append(p.1.as_str());
                    let key = p.0.clone();
                    self.insert(key, joined);
                    proof {
                        assert(self@.dom() =~= prev.dom());
                    }
                },
                Option::None => {},
            }
            i = i + 1;
            proof {
                let k_i = m.entries()[i - 1].0;
                assert forall|k: Seq<char>|
                    old(self)@.dom().contains(k) && !(exists|j: int|
                        0 <= j < i && #[trigger] m.entries()[j].0 == k) implies self@[k] == old(
                    self,
                )@[k] by {
                    assert(k != k_i);
                }
            }
        }
        proof {
            m.lemma_view_is_entries();
            assert forall|k: Seq<char>|
                old(self)@.dom().contains(k) implies self@[k] == merged_with(old(self)@, m@)[k] by {
                lemma_map_of_dom(m.entries(), k);
                if m@.dom().contains(k) {
                    let j = choose|j: int| 0 <= j < m.entries().len() && m.entries()[j].0 == k;
                    lemma_map_of_get(m.entries(), j);
                }
            }
            assert(self@ =~= merged_with(old(self)@, m@));
        }
    }

    /// Binds every entry of `other`, in order, overriding shared keys.
    pub fn extend_from(&mut self, other: &ConfigTable)
        requires
            old(self).wf(),
            other.wf(),
        ensures
            final(self).wf(),
            final(self)@ == old(self)@.union_prefer_right(other@),
    {
        let n = other.len();
        let mut i: usize = 0;
        proof {
            assert(other.entries().take(0) =~= Seq::<(Seq<char>, Seq<char>)>::empty());
            assert(self@ =~= old(self)@.union_prefer_right(map_of(other.entries().take(0))));
        }
        while i < n
            invariant
                n == other.entries().len(),
                0 <= i <= n,
                self.wf(),
                other.wf(),
                self@ == old(self)@.union_prefer_right(map_of(other.entries().take(i as int))),
            decreases n - i,
        {
            let ghost prev = map_of(other.entries().take(i as int));
            let p = other.pair_at(i);
            let k = p.0.clone();
            let v = p.1.clone();
            self.insert(k, v);
            i = i + 1;
            proof {
                let taken = other.entries().take(i as int);
                assert(taken.drop_last() =~= other.entries().take(i - 1));
                assert(taken.last() == other.entries()[i - 1]);
                assert(map_of(taken) == prev.insert(
                    other.entries()[i - 1].0,
                    other.entries()[i - 1].1,
                ));
                assert(self@ =~= old(self)@.union_prefer_right(map_of(taken)));
            }
        }
        proof {
            assert(other.entries().take(n as int) =~= other.entries());
            other.lemma_view_is_entries();
        }
    }
}

impl Clone for ConfigTable {
    fn clone(&self) -> (r: Self)
        ensures
            r.entries() == self.entries(),
            r@ == self@,
            r.wf() == self.wf(),
    {
        let n = self.pairs.len();
        let mut pairs: Vec<(String, String)> = Vec::new();
        let mut i: usize = 0;
        while i < n
            invariant
                n == self.pairs.len(),
                0 <= i <= n,
                pairs@.map_values(|p: (String, String)| (p.0@, p.1@)) == self.entries().take(
                    i as int,
                ),
            decreases n - i,
        {
            let ghost out0 = pairs@;
            let p = &self.pairs[i];
            pairs.push((p.0.clone(), p.1.clone()));
            i = i + 1;
            proof {
                let f = |p: (String, String)| (p.0@, p.1@);
                assert(out0.map_values(f).len() == out0.len());
                assert(out0.len() == i - 1);
                assert(pairs@ == out0.push(pairs@[i - 1]));
                assert(pairs@[i - 1].0 == self.pairs@[i - 1].0);
                assert(pairs@[i - 1].1 == self.pairs@[i - 1].1);
                assert(pairs@.map_values(f) =~= self.entries().take(i as int));
            }
        }
        let r = ConfigTable { pairs };
        proof {
            assert(self.entries().take(n as int) =~= self.entries());
        }
        r
    }
}

/// One configured Spark installation: a user-visible name, its installation
/// root, whether it is the default, and its environment and configuration
/// layers.
pub struct SparkVersion {
    pub name: String,
    pub home: String,
    pub default: bool,
    pub env: Option<ConfigTable>,
    pub default_configs: Option<ConfigTable>,
    pub merge_configs: Option<ConfigTable>,
    pub override_configs: Option<ConfigTable>,
}

impl SparkVersion {
    /// Well-formedness: every configuration layer has distinct keys.
    pub open spec fn wf(&self) -> bool {
        &&& (self.env matches Option::Some(t) ==> t.wf())
        &&& (self.default_configs matches Option::Some(t) ==> t.wf())
        &&& (self.merge_configs matches Option::Some(t) ==> t.wf())
        &&& (self.override_configs matches Option::Some(t) ==> t.wf())
    }
}

/// Paths to the TLS private key and certificate chain.
pub struct TlsConfig {
    pub key: String,
    pub cert: String,
}

/// The proxy's own configuration.
pub struct ProxyConfig {
    pub bind_host: Option<String>,
    pub bind_port: Option<u16>,
    pub callback_address: Option<String>,
    pub tls: Option<TlsConfig>,
    pub spark_versions: Vec<SparkVersion>,
}

/// The scheme, host and port of a derived callback URL, composed as
/// `scheme://host:port` with `https` exactly when TLS is configured.
pub open spec fn spec_derived_callback(tls: bool, host: Seq<char>, port: u16) -> Seq<char> {
    (if tls {
        "https"@
    } else {
        "http"@
    }) + "://"@ + host + ":"@ + spec_dec(port as nat)
}

/// Builds `scheme://host:port`.
pub fn derived_callback_addr(tls: bool, host: &str, port: u16) -> (r: String)
    ensures
        r@ == spec_derived_callback(tls, host@, port),
{
    let mut s = if tls {
        String::from_str("https")
    } else {
        String::from_str("http")
    };
    s.append("://");
    s.append(host);
    s.append(":");
    let dec = u64_to_dec(port as u64);
    s.append(dec.as_str());
    proof {
        assert(s@ =~= spec_derived_callback(tls, host@, port));
    }
    s
}

impl ProxyConfig {
    /// The bind port when none is configured explicitly.
    pub open spec fn spec_bind_port(&self) -> u16 {
        match self.bind_port {
            Option::Some(p) => p,
            Option::None => DEFAULT_PORT,
        }
    }

    /// The configured bind port, defaulting when absent.
    pub fn get_bind_port(&self) -> (r: u16)
        ensures
            r == self.spec_bind_port(),
    {
        match self.bind_port {
            Option::Some(p) => p,
            Option::None => DEFAULT_PORT,
        }
    }

    /// The externally reachable callback base URL: the configured override
    /// when present, otherwise derived from the machine's local address and
    /// the bind port.  `None` only when no override is configured and the
    /// local address cannot be determined.
    pub fn get_callback_addr(&self) -> (r: Option<String>)
        ensures
            self.callback_address matches Option::Some(a) ==> r matches Option::Some(c) && c@
                == a@,
            r is None ==> self.callback_address is None,
            self.callback_address is None ==> (r matches Option::Some(c) ==> exists|
                host: Seq<char>,
            |
                c@ == #[trigger] spec_derived_callback(
                    self.tls is Some,
                    host,
                    self.spec_bind_port(),
                )),
    {
        match &self.callback_address {
            Option::Some(a) => Option::Some(a.clone()),
            Option::None => {
                match local_ip_text() {
                    Option::Some(host) => {
                        let tls = match &self.tls {
                            Option::Some(_) => true,
                            Option::None => false,
                        };
                        let addr = derived_callback_addr(tls, host.as_str(), self.get_bind_port());
                        proof {
                            assert(addr@ == spec_derived_callback(
                                self.tls is Some,
                                host@,
                                self.spec_bind_port(),
                            ));
                        }
                        Option::Some(addr)
                    },
                    Option::None => Option::None,
                }
            },
        }
    }
}

/// Relies on local_ip_address::local_ip for the machine's primary local IP
/// address, rendered in its standard text form.  The result depends on the
/// machine alone, so nothing is promised of its value; a lookup failure is
/// reported as `None`.
#[verifier::external_body]
fn local_ip_text() -> (r: Option<String>) {
    match local_ip_address::local_ip() {
        Ok(ip) => Option::Some(ip.to_string()),
        Err(_) => Option::None,
    }
}

} // verus!
