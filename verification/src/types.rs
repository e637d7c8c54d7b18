//! The data the receiver works with: timestamps, mention identifiers, the
//! stored mention record, and the startup configuration.

use vstd::prelude::*;

verus! {

/// A moment in time, in milliseconds since the Unix epoch.
#[derive(Clone, Copy, PartialEq, Eq, Structural, Debug)]
pub struct Timestamp(pub i64);

/// The server-generated identifier of a stored mention: the 128-bit value of
/// a UUID, assigned once at first insertion and never changed.
#[derive(Clone, Copy, PartialEq, Eq, Structural, Debug, Hash)]
pub struct MentionId(pub u128);

/// One stored mention claim: `source` says it references `target`, filed
/// under `domain`, the host that owns `target`.  `source` and `target` are
/// kept in the normalized serialization their URLs parse to.
pub struct Webmention {
    pub id: MentionId,
    pub domain: String,
    pub source: String,
    pub target: String,
    /// When the record was first created; immutable afterwards.
    pub date_added: Timestamp,
    /// When the triple was last (re-)notified.
    pub date_updated: Timestamp,
}

/// The ghost image of a [`Webmention`], with the strings as character
/// sequences.
#[verifier::ext_equal]
pub struct MentionModel {
    pub id: MentionId,
    pub domain: Seq<char>,
    pub source: Seq<char>,
    pub target: Seq<char>,
    pub date_added: Timestamp,
    pub date_updated: Timestamp,
}

impl View for Webmention {
    type V = MentionModel;

    open spec fn view(&self) -> MentionModel {
        MentionModel {
            id: self.id,
            domain: self.domain@,
            source: self.source@,
            target: self.target@,
            date_added: self.date_added,
            date_updated: self.date_updated,
        }
    }
}

impl MentionModel {
    /// A record is well formed when it was created no later than it was last
    /// updated.
    pub open spec fn wf(self) -> bool {
        self.date_added.0 <= self.date_updated.0
    }

    /// The natural key of a record: at any time the store holds at most one
    /// record per triple.
    pub open spec fn triple(self) -> (Seq<char>, Seq<char>, Seq<char>) {
        (self.domain, self.source, self.target)
    }
}

impl Webmention {
    /// An exact copy of the record.
    pub fn dup(&self) -> (r: Webmention)
        ensures
            r == *self,
    {
        Webmention {
            id: self.id,
            domain: self.domain.clone(),
            source: self.source.clone(),
            target: self.target.clone(),
            date_added: self.date_added,
            date_updated: self.date_updated,
        }
    }
}

/// Startup configuration: loaded once, immutable for the process lifetime,
/// and passed explicitly to the functions that read it.
pub struct Config {
    /// The external base URL under which canonical mention URLs are built.
    pub external_url: String,
    /// The socket address to bind, as text, if one was configured.
    pub bind: Option<String>,
    /// If present, only these domains may receive mentions.
    pub allowed_domains: Option<Vec<String>>,
}

/// The ghost image of a [`Config`].
#[verifier::ext_equal]
pub struct ConfigModel {
    pub external_url: Seq<char>,
    pub bind: Option<Seq<char>>,
    pub allowed_domains: Option<Seq<Seq<char>>>,
}

impl View for Config {
    type V = ConfigModel;

    open spec fn view(&self) -> ConfigModel {
        ConfigModel {
            external_url: self.external_url@,
            bind: match self.bind {
                Some(b) => Some(b@),
                None => None,
            },
            allowed_domains: match self.allowed_domains {
                Some(l) => Some(l@.map_values(|s: String| s@)),
                None => None,
            },
        }
    }
}

impl ConfigModel {
    /// Whether `domain` may receive mentions: every domain is allowed when no
    /// allow-list was configured, otherwise only the listed ones.
    pub open spec fn domain_allowed(self, domain: Seq<char>) -> bool {
        match self.allowed_domains {
            Some(l) => exists|i: int| #![trigger l[i]] 0 <= i < l.len() && l[i] == domain,
            None => true,
        }
    }
}

/// Whether `domain` may receive mentions under `config` (see
/// [`ConfigModel::domain_allowed`]).
pub fn domain_allowed(config: &Config, domain: &str) -> (r: bool)
    ensures
        r == config@.domain_allowed(domain@),
{
    match &config.allowed_domains {
        None => true,
        Some(list) => {
            let d: String = domain.to_owned();
            let mut i: usize = 0;
            while i < list.len()
                invariant
                    0 <= i <= list.len(),
                    d@ == domain@,
                    config@.allowed_domains == Some(list@.map_values(|s: String| s@)),
                    forall|k: int| 0 <= k < i ==> (#[trigger] list@[k])@ != domain@,
                decreases list.len() - i,
            {
                if list[i] == d {
                    proof {
                        let l = list@.map_values(|s: String| s@);
                        assert(config@.allowed_domains == Some(l));
                        assert(l[i as int] == (list@[i as int])@);
                        let ls = config@.allowed_domains->Some_0;
                        assert(0 <= (i as int) < ls.len() && ls[i as int] == domain@);
                        assert(config@.domain_allowed(domain@));
                    }
                    return true;
                }
                i += 1;
            }
            proof {
                let l = list@.map_values(|s: String| s@);
                assert forall|k: int| 0 <= k < l.len() implies #[trigger] l[k] != domain@ by {
                    assert(l[k] == (list@[k])@);
                }
            }
            false
        },
    }
}

} // verus!
