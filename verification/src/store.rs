//! The store and the ingestion engine: the mention records with their
//! invariants, the validation rules, and the idempotent upsert keyed by the
//! `(domain, source, target)` triple.

use vstd::prelude::*;
use vstd::multiset::Multiset;
use vstd::string::StringExecFns;
use crate::clock::now_millis;
use crate::error::{BadInput, Error};
use crate::ids::{mention_id_text, new_mention_id, uuid_of_text, uuid_text_of, parse_mention_id};
use crate::text::str_eq;
use crate::types::{Config, MentionId, MentionModel, Timestamp, Webmention};
use crate::urls::{acceptable_url, parse_url, url_full, url_host, url_parse_of};

verus! {

/// The ghost image of a sequence of records.
pub open spec fn models(v: Seq<Webmention>) -> Seq<MentionModel> {
    v.map_values(|m: Webmention| m@)
}

/// A snapshot of the store's records, taken before a migration script runs.
pub struct Backup {
    /// The snapshot's name, encoding the moment it was taken and the schema
    /// version it was taken from.
    pub name: String,
    /// The schema version the store had when the snapshot was taken.
    pub version: u64,
    /// The records at the time of the snapshot.
    pub mentions: Vec<Webmention>,
}

/// The ghost image of a [`Backup`].
#[verifier::ext_equal]
pub struct BackupModel {
    pub name: Seq<char>,
    pub version: int,
    pub mentions: Seq<MentionModel>,
}

impl View for Backup {
    type V = BackupModel;

    open spec fn view(&self) -> BackupModel {
        BackupModel {
            name: self.name@,
            version: self.version as int,
            mentions: models(self.mentions@),
        }
    }
}

/// The whole persistent state of the receiver: the mention records, the
/// schema version, and the backup snapshots taken so far.
pub struct Store {
    /// How many migration scripts have been applied to this store.
    pub version: u64,
    pub mentions: Vec<Webmention>,
    pub backups: Vec<Backup>,
}

/// The ghost image of a [`Store`].
#[verifier::ext_equal]
pub struct StoreModel {
    pub version: int,
    pub mentions: Seq<MentionModel>,
    pub backups: Seq<BackupModel>,
}

impl View for Store {
    type V = StoreModel;

    open spec fn view(&self) -> StoreModel {
        StoreModel {
            version: self.version as int,
            mentions: models(self.mentions@),
            backups: self.backups@.map_values(|b: Backup| b@),
        }
    }
}

/// Whether `m` is the record of the given triple.
pub open spec fn triple_matches(
    m: MentionModel,
    domain: Seq<char>,
    source: Seq<char>,
    target: Seq<char>,
) -> bool {
    m.domain == domain && m.source == source && m.target == target
}

/// Whether some record of `s` holds the given triple.
pub open spec fn has_triple(
    s: Seq<MentionModel>,
    domain: Seq<char>,
    source: Seq<char>,
    target: Seq<char>,
) -> bool {
    exists|i: int| 0 <= i < s.len() && triple_matches(#[trigger] s[i], domain, source, target)
}

/// The index of the record of the given triple; meaningful only when
/// [`has_triple`] holds, and then unique in a well-formed store.
pub open spec fn triple_index(
    s: Seq<MentionModel>,
    domain: Seq<char>,
    source: Seq<char>,
    target: Seq<char>,
) -> int {
    choose|i: int| 0 <= i < s.len() && triple_matches(#[trigger] s[i], domain, source, target)
}

/// Whether some record of `s` carries the identifier `id`.
pub open spec fn has_id(s: Seq<MentionModel>, id: MentionId) -> bool {
    exists|i: int| 0 <= i < s.len() && (#[trigger] s[i]).id == id
}

impl StoreModel {
    /// The store's invariant: a non-negative version, well-formed records,
    /// at most one record per triple, and distinct identifiers.
    pub open spec fn wf(self) -> bool {
        &&& 0 <= self.version
        &&& forall|i: int| 0 <= i < self.mentions.len() ==> (#[trigger] self.mentions[i]).wf()
        &&& forall|i: int, j: int|
            #![trigger self.mentions[i], self.mentions[j]]
            0 <= i < self.mentions.len() && 0 <= j < self.mentions.len() && i != j ==> !(
            self.mentions[i].domain == self.mentions[j].domain && self.mentions[i].source
                == self.mentions[j].source && self.mentions[i].target == self.mentions[j].target)
        &&& forall|i: int, j: int|
            #![trigger self.mentions[i].id, self.mentions[j].id]
            0 <= i < self.mentions.len() && 0 <= j < self.mentions.len() && i != j
                ==> self.mentions[i].id != self.mentions[j].id
    }
}

/// In a well-formed store two indices holding the same triple are the same
/// index.
pub proof fn lemma_triple_unique(
    s: StoreModel,
    domain: Seq<char>,
    source: Seq<char>,
    target: Seq<char>,
    i: int,
    j: int,
)
    requires
        s.wf(),
        0 <= i < s.mentions.len(),
        0 <= j < s.mentions.len(),
        triple_matches(s.mentions[i], domain, source, target),
        triple_matches(s.mentions[j], domain, source, target),
    ensures
        i == j,
{
    assert(s.mentions[i].domain == s.mentions[j].domain);
}

/// The outcome tag of a successful ingestion: whether a record was created
/// or an existing one re-notified.
#[derive(Clone, Copy, PartialEq, Eq, Structural, Debug)]
pub enum IngestOutcome {
    Created,
    Updated,
}

/// One ingestion as a transition on the store model: the validation rules,
/// in order, then the idempotent upsert keyed by the triple of the route
/// domain and the two URLs in normalized serialization.
///
/// `id` is the identifier a new record would get and `now` the clock
/// reading; both come from outside, so the transition is defined for every
/// value of them.  A repeat notification moves `date_updated` to `now`,
/// never below the record's `date_added`, and changes nothing else.
pub open spec fn ingest_model(
    s: StoreModel,
    c: crate::types::ConfigModel,
    domain: Seq<char>,
    source: Seq<char>,
    target: Seq<char>,
    id: MentionId,
    now: Timestamp,
) -> (StoreModel, Result<(MentionId, IngestOutcome), Error>) {
    if !c.domain_allowed(domain) {
        (s, Err(Error::NotAllowedDomain))
    } else if url_parse_of(source) is None || url_parse_of(target) is None {
        (s, Err(Error::MalformedInput(BadInput::BadUrl)))
    } else if !acceptable_url(source) || !acceptable_url(target) {
        (s, Err(Error::MalformedInput(BadInput::BadScheme)))
    } else if url_full(source) == url_full(target) {
        (s, Err(Error::MalformedInput(BadInput::SelfReference)))
    } else if url_host(target) != Some(domain) {
        (s, Err(Error::MalformedInput(BadInput::DomainMismatch)))
    } else {
        let ns = url_full(source)->Some_0;
        let nt = url_full(target)->Some_0;
        if has_triple(s.mentions, domain, ns, nt) {
            let i = triple_index(s.mentions, domain, ns, nt);
            let m = s.mentions[i];
            let updated = MentionModel {
                id: m.id,
                domain: m.domain,
                source: m.source,
                target: m.target,
                date_added: m.date_added,
                date_updated: if now.0 >= m.date_added.0 {
                    now
                } else {
                    m.date_added
                },
            };
            (
                StoreModel { mentions: s.mentions.update(i, updated), ..s },
                Ok((m.id, IngestOutcome::Updated)),
            )
        } else if has_id(s.mentions, id) {
            (s, Err(Error::StoreError))
        } else {
            let fresh = MentionModel {
                id,
                domain,
                source: ns,
                target: nt,
                date_added: now,
                date_updated: now,
            };
            (StoreModel { mentions: s.mentions.push(fresh), ..s }, Ok((id, IngestOutcome::Created)))
        }
    }
}

/// Ingestion preserves the store invariant, whatever identifier and clock
/// reading come in.
pub proof fn lemma_ingest_wf(
    s: StoreModel,
    c: crate::types::ConfigModel,
    domain: Seq<char>,
    source: Seq<char>,
    target: Seq<char>,
    id: MentionId,
    now: Timestamp,
)
    requires
        s.wf(),
    ensures
        ingest_model(s, c, domain, source, target, id, now).0.wf(),
{
    let (s1, r) = ingest_model(s, c, domain, source, target, id, now);
    if s1 != s {
        let ns = url_full(source)->Some_0;
        let nt = url_full(target)->Some_0;
        if has_triple(s.mentions, domain, ns, nt) {
            let i = triple_index(s.mentions, domain, ns, nt);
            assert(0 <= i < s.mentions.len() && triple_matches(s.mentions[i], domain, ns, nt));
            assert forall|a: int, b: int|
                #![trigger s1.mentions[a], s1.mentions[b]]
                0 <= a < s1.mentions.len() && 0 <= b < s1.mentions.len() && a != b implies !(
            s1.mentions[a].domain == s1.mentions[b].domain && s1.mentions[a].source
                == s1.mentions[b].source && s1.mentions[a].target == s1.mentions[b].target) by {
                assert(s1.mentions[a].domain == s.mentions[a].domain && s1.mentions[a].source
                    == s.mentions[a].source && s1.mentions[a].target == s.mentions[a].target);
                assert(s1.mentions[b].domain == s.mentions[b].domain && s1.mentions[b].source
                    == s.mentions[b].source && s1.mentions[b].target == s.mentions[b].target);
            }
        } else {
            assert(forall|a: int| 0 <= a < s.mentions.len() ==> !triple_matches(
                #[trigger] s.mentions[a],
                domain,
                ns,
                nt,
            ));
            assert(s1.mentions[s.mentions.len() as int] == MentionModel {
                id,
                domain,
                source: ns,
                target: nt,
                date_added: now,
                date_updated: now,
            });
        }
    }
}

/// Finds the record of the given triple, if it is stored.
fn find_triple(
    mentions: &Vec<Webmention>,
    domain: &String,
    source: &String,
    target: &String,
) -> (r: Option<usize>)
    ensures
        r matches Some(i) ==> 0 <= i < mentions@.len() && triple_matches(
            models(mentions@)[i as int],
            domain@,
            source@,
            target@,
        ),
        r is None ==> !has_triple(models(mentions@), domain@, source@, target@),
{
    let mut i: usize = 0;
    while i < mentions.len()
        invariant
            0 <= i <= mentions@.len(),
            forall|k: int| 0 <= k < i ==> !triple_matches(
                (#[trigger] mentions@[k])@,
                domain@,
                source@,
                target@,
            ),
        decreases mentions@.len() - i,
    {
        let m = &mentions[i];
        if m.domain == *domain && m.source == *source && m.target == *target {
            proof {
                assert(models(mentions@)[i as int] == mentions@[i as int]@);
            }
            return Some(i);
        }
        i += 1;
    }
    proof {
        let ms = models(mentions@);
        assert forall|k: int| 0 <= k < ms.len() implies !triple_matches(
            #[trigger] ms[k],
            domain@,
            source@,
            target@,
        ) by {
            assert(ms[k] == (mentions@[k])@);
        }
    }
    None
}

/// Whether some stored record already carries `id`.
fn contains_id(mentions: &Vec<Webmention>, id: MentionId) -> (r: bool)
    ensures
        r == has_id(models(mentions@), id),
{
    let mut i: usize = 0;
    while i < mentions.len()
        invariant
            0 <= i <= mentions@.len(),
            forall|k: int| 0 <= k < i ==> (#[trigger] mentions@[k])@.id != id,
        decreases mentions@.len() - i,
    {
        if mentions[i].id == id {
            proof {
                assert(models(mentions@)[i as int] == mentions@[i as int]@);
            }
            return true;
        }
        i += 1;
    }
    proof {
        let ms = models(mentions@);
        assert forall|k: int| 0 <= k < ms.len() implies (#[trigger] ms[k]).id != id by {
            assert(ms[k] == (mentions@[k])@);
        }
    }
    false
}

/// Validate and ingest one mention claim with the given fresh identifier and
/// clock reading: exactly the transition of [`ingest_model`].
///
/// The validation rules run in order, each failure with its own error:
/// the domain allow-list, parsing of both URLs with scheme `http` or
/// `https`, the self-reference check on the normalized URLs, and the match
/// of `target`'s host against the route domain.  Then at most one record
/// per triple is kept: a stored triple keeps its identifier and only
/// `date_updated` moves; a new triple is stored under `id`, unless `id`
/// collides with a stored record, which is reported as a store failure.
pub fn ingest_with(
    store: &mut Store,
    config: &Config,
    domain: &str,
    source: &str,
    target: &str,
    id: MentionId,
    now: Timestamp,
) -> (r: Result<(MentionId, IngestOutcome), Error>)
    requires
        old(store)@.wf(),
    ensures
        final(store)@.wf(),
        (final(store)@, r) == ingest_model(
            old(store)@,
            config@,
            domain@,
            source@,
            target@,
            id,
            now,
        ),
{
    proof {
        lemma_ingest_wf(store@, config@, domain@, source@, target@, id, now);
    }
    if !crate::types::domain_allowed(config, domain) {
        return Err(Error::NotAllowedDomain);
    }
    let sp = match parse_url(source) {
        None => return Err(Error::MalformedInput(BadInput::BadUrl)),
        Some(p) => p,
    };
    let tp = match parse_url(target) {
        None => return Err(Error::MalformedInput(BadInput::BadUrl)),
        Some(p) => p,
    };
    let s_ok = str_eq(sp.scheme.as_str(), "http") || str_eq(sp.scheme.as_str(), "https");
    let t_ok = str_eq(tp.scheme.as_str(), "http") || str_eq(tp.scheme.as_str(), "https");
    if !s_ok || !t_ok {
        return Err(Error::MalformedInput(BadInput::BadScheme));
    }
    if sp.full == tp.full {
        return Err(Error::MalformedInput(BadInput::SelfReference));
    }
    let host_ok = match &tp.host {
        Some(h) => str_eq(h.as_str(), domain),
        None => false,
    };
    if !host_ok {
        return Err(Error::MalformedInput(BadInput::DomainMismatch));
    }
    let nd: String = domain.to_owned();
    match find_triple(&store.mentions, &nd, &sp.full, &tp.full) {
        Some(i) => {
            let ghost s0 = store@;
            let added = store.mentions[i].date_added;
            let rid = store.mentions[i].id;
            let bumped = if now.0 >= added.0 {
                now
            } else {
                added
            };
            store.mentions[i].date_updated = bumped;
            proof {
                let ns = url_full(source@)->Some_0;
                let nt = url_full(target@)->Some_0;
                let ci = triple_index(s0.mentions, domain@, ns, nt);
                assert(triple_matches(s0.mentions[i as int], domain@, ns, nt));
                assert(has_triple(s0.mentions, domain@, ns, nt));
                lemma_triple_unique(s0, domain@, ns, nt, ci, i as int);
                assert(store@.mentions =~= s0.mentions.update(
                    ci,
                    ingest_model(s0, config@, domain@, source@, target@, id, now).0.mentions[ci],
                ));
                assert(store@ =~= ingest_model(
                    s0,
                    config@,
                    domain@,
                    source@,
                    target@,
                    id,
                    now,
                ).0);
            }
            Ok((rid, IngestOutcome::Updated))
        },
        None => {
            if contains_id(&store.mentions, id) {
                return Err(Error::StoreError);
            }
            let ghost s0 = store@;
            let rec = Webmention {
                id,
                domain: nd,
                source: sp.full,
                target: tp.full,
                date_added: now,
                date_updated: now,
            };
            store.mentions.push(rec);
            proof {
                assert(store@.mentions =~= s0.mentions.push(rec@));
                assert(store@ =~= ingest_model(
                    s0,
                    config@,
                    domain@,
                    source@,
                    target@,
                    id,
                    now,
                ).0);
            }
            Ok((id, IngestOutcome::Created))
        },
    }
}

/// Validate and ingest one mention claim, stamping a new record with the
/// current clock reading and a freshly drawn identifier.  Which identifier
/// and time come out of the outside world is not pinned down; the transition
/// holds for whatever they were.
pub fn ingest(
    store: &mut Store,
    config: &Config,
    domain: &str,
    source: &str,
    target: &str,
) -> (r: Result<(MentionId, IngestOutcome), Error>)
    requires
        old(store)@.wf(),
    ensures
        final(store)@.wf(),
        exists|id: MentionId, now: Timestamp|
            (final(store)@, r) == ingest_model(
                old(store)@,
                config@,
                domain@,
                source@,
                target@,
                id,
                now,
            ),
        r is Err ==> final(store)@ == old(store)@,
        r is Ok ==> has_triple(
            final(store)@.mentions,
            domain@,
            url_full(source@)->Some_0,
            url_full(target@)->Some_0,
        ),
{
    let id = new_mention_id();
    let now = now_millis();
    let r = ingest_with(store, config, domain, source, target, id, now);
    proof {
        assert((store@, r) == ingest_model(old(store)@, config@, domain@, source@, target@, id, now));
        if r is Ok {
            let ns = url_full(source@)->Some_0;
            let nt = url_full(target@)->Some_0;
            if has_triple(old(store)@.mentions, domain@, ns, nt) {
                let ci = triple_index(old(store)@.mentions, domain@, ns, nt);
                assert(triple_matches(store@.mentions[ci], domain@, ns, nt));
            } else {
                assert(triple_matches(
                    store@.mentions[old(store)@.mentions.len() as int],
                    domain@,
                    ns,
                    nt,
                ));
            }
        }
    }
    r
}

/// Whether `m` is the record of `domain` with identifier `id`.
pub open spec fn id_in_domain(m: MentionModel, domain: Seq<char>, id: MentionId) -> bool {
    m.domain == domain && m.id == id
}

impl Store {
    /// An empty store that no migration script has touched yet.
    pub fn new() -> (s: Store)
        ensures
            s@ == (StoreModel { version: 0, mentions: Seq::<MentionModel>::empty(), backups: Seq::<
                BackupModel,
            >::empty() }),
            s@.wf(),
    {
        let s = Store { version: 0, mentions: Vec::new(), backups: Vec::new() };
        proof {
            assert(s@ =~= StoreModel {
                version: 0,
                mentions: Seq::<MentionModel>::empty(),
                backups: Seq::<BackupModel>::empty(),
            });
        }
        s
    }
}

/// Exact lookup by domain and identifier; `NotFound` when no record of that
/// domain carries the identifier.
pub fn get_mention(store: &Store, domain: &str, id: MentionId) -> (r: Result<Webmention, Error>)
    requires
        store@.wf(),
    ensures
        match r {
            Ok(m) => has_id(store@.mentions, id) && exists|i: int|
                0 <= i < store@.mentions.len() && #[trigger] store@.mentions[i] == m@
                    && id_in_domain(m@, domain@, id),
            Err(e) => e == Error::NotFound && forall|i: int|
                0 <= i < store@.mentions.len() ==> !id_in_domain(
                    #[trigger] store@.mentions[i],
                    domain@,
                    id,
                ),
        },
{
    let d: String = domain.to_owned();
    let mut i: usize = 0;
    while i < store.mentions.len()
        invariant
            0 <= i <= store.mentions@.len(),
            d@ == domain@,
            store@.mentions == models(store.mentions@),
            forall|k: int| 0 <= k < i ==> !id_in_domain(
                (#[trigger] store.mentions@[k])@,
                domain@,
                id,
            ),
        decreases store.mentions@.len() - i,
    {
        let m = &store.mentions[i];
        if m.id == id && m.domain == d {
            proof {
                assert(models(store.mentions@)[i as int] == store.mentions@[i as int]@);
            }
            return Ok(m.dup());
        }
        i += 1;
    }
    proof {
        assert forall|k: int| 0 <= k < store@.mentions.len() implies !id_in_domain(
            #[trigger] store@.mentions[k],
            domain@,
            id,
        ) by {
            assert(models(store.mentions@)[k] == store.mentions@[k]@);
        }
    }
    Err(Error::NotFound)
}

/// The read path handed a textual identifier: a string that is no UUID is
/// malformed input; otherwise the lookup of [`get_mention`].
pub fn find_mention(store: &Store, domain: &str, id_text: &str) -> (r: Result<Webmention, Error>)
    requires
        store@.wf(),
    ensures
        match r {
            Ok(m) => uuid_of_text(id_text@) == Some(m@.id.0) && exists|i: int|
                0 <= i < store@.mentions.len() && #[trigger] store@.mentions[i] == m@
                    && m@.domain == domain@,
            Err(e) => if uuid_of_text(id_text@) is None {
                e == Error::MalformedInput(BadInput::BadIdentifier)
            } else {
                e == Error::NotFound && forall|i: int|
                    0 <= i < store@.mentions.len() ==> !id_in_domain(
                        #[trigger] store@.mentions[i],
                        domain@,
                        MentionId(uuid_of_text(id_text@)->Some_0),
                    )
            },
        },
{
    match parse_mention_id(id_text) {
        None => Err(Error::MalformedInput(BadInput::BadIdentifier)),
        Some(id) => get_mention(store, domain, id),
    }
}

/// The latest `date_updated` among `mentions`, or the epoch for an empty
/// list; what the rendering layer shows as a feed's freshness.
pub fn last_updated(mentions: &Vec<Webmention>) -> (t: Timestamp)
    ensures
        mentions@.len() == 0 ==> t == (Timestamp(0)),
        mentions@.len() > 0 ==> (exists|i: int|
            0 <= i < mentions@.len() && (#[trigger] mentions@[i]).date_updated == t) && forall|
            i: int,
        |
            0 <= i < mentions@.len() ==> (#[trigger] mentions@[i]).date_updated.0 <= t.0,
{
    let mut t = Timestamp(0);
    if mentions.len() == 0 {
        return t;
    }
    t = mentions[0].date_updated;
    let mut i: usize = 1;
    while i < mentions.len()
        invariant
            1 <= i <= mentions@.len(),
            mentions@.len() > 0,
            exists|k: int| 0 <= k < i && (#[trigger] mentions@[k]).date_updated == t,
            forall|k: int| 0 <= k < i ==> (#[trigger] mentions@[k]).date_updated.0 <= t.0,
        decreases mentions@.len() - i,
    {
        if mentions[i].date_updated.0 > t.0 {
            t = mentions[i].date_updated;
        }
        i += 1;
    }
    t
}

/// The canonical URL of a stored mention:
/// `{external_url}/{domain}/mention/{id}`.
pub fn mention_url(config: &Config, domain: &str, id: MentionId) -> (r: String)
    ensures
        r@ == config@.external_url + "/"@ + domain@ + "/mention/"@ + uuid_text_of(id.0),
{
    let mut s = config.external_url.clone();
    s.append("/");
    s.append(domain);
    s.append("/mention/");
    let idt = mention_id_text(id);
    s.append(idt.as_str());
    proof {
        assert(s@ =~= config@.external_url + "/"@ + domain@ + "/mention/"@ + uuid_text_of(id.0));
    }
    s
}

/// The records of `domain`, in store order.
pub open spec fn domain_records(s: Seq<MentionModel>, domain: Seq<char>) -> Seq<MentionModel> {
    s.filter(|m: MentionModel| m.domain == domain)
}

/// Ordered by `date_updated`, most recent first.
pub open spec fn sorted_desc(s: Seq<MentionModel>) -> bool {
    forall|i: int, j: int|
        #![trigger s[i], s[j]]
        0 <= i < j < s.len() ==> s[i].date_updated.0 >= s[j].date_updated.0
}

/// Every record of `out` was updated no earlier than every record of `rem`.
pub open spec fn dominates(out: Seq<MentionModel>, rem: Seq<MentionModel>) -> bool {
    forall|a: int, b: int|
        #![trigger out[a], rem[b]]
        0 <= a < out.len() && 0 <= b < rem.len() ==> out[a].date_updated.0
            >= rem[b].date_updated.0
}

/// All records of `domain`, ordered by `date_updated` descending: the same
/// records as [`domain_records`], most recently (re-)notified first.
pub fn list_mentions(store: &Store, domain: &str) -> (r: Vec<Webmention>)
    requires
        store@.wf(),
    ensures
        models(r@).to_multiset() == domain_records(store@.mentions, domain@).to_multiset(),
        sorted_desc(models(r@)),
{
    let d: String = domain.to_owned();
    let mut kept: Vec<Webmention> = Vec::new();
    let mut i: usize = 0;
    while i < store.mentions.len()
        invariant
            0 <= i <= store.mentions@.len(),
            d@ == domain@,
            store@.mentions == models(store.mentions@),
            models(kept@) == domain_records(store@.mentions.take(i as int), domain@),
        decreases store.mentions@.len() - i,
    {
        let ghost pred = |m: MentionModel| m.domain == domain@;
        let ghost prefix = store@.mentions.take(i as int);
        let ghost kept0 = models(kept@);
        let m = &store.mentions[i];
        if m.domain == d {
            kept.push(m.dup());
        }
        proof {
            let longer = store@.mentions.take(i + 1);
            assert(longer.drop_last() =~= prefix);
            assert(longer.last() == store@.mentions[i as int]);
            assert(store@.mentions[i as int] == store.mentions@[i as int]@);
            reveal(Seq::filter);
            if pred(longer.last()) {
                assert(models(kept@) =~= kept0.push(store.mentions@[i as int]@));
            } else {
                assert(models(kept@) =~= kept0);
            }
            assert(models(kept@) == domain_records(longer, domain@));
        }
        i += 1;
    }
    proof {
        assert(store@.mentions.take(store.mentions@.len() as int) =~= store@.mentions);
    }
    let ghost total = models(kept@);
    let mut rem = kept;
    let mut out: Vec<Webmention> = Vec::new();
    proof {
        broadcast use vstd::seq_lib::group_to_multiset_ensures;

        assert(models(out@) =~= Seq::<MentionModel>::empty());
        assert(models(out@).to_multiset().add(models(rem@).to_multiset()) =~= total.to_multiset());
    }
    while rem.len() > 0
        invariant
            models(out@).to_multiset().add(models(rem@).to_multiset()) == total.to_multiset(),
            sorted_desc(models(out@)),
            dominates(models(out@), models(rem@)),
        decreases rem@.len(),
    {
        let mut mi: usize = 0;
        let mut j: usize = 1;
        while j < rem.len()
            invariant
                0 <= mi < rem@.len(),
                mi < j <= rem@.len(),
                forall|k: int| 0 <= k < j ==> (#[trigger] rem@[k])@.date_updated.0
                    <= rem@[mi as int]@.date_updated.0,
            decreases rem@.len() - j,
        {
            if rem[j].date_updated.0 > rem[mi].date_updated.0 {
                mi = j;
            }
            j += 1;
        }
        let ghost out0 = models(out@);
        let ghost rem0 = models(rem@);
        let ghost x = rem0[mi as int];
        let rec = rem.remove(mi);
        out.push(rec);
        proof {
            broadcast use vstd::seq_lib::group_to_multiset_ensures;

            assert(rec@ == x);
            assert(models(out@) =~= out0.push(x));
            assert(models(rem@) =~= rem0.remove(mi as int));
            assert(models(out@).to_multiset() =~= out0.to_multiset().insert(x));
            assert(models(rem@).to_multiset() =~= rem0.to_multiset().remove(x));
            assert(rem0.to_multiset().count(x) > 0) by {
                assert(rem0.contains(x));
            }
            assert forall|e: MentionModel|
                models(out@).to_multiset().add(models(rem@).to_multiset()).count(e)
                    == total.to_multiset().count(e) by {
                assert(out0.to_multiset().add(rem0.to_multiset()).count(e) == total.to_multiset()
                    .count(e));
            }
            assert(models(out@).to_multiset().add(models(rem@).to_multiset())
                =~= total.to_multiset());
            // `x` is a maximum of what remained, so the listing stays sorted.
            assert forall|a: int, b: int|
                #![trigger models(out@)[a], models(rem@)[b]]
                0 <= a < models(out@).len() && 0 <= b < models(rem@).len() implies models(
                out@,
            )[a].date_updated.0 >= models(rem@)[b].date_updated.0 by {
                let rb = models(rem@)[b];
                assert(rb == if b < mi as int {
                    rem0[b]
                } else {
                    rem0[b + 1]
                });
                assert(rb.date_updated.0 <= x.date_updated.0);
                if a < out0.len() {
                    assert(models(out@)[a] == out0[a]);
                    assert(out0[a].date_updated.0 >= x.date_updated.0);
                } else {
                    assert(models(out@)[a] == x);
                }
            }
            assert forall|a: int, b: int|
                #![trigger models(out@)[a], models(out@)[b]]
                0 <= a < b < models(out@).len() implies models(out@)[a].date_updated.0 >= models(
                out@,
            )[b].date_updated.0 by {
                if b < out0.len() {
                    assert(models(out@)[a] == out0[a] && models(out@)[b] == out0[b]);
                } else {
                    assert(models(out@)[b] == x);
                    assert(out0[a].date_updated.0 >= x.date_updated.0);
                }
            }
        }
    }
    proof {
        broadcast use vstd::seq_lib::group_to_multiset_ensures;

        assert(models(rem@).to_multiset() =~= Multiset::<MentionModel>::empty()) by {
            assert(models(rem@) =~= Seq::<MentionModel>::empty());
        }
        assert(models(out@).to_multiset() =~= total.to_multiset());
    }
    out
}

} // verus!
