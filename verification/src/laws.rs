//! The laws of the receiver, stated over the store and migrator models and
//! proved once and for all: idempotent re-notification, one record per
//! triple, the rejection rules, and the migrator's idempotence and safety.

use vstd::prelude::*;
use crate::error::Error;
use crate::migrate::{backups_between, migrate_model, backup_name_of, MIGRATION_COUNT};
use crate::store::{
    has_triple, ingest_model, lemma_ingest_wf, lemma_triple_unique, triple_index, triple_matches,
    IngestOutcome, BackupModel, StoreModel,
};
use crate::types::{ConfigModel, MentionId, Timestamp};
use crate::urls::{url_full, url_host, url_parse_of};

verus! {

/// Re-notifying a triple yields the identifier it got the first time: after
/// any successful ingestion, ingesting the same claim again succeeds with
/// the same identifier, tagged as an update, adds no record, and leaves the
/// record's `date_added` and identifier untouched.
pub proof fn lemma_renotify_same_id(
    s0: StoreModel,
    c: ConfigModel,
    domain: Seq<char>,
    source: Seq<char>,
    target: Seq<char>,
    id1: MentionId,
    now1: Timestamp,
    id2: MentionId,
    now2: Timestamp,
)
    requires
        s0.wf(),
        ingest_model(s0, c, domain, source, target, id1, now1).1 is Ok,
    ensures
        ({
            let (s1, r1) = ingest_model(s0, c, domain, source, target, id1, now1);
            let (s2, r2) = ingest_model(s1, c, domain, source, target, id2, now2);
            &&& r2 is Ok
            &&& r2->Ok_0.0 == r1->Ok_0.0
            &&& r2->Ok_0.1 == IngestOutcome::Updated
            &&& s2.mentions.len() == s1.mentions.len()
            &&& exists|i: int|
                0 <= i < s1.mentions.len() && (#[trigger] s1.mentions[i]).id == r1->Ok_0.0
                    && s2.mentions[i].id == s1.mentions[i].id && s2.mentions[i].date_added
                    == s1.mentions[i].date_added
        }),
{
    lemma_ingest_wf(s0, c, domain, source, target, id1, now1);
    let ns = url_full(source)->Some_0;
    let nt = url_full(target)->Some_0;
    let (s1, r1) = ingest_model(s0, c, domain, source, target, id1, now1);
    let w: int = if has_triple(s0.mentions, domain, ns, nt) {
        triple_index(s0.mentions, domain, ns, nt)
    } else {
        s0.mentions.len() as int
    };
    assert(0 <= w < s1.mentions.len() && triple_matches(s1.mentions[w], domain, ns, nt)
        && s1.mentions[w].id == r1->Ok_0.0);
    assert(has_triple(s1.mentions, domain, ns, nt));
    let j = triple_index(s1.mentions, domain, ns, nt);
    assert(0 <= j < s1.mentions.len() && triple_matches(s1.mentions[j], domain, ns, nt));
    lemma_triple_unique(s1, domain, ns, nt, j, w);
    let (s2, r2) = ingest_model(s1, c, domain, source, target, id2, now2);
    assert(s2.mentions[w].id == s1.mentions[w].id && s2.mentions[w].date_added
        == s1.mentions[w].date_added);
}

/// However a triple got in, the store holds exactly one record of it: after
/// a successful ingestion of a claim, exactly one index holds its triple.
pub proof fn lemma_one_record_per_triple(
    s0: StoreModel,
    c: ConfigModel,
    domain: Seq<char>,
    source: Seq<char>,
    target: Seq<char>,
    id: MentionId,
    now: Timestamp,
)
    requires
        s0.wf(),
        ingest_model(s0, c, domain, source, target, id, now).1 is Ok,
    ensures
        ({
            let s1 = ingest_model(s0, c, domain, source, target, id, now).0;
            let ns = url_full(source)->Some_0;
            let nt = url_full(target)->Some_0;
            &&& has_triple(s1.mentions, domain, ns, nt)
            &&& forall|i: int, j: int|
                #![trigger s1.mentions[i], s1.mentions[j]]
                (0 <= i < s1.mentions.len() && 0 <= j < s1.mentions.len() && triple_matches(
                    s1.mentions[i],
                    domain,
                    ns,
                    nt,
                ) && triple_matches(s1.mentions[j], domain, ns, nt)) ==> i == j
        }),
{
    lemma_ingest_wf(s0, c, domain, source, target, id, now);
    let ns = url_full(source)->Some_0;
    let nt = url_full(target)->Some_0;
    let s1 = ingest_model(s0, c, domain, source, target, id, now).0;
    let w: int = if has_triple(s0.mentions, domain, ns, nt) {
        triple_index(s0.mentions, domain, ns, nt)
    } else {
        s0.mentions.len() as int
    };
    assert(0 <= w < s1.mentions.len() && triple_matches(s1.mentions[w], domain, ns, nt));
    assert(has_triple(s1.mentions, domain, ns, nt));
    assert forall|i: int, j: int|
        #![trigger s1.mentions[i], s1.mentions[j]]
        (0 <= i < s1.mentions.len() && 0 <= j < s1.mentions.len() && triple_matches(
            s1.mentions[i],
            domain,
            ns,
            nt,
        ) && triple_matches(s1.mentions[j], domain, ns, nt)) implies i == j by {
        lemma_triple_unique(s1, domain, ns, nt, i, j);
    }
}

/// A claim whose target's host differs from the route domain is never
/// stored: whatever else holds of the inputs, ingestion rejects it and
/// leaves the store unchanged.
pub proof fn lemma_domain_mismatch_rejected(
    s: StoreModel,
    c: ConfigModel,
    domain: Seq<char>,
    source: Seq<char>,
    target: Seq<char>,
    id: MentionId,
    now: Timestamp,
)
    requires
        url_host(target) != Some(domain),
    ensures
        ingest_model(s, c, domain, source, target, id, now).0 == s,
        ingest_model(s, c, domain, source, target, id, now).1 is Err,
{
}

/// A resource cannot mention itself: two URLs with the same normalized
/// serialization — in particular, the very same string — are rejected, and
/// the store is left unchanged.
pub proof fn lemma_self_reference_rejected(
    s: StoreModel,
    c: ConfigModel,
    domain: Seq<char>,
    source: Seq<char>,
    target: Seq<char>,
    id: MentionId,
    now: Timestamp,
)
    requires
        url_full(source) == url_full(target),
    ensures
        ingest_model(s, c, domain, source, target, id, now).0 == s,
        ingest_model(s, c, domain, source, target, id, now).1 is Err,
{
}

/// The same string as both source and target is always rejected, for any
/// URL, valid or not.
pub proof fn lemma_self_mention_rejected(
    s: StoreModel,
    c: ConfigModel,
    domain: Seq<char>,
    u: Seq<char>,
    id: MentionId,
    now: Timestamp,
)
    ensures
        ingest_model(s, c, domain, u, u, id, now).0 == s,
        ingest_model(s, c, domain, u, u, id, now).1 is Err,
{
}

/// A scheme other than `http` or `https` — `ftp`, say — on either URL is
/// rejected, and the store is left unchanged.
pub proof fn lemma_scheme_rejected(
    s: StoreModel,
    c: ConfigModel,
    domain: Seq<char>,
    source: Seq<char>,
    target: Seq<char>,
    id: MentionId,
    now: Timestamp,
)
    requires
        (url_parse_of(source) matches Some(p) && p.0 != "http"@ && p.0 != "https"@) || (url_parse_of(
            target,
        ) matches Some(p) && p.0 != "http"@ && p.0 != "https"@),
    ensures
        ingest_model(s, c, domain, source, target, id, now).0 == s,
        ingest_model(s, c, domain, source, target, id, now).1 is Err,
{
}

/// Running the migrator twice in a row performs nothing the second time:
/// the store is already at the newest version, no script runs, and no new
/// snapshot is taken.
pub proof fn lemma_migrate_idempotent(s: StoreModel, now1: Timestamp, now2: Timestamp)
    requires
        migrate_model(s, now1).1 is Ok,
    ensures
        ({
            let s1 = migrate_model(s, now1).0;
            migrate_model(s1, now2) == (s1, Ok::<(), Error>(()))
        }),
{
    let s1 = migrate_model(s, now1).0;
    assert(backups_between(s1, now2, MIGRATION_COUNT as int) =~= Seq::<BackupModel>::empty());
    assert(s1.backups + Seq::<BackupModel>::empty() =~= s1.backups);
    assert(migrate_model(s1, now2).0 =~= s1);
}

/// A migration run that had a script to apply leaves a snapshot of the
/// pre-migration store: its name encodes the moment and the version
/// migrated from, and it carries exactly the records of before.
pub proof fn lemma_migrate_backup(s: StoreModel, now: Timestamp)
    requires
        0 <= s.version < MIGRATION_COUNT,
    ensures
        migrate_model(s, now).1 is Ok,
        ({
            let s1 = migrate_model(s, now).0;
            exists|i: int|
                0 <= i < s1.backups.len() && (#[trigger] s1.backups[i]).version == s.version
                    && s1.backups[i].mentions == s.mentions && s1.backups[i].name
                    == backup_name_of(now, s.version)
        }),
{
    let s1 = migrate_model(s, now).0;
    let i = s.backups.len() as int;
    assert(s1.backups[i] == backups_between(s, now, MIGRATION_COUNT as int)[0]);
    assert(0 <= i < s1.backups.len() && s1.backups[i].version == s.version && s1.backups[i].mentions
        == s.mentions && s1.backups[i].name == backup_name_of(now, s.version));
}

/// A store recorded at a version beyond the known scripts comes from a
/// newer, unrecognized schema generation: the migrator reports a fatal
/// error and touches nothing.
pub proof fn lemma_unknown_schema_fatal(s: StoreModel, now: Timestamp)
    requires
        s.version > MIGRATION_COUNT,
    ensures
        migrate_model(s, now) == (s, Err::<(), Error>(Error::MigrationFatal)),
{
}

} // verus!
