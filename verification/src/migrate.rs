//! The schema migrator: a store records how many migration scripts have been
//! applied; a run applies every script from there up, taking a full snapshot
//! of the records before each one, and refuses a store from a newer, unknown
//! schema generation.

use vstd::prelude::*;
use vstd::string::StringExecFns;
use crate::error::Error;
use crate::store::{models, Backup, BackupModel, Store, StoreModel};
use crate::text::{dec_str, i64_to_string, int_str, u64_to_string};
use crate::types::{Timestamp, Webmention};

verus! {

/// How many schema migration scripts this receiver knows.  The store's
/// version counts how many of them have been applied.
pub const MIGRATION_COUNT: u64 = 1;

/// The name of the snapshot taken before the script that upgrades from
/// `version` runs: it encodes the moment and the version migrated from, so
/// snapshots never collide and never overwrite one another.
pub open spec fn backup_name_of(now: Timestamp, version: int) -> Seq<char> {
    "webmention-receiver.migrationbackup."@ + int_str(now.0 as int) + "."@ + dec_str(version)
        + ".sqlite3"@
}

/// Renders [`backup_name_of`].
pub fn backup_name(now: Timestamp, version: u64) -> (r: String)
    ensures
        r@ == backup_name_of(now, version as int),
{
    let mut s: String = "webmention-receiver.migrationbackup.".to_owned();
    let ts = i64_to_string(now.0);
    s.append(ts.as_str());
    s.append(".");
    let v = u64_to_string(version);
    s.append(v.as_str());
    s.append(".sqlite3");
    proof {
        reveal_strlit("webmention-receiver.migrationbackup.");
        reveal_strlit(".");
        reveal_strlit(".sqlite3");
        assert(s@ =~= backup_name_of(now, version as int));
    }
    s
}

/// The snapshots a run on `s` takes up to version `upto`: one per applied
/// script, in order, each carrying the records as they stand (migration
/// scripts change the schema, never the records).
pub open spec fn backups_between(s: StoreModel, now: Timestamp, upto: int) -> Seq<BackupModel> {
    Seq::new(
        (upto - s.version) as nat,
        |k: int|
            BackupModel {
                name: backup_name_of(now, s.version + k),
                version: s.version + k,
                mentions: s.mentions,
            },
    )
}

/// One migrator run as a transition on the store model: a recorded version
/// beyond the known scripts is fatal and changes nothing; otherwise every
/// script from the recorded version up is applied in order, each preceded
/// by a snapshot, and the version ends at [`MIGRATION_COUNT`].
pub open spec fn migrate_model(s: StoreModel, now: Timestamp) -> (StoreModel, Result<(), Error>) {
    if s.version > MIGRATION_COUNT {
        (s, Err(Error::MigrationFatal))
    } else {
        (
            StoreModel {
                version: MIGRATION_COUNT as int,
                mentions: s.mentions,
                backups: s.backups + backups_between(s, now, MIGRATION_COUNT as int),
            },
            Ok(()),
        )
    }
}

/// An exact copy of the records, for a snapshot.
fn dup_mentions(v: &Vec<Webmention>) -> (r: Vec<Webmention>)
    ensures
        r@ == v@,
{
    let mut r: Vec<Webmention> = Vec::new();
    let mut i: usize = 0;
    while i < v.len()
        invariant
            0 <= i <= v@.len(),
            r@ == v@.take(i as int),
        decreases v@.len() - i,
    {
        r.push(v[i].dup());
        proof {
            assert(r@ =~= v@.take(i + 1));
        }
        i += 1;
    }
    proof {
        assert(v@.take(v@.len() as int) =~= v@);
    }
    r
}

/// Bring the store to the newest known schema: exactly the transition of
/// [`migrate_model`].  Safe to run on every process start: a store already
/// at the newest version is untouched and gains no snapshot, and a store
/// from a newer, unknown schema generation aborts startup with a fatal
/// error rather than guess.
pub fn run_migrations(store: &mut Store, now: Timestamp) -> (r: Result<(), Error>)
    requires
        old(store)@.wf(),
    ensures
        final(store)@.wf(),
        (final(store)@, r) == migrate_model(old(store)@, now),
{
    if store.version > MIGRATION_COUNT {
        return Err(Error::MigrationFatal);
    }
    let ghost s0 = store@;
    while store.version < MIGRATION_COUNT
        invariant
            s0.wf(),
            0 <= s0.version <= store@.version,
            store.version <= MIGRATION_COUNT,
            store@.version == store.version as int,
            store@.mentions == s0.mentions,
            store@.backups == s0.backups + backups_between(s0, now, store@.version),
        decreases MIGRATION_COUNT - store.version,
    {
        let ghost b0 = store@.backups;
        let name = backup_name(now, store.version);
        let snapshot = dup_mentions(&store.mentions);
        let b = Backup { name, version: store.version, mentions: snapshot };
        store.backups.push(b);
        store.version = store.version + 1;
        proof {
            assert(models(b.mentions@) == s0.mentions);
            assert(store@.backups =~= b0.push(b@));
            assert(store@.backups =~= s0.backups + backups_between(s0, now, store@.version));
        }
    }
    proof {
        assert(store@ =~= migrate_model(s0, now).0);
    }
    Ok(())
}

/// The steps a migrator run takes from recorded version `version`: for each
/// script to apply, in order, its index and the name of the snapshot to
/// take first.  Fatal when the version is beyond the known scripts.
pub fn migration_plan(version: u64, now: Timestamp) -> (r: Result<Vec<(u64, String)>, Error>)
    ensures
        version > MIGRATION_COUNT ==> r == Err::<Vec<(u64, String)>, Error>(Error::MigrationFatal),
        version <= MIGRATION_COUNT ==> r is Ok && {
            let steps = r->Ok_0;
            &&& steps@.len() == MIGRATION_COUNT - version
            &&& forall|k: int|
                0 <= k < steps@.len() ==> (#[trigger] steps@[k]).0 == version + k && steps@[k].1@
                    == backup_name_of(now, version as int + k)
        },
{
    if version > MIGRATION_COUNT {
        return Err(Error::MigrationFatal);
    }
    let mut steps: Vec<(u64, String)> = Vec::new();
    let mut v: u64 = version;
    while v < MIGRATION_COUNT
        invariant
            version <= v <= MIGRATION_COUNT,
            steps@.len() == v - version,
            forall|k: int|
                0 <= k < steps@.len() ==> (#[trigger] steps@[k]).0 == version + k && steps@[k].1@
                    == backup_name_of(now, version as int + k),
        decreases MIGRATION_COUNT - v,
    {
        steps.push((v, backup_name(now, v)));
        v = v + 1;
    }
    Ok(steps)
}

} // verus!
