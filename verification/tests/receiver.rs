use webmention_receiver::error::{BadInput, Error};
use webmention_receiver::store::{get_mention, ingest, ingest_with, list_mentions, IngestOutcome, Store};
use webmention_receiver::store::{find_mention, last_updated, mention_url};
use webmention_receiver::types::{domain_allowed, Config, MentionId, Timestamp};

fn open_config() -> Config {
    Config { external_url: "https://wm.example".to_string(), bind: None, allowed_domains: None }
}

#[test]
fn ingest_creates_then_updates() {
    let mut s = Store::new();
    let c = open_config();
    let r1 = ingest_with(
        &mut s,
        &c,
        "example.com",
        "https://a.example/post",
        "https://example.com/page",
        MentionId(1),
        Timestamp(100),
    )
    .unwrap();
    assert_eq!(r1, (MentionId(1), IngestOutcome::Created));
    let r2 = ingest_with(
        &mut s,
        &c,
        "example.com",
        "https://a.example/post",
        "https://example.com/page",
        MentionId(2),
        Timestamp(250),
    )
    .unwrap();
    assert_eq!(r2, (MentionId(1), IngestOutcome::Updated));
    assert_eq!(s.mentions.len(), 1);
    assert_eq!(s.mentions[0].id, MentionId(1));
    assert_eq!(s.mentions[0].date_added, Timestamp(100));
    assert_eq!(s.mentions[0].date_updated, Timestamp(250));
}

#[test]
fn repeated_ingest_keeps_one_record() {
    let mut s = Store::new();
    let c = open_config();
    for n in 0..5u64 {
        let r = ingest_with(
            &mut s,
            &c,
            "example.com",
            "https://a.example/post",
            "https://example.com/page",
            MentionId(10 + n as u128),
            Timestamp(100 + n as i64),
        )
        .unwrap();
        assert_eq!(r.0, MentionId(10));
    }
    assert_eq!(s.mentions.len(), 1);
}

#[test]
fn domain_mismatch_rejected() {
    let mut s = Store::new();
    let c = open_config();
    let r = ingest_with(
        &mut s,
        &c,
        "example.com",
        "https://a.example/post",
        "https://other.example/x",
        MentionId(1),
        Timestamp(100),
    );
    assert_eq!(r, Err(Error::MalformedInput(BadInput::DomainMismatch)));
    assert_eq!(s.mentions.len(), 0);
}

#[test]
fn self_reference_rejected() {
    let mut s = Store::new();
    let c = open_config();
    let r = ingest_with(
        &mut s,
        &c,
        "example.com",
        "https://example.com/page",
        "https://example.com/page",
        MentionId(1),
        Timestamp(100),
    );
    assert_eq!(r, Err(Error::MalformedInput(BadInput::SelfReference)));
    assert_eq!(s.mentions.len(), 0);
}

#[test]
fn normalized_self_reference_rejected() {
    // the two spellings serialize to the same URL, so this is a self-mention
    let mut s = Store::new();
    let c = open_config();
    let r = ingest_with(
        &mut s,
        &c,
        "example.com",
        "https://example.com",
        "https://example.com/",
        MentionId(1),
        Timestamp(100),
    );
    assert_eq!(r, Err(Error::MalformedInput(BadInput::SelfReference)));
}

#[test]
fn ftp_scheme_rejected() {
    let mut s = Store::new();
    let c = open_config();
    let r = ingest_with(
        &mut s,
        &c,
        "example.com",
        "ftp://a.example/post",
        "https://example.com/page",
        MentionId(1),
        Timestamp(100),
    );
    assert_eq!(r, Err(Error::MalformedInput(BadInput::BadScheme)));
    let r = ingest_with(
        &mut s,
        &c,
        "example.com",
        "https://a.example/post",
        "ftp://example.com/page",
        MentionId(1),
        Timestamp(100),
    );
    assert_eq!(r, Err(Error::MalformedInput(BadInput::BadScheme)));
    assert_eq!(s.mentions.len(), 0);
}

#[test]
fn unparseable_url_rejected() {
    let mut s = Store::new();
    let c = open_config();
    let r = ingest_with(
        &mut s,
        &c,
        "example.com",
        "not a url",
        "https://example.com/page",
        MentionId(1),
        Timestamp(100),
    );
    assert_eq!(r, Err(Error::MalformedInput(BadInput::BadUrl)));
}

#[test]
fn allow_list_enforced() {
    let mut s = Store::new();
    let c = Config {
        external_url: "https://wm.example".to_string(),
        bind: None,
        allowed_domains: Some(vec!["example.com".to_string()]),
    };
    assert!(domain_allowed(&c, "example.com"));
    assert!(!domain_allowed(&c, "other.org"));
    let r = ingest_with(
        &mut s,
        &c,
        "other.org",
        "https://a.example/post",
        "https://other.org/page",
        MentionId(1),
        Timestamp(100),
    );
    assert_eq!(r, Err(Error::NotAllowedDomain));
    let r = ingest_with(
        &mut s,
        &c,
        "example.com",
        "https://a.example/post",
        "https://example.com/page",
        MentionId(1),
        Timestamp(100),
    );
    assert!(r.is_ok());
}

#[test]
fn identifier_collision_is_store_error() {
    let mut s = Store::new();
    let c = open_config();
    ingest_with(
        &mut s,
        &c,
        "example.com",
        "https://a.example/one",
        "https://example.com/page",
        MentionId(1),
        Timestamp(100),
    )
    .unwrap();
    let r = ingest_with(
        &mut s,
        &c,
        "example.com",
        "https://a.example/two",
        "https://example.com/page",
        MentionId(1),
        Timestamp(200),
    );
    assert_eq!(r, Err(Error::StoreError));
    assert_eq!(s.mentions.len(), 1);
}

#[test]
fn listing_most_recently_updated_first() {
    let mut s = Store::new();
    let c = open_config();
    let a = ingest_with(&mut s, &c, "example.com", "https://a.example/a", "https://example.com/p", MentionId(1), Timestamp(100)).unwrap();
    let b = ingest_with(&mut s, &c, "example.com", "https://b.example/b", "https://example.com/p", MentionId(2), Timestamp(200)).unwrap();
    let cc = ingest_with(&mut s, &c, "example.com", "https://c.example/c", "https://example.com/p", MentionId(3), Timestamp(300)).unwrap();
    let a2 = ingest_with(&mut s, &c, "example.com", "https://a.example/a", "https://example.com/p", MentionId(4), Timestamp(400)).unwrap();
    assert_eq!(a2.0, a.0);
    let l = list_mentions(&s, "example.com");
    let ids: Vec<MentionId> = l.iter().map(|m| m.id).collect();
    assert_eq!(ids, vec![a.0, cc.0, b.0]);
}

#[test]
fn listing_is_per_domain() {
    let mut s = Store::new();
    let c = open_config();
    ingest_with(&mut s, &c, "example.com", "https://a.example/a", "https://example.com/p", MentionId(1), Timestamp(100)).unwrap();
    ingest_with(&mut s, &c, "other.org", "https://a.example/a", "https://other.org/p", MentionId(2), Timestamp(200)).unwrap();
    let l = list_mentions(&s, "example.com");
    assert_eq!(l.len(), 1);
    assert_eq!(l[0].id, MentionId(1));
    assert_eq!(l[0].domain, "example.com");
    assert_eq!(l[0].source, "https://a.example/a");
    assert_eq!(l[0].target, "https://example.com/p");
}

#[test]
fn unknown_id_is_not_found() {
    let mut s = Store::new();
    let c = open_config();
    ingest_with(&mut s, &c, "example.com", "https://a.example/a", "https://example.com/p", MentionId(1), Timestamp(100)).unwrap();
    let r = get_mention(&s, "example.com", MentionId(0xdeadbeef));
    assert_eq!(r.err(), Some(Error::NotFound));
}

#[test]
fn mention_of_other_domain_is_not_found() {
    let mut s = Store::new();
    let c = open_config();
    ingest_with(&mut s, &c, "example.com", "https://a.example/a", "https://example.com/p", MentionId(1), Timestamp(100)).unwrap();
    let r = get_mention(&s, "other.org", MentionId(1));
    assert_eq!(r.err(), Some(Error::NotFound));
    let ok = get_mention(&s, "example.com", MentionId(1)).unwrap();
    assert_eq!(ok.id, MentionId(1));
    assert_eq!(ok.source, "https://a.example/a");
}

#[test]
fn textual_identifier_path() {
    let mut s = Store::new();
    let c = open_config();
    ingest_with(&mut s, &c, "example.com", "https://a.example/a", "https://example.com/p", MentionId(7), Timestamp(100)).unwrap();
    let r = find_mention(&s, "example.com", "zzz");
    assert_eq!(r.err(), Some(Error::MalformedInput(BadInput::BadIdentifier)));
    let r = find_mention(&s, "example.com", "00000000-0000-0000-0000-000000000007");
    assert_eq!(r.unwrap().id, MentionId(7));
    let r = find_mention(&s, "example.com", "00000000-0000-0000-0000-000000000008");
    assert_eq!(r.err(), Some(Error::NotFound));
}

#[test]
fn canonical_mention_url() {
    let c = open_config();
    let u = mention_url(&c, "example.com", MentionId(0));
    assert_eq!(
        u,
        "https://wm.example/example.com/mention/00000000-0000-0000-0000-000000000000"
    );
}

#[test]
fn freshness_of_a_listing() {
    let mut s = Store::new();
    let c = open_config();
    assert_eq!(last_updated(&s.mentions), Timestamp(0));
    ingest_with(&mut s, &c, "example.com", "https://a.example/a", "https://example.com/p", MentionId(1), Timestamp(100)).unwrap();
    ingest_with(&mut s, &c, "example.com", "https://b.example/b", "https://example.com/p", MentionId(2), Timestamp(300)).unwrap();
    assert_eq!(last_updated(&s.mentions), Timestamp(300));
}

#[test]
fn drawn_identifier_and_clock() {
    // through the outside identifier generator and clock: a repeat
    // notification still lands on the record it created
    let mut s = Store::new();
    let c = open_config();
    let r1 = ingest(&mut s, &c, "example.com", "https://a.example/a", "https://example.com/p").unwrap();
    assert_eq!(r1.1, IngestOutcome::Created);
    let r2 = ingest(&mut s, &c, "example.com", "https://a.example/a", "https://example.com/p").unwrap();
    assert_eq!(r2, (r1.0, IngestOutcome::Updated));
    assert_eq!(s.mentions.len(), 1);
}

#[test]
fn empty_store_has_nothing() {
    let s = Store::new();
    assert!(list_mentions(&s, "example.com").is_empty());
    assert_eq!(get_mention(&s, "example.com", MentionId(1)).err(), Some(Error::NotFound));
}

#[test]
fn http_scheme_accepted() {
    let mut s = Store::new();
    let c = open_config();
    let r = ingest_with(
        &mut s,
        &c,
        "example.com",
        "http://a.example/post",
        "http://example.com/page",
        MentionId(1),
        Timestamp(100),
    );
    assert_eq!(r, Ok((MentionId(1), IngestOutcome::Created)));
}

#[test]
fn statuses_of_the_error_taxonomy() {
    assert_eq!(Error::NotAllowedDomain.status(), 403);
    assert_eq!(Error::MalformedInput(BadInput::BadUrl).status(), 400);
    assert_eq!(Error::MalformedInput(BadInput::BadContentType).status(), 400);
    assert_eq!(Error::MalformedInput(BadInput::BadIdentifier).status(), 400);
    assert_eq!(Error::NotFound.status(), 404);
    assert_eq!(Error::StoreError.status(), 500);
    assert_eq!(Error::MigrationFatal.status(), 500);
    assert_eq!(Error::RenderError.status(), 500);
}
