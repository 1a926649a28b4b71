use axe_pkg::auth::RequestHeaders;
use axe_pkg::json::{JsonMember, JsonValue};
use axe_pkg::package::{get_package, get_scoped_package, search, PackageLookup, PackageRow, SearchParams};
use axe_pkg::publish::{npm_publish, publish_manifest, publish_tarball, Effect, PackageRecord};
use axe_pkg::reply::{download_reply, proxy_upstream, Reply, UpstreamOutcome};
use axe_pkg::ui::{web_ui, UiRow};

const KEY: &[u8] = b"axe_bunker_2026_fleet";

fn authorized(version: Option<&[u8]>, description: Option<&[u8]>) -> RequestHeaders {
    RequestHeaders {
        x_axe_key: Some(KEY.to_vec()),
        authorization: None,
        package_version: version.map(|v| v.to_vec()),
        package_description: description.map(|v| v.to_vec()),
    }
}

fn text(s: &str) -> JsonValue {
    JsonValue::Str(s.to_string())
}

fn member(key: &str, value: JsonValue) -> JsonMember {
    JsonMember { key: key.to_string(), value }
}

fn object(members: Vec<JsonMember>) -> JsonValue {
    JsonValue::Object(members)
}

fn row(version: &str, shasum: &str, tarball: &str) -> PackageRow {
    PackageRow {
        version: version.to_string(),
        description: Some(format!("d{}", version)),
        shasum: shasum.to_string(),
        tarball: tarball.to_string(),
    }
}

#[test]
fn unauthorized_publish_does_nothing() {
    let h = RequestHeaders {
        x_axe_key: Some(b"wrong".to_vec()),
        authorization: None,
        package_version: None,
        package_description: None,
    };
    let r = npm_publish("pkg", &h, b"data", &None);
    assert!(r.effects.is_empty());
    assert_eq!(r.reply, Reply::Unauthorized);
    assert_eq!(r.reply.status(), 401);
}

#[test]
fn raw_tarball_publish_hashes_and_stores_the_body() {
    let h = authorized(Some(b"1.2.3"), Some(b"a package"));
    let r = npm_publish("@scope%2fpkg", &h, b"hello", &None);
    let sha = "2cf24dba5fb0a30e26e83b2ac5b9e29e1b161e5c1fa7425e73043362938b9824".to_string();
    assert_eq!(
        r.effects,
        vec![
            Effect::StoreFile {
                dir: "./storage/@scope__pkg".to_string(),
                path: "./storage/@scope__pkg/@scope-pkg-1.2.3.tgz".to_string(),
                data: b"hello".to_vec(),
            },
            Effect::Insert(PackageRecord {
                name: "@scope/pkg".to_string(),
                version: "1.2.3".to_string(),
                description: Some("a package".to_string()),
                shasum: sha.clone(),
                tarball: "/@scope/pkg/1.2.3/-/@scope-pkg-1.2.3.tgz".to_string(),
                keywords: None,
            }),
        ]
    );
    assert_eq!(
        r.reply,
        Reply::PublishedTarball {
            name: "@scope/pkg".to_string(),
            version: "1.2.3".to_string(),
            shasum: sha,
        }
    );
}

#[test]
fn raw_tarball_publish_defaults_version() {
    let h = authorized(None, Some(&[0x80]));
    let r = npm_publish("pkg", &h, b"", &Some(object(vec![member("name", text("pkg"))])));
    match &r.effects[1] {
        Effect::Insert(rec) => {
            assert_eq!(rec.version, "0.0.0");
            assert_eq!(rec.description, None);
            assert_eq!(rec.shasum, "e3b0c44298fc1c149afbf4c8996fb92427ae41e4649b934ca495991b7852b855");
        },
        other => panic!("unexpected effect {:?}", other),
    }
}

#[test]
fn tarball_publish_with_given_shasum() {
    let r = publish_tarball("pkg", "1.0.0", None, b"abc", "cafe".to_string());
    assert_eq!(r.effects.len(), 2);
    assert_eq!(
        r.reply,
        Reply::PublishedTarball {
            name: "pkg".to_string(),
            version: "1.0.0".to_string(),
            shasum: "cafe".to_string(),
        }
    );
}

#[test]
fn manifest_publish_stores_versions_and_attachments() {
    let meta1 = object(vec![
        member("description", text("first")),
        member("dist", object(vec![member("shasum", text("abc123"))])),
        member(
            "keywords",
            JsonValue::Array(vec![text("x"), JsonValue::Number("1".to_string()), text("y")]),
        ),
    ]);
    let meta2 = object(vec![member("description", JsonValue::Null)]);
    let payload = object(vec![
        member(
            "_attachments",
            object(vec![
                member("a.tgz", object(vec![member("data", text("aGVsbG8="))])),
                member("b.tgz", object(vec![member("data", text("not base64!"))])),
                member("c.tgz", object(vec![member("length", JsonValue::Number("3".to_string()))])),
            ]),
        ),
        member("versions", object(vec![member("1.0.0", meta1), member("2.0.0", meta2)])),
    ]);
    let h = authorized(None, None);
    let r = npm_publish("pkg", &h, b"{}", &Some(payload));
    assert_eq!(r.reply, Reply::PublishedManifest { name: "pkg".to_string() });
    assert_eq!(
        r.effects,
        vec![
            Effect::StoreFile {
                dir: "./storage/pkg".to_string(),
                path: "./storage/pkg/pkg-1.0.0.tgz".to_string(),
                data: b"hello".to_vec(),
            },
            Effect::Insert(PackageRecord {
                name: "pkg".to_string(),
                version: "1.0.0".to_string(),
                description: Some("first".to_string()),
                shasum: "abc123".to_string(),
                tarball: "/pkg/1.0.0/-/pkg-1.0.0.tgz".to_string(),
                keywords: Some("x,y".to_string()),
            }),
            Effect::StoreFile {
                dir: "./storage/pkg".to_string(),
                path: "./storage/pkg/pkg-2.0.0.tgz".to_string(),
                data: b"hello".to_vec(),
            },
            Effect::Insert(PackageRecord {
                name: "pkg".to_string(),
                version: "2.0.0".to_string(),
                description: None,
                shasum: String::new(),
                tarball: "/pkg/2.0.0/-/pkg-2.0.0.tgz".to_string(),
                keywords: None,
            }),
        ]
    );
}

#[test]
fn manifest_publish_with_given_decodings() {
    let versions = vec![member("1.0.0", object(vec![member("keywords", JsonValue::Array(vec![]))]))];
    let decoded = vec![Some(vec![1u8]), None, Some(vec![2u8])];
    let r = publish_manifest("@s/n", &versions, &decoded);
    assert_eq!(r.effects.len(), 3);
    match &r.effects[1] {
        Effect::StoreFile { path, data, .. } => {
            assert_eq!(path, "./storage/@s__n/@s-n-1.0.0.tgz");
            assert_eq!(data, &vec![2u8]);
        },
        other => panic!("unexpected effect {:?}", other),
    }
    match &r.effects[2] {
        Effect::Insert(rec) => assert_eq!(rec.keywords, Some(String::new())),
        other => panic!("unexpected effect {:?}", other),
    }
}

#[test]
fn payload_without_versions_object_is_a_raw_tarball() {
    let payload = object(vec![member("versions", JsonValue::Array(vec![]))]);
    let r = npm_publish("pkg", &authorized(Some(b"9.9.9"), None), b"x", &Some(payload));
    assert!(matches!(r.reply, Reply::PublishedTarball { .. }));
}

#[test]
fn empty_versions_object_inserts_nothing() {
    let payload = object(vec![member("versions", object(vec![]))]);
    let r = npm_publish("pkg", &authorized(None, None), b"x", &Some(payload));
    assert!(r.effects.is_empty());
    assert_eq!(r.reply, Reply::PublishedManifest { name: "pkg".to_string() });
}

#[test]
fn package_document_from_rows() {
    let rows = vec![row("2.0.0", "s2", "/pkg/2.0.0/-/pkg-2.0.0.tgz"), row("1.0.0", "s1", "/t1")];
    match get_package("pkg", &rows) {
        PackageLookup::Found(doc) => {
            assert_eq!(doc.name, "pkg");
            assert_eq!(doc.latest, "2.0.0");
            assert_eq!(doc.versions.len(), 2);
            let v2 = doc.versions.iter().find(|v| v.version == "2.0.0").unwrap();
            assert_eq!(v2.tarball, "https://pkg.axe.onl/pkg/2.0.0/-/pkg-2.0.0.tgz");
            assert_eq!(v2.shasum, "s2");
            assert_eq!(v2.description, Some("d2.0.0".to_string()));
            assert_eq!(v2.name, "pkg");
        },
        other => panic!("unexpected answer {:?}", other),
    }
}

#[test]
fn package_document_repeated_version_keeps_last_row() {
    let rows = vec![row("", "s0", "/t0"), row("1.0.0", "first", "/a"), row("1.0.0", "second", "/b")];
    match get_package("@s%2fp", &rows) {
        PackageLookup::Found(doc) => {
            assert_eq!(doc.name, "@s/p");
            assert_eq!(doc.latest, "1.0.0");
            assert_eq!(doc.versions.len(), 2);
            let v = doc.versions.iter().find(|v| v.version == "1.0.0").unwrap();
            assert_eq!(v.shasum, "second");
            assert_eq!(v.tarball, "https://pkg.axe.onl/b");
        },
        other => panic!("unexpected answer {:?}", other),
    }
}

#[test]
fn unknown_package_goes_upstream() {
    assert_eq!(
        get_package("@s%2Fp", &vec![]),
        PackageLookup::Upstream("https://registry.npmjs.org/@s/p".to_string())
    );
    assert_eq!(
        get_scoped_package("s", "p", &vec![]),
        PackageLookup::Upstream("https://registry.npmjs.org/@s/p".to_string())
    );
}

#[test]
fn scoped_package_document_is_not_normalized_again() {
    match get_scoped_package("s", "p%2f", &vec![row("1", "x", "/y")]) {
        PackageLookup::Found(doc) => assert_eq!(doc.name, "@s/p%2f"),
        other => panic!("unexpected answer {:?}", other),
    }
}

#[test]
fn search_defaults_and_caps() {
    assert_eq!(search(None, None), SearchParams { pattern: "%%".to_string(), limit: 20 });
    assert_eq!(search(Some("lod".to_string()), Some(5)), SearchParams { pattern: "%lod%".to_string(), limit: 5 });
    assert_eq!(search(None, Some(1000)).limit, 250);
    assert_eq!(search(None, Some(250)).limit, 250);
    assert_eq!(search(None, Some(0)).limit, 0);
}

#[test]
fn upstream_outcomes() {
    assert_eq!(proxy_upstream(UpstreamOutcome::Unavailable), Reply::NotFoundJson);
    assert_eq!(proxy_upstream(UpstreamOutcome::BodyUnreadable).status(), 502);
    assert_eq!(
        proxy_upstream(UpstreamOutcome::Body(b"{}".to_vec())),
        Reply::UpstreamDocument(b"{}".to_vec())
    );
    assert_eq!(Reply::NotFoundJson.status(), 404);
    assert_eq!(Reply::UpstreamDocument(vec![]).status(), 200);
}

#[test]
fn download_outcomes() {
    assert_eq!(download_reply(Some(vec![1, 2])), Reply::Tarball(vec![1, 2]));
    assert_eq!(download_reply(None), Reply::NotFound);
    assert_eq!(download_reply(None).status(), 404);
}

#[test]
fn web_page_without_packages() {
    let html = web_ui(&vec![]);
    assert!(html.starts_with("<!DOCTYPE html><html><head><meta charset=\"utf-8\">\n<title>AXE Registry</title>"));
    assert!(html.contains("<span>0 packages</span></div><div class=\"grid\"><div class=\"empty\">No packages published yet</div></div></body></html>"));
}

#[test]
fn web_page_lists_packages() {
    let rows = vec![
        UiRow { name: "a".to_string(), latest: "1.0.0".to_string(), description: Some("first".to_string()), count: 1 },
        UiRow { name: "b".to_string(), latest: "2.1.0".to_string(), description: None, count: 12 },
    ];
    let html = web_ui(&rows);
    let expected_tail = [
        "<span>2 packages</span></div><div class=\"grid\">",
        "<div class=\"pkg\"><div><div class=\"pkg-name\">a</div><div class=\"pkg-desc\">first</div></div><div class=\"pkg-ver\">v1.0.0 (1 ver)</div></div>",
        "<div class=\"pkg\"><div><div class=\"pkg-name\">b</div><div class=\"pkg-desc\"></div></div><div class=\"pkg-ver\">v2.1.0 (12 vers)</div></div>",
        "</div></body></html>",
    ]
    .join("");
    assert!(html.ends_with(&expected_tail));
    assert!(html.contains(".empty{text-align:center;padding:80px;color:#444}\n</style></head><body>\n<div class=\"header\"><h1>AXE REGISTRY</h1><span>2 packages"));
}

#[test]
fn web_page_counts_render_in_decimal() {
    let rows = vec![UiRow { name: "n".to_string(), latest: "v".to_string(), description: None, count: -5 }];
    assert!(web_ui(&rows).contains("vv (-5 vers)"));
    let rows = vec![UiRow { name: "n".to_string(), latest: "v".to_string(), description: None, count: i64::MIN }];
    assert!(web_ui(&rows).contains("(-9223372036854775808 vers)"));
}
