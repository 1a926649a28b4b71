use axe_pkg::auth::RequestHeaders;
use axe_pkg::names::{download_path, download_scoped_path, tarball_filename};
use axe_pkg::package::{get_package, PackageLookup, PackageRow};
use axe_pkg::publish::{npm_publish, npm_publish_scoped, Effect};

fn headers(version: &str) -> RequestHeaders {
    RequestHeaders {
        x_axe_key: None,
        authorization: Some(b"Bearer axe_bunker_2026_fleet".to_vec()),
        package_version: Some(version.as_bytes().to_vec()),
        package_description: None,
    }
}

#[test]
fn published_tarball_is_downloaded_from_where_it_was_stored() {
    let r = npm_publish("left-pad", &headers("1.3.0"), b"tgz", &None);
    let stored = match &r.effects[0] {
        Effect::StoreFile { path, .. } => path.clone(),
        other => panic!("unexpected effect {:?}", other),
    };
    let file = tarball_filename("left-pad", "1.3.0");
    assert_eq!(download_path("left-pad", &file), stored);
}

#[test]
fn scoped_publish_is_downloaded_from_where_it_was_stored() {
    let r = npm_publish_scoped("acme", "tool", &headers("2.0.0"), b"tgz", &None);
    let stored = match &r.effects[0] {
        Effect::StoreFile { path, .. } => path.clone(),
        other => panic!("unexpected effect {:?}", other),
    };
    let file = tarball_filename("@acme/tool", "2.0.0");
    assert_eq!(file, "@acme-tool-2.0.0.tgz");
    assert_eq!(download_scoped_path("acme", "tool", &file), stored);
}

#[test]
fn published_record_is_read_back_in_the_package_document() {
    let r = npm_publish("@acme%2ftool", &headers("2.0.0"), b"tgz", &None);
    let rec = match &r.effects[1] {
        Effect::Insert(rec) => rec.clone(),
        other => panic!("unexpected effect {:?}", other),
    };
    let rows = vec![PackageRow {
        version: rec.version.clone(),
        description: rec.description.clone(),
        shasum: rec.shasum.clone(),
        tarball: rec.tarball.clone(),
    }];
    match get_package("@acme%2Ftool", &rows) {
        PackageLookup::Found(doc) => {
            assert_eq!(doc.name, rec.name);
            assert_eq!(doc.latest, "2.0.0");
            assert_eq!(doc.versions[0].shasum, rec.shasum);
            assert_eq!(doc.versions[0].tarball, format!("https://pkg.axe.onl{}", rec.tarball));
            assert_eq!(doc.versions[0].tarball, "https://pkg.axe.onl/@acme/tool/2.0.0/-/@acme-tool-2.0.0.tgz");
        },
        other => panic!("unexpected answer {:?}", other),
    }
}
