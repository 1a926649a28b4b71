use axe_pkg::auth::{auth, header_str, RequestHeaders};
use axe_pkg::names::{
    download_path, download_scoped_path, normalize_scoped, scoped_name, storage_dir,
    tarball_filename, tarball_path, upstream_url,
};

fn headers(key: Option<&[u8]>, authorization: Option<&[u8]>) -> RequestHeaders {
    RequestHeaders {
        x_axe_key: key.map(|k| k.to_vec()),
        authorization: authorization.map(|a| a.to_vec()),
        package_version: None,
        package_description: None,
    }
}

#[test]
fn normalize_decodes_scoped_slashes() {
    assert_eq!(normalize_scoped("@scope%2fname"), "@scope/name");
    assert_eq!(normalize_scoped("@scope%2Fname"), "@scope/name");
    assert_eq!(normalize_scoped("@a%2fb%2Fc"), "@a/b/c");
}

#[test]
fn normalize_keeps_unscoped_names() {
    assert_eq!(normalize_scoped("left%2fpad"), "left%2fpad");
    assert_eq!(normalize_scoped("lodash"), "lodash");
    assert_eq!(normalize_scoped(""), "");
}

#[test]
fn normalize_replaces_left_to_right_once() {
    assert_eq!(normalize_scoped("@a%2%2ff"), "@a%2/f");
    assert_eq!(normalize_scoped("@a%2%2Ff"), "@a%2/f");
    let once = normalize_scoped("@x%2%2Ff%2f");
    assert_eq!(normalize_scoped(&once), once);
}

#[test]
fn storage_dir_flattens_slashes() {
    assert_eq!(storage_dir("lodash"), "./storage/lodash");
    assert_eq!(storage_dir("@scope/name"), "./storage/@scope__name");
    assert_eq!(storage_dir("/abs"), "./storage/__abs");
    assert_eq!(storage_dir(""), "./storage/");
}

#[test]
fn download_paths_join_like_pathbuf() {
    assert_eq!(download_path("pkg", "pkg-1.0.0.tgz"), "./storage/pkg/pkg-1.0.0.tgz");
    assert_eq!(download_path("pkg", "/etc/passwd"), "/etc/passwd");
    assert_eq!(download_path("", "f.tgz"), "./storage/f.tgz");
    assert_eq!(download_path("pkg", ""), "./storage/pkg/");
    assert_eq!(
        download_scoped_path("scope", "name", "scope-name-2.0.0.tgz"),
        "./storage/@scope__name/scope-name-2.0.0.tgz"
    );
}

#[test]
fn tarball_names_and_urls() {
    assert_eq!(tarball_filename("@s/n", "1.0.0"), "@s-n-1.0.0.tgz");
    assert_eq!(tarball_filename("pkg", "0.0.0"), "pkg-0.0.0.tgz");
    assert_eq!(tarball_path("@s/n", "1.0.0", "@s-n-1.0.0.tgz"), "/@s/n/1.0.0/-/@s-n-1.0.0.tgz");
    assert_eq!(scoped_name("s", "n"), "@s/n");
    assert_eq!(upstream_url("lodash"), "https://registry.npmjs.org/lodash");
    assert_eq!(upstream_url("@s/n"), "https://registry.npmjs.org/@s/n");
}

#[test]
fn header_text_is_visible_ascii() {
    assert_eq!(header_str(&b"abc def\t~".to_vec()), Some("abc def\t~".to_string()));
    assert_eq!(header_str(&vec![b'a', 0x7f]), None);
    assert_eq!(header_str(&vec![0xc3, 0xa9]), None);
    assert_eq!(header_str(&vec![]), Some(String::new()));
}

#[test]
fn auth_accepts_the_fleet_key() {
    assert_eq!(auth(&headers(Some(b"axe_bunker_2026_fleet"), None)), Ok(()));
    assert_eq!(auth(&headers(None, Some(b"Bearer axe_bunker_2026_fleet"))), Ok(()));
    assert_eq!(auth(&headers(None, Some(b"axe_bunker_2026_fleet"))), Ok(()));
    assert_eq!(auth(&headers(None, Some(b"Bearer Bearer axe_bunker_2026_fleet"))), Ok(()));
    assert_eq!(auth(&headers(Some(b"Bearer axe_bunker_2026_fleet"), Some(b"wrong"))), Ok(()));
}

#[test]
fn auth_refuses_everything_else() {
    assert_eq!(auth(&headers(None, None)), Err(401));
    assert_eq!(auth(&headers(Some(b"nope"), None)), Err(401));
    assert_eq!(auth(&headers(Some(b"nope"), Some(b"Bearer axe_bunker_2026_fleet"))), Err(401));
    assert_eq!(auth(&headers(Some(&[0xff]), Some(b"axe_bunker_2026_fleet"))), Err(401));
    assert_eq!(auth(&headers(None, Some(b"bearer axe_bunker_2026_fleet"))), Err(401));
    assert_eq!(auth(&headers(None, Some(b"Bearer  axe_bunker_2026_fleet"))), Err(401));
    assert_eq!(auth(&headers(None, Some(b"axe_bunker_2026_fleet "))), Err(401));
}
