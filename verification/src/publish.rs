//! Publishing: what `npm publish` (or a raw tarball upload) makes the
//! registry store and answer.
use vstd::prelude::*;
use crate::auth::{auth, is_authorized, optional_header_str, optional_header_text, RequestHeaders};
use crate::digest::{
    base64_decode, base64_standard_decode, hex_encode, hex_lower, sha256, sha256_digest,
};
use crate::json::{
    get, get_text, join_commas, join_text_items, json_get, json_get_text, text_items, JsonMember,
    JsonValue,
};
use crate::names::{
    join_path, join_paths, normalize_scoped, normalized_name, scoped, scoped_name,
    storage_dir_chars, storage_dir_of, tarball_file, tarball_file_chars, tarball_path_chars,
    tarball_url_path,
};
use crate::reply::{Reply, ReplyView};
use crate::text::{chars_of, opt_bytes, opt_text, string_of};

verus! {

/// One row of the package table: a version of a package.
#[derive(Debug, Clone, PartialEq, Eq)]
pub struct PackageRecord {
    pub name: String,
    pub version: String,
    pub description: Option<String>,
    pub shasum: String,
    /// The URL path of the version's tarball.
    pub tarball: String,
    /// The version's keywords, joined by commas.
    pub keywords: Option<String>,
}

/// The content of a `PackageRecord`.
pub struct RecordView {
    pub name: Seq<char>,
    pub version: Seq<char>,
    pub description: Option<Seq<char>>,
    pub shasum: Seq<char>,
    pub tarball: Seq<char>,
    pub keywords: Option<Seq<char>>,
}

impl View for PackageRecord {
    type V = RecordView;

    open spec fn view(&self) -> RecordView {
        RecordView {
            name: self.name@,
            version: self.version@,
            description: opt_text(self.description),
            shasum: self.shasum@,
            tarball: self.tarball@,
            keywords: opt_text(self.keywords),
        }
    }
}

/// A change that publishing makes outside the registry's memory.
#[derive(Debug, Clone, PartialEq, Eq)]
pub enum Effect {
    /// Create directory `dir` (with its parents) and write `data` to file `path`.
    StoreFile { dir: String, path: String, data: Vec<u8> },
    /// Insert the record, replacing any with the same name and version.
    Insert(PackageRecord),
}

/// The content of an `Effect`.
pub enum EffectView {
    StoreFile { dir: Seq<char>, path: Seq<char>, data: Seq<u8> },
    Insert(RecordView),
}

impl View for Effect {
    type V = EffectView;

    open spec fn view(&self) -> EffectView {
        match self {
            Effect::StoreFile { dir, path, data } => EffectView::StoreFile {
                dir: dir@,
                path: path@,
                data: data@,
            },
            Effect::Insert(r) => EffectView::Insert(r@),
        }
    }
}

/// The contents of a sequence of effects.
pub open spec fn effect_views(s: Seq<Effect>) -> Seq<EffectView> {
    s.map_values(|e: Effect| e@)
}

/// The contents of a sequence of optional byte vectors.
pub open spec fn byte_views(s: Seq<Option<Vec<u8>>>) -> Seq<Option<Seq<u8>>> {
    s.map_values(|o: Option<Vec<u8>>| opt_bytes(o))
}

/// What a publish request makes the registry do, in order, and its answer.
#[derive(Debug, Clone, PartialEq, Eq)]
pub struct Published {
    pub effects: Vec<Effect>,
    pub reply: Reply,
}

/// The description of a version in a package document.
pub open spec fn version_description(meta: JsonValue) -> Option<Seq<char>> {
    json_get_text(meta, "description"@)
}

/// The shasum of a version in a package document (`dist.shasum`), empty
/// where there is none.
pub open spec fn version_shasum(meta: JsonValue) -> Seq<char> {
    match json_get(meta, "dist"@) {
        Some(d) => match json_get_text(d, "shasum"@) {
            Some(s) => s,
            None => Seq::empty(),
        },
        None => Seq::empty(),
    }
}

/// The keywords of a version in a package document: the strings of its
/// `keywords` array joined by commas, nothing where it has no such array.
pub open spec fn version_keywords(meta: JsonValue) -> Option<Seq<char>> {
    match json_get(meta, "keywords"@) {
        Some(JsonValue::Array(a)) => Some(join_commas(text_items(a@))),
        _ => None,
    }
}

/// The record that a version of a published package document becomes.
pub open spec fn manifest_record(name: Seq<char>, version: Seq<char>, meta: JsonValue) -> RecordView {
    RecordView {
        name: name,
        version: version,
        description: version_description(meta),
        shasum: version_shasum(meta),
        tarball: tarball_url_path(name, version, tarball_file(name, version)),
        keywords: version_keywords(meta),
    }
}

/// One file write to `path` for each attachment that decoded, in order.
pub open spec fn stored_files(dir: Seq<char>, path: Seq<char>, decoded: Seq<Option<Seq<u8>>>) -> Seq<
    EffectView,
>
    decreases decoded.len(),
{
    if decoded.len() == 0 {
        Seq::empty()
    } else {
        let rest = stored_files(dir, path, decoded.drop_last());
        match decoded.last() {
            Some(d) => rest.push(EffectView::StoreFile { dir: dir, path: path, data: d }),
            None => rest,
        }
    }
}

/// What one version of a published package document makes the registry
/// do: write every decoded attachment to the version's tarball file, then
/// insert the version's record.
pub open spec fn version_effects(
    name: Seq<char>,
    version: Seq<char>,
    meta: JsonValue,
    decoded: Seq<Option<Seq<u8>>>,
) -> Seq<EffectView> {
    let dir = storage_dir_of(name);
    stored_files(dir, join_path(dir, tarball_file(name, version)), decoded).push(
        EffectView::Insert(manifest_record(name, version, meta)),
    )
}

/// What the versions of a published package document make the registry
/// do, version after version.
pub open spec fn manifest_effects(
    name: Seq<char>,
    versions: Seq<JsonMember>,
    decoded: Seq<Option<Seq<u8>>>,
) -> Seq<EffectView>
    decreases versions.len(),
{
    if versions.len() == 0 {
        Seq::empty()
    } else {
        manifest_effects(name, versions.drop_last(), decoded) + version_effects(
            name,
            versions.last().key@,
            versions.last().value,
            decoded,
        )
    }
}

fn version_shasum_exec(meta: &JsonValue) -> (r: String)
    ensures
        r@ == version_shasum(*meta),
{
    match get(meta, "dist") {
        Some(d) => match get_text(d, "shasum") {
            Some(s) => s,
            None => String::new(),
        },
        None => String::new(),
    }
}

fn version_keywords_exec(meta: &JsonValue) -> (r: Option<String>)
    ensures
        opt_text(r) == version_keywords(*meta),
{
    match get(meta, "keywords") {
        Some(JsonValue::Array(a)) => Some(join_text_items(a)),
        _ => None,
    }
}

/// Stores the versions of a package document published under `name`,
/// given what each attachment's `data` decoded to (nothing where it has no
/// string `data` or that did not decode).
pub fn publish_manifest(name: &str, versions: &Vec<JsonMember>, decoded: &Vec<Option<Vec<u8>>>) -> (r:
    Published)
    ensures
        effect_views(r.effects@) == manifest_effects(name@, versions@, byte_views(decoded@)),
        r.reply@ == (ReplyView::PublishedManifest { name: name@ }),
{
    let ghost dec = byte_views(decoded@);
    let n = chars_of(name);
    let dir = storage_dir_chars(&n);
    let dir_s = string_of(&dir);
    let mut effects: Vec<Effect> = Vec::new();
    for i in 0..versions.len()
        invariant
            n@ == name@,
            dir@ == storage_dir_of(name@),
            dir_s@ == dir@,
            dec == byte_views(decoded@),
            effect_views(effects@) == manifest_effects(name@, versions@.take(i as int), dec),
    {
        let member = &versions[i];
        let ver = chars_of(member.key.as_str());
        let file = tarball_file_chars(&n, &ver);
        let path = join_paths(&dir, &file);
        let path_s = string_of(&path);
        let ghost before = effect_views(effects@);
        for j in 0..decoded.len()
            invariant
                dir_s@ == storage_dir_of(name@),
                path_s@ == join_path(storage_dir_of(name@), tarball_file(name@, member.key@)),
                dec == byte_views(decoded@),
                effect_views(effects@) == before + stored_files(
                    storage_dir_of(name@),
                    join_path(storage_dir_of(name@), tarball_file(name@, member.key@)),
                    dec.take(j as int),
                ),
        {
            assert(dec.take(j + 1).drop_last() =~= dec.take(j as int));
            assert(dec.take(j + 1).last() == opt_bytes(decoded@[j as int]));
            match &decoded[j] {
                Some(d) => {
                    let e = Effect::StoreFile {
                        dir: dir_s.clone(),
                        path: path_s.clone(),
                        data: d.clone(),
                    };
                    let ghost prev = effects@;
                    effects.push(e);
                    assert(effect_views(effects@) =~= effect_views(prev).push(e@));
                },
                None => {},
            }
        }
        assert(dec.take(decoded.len() as int) =~= dec);
        let description = get_text(&member.value, "description");
        let shasum = version_shasum_exec(&member.value);
        let keywords = version_keywords_exec(&member.value);
        let tarball = tarball_path_chars(&n, &ver, &file);
        let record = PackageRecord {
            name: string_of(&n),
            version: member.key.clone(),
            description: description,
            shasum: shasum,
            tarball: string_of(&tarball),
            keywords: keywords,
        };
        let e = Effect::Insert(record);
        let ghost mid = effects@;
        effects.push(e);
        assert(effect_views(effects@) =~= effect_views(mid).push(e@));
        assert(versions@.take(i + 1).drop_last() =~= versions@.take(i as int));
    }
    assert(versions@.take(versions.len() as int) =~= versions@);
    Published { effects, reply: Reply::PublishedManifest { name: string_of(&n) } }
}


/// The `data` text of each member of an attachments object, in order
/// (nothing where a member has no string `data`).
pub open spec fn attachment_texts(members: Seq<JsonMember>) -> Seq<Option<Seq<char>>> {
    members.map_values(|m: JsonMember| json_get_text(m.value, "data"@))
}

/// Each attachment text decoded from base64; nothing where there is no
/// text or it does not decode.
pub open spec fn decode_texts(texts: Seq<Option<Seq<char>>>) -> Seq<Option<Seq<u8>>> {
    texts.map_values(
        |t: Option<Seq<char>>|
            match t {
                Some(x) => base64_standard_decode(x),
                None => None,
            },
    )
}

/// What the attachments of a package document decode to: one entry per
/// member of its `_attachments` object, none where that is not an object.
pub open spec fn decoded_attachments(payload: JsonValue) -> Seq<Option<Seq<u8>>> {
    match json_get(payload, "_attachments"@) {
        Some(JsonValue::Object(m)) => decode_texts(attachment_texts(m@)),
        _ => Seq::empty(),
    }
}

/// Decodes the `data` of every attachment of a package document.
fn decode_attachments(payload: &JsonValue) -> (r: Vec<Option<Vec<u8>>>)
    ensures
        byte_views(r@) == decoded_attachments(*payload),
{
    let mut r: Vec<Option<Vec<u8>>> = Vec::new();
    match get(payload, "_attachments") {
        Some(JsonValue::Object(members)) => {
            let ghost want = decode_texts(attachment_texts(members@));
            for i in 0..members.len()
                invariant
                    want == decode_texts(attachment_texts(members@)),
                    byte_views(r@) == want.take(i as int),
            {
                let text = get_text(&members[i].value, "data");
                let d: Option<Vec<u8>> = match text {
                    Some(s) => match base64_decode(s.as_str()) {
                        Ok(v) => Some(v),
                        Err(_) => None,
                    },
                    None => None,
                };
                assert(want[i as int] == opt_bytes(d));
                let ghost prev = r@;
                r.push(d);
                assert(byte_views(r@) =~= byte_views(prev).push(opt_bytes(d)));
                assert(want.take(i + 1) =~= want.take(i as int).push(want[i as int]));
            }
            assert(want.take(members.len() as int) =~= want);
            r
        },
        _ => r,
    }
}

/// The version a raw tarball is published under: the `x-package-version`
/// header, or `0.0.0` where it is absent or not text.
pub open spec fn uploaded_version(h: RequestHeaders) -> Seq<char> {
    match optional_header_text(h.package_version) {
        Some(v) => v,
        None => "0.0.0"@,
    }
}

/// What publishing a raw tarball makes the registry do: write the body to
/// the version's tarball file, then insert the version's record.
pub open spec fn tarball_effects(
    name: Seq<char>,
    version: Seq<char>,
    description: Option<Seq<char>>,
    body: Seq<u8>,
    shasum: Seq<char>,
) -> Seq<EffectView> {
    let dir = storage_dir_of(name);
    let file = tarball_file(name, version);
    seq![
        EffectView::StoreFile { dir: dir, path: join_path(dir, file), data: body },
        EffectView::Insert(
            RecordView {
                name: name,
                version: version,
                description: description,
                shasum: shasum,
                tarball: tarball_url_path(name, version, file),
                keywords: None,
            },
        ),
    ]
}

/// Stores a raw tarball `body` as `version` of package `name`, given its
/// hex SHA-256 `shasum`.
pub fn publish_tarball(
    name: &str,
    version: &str,
    description: Option<String>,
    body: &[u8],
    shasum: String,
) -> (r: Published)
    ensures
        effect_views(r.effects@) == tarball_effects(
            name@,
            version@,
            opt_text(description),
            body@,
            shasum@,
        ),
        r.reply@ == (ReplyView::PublishedTarball {
            name: name@,
            version: version@,
            shasum: shasum@,
        }),
{
    let n = chars_of(name);
    let v = chars_of(version);
    let dir = storage_dir_chars(&n);
    let file = tarball_file_chars(&n, &v);
    let path = join_paths(&dir, &file);
    let tarball = tarball_path_chars(&n, &v, &file);
    let mut effects: Vec<Effect> = Vec::new();
    let store = Effect::StoreFile {
        dir: string_of(&dir),
        path: string_of(&path),
        data: vstd::slice::slice_to_vec(body),
    };
    effects.push(store);
    let record = PackageRecord {
        name: string_of(&n),
        version: string_of(&v),
        description: description,
        shasum: shasum.clone(),
        tarball: string_of(&tarball),
        keywords: None,
    };
    let insert = Effect::Insert(record);
    effects.push(insert);
    assert(effect_views(effects@) =~= seq![store@, insert@]);
    Published {
        effects,
        reply: Reply::PublishedTarball { name: string_of(&n), version: string_of(&v), shasum },
    }
}

/// The versions object of a package document, if the body parsed as JSON
/// and has one.
pub open spec fn manifest_versions(payload: Option<JsonValue>) -> Option<Seq<JsonMember>> {
    match payload {
        Some(p) => match json_get(p, "versions"@) {
            Some(JsonValue::Object(m)) => Some(m@),
            _ => None,
        },
        None => None,
    }
}

/// The hex SHA-256 of a raw tarball.
pub open spec fn tarball_shasum(body: Seq<u8>) -> Seq<char> {
    hex_lower(sha256(body))
}

/// What a publish request makes the registry do, and its answer.
///
/// `payload` is the body parsed as JSON (nothing where it is not JSON).
/// An unauthorized request changes nothing and is answered 401. Otherwise
/// the name is normalized; a body that is a package document with a
/// `versions` object has each version stored with its attachments, and any
/// other body is stored as the tarball of the version its headers name.
pub open spec fn publish_plan(
    raw_name: Seq<char>,
    headers: RequestHeaders,
    body: Seq<u8>,
    payload: Option<JsonValue>,
) -> (Seq<EffectView>, ReplyView) {
    if !is_authorized(headers) {
        (Seq::empty(), ReplyView::Unauthorized)
    } else {
        let name = normalized_name(raw_name);
        match manifest_versions(payload) {
            Some(versions) => (
                manifest_effects(name, versions, decoded_attachments(payload->0)),
                ReplyView::PublishedManifest { name: name },
            ),
            None => {
                let version = uploaded_version(headers);
                let shasum = tarball_shasum(body);
                (
                    tarball_effects(
                        name,
                        version,
                        optional_header_text(headers.package_description),
                        body,
                        shasum,
                    ),
                    ReplyView::PublishedTarball { name: name, version: version, shasum: shasum },
                )
            },
        }
    }
}

/// Handles a publish request for package `raw_name` (as it stood in the
/// URL) with the given headers and body; `payload` is the body parsed as
/// JSON, or nothing where it is not JSON.
pub fn npm_publish(
    raw_name: &str,
    headers: &RequestHeaders,
    body: &[u8],
    payload: &Option<JsonValue>,
) -> (r: Published)
    ensures
        (effect_views(r.effects@), r.reply@) == publish_plan(raw_name@, *headers, body@, *payload),
{
    match auth(headers) {
        Err(_) => {
            let effects: Vec<Effect> = Vec::new();
            assert(effect_views(effects@) =~= Seq::empty());
            return Published { effects, reply: Reply::Unauthorized };
        },
        Ok(()) => {},
    }
    let name = normalize_scoped(raw_name);
    match payload {
        Some(p) => match get(p, "versions") {
            Some(JsonValue::Object(versions)) => {
                let decoded = decode_attachments(p);
                return publish_manifest(name.as_str(), versions, &decoded);
            },
            _ => {},
        },
        None => {},
    }
    let version = match optional_header_str(&headers.package_version) {
        Some(v) => v,
        None => string_of(&chars_of("0.0.0")),
    };
    let description = optional_header_str(&headers.package_description);
    let digest = sha256_digest(body);
    let shasum = hex_encode(digest.as_slice());
    publish_tarball(name.as_str(), version.as_str(), description, body, shasum)
}

/// Handles a publish request for the scoped package `@scope/name`: the same
/// as a publish under the full name.
pub fn npm_publish_scoped(
    scope: &str,
    name: &str,
    headers: &RequestHeaders,
    body: &[u8],
    payload: &Option<JsonValue>,
) -> (r: Published)
    ensures
        (effect_views(r.effects@), r.reply@) == publish_plan(
            scoped(scope@, name@),
            *headers,
            body@,
            *payload,
        ),
{
    let full = scoped_name(scope, name);
    npm_publish(full.as_str(), headers, body, payload)
}

} // verus!
