//! Properties that hold across the registry's operations.
use vstd::prelude::*;
use crate::auth::{bearer_prefix, fleet_key, header_text, is_authorized, RequestHeaders};
use crate::json::{join_commas, json_get, json_get_text, text_items, JsonMember, JsonValue};
use crate::names::{
    download_file, encoded_slash_lower, encoded_slash_upper, join_path, normalized_name, storage_component,
    storage_dir_of, storage_root, tarball_file, tarball_url_path,
};
use crate::package::{
    docs_map, is_package_doc, latest_version, registry_host, version_doc, versions_map, PackageDoc,
    PackageRow,
};
use crate::digest::{hex_digit, hex_lower};
use crate::reply::{reply_status, upstream_reply, ReplyView, UpstreamOutcome};
use crate::ui::{item_html, UiRow};
use crate::publish::{
    manifest_effects, manifest_record, publish_plan, stored_files, tarball_effects, version_effects,
    version_keywords, version_shasum, EffectView,
};
use crate::text::{
    decimal, digit_char,
    disjoint_chars, has_prefix, lemma_replace_absent, lemma_replace_clears,
    lemma_replace_keeps_clear, lemma_replace_keeps_head, occurs_at, opt_text, replace_all,
    trim_prefix_all,
};

verus! {

/// Normalizing a name twice gives what normalizing it once gives.
pub proof fn normalize_is_idempotent(name: Seq<char>)
    ensures
        normalized_name(normalized_name(name)) == normalized_name(name),
{
    let lower = encoded_slash_lower();
    let upper = encoded_slash_upper();
    let slash = seq!['/'];
    if has_prefix(name, seq!['@']) {
        assert(disjoint_chars(lower, slash));
        assert(disjoint_chars(upper, slash));
        assert(name.take(1)[0] == '@');
        assert(name[0] == '@');
        let once = replace_all(name, lower, slash);
        let twice = replace_all(once, upper, slash);
        lemma_replace_keeps_head(name, lower, slash);
        lemma_replace_keeps_head(once, upper, slash);
        assert(twice.take(1) =~= seq!['@']);
        lemma_replace_clears(name, lower, slash);
        lemma_replace_keeps_clear(once, lower, upper, slash);
        lemma_replace_clears(once, upper, slash);
        lemma_replace_absent(twice, lower, slash);
        lemma_replace_absent(twice, upper, slash);
    }
}

/// A name that does not start with `@` is left as it is.
pub proof fn unscoped_names_are_kept(name: Seq<char>)
    requires
        !has_prefix(name, seq!['@']),
    ensures
        normalized_name(name) == name,
{
}

/// A package's storage directory is `./storage/` followed by a single path
/// component: its name with each `/` made `__`, which holds no `/`.
pub proof fn storage_dir_is_one_component(name: Seq<char>)
    ensures
        storage_dir_of(name) == storage_root() + seq!['/'] + storage_component(name),
        !storage_component(name).contains('/'),
{
    let c = storage_component(name);
    assert(disjoint_chars(seq!['/'], seq!['_', '_']));
    lemma_replace_clears(name, seq!['/'], seq!['_', '_']);
    assert forall|i: int| 0 <= i < c.len() implies c[i] != '/' by {
        if c[i] == '/' {
            assert(c.subrange(i, i + 1) =~= seq!['/']);
            assert(occurs_at(c, seq!['/'], i));
        }
    }
    reveal_strlit("./storage");
}

/// `e` writes a file to `path` in directory `dir`.
pub open spec fn writes_to(e: EffectView, dir: Seq<char>, path: Seq<char>) -> bool {
    match e {
        EffectView::StoreFile { dir: d, path: p, .. } => d == dir && p == path,
        _ => false,
    }
}

proof fn lemma_stored_files_path(dir: Seq<char>, path: Seq<char>, decoded: Seq<Option<Seq<u8>>>)
    ensures
        forall|k: int|
            0 <= k < stored_files(dir, path, decoded).len() ==> writes_to(
                #[trigger] stored_files(dir, path, decoded)[k],
                dir,
                path,
            ),
    decreases decoded.len(),
{
    if decoded.len() > 0 {
        lemma_stored_files_path(dir, path, decoded.drop_last());
        let rest = stored_files(dir, path, decoded.drop_last());
        let all = stored_files(dir, path, decoded);
        assert forall|k: int| 0 <= k < all.len() implies writes_to(#[trigger] all[k], dir, path) by {
            if k < rest.len() {
                assert(all[k] == rest[k]);
            }
        }
    }
}

/// Each version of a published document: every file written for it is the
/// file that a download of its tarball name reads, in its package's
/// storage directory, and its record, inserted last, points at that
/// tarball's URL.
pub proof fn published_version_tarball_is_served(
    name: Seq<char>,
    version: Seq<char>,
    meta: JsonValue,
    decoded: Seq<Option<Seq<u8>>>,
)
    ensures
        ({
            let effects = version_effects(name, version, meta, decoded);
            let file = tarball_file(name, version);
            &&& forall|k: int|
                0 <= k < effects.len() - 1 ==> writes_to(
                    #[trigger] effects[k],
                    storage_dir_of(name),
                    download_file(name, file),
                )
            &&& effects.last() matches EffectView::Insert(rec) && rec.name == name && rec.version
                == version && rec.tarball == tarball_url_path(name, version, file)
        }),
{
    let dir = storage_dir_of(name);
    let file = tarball_file(name, version);
    lemma_stored_files_path(dir, join_path(dir, file), decoded);
    let effects = version_effects(name, version, meta, decoded);
    assert forall|k: int| 0 <= k < effects.len() - 1 implies writes_to(
        #[trigger] effects[k],
        storage_dir_of(name),
        download_file(name, file),
    ) by {
        assert(effects[k] == stored_files(dir, join_path(dir, file), decoded)[k]);
    }
}

/// A raw tarball upload: its body is written to the file that a download
/// of its tarball name reads, and its record points at that tarball's URL.
pub proof fn uploaded_tarball_is_served(
    name: Seq<char>,
    version: Seq<char>,
    description: Option<Seq<char>>,
    body: Seq<u8>,
    shasum: Seq<char>,
)
    ensures
        ({
            let effects = tarball_effects(name, version, description, body, shasum);
            let file = tarball_file(name, version);
            &&& effects.len() == 2
            &&& effects[0] == EffectView::StoreFile {
                dir: storage_dir_of(name),
                path: download_file(name, file),
                data: body,
            }
            &&& effects[1] matches EffectView::Insert(rec) && rec.name == name && rec.version
                == version && rec.shasum == shasum && rec.tarball == tarball_url_path(
                name,
                version,
                file,
            )
        }),
{
}

/// A request that presents no valid key is answered 401 and changes nothing.
pub proof fn unauthorized_publish_changes_nothing(
    raw_name: Seq<char>,
    headers: RequestHeaders,
    body: Seq<u8>,
    payload: Option<JsonValue>,
)
    requires
        !is_authorized(headers),
    ensures
        publish_plan(raw_name, headers, body, payload).0.len() == 0,
        publish_plan(raw_name, headers, body, payload).1 == crate::reply::ReplyView::Unauthorized,
{
}

/// The package name a change of a publish belongs to.
pub open spec fn effect_within(e: EffectView, name: Seq<char>) -> bool {
    match e {
        EffectView::StoreFile { dir, .. } => dir == storage_dir_of(name),
        EffectView::Insert(rec) => rec.name == name,
    }
}

proof fn lemma_manifest_within(name: Seq<char>, versions: Seq<JsonMember>, decoded: Seq<Option<Seq<u8>>>)
    ensures
        forall|k: int|
            0 <= k < manifest_effects(name, versions, decoded).len() ==> effect_within(
                #[trigger] manifest_effects(name, versions, decoded)[k],
                name,
            ),
    decreases versions.len(),
{
    if versions.len() > 0 {
        let front = manifest_effects(name, versions.drop_last(), decoded);
        let v = versions.last();
        let back = version_effects(name, v.key@, v.value, decoded);
        lemma_manifest_within(name, versions.drop_last(), decoded);
        published_version_tarball_is_served(name, v.key@, v.value, decoded);
        let all = manifest_effects(name, versions, decoded);
        assert forall|k: int| 0 <= k < all.len() implies effect_within(#[trigger] all[k], name) by {
            if k < front.len() {
                assert(all[k] == front[k]);
            } else {
                assert(all[k] == back[k - front.len()]);
            }
        }
    }
}

/// Everything an authorized publish changes belongs to the package named
/// by the normalized name: the records it inserts carry that name and the
/// files it writes lie in that package's storage directory.
pub proof fn publish_stays_within_package(
    raw_name: Seq<char>,
    headers: RequestHeaders,
    body: Seq<u8>,
    payload: Option<JsonValue>,
)
    ensures
        forall|k: int|
            0 <= k < publish_plan(raw_name, headers, body, payload).0.len() ==> effect_within(
                #[trigger] publish_plan(raw_name, headers, body, payload).0[k],
                normalized_name(raw_name),
            ),
{
    let name = normalized_name(raw_name);
    match payload {
        Some(p) => match crate::json::json_get(p, "versions"@) {
            Some(JsonValue::Object(m)) => {
                lemma_manifest_within(name, m@, crate::publish::decoded_attachments(p));
            },
            _ => {},
        },
        None => {},
    }
}

/// The versions of a package document are exactly the versions of its rows.
pub proof fn listed_versions_are_stored_versions(name: Seq<char>, rows: Seq<PackageRow>)
    ensures
        forall|k: Seq<char>|
            #[trigger] versions_map(name, rows).dom().contains(k) <==> exists|i: int|
                0 <= i < rows.len() && (#[trigger] rows[i]).version@ == k,
    decreases rows.len(),
{
    if rows.len() > 0 {
        let front = rows.drop_last();
        listed_versions_are_stored_versions(name, front);
        assert forall|k: Seq<char>| #[trigger] versions_map(name, rows).dom().contains(k) <==> exists|i: int|
            0 <= i < rows.len() && (#[trigger] rows[i]).version@ == k by {
            if versions_map(name, rows).dom().contains(k) {
                if k == rows.last().version@ {
                    assert(rows[rows.len() - 1].version@ == k);
                } else {
                    assert(versions_map(name, front).dom().contains(k));
                    let i = choose|i: int| 0 <= i < front.len() && (#[trigger] front[i]).version@ == k;
                    assert(rows[i] == front[i]);
                    assert(0 <= i < rows.len() && rows[i].version@ == k);
                }
            }
            if exists|i: int| 0 <= i < rows.len() && (#[trigger] rows[i]).version@ == k {
                let i = choose|i: int| 0 <= i < rows.len() && (#[trigger] rows[i]).version@ == k;
                if i < rows.len() - 1 {
                    assert(front[i] == rows[i]);
                    assert(versions_map(name, front).dom().contains(k));
                }
            }
        }
    }
}

/// What a read of a package gives back of a stored version: the entry of
/// each version is built from the last row that has that version (the
/// oldest, as rows come newest first), so it carries that row's
/// description, shasum and tarball, the tarball as a URL on the registry.
pub proof fn stored_version_is_listed(name: Seq<char>, rows: Seq<PackageRow>, i: int)
    requires
        0 <= i < rows.len(),
        forall|j: int| i < j < rows.len() ==> (#[trigger] rows[j]).version@ != rows[i].version@,
    ensures
        versions_map(name, rows).dom().contains(rows[i].version@),
        versions_map(name, rows)[rows[i].version@] == version_doc(name, rows[i]),
        versions_map(name, rows)[rows[i].version@].shasum == rows[i].shasum@,
        versions_map(name, rows)[rows[i].version@].tarball == registry_host() + rows[i].tarball@,
        versions_map(name, rows)[rows[i].version@].description == opt_text(rows[i].description),
    decreases rows.len(),
{
    if i < rows.len() - 1 {
        let front = rows.drop_last();
        assert forall|j: int| i < j < front.len() implies (#[trigger] front[j]).version@
            != front[i].version@ by {
            assert(front[j] == rows[j]);
        }
        stored_version_is_listed(name, front, i);
        assert(rows[rows.len() - 1].version@ != rows[i].version@);
    }
}

/// The latest version of a package document is empty exactly when every
/// row's version is empty, and otherwise is the version of the first row
/// (the newest) whose version is not empty.
pub proof fn latest_is_newest_nonempty_version(rows: Seq<PackageRow>)
    ensures
        latest_version(rows).len() == 0 <==> forall|i: int|
            0 <= i < rows.len() ==> (#[trigger] rows[i]).version@.len() == 0,
        latest_version(rows).len() > 0 ==> exists|i: int|
            0 <= i < rows.len() && (#[trigger] rows[i]).version@ == latest_version(rows) && forall|
                j: int,
            |
                0 <= j < i ==> (#[trigger] rows[j]).version@.len() == 0,
    decreases rows.len(),
{
    if rows.len() > 0 {
        let front = rows.drop_last();
        latest_is_newest_nonempty_version(front);
        assert forall|i: int| 0 <= i < front.len() implies #[trigger] front[i] == rows[i] by {}
        if latest_version(front).len() > 0 {
            let i = choose|i: int|
                0 <= i < front.len() && (#[trigger] front[i]).version@ == latest_version(front) && forall|
                    j: int,
                |
                    0 <= j < i ==> (#[trigger] front[j]).version@.len() == 0;
            assert(rows[i] == front[i]);
            assert forall|j: int| 0 <= j < i implies (#[trigger] rows[j]).version@.len() == 0 by {
                assert(rows[j] == front[j]);
            }
            assert(rows[i].version@.len() > 0);
        } else {
            let last = rows.len() - 1;
            assert forall|j: int| 0 <= j < last implies (#[trigger] rows[j]).version@.len() == 0 by {
                assert(rows[j] == front[j]);
            }
        }
    }
}

/// A non-empty latest version of a package document is one of its listed
/// versions.
pub proof fn latest_is_listed(name: Seq<char>, rows: Seq<PackageRow>)
    requires
        latest_version(rows).len() > 0,
    ensures
        versions_map(name, rows).dom().contains(latest_version(rows)),
{
    latest_is_newest_nonempty_version(rows);
    listed_versions_are_stored_versions(name, rows);
    let i = choose|i: int|
        0 <= i < rows.len() && (#[trigger] rows[i]).version@ == latest_version(rows) && forall|j: int|
            0 <= j < i ==> (#[trigger] rows[j]).version@.len() == 0;
    assert(rows[i].version@ == latest_version(rows));
}

/// Joining keywords: nothing gives the empty text, one keyword gives
/// itself, and one more keyword after a non-empty list is appended after a
/// single comma, so every keyword is kept, in order.
pub proof fn keywords_join_keeps_every_item(items: Seq<Seq<char>>, x: Seq<char>)
    ensures
        join_commas(Seq::<Seq<char>>::empty()) == Seq::<char>::empty(),
        join_commas(seq![x]) == x,
        items.len() > 0 ==> join_commas(items.push(x)) == join_commas(items) + seq![','] + x,
{
    assert(items.push(x).drop_last() =~= items);
}

/// The keywords read from an array are its string elements in order: a
/// string element appended to the array is appended to the keywords, any
/// other element is skipped.
pub proof fn keyword_items_are_the_strings(a: Seq<JsonValue>, v: JsonValue)
    ensures
        text_items(Seq::<JsonValue>::empty()) == Seq::<Seq<char>>::empty(),
        v matches JsonValue::Str(s) ==> text_items(a.push(v)) == text_items(a).push(s@),
        !(v is Str) ==> text_items(a.push(v)) == text_items(a),
{
    assert(a.push(v).drop_last() =~= a);
}

/// A published version's keywords are its `keywords` array's strings joined
/// by commas: for a version whose keywords are the strings `items` (at
/// least one) followed by `x`, the record holds the keywords of `items`,
/// a comma, then `x`.
pub proof fn published_keywords_hold_every_string(
    name: Seq<char>,
    version: Seq<char>,
    meta: JsonValue,
    a: Seq<JsonValue>,
    x: String,
)
    requires
        json_get(meta, "keywords"@) matches Some(JsonValue::Array(arr)) && arr@ == a.push(
            JsonValue::Str(x),
        ),
        text_items(a).len() > 0,
    ensures
        version_keywords(meta) matches Some(k) && k == join_commas(text_items(a)) + seq![','] + x@,
        manifest_record(name, version, meta).keywords == version_keywords(meta),
{
    keyword_items_are_the_strings(a, JsonValue::Str(x));
    keywords_join_keeps_every_item(text_items(a), x@);
}

/// A published version's record carries the `shasum` member of its
/// `dist` object, whatever else `dist` holds.
pub proof fn published_shasum_is_dist_shasum(
    name: Seq<char>,
    version: Seq<char>,
    meta: JsonValue,
    dist: JsonValue,
    s: Seq<char>,
)
    requires
        json_get(meta, "dist"@) == Some(dist),
        json_get_text(dist, "shasum"@) == Some(s),
    ensures
        version_shasum(meta) == s,
        manifest_record(name, version, meta).shasum == s,
{
}

/// Every version entry of a package document names the package the
/// document is for.
pub proof fn version_entries_name_the_package(name: Seq<char>, rows: Seq<PackageRow>)
    ensures
        forall|v: Seq<char>|
            #[trigger] versions_map(name, rows).dom().contains(v) ==> versions_map(name, rows)[v].name
                == name && versions_map(name, rows)[v].version == v,
    decreases rows.len(),
{
    if rows.len() > 0 {
        version_entries_name_the_package(name, rows.drop_last());
    }
}

/// A document built by `package_document` names its package in every
/// version entry, and each entry sits under its own version.
pub proof fn document_entries_name_the_package(doc: PackageDoc, name: Seq<char>, rows: Seq<PackageRow>)
    requires
        is_package_doc(doc, name, rows),
    ensures
        doc.name@ == name,
        forall|v: Seq<char>|
            #[trigger] docs_map(doc.versions@).dom().contains(v) ==> docs_map(doc.versions@)[v].name
                == doc.name@ && docs_map(doc.versions@)[v].version == v,
{
    version_entries_name_the_package(name, rows);
}

/// A reply is a success (200) exactly when it is not one of the four error
/// replies, which are 401, 404, 404 and 502; in particular a served tarball
/// is answered 200.
pub proof fn error_status_only_for_error_replies(r: ReplyView, b: Seq<u8>)
    ensures
        reply_status(r) == 200 <==> !(r is Unauthorized || r is NotFoundJson || r is NotFound
            || r is BadGateway),
        reply_status(ReplyView::Tarball(b)) == 200,
        reply_status(ReplyView::UpstreamDocument(b)) == 200,
        reply_status(ReplyView::Unauthorized) == 401,
        reply_status(ReplyView::NotFoundJson) == 404,
        reply_status(ReplyView::NotFound) == 404,
        reply_status(ReplyView::BadGateway) == 502,
{
}

/// A download whose file was read is answered 200 with the file's bytes;
/// one whose file could not be read, 404.
pub proof fn download_status(file: Option<Vec<u8>>)
    ensures
        reply_status(
            match file {
                Some(b) => ReplyView::Tarball(b@),
                None => ReplyView::NotFound,
            },
        ) == (if file is Some {
            200u16
        } else {
            404u16
        }),
{
}

/// `t` is a suffix of `s`.
pub open spec fn has_suffix(s: Seq<char>, t: Seq<char>) -> bool {
    t.len() <= s.len() && s.skip(s.len() - t.len()) == t
}

/// A package entry on the web page ends in ` ver)` when the package has
/// exactly one version and in ` vers)` otherwise, before its closing tags.
pub proof fn version_word_is_plural_unless_one(r: UiRow)
    ensures
        r.count == 1 ==> has_suffix(item_html(r), " ver)</div></div>"@),
        r.count != 1 ==> has_suffix(item_html(r), " vers)</div></div>"@),
{
    reveal_strlit(" ver");
    reveal_strlit(")</div></div>");
    reveal_strlit(" ver)</div></div>");
    reveal_strlit(" vers)</div></div>");
    let h = item_html(r);
    if r.count == 1 {
        let t = " ver)</div></div>"@;
        assert(h.skip(h.len() - t.len()) =~= t);
    } else {
        let t = " vers)</div></div>"@;
        assert(h.skip(h.len() - t.len()) =~= t);
    }
}

/// A published version's record carries the version's `description` when
/// it is a string, and no description otherwise.
pub proof fn published_description_is_the_string_description(
    name: Seq<char>,
    version: Seq<char>,
    meta: JsonValue,
)
    ensures
        json_get(meta, "description"@) matches Some(JsonValue::Str(d)) ==> manifest_record(
            name,
            version,
            meta,
        ).description == Some(d@),
        !(json_get(meta, "description"@) matches Some(JsonValue::Str(_))) ==> manifest_record(
            name,
            version,
            meta,
        ).description is None,
{
}

proof fn lemma_fleet_key_trims(h: RequestHeaders)
    ensures
        trim_prefix_all(fleet_key(), bearer_prefix()) == fleet_key(),
        trim_prefix_all(bearer_prefix() + fleet_key(), bearer_prefix()) == fleet_key(),
{
    reveal_strlit("axe_bunker_2026_fleet");
    let k = fleet_key();
    let b = bearer_prefix();
    assert(!has_prefix(k, b)) by {
        assert(k.take(b.len() as int)[0] != b[0]);
    }
    let bk = b + k;
    assert(has_prefix(bk, b)) by {
        assert(bk.take(b.len() as int) =~= b);
    }
    assert(bk.skip(b.len() as int) =~= k);
}

/// A request whose `x-axe-key` header reads as exactly the fleet key is
/// authorized, whatever its `authorization` header holds.
pub proof fn fleet_key_header_is_accepted(h: RequestHeaders)
    requires
        h.x_axe_key matches Some(v) && header_text(v@) == Some(fleet_key()),
    ensures
        is_authorized(h),
{
    lemma_fleet_key_trims(h);
}

/// A request without `x-axe-key` whose `authorization` header reads as
/// `Bearer ` and the fleet key is authorized.
pub proof fn bearer_fleet_key_is_accepted(h: RequestHeaders)
    requires
        h.x_axe_key is None,
        h.authorization matches Some(v) && header_text(v@) == Some(bearer_prefix() + fleet_key()),
    ensures
        is_authorized(h),
{
    lemma_fleet_key_trims(h);
}

/// A request whose `x-axe-key` header is present but does not read as
/// text is refused, whatever its `authorization` header holds.
pub proof fn unreadable_x_axe_key_is_refused(h: RequestHeaders)
    requires
        h.x_axe_key matches Some(v) && header_text(v@) is None,
    ensures
        !is_authorized(h),
{
    reveal_strlit("axe_bunker_2026_fleet");
    assert(fleet_key().len() > 0);
}

/// A request that presents neither header is not authorized.
pub proof fn no_key_is_refused(h: RequestHeaders)
    requires
        h.x_axe_key is None,
        h.authorization is None,
    ensures
        !is_authorized(h),
{
    reveal_strlit("axe_bunker_2026_fleet");
    assert(fleet_key().len() > 0);
}

/// The upstream registry's document is passed on unchanged with 200; a
/// failed request is answered 404 and an unreadable body 502.
pub proof fn upstream_answers(o: UpstreamOutcome)
    ensures
        o matches UpstreamOutcome::Body(b) ==> upstream_reply(o) == ReplyView::UpstreamDocument(b@)
            && reply_status(upstream_reply(o)) == 200,
        o is Unavailable ==> reply_status(upstream_reply(o)) == 404,
        o is BodyUnreadable ==> reply_status(upstream_reply(o)) == 502,
{
}

/// Joining a path: an absolute path stands alone; any other path ends the
/// result, after the base and a single separator unless the base is empty
/// or already ends in one.
pub proof fn join_keeps_base_and_path(base: Seq<char>, p: Seq<char>)
    ensures
        has_suffix(join_path(base, p), p),
        !(p.len() > 0 && p[0] == '/') ==> has_prefix(join_path(base, p), base),
        (p.len() > 0 && p[0] == '/') ==> join_path(base, p) == p,
        !(p.len() > 0 && p[0] == '/') && base.len() > 0 && base.last() != '/' ==> join_path(
            base,
            p,
        ).len() == base.len() + 1 + p.len() && join_path(base, p)[base.len() as int] == '/',
        !(p.len() > 0 && p[0] == '/') && !(base.len() > 0 && base.last() != '/') ==> join_path(
            base,
            p,
        ).len() == base.len() + p.len(),
{
    let j = join_path(base, p);
    assert(j.skip(j.len() - p.len()) =~= p);
    if !(p.len() > 0 && p[0] == '/') {
        assert(j.take(base.len() as int) =~= base);
    }
}

/// The number that a text of decimal digits denotes.
pub open spec fn digits_value(s: Seq<char>) -> int
    decreases s.len(),
{
    if s.len() == 0 {
        0
    } else {
        digits_value(s.drop_last()) * 10 + (s.last() as int - '0' as int)
    }
}

/// The decimal text of a number (as the web page shows counts) consists of
/// digits, starts with a non-zero digit unless the number is zero, and
/// denotes the number.
pub proof fn decimal_denotes_the_number(n: nat)
    ensures
        decimal(n).len() > 0,
        forall|i: int| 0 <= i < decimal(n).len() ==> '0' <= #[trigger] decimal(n)[i] <= '9',
        n > 0 ==> decimal(n)[0] != '0',
        digits_value(decimal(n)) == n,
    decreases n,
{
    if n < 10 {
        let d = decimal(n);
        assert(d.drop_last() =~= Seq::<char>::empty());
        assert(digit_char(n as int) as int == '0' as int + n);
        assert(digits_value(d.drop_last()) == 0);
        assert(digits_value(d) == digits_value(d.drop_last()) * 10 + (d.last() as int - '0' as int));
    } else {
        decimal_denotes_the_number(n / 10);
        assert(digit_char((n % 10) as int) as int == '0' as int + n % 10);
        assert(n == (n / 10) * 10 + n % 10);
        let d = decimal(n);
        let f = decimal(n / 10);
        assert(d.drop_last() =~= f);
        assert(d.last() == digit_char((n % 10) as int));
        assert(digits_value(d) == digits_value(f) * 10 + (d.last() as int - '0' as int));
        assert(d[0] == f[0]);
        assert forall|i: int| 0 <= i < d.len() implies '0' <= #[trigger] d[i] <= '9' by {
            if i < f.len() {
                assert(d[i] == f[i]);
            }
        }
    }
}

/// The shasum of a raw tarball has two lower-case hex digits per digest
/// byte, which give back the byte: high half first.
pub proof fn hex_has_two_digits_per_byte(data: Seq<u8>)
    ensures
        hex_lower(data).len() == 2 * data.len(),
        forall|i: int|
            0 <= i < data.len() ==> hex_value(#[trigger] hex_lower(data)[2 * i]) * 16 + hex_value(
                hex_lower(data)[2 * i + 1],
            ) == data[i] as int,
    decreases data.len(),
{
    if data.len() > 0 {
        let front = data.drop_last();
        hex_has_two_digits_per_byte(front);
        let h = hex_lower(data);
        let hf = hex_lower(front);
        let b = data.last();
        assert(hex_value(hex_digit(b as int / 16)) == b as int / 16);
        assert(hex_value(hex_digit(b as int % 16)) == b as int % 16);
        assert forall|i: int| 0 <= i < data.len() implies hex_value(#[trigger] h[2 * i]) * 16
            + hex_value(h[2 * i + 1]) == data[i] as int by {
            if i < front.len() {
                assert(h[2 * i] == hf[2 * i]);
                assert(h[2 * i + 1] == hf[2 * i + 1]);
                assert(data[i] == front[i]);
            } else {
                assert(h[2 * i] == hex_digit(b as int / 16));
                assert(h[2 * i + 1] == hex_digit(b as int % 16));
            }
        }
    }
}

/// The value of a lower-case hex digit.
pub open spec fn hex_value(c: char) -> int {
    if '0' <= c <= '9' {
        c as int - '0' as int
    } else {
        c as int - 'a' as int + 10
    }
}

/// A tarball's file name is the package name with each `/` made `-`
/// (so it holds no `/` from the name), then `-`, the version and `.tgz`.
pub proof fn tarball_file_ends_with_version(name: Seq<char>, version: Seq<char>)
    ensures
        has_suffix(tarball_file(name, version), seq!['-'] + version + seq!['.', 't', 'g', 'z']),
        !replace_all(name, seq!['/'], seq!['-']).contains('/'),
{
    let f = tarball_file(name, version);
    let s = seq!['-'] + version + seq!['.', 't', 'g', 'z'];
    assert(f.skip(f.len() - s.len()) =~= s);
    let c = replace_all(name, seq!['/'], seq!['-']);
    assert(disjoint_chars(seq!['/'], seq!['-']));
    lemma_replace_clears(name, seq!['/'], seq!['-']);
    assert forall|i: int| 0 <= i < c.len() implies c[i] != '/' by {
        if c[i] == '/' {
            assert(c.subrange(i, i + 1) =~= seq!['/']);
            assert(occurs_at(c, seq!['/'], i));
        }
    }
}

} // verus!
