//! Package names and the paths and URLs derived from them.
use vstd::prelude::*;
use crate::text::{
    chars_of, extend_chars, extend_str, has_prefix, occurs_at_exec, replace_all, replace_chars,
    string_of,
};

verus! {

/// The characters of `"%2f"`, a percent-encoded slash.
pub open spec fn encoded_slash_lower() -> Seq<char> {
    seq!['%', '2', 'f']
}

/// The characters of `"%2F"`, a percent-encoded slash.
pub open spec fn encoded_slash_upper() -> Seq<char> {
    seq!['%', '2', 'F']
}

/// What `normalize_scoped` makes of a name: a scoped name (one that starts
/// with `@`) has its encoded slashes decoded, lower-case form first; any
/// other name is kept as it is.
pub open spec fn normalized_name(name: Seq<char>) -> Seq<char> {
    if has_prefix(name, seq!['@']) {
        replace_all(
            replace_all(name, encoded_slash_lower(), seq!['/']),
            encoded_slash_upper(),
            seq!['/'],
        )
    } else {
        name
    }
}

/// Decodes the `%2f` / `%2F` in a scoped package name (`@scope%2fname`).
pub fn normalize_scoped(name: &str) -> (r: String)
    ensures
        r@ == normalized_name(name@),
{
    let s = chars_of(name);
    let at = vec!['@'];
    assert(at@ == seq!['@']);
    let scoped = occurs_at_exec(&s, &at, 0);
    assert(s@.subrange(0, at@.len() as int) =~= s@.take(at@.len() as int));
    if scoped {
        let lower = vec!['%', '2', 'f'];
        let upper = vec!['%', '2', 'F'];
        let slash = vec!['/'];
        assert(lower@ == encoded_slash_lower());
        assert(upper@ == encoded_slash_upper());
        assert(slash@ == seq!['/']);
        let once = replace_chars(&s, &lower, &slash);
        let twice = replace_chars(&once, &upper, &slash);
        string_of(&twice)
    } else {
        string_of(&s)
    }
}


/// `base` joined with `p` as `PathBuf::join` does on Unix: an absolute `p`
/// replaces `base`; otherwise a separator is put between them unless `base`
/// is empty or already ends in one.
pub open spec fn join_path(base: Seq<char>, p: Seq<char>) -> Seq<char> {
    if p.len() > 0 && p[0] == '/' {
        p
    } else if base.len() > 0 && base.last() != '/' {
        base + seq!['/'] + p
    } else {
        base + p
    }
}

/// `base` joined with `p` (see `join_path`).
pub fn join_paths(base: &Vec<char>, p: &Vec<char>) -> (r: Vec<char>)
    ensures
        r@ == join_path(base@, p@),
{
    if p.len() > 0 && p[0] == '/' {
        return p.clone();
    }
    let mut r = base.clone();
    if base.len() > 0 && base[base.len() - 1] != '/' {
        r.push('/');
    }
    extend_chars(&mut r, p);
    r
}

/// The directory under which every package's tarballs are stored.
pub open spec fn storage_root() -> Seq<char> {
    "./storage"@
}

/// The directory name of a package: its name with each `/` made `__`.
pub open spec fn storage_component(name: Seq<char>) -> Seq<char> {
    replace_all(name, seq!['/'], seq!['_', '_'])
}

/// The directory that holds the tarballs of package `name`.
pub open spec fn storage_dir_of(name: Seq<char>) -> Seq<char> {
    join_path(storage_root(), storage_component(name))
}

pub(crate) fn storage_dir_chars(name: &Vec<char>) -> (r: Vec<char>)
    ensures
        r@ == storage_dir_of(name@),
{
    let root = chars_of("./storage");
    let slash = vec!['/'];
    let under = vec!['_', '_'];
    assert(slash@ == seq!['/']);
    assert(under@ == seq!['_', '_']);
    let component = replace_chars(name, &slash, &under);
    join_paths(&root, &component)
}

/// The directory that holds the tarballs of package `name`.
pub fn storage_dir(name: &str) -> (r: String)
    ensures
        r@ == storage_dir_of(name@),
{
    let n = chars_of(name);
    let d = storage_dir_chars(&n);
    string_of(&d)
}

/// The full name `@scope/name` of a scoped package.
pub open spec fn scoped(scope: Seq<char>, name: Seq<char>) -> Seq<char> {
    seq!['@'] + scope + seq!['/'] + name
}

/// The full name `@scope/name` of a scoped package.
pub fn scoped_name(scope: &str, name: &str) -> (r: String)
    ensures
        r@ == scoped(scope@, name@),
{
    let mut v = vec!['@'];
    extend_str(&mut v, scope);
    v.push('/');
    extend_str(&mut v, name);
    assert(v@ =~= scoped(scope@, name@));
    string_of(&v)
}

/// The file name of the tarball of version `version` of package `name`:
/// `<name with each / made ->-<version>.tgz`.
pub open spec fn tarball_file(name: Seq<char>, version: Seq<char>) -> Seq<char> {
    replace_all(name, seq!['/'], seq!['-']) + seq!['-'] + version + seq!['.', 't', 'g', 'z']
}

pub(crate) fn tarball_file_chars(name: &Vec<char>, version: &Vec<char>) -> (r: Vec<char>)
    ensures
        r@ == tarball_file(name@, version@),
{
    let slash = vec!['/'];
    let dash = vec!['-'];
    assert(slash@ == seq!['/']);
    assert(dash@ == seq!['-']);
    let mut r = replace_chars(name, &slash, &dash);
    r.push('-');
    extend_chars(&mut r, version);
    extend_chars(&mut r, &vec!['.', 't', 'g', 'z']);
    assert(r@ =~= tarball_file(name@, version@));
    r
}

/// The file name of the tarball of version `version` of package `name`.
pub fn tarball_filename(name: &str, version: &str) -> (r: String)
    ensures
        r@ == tarball_file(name@, version@),
{
    let n = chars_of(name);
    let v = chars_of(version);
    string_of(&tarball_file_chars(&n, &v))
}

/// The URL path under which a tarball is served: `/<name>/<version>/-/<file>`.
pub open spec fn tarball_url_path(name: Seq<char>, version: Seq<char>, file: Seq<char>) -> Seq<
    char,
> {
    seq!['/'] + name + seq!['/'] + version + seq!['/', '-', '/'] + file
}

pub(crate) fn tarball_path_chars(name: &Vec<char>, version: &Vec<char>, file: &Vec<char>) -> (r: Vec<char>)
    ensures
        r@ == tarball_url_path(name@, version@, file@),
{
    let mut r = vec!['/'];
    extend_chars(&mut r, name);
    r.push('/');
    extend_chars(&mut r, version);
    extend_chars(&mut r, &vec!['/', '-', '/']);
    extend_chars(&mut r, file);
    assert(r@ =~= tarball_url_path(name@, version@, file@));
    r
}

/// The URL path under which the tarball `file` of `version` of `name` is served.
pub fn tarball_path(name: &str, version: &str, file: &str) -> (r: String)
    ensures
        r@ == tarball_url_path(name@, version@, file@),
{
    let n = chars_of(name);
    let v = chars_of(version);
    let f = chars_of(file);
    string_of(&tarball_path_chars(&n, &v, &f))
}

/// The registry that unknown packages are fetched from.
pub open spec fn upstream_registry() -> Seq<char> {
    "https://registry.npmjs.org"@
}

/// The upstream URL of the document of package `name`.
pub open spec fn upstream_url_of(name: Seq<char>) -> Seq<char> {
    upstream_registry() + seq!['/'] + name
}

/// The upstream URL of the document of package `name`.
pub fn upstream_url(name: &str) -> (r: String)
    ensures
        r@ == upstream_url_of(name@),
{
    let mut v = chars_of("https://registry.npmjs.org");
    v.push('/');
    extend_str(&mut v, name);
    string_of(&v)
}

/// The file read when tarball `filename` of package `name` is downloaded.
pub open spec fn download_file(name: Seq<char>, filename: Seq<char>) -> Seq<char> {
    join_path(storage_dir_of(name), filename)
}

/// The file read when tarball `filename` of package `name` is downloaded.
pub fn download_path(name: &str, filename: &str) -> (r: String)
    ensures
        r@ == download_file(name@, filename@),
{
    let n = chars_of(name);
    let f = chars_of(filename);
    let d = storage_dir_chars(&n);
    string_of(&join_paths(&d, &f))
}

/// The file read when tarball `filename` of the scoped package
/// `@scope/name` is downloaded.
pub fn download_scoped_path(scope: &str, name: &str, filename: &str) -> (r: String)
    ensures
        r@ == download_file(scoped(scope@, name@), filename@),
{
    let full = scoped_name(scope, name);
    download_path(full.as_str(), filename)
}

} // verus!
