use vstd::prelude::*;
use crate::storage::{
    StorageError, UploadResult, LocalStorageAdapter, FtpStorageAdapter, SftpStorageAdapter,
    SftpConfig, spec_join_url, join_url,
};
use crate::text::{
    chars_of, string_of, seq_eq, has_prefix, has_suffix, contains_exec, contains_seq,
    starts_with, ends_with, rfind_char, last_index_of, slice_vec, extend_chars, lowercase,
    to_lowercase,
};
use crate::uploads::is_literal;

verus! {

/// Whether a relative storage path has a component other than a plain name, the way
/// `Path::components` reads it on Unix: a root, a leading `.`, or a `..` anywhere.
pub open spec fn has_special_component(rel: Seq<char>) -> bool {
    ||| starts_with(rel, "/"@)
    ||| rel == "."@
    ||| starts_with(rel, "./"@)
    ||| rel == ".."@
    ||| starts_with(rel, "../"@)
    ||| ends_with(rel, "/.."@)
    ||| contains_seq(rel, "/../"@)
}

/// Checks that a path given to the local backend is made of plain names only.
pub fn check_relative_path(rel: &str) -> (r: Result<(), StorageError>)
    ensures
        r is Ok <==> !has_special_component(rel@),
        r matches Err(e) ==> e is Configuration,
{
    let c = chars_of(rel);
    let special = has_prefix(&c, &chars_of("/")) || seq_eq(&c, &chars_of(".")) || has_prefix(
        &c,
        &chars_of("./"),
    ) || seq_eq(&c, &chars_of("..")) || has_prefix(&c, &chars_of("../")) || has_suffix(
        &c,
        &chars_of("/.."),
    ) || contains_exec(&c, &chars_of("/../"));
    if special {
        return Err(StorageError::Configuration(crate::text::concat3("invalid path component in \"", rel, "\"")));
    }
    Ok(())
}

/// One step of splitting a path at `/`: finished segments and the segment being read.
pub open spec fn split_step(st: (Seq<Seq<char>>, Seq<char>), c: char) -> (Seq<Seq<char>>, Seq<char>) {
    if c == '/' {
        if st.1.len() > 0 {
            (st.0.push(st.1), Seq::empty())
        } else {
            (st.0, Seq::empty())
        }
    } else {
        (st.0, st.1.push(c))
    }
}

/// The state after reading all of `s`.
pub open spec fn split_state(s: Seq<char>) -> (Seq<Seq<char>>, Seq<char>)
    decreases s.len(),
{
    if s.len() == 0 {
        (Seq::empty(), Seq::empty())
    } else {
        split_step(split_state(s.drop_last()), s.last())
    }
}

/// The non-empty `/`-separated segments of a path, in order.
pub open spec fn path_segments(s: Seq<char>) -> Seq<Seq<char>> {
    let st = split_state(s);
    if st.1.len() > 0 {
        st.0.push(st.1)
    } else {
        st.0
    }
}

/// The directories an FTP upload creates, outermost first: `/a`, `/a/b`, ... for the
/// segments of `dir`.
pub open spec fn dir_chain(segments: Seq<Seq<char>>) -> Seq<Seq<char>>
    decreases segments.len(),
{
    if segments.len() == 0 {
        Seq::empty()
    } else {
        let prev = dir_chain(segments.drop_last());
        let base = if prev.len() == 0 { Seq::empty() } else { prev.last() };
        prev.push(base + "/"@ + segments.last())
    }
}

/// The non-empty segments of a path.
pub fn split_segments(s: &str) -> (r: Vec<String>)
    ensures
        crate::uploads::views(r@) == path_segments(s@),
{
    let c = chars_of(s);
    let mut done: Vec<String> = Vec::new();
    let mut cur: Vec<char> = Vec::new();
    let n = c.len();
    for i in 0..n
        invariant
            n == c@.len(),
            c@ == s@,
            (crate::uploads::views(done@), cur@) == split_state(c@.take(i as int)),
    {
        proof {
            assert(c@.take(i + 1).drop_last() == c@.take(i as int));
        }
        if c[i] == '/' {
            if cur.len() > 0 {
                let ghost before = done@;
                done.push(string_of(&cur));
                assert(crate::uploads::views(done@) == crate::uploads::views(before).push(cur@));
            }
            cur = Vec::new();
            assert(cur@ == Seq::<char>::empty());
        } else {
            cur.push(c[i]);
        }
    }
    assert(c@.take(n as int) == c@);
    if cur.len() > 0 {
        let ghost before = done@;
        done.push(string_of(&cur));
        assert(crate::uploads::views(done@) == crate::uploads::views(before).push(cur@));
    }
    done
}

/// The directories to create, outermost first, before an FTP upload into `dir`.
pub fn ftp_dir_chain(dir: &str) -> (r: Vec<String>)
    ensures
        crate::uploads::views(r@) == dir_chain(path_segments(dir@)),
{
    let parts = split_segments(dir);
    let mut out: Vec<String> = Vec::new();
    let mut cursor: Vec<char> = Vec::new();
    let n = parts.len();
    for i in 0..n
        invariant
            n == parts@.len(),
            crate::uploads::views(out@) == dir_chain(crate::uploads::views(parts@).take(i as int)),
            out@.len() == i,
            i == 0 ==> cursor@ == Seq::<char>::empty(),
            i > 0 ==> cursor@ == out@[i - 1]@,
    {
        proof {
            assert(crate::uploads::views(parts@).take(i + 1).drop_last() == crate::uploads::views(parts@).take(i as int));
        }
        extend_chars(&mut cursor, &chars_of("/"));
        extend_chars(&mut cursor, &chars_of(parts[i].as_str()));
        let ghost before = out@;
        out.push(string_of(&cursor));
        assert(crate::uploads::views(out@) == crate::uploads::views(before).push(cursor@));
    }
    assert(crate::uploads::views(parts@).take(n as int) == crate::uploads::views(parts@));
    out
}

/// The directory part of a full path: what precedes its last `/`, or nothing.
pub open spec fn parent_dir(full: Seq<char>) -> Seq<char> {
    match last_index_of(full, '/') {
        Some(i) => full.take(i),
        None => Seq::empty(),
    }
}

/// The directory part of a full path.
pub fn parent_of(full: &str) -> (r: String)
    ensures
        r@ == parent_dir(full@),
{
    let c = chars_of(full);
    match rfind_char(&c, '/') {
        Some(i) => string_of(&slice_vec(&c, 0, i)),
        None => string_of(&Vec::new()),
    }
}

/// An FTP delete error that only says the file was not there (reply code 550) is not an error.
pub fn ftp_missing_file(message: &str) -> (r: bool)
    ensures
        r == contains_seq(message@, "550"@),
{
    contains_exec(&chars_of(message), &chars_of("550"))
}

/// An SFTP unlink error that says the file was not there is not an error.
pub fn sftp_missing_file(message: &str) -> (r: bool)
    ensures
        r == (contains_seq(lowercase(message@), "no such file"@) || contains_seq(
            lowercase(message@),
            "not found"@,
        )),
{
    let l = chars_of(to_lowercase(message).as_str());
    contains_exec(&l, &chars_of("no such file")) || contains_exec(&l, &chars_of("not found"))
}

/// How an SFTP session authenticates.
pub enum SftpAuth {
    PublicKey { private_key: String, passphrase: Option<String> },
    Password(String),
}

/// Picks the SFTP authentication: the private key when there is one (the password then
/// serves as its passphrase), otherwise the password.
pub fn sftp_auth(config: &SftpConfig) -> (r: Result<SftpAuth, StorageError>)
    ensures
        match config.private_key {
            Some(k) => r matches Ok(SftpAuth::PublicKey { private_key, passphrase })
                && private_key@ == k@ && crate::storage::ov(passphrase) == crate::storage::ov(config.password),
            None => match config.password {
                Some(p) => r matches Ok(SftpAuth::Password(q)) && q@ == p@,
                None => r matches Err(StorageError::Configuration(m))
                    && m@ == "sftp requires password or private_key"@,
            },
        },
{
    match &config.private_key {
        Some(k) => Ok(SftpAuth::PublicKey { private_key: k.clone(), passphrase: match &config.password {
            Some(p) => Some(p.clone()),
            None => None,
        } }),
        None => match &config.password {
            Some(p) => Ok(SftpAuth::Password(p.clone())),
            None => Err(StorageError::Configuration("sftp requires password or private_key".to_owned())),
        },
    }
}

/// What every storage backend offers without touching the backend itself:
/// the public address of a stored path.
pub trait StorageAdapter {
    /// The public base URL the backend serves files under.
    spec fn base_url(&self) -> Seq<char>;

    /// The public URL of a stored path: the base URL and the path, joined by
    /// one `/`.
    fn public_url(&self, path: &str) -> (r: String)
        ensures
            r@ == spec_join_url(self.base_url(), path@);
}

impl StorageAdapter for LocalStorageAdapter {
    open spec fn base_url(&self) -> Seq<char> {
        self.public_base_url_spec()
    }

    fn public_url(&self, path: &str) -> (r: String) {
        join_url(self.public_base_url(), path)
    }
}

impl StorageAdapter for FtpStorageAdapter {
    open spec fn base_url(&self) -> Seq<char> {
        self.config_spec().public_base_url@
    }

    fn public_url(&self, path: &str) -> (r: String) {
        join_url(self.config().public_base_url.as_str(), path)
    }
}

impl StorageAdapter for SftpStorageAdapter {
    open spec fn base_url(&self) -> Seq<char> {
        self.config_spec().public_base_url@
    }

    fn public_url(&self, path: &str) -> (r: String) {
        join_url(self.config().public_base_url.as_str(), path)
    }
}

/// What a backend reports after storing `size` bytes under `path`.
pub fn upload_result(public_base_url: &str, path: String, size: u64) -> (r: UploadResult)
    ensures
        r.path@ == path@,
        r.url@ == spec_join_url(public_base_url@, path@),
        r.size == size,
{
    let url = join_url(public_base_url, path.as_str());
    UploadResult { path, url, size }
}

} // verus!
