use vstd::prelude::*;
use vstd::string::StringSliceAdditionalSpecFns;
use crate::crypto::{decrypt, encrypt, spec_decrypt};
use crate::error::ApiError;
use crate::text::{
    chars_of, string_of, concat2, concat3, trim_end_char, trim_end_char_exec, trim_start_char,
    trim_start_char_exec,
};
use crate::uploads::is_literal;

verus! {

/// The errors a storage backend reports.
#[derive(Debug)]
pub enum StorageError {
    Configuration(String),
    Io(String),
    Backend(String),
    Authentication(String),
}

/// A file to store under a relative path.
pub struct UploadInput {
    pub path: String,
    pub bytes: Vec<u8>,
    pub content_type: Option<String>,
}

/// Where a stored file ended up.
pub struct UploadResult {
    pub path: String,
    pub url: String,
    pub size: u64,
}

/// The public URL of a stored path: the base URL without trailing slashes, `/`, and the path
/// without leading slashes.
pub open spec fn spec_join_url(base: Seq<char>, path: Seq<char>) -> Seq<char> {
    trim_end_char(base, '/') + "/"@ + trim_start_char(path, '/')
}

/// A public URL joins its two parts with exactly one `/`: the base keeps all
/// but its trailing slashes, the path all but its leading ones.
pub proof fn law_join_url_single_slash(base: Seq<char>, path: Seq<char>)
    ensures
        ({
            let b = trim_end_char(base, '/');
            let p = trim_start_char(path, '/');
            &&& spec_join_url(base, path) == b + "/"@ + p
            &&& b == base.take(b.len() as int)
            &&& p == path.skip(path.len() - p.len())
            &&& b.len() > 0 ==> b.last() != '/'
            &&& p.len() > 0 ==> p[0] != '/'
        }),
{
    crate::text::lemma_trim_end_char_shape(base, '/');
    crate::text::lemma_trim_start_char_shape(path, '/');
}

/// Joins a base URL and a stored path.
pub fn join_url(base: &str, path: &str) -> (r: String)
    ensures
        r@ == spec_join_url(base@, path@),
{
    let b = string_of(&trim_end_char_exec(&chars_of(base), '/'));
    let p = string_of(&trim_start_char_exec(&chars_of(path), '/'));
    concat3(b.as_str(), "/", p.as_str())
}

/// Joins a backend's base directory and a stored path, the same way.
pub fn join_path(base: &str, path: &str) -> (r: String)
    ensures
        r@ == spec_join_url(base@, path@),
{
    join_url(base, path)
}

/// The settings of a storage connection as a client supplies them.
#[allow(inconsistent_fields)]
pub enum StorageInput {
    Local { base_path: String, public_base_url: String },
    Ftp {
        host: String,
        port: Option<i32>,
        username: String,
        password: String,
        base_path: String,
        public_base_url: String,
    },
    Sftp {
        host: String,
        port: Option<i32>,
        username: String,
        password: Option<String>,
        private_key: Option<String>,
        base_path: String,
        public_base_url: String,
    },
}

/// A stored storage connection; secrets are kept encrypted.
pub struct StorageRecord {
    pub id: String,
    pub project_id: String,
    pub kind: String,
    pub host: Option<String>,
    pub port: Option<i32>,
    pub username: Option<String>,
    pub encrypted_password: Option<String>,
    pub encrypted_private_key: Option<String>,
    pub base_path: String,
    pub public_base_url: String,
}

/// An optional secret decrypts to the expected plaintext under `key`.
pub open spec fn opt_decrypts_to(enc: Option<String>, plain: Option<Seq<char>>, key: Seq<char>) -> bool {
    match (enc, plain) {
        (None, None) => true,
        (Some(e), Some(p)) => spec_decrypt(vstd::utf8::encode_utf8(e@), key) == Ok::<Seq<char>, Seq<char>>(p),
        _ => false,
    }
}

/// The view of an optional string.
pub open spec fn ov(o: Option<String>) -> Option<Seq<char>> {
    crate::text::opt_string_view(o)
}

/// The record a storage input becomes, apart from the encrypted secrets.
pub open spec fn record_matches_input(rec: StorageRecord, input: StorageInput, project_id: Seq<char>, id: Seq<char>, key: Seq<char>) -> bool {
    &&& rec.id@ == id
    &&& rec.project_id@ == project_id
    &&& match input {
        StorageInput::Local { base_path, public_base_url } => {
            &&& rec.kind@ == "local"@
            &&& rec.host is None && rec.port is None && rec.username is None
            &&& rec.encrypted_password is None && rec.encrypted_private_key is None
            &&& rec.base_path@ == base_path@ && rec.public_base_url@ == public_base_url@
        },
        StorageInput::Ftp { host, port, username, password, base_path, public_base_url } => {
            &&& rec.kind@ == "ftp"@
            &&& ov(rec.host) == Some(host@)
            &&& rec.port == Some(match port { Some(p) => p, None => 21i32 })
            &&& ov(rec.username) == Some(username@)
            &&& opt_decrypts_to(rec.encrypted_password, Some(password@), key)
            &&& rec.encrypted_private_key is None
            &&& rec.base_path@ == base_path@ && rec.public_base_url@ == public_base_url@
        },
        StorageInput::Sftp { host, port, username, password, private_key, base_path, public_base_url } => {
            &&& rec.kind@ == "sftp"@
            &&& ov(rec.host) == Some(host@)
            &&& rec.port == Some(match port { Some(p) => p, None => 22i32 })
            &&& ov(rec.username) == Some(username@)
            &&& opt_decrypts_to(rec.encrypted_password, ov(password), key)
            &&& opt_decrypts_to(rec.encrypted_private_key, ov(private_key), key)
            &&& rec.base_path@ == base_path@ && rec.public_base_url@ == public_base_url@
        },
    }
}

/// Whether a storage input is refused outright: SFTP needs a password or a private key.
pub open spec fn input_lacks_credentials(input: StorageInput) -> bool {
    input matches StorageInput::Sftp { password, private_key, .. } && password is None && private_key is None
}

/// Whether a plaintext can be encrypted (see `encrypt`).
pub open spec fn encryptable(s: Seq<char>) -> bool {
    vstd::utf8::encode_utf8(s).len() <= crate::crypto::aes_gcm_max_plaintext()
        && vstd::utf8::encode_utf8(s).len() <= usize::MAX / 4
}

/// Whether every secret of an input can be encrypted.
pub open spec fn secrets_encryptable(input: StorageInput) -> bool {
    match input {
        StorageInput::Local { .. } => true,
        StorageInput::Ftp { password, .. } => encryptable(password@),
        StorageInput::Sftp { password, private_key, .. } => (password matches Some(p) ==> encryptable(p@))
            && (private_key matches Some(k) ==> encryptable(k@)),
    }
}

fn encrypt_opt(secret: &Option<String>, key: &str) -> (r: Result<Option<String>, ApiError>)
    ensures
        r matches Ok(e) ==> opt_decrypts_to(e, ov(*secret), key@),
        r is Ok <==> (secret matches Some(s) ==> encryptable(s@)),
        r matches Err(e) ==> (e matches ApiError::Internal(m) && crate::crypto::is_encrypt_fault(m@)),
{
    match secret {
        Some(s) => {
            let e = encrypt(s.as_str(), key)?;
            Ok(Some(e))
        },
        None => Ok(None),
    }
}

/// Builds the stored record of a new storage connection, encrypting its secrets with `key`.
pub fn build_storage(input: &StorageInput, project_id: &str, storage_id: &str, key: &str) -> (r:
    Result<StorageRecord, ApiError>)
    ensures
        r matches Ok(rec) ==> record_matches_input(rec, *input, project_id@, storage_id@, key@),
        r is Ok <==> !input_lacks_credentials(*input) && secrets_encryptable(*input),
        r matches Err(e) ==> if input_lacks_credentials(*input) {
            e.is_validation("sftp requires password or private_key"@)
        } else {
            (e matches ApiError::Internal(m) && crate::crypto::is_encrypt_fault(m@))
        },
{
    match input {
        StorageInput::Local { base_path, public_base_url } => Ok(StorageRecord {
            id: storage_id.to_owned(),
            project_id: project_id.to_owned(),
            kind: "local".to_owned(),
            host: None,
            port: None,
            username: None,
            encrypted_password: None,
            encrypted_private_key: None,
            base_path: base_path.clone(),
            public_base_url: public_base_url.clone(),
        }),
        StorageInput::Ftp { host, port, username, password, base_path, public_base_url } => {
            let enc = encrypt(password.as_str(), key)?;
            Ok(StorageRecord {
                id: storage_id.to_owned(),
                project_id: project_id.to_owned(),
                kind: "ftp".to_owned(),
                host: Some(host.clone()),
                port: Some(match port { Some(p) => *p, None => 21 }),
                username: Some(username.clone()),
                encrypted_password: Some(enc),
                encrypted_private_key: None,
                base_path: base_path.clone(),
                public_base_url: public_base_url.clone(),
            })
        },
        StorageInput::Sftp { host, port, username, password, private_key, base_path, public_base_url } => {
            if password.is_none() && private_key.is_none() {
                return Err(ApiError::validation("sftp requires password or private_key"));
            }
            let enc_password = encrypt_opt(password, key)?;
            let enc_key = encrypt_opt(private_key, key)?;
            Ok(StorageRecord {
                id: storage_id.to_owned(),
                project_id: project_id.to_owned(),
                kind: "sftp".to_owned(),
                host: Some(host.clone()),
                port: Some(match port { Some(p) => *p, None => 22 }),
                username: Some(username.clone()),
                encrypted_password: enc_password,
                encrypted_private_key: enc_key,
                base_path: base_path.clone(),
                public_base_url: public_base_url.clone(),
            })
        },
    }
}

} // verus!

verus! {

/// Changes to a stored storage connection; an empty password or key clears it.
pub struct UpdateRequest {
    pub host: Option<String>,
    pub port: Option<i32>,
    pub username: Option<String>,
    pub password: Option<String>,
    pub private_key: Option<String>,
    pub base_path: Option<String>,
    pub public_base_url: Option<String>,
}

/// How an optional new secret changes a stored encrypted secret.
pub open spec fn secret_updated(old: Option<String>, new: Option<String>, given: Option<String>, key: Seq<char>) -> bool {
    match given {
        None => new == old,
        Some(s) => if s@.len() == 0 {
            new is None
        } else {
            opt_decrypts_to(new, Some(s@), key)
        },
    }
}

/// An optional replacement applied to a field.
pub open spec fn replaced<T>(old: T, new: T, given: Option<T>) -> bool {
    match given {
        Some(v) => new == v,
        None => new == old,
    }
}

/// An optional replacement applied to an optional field.
pub open spec fn replaced_opt<T>(old: Option<T>, new: Option<T>, given: Option<T>) -> bool {
    match given {
        Some(v) => new == Some(v),
        None => new == old,
    }
}

/// Whether an optional new secret can be stored.
pub open spec fn update_secret_ok(given: Option<String>) -> bool {
    given matches Some(s) ==> (s@.len() == 0 || encryptable(s@))
}

fn update_secret(current: Option<String>, given: Option<String>, key: &str) -> (r: Result<Option<String>, ApiError>)
    ensures
        r matches Ok(n) ==> secret_updated(current, n, given, key@),
        r is Ok <==> update_secret_ok(given),
        r matches Err(e) ==> (e matches ApiError::Internal(m) && crate::crypto::is_encrypt_fault(m@)),
{
    match given {
        None => Ok(current),
        Some(s) => {
            if s.as_str().as_bytes().len() == 0 {
                Ok(None)
            } else {
                let e = encrypt(s.as_str(), key)?;
                Ok(Some(e))
            }
        },
    }
}

/// Applies an update to a stored storage connection, encrypting new secrets with `key`.
pub fn apply_update(record: StorageRecord, req: UpdateRequest, key: &str) -> (r: Result<
    StorageRecord,
    ApiError,
>)
    ensures
        r is Ok <==> update_secret_ok(req.password) && update_secret_ok(req.private_key),
        r matches Err(e) ==> (e matches ApiError::Internal(m) && crate::crypto::is_encrypt_fault(m@)),
        r matches Ok(n) ==> {
            &&& n.id == record.id && n.project_id == record.project_id && n.kind == record.kind
            &&& replaced_opt(record.host, n.host, req.host)
            &&& replaced_opt(record.port, n.port, req.port)
            &&& replaced_opt(record.username, n.username, req.username)
            &&& secret_updated(record.encrypted_password, n.encrypted_password, req.password, key@)
            &&& secret_updated(record.encrypted_private_key, n.encrypted_private_key, req.private_key, key@)
            &&& replaced(record.base_path, n.base_path, req.base_path)
            &&& replaced(record.public_base_url, n.public_base_url, req.public_base_url)
        },
{
    let StorageRecord { id, project_id, kind, host, port, username, encrypted_password, encrypted_private_key, base_path, public_base_url } = record;
    let UpdateRequest { host: new_host, port: new_port, username: new_username, password, private_key, base_path: new_base, public_base_url: new_url } = req;
    let host = match new_host { Some(h) => Some(h), None => host };
    let port = match new_port { Some(p) => Some(p), None => port };
    let username = match new_username { Some(u) => Some(u), None => username };
    let encrypted_password = update_secret(encrypted_password, password, key)?;
    let encrypted_private_key = update_secret(encrypted_private_key, private_key, key)?;
    let base_path = match new_base { Some(b) => b, None => base_path };
    let public_base_url = match new_url { Some(u) => u, None => public_base_url };
    Ok(StorageRecord { id, project_id, kind, host, port, username, encrypted_password, encrypted_private_key, base_path, public_base_url })
}

/// Settings of an FTP backend.
pub struct FtpConfig {
    pub host: String,
    pub port: u16,
    pub username: String,
    pub password: String,
    pub base_path: String,
    pub public_base_url: String,
}

/// Settings of an SFTP backend.
pub struct SftpConfig {
    pub host: String,
    pub port: u16,
    pub username: String,
    pub password: Option<String>,
    pub private_key: Option<String>,
    pub base_path: String,
    pub public_base_url: String,
}

/// A storage backend on the local file system.
pub struct LocalStorageAdapter {
    base_path: String,
    public_base_url: String,
}

impl LocalStorageAdapter {
    /// The directory files are stored under.
    pub closed spec fn base_path_spec(&self) -> Seq<char> {
        self.base_path@
    }

    /// The URL that stored paths are published under.
    pub closed spec fn public_base_url_spec(&self) -> Seq<char> {
        self.public_base_url@
    }

    /// A backend rooted at `base_path`, publishing under `public_base_url`.
    pub fn new(base_path: String, public_base_url: String) -> (r: LocalStorageAdapter)
        ensures
            r.base_path_spec() == base_path@,
            r.public_base_url_spec() == public_base_url@,
    {
        LocalStorageAdapter { base_path, public_base_url }
    }

    /// The directory files are stored under.
    pub fn base_path(&self) -> (r: &str)
        ensures
            r@ == self.base_path_spec(),
    {
        self.base_path.as_str()
    }

    /// The URL that stored paths are published under.
    pub fn public_base_url(&self) -> (r: &str)
        ensures
            r@ == self.public_base_url_spec(),
    {
        self.public_base_url.as_str()
    }
}

/// A storage backend on an FTP server.
pub struct FtpStorageAdapter {
    config: FtpConfig,
}

impl FtpStorageAdapter {
    /// The backend's settings.
    pub closed spec fn config_spec(&self) -> FtpConfig {
        self.config
    }

    /// A backend with the given settings.
    pub fn new(config: FtpConfig) -> (r: FtpStorageAdapter)
        ensures
            r.config_spec() == config,
    {
        FtpStorageAdapter { config }
    }

    /// The backend's settings.
    pub fn config(&self) -> (r: &FtpConfig)
        ensures
            *r == self.config_spec(),
    {
        &self.config
    }
}

/// A storage backend on an SFTP server.
pub struct SftpStorageAdapter {
    config: SftpConfig,
}

impl SftpStorageAdapter {
    /// The backend's settings.
    pub closed spec fn config_spec(&self) -> SftpConfig {
        self.config
    }

    /// A backend with the given settings.
    pub fn new(config: SftpConfig) -> (r: SftpStorageAdapter)
        ensures
            r.config_spec() == config,
    {
        SftpStorageAdapter { config }
    }

    /// The backend's settings.
    pub fn config(&self) -> (r: &SftpConfig)
        ensures
            *r == self.config_spec(),
    {
        &self.config
    }
}

/// The backend a stored storage connection opens.
pub enum StorageBackend {
    Local(LocalStorageAdapter),
    Ftp(FtpStorageAdapter),
    Sftp(SftpStorageAdapter),
}

/// An optional stored secret decrypts (when present) to the given plaintext.
pub open spec fn opt_decrypted(enc: Option<String>, plain: Option<String>, key: Seq<char>) -> bool {
    match (enc, plain) {
        (None, None) => true,
        (Some(e), Some(p)) => spec_decrypt(vstd::utf8::encode_utf8(e@), key) == Ok::<Seq<char>, Seq<char>>(p@),
        _ => false,
    }
}

/// Whether an optional stored secret fails to decrypt.
pub open spec fn opt_decrypt_fails(enc: Option<String>, key: Seq<char>) -> bool {
    enc matches Some(e) && spec_decrypt(vstd::utf8::encode_utf8(e@), key) is Err
}

/// The backend a stored connection yields, when everything it needs is present and decrypts.
pub open spec fn backend_matches(rec: StorageRecord, b: StorageBackend, key: Seq<char>) -> bool {
    if rec.kind@ == "local"@ {
        b matches StorageBackend::Local(a) && a.base_path_spec() == rec.base_path@
            && a.public_base_url_spec() == rec.public_base_url@
    } else if rec.kind@ == "ftp"@ {
        b matches StorageBackend::Ftp(a) && {
            let c = a.config_spec();
            &&& ov(rec.host) == Some(c.host@)
            &&& ov(rec.username) == Some(c.username@)
            &&& c.port == (match rec.port { Some(p) => p, None => 21i32 }) as u16
            &&& opt_decrypted(rec.encrypted_password, Some(c.password), key)
            &&& c.base_path@ == rec.base_path@ && c.public_base_url@ == rec.public_base_url@
        }
    } else {
        &&& rec.kind@ == "sftp"@
        &&& b matches StorageBackend::Sftp(a) && {
            let c = a.config_spec();
            &&& ov(rec.host) == Some(c.host@)
            &&& ov(rec.username) == Some(c.username@)
            &&& c.port == (match rec.port { Some(p) => p, None => 22i32 }) as u16
            &&& opt_decrypted(rec.encrypted_password, c.password, key)
            &&& opt_decrypted(rec.encrypted_private_key, c.private_key, key)
            &&& c.base_path@ == rec.base_path@ && c.public_base_url@ == rec.public_base_url@
        }
    }
}

/// Why a stored connection yields no backend, as the message of a validation error; `None`
/// when it yields one or when a secret fails to decrypt.
pub open spec fn backend_refusal(rec: StorageRecord) -> Option<Seq<char>> {
    if rec.kind@ == "local"@ {
        None
    } else if rec.kind@ == "ftp"@ {
        if rec.host is None {
            Some("ftp host missing"@)
        } else if rec.username is None {
            Some("ftp username missing"@)
        } else if rec.encrypted_password is None {
            Some("ftp password missing"@)
        } else {
            None
        }
    } else if rec.kind@ == "sftp"@ {
        if rec.host is None {
            Some("sftp host missing"@)
        } else if rec.username is None {
            Some("sftp username missing"@)
        } else {
            None
        }
    } else {
        Some("unknown storage type: "@ + rec.kind@)
    }
}

/// Whether a secret of the connection fails to decrypt.
pub open spec fn backend_decrypt_fails(rec: StorageRecord, key: Seq<char>) -> bool {
    if rec.kind@ == "ftp"@ {
        opt_decrypt_fails(rec.encrypted_password, key)
    } else if rec.kind@ == "sftp"@ {
        opt_decrypt_fails(rec.encrypted_password, key) || opt_decrypt_fails(rec.encrypted_private_key, key)
    } else {
        false
    }
}

/// The message of an optional stored secret that fails to decrypt.
pub open spec fn decrypt_message(enc: Option<String>, key: Seq<char>) -> Option<Seq<char>> {
    match enc {
        Some(e) => match spec_decrypt(vstd::utf8::encode_utf8(e@), key) {
            Err(m) => Some(m),
            Ok(_) => None,
        },
        None => None,
    }
}

/// The message of the first stored secret of a connection that fails to decrypt: the
/// password, then the private key.
pub open spec fn backend_decrypt_message(rec: StorageRecord, key: Seq<char>) -> Option<Seq<char>> {
    if rec.kind@ == "ftp"@ {
        decrypt_message(rec.encrypted_password, key)
    } else if rec.kind@ == "sftp"@ {
        match decrypt_message(rec.encrypted_password, key) {
            Some(m) => Some(m),
            None => decrypt_message(rec.encrypted_private_key, key),
        }
    } else {
        None
    }
}

fn decrypt_opt(enc: &Option<String>, key: &str) -> (r: Result<Option<String>, ApiError>)
    ensures
        r matches Ok(p) ==> opt_decrypted(*enc, p, key@),
        r is Err <==> opt_decrypt_fails(*enc, key@),
        r matches Err(e) ==> (enc matches Some(c) && spec_decrypt(vstd::utf8::encode_utf8(c@), key@) matches Err(m) && e.is_internal(m)),
{
    match enc {
        Some(e) => {
            let p = decrypt(e.as_str(), key)?;
            Ok(Some(p))
        },
        None => Ok(None),
    }
}

/// Opens the backend that a stored storage connection describes, decrypting its secrets.
pub fn build_adapter(rec: &StorageRecord, key: &str) -> (r: Result<StorageBackend, ApiError>)
    ensures
        r matches Ok(b) ==> backend_matches(*rec, b, key@),
        r is Ok <==> backend_refusal(*rec) is None && !backend_decrypt_fails(*rec, key@),
        r matches Err(e) ==> match backend_refusal(*rec) {
            Some(m) => e.is_validation(m),
            None => backend_decrypt_message(*rec, key@) matches Some(m) && e.is_internal(m),
        },
{
    proof {
        reveal_strlit("local");
        reveal_strlit("ftp");
        reveal_strlit("sftp");
        assert("local"@ != "ftp"@ && "local"@ != "sftp"@ && "ftp"@ != "sftp"@) by {
            assert("local"@.len() != "ftp"@.len() && "local"@.len() != "sftp"@.len() && "ftp"@.len() != "sftp"@.len());
        }
    }
    let kind = rec.kind.as_str();
    if is_literal(kind, "local") {
        return Ok(StorageBackend::Local(LocalStorageAdapter::new(rec.base_path.clone(), rec.public_base_url.clone())));
    }
    if is_literal(kind, "ftp") {
        let host = match &rec.host {
            Some(h) => h.clone(),
            None => return Err(ApiError::validation("ftp host missing")),
        };
        let username = match &rec.username {
            Some(u) => u.clone(),
            None => return Err(ApiError::validation("ftp username missing")),
        };
        let encrypted = match &rec.encrypted_password {
            Some(p) => p,
            None => return Err(ApiError::validation("ftp password missing")),
        };
        let password = decrypt(encrypted.as_str(), key)?;
        let port: i32 = match rec.port { Some(p) => p, None => 21 };
        return Ok(StorageBackend::Ftp(FtpStorageAdapter::new(FtpConfig {
            host,
            port: #[verifier::truncate] (port as u16),
            username,
            password,
            base_path: rec.base_path.clone(),
            public_base_url: rec.public_base_url.clone(),
        })));
    }
    if is_literal(kind, "sftp") {
        let host = match &rec.host {
            Some(h) => h.clone(),
            None => return Err(ApiError::validation("sftp host missing")),
        };
        let username = match &rec.username {
            Some(u) => u.clone(),
            None => return Err(ApiError::validation("sftp username missing")),
        };
        let password = decrypt_opt(&rec.encrypted_password, key)?;
        let private_key = decrypt_opt(&rec.encrypted_private_key, key)?;
        let port: i32 = match rec.port { Some(p) => p, None => 22 };
        return Ok(StorageBackend::Sftp(SftpStorageAdapter::new(SftpConfig {
            host,
            port: #[verifier::truncate] (port as u16),
            username,
            password,
            private_key,
            base_path: rec.base_path.clone(),
            public_base_url: rec.public_base_url.clone(),
        })));
    }
    Err(ApiError::Validation(concat2("unknown storage type: ", kind)))
}

} // verus!

verus! {

/// A request to add a storage connection to a project.
pub struct CreateRequest {
    pub project_id: String,
    pub storage: StorageInput,
}

/// A storage connection as the API shows it: secrets only as whether they are set.
pub struct StorageConnectionView {
    pub id: String,
    pub project_id: String,
    pub kind: String,
    pub host: Option<String>,
    pub port: Option<i32>,
    pub username: Option<String>,
    pub has_password: bool,
    pub has_private_key: bool,
    pub base_path: String,
    pub public_base_url: String,
    pub created_at: String,
    pub updated_at: String,
}

/// Shows a stored connection, with its timestamps as written; the encrypted
/// secrets are not shown, only whether each is set.
pub fn connection_view(rec: StorageRecord, created_at: String, updated_at: String) -> (r: StorageConnectionView)
    ensures
        r.id == rec.id && r.project_id == rec.project_id && r.kind == rec.kind,
        r.host == rec.host && r.port == rec.port && r.username == rec.username,
        r.has_password == rec.encrypted_password is Some,
        r.has_private_key == rec.encrypted_private_key is Some,
        r.base_path == rec.base_path && r.public_base_url == rec.public_base_url,
        r.created_at == created_at && r.updated_at == updated_at,
{
    StorageConnectionView {
        id: rec.id,
        project_id: rec.project_id,
        kind: rec.kind,
        host: rec.host,
        port: rec.port,
        username: rec.username,
        has_password: rec.encrypted_password.is_some(),
        has_private_key: rec.encrypted_private_key.is_some(),
        base_path: rec.base_path,
        public_base_url: rec.public_base_url,
        created_at,
        updated_at,
    }
}

/// The body that reports a connection test: `ok` true, or false with the
/// backend's message.
pub fn test_report(outcome: Result<(), String>) -> (r: crate::json::JsonValue)
    ensures
        match outcome {
            Ok(()) => r@ == crate::json::JsonView::Object(seq![
                ("ok"@, crate::json::JsonView::Bool(true)),
            ]),
            Err(m) => r@ == crate::json::JsonView::Object(seq![
                ("ok"@, crate::json::JsonView::Bool(false)),
                ("message"@, crate::json::JsonView::Str(m@)),
            ]),
        },
{
    match outcome {
        Ok(()) => {
            let fields = vec![crate::json::member("ok", crate::json::JsonValue::Bool(true))];
            proof {
                crate::json::lemma_field_views(fields@);
                assert(crate::json::field_views(fields@) =~= seq![("ok"@, crate::json::JsonView::Bool(true))]);
            }
            crate::json::object(fields)
        },
        Err(m) => {
            let ghost mv = m@;
            let fields = vec![
                crate::json::member("ok", crate::json::JsonValue::Bool(false)),
                crate::json::member("message", crate::json::JsonValue::Str(m)),
            ];
            proof {
                crate::json::lemma_field_views(fields@);
                assert(crate::json::field_views(fields@) =~= seq![
                    ("ok"@, crate::json::JsonView::Bool(false)),
                    ("message"@, crate::json::JsonView::Str(mv)),
                ]);
            }
            crate::json::object(fields)
        },
    }
}

} // verus!
