use vstd::prelude::*;
use crate::text::{chars_of, str_eq};

verus! {

/// Where uploaded files are kept by default.
#[derive(Debug)]
pub enum StorageDriver {
    Local,
    Ftp,
    Sftp,
}

/// What an upload does when the same content is already stored.
#[derive(Debug)]
pub enum DuplicateStrategy {
    ReturnExisting,
    UploadNewCopy,
    RejectDuplicate,
}

/// Why the configuration could not be read: a required variable is missing,
/// or a variable holds a value that cannot be used (with the reason).
#[derive(Debug)]
pub enum ConfigError {
    Missing(&'static str),
    Invalid(&'static str, String),
}

impl View for ConfigError {
    /// The variable's name, and the reason for a value that cannot be used.
    type V = (Seq<char>, Option<Seq<char>>);

    open spec fn view(&self) -> (Seq<char>, Option<Seq<char>>) {
        match self {
            ConfigError::Missing(k) => (k@, None),
            ConfigError::Invalid(k, m) => (k@, Some(m@)),
        }
    }
}

impl ConfigError {
    /// The text that describes the error.
    pub fn message(&self) -> (r: String)
        ensures
            r@ == match self {
                ConfigError::Missing(k) => "missing required environment variable: "@ + k@,
                ConfigError::Invalid(k, m) => "invalid value for "@ + k@ + ": "@ + m@,
            },
    {
        match self {
            ConfigError::Missing(k) => crate::text::concat2("missing required environment variable: ", k),
            ConfigError::Invalid(k, m) => {
                let head = crate::text::concat3("invalid value for ", k, ": ");
                crate::text::concat2(head.as_str(), m.as_str())
            },
        }
    }
}

/// The service's settings. `bind_address` is the text of a socket address;
/// it is read as one where the service starts listening.
pub struct Config {
    pub bind_address: String,
    pub app_url: String,
    pub dashboard_url: String,
    pub database_url: String,
    pub database_max_connections: u32,
    pub database_min_connections: u32,
    pub database_connect_timeout_seconds: u64,
    pub redis_url: String,
    pub jwt_secret: String,
    pub encryption_key: String,
    pub storage_driver: StorageDriver,
    pub local_storage_path: String,
    pub public_base_url: String,
    pub max_upload_size: u64,
    pub auth_rate_limit_per_minute: usize,
    pub upload_rate_limit_per_minute: usize,
    pub default_duplicate_strategy: DuplicateStrategy,
}

/// Why a decimal number could not be read.
#[derive(Debug)]
pub enum IntErrorKind {
    Empty,
    InvalidDigit,
    PosOverflow,
}

/// Whether `c` is an ASCII decimal digit.
pub open spec fn is_digit(c: char) -> bool {
    '0' <= c && c <= '9'
}

/// The value of an ASCII decimal digit.
pub open spec fn digit_value(c: char) -> int {
    (c as int) - ('0' as int)
}

/// Reads the digits of `s` after the value `acc` read so far, left to right:
/// the first character that is not a digit, or the first digit that takes the
/// value past `max`, decides the error.
pub open spec fn read_digits(s: Seq<char>, acc: int, max: int) -> Result<int, IntErrorKind>
    decreases s.len(),
{
    if s.len() == 0 {
        Ok(acc)
    } else if !is_digit(s[0]) {
        Err(IntErrorKind::InvalidDigit)
    } else if acc * 10 + digit_value(s[0]) > max {
        Err(IntErrorKind::PosOverflow)
    } else {
        read_digits(s.drop_first(), acc * 10 + digit_value(s[0]), max)
    }
}

/// How an unsigned integer type up to `max` reads a decimal text: an optional
/// `+` and then digits.
pub open spec fn parse_uint(s: Seq<char>, max: int) -> Result<int, IntErrorKind> {
    if s.len() == 0 {
        Err(IntErrorKind::Empty)
    } else if s == "+"@ || s == "-"@ {
        Err(IntErrorKind::InvalidDigit)
    } else if s[0] == '+' {
        read_digits(s.drop_first(), 0, max)
    } else {
        read_digits(s, 0, max)
    }
}

/// What a reading error says.
pub open spec fn int_error_text(k: IntErrorKind) -> Seq<char> {
    match k {
        IntErrorKind::Empty => "cannot parse integer from empty string"@,
        IntErrorKind::InvalidDigit => "invalid digit found in string"@,
        IntErrorKind::PosOverflow => "number too large to fit in target type"@,
    }
}

/// What a reading error says.
pub fn int_error_message(k: &IntErrorKind) -> (r: &'static str)
    ensures
        r@ == int_error_text(*k),
{
    match k {
        IntErrorKind::Empty => "cannot parse integer from empty string",
        IntErrorKind::InvalidDigit => "invalid digit found in string",
        IntErrorKind::PosOverflow => "number too large to fit in target type",
    }
}

/// Reads a decimal text as an unsigned integer no larger than `max`.
pub fn parse_unsigned(s: &str, max: u64) -> (r: Result<u64, IntErrorKind>)
    ensures
        r matches Ok(v) ==> parse_uint(s@, max as int) == Ok::<int, IntErrorKind>(v as int) && v <= max,
        r matches Err(k) ==> parse_uint(s@, max as int) == Err::<int, IntErrorKind>(k),
{
    let c = chars_of(s);
    let n = c.len();
    if n == 0 {
        return Err(IntErrorKind::Empty);
    }
    if n == 1 && (c[0] == '+' || c[0] == '-') {
        proof {
            reveal_strlit("+");
            reveal_strlit("-");
            assert(c@ == seq![c@[0]]);
            assert(s@ == "+"@ || s@ == "-"@);
        }
        return Err(IntErrorKind::InvalidDigit);
    }
    proof {
        reveal_strlit("+");
        reveal_strlit("-");
        if s@ == "+"@ || s@ == "-"@ {
            assert(s@.len() == 1);
        }
    }
    let start: usize = if c[0] == '+' { 1 } else { 0 };
    let ghost digits = c@.skip(start as int);
    assert(start == 0 ==> digits == c@);
    assert(parse_uint(s@, max as int) == read_digits(digits, 0, max as int));
    let mut acc: u64 = 0;
    let mut i: usize = start;
    while i < n
        invariant
            n == c@.len(),
            c@ == s@,
            start <= i <= n,
            acc <= max,
            parse_uint(s@, max as int) == read_digits(digits, 0, max as int),
            read_digits(digits, 0, max as int) == read_digits(c@.skip(i as int), acc as int, max as int),
        decreases n - i,
    {
        let ch = c[i];
        proof {
            assert(c@.skip(i as int)[0] == ch);
            assert(c@.skip(i as int).drop_first() == c@.skip(i + 1));
        }
        if !('0' <= ch && ch <= '9') {
            return Err(IntErrorKind::InvalidDigit);
        }
        let d: u64 = (ch as u64) - ('0' as u64);
        if d > max || acc > (max - d) / 10 {
            assert(acc * 10 + d > max) by (nonlinear_arith)
                requires
                    d > max || acc > (max - d) / 10,
            ;
            return Err(IntErrorKind::PosOverflow);
        }
        assert(acc * 10 + d <= max) by (nonlinear_arith)
            requires
                acc <= (max - d) / 10,
                d <= max,
        ;
        acc = acc * 10 + d;
        i = i + 1;
    }
    proof {
        assert(c@.skip(n as int).len() == 0);
    }
    Ok(acc)
}

/// The value the environment gives `key`: the first pair that names it.
pub open spec fn env_lookup(vars: Seq<(String, String)>, key: Seq<char>) -> Option<Seq<char>>
    decreases vars.len(),
{
    if vars.len() == 0 {
        None
    } else if vars[0].0@ == key {
        Some(vars[0].1@)
    } else {
        env_lookup(vars.drop_first(), key)
    }
}

/// The value of an optional variable: one that is set and not empty.
pub open spec fn env_optional(vars: Seq<(String, String)>, key: Seq<char>) -> Option<Seq<char>> {
    match env_lookup(vars, key) {
        Some(v) => if v.len() > 0 { Some(v) } else { None },
        None => None,
    }
}

/// The value of an optional variable, or `default`.
pub open spec fn env_or(vars: Seq<(String, String)>, key: Seq<char>, default: Seq<char>) -> Seq<char> {
    match env_optional(vars, key) {
        Some(v) => v,
        None => default,
    }
}

/// A numeric variable read as an unsigned integer up to `max`, or the reason it
/// cannot be.
pub open spec fn env_number(
    vars: Seq<(String, String)>,
    key: Seq<char>,
    default: Seq<char>,
    max: int,
) -> Result<int, Seq<char>> {
    match parse_uint(env_or(vars, key, default), max) {
        Ok(v) => Ok(v),
        Err(k) => Err(int_error_text(k)),
    }
}

/// The storage driver a value names.
pub open spec fn spec_driver(s: Seq<char>) -> Option<StorageDriver> {
    if s == "local"@ {
        Some(StorageDriver::Local)
    } else if s == "ftp"@ {
        Some(StorageDriver::Ftp)
    } else if s == "sftp"@ {
        Some(StorageDriver::Sftp)
    } else {
        None
    }
}

/// The duplicate strategy a value names.
pub open spec fn spec_duplicate(s: Seq<char>) -> Option<DuplicateStrategy> {
    if s == "return_existing"@ {
        Some(DuplicateStrategy::ReturnExisting)
    } else if s == "upload_new_copy"@ {
        Some(DuplicateStrategy::UploadNewCopy)
    } else if s == "reject_duplicate"@ {
        Some(DuplicateStrategy::RejectDuplicate)
    } else {
        None
    }
}

/// The fault of a numeric variable, if it has one.
pub open spec fn number_fault(
    vars: Seq<(String, String)>,
    key: Seq<char>,
    default: Seq<char>,
    max: int,
) -> Option<(Seq<char>, Option<Seq<char>>)> {
    match env_number(vars, key, default, max) {
        Ok(_) => None,
        Err(m) => Some((key, Some(m))),
    }
}

/// The fault of a required variable, if it is missing.
pub open spec fn missing_fault(vars: Seq<(String, String)>, key: Seq<char>) -> Option<(Seq<char>, Option<Seq<char>>)> {
    if env_lookup(vars, key) is None {
        Some((key, None))
    } else {
        None
    }
}

/// The first of two faults.
pub open spec fn first_fault(
    a: Option<(Seq<char>, Option<Seq<char>>)>,
    b: Option<(Seq<char>, Option<Seq<char>>)>,
) -> Option<(Seq<char>, Option<Seq<char>>)> {
    if a is Some { a } else { b }
}

/// The fault of the storage driver variable: missing, or naming no driver.
pub open spec fn driver_fault(vars: Seq<(String, String)>) -> Option<(Seq<char>, Option<Seq<char>>)> {
    match env_lookup(vars, "STORAGE_DRIVER"@) {
        None => Some(("STORAGE_DRIVER"@, None)),
        Some(v) => if spec_driver(v) is None { Some(("STORAGE_DRIVER"@, Some(v))) } else { None },
    }
}

/// The fault of the duplicate strategy variable: naming no strategy.
pub open spec fn duplicate_fault(vars: Seq<(String, String)>) -> Option<(Seq<char>, Option<Seq<char>>)> {
    let v = env_or(vars, "DEFAULT_DUPLICATE_STRATEGY"@, "return_existing"@);
    if spec_duplicate(v) is None {
        Some(("DEFAULT_DUPLICATE_STRATEGY"@, Some(v)))
    } else {
        None
    }
}

/// The first fault of the environment, in the order the variables are read.
pub open spec fn config_fault(vars: Seq<(String, String)>) -> Option<(Seq<char>, Option<Seq<char>>)> {
    first_fault(missing_fault(vars, "APP_URL"@),
    first_fault(missing_fault(vars, "DASHBOARD_URL"@),
    first_fault(missing_fault(vars, "DATABASE_URL"@),
    first_fault(number_fault(vars, "DATABASE_MAX_CONNECTIONS"@, "10"@, u32::MAX as int),
    first_fault(number_fault(vars, "DATABASE_MIN_CONNECTIONS"@, "1"@, u32::MAX as int),
    first_fault(number_fault(vars, "DATABASE_CONNECT_TIMEOUT_SECONDS"@, "5"@, u64::MAX as int),
    first_fault(missing_fault(vars, "REDIS_URL"@),
    first_fault(missing_fault(vars, "JWT_SECRET"@),
    first_fault(missing_fault(vars, "ENCRYPTION_KEY"@),
    first_fault(driver_fault(vars),
    first_fault(missing_fault(vars, "PUBLIC_BASE_URL"@),
    first_fault(number_fault(vars, "MAX_UPLOAD_SIZE"@, "10485760"@, u64::MAX as int),
    first_fault(number_fault(vars, "AUTH_RATE_LIMIT_PER_MINUTE"@, "10"@, usize::MAX as int),
    first_fault(number_fault(vars, "UPLOAD_RATE_LIMIT_PER_MINUTE"@, "60"@, usize::MAX as int),
    duplicate_fault(vars)))))))))))))))
}

/// The value the environment gives `key`.
fn lookup(vars: &Vec<(String, String)>, key: &str) -> (r: Option<String>)
    ensures
        match r {
            Some(v) => env_lookup(vars@, key@) == Some(v@),
            None => env_lookup(vars@, key@) is None,
        },
{
    let n = vars.len();
    assert(vars@.skip(0) == vars@);
    for i in 0..n
        invariant
            n == vars@.len(),
            env_lookup(vars@, key@) == env_lookup(vars@.skip(i as int), key@),
    {
        proof {
            assert(vars@.skip(i as int)[0] == vars@[i as int]);
            assert(vars@.skip(i as int).drop_first() == vars@.skip(i + 1));
        }
        if str_eq(vars[i].0.as_str(), key) {
            return Some(vars[i].1.clone());
        }
    }
    proof {
        assert(vars@.skip(n as int).len() == 0);
    }
    None
}

/// A required variable.
fn required(vars: &Vec<(String, String)>, key: &'static str) -> (r: Result<String, ConfigError>)
    ensures
        match r {
            Ok(v) => env_lookup(vars@, key@) == Some(v@),
            Err(e) => env_lookup(vars@, key@) is None && e@ == (key@, None::<Seq<char>>),
        },
{
    match lookup(vars, key) {
        Some(v) => Ok(v),
        None => Err(ConfigError::Missing(key)),
    }
}

/// An optional variable, or `default`.
fn optional_or(vars: &Vec<(String, String)>, key: &str, default: &str) -> (r: String)
    ensures
        r@ == env_or(vars@, key@, default@),
{
    match lookup(vars, key) {
        Some(v) => if chars_of(v.as_str()).len() > 0 { v } else { default.to_owned() },
        None => default.to_owned(),
    }
}

/// A numeric variable, or `default`, read as an unsigned integer up to `max`.
fn number(vars: &Vec<(String, String)>, key: &'static str, default: &str, max: u64) -> (r: Result<u64, ConfigError>)
    ensures
        match r {
            Ok(v) => env_number(vars@, key@, default@, max as int) == Ok::<int, Seq<char>>(v as int) && v <= max,
            Err(e) => env_number(vars@, key@, default@, max as int) matches Err(m) && e@ == (key@, Some(m)),
        },
{
    let text = optional_or(vars, key, default);
    match parse_unsigned(text.as_str(), max) {
        Ok(v) => Ok(v),
        Err(k) => Err(ConfigError::Invalid(key, int_error_message(&k).to_owned())),
    }
}

impl Config {
    /// Reads the settings from the environment's variables, given as the
    /// (name, value) pairs that are set and readable as text. A required
    /// variable may be empty; an optional one that is empty takes its default.
    /// The listening address (`BIND_ADDRESS`, else `0.0.0.0:8080`) is read as a
    /// socket address by the caller, and `address_fault` is the reader's
    /// complaint about it, if it has one; that refusal comes first. Otherwise
    /// the result is an error exactly when `config_fault` names one, and then
    /// it is that error.
    pub fn from_vars(vars: &Vec<(String, String)>, address_fault: Option<String>) -> (r: Result<Config, ConfigError>)
        ensures
            r is Ok <==> address_fault is None && config_fault(vars@) is None,
            r matches Err(e) ==> match address_fault {
                Some(m) => e@ == ("BIND_ADDRESS"@, Some(m@)),
                None => config_fault(vars@) == Some(e@),
            },
            r matches Ok(c) ==> {
                &&& c.bind_address@ == env_or(vars@, "BIND_ADDRESS"@, "0.0.0.0:8080"@)
                &&& env_lookup(vars@, "APP_URL"@) == Some(c.app_url@)
                &&& env_lookup(vars@, "DASHBOARD_URL"@) == Some(c.dashboard_url@)
                &&& env_lookup(vars@, "DATABASE_URL"@) == Some(c.database_url@)
                &&& env_number(vars@, "DATABASE_MAX_CONNECTIONS"@, "10"@, u32::MAX as int)
                    == Ok::<int, Seq<char>>(c.database_max_connections as int)
                &&& env_number(vars@, "DATABASE_MIN_CONNECTIONS"@, "1"@, u32::MAX as int)
                    == Ok::<int, Seq<char>>(c.database_min_connections as int)
                &&& env_number(vars@, "DATABASE_CONNECT_TIMEOUT_SECONDS"@, "5"@, u64::MAX as int)
                    == Ok::<int, Seq<char>>(c.database_connect_timeout_seconds as int)
                &&& env_lookup(vars@, "REDIS_URL"@) == Some(c.redis_url@)
                &&& env_lookup(vars@, "JWT_SECRET"@) == Some(c.jwt_secret@)
                &&& env_lookup(vars@, "ENCRYPTION_KEY"@) == Some(c.encryption_key@)
                &&& env_lookup(vars@, "STORAGE_DRIVER"@) matches Some(d) && spec_driver(d) == Some(c.storage_driver)
                &&& c.local_storage_path@ == env_or(vars@, "LOCAL_STORAGE_PATH"@, "./uploads"@)
                &&& env_lookup(vars@, "PUBLIC_BASE_URL"@) == Some(c.public_base_url@)
                &&& env_number(vars@, "MAX_UPLOAD_SIZE"@, "10485760"@, u64::MAX as int)
                    == Ok::<int, Seq<char>>(c.max_upload_size as int)
                &&& env_number(vars@, "AUTH_RATE_LIMIT_PER_MINUTE"@, "10"@, usize::MAX as int)
                    == Ok::<int, Seq<char>>(c.auth_rate_limit_per_minute as int)
                &&& env_number(vars@, "UPLOAD_RATE_LIMIT_PER_MINUTE"@, "60"@, usize::MAX as int)
                    == Ok::<int, Seq<char>>(c.upload_rate_limit_per_minute as int)
                &&& spec_duplicate(env_or(vars@, "DEFAULT_DUPLICATE_STRATEGY"@, "return_existing"@))
                    == Some(c.default_duplicate_strategy)
            },
    {
        if let Some(m) = address_fault {
            return Err(ConfigError::Invalid("BIND_ADDRESS", m));
        }
        let bind_address = optional_or(vars, "BIND_ADDRESS", "0.0.0.0:8080");
        let app_url = match required(vars, "APP_URL") { Ok(v) => v, Err(e) => return Err(e) };
        let dashboard_url = match required(vars, "DASHBOARD_URL") { Ok(v) => v, Err(e) => return Err(e) };
        let database_url = match required(vars, "DATABASE_URL") { Ok(v) => v, Err(e) => return Err(e) };
        let max_conn = match number(vars, "DATABASE_MAX_CONNECTIONS", "10", u32::MAX as u64) {
            Ok(v) => v,
            Err(e) => return Err(e),
        };
        let min_conn = match number(vars, "DATABASE_MIN_CONNECTIONS", "1", u32::MAX as u64) {
            Ok(v) => v,
            Err(e) => return Err(e),
        };
        let timeout = match number(vars, "DATABASE_CONNECT_TIMEOUT_SECONDS", "5", u64::MAX) {
            Ok(v) => v,
            Err(e) => return Err(e),
        };
        let redis_url = match required(vars, "REDIS_URL") { Ok(v) => v, Err(e) => return Err(e) };
        let jwt_secret = match required(vars, "JWT_SECRET") { Ok(v) => v, Err(e) => return Err(e) };
        let encryption_key = match required(vars, "ENCRYPTION_KEY") { Ok(v) => v, Err(e) => return Err(e) };
        let driver_text = match required(vars, "STORAGE_DRIVER") { Ok(v) => v, Err(e) => return Err(e) };
        let storage_driver = if str_eq(driver_text.as_str(), "local") {
            StorageDriver::Local
        } else if str_eq(driver_text.as_str(), "ftp") {
            StorageDriver::Ftp
        } else if str_eq(driver_text.as_str(), "sftp") {
            StorageDriver::Sftp
        } else {
            return Err(ConfigError::Invalid("STORAGE_DRIVER", driver_text));
        };
        let local_storage_path = optional_or(vars, "LOCAL_STORAGE_PATH", "./uploads");
        let public_base_url = match required(vars, "PUBLIC_BASE_URL") { Ok(v) => v, Err(e) => return Err(e) };
        let max_upload_size = match number(vars, "MAX_UPLOAD_SIZE", "10485760", u64::MAX) {
            Ok(v) => v,
            Err(e) => return Err(e),
        };
        let auth_limit = match number(vars, "AUTH_RATE_LIMIT_PER_MINUTE", "10", usize::MAX as u64) {
            Ok(v) => v,
            Err(e) => return Err(e),
        };
        let upload_limit = match number(vars, "UPLOAD_RATE_LIMIT_PER_MINUTE", "60", usize::MAX as u64) {
            Ok(v) => v,
            Err(e) => return Err(e),
        };
        let dup_text = optional_or(vars, "DEFAULT_DUPLICATE_STRATEGY", "return_existing");
        let default_duplicate_strategy = if str_eq(dup_text.as_str(), "return_existing") {
            DuplicateStrategy::ReturnExisting
        } else if str_eq(dup_text.as_str(), "upload_new_copy") {
            DuplicateStrategy::UploadNewCopy
        } else if str_eq(dup_text.as_str(), "reject_duplicate") {
            DuplicateStrategy::RejectDuplicate
        } else {
            return Err(ConfigError::Invalid("DEFAULT_DUPLICATE_STRATEGY", dup_text));
        };
        Ok(Config {
            bind_address,
            app_url,
            dashboard_url,
            database_url,
            database_max_connections: max_conn as u32,
            database_min_connections: min_conn as u32,
            database_connect_timeout_seconds: timeout,
            redis_url,
            jwt_secret,
            encryption_key,
            storage_driver,
            local_storage_path,
            public_base_url,
            max_upload_size,
            auth_rate_limit_per_minute: auth_limit as usize,
            upload_rate_limit_per_minute: upload_limit as usize,
            default_duplicate_strategy,
        })
    }
}

} // verus!
