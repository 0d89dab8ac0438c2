//! The settings of a user: where they are kept, where the password and the
//! key for local data come from, and how they are moved to the keychain.

use crate::records::{
    field_views, fields_of, find_fault, json_fault, json_members, named_values, record_fields, sole_value,
    text_field, text_in_field, u32_field, u32_in_field,
};
use crate::text::{copy_opt, decimal, decimal_text, opt_text, same, strs, texts};
use vstd::prelude::*;

verus! {

/// The name under which secrets are kept in the keychain.
pub const KEYRING_SERVICE: &'static str = "shaon-cli";

/// The version of the record that is kept in the keychain.
pub const KEYRING_SCHEMA_VERSION: u32 = 1;

/// The length of the key for local data, in bytes.
pub const LOCAL_MASTER_KEY_LEN: usize = 32;

// ---------------------------------------------------------------------------
// Keys
// ---------------------------------------------------------------------------

/// What `base64`'s standard engine writes for some bytes.
pub uninterp spec fn base64_encoded(bytes: Seq<u8>) -> Seq<char>;

/// The bytes that `base64`'s standard engine reads in a text, where it is
/// base64.
pub uninterp spec fn base64_decoded(text: Seq<char>) -> Option<Seq<u8>>;

/// Calls `base64::Engine::encode` of the standard engine, which reads back
/// what it writes.
#[verifier::external_body]
pub(crate) fn encode_base64(bytes: &Vec<u8>) -> (text: String)
    ensures
        text@ == base64_encoded(bytes@),
        base64_decoded(text@) == Some(bytes@),
{
    base64::Engine::encode(&base64::engine::general_purpose::STANDARD, bytes)
}

/// The bytes of an optional list.
pub open spec fn opt_bytes(bytes: Option<Vec<u8>>) -> Option<Seq<u8>> {
    match bytes {
        Some(bytes) => Some(bytes@),
        None => None,
    }
}

/// Calls `base64::Engine::decode` of the standard engine.
#[verifier::external_body]
fn decode_base64(text: &str) -> (bytes: Option<Vec<u8>>)
    ensures
        opt_bytes(bytes) == base64_decoded(text@),
{
    base64::Engine::decode(&base64::engine::general_purpose::STANDARD, text).ok()
}

/// Calls `rand::RngCore::fill_bytes` of the operating system's generator.
/// Nothing is said of the bytes but their number. Where the generator fails,
/// which no argument decides, the call panics.
#[verifier::external_body]
pub(crate) fn random_bytes(count: usize) -> (bytes: Vec<u8>)
    ensures
        bytes@.len() == count,
{
    let mut bytes = vec![0_u8; count];
    rand::RngCore::fill_bytes(&mut rand::rngs::OsRng, &mut bytes);
    bytes
}

/// The key that a text stands for, or what is wrong with it.
pub open spec fn key_in(encoded: Seq<char>) -> Result<Seq<u8>, Seq<char>> {
    match base64_decoded(encoded) {
        Some(bytes) => if bytes.len() == LOCAL_MASTER_KEY_LEN {
            Ok(bytes)
        } else {
            Err("local master key has "@ + decimal(bytes.len()) + " bytes, expected 32"@)
        },
        None => Err("decode SHAON_MASTER_KEY as base64"@),
    }
}

/// The view of a key or an error.
pub open spec fn key_view(key: Result<Vec<u8>, String>) -> Result<Seq<u8>, Seq<char>> {
    match key {
        Ok(key) => Ok(key@),
        Err(message) => Err(message@),
    }
}

/// Writes a key as text. What is written can be read back.
pub fn encode_local_master_key(key: &Vec<u8>) -> (encoded: String)
    requires
        key@.len() == LOCAL_MASTER_KEY_LEN,
    ensures
        encoded@ == base64_encoded(key@),
        key_in(encoded@) == Ok::<Seq<u8>, Seq<char>>(key@),
{
    encode_base64(key)
}

/// Reads a key.
pub fn decode_local_master_key(encoded: &str) -> (key: Result<Vec<u8>, String>)
    ensures
        key_view(key) == key_in(encoded@),
{
    match decode_base64(encoded) {
        Some(bytes) => {
            if bytes.len() == LOCAL_MASTER_KEY_LEN {
                Ok(bytes)
            } else {
                let mut message = "local master key has ".to_owned();
                let count = decimal_text(bytes.len() as u64);
                message.append(count.as_str());
                message.append(" bytes, expected 32");
                Err(message)
            }
        },
        None => Err("decode SHAON_MASTER_KEY as base64".to_owned()),
    }
}

// ---------------------------------------------------------------------------
// The record in the keychain
// ---------------------------------------------------------------------------

/// The record that is kept in the keychain.
pub struct StoredCredentials {
    pub v: u32,
    pub password: String,
    pub local_master_key: String,
}

/// The record in the keychain, as mathematics.
pub struct StoredView {
    pub v: nat,
    pub password: Seq<char>,
    pub local_master_key: Seq<char>,
}

impl View for StoredCredentials {
    type V = StoredView;

    open spec fn view(&self) -> StoredView {
        StoredView {
            v: self.v as nat,
            password: self.password@,
            local_master_key: self.local_master_key@,
        }
    }
}

/// The words for a record of another version.
pub open spec fn version_error(v: nat) -> Seq<char> {
    "unsupported shaon-cli keychain schema version "@ + decimal(v)
}

/// The key of a record, or what is wrong with it.
pub open spec fn stored_key(stored: StoredView) -> Result<Seq<u8>, Seq<char>> {
    if stored.v != KEYRING_SCHEMA_VERSION {
        Err(version_error(stored.v))
    } else {
        key_in(stored.local_master_key)
    }
}

fn version_error_text(v: u32) -> (text: String)
    ensures
        text@ == version_error(v as nat),
{
    let mut text = "unsupported shaon-cli keychain schema version ".to_owned();
    let number = decimal_text(v as u64);
    text.append(number.as_str());
    text
}

impl StoredCredentials {
    /// The record of a password and a key. The key can be read back.
    pub fn new(password: &str, local_master_key: &Vec<u8>) -> (stored: StoredCredentials)
        requires
            local_master_key@.len() == LOCAL_MASTER_KEY_LEN,
        ensures
            stored@ == (StoredView {
                v: KEYRING_SCHEMA_VERSION as nat,
                password: password@,
                local_master_key: base64_encoded(local_master_key@),
            }),
            stored_key(stored@) == Ok::<Seq<u8>, Seq<char>>(local_master_key@),
    {
        StoredCredentials {
            v: KEYRING_SCHEMA_VERSION,
            password: password.to_owned(),
            local_master_key: encode_local_master_key(local_master_key),
        }
    }

    /// The key of the record.
    pub fn decode_local_master_key(&self) -> (key: Result<Vec<u8>, String>)
        ensures
            key_view(key) == stored_key(self@),
    {
        if self.v != KEYRING_SCHEMA_VERSION {
            Err(version_error_text(self.v))
        } else {
            decode_local_master_key(self.local_master_key.as_str())
        }
    }

    /// The record, unless it is of another version.
    pub fn check_version(self) -> (checked: Result<StoredCredentials, String>)
        ensures
            match checked {
                Ok(stored) => self@.v == KEYRING_SCHEMA_VERSION && stored@ == self@,
                Err(message) => self@.v != KEYRING_SCHEMA_VERSION && message@ == version_error(
                    self@.v,
                ),
            },
    {
        if self.v != KEYRING_SCHEMA_VERSION {
            Err(version_error_text(self.v))
        } else {
            Ok(self)
        }
    }

    /// Whether this is the same record as another.
    pub fn same_as(&self, other: &StoredCredentials) -> (answer: bool)
        ensures
            answer == (self@ == other@),
    {
        self.v == other.v && same(self.password.as_str(), other.password.as_str()) && same(
            self.local_master_key.as_str(),
            other.local_master_key.as_str(),
        )
    }
}

/// The fields of the record of the keychain.
pub open spec fn stored_names() -> Seq<Seq<char>> {
    seq!["v"@, "password"@, "local_master_key"@]
}

/// The record that a JSON text holds.
pub open spec fn stored_of(raw: Seq<char>) -> Option<StoredView> {
    match record_fields(raw, stored_names()) {
        Some(fields) => match (
            u32_field(fields[0]),
            text_field(fields[1]),
            text_field(fields[2]),
        ) {
            (Some(v), Some(password), Some(local_master_key)) => Some(
                StoredView { v, password, local_master_key },
            ),
            _ => None,
        },
        None => None,
    }
}

/// The record that a text of the keychain holds, or what is wrong with it.
pub open spec fn stored_in(raw: Seq<char>) -> Result<StoredView, Seq<char>> {
    match (json_fault(raw), stored_of(raw)) {
        (None, Some(stored)) => if stored.v == KEYRING_SCHEMA_VERSION {
            Ok(stored)
        } else {
            Err(version_error(stored.v))
        },
        _ => Err("parse shaon-cli keychain record"@),
    }
}

fn read_stored(raw: &str) -> (stored: Option<StoredCredentials>)
    ensures
        match stored {
            Some(stored) => stored_of(raw@) == Some(stored@),
            None => stored_of(raw@) is None,
        },
{
    let names: Vec<&'static str> = vec!["v", "password", "local_master_key"];
    assert(strs(names@) == stored_names());
    match fields_of(raw, &names) {
        Some(fields) => {
            assert forall|i: int| 0 <= i < 3 implies field_views(fields@)[i] == opt_text(
                #[trigger] fields@[i],
            ) by {}
            let v = u32_in_field(&fields[0]);
            let password = text_in_field(&fields[1]);
            let local_master_key = text_in_field(&fields[2]);
            match (v, password, local_master_key) {
                (Some(v), Some(password), Some(local_master_key)) => Some(
                    StoredCredentials { v, password, local_master_key },
                ),
                _ => None,
            }
        },
        None => None,
    }
}

/// Reads the record that a text of the keychain holds.
pub fn parse_stored_credentials(raw: &str) -> (stored: Result<StoredCredentials, String>)
    ensures
        match (stored, stored_in(raw@)) {
            (Ok(stored), Ok(held)) => stored@ == held,
            (Err(message), Err(held)) => message@ == held,
            _ => false,
        },
{
    if find_fault(raw).is_some() {
        return Err("parse shaon-cli keychain record".to_owned());
    }
    match read_stored(raw) {
        Some(stored) => stored.check_version(),
        None => Err("parse shaon-cli keychain record".to_owned()),
    }
}

/// The value of the one member of a name in an object, as it is written.
pub open spec fn member_in(text: Seq<char>, name: Seq<char>) -> Option<Seq<char>> {
    match json_members(text) {
        Some(members) => match sole_value(members, name) {
            Some(value) => value,
            None => None,
        },
        None => None,
    }
}

/// Calls `serde_json::Value`'s `to_string` on an object of a number and two
/// texts under different names: JSON with each member once, whose values
/// `serde_json::from_str` reads back.
#[verifier::external_body]
fn write_object(number: (&str, u32), first: (&str, &str), second: (&str, &str)) -> (text: String)
    requires
        number.0@ != first.0@,
        number.0@ != second.0@,
        first.0@ != second.0@,
    ensures
        json_fault(text@) is None,
        u32_field(member_in(text@, number.0@)) == Some(number.1 as nat),
        text_field(member_in(text@, first.0@)) == Some(first.1@),
        text_field(member_in(text@, second.0@)) == Some(second.1@),
{
    let mut members = serde_json::Map::new();
    members.insert(number.0.to_string(), serde_json::Value::from(number.1));
    members.insert(first.0.to_string(), serde_json::Value::from(first.1));
    members.insert(second.0.to_string(), serde_json::Value::from(second.1));
    serde_json::Value::Object(members).to_string()
}

impl StoredCredentials {
    /// The record as a text of the keychain, from which it can be read back
    /// where it is of the version at hand.
    pub fn record_text(&self) -> (text: String)
        ensures
            stored_in(text@) == (if self@.v == KEYRING_SCHEMA_VERSION {
                Ok::<StoredView, Seq<char>>(self@)
            } else {
                Err::<StoredView, Seq<char>>(version_error(self@.v))
            }),
    {
        proof {
            reveal_strlit("v");
            reveal_strlit("password");
            reveal_strlit("local_master_key");
            assert("v"@.len() != "password"@.len());
            assert("password"@.len() != "local_master_key"@.len());
            assert("v"@.len() != "local_master_key"@.len());
        }
        let text = write_object(
            ("v", self.v),
            ("password", self.password.as_str()),
            ("local_master_key", self.local_master_key.as_str()),
        );
        proof {
            reveal_with_fuel(named_values, 4);
            let names = stored_names();
            assert(names.drop_last() == seq!["v"@, "password"@]);
            assert(names.drop_last().drop_last() == seq!["v"@]);
            assert(names.drop_last().drop_last().drop_last() == Seq::<Seq<char>>::empty());
        }
        text
    }
}

/// The view of what was read from the keychain.
pub open spec fn read_view(read: Result<Option<StoredCredentials>, String>) -> Result<
    Option<StoredView>,
    Seq<char>,
> {
    match read {
        Ok(Some(stored)) => Ok(Some(stored@)),
        Ok(None) => Ok(None),
        Err(message) => Err(message@),
    }
}

/// What is wrong with what was read after a record was written.
pub open spec fn read_back_error(
    written: StoredView,
    read: Result<Option<StoredView>, Seq<char>>,
) -> Option<Seq<char>> {
    match read {
        Ok(Some(stored)) => if stored == written {
            None
        } else {
            Some("keychain stored different credentials than expected"@)
        },
        Ok(None) => Some("keychain write appeared to succeed but credentials were missing"@),
        Err(message) => Some(
            "keychain write appeared to succeed but read-back failed: "@ + message,
        ),
    }
}

/// Checks what was read after a record was written.
pub fn check_read_back(
    written: &StoredCredentials,
    read: &Result<Option<StoredCredentials>, String>,
) -> (error: Option<String>)
    ensures
        opt_text(error) == read_back_error(written@, read_view(*read)),
{
    match read {
        Ok(Some(stored)) => {
            if stored.same_as(written) {
                None
            } else {
                Some("keychain stored different credentials than expected".to_owned())
            }
        },
        Ok(None) => Some(
            "keychain write appeared to succeed but credentials were missing".to_owned(),
        ),
        Err(message) => {
            let mut error = "keychain write appeared to succeed but read-back failed: ".to_owned();
            error.append(message.as_str());
            Some(error)
        },
    }
}

// ---------------------------------------------------------------------------
// Settings
// ---------------------------------------------------------------------------

/// The settings of a user.
pub struct Config {
    pub subdomain: String,
    pub username: String,
    pub password: Option<String>,
    pub payslip_folder: Option<String>,
    pub payslip_format: Option<String>,
}

/// The settings of a user, as mathematics.
pub struct ConfigView {
    pub subdomain: Seq<char>,
    pub username: Seq<char>,
    pub password: Option<Seq<char>>,
    pub payslip_folder: Option<Seq<char>>,
    pub payslip_format: Option<Seq<char>>,
}

impl View for Config {
    type V = ConfigView;

    open spec fn view(&self) -> ConfigView {
        ConfigView {
            subdomain: self.subdomain@,
            username: self.username@,
            password: opt_text(self.password),
            payslip_folder: opt_text(self.payslip_folder),
            payslip_format: opt_text(self.payslip_format),
        }
    }
}

/// What `str`'s `Debug` writes for a text: in quotes, with escapes.
pub uninterp spec fn debug_form(text: Seq<char>) -> Seq<char>;

/// Calls `str`'s `Debug`.
#[verifier::external_body]
fn write_debug(text: &str) -> (form: String)
    ensures
        form@ == debug_form(text@),
{
    format!("{text:?}")
}

/// An optional text as it is shown.
pub open spec fn opt_debug_form(text: Option<Seq<char>>) -> Seq<char> {
    match text {
        Some(text) => "Some("@ + debug_form(text) + ")"@,
        None => "None"@,
    }
}

fn write_opt_debug(text: &Option<String>) -> (form: String)
    ensures
        form@ == opt_debug_form(opt_text(*text)),
{
    match text {
        Some(text) => {
            let mut form = "Some(".to_owned();
            let inner = write_debug(text.as_str());
            form.append(inner.as_str());
            form.append(")");
            form
        },
        None => "None".to_owned(),
    }
}

/// The settings as they are shown: all but the password.
pub open spec fn config_debug(config: ConfigView) -> Seq<char> {
    "Config { subdomain: "@ + debug_form(config.subdomain) + ", username: "@ + debug_form(
        config.username,
    ) + ", password: \"[REDACTED]\", payslip_folder: "@ + opt_debug_form(config.payslip_folder)
        + ", payslip_format: "@ + opt_debug_form(config.payslip_format) + " }"@
}

/// What is shown of settings does not depend on the password.
pub proof fn the_password_is_not_shown(config: ConfigView, password: Option<Seq<char>>)
    ensures
        config_debug(ConfigView { password, ..config }) == config_debug(config),
{
}

/// A value of the environment, where it is not empty.
pub open spec fn non_empty(value: Option<Seq<char>>) -> Option<Seq<char>> {
    match value {
        Some(text) => if text.len() == 0 {
            None
        } else {
            Some(text)
        },
        None => None,
    }
}

/// A value of the environment, where it is not empty.
pub fn nonempty_value(value: Option<String>) -> (kept: Option<String>)
    ensures
        opt_text(kept) == non_empty(opt_text(value)),
{
    match value {
        Some(text) => {
            if text.as_str().is_empty() {
                None
            } else {
                Some(text)
            }
        },
        None => None,
    }
}

/// Where a password came from.
#[derive(Debug, Clone, Copy, PartialEq, Eq, Structural)]
pub enum PasswordSource {
    Environment,
    Keychain,
    /// The settings themselves, in plain text.
    Settings,
}

/// The words for a password that is nowhere.
pub open spec fn no_password_error() -> Seq<char> {
    "No password found. Set SHAON_PASSWORD env var, run `shaon auth`, or add password to ~/.shaon/config.toml"@
}

/// The password and where it came from: the environment, else the keychain,
/// else the settings.
pub open spec fn password_for(
    config: ConfigView,
    env: Option<Seq<char>>,
    stored: Result<Option<StoredView>, Seq<char>>,
) -> Result<(Seq<char>, PasswordSource), Seq<char>> {
    match non_empty(env) {
        Some(password) => Ok((password, PasswordSource::Environment)),
        None => match stored {
            Ok(Some(credentials)) => Ok((credentials.password, PasswordSource::Keychain)),
            Ok(None) => match config.password {
                Some(password) => Ok((password, PasswordSource::Settings)),
                None => Err(no_password_error()),
            },
            Err(message) => Err(message),
        },
    }
}

/// The key for local data: from the environment, else from the keychain.
pub open spec fn master_key_for(
    env: Option<Seq<char>>,
    stored: Result<Option<StoredView>, Seq<char>>,
) -> Result<Seq<u8>, Seq<char>> {
    match non_empty(env) {
        Some(encoded) => key_in(encoded),
        None => match stored {
            Ok(Some(credentials)) => stored_key(credentials),
            Ok(None) => Err(
                "No local master key found. Set SHAON_MASTER_KEY env var or run `shaon auth`"@,
            ),
            Err(message) => Err(message),
        },
    }
}

impl Config {
    /// A copy of the settings.
    pub fn copy(&self) -> (copy: Config)
        ensures
            copy@ == self@,
    {
        Config {
            subdomain: self.subdomain.clone(),
            username: self.username.clone(),
            password: copy_opt(&self.password),
            payslip_folder: copy_opt(&self.payslip_folder),
            payslip_format: copy_opt(&self.payslip_format),
        }
    }

    /// The settings as they are shown: all but the password.
    pub fn debug_text(&self) -> (text: String)
        ensures
            text@ == config_debug(self@),
    {
        let mut text = "Config { subdomain: ".to_owned();
        let subdomain = write_debug(self.subdomain.as_str());
        text.append(subdomain.as_str());
        text.append(", username: ");
        let username = write_debug(self.username.as_str());
        text.append(username.as_str());
        text.append(", password: \"[REDACTED]\", payslip_folder: ");
        let folder = write_opt_debug(&self.payslip_folder);
        text.append(folder.as_str());
        text.append(", payslip_format: ");
        let format = write_opt_debug(&self.payslip_format);
        text.append(format.as_str());
        text.append(" }");
        text
    }

    /// The password and where it came from, given what the environment and the
    /// keychain hold.
    pub fn get_password(
        &self,
        env: Option<String>,
        stored: Result<Option<StoredCredentials>, String>,
    ) -> (password: Result<(String, PasswordSource), String>)
        ensures
            match password {
                Ok(found) => password_for(self@, opt_text(env), read_view(stored)) == Ok::<
                    (Seq<char>, PasswordSource),
                    Seq<char>,
                >((found.0@, found.1)),
                Err(message) => password_for(self@, opt_text(env), read_view(stored)) == Err::<
                    (Seq<char>, PasswordSource),
                    Seq<char>,
                >(message@),
            },
    {
        if let Some(password) = nonempty_value(env) {
            return Ok((password, PasswordSource::Environment));
        }
        match stored {
            Ok(Some(credentials)) => Ok((credentials.password, PasswordSource::Keychain)),
            Ok(None) => match &self.password {
                Some(password) => Ok((password.clone(), PasswordSource::Settings)),
                None => Err(
                    "No password found. Set SHAON_PASSWORD env var, run `shaon auth`, or add password to ~/.shaon/config.toml".to_owned(),
                ),
            },
            Err(message) => Err(message),
        }
    }

    /// The key for local data, given what the environment and the keychain
    /// hold.
    pub fn get_local_master_key(
        &self,
        env: Option<String>,
        stored: Result<Option<StoredCredentials>, String>,
    ) -> (key: Result<Vec<u8>, String>)
        ensures
            key_view(key) == master_key_for(opt_text(env), read_view(stored)),
            key matches Ok(key) ==> key@.len() == LOCAL_MASTER_KEY_LEN,
    {
        if let Some(encoded) = nonempty_value(env) {
            return decode_local_master_key(encoded.as_str());
        }
        match stored {
            Ok(Some(credentials)) => credentials.decode_local_master_key(),
            Ok(None) => Err(
                "No local master key found. Set SHAON_MASTER_KEY env var or run `shaon auth`".to_owned(),
            ),
            Err(message) => Err(message),
        }
    }

    /// Whether local data is left alone: where the environment gives a
    /// password and no key.
    pub fn should_skip_local_cache(
        &self,
        env_password: Option<String>,
        env_master_key: Option<String>,
    ) -> (answer: bool)
        ensures
            answer == (non_empty(opt_text(env_password)) is Some && non_empty(
                opt_text(env_master_key),
            ) is None),
    {
        nonempty_value(env_password).is_some() && nonempty_value(env_master_key).is_none()
    }

    /// Credentials that are to be stored, with a new key.
    pub fn prepare_stored_credentials(&self, password: String) -> (pending: PendingStoredCredentials)
        ensures
            pending.config@ == self@,
            pending.password@ == password@,
            !pending.clear_plaintext_password,
            pending.local_master_key@.len() == LOCAL_MASTER_KEY_LEN,
    {
        let key = random_bytes(LOCAL_MASTER_KEY_LEN);
        self.pending_with_key(password, key)
    }

    /// Credentials that are to be stored, with this key.
    pub fn pending_with_key(&self, password: String, key: Vec<u8>) -> (pending:
        PendingStoredCredentials)
        requires
            key@.len() == LOCAL_MASTER_KEY_LEN,
        ensures
            pending.config@ == self@,
            pending.password@ == password@,
            pending.local_master_key@ == key@,
            !pending.clear_plaintext_password,
    {
        PendingStoredCredentials {
            config: self.copy(),
            password,
            local_master_key: key,
            clear_plaintext_password: false,
        }
    }

    /// The password of the settings as credentials that are to be stored,
    /// after which it is taken out of the settings.
    pub fn prepare_migration(&self) -> (pending: Result<PendingStoredCredentials, String>)
        ensures
            match pending {
                Ok(pending) => self@.password == Some(pending.password@) && pending.config@ == self@
                    && pending.clear_plaintext_password && pending.local_master_key@.len()
                    == LOCAL_MASTER_KEY_LEN,
                Err(message) => self@.password is None && message@
                    == "No plaintext password in config to migrate"@,
            },
    {
        match &self.password {
            Some(password) => {
                let mut pending = self.prepare_stored_credentials(password.clone());
                pending.clear_plaintext_password = true;
                Ok(pending)
            },
            None => Err("No plaintext password in config to migrate".to_owned()),
        }
    }

    /// How payslip files are named.
    pub fn payslip_fmt(&self) -> (format: &str)
        ensures
            format@ == payslip_pattern(self@),
    {
        match &self.payslip_format {
            Some(format) => format.as_str(),
            None => "%Y-%m.pdf",
        }
    }
}

/// The pattern that payslip files are named after.
pub open spec fn payslip_pattern(config: ConfigView) -> Seq<char> {
    match config.payslip_format {
        Some(format) => format,
        None => "%Y-%m.pdf"@,
    }
}

/// Credentials that are to be stored.
pub struct PendingStoredCredentials {
    pub config: Config,
    pub password: String,
    pub local_master_key: Vec<u8>,
    pub clear_plaintext_password: bool,
}

impl PendingStoredCredentials {
    /// The settings to sign in with: those given, with the new password.
    pub fn login_config(&self) -> (config: Config)
        ensures
            config@ == (ConfigView { password: Some(self.password@), ..self.config@ }),
    {
        let mut config = self.config.copy();
        config.password = Some(self.password.clone());
        config
    }

    /// The record that is to be written to the keychain.
    pub fn record(&self) -> (stored: StoredCredentials)
        requires
            self.local_master_key@.len() == LOCAL_MASTER_KEY_LEN,
        ensures
            stored@.v == KEYRING_SCHEMA_VERSION,
            stored@.password == self.password@,
            stored_key(stored@) == Ok::<Seq<u8>, Seq<char>>(self.local_master_key@),
    {
        StoredCredentials::new(self.password.as_str(), &self.local_master_key)
    }
}

/// Where an organization's data is kept, below the home directory.
pub fn subdomain_dir(subdomain: &str) -> (path: Vec<String>)
    ensures
        texts(path@) == seq![".shaon"@, subdomain@],
{
    let path: Vec<String> = vec![".shaon".to_owned(), subdomain.to_owned()];
    assert(texts(path@) == seq![".shaon"@, subdomain@]);
    path
}

/// Where the settings are kept, below the home directory.
pub fn config_path() -> (path: Vec<String>)
    ensures
        texts(path@) == seq![".shaon"@, "config.toml"@],
{
    let path: Vec<String> = vec![".shaon".to_owned(), "config.toml".to_owned()];
    assert(texts(path@) == seq![".shaon"@, "config.toml"@]);
    path
}

/// The account under which a user's secrets are kept.
pub fn keyring_account(subdomain: &str, username: &str) -> (account: String)
    ensures
        account@ == subdomain@ + "/"@ + username@,
{
    let mut account = subdomain.to_owned();
    account.append("/");
    account.append(username);
    account
}

} // verus!
