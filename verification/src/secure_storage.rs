//! Secure storage boundary for credentials.
//!
//! This module is the only place that talks to the operating system credential store, through
//! `keyring`. Tokens are never stored in SQLite, returned in a status view, logged, or included in
//! error details: every status a service hands out is one of two fixed texts.
use vstd::prelude::*;

use crate::text::{is_blank, trim, trim_str};

verus! {

pub const SERVICE_NAME: &'static str = "com.astockai.workbench";

pub const TUSHARE_ACCOUNT_NAME: &'static str = "tushare-token";

pub const DEEPSEEK_ACCOUNT_NAME: &'static str = "deepseek-api-key";

#[derive(Debug, Clone, Copy, PartialEq, Eq, Structural)]
pub enum SecureStorageError {
    Unavailable,
    OperationFailed,
    EmptyToken,
}

pub open spec fn storage_error_text(e: SecureStorageError) -> Seq<char> {
    match e {
        SecureStorageError::Unavailable => "系统安全凭据库不可用"@,
        SecureStorageError::OperationFailed => "系统安全凭据库操作失败"@,
        SecureStorageError::EmptyToken => "密钥不能为空"@,
    }
}

impl SecureStorageError {
    /// The text the error displays.
    pub fn message(&self) -> (r: String)
        ensures
            r@ == storage_error_text(*self),
    {
        match self {
            SecureStorageError::Unavailable => String::from_str("系统安全凭据库不可用"),
            SecureStorageError::OperationFailed => String::from_str("系统安全凭据库操作失败"),
            SecureStorageError::EmptyToken => String::from_str("密钥不能为空"),
        }
    }
}

/// The status text of a credential that is present.
pub open spec fn configured_text() -> Seq<char> {
    "已配置"@
}

/// The status text of a missing credential.
pub open spec fn unconfigured_text() -> Seq<char> {
    "未配置"@
}

pub open spec fn status_text(configured: bool) -> Seq<char> {
    if configured {
        configured_text()
    } else {
        unconfigured_text()
    }
}

// ---------------------------------------------------------------------------------------------
// The operating system credential store
// ---------------------------------------------------------------------------------------------
/// `keyring::Entry`, the handle of one credential.
#[verifier::external_type_specification]
#[verifier::external_body]
pub struct ExKeyringEntry(keyring::Entry);

/// How a credential store call failed: no credential for the entry, or any other reason.
#[derive(Debug, Clone, Copy, PartialEq, Eq, Structural)]
pub enum KeyringFailure {
    NoEntry,
    Other,
}

/// `keyring::Entry::new(service, user)`, `None` when the platform refuses the entry. What the
/// platform does is not stated.
#[verifier::external_body]
fn keyring_entry(service: &str, user: &str) -> Option<keyring::Entry> {
    keyring::Entry::new(service, user).ok()
}

/// `Entry::get_password`, with `keyring::Error::NoEntry` told apart from every other error.
/// The answer comes from the platform store and is not stated.
#[verifier::external_body]
fn keyring_get_password(entry: &keyring::Entry) -> Result<String, KeyringFailure> {
    match entry.get_password() {
        Ok(password) => Ok(password),
        Err(keyring::Error::NoEntry) => Err(KeyringFailure::NoEntry),
        Err(_) => Err(KeyringFailure::Other),
    }
}

/// `Entry::set_password`. The answer comes from the platform store and is not stated.
#[verifier::external_body]
fn keyring_set_password(entry: &keyring::Entry, password: &str) -> Result<(), KeyringFailure> {
    match entry.set_password(password) {
        Ok(()) => Ok(()),
        Err(keyring::Error::NoEntry) => Err(KeyringFailure::NoEntry),
        Err(_) => Err(KeyringFailure::Other),
    }
}

/// `Entry::delete_credential`. The answer comes from the platform store and is not stated.
#[verifier::external_body]
fn keyring_delete_credential(entry: &keyring::Entry) -> Result<(), KeyringFailure> {
    match entry.delete_credential() {
        Ok(()) => Ok(()),
        Err(keyring::Error::NoEntry) => Err(KeyringFailure::NoEntry),
        Err(_) => Err(KeyringFailure::Other),
    }
}

/// What a read gives for the store's answer: a blank stored value counts as no credential, and
/// so does a missing entry.
pub fn read_outcome(answer: Result<String, KeyringFailure>) -> (r: Result<
    Option<String>,
    SecureStorageError,
>)
    ensures
        match answer {
            Ok(t) => if trim(t@).len() > 0 {
                r == Ok::<Option<String>, SecureStorageError>(Some(t))
            } else {
                r == Ok::<Option<String>, SecureStorageError>(None)
            },
            Err(KeyringFailure::NoEntry) => r == Ok::<Option<String>, SecureStorageError>(None),
            Err(KeyringFailure::Other) => r == Err::<Option<String>, SecureStorageError>(
                SecureStorageError::OperationFailed,
            ),
        },
{
    match answer {
        Ok(token) => if is_blank(token.as_str()) {
            Ok(None)
        } else {
            Ok(Some(token))
        },
        Err(KeyringFailure::NoEntry) => Ok(None),
        Err(KeyringFailure::Other) => Err(SecureStorageError::OperationFailed),
    }
}

/// What a removal gives for the store's answer: an entry that is already gone is removed.
pub fn remove_outcome(answer: Result<(), KeyringFailure>) -> (r: Result<(), SecureStorageError>)
    ensures
        match answer {
            Ok(()) => r is Ok,
            Err(KeyringFailure::NoEntry) => r is Ok,
            Err(KeyringFailure::Other) => r == Err::<(), SecureStorageError>(
                SecureStorageError::OperationFailed,
            ),
        },
        r == remove_outcome_of(answer),
{
    match answer {
        Ok(()) => Ok(()),
        Err(KeyringFailure::NoEntry) => Ok(()),
        Err(KeyringFailure::Other) => Err(SecureStorageError::OperationFailed),
    }
}

/// What a read gives for the store's answer (see `read_outcome`).
pub open spec fn read_outcome_of(answer: Result<String, KeyringFailure>) -> Result<Option<String>, SecureStorageError> {
    match answer {
        Ok(t) => if trim(t@).len() > 0 {
            Ok(Some(t))
        } else {
            Ok(None)
        },
        Err(KeyringFailure::NoEntry) => Ok(None),
        Err(KeyringFailure::Other) => Err(SecureStorageError::OperationFailed),
    }
}

/// What a removal gives for the store's answer (see `remove_outcome`).
pub open spec fn remove_outcome_of(answer: Result<(), KeyringFailure>) -> Result<(), SecureStorageError> {
    match answer {
        Err(KeyringFailure::Other) => Err(SecureStorageError::OperationFailed),
        _ => Ok(()),
    }
}

/// The platform answered a read of the credential of `account` in this service with `answer`:
/// `None` when it refused the entry, otherwise what `get_password` answered for the entry.
pub closed spec fn keychain_read(account: &str, answer: Option<Result<String, KeyringFailure>>) -> bool {
    match answer {
        None => call_ensures(keyring_entry, (SERVICE_NAME, account), None::<keyring::Entry>),
        Some(a) => exists|entry: keyring::Entry|
            #![auto]
            call_ensures(keyring_entry, (SERVICE_NAME, account), Some(entry)) && call_ensures(
                keyring_get_password,
                (&entry,),
                a,
            ),
    }
}

/// The platform answered the writing of `value` as the credential of `account` with `answer`:
/// `None` when it refused the entry, otherwise what `set_password` answered for the entry.
pub closed spec fn keychain_write(
    account: &str,
    value: Seq<char>,
    answer: Option<Result<(), KeyringFailure>>,
) -> bool {
    match answer {
        None => call_ensures(keyring_entry, (SERVICE_NAME, account), None::<keyring::Entry>),
        Some(a) => exists|entry: keyring::Entry, v: &str|
            #![auto]
            v@ == value && call_ensures(keyring_entry, (SERVICE_NAME, account), Some(entry))
                && call_ensures(keyring_set_password, (&entry, v), a),
    }
}

/// The platform answered the deletion of the credential of `account` with `answer`: `None`
/// when it refused the entry, otherwise what `delete_credential` answered for the entry.
pub closed spec fn keychain_delete(account: &str, answer: Option<Result<(), KeyringFailure>>) -> bool {
    match answer {
        None => call_ensures(keyring_entry, (SERVICE_NAME, account), None::<keyring::Entry>),
        Some(a) => exists|entry: keyring::Entry|
            #![auto]
            call_ensures(keyring_entry, (SERVICE_NAME, account), Some(entry)) && call_ensures(
                keyring_delete_credential,
                (&entry,),
                a,
            ),
    }
}

/// A read's result for the platform's answer: a refused entry is unavailable; a blank or
/// missing credential is none; any other failure is an operation failure.
pub open spec fn keychain_read_result(answer: Option<Result<String, KeyringFailure>>) -> Result<
    Option<String>,
    SecureStorageError,
> {
    match answer {
        None => Err(SecureStorageError::Unavailable),
        Some(a) => read_outcome_of(a),
    }
}

/// A write's result for the platform's answer: every failure of the write is an operation
/// failure.
pub open spec fn keychain_write_result(answer: Option<Result<(), KeyringFailure>>) -> Result<
    (),
    SecureStorageError,
> {
    match answer {
        None => Err(SecureStorageError::Unavailable),
        Some(Ok(())) => Ok(()),
        Some(Err(_)) => Err(SecureStorageError::OperationFailed),
    }
}

/// A removal's result for the platform's answer: a credential already gone is removed.
pub open spec fn keychain_delete_result(answer: Option<Result<(), KeyringFailure>>) -> Result<
    (),
    SecureStorageError,
> {
    match answer {
        None => Err(SecureStorageError::Unavailable),
        Some(a) => remove_outcome_of(a),
    }
}

/// The read of one account's credential.
pub open spec fn system_read_is(account: &str, r: Result<Option<String>, SecureStorageError>) -> bool {
    exists|answer: Option<Result<String, KeyringFailure>>|
        #[trigger] keychain_read(account, answer) && r == keychain_read_result(answer)
}

/// The saving of `token` as one account's credential: a blank token is refused without asking
/// the platform; otherwise the trimmed token is written.
pub open spec fn system_save_is(account: &str, token: Seq<char>, r: Result<(), SecureStorageError>) -> bool {
    if trim(token).len() == 0 {
        r == Err::<(), SecureStorageError>(SecureStorageError::EmptyToken)
    } else {
        exists|answer: Option<Result<(), KeyringFailure>>|
            #[trigger] keychain_write(account, trim(token), answer) && r == keychain_write_result(answer)
    }
}

/// The removal of one account's credential.
pub open spec fn system_remove_is(account: &str, r: Result<(), SecureStorageError>) -> bool {
    exists|answer: Option<Result<(), KeyringFailure>>|
        #[trigger] keychain_delete(account, answer) && r == keychain_delete_result(answer)
}

/// The read of one account: the platform's answer for the entry of this service and account.
fn system_read(account: &str) -> (r: Result<Option<String>, SecureStorageError>)
    ensures
        system_read_is(account, r),
{
    let entry = match keyring_entry(SERVICE_NAME, account) {
        Some(e) => e,
        None => {
            proof {
                assert(keychain_read(account, None));
            }
            return Err(SecureStorageError::Unavailable);
        },
    };
    let answer = keyring_get_password(&entry);
    let ghost given = answer;
    let r = read_outcome(answer);
    proof {
        assert(keychain_read(account, Some(given)));
        assert(r == keychain_read_result(Some(given)));
    }
    r
}

/// Writes the trimmed token as one account's credential; a blank token is refused.
fn system_save(account: &str, token: &str) -> (r: Result<(), SecureStorageError>)
    ensures
        system_save_is(account, token@, r),
{
    if is_blank(token) {
        return Err(SecureStorageError::EmptyToken);
    }
    let trimmed = trim_str(token);
    let entry = match keyring_entry(SERVICE_NAME, account) {
        Some(e) => e,
        None => {
            proof {
                assert(keychain_write(account, trim(token@), None));
            }
            return Err(SecureStorageError::Unavailable);
        },
    };
    let answer = keyring_set_password(&entry, trimmed.as_str());
    let ghost given = answer;
    proof {
        assert(keychain_write(account, trim(token@), Some(given)));
    }
    match answer {
        Ok(()) => Ok(()),
        Err(_) => Err(SecureStorageError::OperationFailed),
    }
}

/// The removal of one account: the platform's answer for the entry of this service and
/// account.
fn system_remove(account: &str) -> (r: Result<(), SecureStorageError>)
    ensures
        system_remove_is(account, r),
{
    let entry = match keyring_entry(SERVICE_NAME, account) {
        Some(e) => e,
        None => {
            proof {
                assert(keychain_delete(account, None));
            }
            return Err(SecureStorageError::Unavailable);
        },
    };
    let answer = keyring_delete_credential(&entry);
    let ghost given = answer;
    let r = remove_outcome(answer);
    proof {
        assert(keychain_delete(account, Some(given)));
        assert(r == keychain_delete_result(Some(given)));
    }
    r
}

// ---------------------------------------------------------------------------------------------
// Tushare token
// ---------------------------------------------------------------------------------------------
/// A narrow, testable port. Its public status APIs only expose whether a credential exists.
pub trait TushareTokenStore {
    fn read(&self) -> Result<Option<String>, SecureStorageError>;

    fn save(&self, token: &str) -> Result<(), SecureStorageError>;

    fn remove(&self) -> Result<(), SecureStorageError>;
}

/// The Tushare token in the operating system credential store.
pub struct SystemTushareTokenStore;

impl TushareTokenStore for SystemTushareTokenStore {
    /// The read of this credential's account in the system store.
    fn read(&self) -> (r: Result<Option<String>, SecureStorageError>)
        ensures
            r matches Ok(Some(t)) ==> trim(t@).len() > 0,
            r matches Err(e) ==> e != SecureStorageError::EmptyToken,
            system_read_is(TUSHARE_ACCOUNT_NAME, r),
    {
        system_read(TUSHARE_ACCOUNT_NAME)
    }

    /// Stores the trimmed token; a blank token is refused.
    fn save(&self, token: &str) -> (r: Result<(), SecureStorageError>)
        ensures
            trim(token@).len() == 0 <==> r == Err::<(), SecureStorageError>(
                SecureStorageError::EmptyToken,
            ),
            system_save_is(TUSHARE_ACCOUNT_NAME, token@, r),
    {
        system_save(TUSHARE_ACCOUNT_NAME, token)
    }

    /// The removal of this credential's account from the system store.
    fn remove(&self) -> (r: Result<(), SecureStorageError>)
        ensures
            r matches Err(e) ==> e != SecureStorageError::EmptyToken,
            system_remove_is(TUSHARE_ACCOUNT_NAME, r),
    {
        system_remove(TUSHARE_ACCOUNT_NAME)
    }
}

#[derive(Debug)]
pub struct TushareStatusView {
    /// The only credential-related value that may leave the library.
    pub status: String,
}

/// The view has one of the two fixed status texts, saying whether a credential is present.
pub open spec fn tushare_view_is(v: TushareStatusView, configured: bool) -> bool {
    v.status@ == status_text(configured)
}

pub struct TushareTokenService<S = SystemTushareTokenStore> {
    store: S,
}

/// The status a read gives: the view of whether a credential came back, or the read's error.
pub open spec fn tushare_status_of(r: Result<TushareStatusView, SecureStorageError>, read: Result<Option<String>, SecureStorageError>) -> bool {
    match read {
        Ok(value) => r matches Ok(v) && tushare_view_is(v, value is Some),
        Err(e) => r matches Err(f) && f == e,
    }
}

/// What a save gives: the configured view, or the store's error.
pub open spec fn tushare_saved_of(r: Result<TushareStatusView, SecureStorageError>, answer: Result<(), SecureStorageError>) -> bool {
    match answer {
        Ok(()) => r matches Ok(v) && tushare_view_is(v, true),
        Err(e) => r matches Err(f) && f == e,
    }
}

/// What a removal gives: the unconfigured view, or the store's error.
pub open spec fn tushare_removal_of(r: Result<TushareStatusView, SecureStorageError>, answer: Result<(), SecureStorageError>) -> bool {
    match answer {
        Ok(()) => r matches Ok(v) && tushare_view_is(v, false),
        Err(e) => r matches Err(f) && f == e,
    }
}

impl<S> TushareTokenService<S> {
    /// The credential store the service reads and writes.
    pub closed spec fn store(self) -> S {
        self.store
    }
}

impl TushareTokenService<SystemTushareTokenStore> {
    /// The service on the operating system credential store.
    pub fn system() -> (r: Self)
        ensures
            r.store() == SystemTushareTokenStore,
    {
        TushareTokenService { store: SystemTushareTokenStore }
    }
}

impl<S: TushareTokenStore> TushareTokenService<S> {
    /// The service on the given store.
    pub fn new(store: S) -> (r: Self)
        ensures
            r.store() == store,
    {
        TushareTokenService { store }
    }

    fn to_status(configured: bool) -> (r: TushareStatusView)
        ensures
            tushare_view_is(r, configured),
    {
        TushareStatusView {
            status: if configured {
                String::from_str("已配置")
            } else {
                String::from_str("未配置")
            },
        }
    }

    /// The status for the store's read: configured exactly when a credential came back.
    pub fn status_from(read: Result<Option<String>, SecureStorageError>) -> (r: Result<
        TushareStatusView,
        SecureStorageError,
    >)
        ensures
            match read {
                Ok(value) => r matches Ok(v) && tushare_view_is(v, value is Some),
                Err(e) => r matches Err(f) && f == e,
            },
    {
        match read {
            Ok(value) => Ok(Self::to_status(value.is_some())),
            Err(e) => Err(e),
        }
    }

    /// The status for the store's read: configured exactly when a credential came back.
    pub fn status(&self) -> (r: Result<TushareStatusView, SecureStorageError>)
        ensures
            r matches Ok(v) ==> tushare_view_is(v, true) || tushare_view_is(v, false),
            exists|read: Result<Option<String>, SecureStorageError>|
                call_ensures(S::read, (&self.store(),), read) && #[trigger] tushare_status_of(r, read),
    {
        let read = self.store.read();
        let ghost answer = read;
        let r = Self::status_from(read);
        proof {
            assert(tushare_status_of(r, answer));
        }
        r
    }

    /// Saves the trimmed token. A blank token is refused before the store is asked; success
    /// reports the configured status and nothing of the token.
    pub fn save(&self, token: &str) -> (r: Result<TushareStatusView, SecureStorageError>)
        ensures
            trim(token@).len() == 0 ==> (r matches Err(e) && e == SecureStorageError::EmptyToken),
            r matches Ok(v) ==> tushare_view_is(v, true),
            trim(token@).len() > 0 ==> exists|t: &str, answer: Result<(), SecureStorageError>|
                #![trigger call_ensures(S::save, (&self.store(), t), answer)]
                t@ == trim(token@) && call_ensures(S::save, (&self.store(), t), answer)
                    && tushare_saved_of(r, answer),
    {
        if is_blank(token) {
            return Err(SecureStorageError::EmptyToken);
        }
        let trimmed = trim_str(token);
        let t = trimmed.as_str();
        let answer = self.store.save(t);
        let ghost given = answer;
        let r = match answer {
            Ok(()) => Ok(Self::to_status(true)),
            Err(e) => Err(e),
        };
        proof {
            assert(call_ensures(S::save, (&self.store(), t), given));
            assert(tushare_saved_of(r, given));
        }
        r
    }

    /// Removes the token; success reports the unconfigured status.
    pub fn remove(&self) -> (r: Result<TushareStatusView, SecureStorageError>)
        ensures
            r matches Ok(v) ==> tushare_view_is(v, false),
            exists|answer: Result<(), SecureStorageError>|
                call_ensures(S::remove, (&self.store(),), answer) && #[trigger] tushare_removal_of(r, answer),
    {
        let answer = self.store.remove();
        let ghost given = answer;
        let r = match answer {
            Ok(()) => Ok(Self::to_status(false)),
            Err(e) => Err(e),
        };
        proof {
            assert(tushare_removal_of(r, given));
        }
        r
    }

    /// Used only by provider adapters; no caller may serialize its return value. It is what the
    /// store's read answered.
    pub fn read_for_adapter(&self) -> (r: Result<Option<String>, SecureStorageError>)
        ensures
            call_ensures(S::read, (&self.store(),), r),
    {
        self.store.read()
    }
}

pub fn load_tushare_token_for_adapter() -> (r: Result<Option<String>, SecureStorageError>)
    ensures
        r matches Ok(Some(t)) ==> trim(t@).len() > 0,
        system_read_is(TUSHARE_ACCOUNT_NAME, r),
{
    SystemTushareTokenStore.read()
}

pub fn get_tushare_status() -> (r: Result<TushareStatusView, SecureStorageError>)
    ensures
        r matches Ok(v) ==> tushare_view_is(v, true) || tushare_view_is(v, false),
        exists|read: Result<Option<String>, SecureStorageError>|
            #[trigger] system_read_is(TUSHARE_ACCOUNT_NAME, read) && tushare_status_of(r, read),
{
    let read = SystemTushareTokenStore.read();
    let ghost given = read;
    let r = TushareTokenService::<SystemTushareTokenStore>::status_from(read);
    proof {
        assert(system_read_is(TUSHARE_ACCOUNT_NAME, given) && tushare_status_of(r, given));
    }
    r
}

pub fn save_tushare_token(token: &str) -> (r: Result<TushareStatusView, SecureStorageError>)
    ensures
        trim(token@).len() == 0 <==> (r matches Err(e) && e == SecureStorageError::EmptyToken),
        r matches Ok(v) ==> tushare_view_is(v, true),
        trim(token@).len() > 0 ==> exists|saved: Result<(), SecureStorageError>|
            #[trigger] system_save_is(TUSHARE_ACCOUNT_NAME, token@, saved) && tushare_saved_of(r, saved),
{
    let service = TushareTokenService::system();
    let r = service.save(token);
    proof {
        crate::text::lemma_trim_idempotent(token@);
        if trim(token@).len() > 0 {
            let (t, answer) = choose|t: &str, answer: Result<(), SecureStorageError>|
                #![trigger call_ensures(SystemTushareTokenStore::save, (&service.store(), t), answer)]
                t@ == trim(token@) && call_ensures(SystemTushareTokenStore::save, (&service.store(), t), answer)
                    && tushare_saved_of(r, answer);
            assert(system_save_is(TUSHARE_ACCOUNT_NAME, t@, answer));
            assert(system_save_is(TUSHARE_ACCOUNT_NAME, token@, answer));
        }
    }
    r
}

pub fn remove_tushare_token() -> (r: Result<TushareStatusView, SecureStorageError>)
    ensures
        r matches Ok(v) ==> tushare_view_is(v, false),
        exists|answer: Result<(), SecureStorageError>|
            #[trigger] system_remove_is(TUSHARE_ACCOUNT_NAME, answer) && tushare_removal_of(r, answer),
{
    TushareTokenService::system().remove()
}

// ---------------------------------------------------------------------------------------------
// DeepSeek API key
// ---------------------------------------------------------------------------------------------
/// The DeepSeek credential uses the same operating-system secure-store boundary as Tushare.
pub trait DeepSeekApiKeyStore {
    fn read(&self) -> Result<Option<String>, SecureStorageError>;

    fn save(&self, key: &str) -> Result<(), SecureStorageError>;

    fn remove(&self) -> Result<(), SecureStorageError>;
}

pub struct SystemDeepSeekApiKeyStore;

impl DeepSeekApiKeyStore for SystemDeepSeekApiKeyStore {
    /// The read of this credential's account in the system store.
    fn read(&self) -> (r: Result<Option<String>, SecureStorageError>)
        ensures
            r matches Ok(Some(t)) ==> trim(t@).len() > 0,
            r matches Err(e) ==> e != SecureStorageError::EmptyToken,
            system_read_is(DEEPSEEK_ACCOUNT_NAME, r),
    {
        system_read(DEEPSEEK_ACCOUNT_NAME)
    }

    fn save(&self, key: &str) -> (r: Result<(), SecureStorageError>)
        ensures
            trim(key@).len() == 0 <==> r == Err::<(), SecureStorageError>(
                SecureStorageError::EmptyToken,
            ),
            system_save_is(DEEPSEEK_ACCOUNT_NAME, key@, r),
    {
        system_save(DEEPSEEK_ACCOUNT_NAME, key)
    }

    /// The removal of this credential's account from the system store.
    fn remove(&self) -> (r: Result<(), SecureStorageError>)
        ensures
            r matches Err(e) ==> e != SecureStorageError::EmptyToken,
            system_remove_is(DEEPSEEK_ACCOUNT_NAME, r),
    {
        system_remove(DEEPSEEK_ACCOUNT_NAME)
    }
}

#[derive(Debug)]
pub struct DeepSeekStatusView {
    pub status: String,
}

pub open spec fn deepseek_view_is(v: DeepSeekStatusView, configured: bool) -> bool {
    v.status@ == status_text(configured)
}

pub struct DeepSeekApiKeyService<S = SystemDeepSeekApiKeyStore> {
    store: S,
}

/// The status a read gives: the view of whether a credential came back, or the read's error.
pub open spec fn deepseek_status_of(r: Result<DeepSeekStatusView, SecureStorageError>, read: Result<Option<String>, SecureStorageError>) -> bool {
    match read {
        Ok(value) => r matches Ok(v) && deepseek_view_is(v, value is Some),
        Err(e) => r matches Err(f) && f == e,
    }
}

/// What a save gives: the configured view, or the store's error.
pub open spec fn deepseek_saved_of(r: Result<DeepSeekStatusView, SecureStorageError>, answer: Result<(), SecureStorageError>) -> bool {
    match answer {
        Ok(()) => r matches Ok(v) && deepseek_view_is(v, true),
        Err(e) => r matches Err(f) && f == e,
    }
}

/// What a removal gives: the unconfigured view, or the store's error.
pub open spec fn deepseek_removal_of(r: Result<DeepSeekStatusView, SecureStorageError>, answer: Result<(), SecureStorageError>) -> bool {
    match answer {
        Ok(()) => r matches Ok(v) && deepseek_view_is(v, false),
        Err(e) => r matches Err(f) && f == e,
    }
}

impl<S> DeepSeekApiKeyService<S> {
    /// The credential store the service reads and writes.
    pub closed spec fn store(self) -> S {
        self.store
    }
}

impl DeepSeekApiKeyService<SystemDeepSeekApiKeyStore> {
    /// The service on the operating system credential store.
    pub fn system() -> (r: Self)
        ensures
            r.store() == SystemDeepSeekApiKeyStore,
    {
        DeepSeekApiKeyService { store: SystemDeepSeekApiKeyStore }
    }
}

impl<S: DeepSeekApiKeyStore> DeepSeekApiKeyService<S> {
    /// The service on the given store.
    pub fn new(store: S) -> (r: Self)
        ensures
            r.store() == store,
    {
        DeepSeekApiKeyService { store }
    }

    fn status_view(configured: bool) -> (r: DeepSeekStatusView)
        ensures
            deepseek_view_is(r, configured),
    {
        DeepSeekStatusView {
            status: if configured {
                String::from_str("已配置")
            } else {
                String::from_str("未配置")
            },
        }
    }

    /// The status for the store's read: configured exactly when a credential came back.
    pub fn status_from(read: Result<Option<String>, SecureStorageError>) -> (r: Result<
        DeepSeekStatusView,
        SecureStorageError,
    >)
        ensures
            match read {
                Ok(value) => r matches Ok(v) && deepseek_view_is(v, value is Some),
                Err(e) => r matches Err(f) && f == e,
            },
    {
        match read {
            Ok(value) => Ok(Self::status_view(value.is_some())),
            Err(e) => Err(e),
        }
    }

    /// The status for the store's read: configured exactly when a credential came back.
    pub fn status(&self) -> (r: Result<DeepSeekStatusView, SecureStorageError>)
        ensures
            r matches Ok(v) ==> deepseek_view_is(v, true) || deepseek_view_is(v, false),
            exists|read: Result<Option<String>, SecureStorageError>|
                call_ensures(S::read, (&self.store(),), read) && #[trigger] deepseek_status_of(r, read),
    {
        let read = self.store.read();
        let ghost answer = read;
        let r = Self::status_from(read);
        proof {
            assert(deepseek_status_of(r, answer));
        }
        r
    }

    /// Saves the trimmed key. A blank key is refused before the store is asked.
    pub fn save(&self, key: &str) -> (r: Result<DeepSeekStatusView, SecureStorageError>)
        ensures
            trim(key@).len() == 0 ==> (r matches Err(e) && e == SecureStorageError::EmptyToken),
            r matches Ok(v) ==> deepseek_view_is(v, true),
            trim(key@).len() > 0 ==> exists|t: &str, answer: Result<(), SecureStorageError>|
                #![trigger call_ensures(S::save, (&self.store(), t), answer)]
                t@ == trim(key@) && call_ensures(S::save, (&self.store(), t), answer)
                    && deepseek_saved_of(r, answer),
    {
        if is_blank(key) {
            return Err(SecureStorageError::EmptyToken);
        }
        let trimmed = trim_str(key);
        let t = trimmed.as_str();
        let answer = self.store.save(t);
        let ghost given = answer;
        let r = match answer {
            Ok(()) => Ok(Self::status_view(true)),
            Err(e) => Err(e),
        };
        proof {
            assert(call_ensures(S::save, (&self.store(), t), given));
            assert(deepseek_saved_of(r, given));
        }
        r
    }

    /// Removes the credential; success reports the unconfigured status.
    pub fn remove(&self) -> (r: Result<DeepSeekStatusView, SecureStorageError>)
        ensures
            r matches Ok(v) ==> deepseek_view_is(v, false),
            exists|answer: Result<(), SecureStorageError>|
                call_ensures(S::remove, (&self.store(),), answer) && #[trigger] deepseek_removal_of(r, answer),
    {
        let answer = self.store.remove();
        let ghost given = answer;
        let r = match answer {
            Ok(()) => Ok(Self::status_view(false)),
            Err(e) => Err(e),
        };
        proof {
            assert(deepseek_removal_of(r, given));
        }
        r
    }

    /// Provider-only access: never exposed in a view or a log. It is what the store's read
    /// answered.
    pub fn read_for_adapter(&self) -> (r: Result<Option<String>, SecureStorageError>)
        ensures
            call_ensures(S::read, (&self.store(),), r),
    {
        self.store.read()
    }
}

pub fn load_deepseek_api_key_for_adapter() -> (r: Result<Option<String>, SecureStorageError>)
    ensures
        r matches Ok(Some(t)) ==> trim(t@).len() > 0,
        system_read_is(DEEPSEEK_ACCOUNT_NAME, r),
{
    SystemDeepSeekApiKeyStore.read()
}

pub fn get_deepseek_status() -> (r: Result<DeepSeekStatusView, SecureStorageError>)
    ensures
        r matches Ok(v) ==> deepseek_view_is(v, true) || deepseek_view_is(v, false),
        exists|read: Result<Option<String>, SecureStorageError>|
            #[trigger] system_read_is(DEEPSEEK_ACCOUNT_NAME, read) && deepseek_status_of(r, read),
{
    let read = SystemDeepSeekApiKeyStore.read();
    let ghost given = read;
    let r = DeepSeekApiKeyService::<SystemDeepSeekApiKeyStore>::status_from(read);
    proof {
        assert(system_read_is(DEEPSEEK_ACCOUNT_NAME, given) && deepseek_status_of(r, given));
    }
    r
}

pub fn save_deepseek_api_key(key: &str) -> (r: Result<DeepSeekStatusView, SecureStorageError>)
    ensures
        trim(key@).len() == 0 <==> (r matches Err(e) && e == SecureStorageError::EmptyToken),
        r matches Ok(v) ==> deepseek_view_is(v, true),
        trim(key@).len() > 0 ==> exists|saved: Result<(), SecureStorageError>|
            #[trigger] system_save_is(DEEPSEEK_ACCOUNT_NAME, key@, saved) && deepseek_saved_of(r, saved),
{
    let service = DeepSeekApiKeyService::system();
    let r = service.save(key);
    proof {
        crate::text::lemma_trim_idempotent(key@);
        if trim(key@).len() > 0 {
            let (t, answer) = choose|t: &str, answer: Result<(), SecureStorageError>|
                #![trigger call_ensures(SystemDeepSeekApiKeyStore::save, (&service.store(), t), answer)]
                t@ == trim(key@) && call_ensures(SystemDeepSeekApiKeyStore::save, (&service.store(), t), answer)
                    && deepseek_saved_of(r, answer);
            assert(system_save_is(DEEPSEEK_ACCOUNT_NAME, t@, answer));
            assert(system_save_is(DEEPSEEK_ACCOUNT_NAME, key@, answer));
        }
    }
    r
}

pub fn remove_deepseek_api_key() -> (r: Result<DeepSeekStatusView, SecureStorageError>)
    ensures
        r matches Ok(v) ==> deepseek_view_is(v, false),
        exists|answer: Result<(), SecureStorageError>|
            #[trigger] system_remove_is(DEEPSEEK_ACCOUNT_NAME, answer) && deepseek_removal_of(r, answer),
{
    DeepSeekApiKeyService::system().remove()
}

} // verus!
