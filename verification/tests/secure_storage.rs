use std::sync::{Arc, Mutex};

use hero_call::secure_storage::{
    DeepSeekApiKeyService, DeepSeekApiKeyStore, SecureStorageError, TushareTokenService,
    TushareTokenStore,
};

#[derive(Clone, Default)]
struct MemoryStore(Arc<Mutex<Option<String>>>);

impl TushareTokenStore for MemoryStore {
    fn read(&self) -> Result<Option<String>, SecureStorageError> {
        Ok(self.0.lock().expect("lock memory store").clone())
    }

    fn save(&self, token: &str) -> Result<(), SecureStorageError> {
        *self.0.lock().expect("lock memory store") = Some(token.into());
        Ok(())
    }

    fn remove(&self) -> Result<(), SecureStorageError> {
        *self.0.lock().expect("lock memory store") = None;
        Ok(())
    }
}

impl DeepSeekApiKeyStore for MemoryStore {
    fn read(&self) -> Result<Option<String>, SecureStorageError> {
        Ok(self.0.lock().expect("lock memory store").clone())
    }

    fn save(&self, key: &str) -> Result<(), SecureStorageError> {
        *self.0.lock().expect("lock memory store") = Some(key.into());
        Ok(())
    }

    fn remove(&self) -> Result<(), SecureStorageError> {
        *self.0.lock().expect("lock memory store") = None;
        Ok(())
    }
}

#[test]
fn saves_restores_and_removes_status_without_returning_the_token() {
    let store = MemoryStore::default();
    let service = TushareTokenService::new(store.clone());
    assert_eq!(service.status().unwrap().status, "未配置");

    let saved = service.save("test-token-only-in-memory").unwrap();
    assert_eq!(saved.status, "已配置");
    assert!(!format!("{saved:?}").contains("test-token-only-in-memory"));

    let restarted = TushareTokenService::new(store);
    assert_eq!(restarted.status().unwrap().status, "已配置");
    assert_eq!(restarted.remove().unwrap().status, "未配置");
}

#[test]
fn rejects_blank_tokens() {
    let error = TushareTokenService::new(MemoryStore::default())
        .save("  ")
        .expect_err("blank token must be rejected");
    assert_eq!(error, SecureStorageError::EmptyToken);
}

#[test]
fn deepseek_key_survives_restart_and_status_never_reveals_it() {
    let store = MemoryStore::default();
    let service = DeepSeekApiKeyService::new(store.clone());
    assert_eq!(service.status().unwrap().status, "未配置");
    let saved = service.save("deepseek-test-key").unwrap();
    assert_eq!(saved.status, "已配置");
    assert!(!format!("{saved:?}").contains("deepseek-test-key"));
    let restarted = DeepSeekApiKeyService::new(store);
    assert_eq!(restarted.status().unwrap().status, "已配置");
    assert_eq!(restarted.remove().unwrap().status, "未配置");
}

#[test]
fn saved_token_is_trimmed_before_it_reaches_the_store() {
    let store = MemoryStore::default();
    let service = TushareTokenService::new(store.clone());
    service.save("  padded-token  ").unwrap();
    assert_eq!(store.0.lock().unwrap().as_deref(), Some("padded-token"));
}
