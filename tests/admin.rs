use std::cell::RefCell;
use std::rc::Rc;

use kiro_rs::admin::{
    classify_add_error, classify_error, disable_result, summarize_imports, outcome_result, BatchDeleteResponse, status_view, AddCredentialRequest, AddCredentialResponse,
    AdminService, AdminServiceError, BatchDeleteRequest, BatchImportResponse,
    CredentialEntrySnapshot, KiroCredentials, ManagedCredential, ManagerSnapshot, RotationManager,
};

fn entry(id: u64, priority: u32) -> CredentialEntrySnapshot {
    CredentialEntrySnapshot {
        id,
        priority,
        disabled: false,
        failure_count: 0,
        expires_at: None,
        auth_method: Some("social".to_string()),
        has_profile_arn: false,
    }
}

struct FakeManager {
    current: u64,
    live: RefCell<Vec<u64>>,
    calls: Rc<RefCell<Vec<String>>>,
}

impl FakeManager {
    fn new(ids: &[u64], current: u64) -> Self {
        FakeManager { current, live: RefCell::new(ids.to_vec()), calls: Rc::new(RefCell::new(vec![])) }
    }

    fn check(&self, id: u64) -> Result<(), String> {
        if self.live.borrow().contains(&id) {
            Ok(())
        } else {
            Err(format!("凭据不存在: {}", id))
        }
    }
}

impl RotationManager for FakeManager {
    fn snapshot(&self) -> ManagerSnapshot {
        let entries: Vec<_> = self.live.borrow().iter().map(|id| entry(*id, 0)).collect();
        let n = entries.len();
        ManagerSnapshot { entries, current_id: self.current, total: n, available: n }
    }

    fn snapshot_full(&self) -> Vec<ManagedCredential> {
        vec![ManagedCredential {
            id: 4,
            credentials: KiroCredentials {
                id: Some(4),
                access_token: None,
                refresh_token: None,
                profile_arn: None,
                expires_at: Some("2030-01-01T00:00:00Z".to_string()),
                auth_method: None,
                client_id: None,
                client_secret: None,
                priority: 2,
                region: Some("us-east-1".to_string()),
                machine_id: None,
            },
            failure_count: 3,
            disabled: true,
        }]
    }

    fn set_disabled(&self, id: u64, disabled: bool) -> Result<(), String> {
        self.calls.borrow_mut().push(format!("set_disabled {} {}", id, disabled));
        self.check(id)
    }

    fn set_priority(&self, id: u64, _priority: u32) -> Result<(), String> {
        self.check(id)
    }

    fn reset_and_enable(&self, id: u64) -> Result<(), String> {
        self.check(id)
    }

    fn switch_to_next(&self) -> Result<(), String> {
        self.calls.borrow_mut().push("switch".to_string());
        Err("没有可用的凭据".to_string())
    }

    fn delete_credential(&self, id: u64) -> Result<(), String> {
        self.check(id)?;
        self.live.borrow_mut().retain(|x| *x != id);
        Ok(())
    }
}

#[test]
fn disabling_current_tries_a_switch_and_still_succeeds() {
    let manager = FakeManager::new(&[1, 2], 1);
    let calls = manager.calls.clone();
    let service = AdminService::new(manager);
    assert!(matches!(service.set_disabled(1, true), Ok(true)));
    assert_eq!(*calls.borrow(), vec!["set_disabled 1 true".to_string(), "switch".to_string()]);
}

#[test]
fn disabling_another_credential_does_not_switch() {
    let manager = FakeManager::new(&[1, 2], 1);
    let calls = manager.calls.clone();
    let service = AdminService::new(manager);
    assert!(matches!(service.set_disabled(2, true), Ok(false)));
    assert!(matches!(service.set_disabled(1, false), Ok(false)));
    assert_eq!(
        *calls.borrow(),
        vec!["set_disabled 2 true".to_string(), "set_disabled 1 false".to_string()]
    );
}

#[test]
fn unknown_id_is_not_found() {
    let service = AdminService::new(FakeManager::new(&[1], 1));
    assert!(matches!(service.set_disabled(9, true), Err(AdminServiceError::NotFound { id: 9 })));
    assert!(matches!(service.set_priority(9, 1), Err(AdminServiceError::NotFound { id: 9 })));
    assert!(matches!(service.reset_and_enable(9), Err(AdminServiceError::NotFound { id: 9 })));
    assert!(matches!(service.delete_credential(9), Err(AdminServiceError::NotFound { id: 9 })));
    assert!(service.set_priority(1, 5).is_ok());
}

#[test]
fn batch_delete_reports_missing_ids() {
    let service = AdminService::new(FakeManager::new(&[1], 1));
    let r = service.batch_delete(BatchDeleteRequest { ids: vec![1, 99] });
    assert_eq!(r.deleted, 1);
    assert_eq!(r.failed, 1);
    assert_eq!(r.errors.len(), 1);
    assert_eq!(r.errors[0].id, 99);
    assert_eq!(r.errors[0].message, "凭据不存在: 99");
}

#[test]
fn export_fills_defaults_and_live_counters() {
    let service = AdminService::new(FakeManager::new(&[], 0));
    let items = service.export_all();
    assert_eq!(items.len(), 1);
    assert_eq!(items[0].id, 4);
    assert_eq!(items[0].refresh_token, "");
    assert_eq!(items[0].auth_method, "social");
    assert_eq!(items[0].failure_count, 3);
    assert!(items[0].disabled);
    assert_eq!(items[0].region.as_deref(), Some("us-east-1"));
}

#[test]
fn status_view_sorts_stably_and_pages() {
    let snapshot = ManagerSnapshot {
        entries: vec![entry(1, 2), entry(2, 1), entry(3, 2), entry(4, 0), entry(5, 1)],
        current_id: 3,
        total: 5,
        available: 4,
    };
    let page1 = status_view(&snapshot, 1, 3);
    assert_eq!(page1.total, 5);
    assert_eq!(page1.total_pages, 2);
    assert_eq!(page1.available, 4);
    assert_eq!(page1.current_id, 3);
    assert_eq!(page1.credentials.iter().map(|c| c.id).collect::<Vec<_>>(), vec![4, 2, 5]);
    let page2 = status_view(&snapshot, 2, 3);
    assert_eq!(page2.credentials.iter().map(|c| c.id).collect::<Vec<_>>(), vec![1, 3]);
    assert!(page2.credentials[1].is_current);
    assert!(!page2.credentials[0].is_current);
    let page3 = status_view(&snapshot, 3, 3);
    assert!(page3.credentials.is_empty());
    assert_eq!(page3.total, 5);
}

#[test]
fn classification_follows_the_table() {
    assert!(matches!(classify_error("凭据不存在: 5".to_string(), 5), AdminServiceError::NotFound { id: 5 }));
    assert!(matches!(
        classify_error("只能删除已禁用的凭据".to_string(), 5),
        AdminServiceError::InvalidCredential(m) if m == "只能删除已禁用的凭据"
    ));
    assert!(matches!(
        classify_error("凭证已过期或无效".to_string(), 5),
        AdminServiceError::InvalidCredential(_)
    ));
    assert!(matches!(
        classify_error("error trying to connect: dns".to_string(), 5),
        AdminServiceError::UpstreamError(_)
    ));
    assert!(matches!(
        classify_error("request timed out".to_string(), 5),
        AdminServiceError::UpstreamError(_)
    ));
    assert!(matches!(
        classify_error("服务器错误 500".to_string(), 5),
        AdminServiceError::UpstreamError(_)
    ));
    assert!(matches!(
        classify_error("无法生成 machineId".to_string(), 5),
        AdminServiceError::InternalError(m) if m == "无法生成 machineId"
    ));
    assert!(matches!(
        classify_add_error("缺少 refreshToken".to_string()),
        AdminServiceError::InvalidCredential(_)
    ));
    assert!(matches!(
        classify_add_error("connection reset".to_string()),
        AdminServiceError::UpstreamError(_)
    ));
    assert!(matches!(classify_add_error("磁盘已满".to_string()), AdminServiceError::InternalError(_)));
}

#[test]
fn added_reply_names_the_id() {
    let r = AddCredentialResponse::added(17);
    assert!(r.success);
    assert_eq!(r.credential_id, 17);
    assert_eq!(r.message, "凭据添加成功，ID: 17");
}

#[test]
fn add_request_becomes_credentials() {
    let req = AddCredentialRequest {
        refresh_token: "rt".to_string(),
        auth_method: "idc".to_string(),
        client_id: Some("cid".to_string()),
        client_secret: None,
        priority: 3,
        region: None,
        machine_id: None,
    };
    let c = req.into_credentials();
    assert_eq!(c.id, None);
    assert_eq!(c.refresh_token.as_deref(), Some("rt"));
    assert_eq!(c.auth_method.as_deref(), Some("idc"));
    assert_eq!(c.client_id.as_deref(), Some("cid"));
    assert_eq!(c.priority, 3);
    assert!(c.access_token.is_none());
}

#[test]
fn import_outcomes_accumulate_in_order() {
    let mut r = BatchImportResponse::new();
    r.record_outcome(0, Ok(1));
    r.record_outcome(1, Err("缺少 refreshToken".to_string()));
    r.record_outcome(2, Ok(2));
    assert_eq!(r.imported, 2);
    assert_eq!(r.failed, 1);
    assert_eq!(r.errors.len(), 1);
    assert_eq!(r.errors[0].index, 1);
    assert_eq!(r.errors[0].message, "缺少 refreshToken");
}

#[test]
fn failed_disable_does_not_switch() {
    let manager = FakeManager::new(&[2], 1);
    let calls = manager.calls.clone();
    let service = AdminService::new(manager);
    assert!(matches!(service.set_disabled(1, true), Err(AdminServiceError::NotFound { id: 1 })));
    assert_eq!(*calls.borrow(), vec!["set_disabled 1 true".to_string()]);
}

#[test]
fn disable_decision_table() {
    assert!(matches!(disable_result(3, true, 3, Ok(())), (Ok(true), true)));
    assert!(matches!(disable_result(3, true, 4, Ok(())), (Ok(false), false)));
    assert!(matches!(disable_result(3, false, 3, Ok(())), (Ok(false), false)));
    assert!(matches!(
        disable_result(3, true, 3, Err("凭据不存在: 3".to_string())),
        (Err(AdminServiceError::NotFound { id: 3 }), false)
    ));
}

#[test]
fn manager_outcomes_become_results() {
    assert!(outcome_result(8, Ok(())).is_ok());
    assert!(matches!(
        outcome_result(8, Err("只能删除已禁用的凭据".to_string())),
        Err(AdminServiceError::InvalidCredential(m)) if m == "只能删除已禁用的凭据"
    ));
    assert!(matches!(
        outcome_result(8, Err("凭据不存在: 8".to_string())),
        Err(AdminServiceError::NotFound { id: 8 })
    ));
}

#[test]
fn delete_outcomes_accumulate_in_order() {
    let mut r = BatchDeleteResponse { deleted: 0, failed: 0, errors: vec![] };
    r.record_outcome(1, Ok(()));
    r.record_outcome(99, Err("凭据不存在: 99".to_string()));
    assert_eq!(r.deleted, 1);
    assert_eq!(r.failed, 1);
    assert_eq!(r.errors[0].id, 99);
    assert_eq!(r.errors[0].message, "凭据不存在: 99");
}

#[test]
fn status_view_orders_equal_priorities_by_id() {
    let snapshot = ManagerSnapshot {
        entries: vec![entry(5, 1), entry(3, 1), entry(9, 0), entry(u64::MAX, 1), entry(4, 1)],
        current_id: 0,
        total: 5,
        available: 5,
    };
    let page = status_view(&snapshot, 1, 10);
    assert_eq!(
        page.credentials.iter().map(|c| c.id).collect::<Vec<_>>(),
        vec![9, 3, 4, 5, u64::MAX]
    );
}

#[test]
fn import_summary_counts_failures_by_position() {
    let r = summarize_imports(vec![
        Ok(1),
        Err("缺少 refreshToken".to_string()),
        Ok(2),
        Err("connection reset".to_string()),
    ]);
    assert_eq!(r.imported, 2);
    assert_eq!(r.failed, 2);
    assert_eq!(r.errors.iter().map(|e| e.index).collect::<Vec<_>>(), vec![1, 3]);
    assert_eq!(r.errors[1].message, "connection reset");
}
