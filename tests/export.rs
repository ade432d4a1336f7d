use kiro_rs::admin::CredentialExportItem;
use kiro_rs::export::{export_csv, row_cells};

fn item(token: &str) -> CredentialExportItem {
    CredentialExportItem {
        id: 12,
        refresh_token: token.to_string(),
        access_token: None,
        profile_arn: Some("arn:aws:x".to_string()),
        expires_at: None,
        auth_method: "social".to_string(),
        client_id: None,
        client_secret: None,
        priority: 0,
        region: Some("us-east-1".to_string()),
        machine_id: None,
        failure_count: 2,
        disabled: false,
    }
}

#[test]
fn csv_has_fixed_header_then_rows() {
    let bytes = export_csv(&vec![item("tok")]);
    let text = String::from_utf8(bytes).unwrap();
    assert_eq!(
        text,
        "id,refresh_token,access_token,profile_arn,expires_at,auth_method,client_id,client_secret,priority,region,machine_id,failure_count,disabled\n\
         12,tok,,arn:aws:x,,social,,,0,us-east-1,,2,false\n"
    );
}

#[test]
fn csv_quotes_cells_that_need_it() {
    let bytes = export_csv(&vec![item("a,b\"c")]);
    let text = String::from_utf8(bytes).unwrap();
    assert!(text.ends_with("12,\"a,b\"\"c\",,arn:aws:x,,social,,,0,us-east-1,,2,false\n"));
}

#[test]
fn csv_of_nothing_is_the_header() {
    let text = String::from_utf8(export_csv(&vec![])).unwrap();
    assert_eq!(text.lines().count(), 1);
    assert!(text.starts_with("id,refresh_token,"));
}

#[test]
fn cells_follow_the_column_order() {
    let cells = row_cells(&item("t"));
    assert_eq!(cells.len(), 13);
    assert_eq!(cells[0], "12");
    assert_eq!(cells[3], "arn:aws:x");
    assert_eq!(cells[11], "2");
    assert_eq!(cells[12], "false");
}
