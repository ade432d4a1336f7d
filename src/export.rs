//! Flat tabular export of credentials.
use vstd::prelude::*;
use crate::admin::CredentialExportItem;
use crate::text::{digits_of, uint_to_text};

verus! {

/// The bytes csv writes for one record with default settings.
pub uninterp spec fn csv_record(fields: Seq<Seq<char>>) -> Seq<u8>;

/// Relies on csv's `Writer::from_writer`, `Writer::write_record` and
/// `Writer::into_inner`, default settings: the encoded bytes of one record,
/// which depend on the fields alone. Writing into a `Vec` cannot fail.
#[verifier::external_body]
fn encode_record(fields: &Vec<String>) -> (r: Vec<u8>)
    ensures
        r@ == csv_record(fields@.map_values(|f: String| f@)),
{
    let mut writer = csv::Writer::from_writer(Vec::new());
    let _ = writer.write_record(fields);
    writer.into_inner().unwrap_or_default()
}

/// The fixed column order of the tabular export.
pub open spec fn export_header() -> Seq<Seq<char>> {
    seq![
        "id"@,
        "refresh_token"@,
        "access_token"@,
        "profile_arn"@,
        "expires_at"@,
        "auth_method"@,
        "client_id"@,
        "client_secret"@,
        "priority"@,
        "region"@,
        "machine_id"@,
        "failure_count"@,
        "disabled"@,
    ]
}

pub open spec fn opt_text(o: Option<String>) -> Seq<char> {
    match o {
        Some(s) => s@,
        None => Seq::empty(),
    }
}

pub open spec fn bool_text(b: bool) -> Seq<char> {
    if b {
        "true"@
    } else {
        "false"@
    }
}

/// The cells of one credential, in header order; absent values are empty.
pub open spec fn export_fields(c: CredentialExportItem) -> Seq<Seq<char>> {
    seq![
        digits_of(c.id as nat),
        c.refresh_token@,
        opt_text(c.access_token),
        opt_text(c.profile_arn),
        opt_text(c.expires_at),
        c.auth_method@,
        opt_text(c.client_id),
        opt_text(c.client_secret),
        digits_of(c.priority as nat),
        opt_text(c.region),
        opt_text(c.machine_id),
        digits_of(c.failure_count as nat),
        bool_text(c.disabled),
    ]
}

/// The encoded rows of `items`, one record each, in order.
pub open spec fn export_rows(items: Seq<CredentialExportItem>) -> Seq<u8>
    decreases items.len(),
{
    if items.len() == 0 {
        Seq::empty()
    } else {
        export_rows(items.drop_last()) + csv_record(export_fields(items.last()))
    }
}

fn text_or_empty(o: &Option<String>) -> (r: String)
    ensures
        r@ == opt_text(*o),
{
    match o {
        Some(s) => s.clone(),
        None => String::new(),
    }
}

fn header_cells() -> (r: Vec<String>)
    ensures
        r@.map_values(|f: String| f@) == export_header(),
{
    let mut v: Vec<String> = Vec::new();
    v.push(String::from_str("id"));
    v.push(String::from_str("refresh_token"));
    v.push(String::from_str("access_token"));
    v.push(String::from_str("profile_arn"));
    v.push(String::from_str("expires_at"));
    v.push(String::from_str("auth_method"));
    v.push(String::from_str("client_id"));
    v.push(String::from_str("client_secret"));
    v.push(String::from_str("priority"));
    v.push(String::from_str("region"));
    v.push(String::from_str("machine_id"));
    v.push(String::from_str("failure_count"));
    v.push(String::from_str("disabled"));
    proof {
        assert(v@.map_values(|f: String| f@) =~= export_header());
    }
    v
}

/// The cells of one credential, in header order.
pub fn row_cells(c: &CredentialExportItem) -> (r: Vec<String>)
    ensures
        r@.map_values(|f: String| f@) == export_fields(*c),
{
    let mut v: Vec<String> = Vec::new();
    v.push(uint_to_text(c.id));
    v.push(c.refresh_token.clone());
    v.push(text_or_empty(&c.access_token));
    v.push(text_or_empty(&c.profile_arn));
    v.push(text_or_empty(&c.expires_at));
    v.push(c.auth_method.clone());
    v.push(text_or_empty(&c.client_id));
    v.push(text_or_empty(&c.client_secret));
    v.push(uint_to_text(c.priority as u64));
    v.push(text_or_empty(&c.region));
    v.push(text_or_empty(&c.machine_id));
    v.push(uint_to_text(c.failure_count as u64));
    v.push(if c.disabled { String::from_str("true") } else { String::from_str("false") });
    proof {
        assert(v@.map_values(|f: String| f@) =~= export_fields(*c));
    }
    v
}

/// The tabular export: the header record, then one record per credential.
pub fn export_csv(items: &Vec<CredentialExportItem>) -> (r: Vec<u8>)
    ensures
        r@ == csv_record(export_header()) + export_rows(items@),
{
    let header = header_cells();
    let mut out = encode_record(&header);
    let mut i: usize = 0;
    proof {
        assert(items@.take(0) =~= Seq::<CredentialExportItem>::empty());
        assert(out@ =~= csv_record(export_header()) + export_rows(items@.take(0)));
    }
    while i < items.len()
        invariant
            i <= items.len(),
            out@ == csv_record(export_header()) + export_rows(items@.take(i as int)),
        decreases items.len() - i,
    {
        let cells = row_cells(&items[i]);
        let mut rec = encode_record(&cells);
        out.append(&mut rec);
        proof {
            assert(items@.take(i + 1).drop_last() =~= items@.take(i as int));
            assert(items@.take(i + 1).last() == items@[i as int]);
            assert(out@ =~= csv_record(export_header()) + export_rows(items@.take(i + 1)));
        }
        i = i + 1;
    }
    proof {
        assert(items@.take(items.len() as int) =~= items@);
    }
    out
}

} // verus!
