//! Response objects: what an A01, T01 or B01 frame tells, in cents and text.
use vstd::prelude::*;

use super::laws::approved_means_six_zeros;
use super::{
    at, cents, last_digits, last_four, readable, sanitize_raw, sub_fields_at, sub_texts, text_at,
    to_cents, ParsedResponse, RESULT_CODE_APPROVED,
};
use crate::json::{int_json, Fields, Json, JsonView, Object};
use crate::text::same_text;

verus! {

/// Terminal info from an A01 response.
#[derive(Debug)]
pub struct InitializeInfo {
    pub result_code: String,
    pub result_txt: String,
    pub approved: bool,
    pub serial_number: String,
    pub model: String,
    pub app_version: String,
    pub mac_address: String,
    pub raw: Json,
    pub latency_ms: i64,
}

/// What an `InitializeInfo` holds.
pub struct InitializeView {
    pub result_code: Seq<char>,
    pub result_txt: Seq<char>,
    pub approved: bool,
    pub serial_number: Seq<char>,
    pub model: Seq<char>,
    pub app_version: Seq<char>,
    pub mac_address: Seq<char>,
    pub raw: JsonView,
    pub latency_ms: i64,
}

/// The outcome of a DoCredit command from a T01 response.
#[derive(Debug)]
pub struct CreditResponse {
    pub result_code: String,
    pub result_txt: String,
    pub approved: bool,
    pub auth_code: String,
    pub host_ref_num: String,
    pub ref_num: String,
    pub transaction_num: String,
    pub ecr_ref_num: String,
    pub masked_pan: String,
    pub last4: String,
    pub card_type: String,
    pub entry_mode: String,
    pub approved_amount_cents: i64,
    pub tip_amount_cents: i64,
    pub timestamp: String,
    pub raw: Json,
}

/// What a `CreditResponse` holds.
pub struct CreditView {
    pub result_code: Seq<char>,
    pub result_txt: Seq<char>,
    pub approved: bool,
    pub auth_code: Seq<char>,
    pub host_ref_num: Seq<char>,
    pub ref_num: Seq<char>,
    pub transaction_num: Seq<char>,
    pub ecr_ref_num: Seq<char>,
    pub masked_pan: Seq<char>,
    pub last4: Seq<char>,
    pub card_type: Seq<char>,
    pub entry_mode: Seq<char>,
    pub approved_amount_cents: i64,
    pub tip_amount_cents: i64,
    pub timestamp: Seq<char>,
    pub raw: JsonView,
}

/// The outcome of a batch close from a B01 response.
#[derive(Debug)]
pub struct BatchResponse {
    pub result_code: String,
    pub result_txt: String,
    pub settled: bool,
    pub batch_number: String,
    pub credit_count: String,
    pub credit_amount_cents: i64,
    pub raw: Json,
}

/// What a `BatchResponse` holds.
pub struct BatchView {
    pub result_code: Seq<char>,
    pub result_txt: Seq<char>,
    pub settled: bool,
    pub batch_number: Seq<char>,
    pub credit_count: Seq<char>,
    pub credit_amount_cents: i64,
    pub raw: JsonView,
}

impl InitializeInfo {
    pub open spec fn view(&self) -> InitializeView {
        InitializeView {
            result_code: self.result_code@,
            result_txt: self.result_txt@,
            approved: self.approved,
            serial_number: self.serial_number@,
            model: self.model@,
            app_version: self.app_version@,
            mac_address: self.mac_address@,
            raw: self.raw@,
            latency_ms: self.latency_ms,
        }
    }

    /// The info as a JSON object.
    pub fn to_json(&self) -> (j: Json)
        ensures
            j@ == JsonView::Obj(initialize_fields(self@)),
    {
        Json::Obj(
            Object::new().put("resultCode", Json::of_str(self.result_code.as_str())).put(
                "resultTxt",
                Json::of_str(self.result_txt.as_str()),
            ).put("approved", Json::Bool(self.approved)).put(
                "serialNumber",
                Json::of_str(self.serial_number.as_str()),
            ).put("model", Json::of_str(self.model.as_str())).put(
                "appVersion",
                Json::of_str(self.app_version.as_str()),
            ).put("macAddress", Json::of_str(self.mac_address.as_str())).put(
                "raw",
                self.raw.copy(),
            ).put("latencyMs", Json::of_int(self.latency_ms)),
        )
    }
}

/// The JSON fields of a terminal info.
pub open spec fn initialize_fields(v: InitializeView) -> Fields {
    map![
        "resultCode"@ => JsonView::Str(v.result_code),
        "resultTxt"@ => JsonView::Str(v.result_txt),
        "approved"@ => JsonView::Bool(v.approved),
        "serialNumber"@ => JsonView::Str(v.serial_number),
        "model"@ => JsonView::Str(v.model),
        "appVersion"@ => JsonView::Str(v.app_version),
        "macAddress"@ => JsonView::Str(v.mac_address),
        "raw"@ => v.raw,
        "latencyMs"@ => int_json(v.latency_ms)
    ]
}

impl CreditResponse {
    pub open spec fn view(&self) -> CreditView {
        CreditView {
            result_code: self.result_code@,
            result_txt: self.result_txt@,
            approved: self.approved,
            auth_code: self.auth_code@,
            host_ref_num: self.host_ref_num@,
            ref_num: self.ref_num@,
            transaction_num: self.transaction_num@,
            ecr_ref_num: self.ecr_ref_num@,
            masked_pan: self.masked_pan@,
            last4: self.last4@,
            card_type: self.card_type@,
            entry_mode: self.entry_mode@,
            approved_amount_cents: self.approved_amount_cents,
            tip_amount_cents: self.tip_amount_cents,
            timestamp: self.timestamp@,
            raw: self.raw@,
        }
    }

    /// The response as a JSON object.
    pub fn to_json(&self) -> (j: Json)
        ensures
            j@ == JsonView::Obj(credit_fields(self@)),
    {
        Json::Obj(
            Object::new().put("resultCode", Json::of_str(self.result_code.as_str())).put(
                "resultTxt",
                Json::of_str(self.result_txt.as_str()),
            ).put("approved", Json::Bool(self.approved)).put(
                "authCode",
                Json::of_str(self.auth_code.as_str()),
            ).put("hostRefNum", Json::of_str(self.host_ref_num.as_str())).put(
                "refNum",
                Json::of_str(self.ref_num.as_str()),
            ).put("transactionNum", Json::of_str(self.transaction_num.as_str())).put(
                "ecrRefNum",
                Json::of_str(self.ecr_ref_num.as_str()),
            ).put("maskedPAN", Json::of_str(self.masked_pan.as_str())).put(
                "last4",
                Json::of_str(self.last4.as_str()),
            ).put("cardType", Json::of_str(self.card_type.as_str())).put(
                "entryMode",
                Json::of_str(self.entry_mode.as_str()),
            ).put("approvedAmountCents", Json::of_int(self.approved_amount_cents)).put(
                "tipAmountCents",
                Json::of_int(self.tip_amount_cents),
            ).put("timestamp", Json::of_str(self.timestamp.as_str())).put("raw", self.raw.copy()),
        )
    }
}

/// The JSON fields of a credit response.
pub open spec fn credit_fields(v: CreditView) -> Fields {
    map![
        "resultCode"@ => JsonView::Str(v.result_code),
        "resultTxt"@ => JsonView::Str(v.result_txt),
        "approved"@ => JsonView::Bool(v.approved),
        "authCode"@ => JsonView::Str(v.auth_code),
        "hostRefNum"@ => JsonView::Str(v.host_ref_num),
        "refNum"@ => JsonView::Str(v.ref_num),
        "transactionNum"@ => JsonView::Str(v.transaction_num),
        "ecrRefNum"@ => JsonView::Str(v.ecr_ref_num),
        "maskedPAN"@ => JsonView::Str(v.masked_pan),
        "last4"@ => JsonView::Str(v.last4),
        "cardType"@ => JsonView::Str(v.card_type),
        "entryMode"@ => JsonView::Str(v.entry_mode),
        "approvedAmountCents"@ => int_json(v.approved_amount_cents),
        "tipAmountCents"@ => int_json(v.tip_amount_cents),
        "timestamp"@ => JsonView::Str(v.timestamp),
        "raw"@ => v.raw
    ]
}

impl BatchResponse {
    pub open spec fn view(&self) -> BatchView {
        BatchView {
            result_code: self.result_code@,
            result_txt: self.result_txt@,
            settled: self.settled,
            batch_number: self.batch_number@,
            credit_count: self.credit_count@,
            credit_amount_cents: self.credit_amount_cents,
            raw: self.raw@,
        }
    }

    /// The response as a JSON object.
    pub fn to_json(&self) -> (j: Json)
        ensures
            j@ == JsonView::Obj(batch_fields(self@)),
    {
        Json::Obj(
            Object::new().put("resultCode", Json::of_str(self.result_code.as_str())).put(
                "resultTxt",
                Json::of_str(self.result_txt.as_str()),
            ).put("settled", Json::Bool(self.settled)).put(
                "batchNumber",
                Json::of_str(self.batch_number.as_str()),
            ).put("creditCount", Json::of_str(self.credit_count.as_str())).put(
                "creditAmountCents",
                Json::of_int(self.credit_amount_cents),
            ).put("raw", self.raw.copy()),
        )
    }
}

/// The JSON fields of a batch response.
pub open spec fn batch_fields(v: BatchView) -> Fields {
    map![
        "resultCode"@ => JsonView::Str(v.result_code),
        "resultTxt"@ => JsonView::Str(v.result_txt),
        "settled"@ => JsonView::Bool(v.settled),
        "batchNumber"@ => JsonView::Str(v.batch_number),
        "creditCount"@ => JsonView::Str(v.credit_count),
        "creditAmountCents"@ => int_json(v.credit_amount_cents),
        "raw"@ => v.raw
    ]
}

/// Whether a result code says approved.
pub open spec fn is_approved(code: Seq<char>) -> bool {
    code == "000000"@
}

/// What the fields of an A01 response say. Per the POSLink layout the device
/// fields are top-level: version, result code, result text, serial number,
/// model, OS version, MAC.
pub open spec fn initialize_of(f: Seq<Seq<char>>) -> InitializeView {
    InitializeView {
        result_code: text_at(f, 2),
        result_txt: text_at(f, 3),
        approved: is_approved(text_at(f, 2)),
        serial_number: text_at(f, 4),
        model: text_at(f, 5),
        app_version: text_at(f, 6),
        mac_address: text_at(f, 7),
        raw: readable(f),
        latency_ms: 0,
    }
}

/// Parses an A01 (initialize) response into terminal info.
pub fn parse_initialize(parsed: &ParsedResponse) -> (r: InitializeInfo)
    ensures
        r@ == initialize_of(parsed@.fields),
        r.approved == (parsed@.fields.len() > 2 && parsed@.fields[2] == "000000"@),
{
    proof {
        approved_means_six_zeros(parsed@.fields);
    }
    let f = &parsed.fields;
    let result_code = at(f, 2);
    InitializeInfo {
        approved: same_text(result_code.as_str(), RESULT_CODE_APPROVED),
        result_code,
        result_txt: at(f, 3),
        serial_number: at(f, 4),
        model: at(f, 5),
        app_version: at(f, 6),
        mac_address: at(f, 7),
        raw: sanitize_raw(f),
        latency_ms: 0,
    }
}

/// T01 response field indexes.
pub const T01_RESULT_CODE: usize = 2;

pub const T01_RESULT_TXT: usize = 3;

pub const T01_HOST_INFO: usize = 4;

pub const T01_AMOUNT_INFO: usize = 6;

pub const T01_ACCOUNT_INFO: usize = 7;

pub const T01_TRACE_INFO: usize = 8;

/// What the fields of a T01 response say. Missing fields read as empty.
pub open spec fn credit_of(f: Seq<Seq<char>>) -> CreditView {
    let host = sub_texts(f, 4);
    let amount = sub_texts(f, 6);
    let account = sub_texts(f, 7);
    let trace = sub_texts(f, 8);
    CreditView {
        result_code: text_at(f, 2),
        result_txt: text_at(f, 3),
        approved: is_approved(text_at(f, 2)),
        auth_code: text_at(host, 2),
        host_ref_num: text_at(host, 3),
        ref_num: text_at(trace, 2),
        transaction_num: text_at(trace, 1),
        ecr_ref_num: text_at(trace, 0),
        masked_pan: text_at(account, 0),
        last4: last_digits(text_at(account, 0)),
        card_type: text_at(account, 2),
        entry_mode: text_at(account, 3),
        approved_amount_cents: cents(text_at(amount, 0)),
        tip_amount_cents: cents(text_at(amount, 1)),
        timestamp: text_at(trace, 3),
        raw: readable(f),
    }
}

/// Parses a T01 (DoCredit) response into a structured, defensive object.
/// Tolerates missing trailing fields.
pub fn parse_credit_response(parsed: &ParsedResponse) -> (r: CreditResponse)
    ensures
        r@ == credit_of(parsed@.fields),
        r.approved == (parsed@.fields.len() > 2 && parsed@.fields[2] == "000000"@),
{
    proof {
        approved_means_six_zeros(parsed@.fields);
    }
    let f = &parsed.fields;
    let host = sub_fields_at(f, T01_HOST_INFO);
    let amount = sub_fields_at(f, T01_AMOUNT_INFO);
    let account = sub_fields_at(f, T01_ACCOUNT_INFO);
    let trace = sub_fields_at(f, T01_TRACE_INFO);
    let result_code = at(f, T01_RESULT_CODE);
    let masked_pan = at(&account, 0);
    let last4 = last_four(masked_pan.as_str());
    CreditResponse {
        approved: same_text(result_code.as_str(), RESULT_CODE_APPROVED),
        result_code,
        result_txt: at(f, T01_RESULT_TXT),
        auth_code: at(&host, 2),
        host_ref_num: at(&host, 3),
        ref_num: at(&trace, 2),
        transaction_num: at(&trace, 1),
        ecr_ref_num: at(&trace, 0),
        masked_pan,
        last4,
        card_type: at(&account, 2),
        entry_mode: at(&account, 3),
        approved_amount_cents: to_cents(at(&amount, 0).as_str()),
        tip_amount_cents: to_cents(at(&amount, 1).as_str()),
        timestamp: at(&trace, 3),
        raw: sanitize_raw(f),
    }
}

/// B01 response field indexes.
pub const B01_RESULT_CODE: usize = 2;

pub const B01_RESULT_TXT: usize = 3;

pub const B01_HOST_INFO: usize = 4;

pub const B01_TOTAL_INFO: usize = 5;

/// What the fields of a B01 response say.
pub open spec fn batch_of(f: Seq<Seq<char>>) -> BatchView {
    let totals = sub_texts(f, 5);
    let host = sub_texts(f, 4);
    BatchView {
        result_code: text_at(f, 2),
        result_txt: text_at(f, 3),
        settled: is_approved(text_at(f, 2)),
        batch_number: text_at(host, 0),
        credit_count: text_at(totals, 0),
        credit_amount_cents: cents(text_at(totals, 1)),
        raw: readable(f),
    }
}

/// Parses a B01 (batch close) response.
pub fn parse_batch_response(parsed: &ParsedResponse) -> (r: BatchResponse)
    ensures
        r@ == batch_of(parsed@.fields),
        r.settled == (parsed@.fields.len() > 2 && parsed@.fields[2] == "000000"@),
{
    proof {
        approved_means_six_zeros(parsed@.fields);
    }
    let f = &parsed.fields;
    let totals = sub_fields_at(f, B01_TOTAL_INFO);
    let host = sub_fields_at(f, B01_HOST_INFO);
    let result_code = at(f, B01_RESULT_CODE);
    BatchResponse {
        settled: same_text(result_code.as_str(), RESULT_CODE_APPROVED),
        result_code,
        result_txt: at(f, B01_RESULT_TXT),
        batch_number: at(&host, 0),
        credit_count: at(&totals, 0),
        credit_amount_cents: to_cents(at(&totals, 1).as_str()),
        raw: sanitize_raw(f),
    }
}

}
