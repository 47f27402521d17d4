//! Request builders: the ordered field lists of the commands.
use vstd::prelude::*;

use super::{
    fields_view, readable_field, readable_json, Field, FieldView, COMMAND_BATCH_CLOSE,
    COMMAND_CANCEL, COMMAND_DO_CREDIT, COMMAND_INITIALIZE, EDC_TYPE_ALL,
};
use crate::json::{opt_text, text_array, Json, JsonView};
use crate::numeral::{decimal_i64, signed_numeral};
use crate::text::texts;

verus! {

/// What a DoCredit command asks for.
pub struct CreditFieldsInput<'a> {
    pub txn_type: &'a str,
    pub amount_cents: i64,
    pub tip_cents: i64,
    pub ecr_ref_num: String,
    pub cashier_id: String,
    pub orig_ref_num: Option<String>,
    pub orig_trans_num: Option<String>,
}

/// What a `CreditFieldsInput` holds.
pub struct CreditInputView {
    pub txn_type: Seq<char>,
    pub amount_cents: i64,
    pub tip_cents: i64,
    pub ecr_ref_num: Seq<char>,
    pub cashier_id: Seq<char>,
    pub orig_ref_num: Option<Seq<char>>,
    pub orig_trans_num: Option<Seq<char>>,
}

impl<'a> CreditFieldsInput<'a> {
    pub open spec fn view(&self) -> CreditInputView {
        CreditInputView {
            txn_type: self.txn_type@,
            amount_cents: self.amount_cents,
            tip_cents: self.tip_cents,
            ecr_ref_num: self.ecr_ref_num@,
            cashier_id: self.cashier_id@,
            orig_ref_num: opt_text(self.orig_ref_num),
            orig_trans_num: opt_text(self.orig_trans_num),
        }
    }
}

/// The amount sub-fields: the amount, and the tip where there is one.
pub open spec fn amount_info(amount_cents: i64, tip_cents: i64) -> Seq<Seq<char>> {
    if tip_cents != 0 {
        seq![signed_numeral(amount_cents as int, 10), signed_numeral(tip_cents as int, 10)]
    } else {
        seq![signed_numeral(amount_cents as int, 10)]
    }
}

/// The trace sub-fields: the ECR reference, and for a void an empty invoice,
/// the original reference and, where known, the original transaction number.
pub open spec fn trace_info(
    ecr_ref_num: Seq<char>,
    orig_ref_num: Option<Seq<char>>,
    orig_trans_num: Option<Seq<char>>,
) -> Seq<Seq<char>> {
    match orig_ref_num {
        None => seq![ecr_ref_num],
        Some(orig_ref) => match orig_trans_num {
            None => seq![ecr_ref_num, Seq::<char>::empty(), orig_ref],
            Some(orig_trans) => seq![ecr_ref_num, Seq::<char>::empty(), orig_ref, orig_trans],
        },
    }
}

/// The eleven T00 fields, in the order of `t00_req_field`.
pub open spec fn credit_request(input: CreditInputView, version: Seq<char>) -> Seq<FieldView> {
    let empty = FieldView::Single(Seq::empty());
    seq![
        FieldView::Single("T00"@),
        FieldView::Single(version),
        FieldView::Single(input.txn_type),
        FieldView::Sub(amount_info(input.amount_cents, input.tip_cents)),
        empty,
        FieldView::Sub(
            trace_info(input.ecr_ref_num, input.orig_ref_num, input.orig_trans_num),
        ),
        empty,
        FieldView::Single(input.cashier_id),
        empty,
        empty,
        empty,
    ]
}

/// Builds the ordered T00 field array. The account field stays empty, which
/// makes the terminal prompt for a card.
pub fn build_credit_fields(input: CreditFieldsInput<'_>, protocol_version: &str) -> (r: Vec<Field>)
    ensures
        fields_view(r@) == credit_request(input@, protocol_version@),
{
    let mut amount: Vec<String> = Vec::new();
    amount.push(decimal_i64(input.amount_cents));
    if input.tip_cents != 0 {
        amount.push(decimal_i64(input.tip_cents));
    }
    assert(texts(amount@) =~= amount_info(input.amount_cents, input.tip_cents));
    let ghost view = input@;
    let mut trace: Vec<String> = Vec::new();
    trace.push(input.ecr_ref_num);
    if let Some(orig_ref) = input.orig_ref_num {
        trace.push(String::new());
        trace.push(orig_ref);
        if let Some(orig_trans) = input.orig_trans_num {
            trace.push(orig_trans);
        }
    }
    assert(texts(trace@) =~= trace_info(view.ecr_ref_num, view.orig_ref_num, view.orig_trans_num));
    let mut r: Vec<Field> = Vec::new();
    r.push(Field::Single(COMMAND_DO_CREDIT.to_owned()));
    r.push(Field::Single(protocol_version.to_owned()));
    r.push(Field::Single(input.txn_type.to_owned()));
    r.push(Field::Sub(amount));
    r.push(Field::Single(String::new()));
    r.push(Field::Sub(trace));
    r.push(Field::Single(String::new()));
    r.push(Field::Single(input.cashier_id));
    r.push(Field::Single(String::new()));
    r.push(Field::Single(String::new()));
    r.push(Field::Single(String::new()));
    assert(fields_view(r@) =~= credit_request(view, protocol_version@));
    r
}

/// The A00 fields.
pub fn build_initialize_fields(protocol_version: &str) -> (r: Vec<Field>)
    ensures
        fields_view(r@) == seq![
            FieldView::Single("A00"@),
            FieldView::Single(protocol_version@),
        ],
{
    let mut r: Vec<Field> = Vec::new();
    r.push(Field::Single(COMMAND_INITIALIZE.to_owned()));
    r.push(Field::Single(protocol_version.to_owned()));
    assert(fields_view(r@) =~= seq![
        FieldView::Single("A00"@),
        FieldView::Single(protocol_version@),
    ]);
    r
}

/// The A14 fields.
pub fn build_cancel_fields(protocol_version: &str) -> (r: Vec<Field>)
    ensures
        fields_view(r@) == seq![
            FieldView::Single("A14"@),
            FieldView::Single(protocol_version@),
        ],
{
    let mut r: Vec<Field> = Vec::new();
    r.push(Field::Single(COMMAND_CANCEL.to_owned()));
    r.push(Field::Single(protocol_version.to_owned()));
    assert(fields_view(r@) =~= seq![
        FieldView::Single("A14"@),
        FieldView::Single(protocol_version@),
    ]);
    r
}

/// The B00 fields: a batch close of every EDC type.
pub fn build_batch_close_fields(protocol_version: &str) -> (r: Vec<Field>)
    ensures
        fields_view(r@) == seq![
            FieldView::Single("B00"@),
            FieldView::Single(protocol_version@),
            FieldView::Single("00"@),
        ],
{
    let mut r: Vec<Field> = Vec::new();
    r.push(Field::Single(COMMAND_BATCH_CLOSE.to_owned()));
    r.push(Field::Single(protocol_version.to_owned()));
    r.push(Field::Single(EDC_TYPE_ALL.to_owned()));
    assert(fields_view(r@) =~= seq![
        FieldView::Single("B00"@),
        FieldView::Single(protocol_version@),
        FieldView::Single("00"@),
    ]);
    r
}

/// A request field as it is shown in logs.
pub open spec fn logged_field(f: FieldView) -> JsonView {
    match f {
        FieldView::Single(s) => readable_field(s),
        FieldView::Sub(v) => text_array(v),
    }
}

/// Readable field dump for server logs, with sub-fields split.
pub fn fields_for_log(fields: &[Field]) -> (j: Json)
    ensures
        j@ == JsonView::Arr(
            Seq::new(fields@.len(), |i: int| logged_field(fields_view(fields@)[i])),
        ),
{
    let mut items: Vec<Json> = Vec::new();
    let mut i: usize = 0;
    while i < fields.len()
        invariant
            i <= fields@.len(),
            items@.len() == i,
            forall|k: int| 0 <= k < i ==> (#[trigger] items@[k])@ == logged_field(fields@[k]@),
        decreases fields@.len() - i,
    {
        let item = match &fields[i] {
            Field::Single(s) => readable_json(s),
            Field::Sub(v) => Json::of_texts(v),
        };
        items.push(item);
        i += 1;
    }
    proof {
        crate::json::lemma_array_items(items@);
        assert(crate::json::array_view(items@) =~= Seq::new(
            fields@.len(),
            |i: int| logged_field(fields_view(fields@)[i]),
        ));
    }
    Json::Arr(items)
}

}
