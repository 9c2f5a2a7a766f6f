//! Match records, and the structured value that each is emitted as.
use crate::json::{json_array, json_of, json_seq, json_string, Json};
use vstd::prelude::*;
use vstd::string::*;

verus! {

/// What is recorded of one matched call.
#[derive(Debug, PartialEq)]
pub enum Record {
    /// A bare call of a tracked function.
    FunctionCall { name: String, args: Vec<serde_json::Value>, position: String },
    /// A call of a tracked method on its receiver.
    MethodCall { object: String, method: String, args: Vec<serde_json::Value>, position: String },
    /// A dynamic import with the magic comments that selected it.
    DynamicImport {
        magic_comments: Vec<serde_json::Value>,
        args: Vec<serde_json::Value>,
        position: String,
    },
}

/// The content of a [`Record`].
#[verifier::ext_equal]
pub enum RecordView {
    FunctionCall { name: Seq<char>, args: Seq<Json>, position: Seq<char> },
    MethodCall { object: Seq<char>, method: Seq<char>, args: Seq<Json>, position: Seq<char> },
    DynamicImport { magic_comments: Seq<Json>, args: Seq<Json>, position: Seq<char> },
}

impl View for Record {
    type V = RecordView;

    open spec fn view(&self) -> RecordView {
        match *self {
            Record::FunctionCall { name, args, position } => RecordView::FunctionCall {
                name: name@,
                args: json_seq(args@),
                position: position@,
            },
            Record::MethodCall { object, method, args, position } => RecordView::MethodCall {
                object: object@,
                method: method@,
                args: json_seq(args@),
                position: position@,
            },
            Record::DynamicImport { magic_comments, args, position } => RecordView::DynamicImport {
                magic_comments: json_seq(magic_comments@),
                args: json_seq(args@),
                position: position@,
            },
        }
    }
}

/// The value that a record is emitted as: an array of its fields in the
/// order of their declaration, which for a dynamic import starts with the
/// word `import`.
pub open spec fn record_json(r: RecordView) -> Json {
    match r {
        RecordView::FunctionCall { name, args, position } => Json::Array(
            seq![Json::String(name), Json::Array(args), Json::String(position)],
        ),
        RecordView::MethodCall { object, method, args, position } => Json::Array(
            seq![
                Json::String(object),
                Json::String(method),
                Json::Array(args),
                Json::String(position),
            ],
        ),
        RecordView::DynamicImport { magic_comments, args, position } => Json::Array(
            seq![
                Json::String("import"@),
                Json::Array(magic_comments),
                Json::Array(args),
                Json::String(position),
            ],
        ),
    }
}

/// The values that a sequence of records is emitted as.
pub open spec fn records_json(records: Seq<RecordView>) -> Seq<Json> {
    Seq::new(records.len(), |i: int| record_json(records[i]))
}

/// The record that an emitted value stands for, if it stands for one.
pub open spec fn json_record(j: Json) -> Option<RecordView> {
    match j {
        Json::Array(items) => {
            if items.len() == 3 {
                match (items[0], items[1], items[2]) {
                    (Json::String(name), Json::Array(args), Json::String(position)) => Some(
                        RecordView::FunctionCall { name, args, position },
                    ),
                    _ => None,
                }
            } else if items.len() == 4 {
                match (items[0], items[1], items[2], items[3]) {
                    (
                        Json::String(object),
                        Json::String(method),
                        Json::Array(args),
                        Json::String(position),
                    ) => Some(RecordView::MethodCall { object, method, args, position }),
                    (
                        Json::String(word),
                        Json::Array(magic_comments),
                        Json::Array(args),
                        Json::String(position),
                    ) => if word == "import"@ {
                        Some(RecordView::DynamicImport { magic_comments, args, position })
                    } else {
                        None
                    },
                    _ => None,
                }
            } else {
                None
            }
        },
        _ => None,
    }
}

/// Reading an emitted value gives back the record that it was made from.
pub proof fn lemma_record_round_trip(r: RecordView)
    ensures
        json_record(record_json(r)) == Some(r),
{
}

/// Reading the emitted values of a sequence of records gives back each
/// record, in the same order.
pub proof fn lemma_records_round_trip(records: Seq<RecordView>)
    ensures
        records_json(records).len() == records.len(),
        forall|i: int|
            0 <= i < records.len() ==> json_record(#[trigger] records_json(records)[i]) == Some(
                records[i],
            ),
{
    assert forall|i: int| 0 <= i < records.len() implies json_record(
        #[trigger] records_json(records)[i],
    ) == Some(records[i]) by {
        lemma_record_round_trip(records[i]);
    }
}

impl Record {
    /// The value that the record is emitted as.
    pub fn into_value(self) -> (r: serde_json::Value)
        ensures
            json_of(r) == record_json(self@),
    {
        let mut items: Vec<serde_json::Value> = Vec::new();
        match self {
            Record::FunctionCall { name, args, position } => {
                items.push(json_string(name));
                items.push(json_array(args));
                items.push(json_string(position));
                assert(json_seq(items@) =~= seq![
                    Json::String(name@),
                    Json::Array(json_seq(args@)),
                    Json::String(position@),
                ]);
            },
            Record::MethodCall { object, method, args, position } => {
                items.push(json_string(object));
                items.push(json_string(method));
                items.push(json_array(args));
                items.push(json_string(position));
                assert(json_seq(items@) =~= seq![
                    Json::String(object@),
                    Json::String(method@),
                    Json::Array(json_seq(args@)),
                    Json::String(position@),
                ]);
            },
            Record::DynamicImport { magic_comments, args, position } => {
                items.push(json_string(String::from_str("import")));
                items.push(json_array(magic_comments));
                items.push(json_array(args));
                items.push(json_string(position));
                assert(json_seq(items@) =~= seq![
                    Json::String("import"@),
                    Json::Array(json_seq(magic_comments@)),
                    Json::Array(json_seq(args@)),
                    Json::String(position@),
                ]);
            },
        }
        json_array(items)
    }
}

} // verus!
