//! Errors of the ontology store.

use vstd::prelude::*;
use crate::text::{concat2, concat3};

verus! {

/// What can go wrong in the ontology store. The errors of the SQLite, JSON and
/// general layers are carried as their message text.
#[derive(Debug)]
pub enum StoreError {
    NotFound(String),
    InvalidApiName { entity_kind: &'static str, api_name: String, pattern: &'static str },
    InvalidDataType(String),
    PrimaryKeyViolation { ot_api_name: String },
    ReferentialIntegrity(String),
    UnknownField { entity: String, field: String },
    Json(String),
    Sqlite(String),
    Other(String),
}

/// The value of a [`StoreError`].
pub enum StoreErrorV {
    NotFound(Seq<char>),
    InvalidApiName(Seq<char>, Seq<char>, Seq<char>),
    InvalidDataType(Seq<char>),
    PrimaryKeyViolation(Seq<char>),
    ReferentialIntegrity(Seq<char>),
    UnknownField(Seq<char>, Seq<char>),
    Json(Seq<char>),
    Sqlite(Seq<char>),
    Other(Seq<char>),
}

impl View for StoreError {
    type V = StoreErrorV;

    open spec fn view(&self) -> StoreErrorV {
        match self {
            StoreError::NotFound(s) => StoreErrorV::NotFound(s@),
            StoreError::InvalidApiName { entity_kind, api_name, pattern } => StoreErrorV::InvalidApiName(
                entity_kind@,
                api_name@,
                pattern@,
            ),
            StoreError::InvalidDataType(s) => StoreErrorV::InvalidDataType(s@),
            StoreError::PrimaryKeyViolation { ot_api_name } => StoreErrorV::PrimaryKeyViolation(
                ot_api_name@,
            ),
            StoreError::ReferentialIntegrity(s) => StoreErrorV::ReferentialIntegrity(s@),
            StoreError::UnknownField { entity, field } => StoreErrorV::UnknownField(entity@, field@),
            StoreError::Json(s) => StoreErrorV::Json(s@),
            StoreError::Sqlite(s) => StoreErrorV::Sqlite(s@),
            StoreError::Other(s) => StoreErrorV::Other(s@),
        }
    }
}

/// The human-readable message of an error.
pub open spec fn store_error_message(e: StoreErrorV) -> Seq<char> {
    match e {
        StoreErrorV::NotFound(s) => "实体未找到: "@ + s,
        StoreErrorV::InvalidApiName(k, n, p) => "api_name 校验失败: "@ + k + " '"@ + n + "' 不符合 "@ + p,
        StoreErrorV::InvalidDataType(s) => "data_type 非法: '"@ + s + "' 不在 DataType 枚举内"@,
        StoreErrorV::PrimaryKeyViolation(s) => "主键约束违反: ObjectType '"@ + s
            + "' 必须有且仅一个 is_primary_key=true 的属性"@,
        StoreErrorV::ReferentialIntegrity(s) => "引用完整性违反: "@ + s,
        StoreErrorV::UnknownField(e, f) => "字段非法: 实体 '"@ + e + "' 出现未知字段 '"@ + f + "'"@,
        StoreErrorV::Json(s) => "JSON 解析失败: "@ + s,
        StoreErrorV::Sqlite(s) => "SQLite 错误: "@ + s,
        StoreErrorV::Other(s) => "其他: "@ + s,
    }
}

impl StoreError {
    /// The human-readable message of this error (what it displays as).
    pub fn message(&self) -> (r: String)
        ensures
            r@ == store_error_message(self@),
    {
        match self {
            StoreError::NotFound(s) => concat2("实体未找到: ", s.as_str()),
            StoreError::InvalidApiName { entity_kind, api_name, pattern } => {
                let mut r = concat3("api_name 校验失败: ", entity_kind, " '");
                r.append(api_name.as_str());
                r.append("' 不符合 ");
                r.append(pattern);
                r
            },
            StoreError::InvalidDataType(s) => concat3(
                "data_type 非法: '",
                s.as_str(),
                "' 不在 DataType 枚举内",
            ),
            StoreError::PrimaryKeyViolation { ot_api_name } => concat3(
                "主键约束违反: ObjectType '",
                ot_api_name.as_str(),
                "' 必须有且仅一个 is_primary_key=true 的属性",
            ),
            StoreError::ReferentialIntegrity(s) => concat2("引用完整性违反: ", s.as_str()),
            StoreError::UnknownField { entity, field } => {
                let mut r = concat3("字段非法: 实体 '", entity.as_str(), "' 出现未知字段 '");
                r.append(field.as_str());
                r.append("'");
                r
            },
            StoreError::Json(s) => concat2("JSON 解析失败: ", s.as_str()),
            StoreError::Sqlite(s) => concat2("SQLite 错误: ", s.as_str()),
            StoreError::Other(s) => concat2("其他: ", s.as_str()),
        }
    }
}

} // verus!
