//! Field and view value types, creation parameters and their validation.

use vstd::prelude::*;

use crate::error::DatabaseError;
use crate::rows::Row;

verus! {

/// One field (column) of a database.
#[derive(Debug)]
pub struct Field {
    pub id: String,
    pub name: String,
    pub field_type: i64,
}

/// The abstract value of a field.
pub struct FieldModel {
    pub id: Seq<char>,
    pub name: Seq<char>,
    pub field_type: i64,
}

impl View for Field {
    type V = FieldModel;

    open spec fn view(&self) -> FieldModel {
        FieldModel { id: self.id@, name: self.name@, field_type: self.field_type }
    }
}

impl Clone for Field {
    fn clone(&self) -> (r: Self)
        ensures
            r@ == self@,
    {
        Field { id: self.id.clone(), name: self.name.clone(), field_type: self.field_type }
    }
}

/// One view of a database. Several views can present the same database.
#[derive(Debug)]
pub struct DatabaseView {
    pub id: String,
    pub database_id: String,
    pub name: String,
}

/// The abstract value of a database view.
pub struct DatabaseViewModel {
    pub id: Seq<char>,
    pub database_id: Seq<char>,
    pub name: Seq<char>,
}

impl View for DatabaseView {
    type V = DatabaseViewModel;

    open spec fn view(&self) -> DatabaseViewModel {
        DatabaseViewModel { id: self.id@, database_id: self.database_id@, name: self.name@ }
    }
}

impl Clone for DatabaseView {
    fn clone(&self) -> (r: Self)
        ensures
            r@ == self@,
    {
        DatabaseView {
            id: self.id.clone(),
            database_id: self.database_id.clone(),
            name: self.name.clone(),
        }
    }
}

/// Parameters for creating a database together with its inline view.
#[derive(Debug)]
pub struct CreateDatabaseParams {
    pub database_id: String,
    pub view_id: String,
    pub name: String,
    pub fields: Vec<Field>,
    pub rows: Vec<Row>,
}

impl CreateDatabaseParams {
    /// Parameters that rebuild a database from exported content, under a
    /// freshly generated database id and view id. The fields and rows are
    /// carried over unchanged.
    pub fn from_view(view: DatabaseView, fields: Vec<Field>, rows: Vec<Row>) -> (r: Self)
        ensures
            r.name@ == view.name@,
            r.fields == fields,
            r.rows == rows,
    {
        CreateDatabaseParams {
            database_id: fresh_uuid(),
            view_id: fresh_uuid(),
            name: view.name,
            fields,
            rows,
        }
    }
}

/// Parameters for creating a linked view on an existing database.
#[derive(Debug)]
pub struct CreateViewParams {
    pub database_id: String,
    pub view_id: String,
    pub name: String,
}

impl Clone for CreateViewParams {
    fn clone(&self) -> (r: Self)
        ensures
            r.database_id@ == self.database_id@,
            r.view_id@ == self.view_id@,
            r.name@ == self.name@,
    {
        CreateViewParams {
            database_id: self.database_id.clone(),
            view_id: self.view_id.clone(),
            name: self.name.clone(),
        }
    }
}

/// Validates parameters for creating a linked view.
pub struct CreateViewParamsValidator;

impl CreateViewParamsValidator {
    /// Accepts the parameters exactly when both the database id and the
    /// view id are non-empty.
    pub fn validate(params: CreateViewParams) -> (r: Result<CreateViewParams, DatabaseError>)
        ensures
            ({
                let valid = params.database_id@.len() > 0 && params.view_id@.len() > 0;
                &&& r is Ok <==> valid
                &&& (r matches Ok(p) ==> p == params)
                &&& (r matches Err(e) ==> e is InvalidParams)
            }),
    {
        if params.database_id.as_str().unicode_len() == 0 {
            Err(DatabaseError::InvalidParams(String::from_str("database id is empty")))
        } else if params.view_id.as_str().unicode_len() == 0 {
            Err(DatabaseError::InvalidParams(String::from_str("view id is empty")))
        } else {
            Ok(params)
        }
    }
}

/// Relies on `uuid::Uuid::new_v4`: a freshly generated random identifier
/// in canonical text form. Nothing is promised of the value.
#[verifier::external_body]
pub fn fresh_uuid() -> String {
    uuid::Uuid::new_v4().to_string()
}

} // verus!
