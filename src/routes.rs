use vstd::prelude::*;

verus! {

/// The route `/` of an entity: list every row.
#[derive(Debug, Clone, Copy, PartialEq, Eq, Structural)]
pub struct Get;

/// The route `/:id` of an entity: fetch the row with primary key `id`.
#[derive(Debug, Clone)]
pub struct GetById<T> {
    pub id: T,
}

/// The route `/` of an entity, by `POST`: create a row.
#[derive(Debug, Clone, Copy, PartialEq, Eq, Structural)]
pub struct Create;

/// The route `/:id` of an entity, by `DELETE`: remove the row with primary key `id`.
#[derive(Debug, Clone)]
pub struct DeleteById<T> {
    pub id: T,
}

/// The route `/:id` of an entity, by `PATCH`: change the row with primary key `id`.
#[derive(Debug, Clone)]
pub struct UpdateById<T> {
    pub id: T,
}

} // verus!
