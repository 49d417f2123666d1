//! The data model the engine works over.
//!
//! Offers, products and users are created and deleted by the
//! surrounding CRUD system; the engine reads them, appends price rows
//! and never mutates them.  A price row carries a value exactly when
//! its availability says the page offered one.

use vstd::prelude::*;

use crate::numeric::Decimal;

verus! {

/// The availability classification of one price-history row.
#[derive(Clone, Copy, Debug, PartialEq, Eq, Structural)]
pub enum Availability {
    Available,
    TemporarilyUnavailable,
    Unavailable,
    PriceNotFound,
    SiteNotFound,
}

/// A monitored product page.
#[derive(Clone, Debug)]
pub struct Offer {
    pub id: i32,
    pub url: String,
}

impl Offer {
    pub fn id(&self) -> (r: i32)
        ensures
            r == self.id,
    {
        self.id
    }

    pub fn url(&self) -> (r: &str)
        ensures
            r@ == self.url@,
    {
        self.url.as_str()
    }
}

/// One appended price-history row.
#[derive(Clone, Copy, Debug)]
pub struct Price {
    pub id: i32,
    pub offer_id: i32,
    pub value: Option<Decimal>,
    pub created_at: i64,
    pub availability: Availability,
}

impl Price {
    /// The row invariant: a value stands on the row exactly when the
    /// page was available, and any value fits the bounded decimal
    /// form.
    pub open spec fn wf(self) -> bool {
        &&& self.value is Some <==> self.availability == Availability::Available
        &&& (self.value matches Some(d) ==> d.wf())
    }

    pub fn id(&self) -> (r: i32)
        ensures
            r == self.id,
    {
        self.id
    }

    pub fn value(&self) -> (r: Option<Decimal>)
        ensures
            r == self.value,
    {
        self.value
    }

    pub fn created_at(&self) -> (r: i64)
        ensures
            r == self.created_at,
    {
        self.created_at
    }

    pub fn availability(&self) -> (r: Availability)
        ensures
            r == self.availability,
    {
        self.availability
    }
}

/// The row the orchestrator asks the data store to append.
#[derive(Clone, Copy, Debug)]
pub struct CreatePriceInput {
    pub offer_id: i32,
    pub value: Option<Decimal>,
    pub availability: Availability,
}

impl CreatePriceInput {
    /// Same invariant as a stored row.
    pub open spec fn wf(self) -> bool {
        &&& self.value is Some <==> self.availability == Availability::Available
        &&& (self.value matches Some(d) ==> d.wf())
    }
}

#[derive(Clone, Debug)]
pub struct CreateOfferInput {
    pub url: String,
}

#[derive(Clone, Debug)]
pub struct AddOfferInput {
    pub url: String,
    pub product_id: i32,
}

/// A product that offers may satisfy.
#[derive(Clone, Debug)]
pub struct Product {
    pub id: i32,
    pub name: String,
    pub description: Option<String>,
}

impl Product {
    pub fn id(&self) -> (r: i32)
        ensures
            r == self.id,
    {
        self.id
    }

    pub fn name(&self) -> (r: &str)
        ensures
            r@ == self.name@,
    {
        self.name.as_str()
    }

    pub fn description(&self) -> (r: Option<&str>)
        ensures
            r is Some <==> self.description is Some,
            r matches Some(s) ==> s@ == self.description.unwrap()@,
    {
        match &self.description {
            Some(d) => Some(d.as_str()),
            None => None,
        }
    }
}

#[derive(Clone, Debug)]
pub struct CreateProductInput {
    pub name: String,
    pub description: Option<String>,
    pub collection_id: i32,
}

#[derive(Clone, Debug)]
pub struct ProductInputDiesel {
    pub name: String,
    pub description: Option<String>,
}

#[derive(Clone, Copy, Debug, PartialEq, Eq, Structural)]
pub struct CollectionProductRelation {
    pub collection_id: i32,
    pub product_id: i32,
}

#[derive(Clone, Copy, Debug, PartialEq, Eq, Structural)]
pub struct CreateNotificationRelation {
    pub product_id: i32,
    pub user_id: i32,
}

#[derive(Clone, Copy, Debug, PartialEq, Eq, Structural)]
pub struct NotificationRelation {
    pub id: i32,
    pub product_id: i32,
    pub user_id: i32,
}

/// A user who may subscribe to product notifications.
#[derive(Clone, Debug)]
pub struct User {
    pub id: i32,
    pub name: String,
    pub email: String,
    pub password: String,
}

impl User {
    pub fn id(&self) -> (r: i32)
        ensures
            r == self.id,
    {
        self.id
    }

    pub fn name(&self) -> (r: &str)
        ensures
            r@ == self.name@,
    {
        self.name.as_str()
    }
}

#[derive(Clone, Debug)]
pub struct RegisterLoginUserInput {
    pub name: String,
    pub email: String,
    pub password: String,
}

#[derive(Clone, Debug)]
pub struct NewName {
    pub new_name: String,
}

#[derive(Clone, Debug)]
pub struct NewEmail {
    pub new_email: String,
}

#[derive(Clone, Debug)]
pub struct PasswordChange {
    pub old_password: String,
    pub new_password: String,
}

/// A named group of products.
#[derive(Clone, Debug)]
pub struct Collection {
    pub id: i32,
    pub name: String,
    pub description: Option<String>,
    pub user_id: i32,
    pub public: bool,
}

impl Collection {
    pub fn id(&self) -> (r: i32)
        ensures
            r == self.id,
    {
        self.id
    }

    pub fn name(&self) -> (r: &str)
        ensures
            r@ == self.name@,
    {
        self.name.as_str()
    }

    pub fn description(&self) -> (r: Option<&str>)
        ensures
            r is Some <==> self.description is Some,
            r matches Some(s) ==> s@ == self.description.unwrap()@,
    {
        match &self.description {
            Some(d) => Some(d.as_str()),
            None => None,
        }
    }

    pub fn public(&self) -> (r: bool)
        ensures
            r == self.public,
    {
        self.public
    }
}

#[derive(Clone, Debug)]
pub struct CreateCollectionInput {
    pub name: String,
    pub description: Option<String>,
    pub public: bool,
}

#[derive(Clone, Debug)]
pub struct CreateCollectionDiesel {
    pub name: String,
    pub description: Option<String>,
    pub user_id: i32,
    pub public: bool,
}

/// A login session row.
#[derive(Clone, Copy, Debug, PartialEq, Eq, Structural)]
pub struct Session {
    pub id: i32,
    pub user_id: i32,
}

#[derive(Clone, Copy, Debug, PartialEq, Eq, Structural)]
pub struct SessionInput {
    pub user_id: i32,
}

} // verus!
