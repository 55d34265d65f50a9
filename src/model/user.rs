//! Users as the public directory service describes them.
use vstd::prelude::*;

verus! {

pub struct Geo {
    pub lat: String,
    pub lng: String,
}

pub struct Address {
    pub street: String,
    pub suite: String,
    pub city: String,
    pub zipcode: String,
    pub geo: Geo,
}

pub struct Company {
    pub name: String,
    pub catch_phrase: String,
    pub bs: String,
}

pub struct User {
    pub id: u16,
    pub name: String,
    pub username: String,
    pub email: String,
    pub address: Address,
    pub phone: String,
    pub website: String,
    pub company: Company,
}

} // verus!
