use vstd::prelude::*;

verus! {

/// An account's session credentials: its profile id (a UUID without hyphens),
/// display name and access token.
pub struct Authentication {
    uuid: std::string::String,
    name: std::string::String,
    access_token: std::string::String,
}

/// The credentials as plain text.
pub struct AuthenticationV {
    pub uuid: Seq<char>,
    pub name: Seq<char>,
    pub access_token: Seq<char>,
}

impl View for Authentication {
    type V = AuthenticationV;

    closed spec fn view(&self) -> AuthenticationV {
        AuthenticationV {
            uuid: self.uuid@,
            name: self.name@,
            access_token: self.access_token@,
        }
    }
}

impl Authentication {
    pub fn new(
        uuid: std::string::String,
        name: std::string::String,
        access_token: std::string::String,
    ) -> (r: Authentication)
        ensures
            r@.uuid == uuid@,
            r@.name == name@,
            r@.access_token == access_token@,
    {
        Authentication { uuid, name, access_token }
    }

    pub fn uuid(&self) -> (r: &str)
        ensures
            r@ == self@.uuid,
    {
        self.uuid.as_str()
    }

    pub fn name(&self) -> (r: &str)
        ensures
            r@ == self@.name,
    {
        self.name.as_str()
    }

    pub fn access_token(&self) -> (r: &str)
        ensures
            r@ == self@.access_token,
    {
        self.access_token.as_str()
    }
}

} // verus!
