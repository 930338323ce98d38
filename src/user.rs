//! The profile of a signed-in user.
use vstd::prelude::*;

verus! {

/// A user's identity as the session sees it.
pub struct User {
    user_id: i32,
    email: String,
    firstname: String,
    lastname: String,
    is_admin: bool,
}

/// The mathematical content of a `User`.
pub struct UserView {
    pub user_id: i32,
    pub email: Seq<char>,
    pub firstname: Seq<char>,
    pub lastname: Seq<char>,
    pub is_admin: bool,
}

impl View for User {
    type V = UserView;

    closed spec fn view(&self) -> UserView {
        UserView {
            user_id: self.user_id,
            email: self.email@,
            firstname: self.firstname@,
            lastname: self.lastname@,
            is_admin: self.is_admin,
        }
    }
}

/// The profile that stands for "nobody signed in": id 0, empty strings.
pub open spec fn anonymous_view() -> UserView {
    UserView {
        user_id: 0,
        email: Seq::empty(),
        firstname: Seq::empty(),
        lastname: Seq::empty(),
        is_admin: false,
    }
}

impl Default for User {
    fn default() -> (r: User)
        ensures
            r@ == anonymous_view(),
    {
        User {
            user_id: 0,
            email: String::new(),
            firstname: String::new(),
            lastname: String::new(),
            is_admin: false,
        }
    }
}

impl User {
    /// Builds a profile; the admin flag is given as 1 (administrator) or 2
    /// (ordinary user).
    pub fn new(user_id: i32, email: String, firstname: String, lastname: String, is_admin_int: i32) -> (r: User)
        requires
            is_admin_int == 1 || is_admin_int == 2,
        ensures
            r@ == (UserView {
                user_id,
                email: email@,
                firstname: firstname@,
                lastname: lastname@,
                is_admin: is_admin_int == 1,
            }),
    {
        let is_admin = is_admin_int == 1;
        User { user_id, email, firstname, lastname, is_admin }
    }

    pub fn set_user_id(&mut self, user_id: i32)
        ensures
            final(self)@ == (UserView { user_id, ..old(self)@ }),
    {
        self.user_id = user_id;
    }

    pub fn set_email(&mut self, email: &str)
        ensures
            final(self)@ == (UserView { email: email@, ..old(self)@ }),
    {
        self.email = email.to_owned();
    }

    pub fn set_firstname(&mut self, firstname: &str)
        ensures
            final(self)@ == (UserView { firstname: firstname@, ..old(self)@ }),
    {
        self.firstname = firstname.to_owned();
    }

    pub fn set_lastname(&mut self, lastname: &str)
        ensures
            final(self)@ == (UserView { lastname: lastname@, ..old(self)@ }),
    {
        self.lastname = lastname.to_owned();
    }

    pub fn set_is_admin(&mut self, is_admin: bool)
        ensures
            final(self)@ == (UserView { is_admin, ..old(self)@ }),
    {
        self.is_admin = is_admin;
    }

    pub fn get_user_id(&self) -> (r: i32)
        ensures
            r == self@.user_id,
    {
        self.user_id
    }

    pub fn get_email(&self) -> (r: &String)
        ensures
            r@ == self@.email,
    {
        &self.email
    }

    pub fn get_firstname(&self) -> (r: &String)
        ensures
            r@ == self@.firstname,
    {
        &self.firstname
    }

    pub fn get_lastname(&self) -> (r: &String)
        ensures
            r@ == self@.lastname,
    {
        &self.lastname
    }

    pub fn get_is_admin(&self) -> (r: bool)
        ensures
            r == self@.is_admin,
    {
        self.is_admin
    }
}

} // verus!
