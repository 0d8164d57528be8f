//! The access control list of a stream, in the form in which it is written
//! into the stream's metadata.

use crate::commands::texts;
use crate::types::StreamAcl;
use vstd::prelude::*;

verus! {

/// The roles that are allowed something, or `None` where the stream does not
/// say.
#[derive(Debug, PartialEq, Eq)]
pub struct Roles(pub Option<Vec<String>>);

/// The roles of a list, as mathematical values.
pub open spec fn role_names(roles: Option<Vec<String>>) -> Option<Seq<Seq<char>>> {
    match roles {
        Some(list) => Some(texts(list@)),
        None => None,
    }
}

impl View for Roles {
    type V = Option<Seq<Seq<char>>>;

    open spec fn view(&self) -> Option<Seq<Seq<char>>> {
        role_names(self.0)
    }
}

/// The form in which roles are written: nothing where the stream does not
/// say, the name alone where there is one role, and the list of the names
/// in every other case.
#[derive(Debug, PartialEq, Eq)]
pub enum RolesForm<'a> {
    Nothing,
    One(&'a String),
    List(&'a Vec<String>),
}

impl Default for Roles {
    fn default() -> (roles: Roles)
        ensures
            roles@ is None,
    {
        Roles(None)
    }
}

impl Roles {
    /// Whether the stream does not say which roles are allowed.
    pub fn is_empty(&self) -> (empty: bool)
        ensures
            empty == (self@ is None),
    {
        self.0.is_none()
    }

    /// The one role of this name.
    pub fn from_string(value: String) -> (roles: Roles)
        ensures
            roles@ == Some(seq![value@]),
    {
        let mut list: Vec<String> = Vec::new();
        list.push(value);
        Roles(Some(list))
    }

    /// The form in which the roles are written.
    pub fn form(&self) -> (form: RolesForm<'_>)
        ensures
            match form {
                RolesForm::Nothing => self@ is None,
                RolesForm::One(role) => self@ == Some(seq![role@]),
                RolesForm::List(list) => self@ == Some(texts(list@)) && list@.len() != 1,
            },
    {
        match &self.0 {
            None => RolesForm::Nothing,
            Some(roles) => {
                if roles.len() == 1 {
                    RolesForm::One(&roles[0])
                } else {
                    RolesForm::List(roles)
                }
            },
        }
    }
}

/// The access control list of a stream as it is written into the metadata.
#[derive(Debug, PartialEq, Eq)]
pub struct StreamAclInternal {
    pub read_roles: Roles,
    pub write_roles: Roles,
    pub delete_roles: Roles,
    pub meta_read_roles: Roles,
    pub meta_write_roles: Roles,
}

/// What an access control list holds, as mathematical values.
pub ghost struct AclView {
    pub read_roles: Option<Seq<Seq<char>>>,
    pub write_roles: Option<Seq<Seq<char>>>,
    pub delete_roles: Option<Seq<Seq<char>>>,
    pub meta_read_roles: Option<Seq<Seq<char>>>,
    pub meta_write_roles: Option<Seq<Seq<char>>>,
}

/// What an access control list of the client's side holds.
pub open spec fn acl_view(acl: StreamAcl) -> AclView {
    AclView {
        read_roles: role_names(acl.read_roles),
        write_roles: role_names(acl.write_roles),
        delete_roles: role_names(acl.delete_roles),
        meta_read_roles: role_names(acl.meta_read_roles),
        meta_write_roles: role_names(acl.meta_write_roles),
    }
}

impl View for StreamAclInternal {
    type V = AclView;

    open spec fn view(&self) -> AclView {
        AclView {
            read_roles: self.read_roles@,
            write_roles: self.write_roles@,
            delete_roles: self.delete_roles@,
            meta_read_roles: self.meta_read_roles@,
            meta_write_roles: self.meta_write_roles@,
        }
    }
}

impl Default for StreamAclInternal {
    fn default() -> (acl: StreamAclInternal)
        ensures
            acl@ == (AclView {
                read_roles: None,
                write_roles: None,
                delete_roles: None,
                meta_read_roles: None,
                meta_write_roles: None,
            }),
    {
        StreamAclInternal {
            read_roles: Roles(None),
            write_roles: Roles(None),
            delete_roles: Roles(None),
            meta_read_roles: Roles(None),
            meta_write_roles: Roles(None),
        }
    }
}

impl StreamAclInternal {
    /// The list in the form in which it is written. It holds what `acl`
    /// holds.
    pub fn from_acl(acl: StreamAcl) -> (internal: StreamAclInternal)
        ensures
            internal@ == acl_view(acl),
    {
        StreamAclInternal {
            read_roles: Roles(acl.read_roles),
            write_roles: Roles(acl.write_roles),
            delete_roles: Roles(acl.delete_roles),
            meta_read_roles: Roles(acl.meta_read_roles),
            meta_write_roles: Roles(acl.meta_write_roles),
        }
    }

    /// The list in the form of the client's side. It holds what `self`
    /// holds.
    pub fn build_acl(self) -> (acl: StreamAcl)
        ensures
            acl_view(acl) == self@,
    {
        StreamAcl {
            read_roles: self.read_roles.0,
            write_roles: self.write_roles.0,
            delete_roles: self.delete_roles.0,
            meta_read_roles: self.meta_read_roles.0,
            meta_write_roles: self.meta_write_roles.0,
        }
    }

    /// Whether the list says nothing at all.
    pub fn is_empty(&self) -> (empty: bool)
        ensures
            empty == (self@.read_roles is None && self@.write_roles is None
                && self@.delete_roles is None && self@.meta_read_roles is None
                && self@.meta_write_roles is None),
    {
        self.read_roles.is_empty() && self.write_roles.is_empty() && self.delete_roles.is_empty()
            && self.meta_read_roles.is_empty() && self.meta_write_roles.is_empty()
    }
}

} // verus!
