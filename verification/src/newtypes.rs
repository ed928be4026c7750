//! Identifier newtypes for the entities this crate speaks about.

use vstd::prelude::*;

verus! {

/// Identifier of a row in the language catalog.
#[derive(Clone, Copy, PartialEq, Eq, Structural, Debug, Hash)]
pub struct LanguageId(pub i32);

/// Identifier of a Site.
#[derive(Clone, Copy, PartialEq, Eq, Structural, Debug, Hash)]
pub struct SiteId(pub i32);

/// Identifier of a Community.
#[derive(Clone, Copy, PartialEq, Eq, Structural, Debug, Hash)]
pub struct CommunityId(pub i32);

/// Identifier of a local user.
#[derive(Clone, Copy, PartialEq, Eq, Structural, Debug, Hash)]
pub struct LocalUserId(pub i32);

} // verus!
