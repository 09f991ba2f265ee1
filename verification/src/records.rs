//! Rows of the generated tables.
use vstd::prelude::*;

verus! {

/// A scheduled job: it runs every `timer` seconds.
#[derive(Debug)]
pub struct Cronjobs {
    pub id: i32,
    pub name: String,
    pub timer: i32,
    pub status: String,
    pub last_run: Option<i64>,
}

/// A scheduled job to insert.
#[derive(Debug)]
pub struct NewCronjobs {
    pub name: String,
    pub timer: i32,
    pub status: String,
    pub last_run: Option<i64>,
}

/// A post by a user.
#[derive(Debug)]
pub struct Posts {
    pub id: i32,
    pub user_id: i32,
    pub title: String,
    pub content: String,
    pub public: bool,
    pub created_at: i64,
    pub updated_at: i64,
}

/// A post to insert.
#[derive(Debug)]
pub struct NewPosts {
    pub user_id: i32,
    pub title: String,
    pub content: String,
}

impl Posts {
    /// Whether the post is public.
    pub fn is_public(&self) -> (r: bool)
        ensures
            r == self.public,
    {
        self.public
    }
}

} // verus!
