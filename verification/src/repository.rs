use vstd::prelude::*;

verus! {

/// A stored task.
pub struct Task {
    pub id: i32,
    pub name: String,
    pub description: Option<String>,
    pub timezone: String,
}

/// A task about to be stored.
pub struct NewTask<'a> {
    pub name: &'a str,
    pub description: Option<&'a str>,
    pub timezone: &'a str,
}

/// The database's type of task events.
pub struct ValidEvents;

/// The time zone given to tasks created from a post.
pub const POST_TIMEZONE: &'static str = "test";

impl<'a> NewTask<'a> {
    /// The task stored for a post named `name`: no description, the post time zone.
    pub fn for_post(name: &'a str) -> (t: NewTask<'a>)
        ensures
            t.name@ == name@,
            t.description is None,
            t.timezone@ == POST_TIMEZONE@,
    {
        NewTask { name, description: None, timezone: POST_TIMEZONE }
    }
}

} // verus!
