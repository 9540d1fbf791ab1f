//! The values the client shows and navigates: courses, sections, activities.
use vstd::prelude::*;

verus! {

/// Base address of the Moodle site.
pub const MOODLE_BASE: &'static str = "https://joho.g-edu.uec.ac.jp/moodle3";

/// Address of the single sign-on entry point.
pub const LOGIN_URL: &'static str = "https://joho.g-edu.uec.ac.jp/moodle3/auth/shibboleth/index.php";

/// Directory where fetched pages are kept for inspection.
pub const DEBUG_DIR: &'static str = "debug_pages";

/// A course the user is enrolled in.
pub struct Course {
    pub id: u32,
    pub name: String,
}

/// A numbered section of a course page.
pub struct Section {
    pub id: u32,
    pub name: String,
}

/// The kinds of activity the client can open.
#[derive(PartialEq, Eq, Structural, Clone, Copy, Debug)]
pub enum ActivityType {
    Quiz,
    Assignment,
    Url,
}

/// An activity found in a course section.
pub struct QuizAssignment {
    pub id: u32,
    pub name: String,
    pub activity_type: ActivityType,
}

impl QuizAssignment {
    /// Whether the activity is an assignment.
    pub fn is_assignment(&self) -> (b: bool)
        ensures
            b == (self.activity_type == ActivityType::Assignment),
    {
        match self.activity_type {
            ActivityType::Assignment => true,
            _ => false,
        }
    }

    /// Whether the activity is a link to a resource.
    pub fn is_url(&self) -> (b: bool)
        ensures
            b == (self.activity_type == ActivityType::Url),
    {
        match self.activity_type {
            ActivityType::Url => true,
            _ => false,
        }
    }
}

/// An activity is never both an assignment and a link.
pub proof fn lemma_activity_kind_exclusive(a: QuizAssignment)
    ensures
        !(a.activity_type == ActivityType::Assignment && a.activity_type == ActivityType::Url),
{
}

} // verus!
