//! The course-listing resource models, as plain data.
//!
//! Timestamps are carried as RFC 3339 text and free-form JSON values as
//! their serialized text: the engine never computes with either, it only
//! carries them, and plain text keeps every field a value the contracts
//! can speak about.

use vstd::prelude::*;

verus! {

/// One enrollment term of a course.
#[derive(Debug, Clone, PartialEq)]
pub struct Term {
    pub id: i64,
    pub name: String,
    /// RFC 3339 timestamp text.
    pub start_at: String,
    /// RFC 3339 timestamp text, if the term has an end.
    pub end_at: Option<String>,
}

/// A student's progress through a course.
#[derive(Debug, Clone, PartialEq)]
pub struct CourseProgress {
    pub requirement_count: i64,
    pub requirement_completed_count: i64,
    pub next_requirement_url: Option<String>,
    pub completed_at: Option<String>,
}

/// What the requesting user may do in a course.
#[derive(Debug, Clone, PartialEq, Eq, Default)]
pub struct Permissions {
    pub create_discussion_topic: bool,
    pub create_announcement: bool,
}

/// Restrictions a blueprint course puts on its associated courses.
#[derive(Debug, Clone, PartialEq, Eq, Default)]
pub struct BlueprintRestrictions {
    pub content: bool,
    pub points: bool,
    pub due_dates: bool,
    pub availability_dates: bool,
}

/// Blueprint restrictions by object type.
#[derive(Debug, Clone, PartialEq, Eq, Default)]
pub struct BlueprintRestrictionsByObjectType {
    pub assignment: Assignment,
    pub wiki_page: WikiPage,
}

/// Blueprint restrictions on assignments.
#[derive(Debug, Clone, PartialEq, Eq, Default)]
pub struct Assignment {
    pub content: bool,
    pub points: bool,
}

/// Blueprint restrictions on wiki pages.
#[derive(Debug, Clone, PartialEq, Eq, Default)]
pub struct WikiPage {
    pub content: bool,
}

/// The publication state of a course.
#[derive(Debug, Clone, PartialEq, Eq)]
pub enum WorkflowState {
    Unpublished,
    Available,
    Completed,
    Deleted,
}

/// The view a course opens on.
#[derive(Debug, Clone, PartialEq, Eq)]
pub enum DefaultView {
    Feed,
    Wiki,
    Modules,
    Assignments,
    Syllabus,
}

/// One course, as the listing endpoint reports it.  Fields the server may
/// omit are optional; unknown fields of the response are ignored at the
/// decoding edge.
#[derive(Debug, Clone, PartialEq)]
pub struct Course {
    pub id: i64,
    /// Free-form JSON carried as text.
    pub sis_course_id: Option<String>,
    pub uuid: Option<String>,
    /// Free-form JSON carried as text.
    pub integration_id: Option<String>,
    pub sis_import_id: Option<i64>,
    pub name: Option<String>,
    pub course_code: Option<String>,
    pub original_name: Option<String>,
    pub workflow_state: Option<WorkflowState>,
    pub account_id: Option<i64>,
    pub root_account_id: Option<i64>,
    pub enrollment_term_id: Option<i64>,
    /// Free-form JSON carried as text.
    pub grading_periods: Option<String>,
    pub grading_standard_id: Option<i64>,
    pub grade_passback_setting: Option<String>,
    /// RFC 3339 timestamp text.
    pub created_at: Option<String>,
    /// RFC 3339 timestamp text.
    pub start_at: Option<String>,
    /// RFC 3339 timestamp text.
    pub end_at: Option<String>,
    pub locale: Option<String>,
    /// Free-form JSON carried as text.
    pub enrollments: Option<String>,
    pub total_students: Option<i64>,
    /// Free-form JSON carried as text.
    pub calendar: Option<String>,
    pub default_view: Option<DefaultView>,
    pub syllabus_body: Option<String>,
    pub needs_grading_count: Option<i64>,
    pub term: Option<Term>,
    pub course_progress: Option<CourseProgress>,
    pub apply_assignment_group_weights: Option<bool>,
    pub permissions: Option<Permissions>,
    pub is_public: Option<bool>,
    pub is_public_to_auth_users: Option<bool>,
    pub public_syllabus: Option<bool>,
    pub public_syllabus_to_auth: Option<bool>,
    pub public_description: Option<String>,
    pub storage_quota_mb: Option<i64>,
    pub storage_quota_used_mb: Option<i64>,
    pub hide_final_grades: Option<bool>,
    pub license: Option<String>,
    pub allow_student_assignment_edits: Option<bool>,
    pub allow_wiki_comments: Option<bool>,
    pub allow_student_forum_attachments: Option<bool>,
    pub open_enrollment: Option<bool>,
    pub self_enrollment: Option<bool>,
    pub restrict_enrollments_to_course_dates: Option<bool>,
    pub course_format: Option<String>,
    pub access_restricted_by_date: Option<bool>,
    pub time_zone: Option<String>,
    pub blueprint: Option<bool>,
    pub blueprint_restrictions: Option<BlueprintRestrictions>,
    pub blueprint_restrictions_by_object_type: Option<BlueprintRestrictionsByObjectType>,
    pub template: Option<bool>,
}

} // verus!
