use ironcurtain::error::Error;
use ironcurtain::models::{Course, DefaultView, Permissions, WorkflowState};
use ironcurtain::Canvas;
use ironcurtain::CanvasBuilder;

#[test]
fn build_resolves_base_url_and_trims_token() {
    let canvas = Canvas::builder()
        .set_url("https://canvas.example.edu")
        .set_token("  secret-token\t")
        .build()
        .unwrap();
    assert_eq!(canvas.api_url(), "https://canvas.example.edu/api/v1/");
    assert_eq!(canvas.auth_header(), "Bearer secret-token");
}

#[test]
fn build_rejects_unparsable_base_url() {
    let r = Canvas::builder().set_url("not a url").set_token("t").build();
    assert!(matches!(r, Err(Error::UrlParse { .. })));
}

#[test]
fn default_builder_has_no_base_url() {
    let r = CanvasBuilder::default().build();
    assert!(matches!(r, Err(Error::UrlParse { .. })));
}

#[test]
fn absolute_url_resolves_routes() {
    let canvas =
        Canvas::builder().set_url("https://canvas.example.edu").set_token("t").build().unwrap();
    assert_eq!(
        canvas.absolute_url("courses/").unwrap(),
        "https://canvas.example.edu/api/v1/courses/"
    );
    assert_eq!(
        canvas.absolute_url("courses/17/assignments").unwrap(),
        "https://canvas.example.edu/api/v1/courses/17/assignments"
    );
}

#[test]
fn builder_order_does_not_matter() {
    let a = Canvas::builder().set_url("https://h.example").set_token("x").build().unwrap();
    let b = Canvas::builder().set_token("x").set_url("https://h.example").build().unwrap();
    assert_eq!(a.api_url(), b.api_url());
    assert_eq!(a.auth_header(), b.auth_header());
}

#[test]
fn models_hold_plain_values() {
    let course = Course {
        id: 17,
        sis_course_id: None,
        uuid: Some("uuid-17".to_string()),
        integration_id: None,
        sis_import_id: None,
        name: Some("Systems Verification".to_string()),
        course_code: Some("COMP 513".to_string()),
        original_name: None,
        workflow_state: Some(WorkflowState::Available),
        account_id: Some(1),
        root_account_id: Some(1),
        enrollment_term_id: Some(3),
        grading_periods: None,
        grading_standard_id: None,
        grade_passback_setting: None,
        created_at: Some("2024-08-01T12:00:00-05:00".to_string()),
        start_at: None,
        end_at: None,
        locale: None,
        enrollments: None,
        total_students: Some(30),
        calendar: None,
        default_view: Some(DefaultView::Modules),
        syllabus_body: None,
        needs_grading_count: None,
        term: None,
        course_progress: None,
        apply_assignment_group_weights: None,
        permissions: Some(Permissions { create_discussion_topic: true, create_announcement: false }),
        is_public: Some(false),
        is_public_to_auth_users: None,
        public_syllabus: None,
        public_syllabus_to_auth: None,
        public_description: None,
        storage_quota_mb: None,
        storage_quota_used_mb: None,
        hide_final_grades: None,
        license: None,
        allow_student_assignment_edits: None,
        allow_wiki_comments: None,
        allow_student_forum_attachments: None,
        open_enrollment: None,
        self_enrollment: None,
        restrict_enrollments_to_course_dates: None,
        course_format: None,
        access_restricted_by_date: None,
        time_zone: Some("America/Chicago".to_string()),
        blueprint: None,
        blueprint_restrictions: None,
        blueprint_restrictions_by_object_type: None,
        template: None,
    };
    assert_eq!(course.workflow_state, Some(WorkflowState::Available));
    assert_eq!(course.clone(), course);
}
