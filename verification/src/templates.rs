use vstd::prelude::*;

verus! {

/// The feature titles of a project template: `web`, `mobile` or `api`; none for another name.
pub open spec fn template_titles(template_type: Seq<char>) -> Seq<Seq<char>> {
    if template_type == "web"@ {
        seq!["Planning & Design"@, "Backend Setup"@, "Frontend Development"@, "Authentication System"@, "Payment Integration"@, "Testing & QA"@, "Deployment"@]
    } else if template_type == "mobile"@ {
        seq!["UI/UX Design"@, "Core Architecture"@, "User Authentication"@, "Main Features"@, "Push Notifications"@, "App Store Submission"@, "Marketing Launch"@]
    } else if template_type == "api"@ {
        seq!["API Specification"@, "Database Design"@, "Authentication & Auth"@, "Core Endpoints"@, "Documentation"@, "Testing Suite"@, "Monitoring Setup"@]
    } else {
        Seq::empty()
    }
}

/// A template has seven titles, or none.
pub proof fn template_length(template_type: Seq<char>)
    ensures
        template_titles(template_type).len() == 0 || template_titles(template_type).len() == 7,
{
}

/// The feature titles of the named project template.
pub fn get_template(template_type: &str) -> (r: Vec<&'static str>)
    ensures
        r.deep_view() == template_titles(template_type@),
{
    if crate::text::str_eq(template_type, "web") {
        let r: Vec<&'static str> = vec!["Planning & Design", "Backend Setup", "Frontend Development", "Authentication System", "Payment Integration", "Testing & QA", "Deployment"];
        assert(r.deep_view() =~= template_titles(template_type@));
        r
    } else if crate::text::str_eq(template_type, "mobile") {
        let r: Vec<&'static str> = vec!["UI/UX Design", "Core Architecture", "User Authentication", "Main Features", "Push Notifications", "App Store Submission", "Marketing Launch"];
        assert(r.deep_view() =~= template_titles(template_type@));
        r
    } else if crate::text::str_eq(template_type, "api") {
        let r: Vec<&'static str> = vec!["API Specification", "Database Design", "Authentication & Auth", "Core Endpoints", "Documentation", "Testing Suite", "Monitoring Setup"];
        assert(r.deep_view() =~= template_titles(template_type@));
        r
    } else {
        let r: Vec<&'static str> = Vec::new();
        assert(r.deep_view() =~= template_titles(template_type@));
        r
    }
}

} // verus!
