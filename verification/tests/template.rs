use yunta_engine::template::{template_vars, ProjectVars};

fn pair(name: &str, value: &str) -> (String, String) {
    (name.to_string(), value.to_string())
}

#[test]
fn run_variables_are_always_bound() {
    let vars = template_vars(&"/runs/r1".to_string(), &"/work/r1".to_string(), &"r1".to_string(), &None, &None, &vec![]);
    assert_eq!(vars, vec![pair("run.dir", "/runs/r1"), pair("run.worktree", "/work/r1"), pair("run.branch", "yunta/r1")]);
}

#[test]
fn role_project_and_inputs_are_bound_when_declared() {
    let project = ProjectVars { name: Some("shop".to_string()), base_branch: None, branch_prefix: Some("feat/".to_string()) };
    let vars = template_vars(
        &"/runs/r2".to_string(),
        &"/work/r2".to_string(),
        &"r2".to_string(),
        &Some("critic".to_string()),
        &Some(project),
        &vec![pair("ticket", "T-7"), pair("scope", "api")],
    );
    assert_eq!(
        vars,
        vec![
            pair("run.dir", "/runs/r2"),
            pair("run.worktree", "/work/r2"),
            pair("run.branch", "yunta/r2"),
            pair("runner.role", "critic"),
            pair("project.name", "shop"),
            pair("project.branch_prefix", "feat/"),
            pair("inputs.ticket", "T-7"),
            pair("inputs.scope", "api"),
        ]
    );
}
