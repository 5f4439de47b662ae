//! Structured reasoning templates.

use vstd::prelude::*;
use crate::text::str_eq;
use crate::types::strs_view;

verus! {

/// The `reasoning_templates` tool.
#[derive(Clone, Copy, Debug, PartialEq, Eq, Structural)]
pub struct TemplatesTool;

/// One recommended step of a template, with the thought fields it sets.
pub struct TemplateStep {
    pub step: usize,
    pub title: String,
    pub description: String,
    pub properties_to_set: Vec<String>,
}

/// A reasoning template.
pub struct Template {
    pub name: String,
    pub id: String,
    pub description: String,
    pub recommended_steps: Vec<TemplateStep>,
}

/// What the tool returns: one template, or all of them.
pub enum TemplateSelection {
    One(Template),
    All(Vec<Template>),
}

/// The content of a [`TemplateStep`].
pub ghost struct StepView {
    pub step: usize,
    pub title: Seq<char>,
    pub description: Seq<char>,
    pub properties_to_set: Seq<Seq<char>>,
}

/// The content of a [`Template`].
pub ghost struct TemplateView {
    pub name: Seq<char>,
    pub id: Seq<char>,
    pub description: Seq<char>,
    pub recommended_steps: Seq<StepView>,
}

impl View for TemplateStep {
    type V = StepView;

    open spec fn view(&self) -> StepView {
        StepView {
            step: self.step,
            title: self.title@,
            description: self.description@,
            properties_to_set: strs_view(self.properties_to_set),
        }
    }
}

impl View for Template {
    type V = TemplateView;

    open spec fn view(&self) -> TemplateView {
        TemplateView {
            name: self.name@,
            id: self.id@,
            description: self.description@,
            recommended_steps: self.recommended_steps@.map_values(|s: TemplateStep| s@),
        }
    }
}

/// Step `n` with its title, description and the thought fields it sets.
pub open spec fn step_view(n: usize, title: Seq<char>, description: Seq<char>, props: Seq<Seq<char>>) -> StepView {
    StepView { step: n, title, description, properties_to_set: props }
}

fn step(n: usize, title: &str, description: &str, props: Vec<String>) -> (s: TemplateStep)
    ensures
        s@ == step_view(n, title@, description@, strs_view(props)),
{
    TemplateStep { step: n, title: String::from_str(title), description: String::from_str(description), properties_to_set: props }
}

fn names1(a: &str) -> (v: Vec<String>)
    ensures
        strs_view(v) == seq![a@],
{
    vec![String::from_str(a)]
}

fn names2(a: &str, b: &str) -> (v: Vec<String>)
    ensures
        strs_view(v) == seq![a@, b@],
{
    vec![String::from_str(a), String::from_str(b)]
}

fn names3(a: &str, b: &str, c: &str) -> (v: Vec<String>)
    ensures
        strs_view(v) == seq![a@, b@, c@],
{
    vec![String::from_str(a), String::from_str(b), String::from_str(c)]
}

/// The content of the template built by [`divide_and_conquer`].
pub open spec fn divide_and_conquer_view() -> TemplateView {
    TemplateView {
        name: "Divide and Conquer"@,
        id: "divide-and-conquer"@,
        description: "Decompose a large, complex problem into smaller, independent sub-problems. Solve each sub-problem individually, and then synthesize the results into a unified solution."@,
        recommended_steps: seq![
            step_view(1, "Problem Scope & Boundary Analysis"@, "Clearly define the problem statement, identify inputs and outputs, and specify constraints/assumptions."@, seq!["assumptions"@]),
            step_view(2, "Decomposition Strategy"@, "Divide the main problem into smaller, non-overlapping sub-problems. Formulate a hypothesis for how they will combine."@, seq!["hypothesis"@]),
            step_view(3, "Sub-problem Exploration & Branching"@, "Spawn a branch for each sub-problem to solve them in isolation. (Use branchId and branchFromThought)."@, seq!["branchId"@, "branchFromThought"@]),
            step_view(4, "Synthesis & Solution Merge"@, "Merge the branches and synthesize their results into the main sequence. Validate correctness of the merged solution."@, seq!["parentThoughts"@, "verifiedAssumptions"@]),
        ],
    }
}

/// Decomposition into independent sub-problems solved on branches and merged.
pub fn divide_and_conquer() -> (t: Template)
    ensures
        t@ == divide_and_conquer_view(),
{
    let t = Template {
        name: String::from_str("Divide and Conquer"),
        id: String::from_str("divide-and-conquer"),
        description: String::from_str("Decompose a large, complex problem into smaller, independent sub-problems. Solve each sub-problem individually, and then synthesize the results into a unified solution."),
        recommended_steps: vec![
            step(1, "Problem Scope & Boundary Analysis", "Clearly define the problem statement, identify inputs and outputs, and specify constraints/assumptions.", names1("assumptions")),
            step(2, "Decomposition Strategy", "Divide the main problem into smaller, non-overlapping sub-problems. Formulate a hypothesis for how they will combine.", names1("hypothesis")),
            step(3, "Sub-problem Exploration & Branching", "Spawn a branch for each sub-problem to solve them in isolation. (Use branchId and branchFromThought).", names2("branchId", "branchFromThought")),
            step(4, "Synthesis & Solution Merge", "Merge the branches and synthesize their results into the main sequence. Validate correctness of the merged solution.", names2("parentThoughts", "verifiedAssumptions")),
        ],
    };
    assert(t.recommended_steps@.map_values(|s: TemplateStep| s@) =~= divide_and_conquer_view().recommended_steps);
    t
}

/// The content of the template built by [`hypothesis_test`].
pub open spec fn hypothesis_test_view() -> TemplateView {
    TemplateView {
        name: "Hypothesis Testing"@,
        id: "hypothesis-test"@,
        description: "Establish a testable hypothesis, identify the underlying assumptions, design verification methods, collect evidence, and evaluate/refute the hypothesis."@,
        recommended_steps: seq![
            step_view(1, "Hypothesis Formulation"@, "Define a clear, testable, and falsifiable hypothesis for the problem or bug root cause."@, seq!["hypothesis"@, "verificationMethod"@]),
            step_view(2, "Assumption Mapping"@, "List all assumptions that must hold true for the hypothesis to be valid."@, seq!["assumptions"@]),
            step_view(3, "Evidence Gathering & Verification"@, "Verify each assumption using the defined verification method. Log findings clearly."@, seq!["verifiedAssumptions"@, "confidenceScore"@]),
            step_view(4, "Synthesis / Backtracking"@, "Confirm or refute the hypothesis. If refuted, spawn a revision thought to form a new hypothesis."@, seq!["isRevision"@, "revisesThought"@, "criticism"@]),
        ],
    }
}

/// A falsifiable hypothesis, its assumptions, evidence and verdict.
pub fn hypothesis_test() -> (t: Template)
    ensures
        t@ == hypothesis_test_view(),
{
    let t = Template {
        name: String::from_str("Hypothesis Testing"),
        id: String::from_str("hypothesis-test"),
        description: String::from_str("Establish a testable hypothesis, identify the underlying assumptions, design verification methods, collect evidence, and evaluate/refute the hypothesis."),
        recommended_steps: vec![
            step(1, "Hypothesis Formulation", "Define a clear, testable, and falsifiable hypothesis for the problem or bug root cause.", names2("hypothesis", "verificationMethod")),
            step(2, "Assumption Mapping", "List all assumptions that must hold true for the hypothesis to be valid.", names1("assumptions")),
            step(3, "Evidence Gathering & Verification", "Verify each assumption using the defined verification method. Log findings clearly.", names2("verifiedAssumptions", "confidenceScore")),
            step(4, "Synthesis / Backtracking", "Confirm or refute the hypothesis. If refuted, spawn a revision thought to form a new hypothesis.", names3("isRevision", "revisesThought", "criticism")),
        ],
    };
    assert(t.recommended_steps@.map_values(|s: TemplateStep| s@) =~= hypothesis_test_view().recommended_steps);
    t
}

/// The content of the template built by [`devils_advocate`].
pub open spec fn devils_advocate_view() -> TemplateView {
    TemplateView {
        name: "Devil's Advocate"@,
        id: "devils-advocate"@,
        description: "Identify cognitive biases, challenge dominant assumptions, actively look for edge cases and failure modes, and refine solutions to withstand criticism."@,
        recommended_steps: seq![
            step_view(1, "Proposed Solution Formulation"@, "State the current preferred solution or consensus approach clearly."@, seq!["thought"@]),
            step_view(2, "Assumption Enumeration"@, "List every assumption supporting the proposed solution."@, seq!["assumptions"@]),
            step_view(3, "Adversarial Challenge / Criticism"@, "Actively challenge each assumption. What happens if an assumption is false? Describe worst-case edge cases and failure modes."@, seq!["criticism"@]),
            step_view(4, "Solution Hardening & Revision"@, "Revise the proposed solution to address the criticisms, add mitigations, and establish robust safety margins."@, seq!["isRevision"@, "revisesThought"@, "leftToBeDone"@]),
        ],
    }
}

/// Challenging a preferred solution's assumptions and hardening it.
pub fn devils_advocate() -> (t: Template)
    ensures
        t@ == devils_advocate_view(),
{
    let t = Template {
        name: String::from_str("Devil's Advocate"),
        id: String::from_str("devils-advocate"),
        description: String::from_str("Identify cognitive biases, challenge dominant assumptions, actively look for edge cases and failure modes, and refine solutions to withstand criticism."),
        recommended_steps: vec![
            step(1, "Proposed Solution Formulation", "State the current preferred solution or consensus approach clearly.", names1("thought")),
            step(2, "Assumption Enumeration", "List every assumption supporting the proposed solution.", names1("assumptions")),
            step(3, "Adversarial Challenge / Criticism", "Actively challenge each assumption. What happens if an assumption is false? Describe worst-case edge cases and failure modes.", names1("criticism")),
            step(4, "Solution Hardening & Revision", "Revise the proposed solution to address the criticisms, add mitigations, and establish robust safety margins.", names3("isRevision", "revisesThought", "leftToBeDone")),
        ],
    };
    assert(t.recommended_steps@.map_values(|s: TemplateStep| s@) =~= devils_advocate_view().recommended_steps);
    t
}

/// The template a request selects: the one it names, else all three (also when it names
/// "all", an unknown template, or none).
pub open spec fn selects(r: TemplateSelection, name: Option<Seq<char>>) -> bool {
    let n = match name { Some(x) => x, None => "all"@ };
    if n == "divide-and-conquer"@ {
        r matches TemplateSelection::One(t) && t@ == divide_and_conquer_view()
    } else if n == "hypothesis-test"@ {
        r matches TemplateSelection::One(t) && t@ == hypothesis_test_view()
    } else if n == "devils-advocate"@ {
        r matches TemplateSelection::One(t) && t@ == devils_advocate_view()
    } else {
        r matches TemplateSelection::All(v) && v@.len() == 3
            && v@[0]@ == divide_and_conquer_view()
            && v@[1]@ == hypothesis_test_view()
            && v@[2]@ == devils_advocate_view()
    }
}

/// The description of the `templates` tool.
pub open spec fn templates_description() -> Seq<char> {
    "Retrieve pre-structured reasoning templates to guide complex thinking processes. Includes templates for divide-and-conquer, hypothesis testing, and devil's advocate reasoning."@
}

/// The JSON Schema text of the `templates` tool's arguments.
pub open spec fn templates_schema() -> Seq<char> {
    "{\"type\":\"object\",\"properties\":{\"template\":{\"type\":\"string\",\"enum\":[\"divide-and-conquer\",\"hypothesis-test\",\"devils-advocate\",\"all\"],\"default\":\"all\",\"description\":\"The reasoning template to retrieve (default is 'all')\"}}}"@
}

impl TemplatesTool {
    pub fn name(&self) -> (r: &'static str)
        ensures
            r@ == "reasoning_templates"@,
    {
        "reasoning_templates"
    }

    /// What the tool does, for clients choosing a tool.
    pub fn description(&self) -> (r: &'static str)
        ensures
            r@ == templates_description(),
    {
        "Retrieve pre-structured reasoning templates to guide complex thinking processes. Includes templates for divide-and-conquer, hypothesis testing, and devil's advocate reasoning."
    }

    /// The JSON Schema of the tool's arguments, as JSON text.
    pub fn input_schema(&self) -> (r: String)
        ensures
            r@ == templates_schema(),
    {
        String::from_str("{\"type\":\"object\",\"properties\":{\"template\":{\"type\":\"string\",\"enum\":[\"divide-and-conquer\",\"hypothesis-test\",\"devils-advocate\",\"all\"],\"default\":\"all\",\"description\":\"The reasoning template to retrieve (default is 'all')\"}}}")
    }

    /// The template named by `template` (default "all").
    pub fn execute(&self, template: Option<&str>) -> (r: TemplateSelection)
        ensures
            selects(r, match template { Some(t) => Some(t@), None => None }),
    {
        let name = match template {
            Some(t) => t,
            None => "all",
        };
        if str_eq(name, "divide-and-conquer") {
            TemplateSelection::One(divide_and_conquer())
        } else if str_eq(name, "hypothesis-test") {
            TemplateSelection::One(hypothesis_test())
        } else if str_eq(name, "devils-advocate") {
            TemplateSelection::One(devils_advocate())
        } else {
            TemplateSelection::All(vec![divide_and_conquer(), hypothesis_test(), devils_advocate()])
        }
    }
}

} // verus!
