//! The core tool: recording a thought.

use vstd::prelude::*;
use crate::graph::mermaid::mermaid_text;
use crate::persistence::ThoughtStore;
use crate::server::{SequentialThinkingServer, stays_in_session, branch_keys, branches_view, confidence_history, prepared, record_branch};
use crate::types::{ThoughtData, Timestamp, ToolResult, thoughts_view, strs_view};

verus! {

/// The `sequentialthinking` tool.
#[derive(Clone, Copy, Debug, PartialEq, Eq, Structural)]
pub struct SequentialThinkingTool;

/// The description of the `sequentialthinking` tool.
pub open spec fn sequentialthinking_description() -> Seq<char> {
    "A detailed tool for dynamic and reflective problem-solving through thoughts. Supports branching, revisions, Graph of Thoughts (GoT) merging, and Clear Thought parameters."@
}

/// The JSON Schema text of the `sequentialthinking` tool's arguments.
pub open spec fn sequentialthinking_schema() -> Seq<char> {
    "{\"type\":\"object\",\"properties\":{\"thought\":{\"type\":\"string\",\"description\":\"Your current thinking step (analysis, observations, or conclusions)\"},\"nextThoughtNeeded\":{\"type\":\"boolean\",\"description\":\"Whether another thought step is needed\"},\"thoughtNumber\":{\"type\":\"integer\",\"description\":\"Current thought number in the sequence (starts at 1)\"},\"totalThoughts\":{\"type\":\"integer\",\"description\":\"Estimated total thoughts needed (can be adjusted dynamically)\"},\"isRevision\":{\"type\":\"boolean\",\"description\":\"Whether this revises previous thinking steps\"},\"revisesThought\":{\"type\":\"integer\",\"description\":\"Which thought number is being reconsidered/revised\"},\"branchFromThought\":{\"type\":\"integer\",\"description\":\"The thought number from which this alternative branch branches out\"},\"branchId\":{\"type\":\"string\",\"description\":\"Identifier for the current branch\"},\"needsMoreThoughts\":{\"type\":\"boolean\",\"description\":\"Explicit request to add more thoughts to the estimate\"},\"parentThoughts\":{\"type\":\"array\",\"items\":{\"type\":\"integer\"},\"description\":\"Array of multiple parent thought numbers to merge branches (Graph of Thoughts)\"},\"assumptions\":{\"type\":\"array\",\"items\":{\"type\":\"string\"},\"description\":\"List of assumptions made in this thought step\"},\"verifiedAssumptions\":{\"type\":\"array\",\"items\":{\"type\":\"string\"},\"description\":\"Assumptions verified or refuted in this step\"},\"confidenceScore\":{\"type\":\"number\",\"description\":\"Confidence level in this line of reasoning (0.0 to 1.0)\"},\"criticism\":{\"type\":\"string\",\"description\":\"Self-criticism or evaluation of previous thoughts\"},\"hypothesis\":{\"type\":\"string\",\"description\":\"Hypothesis to be tested in this thought step\"},\"verificationMethod\":{\"type\":\"string\",\"description\":\"Method to verify or test the hypothesis\"},\"leftToBeDone\":{\"type\":\"array\",\"items\":{\"type\":\"string\"},\"description\":\"List of items/tasks left to be done or verified\"},\"sessionId\":{\"type\":\"string\",\"description\":\"Unique identifier for the current thinking session\"}},\"required\":[\"thought\",\"nextThoughtNeeded\",\"thoughtNumber\",\"totalThoughts\"]}"@
}

impl SequentialThinkingTool {
    pub fn name(&self) -> (r: &'static str)
        ensures
            r@ == "sequentialthinking"@,
    {
        "sequentialthinking"
    }

    /// What the tool does, for clients choosing a tool.
    pub fn description(&self) -> (r: &'static str)
        ensures
            r@ == sequentialthinking_description(),
    {
        "A detailed tool for dynamic and reflective problem-solving through thoughts. Supports branching, revisions, Graph of Thoughts (GoT) merging, and Clear Thought parameters."
    }

    /// The JSON Schema of the tool's arguments, as JSON text.
    pub fn input_schema(&self) -> (r: String)
        ensures
            r@ == sequentialthinking_schema(),
    {
        String::from_str("{\"type\":\"object\",\"properties\":{\"thought\":{\"type\":\"string\",\"description\":\"Your current thinking step (analysis, observations, or conclusions)\"},\"nextThoughtNeeded\":{\"type\":\"boolean\",\"description\":\"Whether another thought step is needed\"},\"thoughtNumber\":{\"type\":\"integer\",\"description\":\"Current thought number in the sequence (starts at 1)\"},\"totalThoughts\":{\"type\":\"integer\",\"description\":\"Estimated total thoughts needed (can be adjusted dynamically)\"},\"isRevision\":{\"type\":\"boolean\",\"description\":\"Whether this revises previous thinking steps\"},\"revisesThought\":{\"type\":\"integer\",\"description\":\"Which thought number is being reconsidered/revised\"},\"branchFromThought\":{\"type\":\"integer\",\"description\":\"The thought number from which this alternative branch branches out\"},\"branchId\":{\"type\":\"string\",\"description\":\"Identifier for the current branch\"},\"needsMoreThoughts\":{\"type\":\"boolean\",\"description\":\"Explicit request to add more thoughts to the estimate\"},\"parentThoughts\":{\"type\":\"array\",\"items\":{\"type\":\"integer\"},\"description\":\"Array of multiple parent thought numbers to merge branches (Graph of Thoughts)\"},\"assumptions\":{\"type\":\"array\",\"items\":{\"type\":\"string\"},\"description\":\"List of assumptions made in this thought step\"},\"verifiedAssumptions\":{\"type\":\"array\",\"items\":{\"type\":\"string\"},\"description\":\"Assumptions verified or refuted in this step\"},\"confidenceScore\":{\"type\":\"number\",\"description\":\"Confidence level in this line of reasoning (0.0 to 1.0)\"},\"criticism\":{\"type\":\"string\",\"description\":\"Self-criticism or evaluation of previous thoughts\"},\"hypothesis\":{\"type\":\"string\",\"description\":\"Hypothesis to be tested in this thought step\"},\"verificationMethod\":{\"type\":\"string\",\"description\":\"Method to verify or test the hypothesis\"},\"leftToBeDone\":{\"type\":\"array\",\"items\":{\"type\":\"string\"},\"description\":\"List of items/tasks left to be done or verified\"},\"sessionId\":{\"type\":\"string\",\"description\":\"Unique identifier for the current thinking session\"}},\"required\":[\"thought\",\"nextThoughtNeeded\",\"thoughtNumber\",\"totalThoughts\"]}")
    }

    /// Records the thought the client sent (see [`SequentialThinkingServer::process_thought`]).
    pub fn execute<S: ThoughtStore>(&self, server: &mut SequentialThinkingServer<S>, input: ThoughtData) -> (r: Result<ToolResult, String>)
        ensures
            r matches Ok(res) ==> {
                &&& res.thought_number == input@.thought_number
                &&& res.total_thoughts == (if input@.thought_number > input@.total_thoughts { input@.thought_number } else { input@.total_thoughts })
                &&& res.next_thought_needed == input@.next_thought_needed
                &&& res.thought_history_length == final(server).thought_history@.len()
                &&& res.session_id@ == final(server).current_session_id@
                &&& input@.session_id matches Some(s) ==> res.session_id@ == s
                &&& (input@.session_id is None && old(server).current_session_id@.len() > 0) ==> res.session_id@ == old(server).current_session_id@
                &&& thoughts_view(final(server).thought_history@).last().timestamp is Some
                &&& res.thought_graph_mermaid@ == mermaid_text(thoughts_view(final(server).thought_history@))
                &&& strs_view(res.branches) == branch_keys(branches_view(final(server).branches@))
                &&& res.confidence_history@ == confidence_history(thoughts_view(final(server).thought_history@))
                &&& strs_view(res.left_to_be_done) == (match input@.left_to_be_done { Some(l) => l, None => Seq::empty() })
            },
            r is Err && stays_in_session(input@.session_id, old(server).current_session_id@) ==> {
                &&& thoughts_view(final(server).thought_history@) == thoughts_view(old(server).thought_history@)
                &&& branches_view(final(server).branches@) == branches_view(old(server).branches@)
                &&& final(server).current_session_id@ == old(server).current_session_id@
            },
            r is Ok ==> exists|now: Timestamp| {
                let p = #[trigger] prepared(input@, now);
                let h = thoughts_view(final(server).thought_history@);
                &&& old(server).store.saves(final(server).current_session_id@, p, final(server).store)
                &&& h.len() >= 1
                &&& h.last() == p
                &&& final(server).current_session_id@ != old(server).current_session_id@
                    ==> old(server).store.loads(final(server).current_session_id@, h.drop_last())
                &&& stays_in_session(input@.session_id, old(server).current_session_id@) ==> {
                    &&& h == thoughts_view(old(server).thought_history@).push(p)
                    &&& branches_view(final(server).branches@) == record_branch(branches_view(old(server).branches@), p)
                }
            },
            old(server).consistent() ==> final(server).consistent(),
    {
        server.process_thought(input)
    }
}

} // verus!
