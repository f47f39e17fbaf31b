use vstd::prelude::*;
use crate::format::{NumberTexts, num_text};
use crate::text::{decimal, u64_to_decimal};

verus! {

/// A runtime error; the numbers of a range violation are IEEE-754 double bits.
pub enum RuntimeError {
    R001 { instance: String },
    R002,
    R003 { depth: usize },
    R004 { index: usize, len: usize },
    R005 { instance: String, field: String },
    R006 { field: String, value: u64, min: u64, max: u64 },
    R007 { entity: String, reason: String },
    R008 { rule: String },
    R009 { field: String },
    /// A write blocked by the security context.
    R010 { rule: String, reason: String },
    /// The cluster lost its quorum and cannot commit writes.
    R011 { reason: String },
    /// The node is isolated and only reads.
    R012 { reason: String },
    /// Replication of the log lags beyond its threshold.
    R013 { reason: String },
    /// A reference to an entity on another node cannot be resolved.
    R014 { node: String, entity: String },
    /// The target of an orchestration write cannot be reached.
    R015 { target: String },
    /// Computing a cluster aggregate timed out.
    R016 { reason: String },
    /// A migration target lacks capacity.
    R017 { target: String, reason: String },
    /// An operation was given values of the wrong types.
    R018 { op: String, left: String, right: String },
}

/// The code of each error; the cluster-era errors report codes of the L0xx range.
pub open spec fn error_code(e: RuntimeError) -> Seq<char> {
    match e {
        RuntimeError::R001 { .. } => "R001"@,
        RuntimeError::R002 => "R002"@,
        RuntimeError::R003 { .. } => "R003"@,
        RuntimeError::R004 { .. } => "R004"@,
        RuntimeError::R005 { .. } => "R005"@,
        RuntimeError::R006 { .. } => "R006"@,
        RuntimeError::R007 { .. } => "R007"@,
        RuntimeError::R008 { .. } => "R008"@,
        RuntimeError::R009 { .. } => "R009"@,
        RuntimeError::R010 { .. } => "L039"@,
        RuntimeError::R011 { .. } => "L060"@,
        RuntimeError::R012 { .. } => "L061"@,
        RuntimeError::R013 { .. } => "L062"@,
        RuntimeError::R014 { .. } => "L063"@,
        RuntimeError::R015 { .. } => "L064"@,
        RuntimeError::R016 { .. } => "L065"@,
        RuntimeError::R017 { .. } => "L066"@,
        RuntimeError::R018 { .. } => "R018"@,
    }
}

/// The message of each error; the numbers of a range violation are the
/// texts given for them.
pub open spec fn error_message(e: RuntimeError, t: Seq<(u64, String)>) -> Seq<char> {
    match e {
        RuntimeError::R001 { instance } => "Access to deleted instance: '"@ + instance@ + "'"@,
        RuntimeError::R002 => "Division by zero"@,
        RuntimeError::R003 { depth } => "Rule re-entrancy limit exceeded ("@ + decimal(depth as nat)
            + ")"@,
        RuntimeError::R004 { index, len } => "List index out of bounds: "@ + decimal(index as nat)
            + " of "@ + decimal(len as nat),
        RuntimeError::R005 { instance, field } => "Null field access: '"@ + instance@ + "."@
            + field@ + "'"@,
        RuntimeError::R006 { field, value, min, max } => "@range violation: "@ + field@ + " = "@
            + num_text(t, value) + ", expected "@ + num_text(t, min) + "\u{2013}"@ + num_text(t, max),
        RuntimeError::R007 { entity, reason } => "External entity sync failed: "@ + entity@ + " ("@
            + reason@ + ")"@,
        RuntimeError::R008 { rule } => "Timer conflict: rule '"@ + rule@
            + "' already has a pending timer"@,
        RuntimeError::R009 { field } => "Cannot update derived field '"@ + field@
            + "' \u{2014} it is computed automatically"@,
        RuntimeError::R010 { rule, reason } => "Security violation in rule '"@ + rule@ + "': "@
            + reason@ + ". Write action blocked by auth context."@,
        RuntimeError::R011 { reason } => "Quorum lost \u{2014} cluster cannot commit writes: "@
            + reason@,
        RuntimeError::R012 { reason } => "Node isolated \u{2014} operating in read-only mode: "@
            + reason@,
        RuntimeError::R013 { reason } => "WAL replication lag exceeds threshold: "@ + reason@,
        RuntimeError::R014 { node, entity } => "Cross-node entity reference unresolvable: "@ + node@
            + "."@ + entity@,
        RuntimeError::R015 { target } => "Orchestration write target unreachable: "@ + target@,
        RuntimeError::R016 { reason } => "Cluster aggregate computation timeout: "@ + reason@,
        RuntimeError::R017 { target, reason } => "Migration target '"@ + target@
            + "' has insufficient capacity: "@ + reason@,
        RuntimeError::R018 { op, left, right } => "Type mismatch in '"@ + op@ + "': "@ + left@
            + " and "@ + right@,
    }
}

impl RuntimeError {
    /// The error's code.
    pub fn code(&self) -> (c: &'static str)
        ensures
            c@ == error_code(*self),
    {
        match self {
            RuntimeError::R001 { .. } => "R001",
            RuntimeError::R002 => "R002",
            RuntimeError::R003 { .. } => "R003",
            RuntimeError::R004 { .. } => "R004",
            RuntimeError::R005 { .. } => "R005",
            RuntimeError::R006 { .. } => "R006",
            RuntimeError::R007 { .. } => "R007",
            RuntimeError::R008 { .. } => "R008",
            RuntimeError::R009 { .. } => "R009",
            RuntimeError::R010 { .. } => "L039",
            RuntimeError::R011 { .. } => "L060",
            RuntimeError::R012 { .. } => "L061",
            RuntimeError::R013 { .. } => "L062",
            RuntimeError::R014 { .. } => "L063",
            RuntimeError::R015 { .. } => "L064",
            RuntimeError::R016 { .. } => "L065",
            RuntimeError::R017 { .. } => "L066",
            RuntimeError::R018 { .. } => "R018",
        }
    }

    /// The error's message; `texts` gives the text of each number.
    pub fn message(&self, texts: &NumberTexts) -> (m: String)
        ensures
            m@ == error_message(*self, texts.entries@),
    {
        match self {
            RuntimeError::R001 { instance } => {
                let mut s = String::from_str("Access to deleted instance: '");
                s.append(instance.as_str());
                s.append("'");
                s
            },
            RuntimeError::R002 => String::from_str("Division by zero"),
            RuntimeError::R003 { depth } => {
                let mut s = String::from_str("Rule re-entrancy limit exceeded (");
                let d = u64_to_decimal(*depth as u64);
                s.append(d.as_str());
                s.append(")");
                s
            },
            RuntimeError::R004 { index, len } => {
                let mut s = String::from_str("List index out of bounds: ");
                let i = u64_to_decimal(*index as u64);
                s.append(i.as_str());
                s.append(" of ");
                let l = u64_to_decimal(*len as u64);
                s.append(l.as_str());
                s
            },
            RuntimeError::R005 { instance, field } => {
                let mut s = String::from_str("Null field access: '");
                s.append(instance.as_str());
                s.append(".");
                s.append(field.as_str());
                s.append("'");
                s
            },
            RuntimeError::R006 { field, value, min, max } => {
                let mut s = String::from_str("@range violation: ");
                s.append(field.as_str());
                s.append(" = ");
                let v = texts.text_of(*value);
                s.append(v.as_str());
                s.append(", expected ");
                let lo = texts.text_of(*min);
                s.append(lo.as_str());
                s.append("\u{2013}");
                let hi = texts.text_of(*max);
                s.append(hi.as_str());
                s
            },
            RuntimeError::R007 { entity, reason } => {
                let mut s = String::from_str("External entity sync failed: ");
                s.append(entity.as_str());
                s.append(" (");
                s.append(reason.as_str());
                s.append(")");
                s
            },
            RuntimeError::R008 { rule } => {
                let mut s = String::from_str("Timer conflict: rule '");
                s.append(rule.as_str());
                s.append("' already has a pending timer");
                s
            },
            RuntimeError::R009 { field } => {
                let mut s = String::from_str("Cannot update derived field '");
                s.append(field.as_str());
                s.append("' \u{2014} it is computed automatically");
                s
            },
            RuntimeError::R010 { rule, reason } => {
                let mut s = String::from_str("Security violation in rule '");
                s.append(rule.as_str());
                s.append("': ");
                s.append(reason.as_str());
                s.append(". Write action blocked by auth context.");
                s
            },
            RuntimeError::R011 { reason } => {
                let mut s = String::from_str("Quorum lost \u{2014} cluster cannot commit writes: ");
                s.append(reason.as_str());
                s
            },
            RuntimeError::R012 { reason } => {
                let mut s = String::from_str("Node isolated \u{2014} operating in read-only mode: ");
                s.append(reason.as_str());
                s
            },
            RuntimeError::R013 { reason } => {
                let mut s = String::from_str("WAL replication lag exceeds threshold: ");
                s.append(reason.as_str());
                s
            },
            RuntimeError::R014 { node, entity } => {
                let mut s = String::from_str("Cross-node entity reference unresolvable: ");
                s.append(node.as_str());
                s.append(".");
                s.append(entity.as_str());
                s
            },
            RuntimeError::R015 { target } => {
                let mut s = String::from_str("Orchestration write target unreachable: ");
                s.append(target.as_str());
                s
            },
            RuntimeError::R016 { reason } => {
                let mut s = String::from_str("Cluster aggregate computation timeout: ");
                s.append(reason.as_str());
                s
            },
            RuntimeError::R017 { target, reason } => {
                let mut s = String::from_str("Migration target '");
                s.append(target.as_str());
                s.append("' has insufficient capacity: ");
                s.append(reason.as_str());
                s
            },
            RuntimeError::R018 { op, left, right } => {
                let mut s = String::from_str("Type mismatch in '");
                s.append(op.as_str());
                s.append("': ");
                s.append(left.as_str());
                s.append(" and ");
                s.append(right.as_str());
                s
            },
        }
    }
}

} // verus!
