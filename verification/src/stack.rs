//! The stack of AWS resources that a deployment rests on, as the service describes it.

use crate::text::{contains, contains_text, opt_str, opt_text, same, trimmed};
use vstd::prelude::*;

verus! {

/// One output of a stack.
pub struct Output {
    pub key: Option<String>,
    pub value: Option<String>,
}

/// A stack.
pub struct Stack {
    pub description: Option<String>,
    pub outputs: Vec<Output>,
}

/// The value of the first output with this key.
pub open spec fn output_value(outputs: Seq<Output>, key: Seq<char>) -> Option<Seq<char>>
    decreases outputs.len(),
{
    if outputs.len() == 0 {
        None
    } else if opt_text(outputs[0].key) == Some(key) {
        opt_text(outputs[0].value)
    } else {
        output_value(outputs.skip(1), key)
    }
}

/// A stack that a deployment made: it says so, and has the outputs that only such a stack
/// has.
pub open spec fn own_stack(stack: Stack) -> bool {
    &&& opt_text(stack.description) matches Some(d) && contains_text(d, "Hellbox prerequisites"@)
    &&& output_value(stack.outputs@, "ArtifactBucket"@) is Some
    &&& output_value(stack.outputs@, "BuildRoleArn"@) is Some
}

/// The value of the first output with this key.
pub fn find_output(outputs: &Vec<Output>, key: &str) -> (r: Option<String>)
    ensures
        opt_text(r) == output_value(outputs@, key@),
{
    let n: usize = outputs.len();
    let mut i: usize = 0;
    assert(outputs@.skip(0) =~= outputs@);
    while i < n
        invariant
            n == outputs@.len(),
            i <= n,
            output_value(outputs@, key@) == output_value(outputs@.skip(i as int), key@),
        decreases n - i,
    {
        assert(outputs@.skip(i as int).skip(1) =~= outputs@.skip(i + 1));
        let here = match &outputs[i].key {
            Some(k) => same(k.as_str(), key),
            None => false,
        };
        if here {
            return match &outputs[i].value {
                Some(v) => Some(v.as_str().to_owned()),
                None => None,
            };
        }
        i += 1;
    }
    None
}

/// The value of a stack's output.
pub fn stack_output(stack: &Stack, key: &str) -> (r: Option<String>)
    ensures
        opt_text(r) == output_value(stack.outputs@, key@),
{
    find_output(&stack.outputs, key)
}

/// Whether a deployment made this stack.
pub fn is_hellbox_stack(stack: &Stack) -> (r: bool)
    ensures
        r == own_stack(*stack),
{
    let description_ok = match &stack.description {
        Some(d) => contains(d.as_str(), "Hellbox prerequisites"),
        None => false,
    };
    let outputs_ok = stack_output(stack, "ArtifactBucket").is_some() && stack_output(
        stack,
        "BuildRoleArn",
    ).is_some();
    description_ok && outputs_ok
}

/// The name of the stack: the one set in the environment, unless that is blank.
pub open spec fn chosen_stack(set: Option<Seq<char>>) -> Seq<char> {
    match set {
        Some(s) => if trimmed(s).len() > 0 {
            s
        } else {
            "Hellbox"@
        },
        None => "Hellbox"@,
    }
}

/// The name of the stack.
pub fn stack_name(set: Option<&str>) -> (r: String)
    ensures
        r@ == chosen_stack(opt_str(set)),
{
    match set {
        Some(s) => if crate::text::trim(s).is_empty() {
            "Hellbox".to_owned()
        } else {
            s.to_owned()
        },
        None => "Hellbox".to_owned(),
    }
}

/// An output is the value of the first entry with its key, wherever that stands, and there is
/// none where no entry has the key.
pub proof fn law_first_output_counts(outputs: Seq<Output>, key: Seq<char>, i: int)
    requires
        0 <= i < outputs.len(),
        forall|k: int| 0 <= k < i ==> opt_text((#[trigger] outputs[k]).key) != Some(key),
    ensures
        opt_text(outputs[i].key) == Some(key) ==> output_value(outputs, key) == opt_text(
            outputs[i].value,
        ),
        i == outputs.len() - 1 && opt_text(outputs[i].key) != Some(key) ==> output_value(
            outputs,
            key,
        ) is None,
    decreases i,
{
    let rest = outputs.skip(1);
    if i > 0 {
        assert(opt_text(outputs[0].key) != Some(key));
        assert forall|k: int| 0 <= k < i - 1 implies opt_text((#[trigger] rest[k]).key) != Some(
            key,
        ) by {
            assert(rest[k] == outputs[k + 1]);
        }
        law_first_output_counts(rest, key, i - 1);
    } else {
        assert(rest.len() == 0 ==> output_value(rest, key) is None);
    }
}

/// A stack counts as ours exactly where its description says so and it has a bucket and a
/// build role to show.
pub proof fn law_own_stacks_show_it(stack: Stack)
    ensures
        own_stack(stack) ==> stack.description is Some && contains_text(
            stack.description->0@,
            "Hellbox prerequisites"@,
        ) && output_value(stack.outputs@, "ArtifactBucket"@) is Some && output_value(
            stack.outputs@,
            "BuildRoleArn"@,
        ) is Some,
        stack.description is Some && contains_text(
            stack.description->0@,
            "Hellbox prerequisites"@,
        ) && output_value(stack.outputs@, "ArtifactBucket"@) is Some && output_value(
            stack.outputs@,
            "BuildRoleArn"@,
        ) is Some ==> own_stack(stack),
{
}

/// The stack is the one that the environment names, and Hellbox's own where that names none.
pub proof fn law_stack_can_be_named(set: Seq<char>)
    ensures
        chosen_stack(None) == "Hellbox"@,
        trimmed(set).len() > 0 ==> chosen_stack(Some(set)) == set,
        trimmed(set).len() == 0 ==> chosen_stack(Some(set)) == "Hellbox"@,
{
}

} // verus!
