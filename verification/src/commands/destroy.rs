//! Taking everything down again.
//!
//! Nothing is removed that a deployment did not make: the stack has to say that it is one of
//! ours, and a bucket is emptied only where that very stack names it as its own.

use crate::poll::PollOpts;
use crate::stack::{is_hellbox_stack, output_value, own_stack, stack_output, Stack};
use crate::state::{Capsule, CapsuleView};
use crate::text::{
    contains, contains_text, has_prefix, occurs_at, opt_str, opt_text, owned_texts, same, trim, trimmed,
};
use vstd::prelude::*;

verus! {

/// What is removed in the account, beside machine and image: the stack, and the bucket that
/// is emptied for it.
pub struct Plan {
    pub stack: bool,
    pub bucket: Option<String>,
}

/// One step of taking everything down.
#[derive(Clone, Copy, PartialEq, Eq, Structural, Debug)]
pub enum DestroyStep {
    RemoveMachine,
    EmptyBucket,
    DeleteStack,
    RemoveLocal,
}

/// What is said of a stack that is not ours.
pub open spec fn foreign_stack_text(stack: Seq<char>, region: Seq<char>) -> Seq<char> {
    "stack '"@ + stack + "' in "@ + region
        + " does not look like a Hellbox prerequisites stack (missing the Hellbox template markers) — refusing to delete it. If you deployed with a custom stack name, set HELLBOX_STACK; otherwise remove the stack manually."@
}

/// What is said where stack and settings name different buckets.
pub open spec fn bucket_mismatch_text(
    stack: Seq<char>,
    owned: Seq<char>,
    configured: Seq<char>,
) -> Seq<char> {
    "the '"@ + stack + "' stack owns bucket '"@ + owned
        + "' but ~/.hellbox/config.toml says '"@ + configured
        + "' — refusing to touch either until that mismatch is resolved (stale config from an older deploy?). Run `hellbox deploy` to rewrite the config, or fix it by hand."@
}

/// What is to be removed: whether the stack is, and which bucket is emptied. An error where
/// the stack is not ours, or its bucket is not the one in the settings.
pub open spec fn plan_for(
    name: Seq<char>,
    region: Seq<char>,
    configured: Seq<char>,
    stack: Option<Stack>,
) -> Result<(bool, Option<Seq<char>>), Seq<char>> {
    match stack {
        None => Ok((false, None)),
        Some(s) => {
            let bucket = output_value(s.outputs@, "ArtifactBucket"@);
            if !own_stack(s) {
                Err(foreign_stack_text(name, region))
            } else if bucket != Some(configured) {
                Err(bucket_mismatch_text(name, bucket->0, configured))
            } else {
                Ok((true, bucket))
            }
        },
    }
}

/// A stack, where there is one.
pub open spec fn opt_stack(o: Option<&Stack>) -> Option<Stack> {
    match o {
        Some(s) => Some(*s),
        None => None,
    }
}

/// Decides what is to be removed.
pub fn plan(name: &str, region: &str, configured: &str, stack: Option<&Stack>) -> (r: Result<
    Plan,
    String,
>)
    ensures
        match plan_for(name@, region@, configured@, opt_stack(stack)) {
            Ok((s, b)) => r matches Ok(p) && p.stack == s && opt_text(p.bucket) == b,
            Err(e) => r matches Err(text) && text@ == e,
        },
{
    let s = match stack {
        None => {
            return Ok(Plan { stack: false, bucket: None });
        },
        Some(s) => s,
    };
    if !is_hellbox_stack(s) {
        let mut e = "stack '".to_owned();
        e.append(name);
        e.append("' in ");
        e.append(region);
        e.append(
            " does not look like a Hellbox prerequisites stack (missing the Hellbox template markers) — refusing to delete it. If you deployed with a custom stack name, set HELLBOX_STACK; otherwise remove the stack manually.",
        );
        return Err(e);
    }
    match stack_output(s, "ArtifactBucket") {
        Some(b) => if same(b.as_str(), configured) {
            Ok(Plan { stack: true, bucket: Some(b) })
        } else {
            let mut e = "the '".to_owned();
            e.append(name);
            e.append("' stack owns bucket '");
            e.append(b.as_str());
            e.append("' but ~/.hellbox/config.toml says '");
            e.append(configured);
            e.append(
                "' — refusing to touch either until that mismatch is resolved (stale config from an older deploy?). Run `hellbox deploy` to rewrite the config, or fix it by hand.",
            );
            Err(e)
        },
        None => Ok(Plan { stack: true, bucket: None }),
    }
}

/// What a record holds, where there is one.
pub open spec fn opt_capsule(o: Option<&Capsule>) -> Option<CapsuleView> {
    match o {
        Some(c) => Some(c@),
        None => None,
    }
}

/// Whether a record names a machine or an image.
pub open spec fn has_machine_or_image(c: Option<CapsuleView>) -> bool {
    c matches Some(v) && (v.microvm_id is Some || v.image_arn is Some)
}

/// The lines that tell of machine and image.
pub open spec fn machine_lines(c: Option<CapsuleView>) -> Seq<Seq<char>> {
    if !has_machine_or_image(c) {
        seq!["  • MicroVM/image: none recorded — skipped"@]
    } else {
        let machine = match c->0.microvm_id {
            Some(id) => seq!["  • MicroVM  "@ + id + "  (the running DOOM machine)"@],
            None => Seq::empty(),
        };
        let image = match c->0.image_arn {
            Some(arn) => seq!["  • Image    "@ + arn + "  (the baked DOOM snapshot)"@],
            None => Seq::empty(),
        };
        machine + image
    }
}

/// The lines that tell of bucket and stack.
pub open spec fn stack_lines(
    name: Seq<char>,
    region: Seq<char>,
    stack: bool,
    bucket: Option<Seq<char>>,
) -> Seq<Seq<char>> {
    if !stack {
        seq!["  • Stack    '"@ + name + "': not found in "@ + region + " — skipped"@]
    } else {
        match bucket {
            Some(b) => seq![
                "  • Bucket   s3://"@ + b
                    + "  (build contexts only; emptied so CloudFormation can delete it)"@,
                "  • Stack    '"@ + name + "' in "@ + region
                    + "  (verified Hellbox prerequisites: the bucket + two IAM roles)"@,
            ],
            None => seq![
                "  • Stack    '"@ + name + "' in "@ + region
                    + "  (verified Hellbox prerequisites)"@,
            ],
        }
    }
}

/// All lines that tell what goes away.
pub open spec fn plan_lines(
    c: Option<CapsuleView>,
    name: Seq<char>,
    region: Seq<char>,
    stack: bool,
    bucket: Option<Seq<char>>,
) -> Seq<Seq<char>> {
    seq!["hellbox destroy will remove exactly these Hellbox-created resources:"@] + machine_lines(c)
        + stack_lines(name, region, stack, bucket) + seq![
        "  • Local    ~/.hellbox/config.toml and ~/.hellbox/state.json"@,
        "Nothing else in your AWS account is touched."@,
    ]
}

/// Adds a line.
pub(crate) fn add_line(lines: &mut Vec<String>, line: String)
    ensures
        owned_texts(final(lines)@) == owned_texts(old(lines)@).push(line@),
{
    let ghost was = lines@;
    let ghost text = line@;
    lines.push(line);
    assert(owned_texts(lines@) =~= owned_texts(was).push(text));
}

/// Adds the lines that tell of machine and image.
fn add_machine_lines(lines: &mut Vec<String>, capsule: Option<&Capsule>)
    ensures
        owned_texts(final(lines)@) == owned_texts(old(lines)@) + machine_lines(
            opt_capsule(capsule),
        ),
{
    let ghost was = owned_texts(lines@);
    let mut any = false;
    if let Some(c) = capsule {
        if let Some(id) = &c.microvm_id {
            let mut s = "  • MicroVM  ".to_owned();
            s.append(id.as_str());
            s.append("  (the running DOOM machine)");
            add_line(lines, s);
            any = true;
        }
        if let Some(arn) = &c.image_arn {
            let mut s = "  • Image    ".to_owned();
            s.append(arn.as_str());
            s.append("  (the baked DOOM snapshot)");
            add_line(lines, s);
            any = true;
        }
    }
    if !any {
        add_line(lines, "  • MicroVM/image: none recorded — skipped".to_owned());
    }
    assert(owned_texts(lines@) =~= was + machine_lines(opt_capsule(capsule)));
}

/// Adds the lines that tell of bucket and stack.
fn add_stack_lines(lines: &mut Vec<String>, name: &str, region: &str, plan: &Plan)
    ensures
        owned_texts(final(lines)@) == owned_texts(old(lines)@) + stack_lines(
            name@,
            region@,
            plan.stack,
            opt_text(plan.bucket),
        ),
{
    let ghost was = owned_texts(lines@);
    if !plan.stack {
        let mut s = "  • Stack    '".to_owned();
        s.append(name);
        s.append("': not found in ");
        s.append(region);
        s.append(" — skipped");
        add_line(lines, s);
    } else {
        if let Some(b) = &plan.bucket {
            let mut s = "  • Bucket   s3://".to_owned();
            s.append(b.as_str());
            s.append("  (build contexts only; emptied so CloudFormation can delete it)");
            add_line(lines, s);
        }
        let mut s = "  • Stack    '".to_owned();
        s.append(name);
        s.append("' in ");
        s.append(region);
        if plan.bucket.is_some() {
            s.append("  (verified Hellbox prerequisites: the bucket + two IAM roles)");
        } else {
            s.append("  (verified Hellbox prerequisites)");
        }
        add_line(lines, s);
    }
    assert(owned_texts(lines@) =~= was + stack_lines(
        name@,
        region@,
        plan.stack,
        opt_text(plan.bucket),
    ));
}

/// The lines that tell what goes away.
pub fn describe(capsule: Option<&Capsule>, name: &str, region: &str, plan: &Plan) -> (lines: Vec<
    String,
>)
    ensures
        owned_texts(lines@) == plan_lines(
            opt_capsule(capsule),
            name@,
            region@,
            plan.stack,
            opt_text(plan.bucket),
        ),
{
    let mut lines: Vec<String> = Vec::new();
    add_line(
        &mut lines,
        "hellbox destroy will remove exactly these Hellbox-created resources:".to_owned(),
    );
    assert(owned_texts(lines@) =~= seq![
        "hellbox destroy will remove exactly these Hellbox-created resources:"@,
    ]);
    add_machine_lines(&mut lines, capsule);
    add_stack_lines(&mut lines, name, region, plan);
    add_line(
        &mut lines,
        "  • Local    ~/.hellbox/config.toml and ~/.hellbox/state.json".to_owned(),
    );
    add_line(&mut lines, "Nothing else in your AWS account is touched.".to_owned());
    assert(owned_texts(lines@) =~= plan_lines(
        opt_capsule(capsule),
        name@,
        region@,
        plan.stack,
        opt_text(plan.bucket),
    ));
    lines
}

/// Whether the plan is confirmed: with the flag, or by typing the word. Without the flag
/// there has to be someone to type it.
pub fn confirm(yes: bool, line: Option<&str>) -> (r: Result<(), String>)
    ensures
        match r {
            Ok(()) => yes || (opt_str(line) matches Some(l) && trimmed(l) == "destroy"@),
            Err(e) => !yes && match opt_str(line) {
                None => e@
                    == "not an interactive terminal — rerun with --yes to confirm the plan above"@,
                Some(l) => trimmed(l) != "destroy"@ && e@ == "aborted — nothing was deleted"@,
            },
        },
{
    if yes {
        return Ok(());
    }
    match line {
        None => Err(
            "not an interactive terminal — rerun with --yes to confirm the plan above".to_owned(),
        ),
        Some(l) => if same(trim(l), "destroy") {
            Ok(())
        } else {
            Err("aborted — nothing was deleted".to_owned())
        },
    }
}

/// The steps, in order.
pub open spec fn steps_for(c: Option<CapsuleView>, stack: bool, bucket: bool) -> Seq<DestroyStep> {
    let machine = if has_machine_or_image(c) {
        seq![DestroyStep::RemoveMachine]
    } else {
        Seq::empty()
    };
    let cloud = if !stack {
        Seq::empty()
    } else if bucket {
        seq![DestroyStep::EmptyBucket, DestroyStep::DeleteStack]
    } else {
        seq![DestroyStep::DeleteStack]
    };
    machine + cloud + seq![DestroyStep::RemoveLocal]
}

/// The steps, in order: the machine holds the image, the bucket holds up the stack, and the
/// ledger goes last, so that all can be tried again.
pub fn steps(capsule: Option<&Capsule>, plan: &Plan) -> (r: Vec<DestroyStep>)
    ensures
        r@ == steps_for(opt_capsule(capsule), plan.stack, plan.bucket is Some),
{
    let mut r: Vec<DestroyStep> = Vec::new();
    if let Some(c) = capsule {
        if c.microvm_id.is_some() || c.image_arn.is_some() {
            r.push(DestroyStep::RemoveMachine);
        }
    }
    if plan.stack {
        if plan.bucket.is_some() {
            r.push(DestroyStep::EmptyBucket);
        }
        r.push(DestroyStep::DeleteStack);
    }
    r.push(DestroyStep::RemoveLocal);
    assert(r@ =~= steps_for(opt_capsule(capsule), plan.stack, plan.bucket is Some));
    r
}

/// Whether an error says that there is no such stack.
pub fn stack_is_absent(error: &str) -> (r: bool)
    ensures
        r == contains_text(error@, "does not exist"@),
{
    contains(error, "does not exist")
}

/// The state of a stack that is being deleted: one that is no longer there is deleted.
pub fn deletion_state(status: Option<&str>) -> (r: String)
    ensures
        r@ == (match opt_str(status) {
            Some(s) => s,
            None => "DELETE_COMPLETE"@,
        }),
{
    match status {
        Some(s) => s.to_owned(),
        None => "DELETE_COMPLETE".to_owned(),
    }
}

/// The states that end the wait for a deleted stack.
pub fn deletion_states() -> (r: Vec<&'static str>)
    ensures
        crate::text::texts(r@) == seq!["DELETE_COMPLETE"@, "DELETE_FAILED"@],
{
    let r = vec!["DELETE_COMPLETE", "DELETE_FAILED"];
    assert(crate::text::texts(r@) =~= seq!["DELETE_COMPLETE"@, "DELETE_FAILED"@]);
    r
}

/// How a stack is waited for.
pub fn stack_poll() -> (r: PollOpts)
    ensures
        r == (PollOpts { interval: 5_000, timeout: 600_000 }),
{
    PollOpts { interval: 5_000, timeout: 600_000 }
}

/// Whether a stack was deleted.
pub fn stack_deleted(name: &str, status: &str) -> (r: Result<(), String>)
    ensures
        r is Ok <==> status@ == "DELETE_COMPLETE"@,
        r matches Err(e) ==> e@ == "stack '"@ + name@ + "' did not finish deleting (status "@
            + status@
            + ") — check the CloudFormation console; resources may remain and still bill"@,
{
    if same(status, "DELETE_COMPLETE") {
        Ok(())
    } else {
        let mut e = "stack '".to_owned();
        e.append(name);
        e.append("' did not finish deleting (status ");
        e.append(status);
        e.append(
            ") — check the CloudFormation console; resources may remain and still bill",
        );
        Err(e)
    }
}

/// What to do about a page of a bucket's contents.
#[derive(Clone, Copy, PartialEq, Eq, Structural, Debug)]
pub enum BucketStep {
    /// Nothing is left.
    Done,
    /// Delete what is listed, and look again.
    DeleteAndLook,
    /// Delete what is listed; that was all.
    DeleteLast,
    Fail,
}

/// What to do about a page of a bucket's contents: how many keys it lists and whether it was
/// cut off, or why there is none.
pub open spec fn bucket_verdict(page: Result<(usize, bool), Seq<char>>) -> BucketStep {
    match page {
        Err(e) => if contains_text(e, "NoSuchBucket"@) {
            BucketStep::Done
        } else {
            BucketStep::Fail
        },
        Ok((keys, truncated)) => if keys == 0 {
            BucketStep::Done
        } else if truncated {
            BucketStep::DeleteAndLook
        } else {
            BucketStep::DeleteLast
        },
    }
}

/// What to do about a page of a bucket's contents.
pub fn bucket_step(page: Result<(usize, bool), &str>) -> (r: BucketStep)
    ensures
        r == bucket_verdict(
            match page {
                Ok(p) => Ok(p),
                Err(e) => Err(e@),
            },
        ),
{
    match page {
        Err(e) => if contains(e, "NoSuchBucket") {
            BucketStep::Done
        } else {
            BucketStep::Fail
        },
        Ok((keys, truncated)) => if keys == 0 {
            BucketStep::Done
        } else if truncated {
            BucketStep::DeleteAndLook
        } else {
            BucketStep::DeleteLast
        },
    }
}

/// Only what a deployment made is ever removed: a stack that says so, and the one bucket
/// that both this stack and the settings name.
pub proof fn law_only_our_own(
    name: Seq<char>,
    region: Seq<char>,
    configured: Seq<char>,
    stack: Option<Stack>,
)
    ensures
        plan_for(name, region, configured, stack) matches Ok((removed, bucket)) ==> {
            &&& removed ==> (stack matches Some(s) && own_stack(s))
            &&& bucket matches Some(b) ==> {
                &&& removed
                &&& b == configured
                &&& output_value(stack->0.outputs@, "ArtifactBucket"@) == Some(b)
            }
        },
{
}

/// The ledger and the settings go last and once, and a bucket is emptied only right before
/// its stack is deleted.
pub proof fn law_ledger_goes_last(c: Option<CapsuleView>, stack: bool, bucket: bool)
    ensures
        ({
            let s = steps_for(c, stack, bucket);
            &&& s.len() > 0 && s.last() == DestroyStep::RemoveLocal
            &&& forall|i: int| 0 <= i < s.len() - 1 ==> #[trigger] s[i] != DestroyStep::RemoveLocal
            &&& s.contains(DestroyStep::DeleteStack) <==> stack
            &&& forall|i: int|
                0 <= i < s.len() && #[trigger] s[i] == DestroyStep::EmptyBucket ==> stack && bucket
                    && s[i + 1] == DestroyStep::DeleteStack
            &&& s.contains(DestroyStep::RemoveMachine) <==> has_machine_or_image(c)
        }),
{
    let s = steps_for(c, stack, bucket);
    if stack {
        assert(s[s.len() - 2] == DestroyStep::DeleteStack);
    }
    if has_machine_or_image(c) {
        assert(s[0] == DestroyStep::RemoveMachine);
    }
}

/// A bucket is emptied, once and before its stack is deleted, exactly where the stack goes and
/// has one, whatever else is recorded or not.
pub proof fn law_bucket_is_emptied(c: Option<CapsuleView>, stack: bool, bucket: bool)
    ensures
        ({
            let s = steps_for(c, stack, bucket);
            &&& s.contains(DestroyStep::EmptyBucket) <==> stack && bucket
            &&& forall|i: int, j: int|
                0 <= i < s.len() && 0 <= j < s.len() && #[trigger] s[i] == DestroyStep::EmptyBucket
                    && #[trigger] s[j] == DestroyStep::DeleteStack ==> i < j
            &&& s.no_duplicates()
        }),
{
    let s = steps_for(c, stack, bucket);
    if stack && bucket {
        assert(s[s.len() - 3] == DestroyStep::EmptyBucket);
    }
}

/// Machine and image are removed exactly where one of them is recorded, and before anything
/// else; the stack exactly where it is to go; the local files always, and last.
pub proof fn law_everything_goes_in_order(c: Option<CapsuleView>, stack: bool, bucket: bool)
    ensures
        ({
            let s = steps_for(c, stack, bucket);
            let recorded = c is Some && (c->0.microvm_id is Some || c->0.image_arn is Some);
            &&& recorded ==> s[0] == DestroyStep::RemoveMachine
            &&& !recorded ==> !s.contains(DestroyStep::RemoveMachine)
            &&& stack ==> s.len() >= 2 && s[s.len() - 2] == DestroyStep::DeleteStack
            &&& !stack ==> !s.contains(DestroyStep::DeleteStack) && !s.contains(
                DestroyStep::EmptyBucket,
            )
            &&& s.last() == DestroyStep::RemoveLocal
            &&& s.len() == (if recorded {
                1int
            } else {
                0
            }) + (if stack {
                1int
            } else {
                0
            }) + (if stack && bucket {
                1int
            } else {
                0
            }) + 1
        }),
{
}

/// What a deployment made can be taken down again: where there is no stack, or one of ours
/// whose bucket is the one in the settings, there is a plan; in any other case there is none.
pub proof fn law_own_stacks_can_go(
    name: Seq<char>,
    region: Seq<char>,
    configured: Seq<char>,
    stack: Option<Stack>,
)
    ensures
        ({
            let p = plan_for(name, region, configured, stack);
            &&& stack is None ==> p == Ok::<(bool, Option<Seq<char>>), Seq<char>>((false, None))
            &&& stack is Some && own_stack(stack->0) && output_value(
                stack->0.outputs@,
                "ArtifactBucket"@,
            ) == Some(configured) ==> p == Ok::<(bool, Option<Seq<char>>), Seq<char>>(
                (true, Some(configured)),
            )
            &&& stack is Some && !own_stack(stack->0) ==> p is Err
            &&& stack is Some && output_value(stack->0.outputs@, "ArtifactBucket"@) != Some(
                configured,
            ) ==> p is Err
        }),
{
}

/// All that goes away is told before: the machine, the image, the bucket and the stack, each
/// in a line of its own that names it.
pub proof fn law_what_goes_is_told(
    c: CapsuleView,
    name: Seq<char>,
    region: Seq<char>,
    stack: bool,
    bucket: Option<Seq<char>>,
)
    ensures
        ({
            let lines = plan_lines(Some(c), name, region, stack, bucket);
            &&& c.microvm_id is Some ==> exists|i: int|
                0 <= i < lines.len() && contains_text(#[trigger] lines[i], c.microvm_id->0)
            &&& c.image_arn is Some ==> exists|i: int|
                0 <= i < lines.len() && contains_text(#[trigger] lines[i], c.image_arn->0)
            &&& stack && bucket is Some ==> exists|i: int|
                0 <= i < lines.len() && contains_text(#[trigger] lines[i], bucket->0)
            &&& exists|i: int| 0 <= i < lines.len() && contains_text(#[trigger] lines[i], name)
        }),
{
    let lines = plan_lines(Some(c), name, region, stack, bucket);
    let first = machine_lines(Some(c));
    let second = stack_lines(name, region, stack, bucket);
    assert forall|k: int| 0 <= k < first.len() implies lines[1 + k] == #[trigger] first[k] by {
    }
    assert forall|k: int| 0 <= k < second.len() implies lines[1 + first.len() + k]
        == #[trigger] second[k] by {
    }
    if c.microvm_id is Some {
        lemma_told("  • MicroVM  "@, c.microvm_id->0, "  (the running DOOM machine)"@);
        assert(contains_text(first[0], c.microvm_id->0));
        assert(contains_text(lines[1], c.microvm_id->0));
    }
    if c.image_arn is Some {
        lemma_told("  • Image    "@, c.image_arn->0, "  (the baked DOOM snapshot)"@);
        let k = first.len() - 1;
        assert(contains_text(first[k], c.image_arn->0));
        assert(contains_text(lines[1 + k], c.image_arn->0));
    }
    if stack && bucket is Some {
        lemma_told(
            "  • Bucket   s3://"@,
            bucket->0,
            "  (build contexts only; emptied so CloudFormation can delete it)"@,
        );
        assert(contains_text(second[0], bucket->0));
        assert(contains_text(lines[1 + first.len() as int], bucket->0));
    }
    let last = second.len() - 1;
    let line = second[last];
    let tail = line.skip("  • Stack    '"@.len() as int + name.len());
    assert(line =~= "  • Stack    '"@ + name + tail);
    lemma_told("  • Stack    '"@, name, tail);
    assert(contains_text(lines[1 + first.len() + last], name));
}

proof fn lemma_told(head: Seq<char>, what: Seq<char>, tail: Seq<char>)
    ensures
        contains_text(head + what + tail, what),
{
    let line = head + what + tail;
    let k = head.len() as int;
    assert(line.subrange(k, k + what.len()) =~= what);
    assert(occurs_at(line, what, k));
}

/// A bucket is emptied to its end: what is listed is always deleted, one looks again exactly
/// where the list was cut off, and a bucket that is not there needs no emptying. Any other
/// error stops it.
pub proof fn law_buckets_are_emptied_to_the_end(keys: usize, truncated: bool, error: Seq<char>)
    ensures
        ({
            let step = bucket_verdict(Ok((keys, truncated)));
            &&& keys == 0 ==> step == BucketStep::Done
            &&& keys > 0 && truncated ==> step == BucketStep::DeleteAndLook
            &&& keys > 0 && !truncated ==> step == BucketStep::DeleteLast
            &&& contains_text(error, "NoSuchBucket"@) ==> bucket_verdict(Err(error))
                == BucketStep::Done
            &&& !contains_text(error, "NoSuchBucket"@) ==> bucket_verdict(Err(error))
                == BucketStep::Fail
        }),
{
}

/// A record and a stack that are there are taken into account as they are.
pub proof fn law_records_are_seen(c: &Capsule, s: &Stack)
    ensures
        opt_capsule(Some(c)) == Some(c@),
        opt_capsule(None) is None,
        opt_stack(Some(s)) == Some(*s),
        opt_stack(None) is None,
{
}

/// A refusal to take a stack down names it, and both buckets where they differ.
pub proof fn law_refusals_name_the_stack(
    stack: Seq<char>,
    region: Seq<char>,
    owned: Seq<char>,
    configured: Seq<char>,
)
    ensures
        contains_text(foreign_stack_text(stack, region), stack),
        contains_text(foreign_stack_text(stack, region), region),
        contains_text(bucket_mismatch_text(stack, owned, configured), stack),
        contains_text(bucket_mismatch_text(stack, owned, configured), owned),
        contains_text(bucket_mismatch_text(stack, owned, configured), configured),
{
    let foreign = foreign_stack_text(stack, region);
    let a = "stack '"@.len() as int;
    assert(foreign.subrange(a, a + stack.len()) =~= stack);
    assert(occurs_at(foreign, stack, a));
    let b = a + stack.len() + "' in "@.len();
    assert(foreign.subrange(b, b + region.len()) =~= region);
    assert(occurs_at(foreign, region, b));
    let other = bucket_mismatch_text(stack, owned, configured);
    let c = "the '"@.len() as int;
    assert(other.subrange(c, c + stack.len()) =~= stack);
    assert(occurs_at(other, stack, c));
    let d = c + stack.len() + "' stack owns bucket '"@.len();
    assert(other.subrange(d, d + owned.len()) =~= owned);
    assert(occurs_at(other, owned, d));
    let e = d + owned.len() + "' but ~/.hellbox/config.toml says '"@.len();
    assert(other.subrange(e, e + configured.len()) =~= configured);
    assert(occurs_at(other, configured, e));
}

/// A stack that CloudFormation does not know any more, or calls deleted, is deleted, and no
/// other is.
pub proof fn law_deleted_stacks_are_gone(
    status: Option<&str>,
    s: String,
    t: &str,
    name: &str,
    r: Result<(), String>,
)
    requires
        call_ensures(deletion_state, (status,), s),
        t@ == s@,
        call_ensures(stack_deleted, (name, t), r),
    ensures
        r is Ok <==> status is None || opt_str(status) == Some("DELETE_COMPLETE"@),
        r matches Err(e) ==> contains_text(e@, name@) && contains_text(e@, t@),
{
    if let Err(e) = r {
        reveal_strlit("stack '");
        reveal_strlit("' did not finish deleting (status ");
        let n = "stack '"@.len() as int;
        let m = "' did not finish deleting (status "@.len() as int;
        assert(e@.subrange(n, n + name@.len()) =~= name@);
        assert(occurs_at(e@, name@, n));
        let k = n + name@.len() + m;
        assert(e@.subrange(k, k + t@.len()) =~= t@);
        assert(occurs_at(e@, t@, k));
    }
}

/// Nothing is deleted unless it was said beforehand or the word was typed.
pub proof fn law_deleting_is_confirmed(yes: bool, line: Option<&str>, r: Result<(), String>)
    requires
        call_ensures(confirm, (yes, line), r),
    ensures
        yes ==> r is Ok,
        !yes && line is None ==> r is Err,
        !yes && r is Ok ==> line is Some && trimmed(line->0@) == "destroy"@,
        line is Some && trimmed(line->0@) == "destroy"@ ==> r is Ok,
{
}

/// A plan says first what it is, then what goes, and last that nothing else does.
pub proof fn law_plans_say_their_limits(
    c: Option<CapsuleView>,
    name: Seq<char>,
    region: Seq<char>,
    stack: bool,
    bucket: Option<Seq<char>>,
)
    ensures
        ({
            let lines = plan_lines(c, name, region, stack, bucket);
            let none = c is None || (c->0.microvm_id is None && c->0.image_arn is None);
            &&& lines.len() >= 5
            &&& lines[0] == "hellbox destroy will remove exactly these Hellbox-created resources:"@
            &&& lines.last() == "Nothing else in your AWS account is touched."@
            &&& lines[lines.len() - 2]
                == "  • Local    ~/.hellbox/config.toml and ~/.hellbox/state.json"@
            &&& none ==> lines[1] == "  • MicroVM/image: none recorded — skipped"@
            &&& stack ==> has_prefix(
                lines[lines.len() - 3],
                "  • Stack    '"@ + name + "' in "@ + region,
            )
            &&& !stack ==> lines[lines.len() - 3] == "  • Stack    '"@ + name
                + "': not found in "@ + region + " — skipped"@
        }),
{
    let lines = plan_lines(c, name, region, stack, bucket);
    let head = "  • Stack    '"@ + name + "' in "@ + region;
    if stack {
        assert(lines[lines.len() - 3].take(head.len() as int) =~= head);
    }
}

} // verus!
