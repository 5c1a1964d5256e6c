//! Removing a capsule: its machines, its image, its record.

use crate::discover::{image_arn, image_of, is_live_from, live_from, Listed};
use crate::poll::PollOpts;
use crate::state::{Capsule, CapsuleView};
use crate::text::{contains, contains_text, opt_str, opt_text, owned_texts, same};
use vstd::prelude::*;

verus! {

/// The image of a capsule: the recorded one, or the one that its name stands for.
pub open spec fn image_to_remove(
    c: CapsuleView,
    region: Seq<char>,
    account: Seq<char>,
    name: Seq<char>,
) -> Seq<char> {
    match c.image_arn {
        Some(arn) => arn,
        None => image_of(region, account, name),
    }
}

/// The image of a capsule, also where the ledger does not know it.
pub fn target_image(capsule: &Capsule, region: &str, account: &str, name: &str) -> (r: String)
    ensures
        r@ == image_to_remove(capsule@, region@, account@, name@),
{
    match &capsule.image_arn {
        Some(arn) => arn.as_str().to_owned(),
        None => image_arn(region, account, name),
    }
}

/// The machines of a list that keep an image from being deleted, in order.
pub open spec fn holders(list: Seq<Listed>, arn: Seq<char>) -> Seq<Seq<char>>
    decreases list.len(),
{
    if list.len() == 0 {
        Seq::empty()
    } else if live_from(list.last(), arn) {
        holders(list.drop_last(), arn).push(list.last().microvm_id@)
    } else {
        holders(list.drop_last(), arn)
    }
}

/// The machines to terminate before an image can be deleted.
pub fn terminate_image_microvms(list: &Vec<Listed>, arn: &str) -> (r: Vec<String>)
    ensures
        owned_texts(r@) == holders(list@, arn@),
{
    let n: usize = list.len();
    let mut r: Vec<String> = Vec::new();
    let mut i: usize = 0;
    assert(list@.take(0) =~= Seq::<Listed>::empty());
    assert(owned_texts(r@) =~= holders(list@.take(0), arn@));
    while i < n
        invariant
            n == list@.len(),
            i <= n,
            owned_texts(r@) == holders(list@.take(i as int), arn@),
        decreases n - i,
    {
        assert(list@.take(i + 1).drop_last() =~= list@.take(i as int));
        if is_live_from(&list[i], arn) {
            crate::commands::destroy::add_line(&mut r, list[i].microvm_id.as_str().to_owned());
        }
        i += 1;
    }
    assert(list@.take(n as int) =~= list@);
    r
}

/// The state of a machine that is being terminated: one that the service does not know is
/// terminated.
pub fn termination_state(state: Option<&str>) -> (r: String)
    ensures
        r@ == (match opt_str(state) {
            Some(s) => s,
            None => "TERMINATED"@,
        }),
{
    match state {
        Some(s) => s.to_owned(),
        None => "TERMINATED".to_owned(),
    }
}

/// How a machine that is being terminated is waited for.
pub fn termination_poll() -> (r: PollOpts)
    ensures
        r == (PollOpts { interval: 3_000, timeout: 180_000 }),
{
    PollOpts { interval: 3_000, timeout: 180_000 }
}

/// What follows an attempt to delete an image.
#[derive(Clone, Copy, PartialEq, Eq, Structural, Debug)]
pub enum DeleteStep {
    Done,
    /// Try again after three seconds.
    Retry,
    Fail,
}

/// The milliseconds for which an image that machines still hold is tried again.
pub const DELETE_DEADLINE: u64 = 180_000;

/// Why an image was not deleted.
pub struct DeleteError {
    pub code: Option<String>,
    pub message: Option<String>,
}

/// What follows an attempt to delete an image, `elapsed` milliseconds after the first. An
/// image that is gone is deleted.
pub open spec fn delete_verdict(
    code: Option<Seq<char>>,
    message: Option<Seq<char>>,
    elapsed: u64,
) -> DeleteStep {
    if code == Some("ResourceNotFoundException"@) {
        DeleteStep::Done
    } else if (message matches Some(m) && contains_text(m, "running MicroVM"@)) && elapsed
        < DELETE_DEADLINE {
        DeleteStep::Retry
    } else {
        DeleteStep::Fail
    }
}

/// What follows an attempt to delete an image.
pub fn after_delete(error: &Option<DeleteError>, elapsed: u64) -> (r: DeleteStep)
    ensures
        r == (match *error {
            None => DeleteStep::Done,
            Some(e) => delete_verdict(opt_text(e.code), opt_text(e.message), elapsed),
        }),
{
    match error {
        None => DeleteStep::Done,
        Some(e) => {
            let gone = match &e.code {
                Some(c) => same(c.as_str(), "ResourceNotFoundException"),
                None => false,
            };
            if gone {
                return DeleteStep::Done;
            }
            let transient = match &e.message {
                Some(m) => contains(m.as_str(), "running MicroVM"),
                None => false,
            };
            if transient && elapsed < DELETE_DEADLINE {
                DeleteStep::Retry
            } else {
                DeleteStep::Fail
            }
        },
    }
}

/// Every live machine made from the image is terminated, and no other machine.
pub proof fn law_only_holders_go(list: Seq<Listed>, arn: Seq<char>)
    ensures
        forall|i: int|
            0 <= i < list.len() && live_from(#[trigger] list[i], arn) ==> holders(
                list,
                arn,
            ).contains(list[i].microvm_id@),
        forall|id: Seq<char>| #[trigger]
            holders(list, arn).contains(id) ==> exists|i: int|
                0 <= i < list.len() && live_from(#[trigger] list[i], arn) && list[i].microvm_id@
                    == id,
    decreases list.len(),
{
    if list.len() > 0 {
        let init = list.drop_last();
        let before = holders(init, arn);
        let now = holders(list, arn);
        law_only_holders_go(init, arn);
        assert forall|i: int| 0 <= i < list.len() && live_from(
            #[trigger] list[i],
            arn,
        ) implies now.contains(list[i].microvm_id@) by {
            if i < init.len() {
                assert(init[i] == list[i]);
                let k = choose|k: int| 0 <= k < before.len() && before[k] == list[i].microvm_id@;
                assert(now[k] == list[i].microvm_id@);
            } else {
                assert(now[now.len() - 1] == list[i].microvm_id@);
            }
        }
        assert forall|id: Seq<char>| #[trigger] now.contains(id) implies exists|i: int|
            0 <= i < list.len() && live_from(#[trigger] list[i], arn) && list[i].microvm_id@
                == id by {
            let k = choose|k: int| 0 <= k < now.len() && now[k] == id;
            if k < before.len() {
                assert(before[k] == id);
                assert(before.contains(id));
                let i = choose|i: int|
                    0 <= i < init.len() && live_from(#[trigger] init[i], arn) && init[i].microvm_id@
                        == id;
                assert(list[i] == init[i]);
            } else {
                assert(live_from(list[list.len() - 1], arn));
            }
        }
    }
}

/// Removing what is gone already succeeds, and trying again comes to an end.
pub proof fn law_removing_twice(message: Option<Seq<char>>, code: Option<Seq<char>>, elapsed: u64)
    ensures
        delete_verdict(Some("ResourceNotFoundException"@), message, elapsed) == DeleteStep::Done,
        elapsed >= DELETE_DEADLINE ==> delete_verdict(code, message, elapsed) != DeleteStep::Retry,
{
}

/// The image that is removed is the recorded one, and where none is recorded the one that the
/// capsule's name stands for in this account and region.
pub proof fn law_image_is_found_again(
    c: CapsuleView,
    region: Seq<char>,
    account: Seq<char>,
    name: Seq<char>,
)
    ensures
        c.image_arn is Some ==> Some(image_to_remove(c, region, account, name)) == c.image_arn,
        c.image_arn is None ==> image_to_remove(c, region, account, name) == "arn:aws:lambda:"@
            + region + ":"@ + account + ":microvm-image:"@ + name,
{
}

/// All machines made from the image are terminated but those that are terminated already, and
/// no machine made from another image ever is.
pub proof fn law_holders_are_of_the_image(list: Seq<Listed>, arn: Seq<char>, id: Seq<char>)
    ensures
        holders(list, arn).contains(id) <==> exists|i: int|
            0 <= i < list.len() && (#[trigger] list[i]).image_arn@ == arn && list[i].state@
                != "TERMINATED"@ && list[i].microvm_id@ == id,
{
    law_only_holders_go(list, arn);
    if holders(list, arn).contains(id) {
        let i = choose|i: int|
            0 <= i < list.len() && live_from(#[trigger] list[i], arn) && list[i].microvm_id@ == id;
        assert(list[i].image_arn@ == arn);
    }
    if exists|i: int|
        0 <= i < list.len() && (#[trigger] list[i]).image_arn@ == arn && list[i].state@
            != "TERMINATED"@ && list[i].microvm_id@ == id {
        let i = choose|i: int|
            0 <= i < list.len() && (#[trigger] list[i]).image_arn@ == arn && list[i].state@
                != "TERMINATED"@ && list[i].microvm_id@ == id;
        assert(live_from(list[i], arn));
    }
}

/// Deleting an image is tried again exactly where a machine still holds it, for three minutes;
/// an image that is not there is deleted, and any other error ends it.
pub proof fn law_deleting_waits_for_machines(
    code: Option<Seq<char>>,
    message: Option<Seq<char>>,
    elapsed: u64,
)
    ensures
        ({
            let step = delete_verdict(code, message, elapsed);
            let gone = code == Some("ResourceNotFoundException"@);
            let held = message is Some && contains_text(message->0, "running MicroVM"@);
            &&& step == DeleteStep::Done <==> gone
            &&& step == DeleteStep::Retry <==> !gone && held && elapsed < 180_000
            &&& step == DeleteStep::Fail <==> !gone && !(held && elapsed < 180_000)
        }),
{
}

/// A machine that is not known any more is terminated, and any other is in the state it says.
pub proof fn law_unknown_machines_are_gone(state: Option<&str>, r: String)
    requires
        call_ensures(termination_state, (state,), r),
    ensures
        state is None ==> r@ == "TERMINATED"@,
        state is Some ==> r@ == state->0@,
{
}

} // verus!
