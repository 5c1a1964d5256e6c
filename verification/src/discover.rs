//! Machines that run in the account but are not in the ledger: finding them and taking them
//! in.

use crate::lifecycle::{endpoint_host, host_of};
use crate::state::{known, CapsuleView, State};
use crate::text::{
    has_prefix, has_suffix, is_space, lower_char, opt_str, same, trim, trim_end, trim_start,
    trimmed,
};
use vstd::prelude::*;

verus! {

/// A machine as the service lists it.
pub struct Listed {
    pub microvm_id: String,
    pub image_arn: String,
    pub state: String,
}

/// A machine that was taken into the ledger.
pub struct Imported {
    pub name: String,
    pub state: String,
}

/// The image of a capsule: its name in the account and region.
pub open spec fn image_of(region: Seq<char>, account: Seq<char>, name: Seq<char>) -> Seq<char> {
    "arn:aws:lambda:"@ + region + ":"@ + account + ":microvm-image:"@ + name
}

/// The image of a capsule.
pub fn image_arn(region: &str, account: &str, name: &str) -> (r: String)
    ensures
        r@ == image_of(region@, account@, name@),
{
    let mut s = "arn:aws:lambda:".to_owned();
    s.append(region);
    s.append(":");
    s.append(account);
    s.append(":microvm-image:");
    s.append(name);
    s
}

/// A machine made from an image, and not terminated.
pub open spec fn live_from(m: Listed, arn: Seq<char>) -> bool {
    m.image_arn@ == arn && m.state@ != "TERMINATED"@
}

/// Whether a machine was made from an image and is not terminated.
pub fn is_live_from(m: &Listed, arn: &str) -> (r: bool)
    ensures
        r == live_from(*m, arn@),
{
    same(m.image_arn.as_str(), arn) && !same(m.state.as_str(), "TERMINATED")
}

/// The position of the first machine made from an image and not terminated.
pub open spec fn first_live(list: Seq<Listed>, arn: Seq<char>) -> Option<int>
    decreases list.len(),
{
    if list.len() == 0 {
        None
    } else if live_from(list[0], arn) {
        Some(0int)
    } else {
        match first_live(list.skip(1), arn) {
            Some(i) => Some(i + 1),
            None => None,
        }
    }
}

/// What is found is one, and the first.
pub proof fn lemma_first_live(list: Seq<Listed>, arn: Seq<char>)
    ensures
        match first_live(list, arn) {
            Some(i) => 0 <= i < list.len() && live_from(list[i], arn) && forall|k: int|
                0 <= k < i ==> !live_from(#[trigger] list[k], arn),
            None => forall|k: int| 0 <= k < list.len() ==> !live_from(#[trigger] list[k], arn),
        },
    decreases list.len(),
{
    if list.len() > 0 && !live_from(list[0], arn) {
        let rest = list.skip(1);
        lemma_first_live(rest, arn);
        assert forall|k: int| 1 <= k < list.len() implies rest[k - 1] == #[trigger] list[k] by {
        }
    }
}

/// Finds the first machine made from an image and not terminated.
pub fn find_live(list: &Vec<Listed>, arn: &str) -> (r: Option<usize>)
    ensures
        match r {
            Some(i) => first_live(list@, arn@) == Some(i as int) && i < list@.len(),
            None => first_live(list@, arn@) is None,
        },
{
    let n: usize = list.len();
    let mut i: usize = 0;
    assert(list@.skip(0) =~= list@);
    while i < n
        invariant
            n == list@.len(),
            i <= n,
            first_live(list@, arn@) == (match first_live(list@.skip(i as int), arn@) {
                Some(k) => Some(k + i),
                None => None,
            }),
        decreases n - i,
    {
        assert(list@.skip(i as int).skip(1) =~= list@.skip(i + 1));
        if is_live_from(&list[i], arn) {
            return Some(i);
        }
        i += 1;
    }
    None
}

/// The machine to take in for a capsule: the first live one made from its image, unless the
/// ledger has it already.
pub open spec fn untracked(
    records: Map<Seq<char>, CapsuleView>,
    name: Seq<char>,
    list: Seq<Listed>,
    arn: Seq<char>,
) -> Option<int> {
    match first_live(list, arn) {
        Some(i) => if known(records, name).microvm_id == Some(list[i].microvm_id@) {
            None
        } else {
            Some(i)
        },
        None => None,
    }
}

/// The machine to take in for a capsule.
pub fn find_untracked(state: &State, name: &str, list: &Vec<Listed>, arn: &str) -> (r: Option<usize>)
    ensures
        match r {
            Some(i) => untracked(state@, name@, list@, arn@) == Some(i as int) && i < list@.len(),
            None => untracked(state@, name@, list@, arn@) is None,
        },
{
    match find_live(list, arn) {
        Some(i) => {
            let have = match state.get(name) {
                Some(c) => match &c.microvm_id {
                    Some(id) => same(id.as_str(), list[i].microvm_id.as_str()),
                    None => false,
                },
                None => false,
            };
            if have {
                None
            } else {
                Some(i)
            }
        },
        None => None,
    }
}

/// The record of a machine that was taken in.
pub open spec fn adopted(
    c: CapsuleView,
    arn: Seq<char>,
    id: Seq<char>,
    state: Seq<char>,
    endpoint: Option<Seq<char>>,
) -> CapsuleView {
    CapsuleView {
        image_arn: Some(arn),
        microvm_id: Some(id),
        state: Some(state),
        endpoint: match endpoint {
            Some(e) => Some(endpoint_host(e)),
            None => None,
        },
        ..c
    }
}

/// Takes a machine into the ledger. An endpoint that could not be had is left open.
pub fn adopt(
    state: &mut State,
    name: &str,
    arn: &str,
    machine: &Listed,
    endpoint: Option<&str>,
) -> (r: Imported)
    ensures
        final(state)@ == old(state)@.insert(
            name@,
            adopted(
                known(old(state)@, name@),
                arn@,
                machine.microvm_id@,
                machine.state@,
                opt_str(endpoint),
            ),
        ),
        r.name@ == name@,
        r.state@ == machine.state@,
{
    let mut c = state.record(name);
    c.image_arn = Some(arn.to_owned());
    c.microvm_id = Some(machine.microvm_id.as_str().to_owned());
    c.state = Some(machine.state.as_str().to_owned());
    c.endpoint = match endpoint {
        Some(e) => Some(host_of(e)),
        None => None,
    };
    state.put(name, c);
    Imported { name: name.to_owned(), state: machine.state.as_str().to_owned() }
}

/// What a typed answer means: its first letter, and `default` where there is none.
pub open spec fn answered(line: Option<Seq<char>>, default: char) -> char {
    match line {
        Some(l) => if trimmed(l).len() > 0 {
            lower_char(trimmed(l)[0])
        } else {
            default
        },
        None => default,
    }
}

/// What a typed line means. Where nobody could be asked there is no line, and the answer is
/// `default`.
pub fn ask(line: Option<&str>, default: char) -> (r: char)
    ensures
        r == answered(opt_str(line), default),
{
    match line {
        Some(l) => {
            let t = trim(l);
            if t.is_empty() {
                default
            } else {
                let lowered = crate::text::to_lower(t);
                lowered.as_str().get_char(0)
            }
        },
        None => default,
    }
}

/// A machine is taken in once: after that the same list has nothing more to take in.
pub proof fn law_adopting_once(
    records: Map<Seq<char>, CapsuleView>,
    name: Seq<char>,
    list: Seq<Listed>,
    arn: Seq<char>,
    endpoint: Option<Seq<char>>,
)
    ensures
        untracked(records, name, list, arn) matches Some(i) ==> untracked(
            records.insert(
                name,
                adopted(
                    known(records, name),
                    arn,
                    list[i].microvm_id@,
                    list[i].state@,
                    endpoint,
                ),
            ),
            name,
            list,
            arn,
        ) is None,
{
}

/// Only a machine made from the capsule's own image is ever taken in, and never one that was
/// terminated.
pub proof fn law_adopting_own_machines_only(
    records: Map<Seq<char>, CapsuleView>,
    name: Seq<char>,
    list: Seq<Listed>,
    arn: Seq<char>,
)
    ensures
        untracked(records, name, list, arn) matches Some(i) ==> 0 <= i < list.len() && live_from(
            list[i],
            arn,
        ),
{
    lemma_first_live(list, arn);
}

/// Nobody's silence is taken for a choice: without a line, or with a blank one, the answer
/// is the default.
pub proof fn law_silence_is_the_default(line: Seq<char>, default: char)
    ensures
        answered(None, default) == default,
        trimmed(line).len() == 0 ==> answered(Some(line), default) == default,
{
}

/// The first machine that is made from the image and not terminated is the one found, and one
/// is found wherever there is one.
pub proof fn law_first_live_is_found(list: Seq<Listed>, arn: Seq<char>, i: int)
    requires
        0 <= i < list.len(),
        forall|k: int|
            0 <= k < i ==> (#[trigger] list[k]).image_arn@ != arn || list[k].state@
                == "TERMINATED"@,
    ensures
        list[i].image_arn@ == arn && list[i].state@ != "TERMINATED"@ ==> first_live(list, arn)
            == Some(i),
        i == list.len() - 1 && (list[i].image_arn@ != arn || list[i].state@ == "TERMINATED"@)
            ==> first_live(list, arn) is None,
    decreases i,
{
    let rest = list.skip(1);
    if i > 0 {
        assert(list[0].image_arn@ != arn || list[0].state@ == "TERMINATED"@);
        assert forall|k: int| 0 <= k < i - 1 implies (#[trigger] rest[k]).image_arn@ != arn
            || rest[k].state@ == "TERMINATED"@ by {
            assert(rest[k] == list[k + 1]);
        }
        law_first_live_is_found(rest, arn, i - 1);
    } else {
        assert(rest.len() == 0 ==> first_live(rest, arn) is None);
    }
}

/// A machine that runs is taken in exactly where the ledger does not have it: the first live
/// one of the image, unless it is the recorded one.
pub proof fn law_unknown_machines_are_taken_in(
    records: Map<Seq<char>, CapsuleView>,
    name: Seq<char>,
    list: Seq<Listed>,
    arn: Seq<char>,
)
    ensures
        first_live(list, arn) is None ==> untracked(records, name, list, arn) is None,
        first_live(list, arn) matches Some(i) ==> (untracked(records, name, list, arn) == Some(i)
            <==> known(records, name).microvm_id != Some(list[i].microvm_id@)),
        first_live(list, arn) matches Some(i) ==> (untracked(records, name, list, arn) is None
            <==> known(records, name).microvm_id == Some(list[i].microvm_id@)),
{
}

/// A machine that is taken in is recorded as it is: itself, its image, its state and where it
/// is reached, if that could be had. Only the version of the image stays what it was.
pub proof fn law_machines_are_taken_in_whole(
    c: CapsuleView,
    arn: Seq<char>,
    id: Seq<char>,
    state: Seq<char>,
    endpoint: Option<Seq<char>>,
)
    ensures
        ({
            let after = adopted(c, arn, id, state, endpoint);
            &&& after.microvm_id == Some(id)
            &&& after.image_arn == Some(arn)
            &&& after.state == Some(state)
            &&& after.image_version == c.image_version
            &&& endpoint is None ==> after.endpoint is None
            &&& endpoint is Some ==> after.endpoint == Some(endpoint_host(endpoint->0))
        }),
{
}

/// An answer is the first letter that was typed, in lower case, whatever follows and whatever
/// the default.
pub proof fn law_first_letter_answers(blank: Seq<char>, letter: char, rest: Seq<char>, default: char)
    requires
        forall|i: int| 0 <= i < blank.len() ==> is_space(#[trigger] blank[i]),
        !is_space(letter),
        rest.len() > 0 ==> !is_space(rest.last()),
    ensures
        answered(Some(blank + seq![letter] + rest), default) == (if 'A' <= letter <= 'Z' {
            (letter as u32 + 32) as char
        } else {
            letter
        }),
{
    let word = seq![letter] + rest;
    lemma_trim_blank(blank, word);
    assert(blank + seq![letter] + rest =~= blank + word);
    assert(word[0] == letter);
    if rest.len() > 0 {
        assert(word.last() == rest.last());
    } else {
        assert(word.last() == letter);
    }
    assert(trim_end(word) == word);
}

proof fn lemma_trim_blank(blank: Seq<char>, word: Seq<char>)
    requires
        forall|i: int| 0 <= i < blank.len() ==> is_space(#[trigger] blank[i]),
        word.len() > 0,
        !is_space(word[0]),
    ensures
        trim_start(blank + word) == word,
    decreases blank.len(),
{
    let t = blank + word;
    if blank.len() == 0 {
        assert(t =~= word);
    } else {
        assert(t[0] == blank[0]);
        assert(t.drop_first() =~= blank.drop_first() + word);
        lemma_trim_blank(blank.drop_first(), word);
    }
}

/// An image is found again by its name alone: different capsules of one account and region
/// have different images.
pub proof fn law_images_differ(region: Seq<char>, account: Seq<char>, a: Seq<char>, b: Seq<char>)
    ensures
        image_of(region, account, a) == image_of(region, account, b) ==> a == b,
        has_suffix(image_of(region, account, a), ":microvm-image:"@ + a),
        has_prefix(image_of(region, account, a), "arn:aws:lambda:"@ + region + ":"@ + account),
{
    let head = "arn:aws:lambda:"@ + region + ":"@ + account + ":microvm-image:"@;
    let x = image_of(region, account, a);
    let y = image_of(region, account, b);
    assert(x.skip(head.len() as int) =~= a);
    assert(y.skip(head.len() as int) =~= b);
    let tail = ":microvm-image:"@ + a;
    assert(x.skip(x.len() - tail.len()) =~= tail);
    let front = "arn:aws:lambda:"@ + region + ":"@ + account;
    assert(x.take(front.len() as int) =~= front);
}

} // verus!
