//! The table of capsules.

use crate::commands::destroy::add_line;
use crate::discover::Listed;
use crate::state::{known, Capsule, CapsuleView, State};
use crate::text::{occurs_at, opt_text, owned_texts, same};
use vstd::prelude::*;

verus! {

/// The state that a list tells of a machine, the last where it is listed more than once.
pub open spec fn listed_state(list: Seq<Listed>, id: Seq<char>) -> Option<Seq<char>>
    decreases list.len(),
{
    if list.len() == 0 {
        None
    } else if list.last().microvm_id@ == id {
        Some(list.last().state@)
    } else {
        listed_state(list.drop_last(), id)
    }
}

/// A record after a look at the list: a machine that is listed has the state listed, and one
/// that is not is gone.
pub open spec fn refreshed(c: CapsuleView, list: Seq<Listed>) -> CapsuleView {
    match c.microvm_id {
        Some(id) => match listed_state(list, id) {
            Some(s) => CapsuleView { state: Some(s), ..c },
            None => CapsuleView {
                microvm_id: None,
                endpoint: None,
                state: Some("TERMINATED"@),
                ..c
            },
        },
        None => c,
    }
}

/// The ledger after a look at the list.
pub open spec fn reconciled(
    records: Map<Seq<char>, CapsuleView>,
    list: Seq<Listed>,
) -> Map<Seq<char>, CapsuleView> {
    Map::new(
        |n: Seq<char>| records.dom().contains(n),
        |n: Seq<char>| refreshed(records[n], list),
    )
}

/// The position of the last machine with an id.
fn find_id(list: &Vec<Listed>, id: &str) -> (r: Option<usize>)
    ensures
        match r {
            Some(i) => i < list@.len() && listed_state(list@, id@) == Some(list@[i as int].state@),
            None => listed_state(list@, id@) is None,
        },
{
    let mut i: usize = list.len();
    assert(list@.take(i as int) =~= list@);
    while i > 0
        invariant
            i <= list@.len(),
            listed_state(list@, id@) == listed_state(list@.take(i as int), id@),
        decreases i,
    {
        assert(list@.take(i as int).drop_last() =~= list@.take(i - 1));
        if same(list[i - 1].microvm_id.as_str(), id) {
            return Some(i - 1);
        }
        i -= 1;
    }
    None
}

/// A record after a look at the list.
fn refresh(c: Capsule, list: &Vec<Listed>) -> (r: Capsule)
    ensures
        r@ == refreshed(c@, list@),
{
    let mut c = c;
    let found: Option<Option<usize>> = match &c.microvm_id {
        Some(id) => Some(find_id(list, id.as_str())),
        None => None,
    };
    match found {
        Some(Some(i)) => {
            c.state = Some(list[i].state.as_str().to_owned());
        },
        Some(None) => {
            c.microvm_id = None;
            c.endpoint = None;
            c.state = Some("TERMINATED".to_owned());
        },
        None => {},
    }
    c
}

/// Brings the ledger up to date with the machines that the service lists.
pub fn reconcile(state: &mut State, list: &Vec<Listed>)
    ensures
        final(state)@ == reconciled(old(state)@, list@),
{
    let ghost was = state@;
    let names = state.names();
    let n: usize = names.len();
    let mut i: usize = 0;
    while i < n
        invariant
            n == names@.len(),
            i <= n,
            owned_texts(names@).to_set() == was.dom(),
            forall|a: int, b: int|
                0 <= a < b < names@.len() ==> crate::state::before(
                    #[trigger] names@[a]@,
                    #[trigger] names@[b]@,
                ),
            state@.dom() == was.dom(),
            forall|k: int|
                0 <= k < i ==> state@[#[trigger] names@[k]@] == refreshed(was[names@[k]@], list@),
            forall|k: int| i <= k < n ==> state@[#[trigger] names@[k]@] == was[names@[k]@],
        decreases n - i,
    {
        let name = names[i].as_str();
        let ghost current = state@;
        proof {
            assert(owned_texts(names@)[i as int] == name@);
            assert(owned_texts(names@).to_set().contains(name@));
        }
        let c = state.record(name);
        let c = refresh(c, list);
        state.put(name, c);
        proof {
            assert(state@.dom() =~= was.dom());
            assert forall|k: int| 0 <= k < n && k != i implies names@[k]@ != names@[i as int]@ by {
                crate::state::lemma_before_irreflexive(names@[i as int]@);
                if k < i {
                    assert(crate::state::before(names@[k]@, names@[i as int]@));
                } else {
                    assert(crate::state::before(names@[i as int]@, names@[k]@));
                }
            }
        }
        i += 1;
    }
    proof {
        assert forall|x: Seq<char>| was.dom().contains(x) implies #[trigger] state@[x] == reconciled(
            was,
            list@,
        )[x] by {
            assert(owned_texts(names@).to_set().contains(x));
            let k = choose|k: int| 0 <= k < owned_texts(names@).len() && owned_texts(names@)[k] == x;
            assert(names@[k]@ == x);
        }
        assert(state@ =~= reconciled(was, list@));
    }
}

/// The capsules to look for in the account: those of the ledger, and the default one.
pub open spec fn candidate_names(names: Seq<Seq<char>>) -> Seq<Seq<char>> {
    if names.contains("doom"@) {
        names
    } else {
        names.push("doom"@)
    }
}

/// The capsules to look for in the account.
pub fn candidates(state: &State) -> (r: Vec<String>)
    ensures
        owned_texts(r@) == candidate_names(state.ordered_names()),
{
    let mut names = state.names();
    let n: usize = names.len();
    let ghost all = owned_texts(names@);
    let mut i: usize = 0;
    while i < n
        invariant
            n == names@.len(),
            i <= n,
            all == owned_texts(names@),
            all == state.ordered_names(),
            forall|k: int| 0 <= k < i ==> all[k] != "doom"@,
        decreases n - i,
    {
        if same(names[i].as_str(), "doom") {
            assert(all[i as int] == "doom"@);
            return names;
        }
        i += 1;
    }
    add_line(&mut names, "doom".to_owned());
    names
}

/// Blanks.
pub open spec fn blanks(n: int) -> Seq<char> {
    Seq::new(
        if n > 0 {
            n as nat
        } else {
            0
        },
        |i: int| ' ',
    )
}

/// A text filled up with blanks to a width.
pub open spec fn padded(s: Seq<char>, width: int) -> Seq<char> {
    s + blanks(width - s.len())
}

/// A text filled up with blanks to a width.
fn pad(s: &str, width: usize) -> (r: String)
    ensures
        r@ == padded(s@, width as int),
{
    let mut out = s.to_owned();
    let mut n: usize = s.unicode_len();
    assert(out@ =~= s@ + blanks(0));
    while n < width
        invariant
            s@.len() <= n,
            n <= width || n == s@.len(),
            out@ == s@ + blanks(n - s@.len()),
        decreases width - n,
    {
        out.push(' ');
        assert(out@ =~= s@ + blanks(n + 1 - s@.len()));
        n += 1;
    }
    assert(out@ =~= padded(s@, width as int));
    out
}

/// A field of a record, or a dash.
pub open spec fn or_dash(o: Option<Seq<char>>) -> Seq<char> {
    match o {
        Some(s) => s,
        None => "-"@,
    }
}

/// One row of the table.
pub open spec fn row(
    name: Seq<char>,
    state: Seq<char>,
    machine: Seq<char>,
    endpoint: Seq<char>,
) -> Seq<char> {
    padded(name, 16) + " "@ + padded(state, 12) + " "@ + padded(machine, 22) + " "@ + endpoint
}

/// The row of a capsule.
pub open spec fn capsule_row(name: Seq<char>, c: CapsuleView) -> Seq<char> {
    row(name, or_dash(c.state), or_dash(c.microvm_id), or_dash(c.endpoint))
}

/// The table: a head, and the capsules in the order of their names.
pub open spec fn table(names: Seq<Seq<char>>, records: Map<Seq<char>, CapsuleView>) -> Seq<
    Seq<char>,
> {
    if names.len() == 0 {
        seq!["no capsules yet — `hellbox build --name <name>`"@]
    } else {
        seq![row("NAME"@, "STATE"@, "MICROVM"@, "ENDPOINT"@)] + Seq::new(
            names.len(),
            |i: int| capsule_row(names[i], known(records, names[i])),
        )
    }
}

/// One row of the table.
fn row_text(name: &str, state: &str, machine: &str, endpoint: &str) -> (r: String)
    ensures
        r@ == row(name@, state@, machine@, endpoint@),
{
    let mut line = pad(name, 16);
    line.append(" ");
    let cell = pad(state, 12);
    line.append(cell.as_str());
    line.append(" ");
    let cell = pad(machine, 22);
    line.append(cell.as_str());
    line.append(" ");
    line.append(endpoint);
    line
}

/// A field of a record, or a dash.
fn cell<'a>(o: &'a Option<String>) -> (r: &'a str)
    ensures
        r@ == or_dash(opt_text(*o)),
{
    match o {
        Some(s) => s.as_str(),
        None => "-",
    }
}

/// The lines of the table.
pub fn print_table(state: &State) -> (lines: Vec<String>)
    ensures
        owned_texts(lines@) == table(state.ordered_names(), state@),
{
    let names = state.names();
    let ghost all = state.ordered_names();
    let mut lines: Vec<String> = Vec::new();
    let n: usize = names.len();
    if n == 0 {
        add_line(&mut lines, "no capsules yet — `hellbox build --name <name>`".to_owned());
        assert(all.len() == owned_texts(names@).len());
        assert(owned_texts(lines@) =~= table(all, state@));
        return lines;
    }
    add_line(&mut lines, row_text("NAME", "STATE", "MICROVM", "ENDPOINT"));
    let mut i: usize = 0;
    assert(owned_texts(lines@) =~= table(all, state@).take(1));
    while i < n
        invariant
            n == names@.len(),
            n > 0,
            i <= n,
            all == state.ordered_names(),
            owned_texts(names@) == all,
            owned_texts(lines@) == table(all, state@).take(i + 1),
        decreases n - i,
    {
        let name = names[i].as_str();
        assert(owned_texts(names@)[i as int] == name@);
        let c = state.record(name);
        add_line(
            &mut lines,
            row_text(name, cell(&c.state), cell(&c.microvm_id), cell(&c.endpoint)),
        );
        assert(owned_texts(lines@) =~= table(all, state@).take(i + 2));
        i += 1;
    }
    assert(owned_texts(lines@) =~= table(all, state@));
    lines
}

/// Looking at the same list twice changes nothing more, and no look ever adds or drops a
/// capsule or forgets an image.
pub proof fn law_looking_twice(records: Map<Seq<char>, CapsuleView>, list: Seq<Listed>)
    ensures
        reconciled(reconciled(records, list), list) == reconciled(records, list),
        reconciled(records, list).dom() == records.dom(),
        forall|n: Seq<char>| #[trigger]
            records.dom().contains(n) ==> reconciled(records, list)[n].image_arn
                == records[n].image_arn && reconciled(records, list)[n].image_version
                == records[n].image_version,
{
    assert(reconciled(records, list).dom() =~= records.dom());
    assert forall|n: Seq<char>| records.dom().contains(n) implies refreshed(
        refreshed(#[trigger] records[n], list),
        list,
    ) == refreshed(records[n], list) by {
    }
    assert(reconciled(reconciled(records, list), list) =~= reconciled(records, list));
}

/// A look at the list changes of a machine that is listed its state and nothing else: it stays
/// the same machine, reached where it was. One that is not listed is gone, with where it was
/// reached, and a capsule without a machine stays as it is.
pub proof fn law_listed_machines_stay(c: CapsuleView, list: Seq<Listed>)
    ensures
        ({
            let after = refreshed(c, list);
            let there = exists|i: int|
                0 <= i < list.len() && c.microvm_id == Some((#[trigger] list[i]).microvm_id@);
            &&& after.image_arn == c.image_arn
            &&& after.image_version == c.image_version
            &&& c.microvm_id is None ==> after == c
            &&& there ==> after.microvm_id == c.microvm_id && after.endpoint == c.endpoint
            &&& c.microvm_id is Some && !there ==> after.microvm_id is None && after.endpoint
                is None && after.state == Some("TERMINATED"@)
        }),
{
    if let Some(id) = c.microvm_id {
        lemma_listed_state(list, id);
    }
}

/// The state that is recorded is the one listed for the very machine, and the last one where
/// it is listed more than once.
pub proof fn law_listed_state_is_recorded(c: CapsuleView, list: Seq<Listed>, i: int)
    requires
        0 <= i < list.len(),
        c.microvm_id == Some(list[i].microvm_id@),
        forall|k: int|
            i < k < list.len() ==> (#[trigger] list[k]).microvm_id@ != list[i].microvm_id@,
    ensures
        refreshed(c, list).state == Some(list[i].state@),
{
    lemma_listed_last(list, i);
}

proof fn lemma_listed_last(list: Seq<Listed>, i: int)
    requires
        0 <= i < list.len(),
        forall|k: int|
            i < k < list.len() ==> (#[trigger] list[k]).microvm_id@ != list[i].microvm_id@,
    ensures
        listed_state(list, list[i].microvm_id@) == Some(list[i].state@),
    decreases list.len(),
{
    let fewer = list.drop_last();
    if i < fewer.len() {
        assert(list[list.len() - 1].microvm_id@ != list[i].microvm_id@);
        assert forall|k: int| i < k < fewer.len() implies (#[trigger] fewer[k]).microvm_id@
            != fewer[i].microvm_id@ by {
            assert(fewer[k] == list[k]);
        }
        lemma_listed_last(fewer, i);
    }
}

proof fn lemma_listed_state(list: Seq<Listed>, id: Seq<char>)
    ensures
        listed_state(list, id) is Some <==> exists|i: int|
            0 <= i < list.len() && (#[trigger] list[i]).microvm_id@ == id,
    decreases list.len(),
{
    if list.len() > 0 {
        let fewer = list.drop_last();
        lemma_listed_state(fewer, id);
        if list.last().microvm_id@ == id {
            assert(list[list.len() - 1].microvm_id@ == id);
        } else {
            assert forall|i: int| 0 <= i < list.len() && (#[trigger] list[i]).microvm_id@
                == id implies i < fewer.len() && fewer[i].microvm_id@ == id by {
            }
            if listed_state(fewer, id) is Some {
                let i = choose|i: int|
                    0 <= i < fewer.len() && (#[trigger] fewer[i]).microvm_id@ == id;
                assert(list[i].microvm_id@ == id);
            }
            if exists|i: int| 0 <= i < list.len() && (#[trigger] list[i]).microvm_id@ == id {
                let i = choose|i: int|
                    0 <= i < list.len() && (#[trigger] list[i]).microvm_id@ == id;
                assert(fewer[i].microvm_id@ == id);
            }
        }
    }
}

/// Every capsule of the ledger is looked for in the account, in order, and the default one in
/// any case; no other is, and none twice.
pub proof fn law_default_is_looked_for(names: Seq<Seq<char>>)
    ensures
        ({
            let all = candidate_names(names);
            &&& all.contains("doom"@)
            &&& all.take(names.len() as int) == names
            &&& all.len() <= names.len() + 1
            &&& forall|n: Seq<char>| #[trigger] all.contains(n) ==> names.contains(n) || n
                == "doom"@
            &&& names.no_duplicates() ==> all.no_duplicates()
        }),
{
    let all = candidate_names(names);
    assert(all.take(names.len() as int) =~= names);
    if !names.contains("doom"@) {
        assert(all[names.len() as int] == "doom"@);
        assert forall|n: Seq<char>| #[trigger] all.contains(n) implies names.contains(n) || n
            == "doom"@ by {
            let k = choose|k: int| 0 <= k < all.len() && all[k] == n;
            if k < names.len() {
                assert(names[k] == n);
            }
        }
    }
}

/// The table has a head and a line for each capsule, in order, and each line tells in columns
/// the capsule's name, its state, its machine and where that is reached, with a dash for what
/// is not known.
pub proof fn law_table_tells_all(
    names: Seq<Seq<char>>,
    records: Map<Seq<char>, CapsuleView>,
    i: int,
)
    requires
        0 <= i < names.len(),
    ensures
        ({
            let line = table(names, records)[i + 1];
            let c = known(records, names[i]);
            let width = |s: Seq<char>, least: int|
                if s.len() < least {
                    least
                } else {
                    s.len() as int
                };
            let state = match c.state {
                Some(s) => s,
                None => "-"@,
            };
            let machine = match c.microvm_id {
                Some(s) => s,
                None => "-"@,
            };
            let endpoint = match c.endpoint {
                Some(s) => s,
                None => "-"@,
            };
            let second = width(names[i], 16) + 1;
            let third = second + width(state, 12) + 1;
            let fourth = third + width(machine, 22) + 1;
            &&& table(names, records).len() == names.len() + 1
            &&& occurs_at(line, names[i], 0)
            &&& occurs_at(line, state, second)
            &&& occurs_at(line, machine, third)
            &&& line.skip(fourth) == endpoint
        }),
{
    let c = known(records, names[i]);
    assert(table(names, records)[i + 1] == capsule_row(names[i], c));
    lemma_row(names[i], or_dash(c.state), or_dash(c.microvm_id), or_dash(c.endpoint));
}

#[verifier::spinoff_prover]
proof fn lemma_row(name: Seq<char>, state: Seq<char>, machine: Seq<char>, endpoint: Seq<char>)
    ensures
        ({
            let line = row(name, state, machine, endpoint);
            let second = padded(name, 16).len() as int + 1;
            let third = second + padded(state, 12).len() as int + 1;
            let fourth = third + padded(machine, 22).len() as int + 1;
            &&& occurs_at(line, name, 0)
            &&& occurs_at(line, state, second)
            &&& occurs_at(line, machine, third)
            &&& line.skip(fourth) == endpoint
        }),
{
    reveal_strlit(" ");
    let a = padded(name, 16);
    let b = padded(state, 12);
    let d = padded(machine, 22);
    let line = row(name, state, machine, endpoint);
    let second = a.len() as int + 1;
    let third = second + b.len() as int + 1;
    let fourth = third + d.len() as int + 1;
    law_columns_are_filled(name, 16);
    law_columns_are_filled(state, 12);
    law_columns_are_filled(machine, 22);
    lemma_cell(Seq::empty(), a, " "@ + b + " "@ + d + " "@ + endpoint, name);
    lemma_cell(a + " "@, b, " "@ + d + " "@ + endpoint, state);
    lemma_cell(a + " "@ + b + " "@, d, " "@ + endpoint, machine);
    assert(line =~= Seq::<char>::empty() + a + (" "@ + b + " "@ + d + " "@ + endpoint));
    assert(line =~= (a + " "@) + b + (" "@ + d + " "@ + endpoint));
    assert(line =~= (a + " "@ + b + " "@) + d + (" "@ + endpoint));
    assert(line.skip(fourth) =~= endpoint);
}

proof fn lemma_cell(before: Seq<char>, cell: Seq<char>, after: Seq<char>, text: Seq<char>)
    requires
        text.len() <= cell.len(),
        cell.take(text.len() as int) == text,
    ensures
        occurs_at(before + cell + after, text, before.len() as int),
{
    let line = before + cell + after;
    let k = before.len() as int;
    assert(line.subrange(k, k + text.len()) =~= cell.take(text.len() as int));
}

/// A column begins with what it tells and is filled up with blanks to its width, and never cut.
pub proof fn law_columns_are_filled(s: Seq<char>, width: int)
    ensures
        ({
            let p = padded(s, width);
            &&& p.len() >= width && p.len() >= s.len()
            &&& p.len() == width || p == s
            &&& p.take(s.len() as int) == s
            &&& forall|i: int| s.len() <= i < p.len() ==> #[trigger] p[i] == ' '
        }),
{
    let p = padded(s, width);
    assert(p.take(s.len() as int) =~= s);
    if s.len() >= width {
        assert(p =~= s);
    }
}

/// Without a capsule the table says how to make one, and else its head names the columns.
pub proof fn law_table_has_a_head(names: Seq<Seq<char>>, records: Map<Seq<char>, CapsuleView>)
    ensures
        names.len() == 0 ==> table(names, records) == seq![
            "no capsules yet — `hellbox build --name <name>`"@,
        ],
        names.len() > 0 ==> table(names, records)[0] == padded("NAME"@, 16) + " "@ + padded(
            "STATE"@,
            12,
        ) + " "@ + padded("MICROVM"@, 22) + " "@ + "ENDPOINT"@,
{
}

} // verus!
