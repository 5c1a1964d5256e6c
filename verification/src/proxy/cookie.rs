//! The session cookie: recognising it, and keeping it on this machine.

use crate::headers::visible_chars;
use crate::text::{
    has_prefix, is_space, join, joined, lemma_until, lemma_until_free, same, split, split_on,
    starts_with, strip_prefix, texts, trim, trim_end, trim_start, trimmed, until,
};
use vstd::prelude::*;

verus! {

/// How the part of a cookie header begins that carries the session secret.
pub const CONTROL_COOKIE_PREFIX: &'static str = "hellbox_control=";

/// The parts of a cookie header, without the white space around them.
pub open spec fn cookie_parts(cookie: Seq<char>) -> Seq<Seq<char>> {
    Seq::new(split_on(cookie, ';').len(), |i: int| trimmed(split_on(cookie, ';')[i]))
}

/// A part that is not the session cookie and not empty.
pub open spec fn foreign_part(part: Seq<char>) -> bool {
    part.len() > 0 && !has_prefix(part, CONTROL_COOKIE_PREFIX@)
}

/// The parts that go upstream, in order.
pub open spec fn foreign_parts(parts: Seq<Seq<char>>) -> Seq<Seq<char>>
    decreases parts.len(),
{
    if parts.len() == 0 {
        Seq::empty()
    } else if foreign_part(parts.last()) {
        foreign_parts(parts.drop_last()).push(parts.last())
    } else {
        foreign_parts(parts.drop_last())
    }
}

/// What of a cookie header goes upstream.
pub open spec fn stripped_cookie(cookie: Seq<char>) -> Option<Seq<char>> {
    let kept = foreign_parts(cookie_parts(cookie));
    if kept.len() == 0 {
        None
    } else {
        Some(joined(kept, "; "@))
    }
}

/// One of the parts is the session cookie with this secret.
pub open spec fn carries_secret(cookie: Seq<char>, secret: Seq<char>) -> bool {
    cookie_parts(cookie).contains(CONTROL_COOKIE_PREFIX@ + secret)
}

/// The cookie header without the session cookie, none where nothing else is in it.
pub fn strip_control_cookie(cookie: &str) -> (r: Option<String>)
    ensures
        crate::text::opt_text(r) == stripped_cookie(cookie@),
{
    let pieces = split(cookie, ';');
    let n: usize = pieces.len();
    let ghost parts = cookie_parts(cookie@);
    let mut kept: Vec<&str> = Vec::new();
    let mut i: usize = 0;
    assert(parts.take(0) =~= Seq::<Seq<char>>::empty());
    assert(texts(kept@) =~= foreign_parts(parts.take(0)));
    while i < n
        invariant
            n == pieces@.len(),
            texts(pieces@) == split_on(cookie@, ';'),
            parts == cookie_parts(cookie@),
            i <= n,
            texts(kept@) == foreign_parts(parts.take(i as int)),
        decreases n - i,
    {
        let part = trim(pieces[i]);
        let ghost before = kept@;
        proof {
            assert(texts(pieces@)[i as int] == pieces@[i as int]@);
            assert(parts[i as int] == part@);
            assert(parts.take(i + 1).drop_last() =~= parts.take(i as int));
        }
        if !part.is_empty() && !starts_with(part, CONTROL_COOKIE_PREFIX) {
            kept.push(part);
            assert(texts(kept@) =~= texts(before).push(part@));
        }
        i += 1;
    }
    assert(parts.take(n as int) =~= parts);
    if kept.len() == 0 {
        assert(texts(kept@).len() == 0);
        None
    } else {
        Some(join(&kept, "; "))
    }
}

/// Whether the cookie header carries the session secret.
pub fn cookie_has_control_secret(cookie: &str, secret: &str) -> (r: bool)
    ensures
        r == carries_secret(cookie@, secret@),
{
    let pieces = split(cookie, ';');
    let n: usize = pieces.len();
    let ghost parts = cookie_parts(cookie@);
    let ghost wanted = CONTROL_COOKIE_PREFIX@ + secret@;
    let mut i: usize = 0;
    while i < n
        invariant
            n == pieces@.len(),
            texts(pieces@) == split_on(cookie@, ';'),
            parts == cookie_parts(cookie@),
            wanted == CONTROL_COOKIE_PREFIX@ + secret@,
            i <= n,
            forall|k: int| 0 <= k < i ==> parts[k] != wanted,
        decreases n - i,
    {
        let part = trim(pieces[i]);
        proof {
            assert(texts(pieces@)[i as int] == pieces@[i as int]@);
            assert(parts[i as int] == part@);
        }
        match strip_prefix(part, CONTROL_COOKIE_PREFIX) {
            Some(v) => {
                assert(part@ =~= CONTROL_COOKIE_PREFIX@ + v@);
                if same(v, secret) {
                    return true;
                }
                assert(part@ != wanted) by {
                    if part@ == wanted {
                        assert(v@ =~= secret@);
                    }
                }
            },
            None => {
                assert(part@ != wanted) by {
                    if part@ == wanted {
                        assert(wanted.take(CONTROL_COOKIE_PREFIX@.len() as int)
                            =~= CONTROL_COOKIE_PREFIX@);
                    }
                }
            },
        }
        i += 1;
    }
    false
}

/// Trimming leaves a stretch of what was there, and nothing more to trim.
proof fn lemma_trimmed(s: Seq<char>, c: char)
    ensures
        trimmed(trimmed(s)) == trimmed(s),
        !s.contains(c) ==> !trimmed(s).contains(c),
{
    lemma_trim_start(s, c);
    lemma_trim_end(trim_start(s), c);
    let t = trimmed(s);
    assert(trim_start(t) == t) by {
        if t.len() > 0 {
            assert(!is_space(trim_start(s)[0]));
            assert(t[0] == trim_start(s)[0]);
        }
    }
}

proof fn lemma_trim_start(s: Seq<char>, c: char)
    ensures
        trim_start(s).len() > 0 ==> !is_space(trim_start(s)[0]),
        !s.contains(c) ==> !trim_start(s).contains(c),
    decreases s.len(),
{
    if s.len() > 0 && is_space(s[0]) {
        lemma_trim_start(s.drop_first(), c);
        if !s.contains(c) {
            assert(!s.drop_first().contains(c)) by {
                if s.drop_first().contains(c) {
                    let j = choose|j: int| 0 <= j < s.drop_first().len() && s.drop_first()[j] == c;
                    assert(s[j + 1] == c);
                }
            }
        }
    }
}

proof fn lemma_trim_end(s: Seq<char>, c: char)
    ensures
        trim_end(trim_end(s)) == trim_end(s),
        trim_end(s).len() <= s.len(),
        trim_end(s) == s.take(trim_end(s).len() as int),
        !s.contains(c) ==> !trim_end(s).contains(c),
    decreases s.len(),
{
    if s.len() > 0 && is_space(s.last()) {
        lemma_trim_end(s.drop_last(), c);
        let n = trim_end(s).len() as int;
        assert(s.drop_last().take(n) =~= s.take(n));
        if !s.contains(c) {
            assert(!s.drop_last().contains(c)) by {
                if s.drop_last().contains(c) {
                    let j = choose|j: int| 0 <= j < s.drop_last().len() && s.drop_last()[j] == c;
                    assert(s[j] == c);
                }
            }
        }
    } else {
        assert(s.take(s.len() as int) =~= s);
    }
}

proof fn lemma_split_free(s: Seq<char>, c: char)
    ensures
        forall|i: int| 0 <= i < split_on(s, c).len() ==> !(#[trigger] split_on(s, c)[i]).contains(c),
    decreases s.len(),
{
    lemma_until_free(s, c);
    let i = until(s, c);
    if i < s.len() {
        lemma_split_free(s.skip(i + 1), c);
        let rest = split_on(s.skip(i + 1), c);
        assert forall|k: int| 0 <= k < split_on(s, c).len() implies !(#[trigger] split_on(
            s,
            c,
        )[k]).contains(c) by {
            if k == 0 {
                assert(split_on(s, c)[0] == s.take(i));
            } else {
                assert(split_on(s, c)[k] == rest[k - 1]);
            }
        }
    } else {
        assert(split_on(s, c)[0] == s);
    }
}

/// Every part that goes upstream is trimmed, holds no separator and is not the session
/// cookie.
proof fn lemma_foreign(cookie: Seq<char>, n: int)
    requires
        0 <= n <= cookie_parts(cookie).len(),
    ensures
        forall|i: int|
            0 <= i < foreign_parts(cookie_parts(cookie).take(n)).len() ==> ({
                let p = #[trigger] foreign_parts(cookie_parts(cookie).take(n))[i];
                &&& foreign_part(p)
                &&& trimmed(p) == p
                &&& !p.contains(';')
            }),
    decreases n,
{
    if n > 0 {
        let parts = cookie_parts(cookie);
        lemma_foreign(cookie, n - 1);
        assert(parts.take(n).drop_last() =~= parts.take(n - 1));
        lemma_split_free(cookie, ';');
        assert(!split_on(cookie, ';')[n - 1].contains(';'));
        lemma_trimmed(split_on(cookie, ';')[n - 1], ';');
        let now = foreign_parts(parts.take(n));
        let before = foreign_parts(parts.take(n - 1));
        assert(parts.take(n).last() == trimmed(split_on(cookie, ';')[n - 1]));
        assert forall|i: int| 0 <= i < now.len() implies ({
            let p = #[trigger] now[i];
            &&& foreign_part(p)
            &&& trimmed(p) == p
            &&& !p.contains(';')
        }) by {
            if i < before.len() {
                assert(now[i] == before[i]);
            }
        }
    }
}

/// Splitting joined parts gives the parts back, all but the first behind a blank.
proof fn lemma_split_joined(parts: Seq<Seq<char>>, lead: Seq<char>)
    requires
        parts.len() > 0,
        forall|i: int| 0 <= i < parts.len() ==> !(#[trigger] parts[i]).contains(';'),
        lead.len() == 0 || lead == seq![' '],
    ensures
        split_on(lead + joined(parts, "; "@), ';').len() == parts.len(),
        split_on(lead + joined(parts, "; "@), ';')[0] == lead + parts[0],
        forall|i: int|
            1 <= i < parts.len() ==> #[trigger] split_on(lead + joined(parts, "; "@), ';')[i]
                == seq![' '] + parts[i],
    decreases parts.len(),
{
    reveal_strlit("; ");
    let s = lead + joined(parts, "; "@);
    let k = (lead.len() + parts[0].len()) as int;
    if parts.len() == 1 {
        assert forall|j: int| 0 <= j < s.len() implies s[j] != ';' by {
            if j >= lead.len() {
                assert(s[j] == parts[0][j - lead.len()]);
            }
        }
        lemma_until(s, ';', k);
    } else {
        let rest = parts.drop_first();
        let tail = joined(rest, "; "@);
        assert(s =~= lead + (parts[0] + "; "@ + tail));
        assert(s[k] == ';');
        assert forall|j: int| 0 <= j < k implies s[j] != ';' by {
            if j >= lead.len() {
                assert(s[j] == parts[0][j - lead.len()]);
            }
        }
        lemma_until(s, ';', k);
        assert(s.take(k) =~= lead + parts[0]);
        assert(s.skip(k + 1) =~= seq![' '] + tail);
        assert forall|i: int| 0 <= i < rest.len() implies !(#[trigger] rest[i]).contains(';') by {
            assert(rest[i] == parts[i + 1]);
        }
        lemma_split_joined(rest, seq![' ']);
        assert forall|i: int| 1 <= i < parts.len() implies #[trigger] split_on(s, ';')[i] == seq![
            ' ',
        ] + parts[i] by {
            assert(split_on(s, ';')[i] == split_on(seq![' '] + tail, ';')[i - 1]);
            assert(rest[i - 1] == parts[i]);
        }
    }
}

/// What goes upstream holds exactly the foreign parts of the header, in order.
pub proof fn law_foreign_cookies_survive(cookie: Seq<char>)
    ensures
        match stripped_cookie(cookie) {
            Some(t) => cookie_parts(t) == foreign_parts(cookie_parts(cookie)),
            None => foreign_parts(cookie_parts(cookie)).len() == 0,
        },
{
    let all = cookie_parts(cookie);
    let kept = foreign_parts(all);
    if kept.len() > 0 {
        assert(all.take(all.len() as int) =~= all);
        lemma_foreign(cookie, all.len() as int);
        let t = joined(kept, "; "@);
        assert(Seq::<char>::empty() + t =~= t);
        lemma_split_joined(kept, Seq::empty());
        assert forall|i: int| 0 <= i < kept.len() implies trimmed(
            #[trigger] split_on(t, ';')[i],
        ) == kept[i] by {
            if i == 0 {
                assert(Seq::<char>::empty() + kept[0] =~= kept[0]);
            } else {
                let p = seq![' '] + kept[i];
                assert(p.drop_first() =~= kept[i]);
                assert(trim_start(p) == trim_start(kept[i]));
            }
        }
        assert(cookie_parts(t) =~= kept);
    }
}

/// The cookie with which a session is recognised, as a browser sends it.
pub fn session_pair(secret: &str) -> (r: String)
    ensures
        r@ == "hellbox_control="@ + secret@,
{
    let mut s = "hellbox_control=".to_owned();
    s.append(secret);
    s
}

/// No cookie field that goes upstream holds the session secret, whatever it is.
pub proof fn law_secret_stays_local(cookie: Seq<char>, secret: Seq<char>)
    ensures
        stripped_cookie(cookie) matches Some(t) ==> !carries_secret(t, secret),
{
    let all = cookie_parts(cookie);
    law_foreign_cookies_survive(cookie);
    assert(all.take(all.len() as int) =~= all);
    lemma_foreign(cookie, all.len() as int);
    let wanted = CONTROL_COOKIE_PREFIX@ + secret;
    assert(wanted.take(CONTROL_COOKIE_PREFIX@.len() as int) =~= CONTROL_COOKIE_PREFIX@);
}

/// A browser that sends the session cookie, alone or among others, is recognised by its
/// secret. The parts of a header hold no separator and no white space around them.
pub proof fn law_session_is_recognised(parts: Seq<Seq<char>>, secret: Seq<char>)
    requires
        parts.contains(CONTROL_COOKIE_PREFIX@ + secret),
        forall|i: int|
            0 <= i < parts.len() ==> !(#[trigger] parts[i]).contains(';') && trimmed(parts[i])
                == parts[i],
    ensures
        carries_secret(joined(parts, "; "@), secret),
{
    let t = joined(parts, "; "@);
    assert(Seq::<char>::empty() + t =~= t);
    lemma_split_joined(parts, Seq::empty());
    let k = choose|k: int| 0 <= k < parts.len() && parts[k] == CONTROL_COOKIE_PREFIX@ + secret;
    assert(cookie_parts(t)[k] == parts[k]) by {
        if k == 0 {
            assert(Seq::<char>::empty() + parts[0] =~= parts[0]);
        } else {
            let p = seq![' '] + parts[k];
            assert(p.drop_first() =~= parts[k]);
            assert(trim_start(p) == trim_start(parts[k]));
        }
    }
}

proof fn lemma_split_visible(s: Seq<char>, c: char)
    requires
        visible_chars(s),
    ensures
        forall|i: int|
            0 <= i < split_on(s, c).len() ==> visible_chars(#[trigger] split_on(s, c)[i]),
    decreases s.len(),
{
    lemma_until_free(s, c);
    let i = until(s, c);
    if i < s.len() {
        assert(visible_chars(s.skip(i + 1)));
        lemma_split_visible(s.skip(i + 1), c);
        let rest = split_on(s.skip(i + 1), c);
        assert forall|k: int| 0 <= k < split_on(s, c).len() implies visible_chars(
            #[trigger] split_on(s, c)[k],
        ) by {
            if k == 0 {
                assert(split_on(s, c)[0] == s.take(i));
            } else {
                assert(split_on(s, c)[k] == rest[k - 1]);
            }
        }
    } else {
        assert(split_on(s, c)[0] == s);
    }
}

proof fn lemma_trim_visible(s: Seq<char>)
    requires
        visible_chars(s),
    ensures
        visible_chars(trim_start(s)),
        visible_chars(trim_end(s)),
    decreases s.len(),
{
    if s.len() > 0 {
        if is_space(s[0]) {
            assert(visible_chars(s.drop_first()));
            lemma_trim_visible(s.drop_first());
        }
        if is_space(s.last()) {
            assert(visible_chars(s.drop_last()));
            lemma_trim_visible(s.drop_last());
        }
    }
}

proof fn lemma_foreign_visible(parts: Seq<Seq<char>>)
    requires
        forall|i: int| 0 <= i < parts.len() ==> visible_chars(#[trigger] parts[i]),
    ensures
        forall|i: int|
            0 <= i < foreign_parts(parts).len() ==> visible_chars(#[trigger] foreign_parts(parts)[i]),
    decreases parts.len(),
{
    if parts.len() > 0 {
        let before = foreign_parts(parts.drop_last());
        let now = foreign_parts(parts);
        assert forall|i: int| 0 <= i < parts.len() - 1 implies visible_chars(
            #[trigger] parts.drop_last()[i],
        ) by {
            assert(visible_chars(parts[i]));
        }
        lemma_foreign_visible(parts.drop_last());
        assert(visible_chars(parts[parts.len() - 1]));
        assert forall|i: int| 0 <= i < now.len() implies visible_chars(#[trigger] now[i]) by {
            if i < before.len() {
                assert(now[i] == before[i]);
            }
        }
    }
}

proof fn lemma_joined_visible(parts: Seq<Seq<char>>)
    requires
        forall|i: int| 0 <= i < parts.len() ==> visible_chars(#[trigger] parts[i]),
    ensures
        visible_chars(joined(parts, "; "@)),
    decreases parts.len(),
{
    reveal_strlit("; ");
    if parts.len() > 0 {
        assert(visible_chars(parts[0]));
        lemma_joined_visible(parts.drop_first());
    }
}

/// What goes upstream of a header of visible text is visible text.
pub proof fn lemma_stripped_visible(cookie: Seq<char>)
    requires
        visible_chars(cookie),
    ensures
        stripped_cookie(cookie) matches Some(t) ==> visible_chars(t),
{
    let parts = cookie_parts(cookie);
    lemma_split_visible(cookie, ';');
    assert forall|i: int| 0 <= i < parts.len() implies visible_chars(#[trigger] parts[i]) by {
        let p = split_on(cookie, ';')[i];
        lemma_trim_visible(p);
        lemma_trim_visible(trim_start(p));
    }
    lemma_foreign_visible(parts);
    lemma_joined_visible(foreign_parts(parts));
}

/// What goes upstream is what is left of the header without the session cookie and without
/// empty parts: every other part, in its place.
pub proof fn law_all_other_cookies_pass(parts: Seq<Seq<char>>)
    ensures
        foreign_parts(parts) == parts.filter(
            |p: Seq<char>| p.len() > 0 && !has_prefix(p, "hellbox_control="@),
        ),
    decreases parts.len(),
{
    let keep = |p: Seq<char>| p.len() > 0 && !has_prefix(p, "hellbox_control="@);
    reveal(Seq::filter);
    if parts.len() > 0 {
        law_all_other_cookies_pass(parts.drop_last());
    }
}

/// A header that carries no session cookie goes upstream as it is, whatever it holds.
pub proof fn law_other_headers_pass_unchanged(parts: Seq<Seq<char>>)
    requires
        parts.len() > 0,
        forall|i: int|
            0 <= i < parts.len() ==> (#[trigger] parts[i]).len() > 0 && !parts[i].contains(';')
                && trimmed(parts[i]) == parts[i] && !has_prefix(parts[i], "hellbox_control="@),
    ensures
        stripped_cookie(joined(parts, "; "@)) == Some(joined(parts, "; "@)),
{
    let t = joined(parts, "; "@);
    assert(Seq::<char>::empty() + t =~= t);
    lemma_split_joined(parts, Seq::empty());
    assert forall|k: int| 0 <= k < parts.len() implies #[trigger] cookie_parts(t)[k]
        == parts[k] by {
        if k == 0 {
            assert(Seq::<char>::empty() + parts[0] =~= parts[0]);
        } else {
            let p = seq![' '] + parts[k];
            assert(p.drop_first() =~= parts[k]);
            assert(trim_start(p) == trim_start(parts[k]));
        }
    }
    assert(cookie_parts(t) =~= parts);
    lemma_all_foreign(parts);
}

proof fn lemma_all_foreign(parts: Seq<Seq<char>>)
    requires
        forall|i: int|
            0 <= i < parts.len() ==> (#[trigger] parts[i]).len() > 0 && !has_prefix(
                parts[i],
                "hellbox_control="@,
            ),
    ensures
        foreign_parts(parts) == parts,
    decreases parts.len(),
{
    if parts.len() > 0 {
        lemma_all_foreign(parts.drop_last());
        assert(parts.drop_last().push(parts.last()) =~= parts);
    }
}

/// A session is opened by its own secret and by no other: a cookie header with one session
/// cookie among others is recognised for the secret in it alone.
pub proof fn law_one_secret_fits(
    parts: Seq<Seq<char>>,
    k: int,
    secret: Seq<char>,
    other: Seq<char>,
)
    requires
        0 <= k < parts.len(),
        parts[k] == "hellbox_control="@ + secret,
        forall|i: int|
            0 <= i < parts.len() ==> !(#[trigger] parts[i]).contains(';') && trimmed(parts[i])
                == parts[i] && (i != k ==> !has_prefix(parts[i], "hellbox_control="@)),
    ensures
        carries_secret(joined(parts, "; "@), other) <==> other == secret,
{
    let t = joined(parts, "; "@);
    assert(Seq::<char>::empty() + t =~= t);
    lemma_split_joined(parts, Seq::empty());
    assert forall|j: int| 0 <= j < parts.len() implies #[trigger] cookie_parts(t)[j]
        == parts[j] by {
        if j == 0 {
            assert(Seq::<char>::empty() + parts[0] =~= parts[0]);
        } else {
            let p = seq![' '] + parts[j];
            assert(p.drop_first() =~= parts[j]);
            assert(trim_start(p) == trim_start(parts[j]));
        }
    }
    assert(cookie_parts(t) =~= parts);
    let wanted = "hellbox_control="@ + other;
    if parts.contains(wanted) {
        let j = choose|j: int| 0 <= j < parts.len() && parts[j] == wanted;
        assert(wanted.take("hellbox_control="@.len() as int) =~= "hellbox_control="@);
        assert(j == k);
        assert(parts[k].skip("hellbox_control="@.len() as int) =~= secret);
        assert(wanted.skip("hellbox_control="@.len() as int) =~= other);
    }
}

} // verus!
