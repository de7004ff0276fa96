//! Case-insensitive glob matching for the file path filters of the policy:
//! `*` matches any run of characters (also none), `?` exactly one.
use vstd::prelude::*;

use crate::text::{chars_of, to_lowercase, unicode_lower};

verus! {

/// Whether pattern `p` matches all of text `t`.
pub open spec fn glob_spec(p: Seq<char>, t: Seq<char>) -> bool
    decreases p.len(), t.len(),
{
    if p.len() == 0 {
        t.len() == 0
    } else if p[0] == '*' {
        glob_spec(p.drop_first(), t) || (t.len() > 0 && glob_spec(p, t.drop_first()))
    } else if t.len() == 0 {
        false
    } else if p[0] == '?' || p[0] == t[0] {
        glob_spec(p.drop_first(), t.drop_first())
    } else {
        false
    }
}

/// A star at `s` matches any suffix of the text from `ti` on.
proof fn lemma_star(p: Seq<char>, s: int, t: Seq<char>, ti: int)
    requires
        0 <= s < p.len(),
        p[s] == '*',
        0 <= ti <= t.len(),
    ensures
        glob_spec(p.skip(s), t.skip(ti)) <==> exists|k: int|
            ti <= k <= t.len() && #[trigger] glob_spec(p.skip(s + 1), t.skip(k)),
    decreases t.len() - ti,
{
    assert(p.skip(s).drop_first() =~= p.skip(s + 1));
    assert(p.skip(s)[0] == '*');
    assert(p.skip(s).len() > 0);
    assert(glob_spec(p.skip(s), t.skip(ti)) == (glob_spec(p.skip(s + 1), t.skip(ti)) || (t.skip(
        ti,
    ).len() > 0 && glob_spec(p.skip(s), t.skip(ti).drop_first()))));
    if glob_spec(p.skip(s + 1), t.skip(ti)) {
        assert(ti <= ti <= t.len() && glob_spec(p.skip(s + 1), t.skip(ti)));
    }
    if ti < t.len() {
        assert(t.skip(ti).drop_first() =~= t.skip(ti + 1));
        lemma_star(p, s, t, ti + 1);
        if glob_spec(p.skip(s), t.skip(ti)) {
            if !glob_spec(p.skip(s + 1), t.skip(ti)) {
                assert(glob_spec(p.skip(s), t.skip(ti + 1)));
                let k = choose|k: int|
                    ti + 1 <= k <= t.len() && #[trigger] glob_spec(p.skip(s + 1), t.skip(k));
                assert(ti <= k <= t.len() && glob_spec(p.skip(s + 1), t.skip(k)));
            }
        }
        if exists|k: int| ti <= k <= t.len() && #[trigger] glob_spec(p.skip(s + 1), t.skip(k)) {
            let k = choose|k: int|
                ti <= k <= t.len() && #[trigger] glob_spec(p.skip(s + 1), t.skip(k));
            if k > ti {
                assert(glob_spec(p.skip(s), t.skip(ti + 1)));
            }
        }
    } else {
        assert(t.skip(ti).len() == 0);
        if exists|k: int| ti <= k <= t.len() && #[trigger] glob_spec(p.skip(s + 1), t.skip(k)) {
            let k = choose|k: int|
                ti <= k <= t.len() && #[trigger] glob_spec(p.skip(s + 1), t.skip(k));
            assert(k == ti);
        }
    }
}

/// A run of stars `s..e` matches any suffix of the text from `ti` on.
proof fn lemma_stars(p: Seq<char>, s: int, e: int, t: Seq<char>, ti: int)
    requires
        0 <= s < e <= p.len(),
        forall|j: int| s <= j < e ==> p[j] == '*',
        0 <= ti <= t.len(),
    ensures
        glob_spec(p.skip(s), t.skip(ti)) <==> exists|k: int|
            ti <= k <= t.len() && #[trigger] glob_spec(p.skip(e), t.skip(k)),
    decreases e - s,
{
    lemma_star(p, s, t, ti);
    if s + 1 < e {
        if glob_spec(p.skip(s), t.skip(ti)) {
            let k1 = choose|k: int| ti <= k <= t.len() && #[trigger] glob_spec(p.skip(s + 1), t.skip(k));
            lemma_stars(p, s + 1, e, t, k1);
            let k2 = choose|k: int| k1 <= k <= t.len() && #[trigger] glob_spec(p.skip(e), t.skip(k));
            assert(ti <= k2 <= t.len() && glob_spec(p.skip(e), t.skip(k2)));
        }
        if exists|k: int| ti <= k <= t.len() && #[trigger] glob_spec(p.skip(e), t.skip(k)) {
            let k = choose|k: int| ti <= k <= t.len() && #[trigger] glob_spec(p.skip(e), t.skip(k));
            lemma_stars(p, s + 1, e, t, k);
            assert(glob_spec(p.skip(s + 1), t.skip(k)));
        }
    }
}

/// Match the pattern from index `pi0` against the text from index `ti0`.
fn glob_match_inner(p: &[char], pi0: usize, t: &[char], ti0: usize) -> (r: bool)
    requires
        pi0 <= p@.len(),
        ti0 <= t@.len(),
    ensures
        r == glob_spec(p@.skip(pi0 as int), t@.skip(ti0 as int)),
    decreases p@.len() - pi0,
{
    let mut pi = pi0;
    let mut ti = ti0;
    while pi < p.len()
        invariant
            pi0 <= pi <= p@.len(),
            ti <= t@.len(),
            glob_spec(p@.skip(pi0 as int), t@.skip(ti0 as int)) == glob_spec(
                p@.skip(pi as int),
                t@.skip(ti as int),
            ),
        decreases p@.len() - pi,
    {
        if p[pi] == '*' {
            let star = pi;
            while pi < p.len() && p[pi] == '*'
                invariant
                    star < p@.len(),
                    p@[star as int] == '*',
                    star <= pi <= p@.len(),
                    forall|j: int| star <= j < pi ==> p@[j] == '*',
                decreases p@.len() - pi,
            {
                pi += 1;
            }
            proof {
                lemma_stars(p@, star as int, pi as int, t@, ti as int);
            }
            if pi == p.len() {
                assert(glob_spec(p@.skip(pi as int), t@.skip(t@.len() as int)));
                return true;
            }
            let mut k = ti;
            loop
                invariant
                    pi0 < pi < p@.len(),
                    ti <= k <= t@.len(),
                    forall|j: int| ti <= j < k ==> !glob_spec(p@.skip(pi as int), #[trigger] t@.skip(j)),
                    glob_spec(p@.skip(pi0 as int), t@.skip(ti0 as int)) <==> exists|j: int|
                        ti <= j <= t@.len() && #[trigger] glob_spec(p@.skip(pi as int), t@.skip(j)),
                decreases t@.len() - k,
            {
                if glob_match_inner(p, pi, t, k) {
                    return true;
                }
                if k == t.len() {
                    assert forall|j: int| ti <= j <= t@.len() implies !#[trigger] glob_spec(
                        p@.skip(pi as int),
                        t@.skip(j),
                    ) by {
                        if j < k {
                        }
                    }
                    return false;
                }
                k += 1;
            }
        } else if p[pi] == '?' {
            assert(p@.skip(pi as int)[0] == '?');
            if ti >= t.len() {
                return false;
            }
            assert(p@.skip(pi as int).drop_first() =~= p@.skip(pi + 1));
            assert(t@.skip(ti as int).drop_first() =~= t@.skip(ti + 1));
            pi += 1;
            ti += 1;
        } else {
            assert(p@.skip(pi as int)[0] == p@[pi as int]);
            if ti >= t.len() || t[ti] != p[pi] {
                return false;
            }
            assert(p@.skip(pi as int).drop_first() =~= p@.skip(pi + 1));
            assert(t@.skip(ti as int).drop_first() =~= t@.skip(ti + 1));
            pi += 1;
            ti += 1;
        }
    }
    assert(p@.skip(pi as int).len() == 0);
    ti == t.len()
}

/// Glob matching on characters, without case folding.
pub fn glob_match_chars(p: &[char], t: &[char]) -> (r: bool)
    ensures
        r == glob_spec(p@, t@),
{
    assert(p@.skip(0) =~= p@);
    assert(t@.skip(0) =~= t@);
    glob_match_inner(p, 0, t, 0)
}

/// Case-insensitive glob match of `text` against `pattern`: both sides are
/// Unicode lower-cased first.
pub fn glob_match(pattern: &str, text: &str) -> (r: bool)
    ensures
        r == glob_spec(unicode_lower(pattern@), unicode_lower(text@)),
{
    let p = chars_of(to_lowercase(pattern).as_str());
    let t = chars_of(to_lowercase(text).as_str());
    glob_match_chars(p.as_slice(), t.as_slice())
}

/// A lone `*` matches every text.
pub proof fn law_star_matches_everything(t: Seq<char>)
    ensures
        glob_spec(seq!['*'], t),
    decreases t.len(),
{
    let p = seq!['*'];
    assert(p.len() == 1 && p[0] == '*');
    assert(p.drop_first() =~= Seq::<char>::empty());
    if t.len() > 0 {
        law_star_matches_everything(t.drop_first());
    }
    assert(glob_spec(p, t) == (glob_spec(p.drop_first(), t) || (t.len() > 0 && glob_spec(
        p,
        t.drop_first(),
    ))));
}

/// A pattern without wildcards matches exactly the text equal to it.
pub proof fn law_literal_matches_only_itself(p: Seq<char>, t: Seq<char>)
    requires
        forall|i: int| 0 <= i < p.len() ==> p[i] != '*' && p[i] != '?',
    ensures
        glob_spec(p, t) <==> p == t,
    decreases p.len(),
{
    if p.len() == 0 {
        if t.len() == 0 {
            assert(p =~= t);
        }
    } else if t.len() > 0 {
        law_literal_matches_only_itself(p.drop_first(), t.drop_first());
        if p[0] == t[0] && p.drop_first() == t.drop_first() {
            assert forall|i: int| 0 <= i < p.len() implies p[i] == t[i] by {
                if i > 0 {
                    assert(p[i] == p.drop_first()[i - 1]);
                    assert(t[i] == t.drop_first()[i - 1]);
                }
            }
            assert(p =~= t);
        }
        if p == t {
            assert(p.drop_first() =~= t.drop_first());
        }
    }
}

/// A lone `?` matches exactly the texts of one character.
pub proof fn law_question_mark_matches_one_char(t: Seq<char>)
    ensures
        glob_spec(seq!['?'], t) <==> t.len() == 1,
{
    let p = seq!['?'];
    assert(p.len() == 1 && p[0] == '?');
    assert(p.drop_first() =~= Seq::<char>::empty());
    if t.len() > 0 {
        assert(glob_spec(p, t) == glob_spec(p.drop_first(), t.drop_first()));
    }
}

} // verus!
