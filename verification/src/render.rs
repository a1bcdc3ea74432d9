//! The template renderer: textual substitution of placeholder tokens.
use vstd::prelude::*;
use vstd::string::StrSliceExecFns;
use vstd::string::StringExecFns;

verus! {

/// `pat` occurs in `text` starting at index `i`.
pub open spec fn occurs_at(text: Seq<char>, pat: Seq<char>, i: int) -> bool {
    0 <= i && i + pat.len() <= text.len() && text.subrange(i, i + pat.len()) == pat
}

/// `pat` occurs somewhere in `text`.
pub open spec fn occurs_in(text: Seq<char>, pat: Seq<char>) -> bool {
    exists|i: int| occurs_at(text, pat, i)
}

/// Replaces every leftmost, non-overlapping occurrence of `pat` in `text`
/// with `sub`, scanning left to right. An empty pattern leaves the text
/// unchanged.
pub open spec fn replace_all(text: Seq<char>, pat: Seq<char>, sub: Seq<char>) -> Seq<char>
    decreases text.len(),
{
    if pat.len() == 0 {
        text
    } else if text.len() < pat.len() {
        text
    } else if text.take(pat.len() as int) == pat {
        sub + replace_all(text.skip(pat.len() as int), pat, sub)
    } else {
        seq![text[0]] + replace_all(text.skip(1), pat, sub)
    }
}

/// Applies `replace_all` for each (placeholder, value) pair in order.
pub open spec fn render_vars(text: Seq<char>, vars: Seq<(Seq<char>, Seq<char>)>) -> Seq<char>
    decreases vars.len(),
{
    if vars.len() == 0 {
        text
    } else {
        render_vars(replace_all(text, vars[0].0, vars[0].1), vars.skip(1))
    }
}

/// `a` stands at the front of `b`.
pub open spec fn is_prefix(a: Seq<char>, b: Seq<char>) -> bool {
    a.len() <= b.len() && b.take(a.len() as int) == a
}

/// No character of `pat` occurs in `sub`.
pub open spec fn disjoint_chars(pat: Seq<char>, sub: Seq<char>) -> bool {
    forall|i: int, k: int| 0 <= i < pat.len() && 0 <= k < sub.len() ==> pat[i] != sub[k]
}

/// A placeholder that is absent from the text passes through replacement
/// unchanged: substituting for a pattern that occurs nowhere leaves the
/// text exactly as it was.
pub proof fn lemma_replace_all_absent(text: Seq<char>, pat: Seq<char>, sub: Seq<char>)
    requires
        pat.len() > 0,
        !occurs_in(text, pat),
    ensures
        replace_all(text, pat, sub) == text,
    decreases text.len(),
{
    if text.len() < pat.len() {
    } else if text.take(pat.len() as int) == pat {
        assert(text.subrange(0, pat.len() as int) =~= text.take(pat.len() as int));
        assert(occurs_at(text, pat, 0));
        assert(false);
    } else {
        assert forall|i: int| !occurs_at(text.skip(1), pat, i) by {
            if occurs_at(text.skip(1), pat, i) {
                assert(text.subrange(i + 1, i + 1 + pat.len()) =~= text.skip(1).subrange(
                    i,
                    i + pat.len(),
                ));
                assert(occurs_at(text, pat, i + 1));
            }
        }
        lemma_replace_all_absent(text.skip(1), pat, sub);
        assert(seq![text[0]] + text.skip(1) =~= text);
    }
}

proof fn lemma_no_partial_prefix(
    text: Seq<char>,
    pat: Seq<char>,
    sub: Seq<char>,
    q: Seq<char>,
    j: int,
)
    requires
        pat.len() > 0,
        sub.len() > 0,
        disjoint_chars(q, sub),
        1 <= j < q.len(),
        is_prefix(q.skip(j), replace_all(text, pat, sub)),
    ensures
        is_prefix(q.skip(j), text),
    decreases text.len(),
{
    let r = replace_all(text, pat, sub);
    let tail = q.skip(j);
    assert(tail.len() == q.len() - j);
    assert(r.take(tail.len() as int)[0] == r[0]);
    assert(tail[0] == q[j]);
    if text.len() < pat.len() {
        // the text is returned unchanged, so the prefix stands in it
    } else if text.take(pat.len() as int) == pat {
        // the replacement starts with `sub`, whose first character cannot
        // be a character of `q`
        assert(r[0] == sub[0]);
        assert(false);
    } else {
        assert(r[0] == text[0]);
        assert(q[j] == text[0]);
        if j + 1 == q.len() {
            assert(tail =~= seq![q[j]]);
            assert(text.take(1) =~= seq![text[0]]);
        } else {
            let r1 = replace_all(text.skip(1), pat, sub);
            assert(r == seq![text[0]] + r1);
            assert forall|k: int| 0 <= k < q.len() - j - 1 implies #[trigger] r1.take(
                q.len() - j - 1,
            )[k] == q.skip(j + 1)[k] by {
                assert(r.take(tail.len() as int)[k + 1] == tail[k + 1]);
                assert(r[k + 1] == r1[k]);
            }
            assert(r1.take(q.len() - j - 1) =~= q.skip(j + 1));
            lemma_no_partial_prefix(text.skip(1), pat, sub, q, j + 1);
            assert forall|k: int| 0 <= k < tail.len() implies #[trigger] text.take(
                tail.len() as int,
            )[k] == tail[k] by {
                if k == 0 {
                } else {
                    assert(text.skip(1).take(q.len() - j - 1)[k - 1] == q.skip(j + 1)[k - 1]);
                }
            }
            assert(text.take(tail.len() as int) =~= tail);
        }
    }
}

/// A present placeholder is fully replaced: when the substituted value is
/// nonempty and shares no character with the pattern, no occurrence of the
/// pattern survives in the result.
pub proof fn lemma_replace_all_complete(text: Seq<char>, pat: Seq<char>, sub: Seq<char>)
    requires
        pat.len() > 0,
        sub.len() > 0,
        disjoint_chars(pat, sub),
    ensures
        !occurs_in(replace_all(text, pat, sub), pat),
    decreases text.len(),
{
    let r = replace_all(text, pat, sub);
    if text.len() < pat.len() {
        assert forall|i: int| !occurs_at(r, pat, i) by {}
    } else if text.take(pat.len() as int) == pat {
        let r1 = replace_all(text.skip(pat.len() as int), pat, sub);
        lemma_replace_all_complete(text.skip(pat.len() as int), pat, sub);
        assert forall|i: int| !occurs_at(r, pat, i) by {
            if occurs_at(r, pat, i) {
                if i < sub.len() {
                    assert(r.subrange(i, i + pat.len())[0] == r[i]);
                    assert(r[i] == sub[i]);
                    assert(pat[0] == sub[i]);
                } else {
                    assert(r1.subrange(i - sub.len(), i - sub.len() + pat.len()) =~= r.subrange(
                        i,
                        i + pat.len(),
                    ));
                    assert(occurs_at(r1, pat, i - sub.len()));
                }
            }
        }
    } else {
        let r1 = replace_all(text.skip(1), pat, sub);
        lemma_replace_all_complete(text.skip(1), pat, sub);
        assert forall|i: int| !occurs_at(r, pat, i) by {
            if occurs_at(r, pat, i) {
                if i >= 1 {
                    assert(r1.subrange(i - 1, i - 1 + pat.len()) =~= r.subrange(i, i + pat.len()));
                    assert(occurs_at(r1, pat, i - 1));
                } else {
                    assert(r.subrange(0, pat.len() as int)[0] == r[0]);
                    assert(pat[0] == text[0]);
                    if pat.len() == 1 {
                        assert(text.take(1) =~= seq![text[0]]);
                        assert(pat =~= seq![pat[0]]);
                    } else {
                        assert forall|k: int| 0 <= k < pat.len() - 1 implies #[trigger] r1.take(
                            pat.len() - 1,
                        )[k] == pat.skip(1)[k] by {
                            assert(r.subrange(0, pat.len() as int)[k + 1] == pat[k + 1]);
                            assert(r[k + 1] == r1[k]);
                        }
                        assert(r1.take(pat.len() - 1) =~= pat.skip(1));
                        lemma_no_partial_prefix(text.skip(1), pat, sub, pat, 1);
                        assert forall|k: int| 0 <= k < pat.len() implies #[trigger] text.take(
                            pat.len() as int,
                        )[k] == pat[k] by {
                            if k == 0 {
                            } else {
                                assert(text.skip(1).take(pat.len() - 1)[k - 1] == pat.skip(
                                    1,
                                )[k - 1]);
                            }
                        }
                        assert(text.take(pat.len() as int) =~= pat);
                    }
                }
            }
        }
    }
}

/// Replacement introduces no occurrence of an unrelated token: a nonempty
/// `q` absent from the text, sharing no character with the nonempty
/// substituted value, is still absent after the replacement.
pub proof fn lemma_replace_all_preserves_absence(
    text: Seq<char>,
    pat: Seq<char>,
    sub: Seq<char>,
    q: Seq<char>,
)
    requires
        pat.len() > 0,
        sub.len() > 0,
        q.len() > 0,
        disjoint_chars(q, sub),
        !occurs_in(text, q),
    ensures
        !occurs_in(replace_all(text, pat, sub), q),
    decreases text.len(),
{
    let r = replace_all(text, pat, sub);
    if text.len() < pat.len() {
        // the text is returned unchanged
    } else if text.take(pat.len() as int) == pat {
        assert forall|i: int| !occurs_at(text.skip(pat.len() as int), q, i) by {
            if occurs_at(text.skip(pat.len() as int), q, i) {
                assert(text.subrange(i + pat.len(), i + pat.len() + q.len()) =~= text.skip(
                    pat.len() as int,
                ).subrange(i, i + q.len()));
                assert(occurs_at(text, q, i + pat.len()));
            }
        }
        lemma_replace_all_preserves_absence(text.skip(pat.len() as int), pat, sub, q);
        let r1 = replace_all(text.skip(pat.len() as int), pat, sub);
        assert forall|i: int| !occurs_at(r, q, i) by {
            if occurs_at(r, q, i) {
                if i < sub.len() {
                    assert(r.subrange(i, i + q.len())[0] == r[i]);
                    assert(r[i] == sub[i]);
                    assert(q[0] == sub[i]);
                } else {
                    assert(r1.subrange(i - sub.len(), i - sub.len() + q.len()) =~= r.subrange(
                        i,
                        i + q.len(),
                    ));
                    assert(occurs_at(r1, q, i - sub.len()));
                }
            }
        }
    } else {
        assert forall|i: int| !occurs_at(text.skip(1), q, i) by {
            if occurs_at(text.skip(1), q, i) {
                assert(text.subrange(i + 1, i + 1 + q.len()) =~= text.skip(1).subrange(
                    i,
                    i + q.len(),
                ));
                assert(occurs_at(text, q, i + 1));
            }
        }
        lemma_replace_all_preserves_absence(text.skip(1), pat, sub, q);
        let r1 = replace_all(text.skip(1), pat, sub);
        assert forall|i: int| !occurs_at(r, q, i) by {
            if occurs_at(r, q, i) {
                if i >= 1 {
                    assert(r1.subrange(i - 1, i - 1 + q.len()) =~= r.subrange(i, i + q.len()));
                    assert(occurs_at(r1, q, i - 1));
                } else {
                    assert(r.subrange(0, q.len() as int)[0] == r[0]);
                    assert(q[0] == text[0]);
                    if q.len() == 1 {
                        assert(text.take(1) =~= seq![text[0]]);
                        assert(q =~= seq![q[0]]);
                        assert(occurs_at(text, q, 0));
                    } else {
                        assert forall|k: int| 0 <= k < q.len() - 1 implies #[trigger] r1.take(
                            q.len() - 1,
                        )[k] == q.skip(1)[k] by {
                            assert(r.subrange(0, q.len() as int)[k + 1] == q[k + 1]);
                            assert(r[k + 1] == r1[k]);
                        }
                        assert(r1.take(q.len() - 1) =~= q.skip(1));
                        lemma_no_partial_prefix(text.skip(1), pat, sub, q, 1);
                        assert forall|k: int| 0 <= k < q.len() implies #[trigger] text.take(
                            q.len() as int,
                        )[k] == q[k] by {
                            if k == 0 {
                            } else {
                                assert(text.skip(1).take(q.len() - 1)[k - 1] == q.skip(1)[k - 1]);
                            }
                        }
                        assert(text.take(q.len() as int) =~= q);
                        assert(text.subrange(0, q.len() as int) =~= text.take(q.len() as int));
                        assert(occurs_at(text, q, 0));
                    }
                }
            }
        }
    }
}

/// Rendering leaves a token alone that is absent from the text and shares
/// no character with any substituted value.
pub proof fn lemma_render_vars_preserves_absence(
    text: Seq<char>,
    vars: Seq<(Seq<char>, Seq<char>)>,
    q: Seq<char>,
)
    requires
        q.len() > 0,
        !occurs_in(text, q),
        forall|k: int|
            0 <= k < vars.len() ==> {
                let pair = #[trigger] vars[k];
                pair.0.len() > 0 && pair.1.len() > 0 && disjoint_chars(q, pair.1)
            },
    ensures
        !occurs_in(render_vars(text, vars), q),
    decreases vars.len(),
{
    if vars.len() == 0 {
    } else {
        lemma_replace_all_preserves_absence(text, vars[0].0, vars[0].1, q);
        assert(forall|k: int| 0 <= k < vars.skip(1).len() ==> vars.skip(1)[k] == vars[k + 1]);
        lemma_render_vars_preserves_absence(replace_all(text, vars[0].0, vars[0].1), vars.skip(1), q);
    }
}

/// Rendering fully replaces every registered placeholder: when every
/// placeholder and every value is nonempty and no placeholder shares a
/// character with any value, no placeholder of the list occurs in the
/// rendered text.
pub proof fn lemma_render_vars_complete(
    text: Seq<char>,
    vars: Seq<(Seq<char>, Seq<char>)>,
    j: int,
)
    requires
        0 <= j < vars.len(),
        forall|k: int|
            0 <= k < vars.len() ==> {
                let pair = #[trigger] vars[k];
                pair.0.len() > 0 && pair.1.len() > 0
            },
        forall|i: int, k: int|
            0 <= i < vars.len() && 0 <= k < vars.len() ==> disjoint_chars(
                #[trigger] vars[i].0,
                #[trigger] vars[k].1,
            ),
    ensures
        !occurs_in(render_vars(text, vars), vars[j].0),
    decreases vars.len(),
{
    let r0 = replace_all(text, vars[0].0, vars[0].1);
    assert(forall|k: int| 0 <= k < vars.skip(1).len() ==> vars.skip(1)[k] == vars[k + 1]);
    if j == 0 {
        lemma_replace_all_complete(text, vars[0].0, vars[0].1);
        lemma_render_vars_preserves_absence(r0, vars.skip(1), vars[0].0);
    } else {
        lemma_render_vars_complete(r0, vars.skip(1), j - 1);
    }
}

/// Rendering with a variable list none of whose placeholders occurs in the
/// text returns the text unchanged.
pub proof fn lemma_render_vars_absent(text: Seq<char>, vars: Seq<(Seq<char>, Seq<char>)>)
    requires
        forall|k: int|
            0 <= k < vars.len() ==> (#[trigger] vars[k]).0.len() > 0 && !occurs_in(
                text,
                vars[k].0,
            ),
    ensures
        render_vars(text, vars) == text,
    decreases vars.len(),
{
    if vars.len() == 0 {
    } else {
        lemma_replace_all_absent(text, vars[0].0, vars[0].1);
        assert(forall|k: int| 0 <= k < vars.skip(1).len() ==> vars.skip(1)[k] == vars[k + 1]);
        lemma_render_vars_absent(text, vars.skip(1));
    }
}

/// Whether `pat` stands in `text` at position `i`.
pub(crate) fn matches_at(text: &str, i: usize, pat: &str) -> (r: bool)
    requires
        i + pat@.len() <= text@.len(),
    ensures
        r == (text@.subrange(i as int, i + pat@.len()) == pat@),
{
    let n: usize = text.unicode_len();
    let m: usize = pat.unicode_len();
    let mut j: usize = 0;
    while j < m
        invariant
            n == text@.len(),
            m == pat@.len(),
            i + m <= n,
            j <= m,
            forall|k: int| 0 <= k < j ==> text@[i + k] == pat@[k],
        decreases m - j,
    {
        if text.get_char(i + j) != pat.get_char(j) {
            proof {
                assert(text@.subrange(i as int, i + pat@.len())[j as int] == text@[i + j]);
            }
            return false;
        }
        j += 1;
    }
    proof {
        assert(text@.subrange(i as int, i + pat@.len()) =~= pat@);
    }
    true
}

proof fn lemma_replace_step_match(text: Seq<char>, pat: Seq<char>, sub: Seq<char>, i: int)
    requires
        pat.len() > 0,
        0 <= i,
        i + pat.len() <= text.len(),
        text.subrange(i, i + pat.len()) == pat,
    ensures
        replace_all(text.skip(i), pat, sub) == sub + replace_all(
            text.skip(i + pat.len()),
            pat,
            sub,
        ),
{
    let u = text.skip(i);
    assert(u.take(pat.len() as int) =~= text.subrange(i, i + pat.len()));
    assert(u.skip(pat.len() as int) =~= text.skip(i + pat.len()));
}

proof fn lemma_replace_step_char(text: Seq<char>, pat: Seq<char>, sub: Seq<char>, i: int)
    requires
        pat.len() > 0,
        0 <= i < text.len(),
        !(i + pat.len() <= text.len() && text.subrange(i, i + pat.len()) == pat),
    ensures
        replace_all(text.skip(i), pat, sub) == seq![text[i]] + replace_all(
            text.skip(i + 1),
            pat,
            sub,
        ),
{
    let u = text.skip(i);
    assert(u.skip(1) =~= text.skip(i + 1));
    if u.len() < pat.len() {
        assert(replace_all(u, pat, sub) == u);
        assert(u.skip(1).len() < pat.len());
        assert(replace_all(u.skip(1), pat, sub) == u.skip(1));
        assert(u =~= seq![text[i]] + u.skip(1));
    } else {
        assert(u.take(pat.len() as int) =~= text.subrange(i, i + pat.len()));
        assert(u.take(pat.len() as int) != pat);
        assert(u[0] == text[i]);
    }
}

/// Replaces every leftmost, non-overlapping occurrence of `pat` in `text`
/// with `sub`; an empty pattern leaves the text unchanged.
pub fn replace_str(text: &str, pat: &str, sub: &str) -> (r: String)
    ensures
        r@ == replace_all(text@, pat@, sub@),
{
    let n: usize = text.unicode_len();
    let m: usize = pat.unicode_len();
    if m == 0 {
        return text.to_owned();
    }
    let mut r = String::new();
    let mut i: usize = 0;
    proof {
        assert(text@.skip(0) =~= text@);
    }
    while i < n
        invariant
            n == text@.len(),
            m == pat@.len(),
            m > 0,
            i <= n,
            replace_all(text@, pat@, sub@) == r@ + replace_all(text@.skip(i as int), pat@, sub@),
        decreases n - i,
    {
        if n - i >= m && matches_at(text, i, pat) {
            r.append(sub);
            proof {
                lemma_replace_step_match(text@, pat@, sub@, i as int);
            }
            i += m;
        } else {
            let c = text.substring_char(i, i + 1);
            r.append(c);
            proof {
                lemma_replace_step_char(text@, pat@, sub@, i as int);
                assert(c@ =~= seq![text@[i as int]]);
            }
            i += 1;
        }
    }
    proof {
        assert(text@.skip(n as int) =~= Seq::<char>::empty());
        assert(replace_all(Seq::<char>::empty(), pat@, sub@) == Seq::<char>::empty());
        assert(r@ + Seq::<char>::empty() =~= r@);
    }
    r
}

/// Renders the template: substitutes each registered placeholder's value
/// for every occurrence of the placeholder, pair by pair in list order.
/// Placeholders present in the template but absent from the list pass
/// through unchanged.
pub fn replace_cmake_vars(cmake_contents: &str, cmake_vars: &Vec<(String, String)>) -> (r: String)
    ensures
        r@ == render_vars(cmake_contents@, cmake_vars.deep_view()),
{
    let mut result = cmake_contents.to_owned();
    let mut idx: usize = 0;
    let ghost dv = cmake_vars.deep_view();
    proof {
        assert(dv.skip(0) =~= dv);
    }
    while idx < cmake_vars.len()
        invariant
            dv == cmake_vars.deep_view(),
            dv.len() == cmake_vars@.len(),
            idx <= cmake_vars@.len(),
            render_vars(cmake_contents@, dv) == render_vars(result@, dv.skip(idx as int)),
        decreases cmake_vars@.len() - idx,
    {
        let pair = &cmake_vars[idx];
        proof {
            assert(dv[idx as int] == (cmake_vars@[idx as int].0@, cmake_vars@[idx as int].1@));
            assert(dv.skip(idx as int).skip(1) =~= dv.skip(idx as int + 1));
            assert(dv.skip(idx as int)[0] == dv[idx as int]);
        }
        result = replace_str(result.as_str(), pair.0.as_str(), pair.1.as_str());
        idx += 1;
    }
    proof {
        assert(dv.skip(dv.len() as int) =~= Seq::<(Seq<char>, Seq<char>)>::empty());
    }
    result
}

} // verus!
