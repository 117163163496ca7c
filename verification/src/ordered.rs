//! Sets kept as sequences without repeats, in the order in which their
//! members came: the model of the mempool and of the peer registry.

use vstd::prelude::*;

verus! {

/// `s` with `a` at its end, unless `s` holds `a` already.
pub open spec fn inserted<A>(s: Seq<A>, a: A) -> Seq<A> {
    if s.contains(a) {
        s
    } else {
        s.push(a)
    }
}

/// `s` after each member of `more` was inserted, from the first to the last.
pub open spec fn merged<A>(s: Seq<A>, more: Seq<A>) -> Seq<A>
    decreases more.len(),
{
    if more.len() == 0 {
        s
    } else {
        inserted(merged(s, more.drop_last()), more.last())
    }
}

/// The members of `s` that `gone` does not hold, in their order.
pub open spec fn without<A>(s: Seq<A>, gone: Seq<A>) -> Seq<A> {
    s.filter(|a: A| !gone.contains(a))
}

/// Inserting keeps a sequence free of repeats, and the member is then there.
pub proof fn lemma_inserted<A>(s: Seq<A>, a: A)
    requires
        s.no_duplicates(),
    ensures
        inserted(s, a).no_duplicates(),
        inserted(s, a).contains(a),
        forall|x: A| inserted(s, a).contains(x) <==> s.contains(x) || x == a,
{
    let t = inserted(s, a);
    if !s.contains(a) {
        assert(t[s.len() as int] == a);
        assert forall|x: A| t.contains(x) implies s.contains(x) || x == a by {
            let i = choose|i: int| 0 <= i < t.len() && t[i] == x;
            if i < s.len() {
                assert(s[i] == x);
            }
        }
        assert forall|x: A| s.contains(x) implies t.contains(x) by {
            let i = choose|i: int| 0 <= i < s.len() && s[i] == x;
            assert(t[i] == x);
        }
    }
}

/// Merging keeps a sequence free of repeats and adds exactly the members of
/// what is merged in.
pub proof fn lemma_merged<A>(s: Seq<A>, more: Seq<A>)
    requires
        s.no_duplicates(),
    ensures
        merged(s, more).no_duplicates(),
        forall|x: A| merged(s, more).contains(x) <==> s.contains(x) || more.contains(x),
    decreases more.len(),
{
    if more.len() > 0 {
        let head = more.drop_last();
        lemma_merged(s, head);
        lemma_inserted(merged(s, head), more.last());
        assert forall|x: A| more.contains(x) <==> head.contains(x) || x == more.last() by {
            if more.contains(x) {
                let i = choose|i: int| 0 <= i < more.len() && more[i] == x;
                if i < head.len() {
                    assert(head[i] == x);
                }
            }
            if head.contains(x) {
                let i = choose|i: int| 0 <= i < head.len() && head[i] == x;
                assert(more[i] == x);
            }
            if x == more.last() {
                assert(more[more.len() - 1] == x);
            }
        }
    }
}

/// What is left after a removal: free of repeats as before, and exactly the
/// members that were not to go.
pub proof fn lemma_without<A>(s: Seq<A>, gone: Seq<A>)
    requires
        s.no_duplicates(),
    ensures
        without(s, gone).no_duplicates(),
        forall|x: A| without(s, gone).contains(x) <==> s.contains(x) && !gone.contains(x),
    decreases s.len(),
{
    reveal(Seq::filter);
    let keep = |a: A| !gone.contains(a);
    if s.len() > 0 {
        let head = s.drop_last();
        let last = s.last();
        lemma_without(head, gone);
        let kept = without(head, gone);
        assert(!head.contains(last)) by {
            if head.contains(last) {
                let i = choose|i: int| 0 <= i < head.len() && head[i] == last;
                assert(s[i] == s[s.len() - 1]);
            }
        }
        assert forall|x: A| s.contains(x) <==> head.contains(x) || x == last by {
            if s.contains(x) {
                let i = choose|i: int| 0 <= i < s.len() && s[i] == x;
                if i < head.len() {
                    assert(head[i] == x);
                }
            }
            if head.contains(x) {
                let i = choose|i: int| 0 <= i < head.len() && head[i] == x;
                assert(s[i] == x);
            }
            if x == last {
                assert(s[s.len() - 1] == x);
            }
        }
        if keep(last) {
            assert(without(s, gone) == kept.push(last));
            assert(inserted(kept, last) == kept.push(last));
            lemma_inserted(kept, last);
        } else {
            assert(without(s, gone) == kept);
        }
    }
}

/// Inserting a member a second time changes nothing.
pub proof fn lemma_inserted_twice<A>(s: Seq<A>, a: A)
    ensures
        inserted(s, a).contains(a),
        inserted(inserted(s, a), a) == inserted(s, a),
{
    if !s.contains(a) {
        assert(s.push(a)[s.len() as int] == a);
    }
}

} // verus!
