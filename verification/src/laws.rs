//! Laws of the registry: proof functions relating the create, get, list,
//! and deactivate operations across several calls. Each operation's own
//! contract speaks of one call through the step predicates of
//! `crate::parasite`; the lemmas here chain those predicates.

use vstd::prelude::*;

use crate::parasite::agent_with_id;
use crate::parasite::create_step;
use crate::parasite::deactivate_step;
use crate::parasite::deactivated;
use crate::parasite::distinct_ids;
use crate::parasite::has_id;
use crate::parasite::index_of_id;
use crate::parasite::lemma_agent_with_id_unique;
use crate::parasite::AgentStatus;
use crate::parasite::AgentView;

verus! {

/// Every identifier present in `pre` is still present in `post`: no
/// registry operation ever discards an identifier.
pub open spec fn ids_preserved(pre: Seq<AgentView>, post: Seq<AgentView>) -> bool {
    forall|x: u128| has_id(pre, x) ==> has_id(post, x)
}

/// Law: a create step grows the store by exactly one record, and the set of
/// stored identifiers by exactly the returned record's identifier, which
/// was not stored before; distinct identifiers stay distinct.
pub proof fn lemma_create_adds_only_its_id(pre: Seq<AgentView>, post: Seq<AgentView>, r: AgentView)
    requires
        create_step(pre, post, r),
    ensures
        post.len() == pre.len() + 1,
        has_id(post, r.id),
        !has_id(pre, r.id),
        forall|x: u128| has_id(post, x) <==> has_id(pre, x) || x == r.id,
        ids_preserved(pre, post),
        distinct_ids(pre) ==> distinct_ids(post),
{
    assert(post[pre.len() as int] == r);
    assert forall|x: u128| has_id(post, x) <==> has_id(pre, x) || x == r.id by {
        if has_id(post, x) {
            let i = choose|i: int| 0 <= i < post.len() && post[i].id == x;
            if i < pre.len() {
                assert(pre[i].id == x);
            }
        }
        if has_id(pre, x) {
            let i = choose|i: int| 0 <= i < pre.len() && pre[i].id == x;
            assert(post[i].id == x);
        }
        if x == r.id {
            assert(post[pre.len() as int].id == x);
        }
    }
    if distinct_ids(pre) {
        assert forall|i: int, j: int| 0 <= i < j < post.len() implies post[i].id
            != post[j].id by {
            if j < pre.len() {
                assert(pre[i].id != pre[j].id);
            } else {
                assert(!(0 <= i < pre.len() && pre[i].id == r.id));
            }
        }
    }
}

/// Law: a deactivate step changes no identifier at all — neither the store's
/// size nor which identifiers are present — and rewrites exactly the record
/// with the given identifier to its deactivated form.
pub proof fn lemma_deactivate_rewrites_one(pre: Seq<AgentView>, post: Seq<AgentView>, id: u128)
    requires
        distinct_ids(pre),
        deactivate_step(pre, post, id),
    ensures
        post.len() == pre.len(),
        forall|x: u128| has_id(post, x) <==> has_id(pre, x),
        ids_preserved(pre, post),
        distinct_ids(post),
        has_id(post, id),
        index_of_id(post, id) == index_of_id(pre, id),
        agent_with_id(post, id) == deactivated(agent_with_id(pre, id)),
        forall|j: int| 0 <= j < pre.len() && j != index_of_id(pre, id) ==> post[j] == pre[j],
{
    let i = index_of_id(pre, id);
    assert(0 <= i < pre.len() && pre[i].id == id);
    assert(forall|j: int| 0 <= j < post.len() ==> post[j].id == pre[j].id);
    assert forall|x: u128| has_id(post, x) <==> has_id(pre, x) by {
        if has_id(post, x) {
            let k = choose|k: int| 0 <= k < post.len() && post[k].id == x;
            assert(pre[k].id == x);
        }
        if has_id(pre, x) {
            let k = choose|k: int| 0 <= k < pre.len() && pre[k].id == x;
            assert(post[k].id == x);
        }
    }
    assert(post[i].id == id);
    lemma_agent_with_id_unique(post, id, i);
}

/// Law (uniqueness): the records returned by two create calls carry
/// distinct identifiers, whatever registry activity lies between the two
/// calls, as long as it never discards an identifier — and no operation
/// does, by the two lemmas above.
pub proof fn lemma_created_ids_distinct(
    s0: Seq<AgentView>,
    s1: Seq<AgentView>,
    r1: AgentView,
    s2: Seq<AgentView>,
    s3: Seq<AgentView>,
    r2: AgentView,
)
    requires
        create_step(s0, s1, r1),
        ids_preserved(s1, s2),
        create_step(s2, s3, r2),
    ensures
        r1.id != r2.id,
{
    lemma_create_adds_only_its_id(s0, s1, r1);
    assert(has_id(s2, r1.id));
}

/// Law (round-trip): immediately after a create step returned `r`, a get
/// with `r.id` finds exactly `r` — equal in every field, in particular
/// still carrying the status `r` was created with.
pub proof fn lemma_create_then_get(pre: Seq<AgentView>, post: Seq<AgentView>, r: AgentView)
    requires
        distinct_ids(pre),
        create_step(pre, post, r),
    ensures
        distinct_ids(post),
        has_id(post, r.id),
        agent_with_id(post, r.id) == r,
{
    lemma_create_adds_only_its_id(pre, post, r);
    assert(post[pre.len() as int] == r);
    lemma_agent_with_id_unique(post, r.id, pre.len() as int);
}

/// Law (idempotent deactivation): deactivating the same identifier twice
/// succeeds both times (the identifier stays present), the second step
/// changes nothing, and the record ends deactivated with its other fields
/// exactly as they were before the first step.
pub proof fn lemma_deactivate_idempotent(
    s0: Seq<AgentView>,
    s1: Seq<AgentView>,
    s2: Seq<AgentView>,
    id: u128,
)
    requires
        distinct_ids(s0),
        deactivate_step(s0, s1, id),
        deactivate_step(s1, s2, id),
    ensures
        s2 == s1,
        agent_with_id(s1, id) == deactivated(agent_with_id(s0, id)),
        agent_with_id(s1, id).status == AgentStatus::Deactivated,
{
    let i = index_of_id(s0, id);
    assert(0 <= i < s0.len() && s0[i].id == id);
    lemma_deactivate_rewrites_one(s0, s1, id);
    lemma_deactivate_rewrites_one(s1, s2, id);
    assert(deactivated(deactivated(agent_with_id(s0, id))) == deactivated(agent_with_id(s0, id)));
    assert(s2 =~= s1);
}

/// Law (list completeness): starting from an empty registry, after creating
/// records `a`, `b`, `c` and deactivating `b`, the store holds exactly `a`
/// (as created), `b` deactivated, and `c` (as created) — as a sequence in
/// insertion order, hence also as a set.
pub proof fn lemma_three_creates_one_deactivate(
    s0: Seq<AgentView>,
    s1: Seq<AgentView>,
    s2: Seq<AgentView>,
    s3: Seq<AgentView>,
    s4: Seq<AgentView>,
    a: AgentView,
    b: AgentView,
    c: AgentView,
)
    requires
        s0 == Seq::<AgentView>::empty(),
        create_step(s0, s1, a),
        create_step(s1, s2, b),
        create_step(s2, s3, c),
        deactivate_step(s3, s4, b.id),
    ensures
        s4 == seq![a, deactivated(b), c],
        s4.to_set() == set![a, deactivated(b), c],
{
    lemma_create_adds_only_its_id(s0, s1, a);
    lemma_create_adds_only_its_id(s1, s2, b);
    lemma_create_adds_only_its_id(s2, s3, c);
    assert(s3 =~= seq![a, b, c]);
    assert(s3[1] == b);
    lemma_agent_with_id_unique(s3, b.id, 1);
    assert(s4 =~= seq![a, deactivated(b), c]);
    assert forall|x: AgentView| s4.to_set().contains(x) <==> set![
        a,
        deactivated(b),
        c,
    ].contains(x) by {
        if s4.to_set().contains(x) {
            let k = choose|k: int| 0 <= k < s4.len() && s4[k] == x;
            assert(k == 0 || k == 1 || k == 2);
        }
        if x == a {
            assert(s4[0] == x);
        }
        if x == deactivated(b) {
            assert(s4[1] == x);
        }
        if x == c {
            assert(s4[2] == x);
        }
    }
    assert(s4.to_set() =~= set![a, deactivated(b), c]);
}

} // verus!
