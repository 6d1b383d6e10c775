//! Order-independence across clients.
//!
//! The dispatcher routes every event of a client to the same lane, so
//! per-client order is preserved, while events of different clients
//! interleave arbitrarily across lanes. The theorem at the bottom of this
//! module says that, on an input whose transaction ids do not cross client
//! boundaries, the final snapshot of each client equals the snapshot
//! produced by running only that client's events from a fresh store —
//! hence every interleaving that preserves per-client order produces the
//! same per-account report.

use vstd::prelude::*;

use crate::engine::{run, step};
use crate::store::StoreView;
use crate::transactions::TxnView;

verus! {

/// The subsequence of the events of one client, in arrival order.
pub open spec fn client_events(es: Seq<TxnView>, c: u16) -> Seq<TxnView>
    decreases es.len(),
{
    if es.len() == 0 {
        Seq::empty()
    } else if es[0].client_id == c {
        seq![es[0]] + client_events(es.drop_first(), c)
    } else {
        client_events(es.drop_first(), c)
    }
}

/// Transaction ids do not cross client boundaries: every event sharing its
/// id with a record-creating event belongs to that event's client.
pub open spec fn isolated_input(es: Seq<TxnView>) -> bool {
    forall|i: int, j: int|
        0 <= i < es.len() && 0 <= j < es.len() && (#[trigger] es[i]).id == (#[trigger] es[j]).id
            && es[j].creates_record() ==> es[i].client_id == es[j].client_id
}

/// Every record already stored under an id that one of the events mentions
/// belongs to that event's client.
pub open spec fn compatible(s: StoreView, es: Seq<TxnView>) -> bool {
    forall|j: int|
        0 <= j < es.len() && s.txns.contains_key((#[trigger] es[j]).id) ==> s.txns[es[j].id].client_id
            == es[j].client_id
}

/// The store holds a record under `id` belonging to client `c`.
pub open spec fn client_owns(s: StoreView, id: u32, c: u16) -> bool {
    s.txns.contains_key(id) && s.txns[id].client_id == c
}

/// The two stores agree on everything client `c`'s events can read or
/// write: the client's snapshot, and the records stored under its ids.
pub open spec fn client_state_agrees(c: u16, s1: StoreView, s2: StoreView) -> bool {
    &&& s1.account_of(c) == s2.account_of(c)
    &&& forall|id: u32|
        #![trigger client_owns(s1, id, c)]
        #![trigger client_owns(s2, id, c)]
        client_owns(s1, id, c) || client_owns(s2, id, c) ==> s1.txns.contains_key(id)
            && s2.txns.contains_key(id) && s1.txns[id] == s2.txns[id]
}

/// Agreement chains across a common middle store.
proof fn lemma_agrees_trans(c: u16, a: StoreView, b: StoreView, d: StoreView)
    requires
        client_state_agrees(c, a, b),
        client_state_agrees(c, b, d),
    ensures
        client_state_agrees(c, a, d),
{
    assert forall|id: u32|
        client_owns(a, id, c) || client_owns(d, id, c) implies a.txns.contains_key(id)
        && d.txns.contains_key(id) && a.txns[id] == d.txns[id] by {
        if client_owns(a, id, c) {
            assert(client_owns(b, id, c));
        } else {
            assert(client_owns(b, id, c));
        }
    }
}

/// A step by another client never touches client `c`'s snapshot nor any
/// record stored under `c`'s ids.
proof fn lemma_step_other_client(c: u16, s: StoreView, e: TxnView)
    requires
        e.client_id != c,
        s.txns.contains_key(e.id) ==> s.txns[e.id].client_id == e.client_id,
    ensures
        client_state_agrees(c, s, step(s, e).0),
{
    let s_next = step(s, e).0;
    assert(s_next.account_of(c) == s.account_of(c));
    assert forall|id: u32|
        client_owns(s, id, c) || client_owns(s_next, id, c) implies s.txns.contains_key(id)
        && s_next.txns.contains_key(id) && s.txns[id] == s_next.txns[id] by {
        assert(id != e.id);
        assert(s_next.txns.contains_key(id) == s.txns.contains_key(id));
    }
}

/// Two stores that agree on client `c`'s state take the same branch for an
/// event of client `c`: same outcome, and agreement is preserved.
proof fn lemma_step_same_client(c: u16, s1: StoreView, s2: StoreView, e: TxnView)
    requires
        e.client_id == c,
        client_state_agrees(c, s1, s2),
        s1.txns.contains_key(e.id) ==> s1.txns[e.id].client_id == c,
        s2.txns.contains_key(e.id) ==> s2.txns[e.id].client_id == c,
    ensures
        client_state_agrees(c, step(s1, e).0, step(s2, e).0),
        step(s1, e).1 == step(s2, e).1,
{
    assert(s1.txns.contains_key(e.id) <==> s2.txns.contains_key(e.id)) by {
        if s1.txns.contains_key(e.id) {
            assert(client_owns(s1, e.id, c));
        }
        if s2.txns.contains_key(e.id) {
            assert(client_owns(s2, e.id, c));
        }
    }
    if s1.txns.contains_key(e.id) {
        assert(client_owns(s1, e.id, c));
        assert(s1.txns[e.id] == s2.txns[e.id]);
    }
    let t1 = step(s1, e).0;
    let t2 = step(s2, e).0;
    assert(step(s1, e).1 == step(s2, e).1);
    assert(t1.account_of(c) == t2.account_of(c));
    assert forall|id: u32|
        client_owns(t1, id, c) || client_owns(t2, id, c) implies t1.txns.contains_key(id)
        && t2.txns.contains_key(id) && t1.txns[id] == t2.txns[id] by {
        if id == e.id {
            assert(t1.txns.contains_key(id) <==> t2.txns.contains_key(id));
        } else {
            assert(t1.txns.contains_key(id) == s1.txns.contains_key(id));
            assert(t2.txns.contains_key(id) == s2.txns.contains_key(id));
            if t1.txns.contains_key(id) {
                assert(t1.txns[id] == s1.txns[id]);
            }
            if t2.txns.contains_key(id) {
                assert(t2.txns[id] == s2.txns[id]);
            }
            if client_owns(t1, id, c) {
                assert(client_owns(s1, id, c));
            }
            if client_owns(t2, id, c) {
                assert(client_owns(s2, id, c));
            }
        }
    }
}

/// A step keeps the store compatible with the remaining events.
proof fn lemma_step_compatible(s: StoreView, e: TxnView, rest: Seq<TxnView>)
    requires
        compatible(s, rest),
        e.creates_record() ==> forall|j: int|
            0 <= j < rest.len() && (#[trigger] rest[j]).id == e.id ==> rest[j].client_id
                == e.client_id,
    ensures
        compatible(step(s, e).0, rest),
{
    let s_next = step(s, e).0;
    assert forall|j: int|
        0 <= j < rest.len() && s_next.txns.contains_key(
            (#[trigger] rest[j]).id,
        ) implies s_next.txns[rest[j].id].client_id == rest[j].client_id by {
        let id = rest[j].id;
        if id == e.id {
            if s.txns.contains_key(id) {
                assert(s_next.txns[id].client_id == s.txns[id].client_id);
            } else {
                assert(s_next.txns[id].client_id == e.client_id);
                assert(e.creates_record());
            }
        } else {
            assert(s_next.txns.contains_key(id) == s.txns.contains_key(id));
            if s.txns.contains_key(id) {
                assert(s_next.txns[id] == s.txns[id]);
            }
        }
    }
}

/// Dropping the first event preserves isolation.
proof fn lemma_isolated_drop(es: Seq<TxnView>)
    requires
        isolated_input(es),
        es.len() > 0,
    ensures
        isolated_input(es.drop_first()),
{
    let rest = es.drop_first();
    assert forall|i: int, j: int|
        0 <= i < rest.len() && 0 <= j < rest.len() && (#[trigger] rest[i]).id == (
        #[trigger] rest[j]).id && rest[j].creates_record() implies rest[i].client_id
        == rest[j].client_id by {
        assert(rest[i] == es[i + 1]);
        assert(rest[j] == es[j + 1]);
    }
}

/// Every event of the filtered sequence belongs to the client.
proof fn lemma_client_events_client(es: Seq<TxnView>, c: u16)
    ensures
        forall|k: int|
            0 <= k < client_events(es, c).len() ==> (#[trigger] client_events(es, c)[k]).client_id
                == c,
    decreases es.len(),
{
    if es.len() == 0 {
    } else {
        lemma_client_events_client(es.drop_first(), c);
        let filtered = client_events(es, c);
        let rest_filtered = client_events(es.drop_first(), c);
        if es[0].client_id == c {
            assert forall|k: int|
                0 <= k < filtered.len() implies (#[trigger] filtered[k]).client_id == c by {
                if k > 0 {
                    assert(filtered[k] == rest_filtered[k - 1]);
                }
            }
        }
    }
}

/// The induction behind the theorem: starting from stores that agree on
/// client `c` and are compatible with what remains, the full run and the
/// filtered run keep agreeing on client `c`.
proof fn lemma_run_projection(c: u16, s1: StoreView, s2: StoreView, es: Seq<TxnView>)
    requires
        client_state_agrees(c, s1, s2),
        compatible(s1, es),
        compatible(s2, client_events(es, c)),
        isolated_input(es),
    ensures
        client_state_agrees(c, run(s1, es), run(s2, client_events(es, c))),
    decreases es.len(),
{
    if es.len() == 0 {
    } else {
        let e = es[0];
        let rest = es.drop_first();
        lemma_isolated_drop(es);
        assert(compatible(s1, rest)) by {
            assert forall|j: int|
                0 <= j < rest.len() && s1.txns.contains_key(
                    (#[trigger] rest[j]).id,
                ) implies s1.txns[rest[j].id].client_id == rest[j].client_id by {
                assert(rest[j] == es[j + 1]);
            }
        }
        if e.client_id == c {
            let filtered_rest = client_events(rest, c);
            assert(client_events(es, c) == seq![e] + filtered_rest);
            assert(client_events(es, c)[0] == e);
            lemma_step_same_client(c, s1, s2, e);
            assert(e.creates_record() ==> forall|j: int|
                0 <= j < rest.len() && (#[trigger] rest[j]).id == e.id ==> rest[j].client_id
                    == e.client_id) by {
                if e.creates_record() {
                    assert forall|j: int|
                        0 <= j < rest.len() && (#[trigger] rest[j]).id
                            == e.id implies rest[j].client_id == e.client_id by {
                        assert(rest[j] == es[j + 1]);
                    }
                }
            }
            lemma_step_compatible(s1, e, rest);
            lemma_client_events_client(rest, c);
            assert(compatible(s2, filtered_rest)) by {
                assert forall|j: int|
                    0 <= j < filtered_rest.len() && s2.txns.contains_key(
                        (#[trigger] filtered_rest[j]).id,
                    ) implies s2.txns[filtered_rest[j].id].client_id
                    == filtered_rest[j].client_id by {
                    assert(filtered_rest[j] == client_events(es, c)[j + 1]);
                }
            }
            lemma_step_compatible(s2, e, filtered_rest);
            lemma_run_projection(c, step(s1, e).0, step(s2, e).0, rest);
            assert((seq![e] + filtered_rest).drop_first() =~= filtered_rest);
            assert(run(s2, client_events(es, c)) == run(step(s2, e).0, filtered_rest));
        } else {
            assert(client_events(es, c) == client_events(rest, c));
            lemma_step_other_client(c, s1, e);
            assert(client_state_agrees(c, step(s1, e).0, s1)) by {
                assert forall|id: u32|
                    client_owns(step(s1, e).0, id, c) || client_owns(
                        s1,
                        id,
                        c,
                    ) implies step(s1, e).0.txns.contains_key(id) && s1.txns.contains_key(id)
                    && step(s1, e).0.txns[id] == s1.txns[id] by {
                    assert(client_owns(s1, id, c) || client_owns(step(s1, e).0, id, c));
                }
            }
            lemma_agrees_trans(c, step(s1, e).0, s1, s2);
            lemma_step_compatible(s1, e, rest);
            lemma_run_projection(c, step(s1, e).0, s2, rest);
        }
    }
}

/// Per-account determinism across lane interleavings: on an input whose
/// transaction ids stay within one client, the final snapshot of every
/// client is the one its own event subsequence produces alone. Two
/// concurrent runs of the same input against independent stores therefore
/// agree per account, however the lanes interleave, as each preserves
/// per-client order.
pub proof fn lemma_per_client_determinism(es: Seq<TxnView>, c: u16)
    requires
        isolated_input(es),
    ensures
        run(StoreView::empty(), es).account_of(c) == run(
            StoreView::empty(),
            client_events(es, c),
        ).account_of(c),
{
    lemma_run_projection(c, StoreView::empty(), StoreView::empty(), es);
}

} // verus!
