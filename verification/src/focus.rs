use std::collections::HashSet;

use vstd::prelude::*;

verus! {

/// Application-defined stable focus identity.
#[derive(Clone, Copy, Debug, PartialEq, Eq, Hash, Structural)]
pub struct FocusId(u32);

impl FocusId {
    /// The application's identity number.
    pub closed spec fn spec_value(&self) -> u32 {
        self.0
    }

    pub fn new(value: u32) -> (f: Self)
        ensures
            f.spec_value() == value,
    {
        FocusId(value)
    }

    /// The application's identity number.
    pub fn value(&self) -> (r: u32)
        ensures
            r == self.spec_value(),
    {
        self.0
    }
}

/// Focus identities are equal exactly when their numbers are.
pub proof fn lemma_focus_id_by_value(a: FocusId, b: FocusId)
    ensures
        (a.spec_value() == b.spec_value()) == (a == b),
{
}

/// `ids` with every repeated identity after its first occurrence removed.
pub open spec fn first_occurrences(ids: Seq<FocusId>) -> Seq<FocusId>
    decreases ids.len(),
{
    if ids.len() == 0 {
        Seq::empty()
    } else {
        let kept = first_occurrences(ids.drop_last());
        if kept.contains(ids.last()) {
            kept
        } else {
            kept.push(ids.last())
        }
    }
}

/// No identity occurs twice.
pub open spec fn distinct(ids: Seq<FocusId>) -> bool {
    forall|i: int, j: int| 0 <= i < j < ids.len() ==> ids[i] != ids[j]
}

/// Without repeats, keeping first occurrences keeps everything.
pub proof fn lemma_distinct_first_occurrences(ids: Seq<FocusId>)
    requires
        distinct(ids),
    ensures
        first_occurrences(ids) == ids,
    decreases ids.len(),
{
    if ids.len() > 0 {
        let rest = ids.drop_last();
        assert(distinct(rest));
        lemma_distinct_first_occurrences(rest);
        if rest.contains(ids.last()) {
            let k = choose|k: int| 0 <= k < rest.len() && rest[k] == ids.last();
            assert(ids[k] == ids[ids.len() - 1]);
        }
        assert(rest.push(ids.last()) =~= ids);
    }
}

/// An element of `s.push(x)` is an element of `s` or `x`.
pub proof fn lemma_push_contains(s: Seq<FocusId>, x: FocusId, id: FocusId)
    ensures
        s.push(x).contains(id) <==> (s.contains(id) || id == x),
{
    if s.contains(id) {
        let k = choose|k: int| 0 <= k < s.len() && s[k] == id;
        assert(s.push(x)[k] == id);
    }
    if id == x {
        assert(s.push(x)[s.len() as int] == id);
    }
    if s.push(x).contains(id) {
        let k = choose|k: int| 0 <= k < s.push(x).len() && s.push(x)[k] == id;
        if k < s.len() {
            assert(s[k] == id);
        }
    }
}

/// An element of a non-empty `s` is an element of `s.drop_last()` or its last element.
pub proof fn lemma_drop_last_contains(s: Seq<FocusId>, id: FocusId)
    requires
        s.len() > 0,
    ensures
        s.contains(id) <==> (s.drop_last().contains(id) || id == s.last()),
{
    assert(s == s.drop_last().push(s.last()));
    lemma_push_contains(s.drop_last(), s.last(), id);
}

/// The kept identities are distinct and are exactly the identities of the input.
pub proof fn lemma_first_occurrences(ids: Seq<FocusId>)
    ensures
        distinct(first_occurrences(ids)),
        forall|id: FocusId| #[trigger] first_occurrences(ids).contains(id) <==> ids.contains(id),
    decreases ids.len(),
{
    if ids.len() > 0 {
        lemma_first_occurrences(ids.drop_last());
        let kept = first_occurrences(ids.drop_last());
        assert forall|id: FocusId| #[trigger] first_occurrences(ids).contains(id) <==> ids.contains(
            id,
        ) by {
            if ids.contains(id) {
                let k = choose|k: int| 0 <= k < ids.len() && ids[k] == id;
                if k < ids.len() - 1 {
                    assert(ids.drop_last()[k] == id);
                }
            }
            if ids.drop_last().contains(id) {
                let k = choose|k: int| 0 <= k < ids.drop_last().len() && ids.drop_last()[k] == id;
                assert(ids[k] == id);
            }
            lemma_push_contains(kept, ids.last(), id);
            lemma_drop_last_contains(ids, id);
        }
    }
}

fn deduplicate(order: Vec<FocusId>) -> (r: Vec<FocusId>)
    ensures
        r@ == first_occurrences(order@),
{
    let mut seen: HashSet<u32> = HashSet::new();
    let mut kept: Vec<FocusId> = Vec::new();
    let mut i: usize = 0;
    while i < order.len()
        invariant
            i <= order@.len(),
            kept@ == first_occurrences(order@.take(i as int)),
            forall|f: FocusId| kept@.contains(f) <==> #[trigger] seen@.contains(f.spec_value()),
        decreases order@.len() - i,
    {
        let id = order[i];
        let ghost before = seen@;
        assert(kept@.contains(id) <==> before.contains(id.spec_value()));
        let fresh = seen.insert(id.0);
        proof {
            assert(order@.take(i + 1).drop_last() == order@.take(i as int));
            assert(order@.take(i + 1).last() == id);
            assert(fresh == !kept@.contains(id));
        }
        if fresh {
            proof {
                assert forall|f: FocusId| kept@.push(id).contains(f) <==> #[trigger] seen@.contains(
                    f.spec_value(),
                ) by {
                    lemma_push_contains(kept@, id, f);
                    lemma_focus_id_by_value(f, id);
                }
            }
            kept.push(id);
        }
        i = i + 1;
    }
    proof {
        assert(order@.take(order@.len() as int) == order@);
    }
    kept
}

/// Application-owned ordered focus navigation state.
///
/// It has no automatic event routing or mouse hit testing.
#[derive(Clone, Debug, Default, PartialEq, Eq)]
pub struct FocusState {
    order: Vec<FocusId>,
    current: Option<FocusId>,
}

impl FocusState {
    /// The focus order.
    pub closed spec fn spec_order(&self) -> Seq<FocusId> {
        self.order@
    }

    /// The focused identity.
    pub closed spec fn spec_current(&self) -> Option<FocusId> {
        self.current
    }

    /// The order holds no duplicate, the focus is a member of the order, and a non-empty order
    /// always has a focus.
    pub open spec fn wf(&self) -> bool {
        &&& distinct(self.spec_order())
        &&& self.spec_current() matches Some(c) ==> self.spec_order().contains(c)
        &&& self.spec_order().len() > 0 ==> self.spec_current() is Some
    }

    /// The position of the focused identity in the order.
    pub open spec fn focus_index(&self) -> int {
        choose|i: int|
            0 <= i < self.spec_order().len() && Some(self.spec_order()[i]) == self.spec_current()
    }

    pub fn new(order: Vec<FocusId>) -> (f: Self)
        ensures
            f.wf(),
            f.spec_order() == first_occurrences(order@),
            f.spec_current() == (if order@.len() > 0 {
                Some(order@[0])
            } else {
                None
            }),
    {
        proof {
            lemma_first_occurrences(order@);
        }
        let ghost given = order@;
        let order = deduplicate(order);
        let current = if order.len() > 0 {
            Some(order[0])
        } else {
            None
        };
        proof {
            if given.len() > 0 {
                assert(given.contains(given[0]));
                assert(order@.contains(given[0]));
                assert(order@.len() > 0);
                lemma_first_is_first(given);
            } else {
                assert(!order@.contains(order@[0]) || order@.len() == 0);
            }
            if order@.len() > 0 {
                assert(order@.contains(order@[0]));
            }
        }
        FocusState { order, current }
    }

    pub fn current(&self) -> (c: Option<FocusId>)
        ensures
            c == self.spec_current(),
    {
        self.current
    }

    fn contains(order: &Vec<FocusId>, id: FocusId) -> (b: bool)
        ensures
            b == order@.contains(id),
    {
        let mut i: usize = 0;
        while i < order.len()
            invariant
                i <= order@.len(),
                forall|j: int| 0 <= j < i ==> order@[j] != id,
            decreases order@.len() - i,
        {
            if order[i] == id {
                return true;
            }
            i = i + 1;
        }
        false
    }

    /// Focuses `id` if it is in the order; returns whether the focus changed.
    pub fn set_focus(&mut self, id: FocusId) -> (changed: bool)
        requires
            old(self).wf(),
        ensures
            final(self).wf(),
            final(self).spec_order() == old(self).spec_order(),
            changed == (old(self).spec_order().contains(id) && old(self).spec_current() != Some(
                id,
            )),
            final(self).spec_current() == (if changed {
                Some(id)
            } else {
                old(self).spec_current()
            }),
    {
        if !Self::contains(&self.order, id) {
            return false;
        }
        let same = match self.current {
            Some(c) => c == id,
            None => false,
        };
        if same {
            return false;
        }
        self.current = Some(id);
        true
    }

    /// Replaces the order; the focus is kept when still present, else moves to the first entry.
    pub fn replace_order(&mut self, order: Vec<FocusId>) -> (changed: bool)
        requires
            old(self).wf(),
        ensures
            final(self).wf(),
            final(self).spec_order() == first_occurrences(order@),
            final(self).spec_current() == (match old(self).spec_current() {
                Some(c) => if order@.contains(c) {
                    Some(c)
                } else if order@.len() > 0 {
                    Some(order@[0])
                } else {
                    None
                },
                None => if order@.len() > 0 {
                    Some(order@[0])
                } else {
                    None
                },
            }),
            changed == (final(self).spec_current() != old(self).spec_current()),
    {
        proof {
            lemma_first_occurrences(order@);
            if order@.len() > 0 {
                lemma_first_is_first(order@);
            }
        }
        let ghost given = order@;
        let order = deduplicate(order);
        let kept = match self.current {
            Some(c) => {
                if Self::contains(&order, c) {
                    Some(c)
                } else {
                    None
                }
            },
            None => None,
        };
        let current = match kept {
            Some(c) => Some(c),
            None => {
                if order.len() > 0 {
                    Some(order[0])
                } else {
                    None
                }
            },
        };
        let changed = match (self.current, current) {
            (Some(a), Some(b)) => a != b,
            (None, None) => false,
            _ => true,
        };
        proof {
            if given.len() > 0 {
                assert(given.contains(given[0]));
            }
            if order@.len() > 0 {
                assert(order@.contains(order@[0]));
                assert(given.contains(order@[0]));
                assert(given.len() > 0);
            }
        }
        self.order = order;
        self.current = current;
        changed
    }

    /// Moves the focus to the next identity in order, wrapping around.
    pub fn focus_next(&mut self) -> (changed: bool)
        requires
            old(self).wf(),
        ensures
            final(self).wf(),
            final(self).spec_order() == old(self).spec_order(),
            changed == (old(self).spec_order().len() > 1),
            final(self).spec_current() == (if changed {
                Some(
                    old(self).spec_order()[(old(self).focus_index() + 1) % old(self).spec_order().len() as int],
                )
            } else {
                old(self).spec_current()
            }),
    {
        self.advance(true)
    }

    /// Moves the focus to the previous identity in order, wrapping around.
    pub fn focus_previous(&mut self) -> (changed: bool)
        requires
            old(self).wf(),
        ensures
            final(self).wf(),
            final(self).spec_order() == old(self).spec_order(),
            changed == (old(self).spec_order().len() > 1),
            final(self).spec_current() == (if changed {
                Some(
                    old(self).spec_order()[(old(self).focus_index() + old(self).spec_order().len() - 1) % old(self).spec_order().len() as int],
                )
            } else {
                old(self).spec_current()
            }),
    {
        self.advance(false)
    }

    proof fn lemma_focus_index(&self)
        requires
            self.wf(),
            self.spec_current() is Some,
        ensures
            0 <= self.focus_index() < self.spec_order().len(),
            Some(self.spec_order()[self.focus_index()]) == self.spec_current(),
            forall|i: int|
                0 <= i < self.spec_order().len() && Some(self.spec_order()[i])
                    == self.spec_current() ==> i == self.focus_index(),
    {
        let c = self.spec_current()->0;
        assert(self.spec_order().contains(c));
        let k = choose|k: int| 0 <= k < self.spec_order().len() && self.spec_order()[k] == c;
        assert(Some(self.spec_order()[k]) == self.spec_current());
    }

    fn advance(&mut self, forward: bool) -> (changed: bool)
        requires
            old(self).wf(),
        ensures
            final(self).wf(),
            final(self).spec_order() == old(self).spec_order(),
            changed == (old(self).spec_order().len() > 1),
            final(self).spec_current() == (if changed {
                if forward {
                    Some(
                        old(self).spec_order()[(old(self).focus_index() + 1) % old(self).spec_order().len() as int],
                    )
                } else {
                    Some(
                        old(self).spec_order()[(old(self).focus_index() + old(self).spec_order().len() - 1) % old(self).spec_order().len() as int],
                    )
                }
            } else {
                old(self).spec_current()
            }),
    {
        let current = match self.current {
            Some(c) => c,
            None => {
                return false;
            },
        };
        proof {
            self.lemma_focus_index();
        }
        let mut index: usize = 0;
        while index < self.order.len() && self.order[index] != current
            invariant
                index <= self.order@.len(),
                self.wf(),
                self.spec_current() == Some(current),
                0 <= self.focus_index() < self.order@.len(),
                self.order@[self.focus_index()] == current,
                forall|j: int| 0 <= j < index ==> self.order@[j] != current,
            decreases self.order@.len() - index,
        {
            index = index + 1;
        }
        let len = self.order.len();
        if len <= 1 {
            return false;
        }
        proof {
            assert(index as int == self.focus_index());
        }
        let next = if forward {
            (index + 1) % len
        } else if index == 0 {
            len - 1
        } else {
            index - 1
        };
        proof {
            let n = len as int;
            if index == 0 {
                vstd::arithmetic::div_mod::lemma_fundamental_div_mod_converse(n - 1, n, 0, n - 1);
            } else {
                vstd::arithmetic::div_mod::lemma_fundamental_div_mod_converse(
                    index + n - 1,
                    n,
                    1,
                    index - 1,
                );
            }
        }
        self.current = Some(self.order[next]);
        proof {
            assert(self.order@.contains(self.order@[next as int]));
        }
        true
    }
}

/// The first kept identity is the first identity of the input.
pub proof fn lemma_first_is_first(ids: Seq<FocusId>)
    requires
        ids.len() > 0,
    ensures
        first_occurrences(ids).len() > 0,
        first_occurrences(ids)[0] == ids[0],
    decreases ids.len(),
{
    if ids.len() == 1 {
        assert(first_occurrences(ids.drop_last()) == Seq::<FocusId>::empty());
    } else {
        lemma_first_is_first(ids.drop_last());
        assert(ids.drop_last()[0] == ids[0]);
    }
}

/// Moving the focus forward and then back restores it: `focus_previous` undoes `focus_next`.
pub proof fn lemma_next_then_previous(order: Seq<FocusId>, index: int)
    requires
        order.len() > 1,
        0 <= index < order.len(),
    ensures
        ({
            let n = order.len() as int;
            let next = (index + 1) % n;
            (next + n - 1) % n == index
        }),
{
    let n = order.len() as int;
    if index + 1 < n {
        assert((index + 1) % n == index + 1) by {
            vstd::arithmetic::div_mod::lemma_fundamental_div_mod_converse(index + 1, n, 0, index + 1);
        }
        assert((index + 1 + n - 1) % n == index) by {
            vstd::arithmetic::div_mod::lemma_fundamental_div_mod_converse(index + n, n, 1, index);
        }
    } else {
        assert((index + 1) % n == 0) by {
            vstd::arithmetic::div_mod::lemma_fundamental_div_mod_converse(index + 1, n, 1, 0);
        }
        assert((n - 1) % n == n - 1) by {
            vstd::arithmetic::div_mod::lemma_fundamental_div_mod_converse(n - 1, n, 0, n - 1);
        }
    }
}

} // verus!
