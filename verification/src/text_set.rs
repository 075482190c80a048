//! A set of texts that lists its members in the order of their code points.

use vstd::prelude::*;

use crate::text::{comes_before, precedes, same_text, text_order_is_total, views};

verus! {

/// The texts stand in order, none twice.
pub open spec fn ascending(list: Seq<Seq<char>>) -> bool {
    forall|i: int, j: int|
        0 <= i < j < list.len() ==> precedes(#[trigger] list[i], #[trigger] list[j])
}

/// `list` holds the members of `set` in order.
pub open spec fn lists(list: Seq<Seq<char>>, set: Set<Seq<char>>) -> bool {
    ascending(list) && list.to_set() == set
}

/// The members of a finite set in order.
pub open spec fn in_order(set: Set<Seq<char>>) -> Seq<Seq<char>> {
    choose|list: Seq<Seq<char>>| lists(list, set)
}

/// There is one way to list a set in order.
pub proof fn lemma_in_order(list: Seq<Seq<char>>, set: Set<Seq<char>>)
    requires
        lists(list, set),
    ensures
        in_order(set) == list,
{
    lemma_unique(in_order(set), list);
}

proof fn lemma_unique(a: Seq<Seq<char>>, b: Seq<Seq<char>>)
    requires
        ascending(a),
        ascending(b),
        a.to_set() == b.to_set(),
    ensures
        a == b,
    decreases a.len(),
{
    if a.len() == 0 {
        if b.len() > 0 {
            assert(b.to_set().contains(b[0]));
            assert(a.to_set().contains(b[0]));
        }
        assert(a =~= b);
    } else {
        let x = a.last();
        assert(a.to_set().contains(x));
        assert(b.to_set().contains(x));
        assert(b.contains(x));
        let y = b.last();
        assert(b.to_set().contains(y));
        assert(a.contains(y));
        let i = choose|i: int| 0 <= i < b.len() && b[i] == x;
        let j = choose|j: int| 0 <= j < a.len() && a[j] == y;
        text_order_is_total(x, y, x);
        if i < b.len() - 1 {
            assert(precedes(b[i], b[b.len() - 1]));
            if j < a.len() - 1 {
                assert(precedes(a[j], a[a.len() - 1]));
            }
        }
        assert(x == y);
        lemma_init(a);
        lemma_init(b);
        assert(a.drop_last().to_set() =~= b.drop_last().to_set());
        lemma_unique(a.drop_last(), b.drop_last());
        assert(a =~= a.drop_last().push(x));
        assert(b =~= b.drop_last().push(y));
    }
}

proof fn lemma_init(a: Seq<Seq<char>>)
    requires
        ascending(a),
        a.len() > 0,
    ensures
        ascending(a.drop_last()),
        a.drop_last().to_set() == a.to_set().remove(a.last()),
{
    let init = a.drop_last();
    assert forall|x: Seq<char>| init.to_set().contains(x) == a.to_set().remove(a.last()).contains(
        x,
    ) by {
        if init.contains(x) {
            let i = choose|i: int| 0 <= i < init.len() && init[i] == x;
            assert(a[i] == x);
            assert(precedes(a[i], a[a.len() - 1]));
            text_order_is_total(x, x, x);
        }
        if a.contains(x) && x != a.last() {
            let i = choose|i: int| 0 <= i < a.len() && a[i] == x;
            assert(init[i] == x);
        }
    }
    assert(init.to_set() =~= a.to_set().remove(a.last()));
}

/// Every finite set can be listed in order.
pub proof fn a_finite_set_is_listed_in_order(set: Set<Seq<char>>)
    requires
        set.finite(),
    ensures
        lists(in_order(set), set),
    decreases set.len(),
{
    if set.is_empty() {
        let none = Seq::<Seq<char>>::empty();
        assert(none.to_set() =~= set);
        assert(lists(none, set));
    } else {
        let text = set.choose();
        let rest = set.remove(text);
        a_finite_set_is_listed_in_order(rest);
        let list = in_order(rest);
        assert(!list.contains(text)) by {
            if list.contains(text) {
                assert(list.to_set().contains(text));
            }
        }
        let at = lemma_place(list, text);
        lemma_insert(list, at, text);
        assert(rest.insert(text) =~= set);
        assert(lists(list.insert(at, text), set));
    }
}

/// Where a new text belongs in a list.
proof fn lemma_place(list: Seq<Seq<char>>, text: Seq<char>) -> (at: int)
    requires
        !list.contains(text),
    ensures
        0 <= at <= list.len(),
        forall|j: int| 0 <= j < at ==> precedes(#[trigger] list[j], text),
        at < list.len() ==> !precedes(list[at], text) && list[at] != text,
    decreases list.len(),
{
    if list.len() == 0 {
        0
    } else {
        let init = list.drop_last();
        assert(!init.contains(text)) by {
            if init.contains(text) {
                let k = choose|k: int| 0 <= k < init.len() && init[k] == text;
                assert(list[k] == text);
            }
        }
        let at = lemma_place(init, text);
        assert forall|j: int| 0 <= j < at implies precedes(#[trigger] list[j], text) by {
            assert(init[j] == list[j]);
        }
        if at < init.len() {
            assert(init[at] == list[at]);
            at
        } else {
            assert(list.contains(list[at]));
            if precedes(list.last(), text) {
                at + 1
            } else {
                at
            }
        }
    }
}

/// A set of texts.
#[derive(Debug, PartialEq, Eq)]
pub struct TextSet {
    items: Vec<String>,
}

impl View for TextSet {
    type V = Set<Seq<char>>;

    closed spec fn view(&self) -> Set<Seq<char>> {
        views(self.items@).to_set()
    }
}

impl TextSet {
    #[verifier::type_invariant]
    spec fn wf(self) -> bool {
        ascending(views(self.items@))
    }

    /// The set without members.
    pub fn new() -> (r: Self)
        ensures
            r@ == Set::<Seq<char>>::empty(),
    {
        let r = TextSet { items: Vec::new() };
        proof {
            assert(r@ =~= Set::<Seq<char>>::empty());
        }
        r
    }

    /// Whether the set has no members.
    pub fn is_empty(&self) -> (b: bool)
        ensures
            b == (self@ == Set::<Seq<char>>::empty()),
    {
        proof {
            if self.items@.len() > 0 {
                assert(views(self.items@)[0] == self.items@[0]@);
                assert(views(self.items@).contains(self.items@[0]@));
                assert(self@.contains(self.items@[0]@));
            } else {
                assert(self@ =~= Set::<Seq<char>>::empty());
            }
        }
        self.items.len() == 0
    }

    /// Whether the set has the member `text`.
    pub fn contains(&self, text: &str) -> (b: bool)
        ensures
            b == self@.contains(text@),
    {
        let mut i: usize = 0;
        while i < self.items.len()
            invariant
                i <= self.items@.len(),
                forall|j: int| 0 <= j < i ==> (#[trigger] self.items@[j])@ != text@,
            decreases self.items@.len() - i,
        {
            if same_text(self.items[i].as_str(), text) {
                proof {
                    assert(views(self.items@)[i as int] == text@);
                }
                return true;
            }
            i += 1;
        }
        proof {
            if views(self.items@).contains(text@) {
                let k = choose|k: int|
                    0 <= k < views(self.items@).len() && views(self.items@)[k] == text@;
                assert(self.items@[k]@ == text@);
            }
        }
        false
    }

    /// Puts `text` into the set.
    pub fn insert(&mut self, text: &str)
        ensures
            final(self)@ == old(self)@.insert(text@),
    {
        proof {
            use_type_invariant(&*self);
        }
        let ghost before = views(self.items@);
        let mut at: usize = 0;
        while at < self.items.len() && comes_before(self.items[at].as_str(), text)
            invariant
                at <= self.items@.len(),
                before == views(self.items@),
                forall|j: int| 0 <= j < at ==> precedes(#[trigger] before[j], text@),
            decreases self.items@.len() - at,
        {
            proof {
                assert(before[at as int] == self.items@[at as int]@);
            }
            at += 1;
        }
        if at < self.items.len() && same_text(self.items[at].as_str(), text) {
            proof {
                assert(before[at as int] == text@);
                assert(before.contains(text@));
                assert(before.to_set().insert(text@) =~= before.to_set());
            }
            return;
        }
        let mut items: Vec<String> = Vec::new();
        std::mem::swap(&mut items, &mut self.items);
        let item = text.to_owned();
        items.insert(at, item);
        proof {
            assert(views(items@) =~= before.insert(at as int, text@));
            lemma_insert(before, at as int, text@);
        }
        self.items = items;
    }

    /// The members in order.
    pub fn into_vec(self) -> (r: Vec<String>)
        ensures
            views(r@) == in_order(self@),
            lists(views(r@), self@),
    {
        proof {
            use_type_invariant(&self);
            lemma_in_order(views(self.items@), self@);
        }
        self.items
    }
}

proof fn lemma_take_one_more(list: Seq<Seq<char>>, i: int)
    requires
        0 <= i < list.len(),
    ensures
        list.take(i + 1).to_set() == list.take(i).to_set().insert(list[i]),
{
    let before = list.take(i);
    let after = list.take(i + 1);
    assert(after =~= before.push(list[i]));
    assert forall|x: Seq<char>| after.contains(x) == (before.contains(x) || x == list[i]) by {
        if before.contains(x) {
            let k = choose|k: int| 0 <= k < before.len() && before[k] == x;
            assert(after[k] == x);
        }
        assert(after[i] == list[i]);
    }
    assert(after.to_set() =~= before.to_set().insert(list[i]));
}

impl TextSet {
    /// The set of the texts of a list.
    pub fn of(texts: &Vec<String>) -> (r: Self)
        ensures
            r@ == views(texts@).to_set(),
    {
        let mut r = TextSet::new();
        let mut i: usize = 0;
        proof {
            assert(views(texts@).take(0).to_set() =~= Set::<Seq<char>>::empty());
        }
        while i < texts.len()
            invariant
                i <= texts@.len(),
                r@ == views(texts@).take(i as int).to_set(),
            decreases texts@.len() - i,
        {
            r.insert(texts[i].as_str());
            proof {
                lemma_take_one_more(views(texts@), i as int);
            }
            i += 1;
        }
        proof {
            assert(views(texts@).take(texts@.len() as int) =~= views(texts@));
        }
        r
    }
}

proof fn lemma_insert(list: Seq<Seq<char>>, at: int, text: Seq<char>)
    requires
        ascending(list),
        0 <= at <= list.len(),
        forall|j: int| 0 <= j < at ==> precedes(#[trigger] list[j], text),
        at < list.len() ==> !precedes(list[at], text) && list[at] != text,
    ensures
        ascending(list.insert(at, text)),
        list.insert(at, text).to_set() == list.to_set().insert(text),
{
    let after = list.insert(at, text);
    assert forall|j: int| at <= j < list.len() implies precedes(text, #[trigger] list[j]) by {
        text_order_is_total(text, list[at], list[j]);
        if j > at {
            assert(precedes(list[at], list[j]));
        }
    }
    assert forall|i: int, j: int| 0 <= i < j < after.len() implies precedes(
        #[trigger] after[i],
        #[trigger] after[j],
    ) by {
        let a = if i < at { i } else { i - 1 };
        let b = if j < at { j } else { j - 1 };
        if i != at {
            assert(after[i] == list[a]);
        }
        if j != at {
            assert(after[j] == list[b]);
        }
    }
    assert forall|x: Seq<char>| after.to_set().contains(x) == list.to_set().insert(text).contains(
        x,
    ) by {
        if after.contains(x) {
            let i = choose|i: int| 0 <= i < after.len() && after[i] == x;
            if i < at {
                assert(list[i] == x);
            } else if i > at {
                assert(list[i - 1] == x);
            }
        }
        if list.contains(x) {
            let i = choose|i: int| 0 <= i < list.len() && list[i] == x;
            if i < at {
                assert(after[i] == x);
            } else {
                assert(after[i + 1] == x);
            }
        }
        assert(after[at] == text);
    }
    assert(after.to_set() =~= list.to_set().insert(text));
}

/// A set of texts holds each text that it was made of and no other; it is listed in order,
/// each text once.
pub proof fn sets_hold_what_they_were_made_of(
    texts: &Vec<String>,
    set: TextSet,
    text: &str,
    has: bool,
    empty: bool,
    listed: Vec<String>,
    fresh: TextSet,
    fresh_has: bool,
    i: int,
    j: int,
)
    requires
        call_ensures(TextSet::of, (texts,), set),
        call_ensures(TextSet::contains, (&set, text), has),
        call_ensures(TextSet::is_empty, (&set,), empty),
        call_ensures(TextSet::into_vec, (set,), listed),
        call_ensures(TextSet::new, (), fresh),
        call_ensures(TextSet::contains, (&fresh, text), fresh_has),
    ensures
        has <==> exists|k: int| 0 <= k < texts@.len() && #[trigger] texts@[k]@ == text@,
        has <==> exists|k: int| 0 <= k < listed@.len() && #[trigger] listed@[k]@ == text@,
        empty <==> texts@.len() == 0,
        0 <= i < j < listed@.len() ==> precedes(listed@[i]@, listed@[j]@),
        !fresh_has,
{
    lemma_among(texts@, text@);
    lemma_among(listed@, text@);
    let names = views(listed@);
    if texts@.len() > 0 {
        lemma_among(texts@, texts@[0]@);
        assert(set@.contains(texts@[0]@));
    } else {
        assert(views(texts@).to_set() =~= Set::<Seq<char>>::empty());
    }
    if 0 <= i < j < listed@.len() {
        assert(names[i] == listed@[i]@ && names[j] == listed@[j]@);
    }
}

proof fn lemma_among(list: Seq<String>, text: Seq<char>)
    ensures
        views(list).to_set().contains(text) <==> exists|i: int|
            0 <= i < list.len() && #[trigger] list[i]@ == text,
{
    let names = views(list);
    if names.to_set().contains(text) {
        let i = choose|i: int| 0 <= i < names.len() && names[i] == text;
        assert(list[i]@ == text);
    }
    if exists|i: int| 0 <= i < list.len() && #[trigger] list[i]@ == text {
        let i = choose|i: int| 0 <= i < list.len() && #[trigger] list[i]@ == text;
        assert(names[i] == text);
    }
}

} // verus!
