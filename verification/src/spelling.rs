//! Documents in words that JSON text keeps apart.
//!
//! Floating-point numbers are printed as the nearest one that is held, so two fractions may
//! have one text. Where a text has to tell a document, one that has such numbers is spelled
//! first: every number in it then stands as it is written, in a string.

use vstd::prelude::*;

use crate::json::{items_view, members_view, Json, JsonView, Member, Number, NumberView};
use crate::text::{concat2, same_text};
use crate::wire::{nested_within, readable, unmarked, whole, RAW_VALUE};

verus! {

/// Whether JSON text tells a document without its being spelled: every number is an integer
/// in its own variant, and no member has the name [`RAW_VALUE`].
pub open spec fn plain(doc: JsonView) -> bool
    decreases doc,
{
    match doc {
        JsonView::Number(NumberView::Signed(n)) => n < 0,
        JsonView::Number(NumberView::Fraction(_)) => false,
        JsonView::Array(items) => forall|i: int|
            0 <= i < items.len() ==> plain(#[trigger] items[i]),
        JsonView::Object(members) => {
            &&& !members.contains_key(RAW_VALUE@)
            &&& forall|name: Seq<char>| #[trigger]
                members.contains_key(name) ==> plain(members[name])
        },
        _ => true,
    }
}

/// The name of a member in a spelled document.
pub open spec fn marked(name: Seq<char>) -> Seq<char> {
    "="@ + name
}

/// Whether a name is one that [`marked`] gives.
pub open spec fn is_marked(name: Seq<char>) -> bool {
    name.len() > 0 && name[0] == '='
}

/// A document spelled: a fraction is an object that holds its text, a non-negative number in
/// the variant of the negative ones is an object that holds it, and the names of members are
/// marked, so that no member is mistaken for one of these.
pub open spec fn spelled(doc: JsonView) -> JsonView
    decreases doc,
{
    match doc {
        JsonView::Number(NumberView::Fraction(text)) => JsonView::tagged(
            "fraction"@,
            JsonView::String(text),
        ),
        JsonView::Number(NumberView::Signed(n)) => if n < 0 {
            doc
        } else {
            JsonView::tagged("signed"@, JsonView::Number(NumberView::Unsigned(n as u64)))
        },
        JsonView::Array(items) => JsonView::Array(
            Seq::new(
                items.len(),
                |i: int|
                    if 0 <= i < items.len() {
                        spelled(items[i])
                    } else {
                        JsonView::Null
                    },
            ),
        ),
        JsonView::Object(members) => JsonView::Object(
            Map::new(
                |name: Seq<char>| is_marked(name) && members.contains_key(name.skip(1)),
                |name: Seq<char>|
                    if members.contains_key(name.skip(1)) {
                        spelled(members[name.skip(1)])
                    } else {
                        JsonView::Null
                    },
            ),
        ),
        _ => doc,
    }
}

/// The members of an object that is spelled.
pub open spec fn spelled_members(members: Map<Seq<char>, JsonView>) -> Map<Seq<char>, JsonView> {
    match spelled(JsonView::Object(members)) {
        JsonView::Object(spelled) => spelled,
        _ => Map::empty(),
    }
}

/// The document that stands for `doc` where a text has to tell it: itself where it is plain,
/// else it is spelled.
pub open spec fn told(doc: JsonView) -> JsonView {
    if plain(doc) {
        doc
    } else {
        spelled(doc)
    }
}

proof fn lemma_marked(name: Seq<char>)
    ensures
        is_marked(marked(name)),
        marked(name).skip(1) == name,
        is_marked(name) ==> marked(name.skip(1)) == name,
{
    reveal_strlit("=");
    assert(marked(name).skip(1) =~= name);
    if is_marked(name) {
        assert(marked(name.skip(1)) =~= name);
    }
}

proof fn lemma_spelled_member(members: Map<Seq<char>, JsonView>, name: Seq<char>)
    ensures
        spelled_members(members).contains_key(marked(name)) == members.contains_key(name),
        members.contains_key(name) ==> spelled_members(members)[marked(name)] == spelled(
            members[name],
        ),
{
    lemma_marked(name);
}

/// Documents that are spelled alike are equal.
pub proof fn different_documents_are_spelled_differently(a: JsonView, b: JsonView)
    requires
        spelled(a) == spelled(b),
    ensures
        a == b,
    decreases a,
{
    reveal_strlit("fraction");
    reveal_strlit("signed");
    let fraction = "fraction"@;
    let signed = "signed"@;
    assert(fraction[0] == 'f' && signed[0] == 's');
    let of_a = spelled(a);
    let of_b = spelled(b);
    assert(of_a.member(fraction) == of_b.member(fraction));
    assert(of_a.member(signed) == of_b.member(signed));
    match (a, b) {
        (JsonView::Array(xs), JsonView::Array(ys)) => {
            let sx = of_a->Array_0;
            let sy = of_b->Array_0;
            assert(sx.len() == xs.len() && sy.len() == ys.len());
            assert forall|i: int| 0 <= i < xs.len() implies xs[i] == ys[i] by {
                assert(sx[i] == spelled(xs[i]));
                assert(sy[i] == spelled(ys[i]));
                different_documents_are_spelled_differently(xs[i], ys[i]);
            }
            assert(xs =~= ys);
        },
        (JsonView::Object(xs), JsonView::Object(ys)) => {
            assert(spelled_members(xs) == spelled_members(ys));
            assert forall|name: Seq<char>| xs.contains_key(name) == ys.contains_key(name) by {
                lemma_spelled_member(xs, name);
                lemma_spelled_member(ys, name);
            }
            assert forall|name: Seq<char>| #[trigger] xs.contains_key(name) implies xs[name]
                == ys[name] by {
                lemma_spelled_member(xs, name);
                lemma_spelled_member(ys, name);
                different_documents_are_spelled_differently(xs[name], ys[name]);
            }
            assert(xs =~= ys);
        },
        _ => {},
    }
}

/// A plain document has whole numbers only and no member that is read otherwise.
proof fn lemma_plain(doc: JsonView)
    requires
        plain(doc),
    ensures
        whole(doc),
        unmarked(doc),
    decreases doc,
{
    match doc {
        JsonView::Array(items) => {
            assert forall|i: int| 0 <= i < items.len() implies whole(#[trigger] items[i])
                && unmarked(items[i]) by {
                lemma_plain(items[i]);
            }
        },
        JsonView::Object(members) => {
            assert forall|name: Seq<char>| #[trigger] members.contains_key(name) implies whole(
                members[name],
            ) && unmarked(members[name]) by {
                lemma_plain(members[name]);
            }
        },
        _ => {},
    }
}

/// A spelled document has integers only and no member that is read otherwise, and nests one
/// deeper at most.
proof fn lemma_spelled(doc: JsonView, depth: nat)
    requires
        nested_within(doc, depth),
    ensures
        whole(spelled(doc)),
        unmarked(spelled(doc)),
        nested_within(spelled(doc), depth + 1),
    decreases doc,
{
    reveal_strlit("$serde_json::private::RawValue");
    reveal_strlit("fraction");
    reveal_strlit("signed");
    reveal_with_fuel(whole, 2);
    reveal_with_fuel(unmarked, 2);
    reveal_with_fuel(nested_within, 2);
    let raw = RAW_VALUE@;
    assert(raw.len() == 30 && raw[0] == '$');
    match doc {
        JsonView::Array(items) => {
            let under = (depth - 1) as nat;
            let s = spelled(doc)->Array_0;
            assert forall|i: int| 0 <= i < s.len() implies whole(#[trigger] s[i]) && unmarked(
                s[i],
            ) && nested_within(s[i], depth) by {
                assert(s[i] == spelled(items[i]));
                lemma_spelled(items[i], under);
            }
        },
        JsonView::Object(members) => {
            let under = (depth - 1) as nat;
            let s = spelled_members(members);
            assert forall|name: Seq<char>| #[trigger] s.contains_key(name) implies whole(s[name])
                && unmarked(s[name]) && nested_within(s[name], depth) by {
                assert(s[name] == spelled(members[name.skip(1)]));
                lemma_spelled(members[name.skip(1)], under);
            }
        },
        _ => {},
    }
}

/// Whether a document leaves room for what stands for it: JSON text is read to a depth of 127,
/// and a document that is spelled may nest one deeper than it did.
pub open spec fn tellable(doc: JsonView) -> bool {
    nested_within(doc, if plain(doc) { 127 } else { 126 })
}

/// What stands for a document where a text has to tell it is read back from its text.
pub proof fn what_is_told_is_readable(doc: JsonView)
    requires
        tellable(doc),
    ensures
        readable(told(doc)),
{
    if plain(doc) {
        lemma_plain(doc);
    } else {
        lemma_spelled(doc, 126);
    }
}

/// Different documents have different ones to stand for them, among the plain ones and among
/// the others.
pub proof fn different_documents_are_told_apart(a: JsonView, b: JsonView)
    requires
        plain(a) == plain(b),
        told(a) == told(b),
    ensures
        a == b,
{
    if !plain(a) {
        different_documents_are_spelled_differently(a, b);
    }
}

proof fn lemma_not_plain(doc: JsonView, i: int)
    requires
        doc matches JsonView::Array(items) && 0 <= i < items.len() && !plain(items[i]),
    ensures
        !plain(doc),
{
    match doc {
        JsonView::Array(items) => {
            if plain(doc) {
                assert(plain(items[i]));
            }
        },
        _ => {},
    }
}

/// Whether the member `k` of a list counts: no later one has its name.
spec fn counts(members: Seq<Member>, k: int) -> bool {
    forall|j: int| k < j < members.len() ==> (#[trigger] members[j]).name@ != members[k].name@
}

proof fn lemma_counts(members: Seq<Member>, k: int)
    requires
        0 <= k < members.len(),
        counts(members, k),
    ensures
        members_view(members).contains_key(members[k].name@),
        members_view(members)[members[k].name@] == members[k].value.model(),
    decreases members.len(),
{
    if k < members.len() - 1 {
        let front = members.drop_last();
        assert(members[members.len() - 1].name@ != members[k].name@);
        assert forall|j: int| k < j < front.len() implies (#[trigger] front[j]).name@
            != front[k].name@ by {
            assert(members[j].name@ != members[k].name@);
        }
        lemma_counts(front, k);
    }
}

proof fn lemma_one_counts(members: Seq<Member>, name: Seq<char>) -> (k: int)
    requires
        members_view(members).contains_key(name),
    ensures
        0 <= k < members.len(),
        counts(members, k),
        members[k].name@ == name,
    decreases members.len(),
{
    let last = members.len() - 1;
    if members[last].name@ == name {
        last
    } else {
        let front = members.drop_last();
        let k = lemma_one_counts(front, name);
        assert forall|j: int| k < j < members.len() implies (#[trigger] members[j]).name@
            != members[k].name@ by {
            if j < last {
                assert(front[j].name@ != front[k].name@);
            }
        }
        k
    }
}

/// Whether the member `k` of a list counts.
fn member_counts(members: &Vec<Member>, k: usize) -> (r: bool)
    requires
        k < members@.len(),
    ensures
        r == counts(members@, k as int),
{
    let n: usize = members.len();
    let mut j: usize = k + 1;
    while j < n
        invariant
            k < j <= n,
            n == members@.len(),
            forall|i: int|
                k < i < j ==> (#[trigger] members@[i]).name@ != members@[k as int].name@,
        decreases n - j,
    {
        if same_text(members[j].name.as_str(), members[k].name.as_str()) {
            assert(members@[j as int].name@ == members@[k as int].name@);
            return false;
        }
        j = j + 1;
    }
    true
}

impl Json {
    /// Whether JSON text tells this document without its being spelled.
    pub fn is_plain(&self) -> (r: bool)
        ensures
            r == plain(self@),
        decreases self,
    {
        match self {
            Json::Number(Number::Signed(n)) => *n < 0,
            Json::Number(Number::Fraction(_)) => false,
            Json::Array(items) => {
                let ghost all = items_view(items@);
                let mut i: usize = 0;
                proof {
                    if items@.len() > 0 {
                        crate::json::lemma_items_view(items@, 0);
                    }
                }
                while i < items.len()
                    invariant
                        i <= items@.len(),
                        self matches Json::Array(own) && own == items,
                        all == items_view(items@),
                        all.len() == items@.len(),
                        self@ == JsonView::Array(all),
                        forall|j: int| 0 <= j < i ==> plain(#[trigger] all[j]),
                    decreases items@.len() - i,
                {
                    let item_is_plain: bool = items[i].is_plain();
                    proof {
                        crate::json::lemma_items_view(items@, i as int);
                        assert(item_is_plain == plain(all[i as int]));
                    }
                    if !item_is_plain {
                        proof {
                            lemma_not_plain(self@, i as int);
                        }
                        return false;
                    }
                    i = i + 1;
                }
                true
            },
            Json::Object(members) => {
                let ghost all = members_view(members@);
                let mut i: usize = 0;
                while i < members.len()
                    invariant
                        i <= members@.len(),
                        self matches Json::Object(own) && own == members,
                        all == members_view(members@),
                        forall|k: int|
                            0 <= k < i && #[trigger] counts(members@, k) ==> members@[k].name@
                                != RAW_VALUE@ && plain(members@[k].value.model()),
                    decreases members@.len() - i,
                {
                    if member_counts(members, i) {
                        proof {
                            lemma_counts(members@, i as int);
                        }
                        if same_text(members[i].name.as_str(), RAW_VALUE) {
                            assert(all.contains_key(RAW_VALUE@));
                            return false;
                        }
                        if !members[i].value.is_plain() {
                            assert(all.contains_key(members@[i as int].name@));
                            return false;
                        }
                    }
                    i = i + 1;
                }
                proof {
                    assert forall|name: Seq<char>| #[trigger] all.contains_key(name) implies plain(
                        all[name],
                    ) && name != RAW_VALUE@ by {
                        let k = lemma_one_counts(members@, name);
                        lemma_counts(members@, k);
                    }
                }
                true
            },
            _ => true,
        }
    }

    /// This document spelled.
    pub fn spell(&self) -> (r: Json)
        ensures
            r@ == spelled(self@),
        decreases self,
    {
        match self {
            Json::Null => Json::Null,
            Json::Bool(b) => Json::Bool(*b),
            Json::Number(Number::Unsigned(n)) => Json::Number(Number::Unsigned(*n)),
            Json::Number(Number::Signed(n)) => if *n < 0 {
                Json::Number(Number::Signed(*n))
            } else {
                Json::object().with("signed", Json::number(*n as u64))
            },
            Json::Number(Number::Fraction(text)) => Json::object().with(
                "fraction",
                Json::String(text.clone()),
            ),
            Json::String(s) => Json::String(s.clone()),
            Json::Array(items) => {
                let mut copy: Vec<Json> = Vec::new();
                let mut i: usize = 0;
                while i < items.len()
                    invariant
                        i <= items@.len(),
                        copy@.len() == i,
                        self matches Json::Array(own) && own == items,
                        forall|j: int|
                            0 <= j < i ==> (#[trigger] copy@[j]).model() == spelled(
                                items@[j].model(),
                            ),
                    decreases items@.len() - i,
                {
                    let item = items[i].spell();
                    copy.push(item);
                    i = i + 1;
                }
                proof {
                    let from = items_view(items@);
                    let to = spelled(JsonView::Array(from))->Array_0;
                    if items@.len() > 0 {
                        crate::json::lemma_items_view(items@, 0);
                        crate::json::lemma_items_view(copy@, 0);
                    }
                    assert forall|j: int| 0 <= j < copy@.len() implies items_view(copy@)[j]
                        == to[j] by {
                        crate::json::lemma_items_view(items@, j);
                        crate::json::lemma_items_view(copy@, j);
                        assert(copy@[j].model() == spelled(items@[j].model()));
                    }
                    assert(items_view(copy@) =~= to);
                }
                Json::Array(copy)
            },
            Json::Object(members) => {
                let mut copy: Vec<Member> = Vec::new();
                let mut i: usize = 0;
                proof {
                    assert(spelled_members(members_view(members@.take(0))) =~= Map::empty());
                }
                while i < members.len()
                    invariant
                        i <= members@.len(),
                        self matches Json::Object(own) && own == members,
                        members_view(copy@) == spelled_members(
                            members_view(members@.take(i as int)),
                        ),
                    decreases members@.len() - i,
                {
                    let name: String = concat2("=", members[i].name.as_str());
                    let value = members[i].value.spell();
                    let ghost before = copy@;
                    copy.push(Member { name, value });
                    proof {
                        assert(copy@.drop_last() =~= before);
                        assert(members@.take(i + 1).drop_last() =~= members@.take(i as int));
                        lemma_spelled_insert(
                            members_view(members@.take(i as int)),
                            members@[i as int].name@,
                            members@[i as int].value.model(),
                        );
                    }
                    i = i + 1;
                }
                proof {
                    assert(members@.take(members@.len() as int) =~= members@);
                }
                Json::Object(copy)
            },
        }
    }

    /// The document that stands for this one where a text has to tell it.
    pub fn tell(&self) -> (r: Json)
        ensures
            r@ == told(self@),
    {
        if self.is_plain() {
            self.clone()
        } else {
            self.spell()
        }
    }
}

proof fn lemma_spelled_insert(
    members: Map<Seq<char>, JsonView>,
    name: Seq<char>,
    value: JsonView,
)
    ensures
        spelled_members(members.insert(name, value)) == spelled_members(members).insert(
            marked(name),
            spelled(value),
        ),
{
    let to = spelled_members(members.insert(name, value));
    let from = spelled_members(members).insert(marked(name), spelled(value));
    lemma_marked(name);
    assert forall|other: Seq<char>| to.contains_key(other) == from.contains_key(other) by {
        lemma_marked(other);
    }
    assert forall|other: Seq<char>| #[trigger] to.contains_key(other) implies to[other]
        == from[other] by {
        lemma_marked(other);
    }
    assert(to =~= from);
}

} // verus!
