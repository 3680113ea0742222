//! JSON documents as plain values.
//!
//! Payloads, inputs, outputs and metadata travel through the runtime as
//! [`Json`]. An object is a list of members in which a later member replaces an
//! earlier one of the same name, so its mathematical model is a map.

use vstd::prelude::*;

verus! {

/// A JSON number.
#[derive(Debug, PartialEq, Eq)]
pub enum Number {
    /// A non-negative integer.
    Unsigned(u64),
    /// A negative integer.
    Signed(i64),
    /// Any other number, as it is written.
    Fraction(String),
}

/// The model of a [`Number`].
pub enum NumberView {
    /// A non-negative integer.
    Unsigned(u64),
    /// A negative integer.
    Signed(i64),
    /// Any other number, as it is written.
    Fraction(Seq<char>),
}

impl View for Number {
    type V = NumberView;

    open spec fn view(&self) -> NumberView {
        match *self {
            Number::Unsigned(n) => NumberView::Unsigned(n),
            Number::Signed(n) => NumberView::Signed(n),
            Number::Fraction(text) => NumberView::Fraction(text@),
        }
    }
}

impl Clone for Number {
    fn clone(&self) -> (r: Self)
        ensures
            r@ == self@,
    {
        match self {
            Number::Unsigned(n) => Number::Unsigned(*n),
            Number::Signed(n) => Number::Signed(*n),
            Number::Fraction(text) => Number::Fraction(text.clone()),
        }
    }
}

/// A JSON document.
#[derive(Debug, PartialEq, Eq)]
pub enum Json {
    /// `null`.
    Null,
    /// `true` or `false`.
    Bool(bool),
    /// A number.
    Number(Number),
    /// A string.
    String(String),
    /// An array.
    Array(Vec<Json>),
    /// An object: of two members with one name the later one counts.
    Object(Vec<Member>),
}

/// One member of a JSON object.
#[derive(Debug, PartialEq, Eq)]
pub struct Member {
    /// The member's name.
    pub name: String,
    /// The member's value.
    pub value: Json,
}

/// The mathematical model of a [`Json`] document.
pub enum JsonView {
    /// `null`.
    Null,
    /// `true` or `false`.
    Bool(bool),
    /// A number.
    Number(NumberView),
    /// A string.
    String(Seq<char>),
    /// An array.
    Array(Seq<JsonView>),
    /// An object.
    Object(Map<Seq<char>, JsonView>),
}

/// The documents that a list of documents stands for.
pub open spec fn items_view(items: Seq<Json>) -> Seq<JsonView>
    decreases items,
{
    if items.len() == 0 {
        Seq::empty()
    } else {
        items_view(items.drop_last()).push(items.last().model())
    }
}

/// The map that a list of members stands for.
pub open spec fn members_view(members: Seq<Member>) -> Map<Seq<char>, JsonView>
    decreases members,
{
    if members.len() == 0 {
        Map::empty()
    } else {
        members_view(members.drop_last()).insert(
            members.last().name@,
            members.last().value.model(),
        )
    }
}

impl Json {
    /// The mathematical model of this document.
    pub open spec fn model(self) -> JsonView
        decreases self,
    {
        match self {
            Json::Null => JsonView::Null,
            Json::Bool(b) => JsonView::Bool(b),
            Json::Number(n) => JsonView::Number(n@),
            Json::String(s) => JsonView::String(s@),
            Json::Array(items) => JsonView::Array(items_view(items@)),
            Json::Object(members) => JsonView::Object(members_view(members@)),
        }
    }
}

impl JsonView {
    /// The member `name` of an object; `None` for any other document.
    pub open spec fn member(self, name: Seq<char>) -> Option<JsonView> {
        match self {
            JsonView::Object(members) => if members.contains_key(name) {
                Some(members[name])
            } else {
                None
            },
            _ => None,
        }
    }

    /// The text of a string document; `None` for any other document.
    pub open spec fn text(self) -> Option<Seq<char>> {
        match self {
            JsonView::String(s) => Some(s),
            _ => None,
        }
    }

    /// The text of the member `name`, where there is such a member and it is a
    /// string.
    pub open spec fn member_text(self, name: Seq<char>) -> Option<Seq<char>> {
        match self.member(name) {
            Some(value) => value.text(),
            None => None,
        }
    }

    /// This document with the member `name` set to `value`; a document that is
    /// no object counts as the empty object.
    pub open spec fn with(self, name: Seq<char>, value: JsonView) -> JsonView {
        match self {
            JsonView::Object(members) => JsonView::Object(members.insert(name, value)),
            _ => JsonView::Object(Map::empty().insert(name, value)),
        }
    }

    /// The object without members.
    pub open spec fn empty_object() -> JsonView {
        JsonView::Object(Map::empty())
    }
}

/// Whether `name` is the one member that an object has.
pub open spec fn sole_member(members: Map<Seq<char>, JsonView>, name: Seq<char>) -> bool {
    members.dom() == Set::<Seq<char>>::empty().insert(name)
}

impl JsonView {
    /// The tag of a variant and what it holds: a string is a tag alone; an object with
    /// one member is that member's name with its value. `None` for any other document.
    pub open spec fn variant(self) -> Option<(Seq<char>, Option<JsonView>)> {
        match self {
            JsonView::String(tag) => Some((tag, None)),
            JsonView::Object(members) => if exists|name: Seq<char>| #[trigger]
                sole_member(members, name) {
                let name = choose|name: Seq<char>| #[trigger] sole_member(members, name);
                Some((name, Some(members[name])))
            } else {
                None
            },
            _ => None,
        }
    }

    /// The tag of a variant that holds nothing: with no value or with `null`.
    pub open spec fn unit_variant(self) -> Option<Seq<char>> {
        match self.variant() {
            Some((tag, None)) => Some(tag),
            Some((tag, Some(JsonView::Null))) => Some(tag),
            _ => None,
        }
    }

    /// The object whose one member is `name`: a variant that holds `value`.
    pub open spec fn tagged(name: Seq<char>, value: JsonView) -> JsonView {
        JsonView::empty_object().with(name, value)
    }

    /// The member `name`, where there is one that is not `null`.
    pub open spec fn given(self, name: Seq<char>) -> Option<JsonView> {
        match self.member(name) {
            Some(JsonView::Null) => None,
            other => other,
        }
    }

    /// The number of a document that is a non-negative integer.
    pub open spec fn count(self) -> Option<u64> {
        match self {
            JsonView::Number(NumberView::Unsigned(n)) => Some(n),
            _ => None,
        }
    }
}

/// A document of one member is a variant with that member's name.
pub proof fn a_tagged_document_is_a_variant(name: Seq<char>, value: JsonView)
    ensures
        JsonView::tagged(name, value).variant() == Some((name, Some(value))),
{
    let members = Map::<Seq<char>, JsonView>::empty().insert(name, value);
    assert(members.dom() =~= Set::<Seq<char>>::empty().insert(name));
    assert(sole_member(members, name));
    lemma_sole_member(members, name);
}

proof fn lemma_sole_member(members: Map<Seq<char>, JsonView>, name: Seq<char>)
    requires
        sole_member(members, name),
    ensures
        JsonView::Object(members).variant() == Some((name, Some(members[name]))),
{
    let chosen = choose|other: Seq<char>| #[trigger] sole_member(members, other);
    assert(sole_member(members, chosen));
    assert(members.dom().contains(name));
    assert(Set::<Seq<char>>::empty().insert(chosen).contains(name));
}

proof fn lemma_members_dom(members: Seq<Member>, name: Seq<char>)
    requires
        members.len() > 0,
        members.last().name@ == name,
        forall|i: int| 0 <= i < members.len() ==> (#[trigger] members[i]).name@ == name,
    ensures
        sole_member(members_view(members), name),
        members_view(members)[name] == members.last().value.model(),
    decreases members.len(),
{
    let front = members.drop_last();
    if front.len() > 0 {
        assert forall|i: int| 0 <= i < front.len() implies (#[trigger] front[i]).name@ == name by {
            assert(front[i] == members[i]);
        }
        lemma_members_dom(front, name);
    } else {
        assert(members_view(front) == Map::<Seq<char>, JsonView>::empty());
    }
    assert(members_view(members).dom() =~= Set::<Seq<char>>::empty().insert(name));
}

/// The documents of a list, one by one.
pub(crate) proof fn lemma_items_view(items: Seq<Json>, i: int)
    requires
        0 <= i < items.len(),
    ensures
        items_view(items).len() == items.len(),
        items_view(items)[i] == items[i].model(),
    decreases items.len(),
{
    if i < items.len() - 1 {
        lemma_items_view(items.drop_last(), i);
    } else if items.len() > 1 {
        lemma_items_view(items.drop_last(), 0);
    } else {
        assert(items_view(items.drop_last()).len() == 0);
    }
}

proof fn lemma_member_named(members: Seq<Member>, i: int)
    requires
        0 <= i < members.len(),
    ensures
        members_view(members).contains_key(members[i].name@),
    decreases members.len(),
{
    if i < members.len() - 1 {
        lemma_member_named(members.drop_last(), i);
    }
}

/// The model of an optional document.
pub open spec fn opt_json(doc: Option<Json>) -> Option<JsonView> {
    match doc {
        Some(doc) => Some(doc@),
        None => None,
    }
}

/// A copy of an optional document.
pub fn clone_opt_json(doc: &Option<Json>) -> (r: Option<Json>)
    ensures
        opt_json(r) == opt_json(*doc),
{
    match doc {
        Some(doc) => Some(doc.clone()),
        None => None,
    }
}

impl Json {
    /// The object without members.
    pub fn object() -> (r: Json)
        ensures
            r@ == JsonView::empty_object(),
    {
        Json::Object(Vec::new())
    }

    /// A string document.
    pub fn string(text: &str) -> (r: Json)
        ensures
            r@ == JsonView::String(text@),
    {
        Json::String(text.to_owned())
    }

    /// A number document that holds `n`.
    pub fn number(n: u64) -> (r: Json)
        ensures
            r@ == JsonView::Number(NumberView::Unsigned(n)),
    {
        Json::Number(Number::Unsigned(n))
    }

    /// This document with the member `name` set to `value`, replacing what the
    /// member held; a document that is no object counts as the empty object.
    pub fn with(self, name: &str, value: Json) -> (r: Json)
        ensures
            r@ == self@.with(name@, value@),
    {
        let mut members: Vec<Member> = match self {
            Json::Object(members) => members,
            _ => Vec::new(),
        };
        let ghost before = members@;
        members.push(Member { name: name.to_owned(), value });
        proof {
            assert(members@.drop_last() =~= before);
            assert(JsonView::Object(members_view(before)) == match self@ {
                JsonView::Object(_) => self@,
                _ => JsonView::empty_object(),
            });
        }
        Json::Object(members)
    }

    /// The member `name` of an object.
    pub fn get(&self, name: &str) -> (r: Option<&Json>)
        ensures
            match r {
                Some(value) => self@.member(name@) == Some(value@),
                None => self@.member(name@) is None,
            },
    {
        match self {
            Json::Object(members) => {
                let key: String = name.to_owned();
                let mut i: usize = members.len();
                proof {
                    assert(members@.take(members@.len() as int) =~= members@);
                }
                while i > 0
                    invariant
                        i <= members@.len(),
                        key@ == name@,
                        self matches Json::Object(own) && own == members,
                        self@.member(name@) == JsonView::Object(
                            members_view(members@.take(i as int)),
                        ).member(name@),
                    decreases i,
                {
                    proof {
                        assert(members@.take(i as int).drop_last() =~= members@.take(i - 1));
                    }
                    i = i - 1;
                    if members[i].name == key {
                        return Some(&members[i].value);
                    }
                }
                None
            },
            _ => None,
        }
    }

    /// The text of a string document.
    pub fn as_str(&self) -> (r: Option<&str>)
        ensures
            match r {
                Some(text) => self@.text() == Some(text@),
                None => self@.text() is None,
            },
    {
        match self {
            Json::String(s) => Some(s.as_str()),
            _ => None,
        }
    }

    /// The text of the member `name`.
    pub fn get_str(&self, name: &str) -> (r: Option<&str>)
        ensures
            match r {
                Some(text) => self@.member_text(name@) == Some(text@),
                None => self@.member_text(name@) is None,
            },
    {
        match self.get(name) {
            Some(value) => value.as_str(),
            None => None,
        }
    }
}

impl Json {
    /// The tag of a variant and what it holds.
    pub fn variant(&self) -> (r: Option<(&str, Option<&Json>)>)
        ensures
            match r {
                Some((tag, None)) => self@.variant() == Some((tag@, None::<JsonView>)),
                Some((tag, Some(value))) => self@.variant() == Some((tag@, Some(value@))),
                None => self@.variant() is None,
            },
    {
        match self {
            Json::String(tag) => Some((tag.as_str(), None)),
            Json::Object(members) => {
                let len: usize = members.len();
                let ghost map = members_view(members@);
                if len == 0 {
                    proof {
                        assert forall|name: Seq<char>| !(#[trigger] sole_member(map, name)) by {
                            assert(!map.dom().contains(name));
                        }
                    }
                    return None;
                }
                let name: &String = &members[len - 1].name;
                let mut i: usize = 0;
                while i < len
                    invariant
                        i <= len == members@.len(),
                        len > 0,
                        map == members_view(members@),
                        self@ == JsonView::Object(map),
                        name@ == members@[len - 1].name@,
                        forall|j: int|
                            0 <= j < i ==> (#[trigger] members@[j]).name@ == name@,
                    decreases len - i,
                {
                    if members[i].name.as_str().to_owned() != name.as_str().to_owned() {
                        proof {
                            assert forall|other: Seq<char>| !(#[trigger] sole_member(
                                map,
                                other,
                            )) by {
                                lemma_member_named(members@, i as int);
                                lemma_member_named(members@, len - 1);
                                let single = Set::<Seq<char>>::empty().insert(other);
                                if map.dom() == single {
                                    assert(single.contains(members@[i as int].name@));
                                    assert(single.contains(name@));
                                }
                            }
                        }
                        return None;
                    }
                    i = i + 1;
                }
                proof {
                    lemma_members_dom(members@, name@);
                    lemma_sole_member(map, name@);
                }
                Some((name.as_str(), Some(&members[len - 1].value)))
            },
            _ => None,
        }
    }

    /// The tag of a variant that holds nothing.
    pub fn unit_variant(&self) -> (r: Option<&str>)
        ensures
            match r {
                Some(tag) => self@.unit_variant() == Some(tag@),
                None => self@.unit_variant() is None,
            },
    {
        match self.variant() {
            Some((tag, None)) => Some(tag),
            Some((tag, Some(Json::Null))) => Some(tag),
            _ => None,
        }
    }

    /// The member `name`, where there is one that is not `null`.
    pub fn given(&self, name: &str) -> (r: Option<&Json>)
        ensures
            match r {
                Some(value) => self@.given(name@) == Some(value@),
                None => self@.given(name@) is None,
            },
    {
        match self.get(name) {
            Some(Json::Null) => None,
            other => other,
        }
    }

    /// The number of a document that is a non-negative integer.
    pub fn count(&self) -> (r: Option<u64>)
        ensures
            r == self@.count(),
    {
        match self {
            Json::Number(Number::Unsigned(n)) => Some(*n),
            _ => None,
        }
    }

    /// Whether the document is an object.
    pub fn is_object(&self) -> (r: bool)
        ensures
            r == (self@ is Object),
    {
        match self {
            Json::Object(_) => true,
            _ => false,
        }
    }
}

impl View for Json {
    type V = JsonView;

    open spec fn view(&self) -> JsonView {
        self.model()
    }
}

impl Clone for Json {
    fn clone(&self) -> (r: Self)
        ensures
            r@ == self@,
        decreases self,
    {
        match self {
            Json::Null => Json::Null,
            Json::Bool(b) => Json::Bool(*b),
            Json::Number(n) => Json::Number(n.clone()),
            Json::String(s) => Json::String(s.clone()),
            Json::Array(items) => {
                let mut copy: Vec<Json> = Vec::new();
                let mut i: usize = 0;
                while i < items.len()
                    invariant
                        i <= items@.len(),
                        self matches Json::Array(own) && own == items,
                        items_view(copy@) == items_view(items@.take(i as int)),
                    decreases items@.len() - i,
                {
                    let item = items[i].clone();
                    let ghost before = copy@;
                    copy.push(item);
                    proof {
                        assert(copy@.drop_last() =~= before);
                        assert(items@.take(i + 1).drop_last() =~= items@.take(i as int));
                    }
                    i = i + 1;
                }
                proof {
                    assert(items@.take(items@.len() as int) =~= items@);
                }
                Json::Array(copy)
            },
            Json::Object(members) => {
                let mut copy: Vec<Member> = Vec::new();
                let mut i: usize = 0;
                while i < members.len()
                    invariant
                        i <= members@.len(),
                        self matches Json::Object(own) && own == members,
                        members_view(copy@) == members_view(members@.take(i as int)),
                    decreases members@.len() - i,
                {
                    let name = members[i].name.clone();
                    let value = members[i].value.clone();
                    let ghost before = copy@;
                    copy.push(Member { name, value });
                    proof {
                        assert(copy@.drop_last() =~= before);
                        assert(members@.take(i + 1).drop_last() =~= members@.take(i as int));
                    }
                    i = i + 1;
                }
                proof {
                    assert(members@.take(members@.len() as int) =~= members@);
                }
                Json::Object(copy)
            },
        }
    }
}

} // verus!
