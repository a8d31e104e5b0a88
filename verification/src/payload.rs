//! Untyped structured values: what a caller sends and what a tool answers.

use crate::text::same_text;
use vstd::prelude::*;

verus! {

/// A structured value before or after typed decoding: a tree of scalars,
/// lists and objects.
#[derive(Debug, PartialEq, Eq)]
pub enum Payload {
    /// The absent value.
    Null,
    /// A truth value.
    Bool(bool),
    /// A number that fits in 64 signed bits.
    Int(i64),
    /// Any other number, kept as the text it was written in.
    Number(String),
    /// A string.
    Text(String),
    /// An ordered list of values.
    List(Vec<Payload>),
    /// Named members, in the order in which they were written.
    Object(Vec<Member>),
}

/// One named member of an object.
#[derive(Debug, PartialEq, Eq)]
pub struct Member {
    pub name: String,
    pub value: Payload,
}

/// The mathematical value of a [`Payload`].
pub enum PayloadView {
    Null,
    Bool(bool),
    Int(int),
    Number(Seq<char>),
    Text(Seq<char>),
    List(Seq<PayloadView>),
    Object(Seq<MemberView>),
}

/// The mathematical value of a [`Member`].
pub struct MemberView {
    pub name: Seq<char>,
    pub value: PayloadView,
}

/// The values of a sequence of payloads, one for one.
pub open spec fn view_items(items: Seq<Payload>) -> Seq<PayloadView>
    decreases items, 0nat,
{
    Seq::new(
        items.len(),
        |i: int|
            if 0 <= i < items.len() {
                items[i].view()
            } else {
                PayloadView::Null
            },
    )
}

/// The values of a sequence of members, one for one.
pub open spec fn view_members(members: Seq<Member>) -> Seq<MemberView>
    decreases members, 0nat,
{
    Seq::new(
        members.len(),
        |i: int|
            if 0 <= i < members.len() {
                MemberView { name: members[i].name@, value: members[i].value.view() }
            } else {
                MemberView { name: Seq::empty(), value: PayloadView::Null }
            },
    )
}

impl View for Payload {
    type V = PayloadView;

    open spec fn view(&self) -> PayloadView
        decreases self, 1nat,
    {
        match self {
            Payload::Null => PayloadView::Null,
            Payload::Bool(b) => PayloadView::Bool(*b),
            Payload::Int(n) => PayloadView::Int(*n as int),
            Payload::Number(text) => PayloadView::Number(text@),
            Payload::Text(text) => PayloadView::Text(text@),
            Payload::List(items) => PayloadView::List(view_items(items@)),
            Payload::Object(members) => PayloadView::Object(view_members(members@)),
        }
    }
}

impl View for Member {
    type V = MemberView;

    open spec fn view(&self) -> MemberView {
        MemberView { name: self.name@, value: self.value@ }
    }
}

/// The position of the first member called `name` at or after `from`, if
/// there is one.
pub open spec fn find_from(members: Seq<MemberView>, name: Seq<char>, from: int) -> Option<int>
    decreases members.len() - from,
{
    if from < 0 || from >= members.len() {
        None
    } else if members[from].name == name {
        Some(from)
    } else {
        find_from(members, name, from + 1)
    }
}

/// The position of the first member called `name`, if there is one.
pub open spec fn find_member(members: Seq<MemberView>, name: Seq<char>) -> Option<int> {
    find_from(members, name, 0)
}

/// The value of the first member called `name`, if there is one.
pub open spec fn lookup(members: Seq<MemberView>, name: Seq<char>) -> Option<PayloadView> {
    match find_member(members, name) {
        Some(k) => Some(members[k].value),
        None => None,
    }
}

/// What `find_from` finds is the first member of that name at or after
/// `from`; it finds nothing only where no member there has that name.
pub proof fn lemma_find_from(members: Seq<MemberView>, name: Seq<char>, from: int)
    requires
        0 <= from,
    ensures
        match find_from(members, name, from) {
            Some(k) => {
                &&& from <= k < members.len()
                &&& members[k].name == name
                &&& forall|j: int| from <= j < k ==> (#[trigger] members[j]).name != name
            },
            None => forall|j: int|
                from <= j < members.len() ==> (#[trigger] members[j]).name != name,
        },
    decreases members.len() - from,
{
    if from < members.len() && members[from].name != name {
        lemma_find_from(members, name, from + 1);
    }
}

/// The position of the first member called `name`, if there is one.
pub fn find(members: &Vec<Member>, name: &str) -> (found: Option<usize>)
    ensures
        match found {
            Some(k) => k < members.len() && find_member(view_members(members@), name@) == Some(
                k as int,
            ),
            None => find_member(view_members(members@), name@) is None,
        },
{
    let mut i: usize = 0;
    while i < members.len()
        invariant
            i <= members.len(),
            find_member(view_members(members@), name@) == find_from(
                view_members(members@),
                name@,
                i as int,
            ),
        decreases members.len() - i,
    {
        if same_text(members[i].name.as_str(), name) {
            return Some(i);
        }
        i += 1;
    }
    None
}

impl Payload {
    /// A copy with the same value.
    pub fn duplicate(&self) -> (copy: Payload)
        ensures
            copy@ == self@,
        decreases self, 0nat,
    {
        match self {
            Payload::Null => Payload::Null,
            Payload::Bool(b) => Payload::Bool(*b),
            Payload::Int(n) => Payload::Int(*n),
            Payload::Number(text) => Payload::Number(text.clone()),
            Payload::Text(text) => Payload::Text(text.clone()),
            Payload::List(items) => Payload::List(duplicate_items(items)),
            Payload::Object(members) => Payload::Object(duplicate_members(members)),
        }
    }
}

/// A copy of each item, in order.
fn duplicate_items(items: &Vec<Payload>) -> (copy: Vec<Payload>)
    ensures
        view_items(copy@) == view_items(items@),
    decreases items, 0nat,
{
    let mut copy: Vec<Payload> = Vec::new();
    let mut i: usize = 0;
    while i < items.len()
        invariant
            i <= items.len(),
            copy.len() == i,
            forall|j: int| 0 <= j < i ==> (#[trigger] copy[j])@ == items[j]@,
        decreases items.len() - i,
    {
        copy.push(items[i].duplicate());
        i += 1;
    }
    assert(view_items(copy@) =~= view_items(items@));
    copy
}

/// A copy of each member, in order.
fn duplicate_members(members: &Vec<Member>) -> (copy: Vec<Member>)
    ensures
        view_members(copy@) == view_members(members@),
    decreases members, 0nat,
{
    let mut copy: Vec<Member> = Vec::new();
    let mut i: usize = 0;
    while i < members.len()
        invariant
            i <= members.len(),
            copy.len() == i,
            forall|j: int| 0 <= j < i ==> (#[trigger] copy[j])@ == members[j]@,
        decreases members.len() - i,
    {
        let member = &members[i];
        copy.push(Member { name: member.name.clone(), value: member.value.duplicate() });
        i += 1;
    }
    assert(view_members(copy@) =~= view_members(members@));
    copy
}

impl Member {
    /// The member called `name` that holds `value`.
    pub fn new(name: &str, value: Payload) -> (member: Member)
        ensures
            member@ == (MemberView { name: name@, value: value@ }),
    {
        Member { name: name.to_owned(), value }
    }
}

impl Payload {
    /// The string `text`.
    pub fn text(text: &str) -> (payload: Payload)
        ensures
            payload@ == PayloadView::Text(text@),
    {
        Payload::Text(text.to_owned())
    }

    /// The object that holds `members`, in their order.
    pub fn object(members: Vec<Member>) -> (payload: Payload)
        ensures
            payload@ == PayloadView::Object(view_members(members@)),
    {
        Payload::Object(members)
    }

    /// The value of the first member called `name`, if this is an object that
    /// has one.
    pub fn get(&self, name: &str) -> (value: Option<&Payload>)
        ensures
            match value {
                Some(found) => self@ is Object && lookup(self@->Object_0, name@) == Some(found@),
                None => self@ is Object ==> lookup(self@->Object_0, name@) is None,
            },
    {
        match self {
            Payload::Object(members) => {
                match find(members, name) {
                    Some(k) => Some(&members[k].value),
                    None => None,
                }
            },
            _ => None,
        }
    }
}

} // verus!
