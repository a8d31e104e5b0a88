//! The tool registry: the fixed set of callable tools, by name.

use crate::error::{HandlerError, HandlerErrorView};
use crate::payload::{Payload, PayloadView};
use crate::schema::{SchemaDescriptor, SchemaView};
use crate::text::same_text;
use std::collections::HashMap;
use vstd::prelude::*;

verus! {

/// The mathematical value of what a handler returns.
pub open spec fn view_outcome(outcome: Result<Payload, HandlerError>) -> Result<
    PayloadView,
    HandlerErrorView,
> {
    match outcome {
        Ok(value) => Ok(value@),
        Err(e) => Err(e@),
    }
}

/// What implements a tool.
///
/// A handler is handed the decoded input and the context of the call.
/// Whatever it does beyond computing its result, it does to that context:
/// a context that a call leaves as it was has seen no handler run.
pub trait ToolHandler {
    /// What a handler may read and change while it runs.
    type Context;

    /// Whether the handler, started in `before` on `input`, may end in
    /// `after` with `outcome`. A handler that says nothing of itself may end
    /// in any way.
    open spec fn may_return(
        &self,
        before: Self::Context,
        input: PayloadView,
        after: Self::Context,
        outcome: Result<PayloadView, HandlerErrorView>,
    ) -> bool {
        true
    }

    /// Runs the tool once.
    fn call(&self, context: &mut Self::Context, input: &Payload) -> (outcome: Result<
        Payload,
        HandlerError,
    >)
        ensures
            self.may_return(*old(context), input@, *final(context), view_outcome(outcome)),
    ;
}

/// A registered tool.
pub struct ToolEntry<H> {
    pub name: String,
    pub description: String,
    pub input_schema: SchemaDescriptor,
    pub output_schema: SchemaDescriptor,
    pub handler: H,
}

/// What a registry tells of a tool: everything but its handler.
#[derive(Debug, PartialEq, Eq)]
pub struct ToolInfo {
    pub name: String,
    pub description: String,
    pub input_schema: SchemaDescriptor,
    pub output_schema: SchemaDescriptor,
}

/// The mathematical value of a [`ToolInfo`].
pub struct ToolInfoView {
    pub name: Seq<char>,
    pub description: Seq<char>,
    pub input_schema: SchemaView,
    pub output_schema: SchemaView,
}

impl View for ToolInfo {
    type V = ToolInfoView;

    open spec fn view(&self) -> ToolInfoView {
        ToolInfoView {
            name: self.name@,
            description: self.description@,
            input_schema: self.input_schema@,
            output_schema: self.output_schema@,
        }
    }
}

/// What a registry tells of `entry`.
pub open spec fn info_of<H>(entry: ToolEntry<H>) -> ToolInfoView {
    ToolInfoView {
        name: entry.name@,
        description: entry.description@,
        input_schema: entry.input_schema@,
        output_schema: entry.output_schema@,
    }
}

/// Why a registry refuses a tool.
#[derive(Debug, PartialEq, Eq)]
pub enum RegistryError {
    /// A tool of that name is registered already.
    DuplicateRegistration { name: String },
}

/// The position of the first entry called `name` at or after `from`, if
/// there is one.
pub open spec fn position_from<H>(entries: Seq<ToolEntry<H>>, name: Seq<char>, from: int) -> Option<
    int,
>
    decreases entries.len() - from,
{
    if from < 0 || from >= entries.len() {
        None
    } else if entries[from].name@ == name {
        Some(from)
    } else {
        position_from(entries, name, from + 1)
    }
}

/// The position of the entry called `name`, if there is one.
pub open spec fn position<H>(entries: Seq<ToolEntry<H>>, name: Seq<char>) -> Option<int> {
    position_from(entries, name, 0)
}

/// No two entries share a name.
pub open spec fn distinct_names<H>(entries: Seq<ToolEntry<H>>) -> bool {
    forall|i: int, j: int|
        0 <= i < j < entries.len() ==> (#[trigger] entries[i]).name@ != (
        #[trigger] entries[j]).name@
}

/// What `position_from` finds is the first entry of that name at or after
/// `from`; it finds nothing only where no entry there has that name.
pub proof fn lemma_position_from<H>(entries: Seq<ToolEntry<H>>, name: Seq<char>, from: int)
    requires
        0 <= from,
    ensures
        match position_from(entries, name, from) {
            Some(k) => {
                &&& from <= k < entries.len()
                &&& entries[k].name@ == name
                &&& forall|j: int| from <= j < k ==> (#[trigger] entries[j]).name@ != name
            },
            None => forall|j: int|
                from <= j < entries.len() ==> (#[trigger] entries[j]).name@ != name,
        },
    decreases entries.len() - from,
{
    if from < entries.len() && entries[from].name@ != name {
        lemma_position_from(entries, name, from + 1);
    }
}

/// Under distinct names, each entry is found under its own name.
pub proof fn lemma_each_is_found<H>(entries: Seq<ToolEntry<H>>, i: int)
    requires
        distinct_names(entries),
        0 <= i < entries.len(),
    ensures
        position(entries, entries[i].name@) == Some(i),
{
    let name = entries[i].name@;
    lemma_position_from(entries, name, 0);
    match position(entries, name) {
        Some(k) => {
            if k < i {
                assert(entries[k].name@ != entries[i].name@);
            }
        },
        None => {
            assert(entries[i].name@ == name);
        },
    }
}

/// A tool that was registered is found under its name, as it was registered,
/// and a second tool of that name would be refused; what stands under any
/// other name is not touched.
pub proof fn lemma_registered_is_found<H>(entries: Seq<ToolEntry<H>>, entry: ToolEntry<H>)
    requires
        distinct_names(entries),
        position(entries, entry.name@) is None,
    ensures
        distinct_names(entries.push(entry)),
        position(entries.push(entry), entry.name@) == Some(entries.len() as int),
        entries.push(entry)[entries.len() as int] == entry,
        forall|name: Seq<char>|
            name != entry.name@ ==> #[trigger] position(entries.push(entry), name) == position(
                entries,
                name,
            ),
{
    let more = entries.push(entry);
    lemma_position_from(entries, entry.name@, 0);
    assert forall|i: int, j: int| 0 <= i < j < more.len() implies (#[trigger] more[i]).name@ != (
    #[trigger] more[j]).name@ by {
        if j < entries.len() {
            assert(more[i] == entries[i] && more[j] == entries[j]);
        } else {
            assert(more[i] == entries[i]);
            assert(entries[i].name@ != entry.name@);
        }
    }
    lemma_each_is_found(more, entries.len() as int);
    assert forall|name: Seq<char>| name != entry.name@ implies #[trigger] position(more, name)
        == position(entries, name) by {
        lemma_position_from(entries, name, 0);
        lemma_position_from(more, name, 0);
        match position(entries, name) {
            Some(k) => {
                assert(more[k] == entries[k]);
                match position(more, name) {
                    Some(k2) => {
                        if k2 < k {
                            assert(more[k2] == entries[k2]);
                            assert(entries[k2].name@ != name);
                        }
                        if k < k2 {
                            assert(more[k].name@ != name);
                        }
                    },
                    None => {
                        assert(more[k].name@ != name);
                    },
                }
            },
            None => {
                match position(more, name) {
                    Some(k2) => {
                        if k2 < entries.len() {
                            assert(more[k2] == entries[k2]);
                            assert(entries[k2].name@ != name);
                        }
                    },
                    None => {},
                }
            },
        }
    }
}

/// One step of the hash of a name: the hash so far, taken in by one more
/// byte.
spec fn mix(hash: u64, byte: u8) -> u64 {
    ((hash % 0x100_0000_0000_0000) * 31 + byte) as u64
}

/// The hash of the first `n` bytes.
spec fn hash_prefix(bytes: Seq<u8>, n: nat) -> u64
    decreases n,
{
    if n == 0 || n > bytes.len() {
        0
    } else {
        mix(hash_prefix(bytes, (n - 1) as nat), bytes[n - 1])
    }
}

/// The hash under which a name is indexed.
spec fn name_hash(name: Seq<char>) -> u64 {
    let bytes = vstd::utf8::encode_utf8(name);
    hash_prefix(bytes, bytes.len())
}

/// The hash under which `name` is indexed.
fn hash_of(name: &str) -> (hash: u64)
    ensures
        hash == name_hash(name@),
{
    let bytes = name.as_bytes();
    let mut hash: u64 = 0;
    let mut i: usize = 0;
    while i < bytes.len()
        invariant
            i <= bytes.len(),
            hash == hash_prefix(bytes@, i as nat),
        decreases bytes.len() - i,
    {
        hash = (hash % 0x100_0000_0000_0000) * 31 + bytes[i] as u64;
        i += 1;
    }
    hash
}

/// Whether `index` leads to every entry: under the hash of an entry's name
/// stands a bucket that holds the entry's place, and every place in a bucket
/// is the place of an entry.
spec fn indexed<H>(entries: Seq<ToolEntry<H>>, index: Map<u64, Vec<usize>>) -> bool {
    &&& forall|i: int|
        0 <= i < entries.len() ==> {
            &&& index.contains_key(name_hash((#[trigger] entries[i]).name@))
            &&& index[name_hash(entries[i].name@)]@.contains(i as usize)
        }
    &&& forall|hash: u64, p: int|
        index.contains_key(hash) && 0 <= p < index[hash]@.len() ==> (#[trigger] index[hash]@[p])
            < entries.len()
}

/// The set of callable tools. Tools are added one by one while the registry is
/// built and are never changed or removed; no two have the same name. A tool
/// is found through the hash of its name.
pub struct Registry<H> {
    entries: Vec<ToolEntry<H>>,
    /// The places of the entries, by the hash of their names.
    index: HashMap<u64, Vec<usize>>,
}

impl<H> View for Registry<H> {
    type V = Seq<ToolEntry<H>>;

    /// The registered tools, in the order of their registration.
    closed spec fn view(&self) -> Seq<ToolEntry<H>> {
        self.entries@
    }
}

impl<H> Registry<H> {
    #[verifier::type_invariant]
    spec fn names_are_distinct_and_indexed(&self) -> bool {
        &&& distinct_names(self.entries@)
        &&& indexed(self.entries@, self.index@)
    }

    /// A registry without tools.
    pub fn new() -> (registry: Self)
        ensures
            registry@ == Seq::<ToolEntry<H>>::empty(),
    {
        Registry { entries: Vec::new(), index: HashMap::new() }
    }

    /// How many tools are registered.
    pub fn len(&self) -> (n: usize)
        ensures
            n == self@.len(),
    {
        self.entries.len()
    }

    /// Where the tool called `name` stands, in registration order.
    pub fn index_of(&self, name: &str) -> (found: Option<usize>)
        ensures
            distinct_names(self@),
            match found {
                Some(i) => i < self@.len() && position(self@, name@) == Some(i as int),
                None => position(self@, name@) is None,
            },
    {
        broadcast use vstd::std_specs::hash::group_hash_axioms;

        proof {
            use_type_invariant(self);
            lemma_position_from(self.entries@, name@, 0);
        }
        let hash = hash_of(name);
        let count = self.entries.len();
        match self.index.get(&hash) {
            None => {
                proof {
                    if position(self.entries@, name@) is Some {
                        let k = position(self.entries@, name@)->0;
                        assert(self.index@.contains_key(name_hash(self.entries@[k].name@)));
                        assert(false);
                    }
                }
                None
            },
            Some(bucket) => {
                let mut p: usize = 0;
                while p < bucket.len()
                    invariant
                        p <= bucket.len(),
                        count == self.entries@.len(),
                        distinct_names(self.entries@),
                        indexed(self.entries@, self.index@),
                        self.index@.contains_key(hash),
                        self.index@[hash] == *bucket,
                        forall|q: int|
                            0 <= q < p ==> self.entries@[(#[trigger] bucket@[q]) as int].name@
                                != name@,
                    decreases bucket.len() - p,
                {
                    let i = bucket[p];
                    if same_text(self.entries[i].name.as_str(), name) {
                        proof {
                            lemma_each_is_found(self.entries@, i as int);
                        }
                        return Some(i);
                    }
                    p += 1;
                }
                proof {
                    if position(self.entries@, name@) is Some {
                        let k = position(self.entries@, name@)->0;
                        let place = k as usize;
                        assert(place as int == k);
                        assert(self.entries@[k].name@ == name@);
                        assert(bucket@.contains(place));
                        let q = choose|q: int| 0 <= q < bucket@.len() && bucket@[q] == place;
                        assert(self.entries@[bucket@[q] as int].name@ != name@);
                        assert(false);
                    }
                }
                None
            },
        }
    }

    /// The tool called `name`, if one is registered.
    pub fn lookup(&self, name: &str) -> (found: Option<&ToolEntry<H>>)
        ensures
            distinct_names(self@),
            match found {
                Some(entry) => position(self@, name@) is Some && *entry == self@[position(
                    self@,
                    name@,
                )->0],
                None => position(self@, name@) is None,
            },
    {
        match self.index_of(name) {
            Some(i) => Some(&self.entries[i]),
            None => None,
        }
    }

    /// The tool at place `i` of the registration order.
    pub fn entry(&self, i: usize) -> (entry: &ToolEntry<H>)
        requires
            i < self@.len(),
        ensures
            *entry == self@[i as int],
    {
        &self.entries[i]
    }

    /// What the registry tells of its tools, in the order of their
    /// registration.
    pub fn list(&self) -> (tools: Vec<ToolInfo>)
        ensures
            tools@.len() == self@.len(),
            forall|i: int| 0 <= i < self@.len() ==> (#[trigger] tools@[i])@ == info_of(self@[i]),
    {
        let mut tools: Vec<ToolInfo> = Vec::new();
        let mut i: usize = 0;
        while i < self.entries.len()
            invariant
                i <= self.entries.len(),
                tools@.len() == i,
                forall|j: int| 0 <= j < i ==> (#[trigger] tools@[j])@ == info_of(self.entries@[j]),
            decreases self.entries.len() - i,
        {
            let entry = &self.entries[i];
            tools.push(
                ToolInfo {
                    name: entry.name.clone(),
                    description: entry.description.clone(),
                    input_schema: entry.input_schema.duplicate(),
                    output_schema: entry.output_schema.duplicate(),
                },
            );
            i += 1;
        }
        tools
    }

    /// Adds a tool. A name that is taken is refused, and the registry stays as
    /// it was.
    pub fn register(
        &mut self,
        name: String,
        description: String,
        input_schema: SchemaDescriptor,
        output_schema: SchemaDescriptor,
        handler: H,
    ) -> (registered: Result<(), RegistryError>)
        ensures
            distinct_names(final(self)@),
            match registered {
                Ok(_) => {
                    &&& position(old(self)@, name@) is None
                    &&& final(self)@ == old(self)@.push(
                        ToolEntry { name, description, input_schema, output_schema, handler },
                    )
                },
                Err(RegistryError::DuplicateRegistration { name: refused }) => {
                    &&& position(old(self)@, name@) is Some
                    &&& final(self)@ == old(self)@
                    &&& refused@ == name@
                },
            },
    {
        broadcast use vstd::std_specs::hash::group_hash_axioms;

        proof {
            use_type_invariant(&*self);
        }
        match self.index_of(name.as_str()) {
            Some(_) => Err(RegistryError::DuplicateRegistration { name }),
            None => {
                proof {
                    lemma_position_from(self.entries@, name@, 0);
                }
                let mut taken: Registry<H> = Registry::new();
                core::mem::swap(self, &mut taken);
                let Registry { entries, index } = taken;
                let mut entries = entries;
                let mut index = index;
                let ghost before = entries@;
                let ghost known = index@;
                let place = entries.len();
                let hash = hash_of(name.as_str());
                let mut bucket = match index.remove(&hash) {
                    Some(bucket) => bucket,
                    None => Vec::new(),
                };
                let ghost old_bucket = bucket@;
                bucket.push(place);
                index.insert(hash, bucket);
                let entry = ToolEntry { name, description, input_schema, output_schema, handler };
                entries.push(entry);
                proof {
                    lemma_registered_is_found(before, entry);
                    assert(index@ =~= known.insert(hash, bucket));
                    assert forall|i: int| 0 <= i < entries@.len() implies {
                        &&& index@.contains_key(name_hash((#[trigger] entries@[i]).name@))
                        &&& index@[name_hash(entries@[i].name@)]@.contains(i as usize)
                    } by {
                        if i < before.len() {
                            assert(entries@[i] == before[i]);
                            let h = name_hash(before[i].name@);
                            if h == hash {
                                let q = choose|q: int|
                                    0 <= q < old_bucket.len() && old_bucket[q] == i as usize;
                                assert(bucket@[q] == i as usize);
                            }
                        } else {
                            assert(bucket@[old_bucket.len() as int] == i as usize);
                        }
                    }
                    assert forall|h: u64, p: int|
                        index@.contains_key(h) && 0 <= p < index@[h]@.len() implies (
                    #[trigger] index@[h]@[p]) < entries@.len() by {
                        if h == hash {
                            if p < old_bucket.len() {
                                assert(known.contains_key(hash));
                                assert(bucket@[p] == known[hash]@[p]);
                            }
                        } else {
                            assert(index@[h] == known[h]);
                        }
                    }
                }
                *self = Registry { entries, index };
                Ok(())
            },
        }
    }
}

} // verus!
