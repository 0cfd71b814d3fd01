//! Block identities: a name and a mapping of properties, interned so that
//! equal identities share one handle.

use internment::Intern;
use vstd::prelude::*;
use vstd::std_specs::cmp::PartialEqSpec;

use crate::properties::{
    ascending, canonical, canonical_of, last_value, lemma_canonical_holds_the_mapping,
    lemma_same_mapping_same_list, lookup, properties_view,
};
use crate::text::str_eq;

verus! {

/// `internment::Intern`, a handle to a value in the interning pool of the
/// process. Nothing is known of what is behind one but through
/// [`interned_name`] and [`interned_properties`].
#[verifier::external_type_specification]
#[verifier::external_body]
#[verifier::reject_recursive_types(T)]
pub struct ExIntern<T: 'static + ?Sized>(Intern<T>);

/// The name that an interning handle points to.
pub uninterp spec fn interned_name(handle: Intern<(String, Vec<(String, String)>)>) -> Seq<char>;

/// The property list that an interning handle points to.
pub uninterp spec fn interned_properties(handle: Intern<(String, Vec<(String, String)>)>) -> Seq<
    (Seq<char>, Seq<char>),
>;

/// `Intern::new`: the handle of the value equal to `(name, properties)`.
#[verifier::external_body]
fn intern(name: String, properties: Vec<(String, String)>) -> (handle: Intern<
    (String, Vec<(String, String)>),
>)
    ensures
        interned_name(handle) == name@,
        interned_properties(handle) == properties_view(properties@),
{
    Intern::new((name, properties))
}

/// `Intern::as_ref`: the value behind a handle, which lives as long as the
/// process.
#[verifier::external_body]
fn interned(handle: Intern<(String, Vec<(String, String)>)>) -> (value: &'static (
    String,
    Vec<(String, String)>,
))
    ensures
        value.0@ == interned_name(handle),
        properties_view(value.1@) == interned_properties(handle),
{
    handle.as_ref()
}

/// `Intern::eq`: handles are the same pointer exactly when the values they
/// were interned from are equal.
#[verifier::external_body]
fn same_handle(
    a: &Intern<(String, Vec<(String, String)>)>,
    b: &Intern<(String, Vec<(String, String)>)>,
) -> (same: bool)
    ensures
        same == (interned_name(*a) == interned_name(*b) && interned_properties(*a)
            == interned_properties(*b)),
{
    a == b
}

/// What identifies a block: its name and its properties, as a list in the
/// order of the keys.
pub struct BlockView {
    pub name: Seq<char>,
    pub properties: Seq<(Seq<char>, Seq<char>)>,
}

/// An interned block identity.
#[derive(Clone, Copy, Debug)]
pub struct Block {
    handle: Intern<(String, Vec<(String, String)>)>,
}

impl View for Block {
    type V = BlockView;

    closed spec fn view(&self) -> BlockView {
        BlockView {
            name: interned_name(self.handle),
            properties: interned_properties(self.handle),
        }
    }
}

/// The identity of the air block.
pub open spec fn air_view() -> BlockView {
    BlockView { name: "minecraft:air"@, properties: Seq::empty() }
}

impl Block {
    #[verifier::type_invariant]
    spec fn well_formed(&self) -> bool {
        ascending(interned_properties(self.handle))
    }

    /// Interns the block called `name` with the properties that `properties`
    /// build, one after the other: the order of the pairs does not count,
    /// and where two have the same key the later one does.
    pub fn new(name: String, properties: Vec<(String, String)>) -> (block: Block)
        ensures
            block@.name == name@,
            block@.properties == canonical(properties_view(properties@)),
            ascending(block@.properties),
    {
        let list = canonical_of(&properties);
        Block { handle: intern(name, list) }
    }

    /// The air block.
    pub fn air() -> (block: Block)
        ensures
            block@ == air_view(),
    {
        let block = Block::new("minecraft:air".to_owned(), Vec::new());
        assert(block@.properties =~= Seq::empty());
        block
    }

    /// The block's name.
    pub fn name(&self) -> (name: &'static str)
        ensures
            name@ == self@.name,
    {
        interned(self.handle).0.as_str()
    }

    /// The block's properties, in the order of their keys.
    pub fn properties(&self) -> (properties: &'static Vec<(String, String)>)
        ensures
            properties_view(properties@) == self@.properties,
            ascending(self@.properties),
    {
        proof {
            use_type_invariant(self);
        }
        &interned(self.handle).1
    }

    /// Whether this is the air block.
    pub fn is_air(&self) -> (air: bool)
        ensures
            air == (self@ == air_view()),
    {
        let value = interned(self.handle);
        let air = str_eq(value.0.as_str(), "minecraft:air") && value.1.len() == 0;
        proof {
            assert(self@.properties.len() == value.1.len());
            if air {
                assert(self@.properties =~= Seq::empty());
            }
        }
        air
    }

    /// The value of property `key`, if the block has it.
    pub fn property(&self, key: &str) -> (value: Option<&'static str>)
        ensures
            match value {
                Some(v) => lookup(self@.properties, key@) == Some(v@),
                None => lookup(self@.properties, key@) is None,
            },
    {
        let properties = &interned(self.handle).1;
        let mut i: usize = 0;
        assert(self@.properties.skip(0) =~= self@.properties);
        while i < properties.len()
            invariant
                i <= properties.len(),
                properties_view(properties@) == self@.properties,
                lookup(self@.properties, key@) == lookup(self@.properties.skip(i as int), key@),
            decreases properties.len() - i,
        {
            let entry = &properties[i];
            proof {
                let rest = self@.properties.skip(i as int);
                assert(rest[0] == (entry.0@, entry.1@));
                assert(rest.drop_first() =~= self@.properties.skip(i + 1));
            }
            if str_eq(entry.0.as_str(), key) {
                return Some(entry.1.as_str());
            }
            i += 1;
        }
        None
    }
}

impl PartialEq for Block {
    fn eq(&self, other: &Block) -> (same: bool) {
        same_handle(&self.handle, &other.handle)
    }
}

impl vstd::std_specs::cmp::PartialEqSpecImpl for Block {
    open spec fn obeys_eq_spec() -> bool {
        true
    }

    open spec fn eq_spec(&self, other: &Block) -> bool {
        self@ == other@
    }
}

impl Eq for Block {}

/// Interning is by value: two blocks are the same handle exactly when they
/// were interned from the same name and from pairs that build the same
/// mapping, whatever the order of the pairs.
pub proof fn lemma_interning_is_by_value(
    first: Block,
    name: Seq<char>,
    pairs: Seq<(Seq<char>, Seq<char>)>,
    second: Block,
    other_name: Seq<char>,
    other_pairs: Seq<(Seq<char>, Seq<char>)>,
)
    requires
        first@.name == name,
        first@.properties == canonical(pairs),
        second@.name == other_name,
        second@.properties == canonical(other_pairs),
    ensures
        first.eq_spec(&second) <==> name == other_name && forall|key: Seq<char>| #[trigger]
            last_value(pairs, key) == last_value(other_pairs, key),
{
    lemma_same_mapping_same_list(pairs, other_pairs);
}

/// A block holds for every key what the pairs that it was interned from
/// build: the value of the last pair with the key.
pub proof fn lemma_block_holds_the_mapping(
    block: Block,
    pairs: Seq<(Seq<char>, Seq<char>)>,
    key: Seq<char>,
)
    requires
        block@.properties == canonical(pairs),
    ensures
        lookup(block@.properties, key) == last_value(pairs, key),
{
    lemma_canonical_holds_the_mapping(pairs, key);
}

} // verus!
