//! The registry of block kinds: a state's kind by name, and its properties by name and value.

use vstd::prelude::*;
use crate::block::{valid_state, BlockState};

verus! {

/// The name of the kind that a block state belongs to.
pub uninterp spec fn kind_of(block: u16) -> Seq<char>;

/// The default state of the kind with that name.
pub uninterp spec fn default_state(kind: Seq<char>) -> Option<u16>;

/// The names of the properties of a block state's kind.
pub uninterp spec fn property_names(block: u16) -> Seq<Seq<char>>;

/// The value of a block state's property.
pub uninterp spec fn property_value(block: u16, name: Seq<char>) -> Option<Seq<char>>;

/// True iff some kind has a property of that name.
pub uninterp spec fn known_property(name: Seq<char>) -> bool;

/// True iff some property has that value.
pub uninterp spec fn known_value(value: Seq<char>) -> bool;

/// A block state with one property set to a value.
pub uninterp spec fn with_property(block: u16, name: Seq<char>, value: Seq<char>) -> u16;

/// True iff the two states belong to the same kind.
pub open spec fn same_kind(a: u16, b: u16) -> bool {
    valid_state(a) && valid_state(b) && kind_of(a) == kind_of(b)
}

/// `BlockState::to_kind` and `BlockKind::to_str`: the name of the state's kind. The name is one
/// that `BlockKind::from_str` knows, and the default state that it leads to is of that kind.
#[verifier::external_body]
pub(crate) fn state_kind(block: BlockState) -> (r: String)
    requires
        valid_state(block),
    ensures
        r@ == kind_of(block),
        default_state(r@) is Some && same_kind(default_state(r@)->0, block),
{
    valence::BlockState::from_raw(block).unwrap().to_kind().to_str().to_string()
}

/// `BlockKind::from_str` and `BlockKind::to_state`: the default state of the kind with that name,
/// or nothing where no kind has it.
#[verifier::external_body]
pub(crate) fn kind_default_state(name: &str) -> (r: Option<BlockState>)
    ensures
        r == default_state(name@),
        r matches Some(block) ==> valid_state(block),
{
    valence::block::BlockKind::from_str(name).map(|kind| kind.to_state().to_raw())
}

/// `BlockKind::props`: the names of the properties of the state's kind, each once. Each has a
/// value in this state. Setting one of them, in any state of the kind, to the value that it has
/// in this state changes that property and no other, and leaves the kind alone. A state is
/// determined by its kind and the values of these properties.
#[verifier::external_body]
pub(crate) fn state_properties(block: BlockState) -> (r: Vec<String>)
    requires
        valid_state(block),
    ensures
        r@.map_values(|name: String| name@) == property_names(block),
        forall|i: int, j: int| 0 <= i < j < r@.len() ==> (#[trigger] r@[i])@ != (#[trigger] r@[j])@,
        forall|i: int|
            #![trigger r@[i]]
            0 <= i < r@.len() ==> known_property(r@[i]@) && property_value(block, r@[i]@) is Some,
        forall|state: u16, i: int|
            #![trigger with_property(state, r@[i]@, property_value(block, r@[i]@)->0)]
            (0 <= i < r@.len() && same_kind(state, block)) ==> sets_property(
                state,
                with_property(state, r@[i]@, property_value(block, r@[i]@)->0),
                r@[i]@,
                property_value(block, r@[i]@),
            ),
        forall|state: u16| (#[trigger] same_kind(state, block) && agrees(state, block, r@)) ==> state
            == block,
{
    let kind = valence::BlockState::from_raw(block).unwrap().to_kind();
    kind.props().iter().map(|name| name.to_str().to_string()).collect()
}

/// True iff `after` differs from `before` at most in the property `name`, which has `value`.
pub open spec fn sets_property(
    before: u16,
    after: u16,
    name: Seq<char>,
    value: Option<Seq<char>>,
) -> bool {
    &&& same_kind(after, before)
    &&& property_value(after, name) == value
    &&& forall|other: Seq<char>|
        other != name ==> #[trigger] property_value(after, other) == property_value(before, other)
}

/// True iff the two states have the same value of every one of these properties.
pub open spec fn agrees(a: u16, b: u16, names: Seq<String>) -> bool {
    forall|i: int|
        0 <= i < names.len() ==> property_value(a, (#[trigger] names[i])@) == property_value(
            b,
            names[i]@,
        )
}

/// `BlockState::get`, with `PropName::from_str` and `PropValue::to_str`: the value of the state's
/// property of that name, or nothing where it has none. The value is one that
/// `PropValue::from_str` knows.
#[verifier::external_body]
pub(crate) fn state_property(block: BlockState, name: &str) -> (r: Option<String>)
    requires
        valid_state(block),
    ensures
        r is Some == property_value(block, name@) is Some,
        r matches Some(value) ==> property_value(block, name@) == Some(value@) && known_value(
            value@,
        ),
{
    let name = valence::block::PropName::from_str(name)?;
    valence::BlockState::from_raw(block).unwrap().get(name).map(|value| value.to_str().to_string())
}

/// `PropName::from_str`: whether some kind has a property of that name.
#[verifier::external_body]
pub(crate) fn is_property(name: &str) -> (r: bool)
    ensures
        r == known_property(name@),
{
    valence::block::PropName::from_str(name).is_some()
}

/// `PropValue::from_str`: whether some property has that value.
#[verifier::external_body]
pub(crate) fn is_property_value(value: &str) -> (r: bool)
    ensures
        r == known_value(value@),
{
    valence::block::PropValue::from_str(value).is_some()
}

/// `BlockState::set`: the state with that property set to that value; the state itself where it
/// has no such property or the property no such value.
#[verifier::external_body]
pub(crate) fn set_state_property(block: BlockState, name: &str, value: &str) -> (r: BlockState)
    requires
        valid_state(block),
        known_property(name@),
        known_value(value@),
    ensures
        r == with_property(block, name@, value@),
        valid_state(r),
{
    let name = valence::block::PropName::from_str(name).unwrap();
    let value = valence::block::PropValue::from_str(value).unwrap();
    valence::BlockState::from_raw(block).unwrap().set(name, value).to_raw()
}

/// The block that an item places, by the item's raw id.
pub uninterp spec fn block_of_item(item: u16) -> Option<u16>;

/// `ItemKind::from_raw`, `BlockKind::from_item_kind` and `BlockKind::to_state`: the default state
/// of the block that the item places, or nothing where no item has the id or it places none.
#[verifier::external_body]
pub(crate) fn item_block(item: u16) -> (r: Option<BlockState>)
    ensures
        r == block_of_item(item),
        r matches Some(block) ==> valid_state(block),
{
    let kind = valence::block::BlockKind::from_item_kind(valence::ItemKind::from_raw(item)?)?;
    Some(kind.to_state().to_raw())
}

} // verus!
