//! Identifiers. Every entity is named by the 128-bit value of a UUID.

use vstd::prelude::*;

verus! {

/// Identifies a card.
pub type CardId = u128;

/// Identifies a player.
pub type PlayerId = u128;

/// Identifies a deck.
pub type DeckId = u128;

/// Identifies a game.
pub type GameId = u128;

/// Identifies an effect.
pub type EffectId = u128;

/// Identifies an event.
pub type EventId = u128;

/// The bits of a UUID that hold its version and its variant.
pub const UUID_KIND_MASK: u128 = 0x0000_0000_0000_F000_C000_0000_0000_0000u128;

/// What those bits hold in a random (version 4) UUID of the standard variant.
pub const UUID_KIND_RANDOM: u128 = 0x0000_0000_0000_4000_8000_0000_0000_0000u128;

/// Whether `id` is the value of a random (version 4) UUID.
pub open spec fn is_random_uuid(id: u128) -> bool {
    id & UUID_KIND_MASK == UUID_KIND_RANDOM
}

/// A fresh identifier: the big-endian value of `uuid::Uuid::new_v4()`, read
/// with `Uuid::as_u128`. All but six of its bits are random; the contract
/// claims only the six that `new_v4` fixes, the version and the variant.
#[verifier::external_body]
pub(crate) fn fresh_id() -> (id: u128)
    ensures
        is_random_uuid(id),
{
    uuid::Uuid::new_v4().as_u128()
}

/// The text of the UUID with the value `id`: thirty-two hexadecimal
/// digits in lower case, in five groups with hyphens between them.
pub uninterp spec fn uuid_text(id: u128) -> Seq<char>;

/// An identifier as text: `uuid::Uuid::from_u128(id).to_string()`, the
/// hyphenated lower-case form of the UUID with that value. The result is
/// determined by `id`; the contract gives it a name.
#[verifier::external_body]
pub(crate) fn uuid_string(id: u128) -> (r: String)
    ensures
        r@ == uuid_text(id),
{
    uuid::Uuid::from_u128(id).to_string()
}

/// The texts of identifiers, with a comma and a blank between them.
pub open spec fn listed(ids: Seq<u128>) -> Seq<char>
    decreases ids.len(),
{
    if ids.len() == 0 {
        Seq::empty()
    } else if ids.len() == 1 {
        uuid_text(ids[0])
    } else {
        listed(ids.drop_last()) + ", "@ + uuid_text(ids.last())
    }
}

/// A list of identifiers as text, in square brackets.
pub open spec fn list_text(ids: Seq<u128>) -> Seq<char> {
    "["@ + listed(ids) + "]"@
}

/// An identifier that may be missing, as text.
pub open spec fn optional_text(id: Option<u128>) -> Seq<char> {
    match id {
        Some(id) => "Some("@ + uuid_text(id) + ")"@,
        None => "None"@,
    }
}

/// A list of identifiers as text, in square brackets.
pub fn list_string(ids: &Vec<u128>) -> (r: String)
    ensures
        r@ == list_text(ids@),
{
    let mut text = String::from_str("[");
    let mut i: usize = 0;
    proof {
        assert(text@ =~= "["@ + listed(ids@.take(0)));
    }
    while i < ids.len()
        invariant
            i <= ids@.len(),
            text@ == "["@ + listed(ids@.take(i as int)),
        decreases ids@.len() - i,
    {
        let ghost before = text@;
        proof {
            assert(ids@.take(i as int + 1).drop_last() =~= ids@.take(i as int));
        }
        if i > 0 {
            text.append(", ");
        }
        let one = uuid_string(ids[i]);
        text.append(one.as_str());
        i += 1;
        proof {
            if i == 1 {
                assert(listed(ids@.take(0)) =~= Seq::empty());
                assert(text@ =~= "["@ + listed(ids@.take(i as int)));
            } else {
                assert(text@ =~= "["@ + listed(ids@.take(i as int)));
            }
        }
    }
    proof {
        assert(ids@.take(ids@.len() as int) =~= ids@);
    }
    text.append("]");
    text
}

/// An identifier that may be missing, as text.
pub fn optional_string(id: Option<u128>) -> (r: String)
    ensures
        r@ == optional_text(id),
{
    match id {
        Some(id) => {
            let mut text = String::from_str("Some(");
            let one = uuid_string(id);
            text.append(one.as_str());
            text.append(")");
            text
        },
        None => String::from_str("None"),
    }
}

} // verus!
